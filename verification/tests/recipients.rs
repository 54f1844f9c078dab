use pass_store::{get_marker_paths, get_recipients, parse_recipients, Error};
use std::collections::BTreeMap;

fn strings(items: &[&str]) -> Vec<String> {
    items.iter().map(|s| s.to_string()).collect()
}

fn resolve(markers: &BTreeMap<String, String>, root: &str, name: &str) -> Result<Vec<String>, Error> {
    let found: Vec<Option<String>> =
        get_marker_paths(root, name).iter().map(|path| markers.get(path).cloned()).collect();
    get_recipients(&found)
}

#[test]
fn recipients_are_the_lines_that_are_not_empty() {
    assert_eq!(parse_recipients("alice@example.com\n"), strings(&["alice@example.com"]));
    assert_eq!(parse_recipients("alice\nbob\n"), strings(&["alice", "bob"]));
    assert_eq!(parse_recipients("alice\n\nbob"), strings(&["alice", "bob"]));
    assert_eq!(parse_recipients("\r\nalice\r\n\r\n"), strings(&["alice"]));
    assert_eq!(parse_recipients(""), Vec::<String>::new());
    assert_eq!(parse_recipients("\n\n"), Vec::<String>::new());
}

#[test]
fn recipients_keep_the_order_of_the_file() {
    assert_eq!(parse_recipients("zed\nalice\nmike\n"), strings(&["zed", "alice", "mike"]));
    assert_eq!(parse_recipients("0xDEADBEEF\nalice bob <ab@x>\n"), strings(&["0xDEADBEEF", "alice bob <ab@x>"]));
}

#[test]
fn nearest_marker_wins() {
    let found = vec![None, Some("R1\n".to_string()), Some("R0\n".to_string())];
    assert_eq!(get_recipients(&found), Ok(strings(&["R1"])));
    let found = vec![Some("near\n".to_string()), None, Some("far\n".to_string())];
    assert_eq!(get_recipients(&found), Ok(strings(&["near"])));
}

#[test]
fn nearer_marker_is_not_merged_with_the_root() {
    let found = vec![Some("a\nb\n".to_string()), Some("c\n".to_string())];
    assert_eq!(get_recipients(&found), Ok(strings(&["a", "b"])));
}

#[test]
fn empty_marker_still_governs() {
    let found = vec![Some("".to_string()), Some("root\n".to_string())];
    assert_eq!(get_recipients(&found), Ok(Vec::<String>::new()));
}

#[test]
fn no_marker_means_uninitialized() {
    assert_eq!(get_recipients(&vec![None, None, None]), Err(Error::PasswordStoreUninitialized));
    assert_eq!(get_recipients(&Vec::new()), Err(Error::PasswordStoreUninitialized));
}

#[test]
fn recipient_shadowing() {
    let mut markers = BTreeMap::new();
    markers.insert("/store/.gpg-id".to_string(), "R0\n".to_string());
    markers.insert("/store/a/.gpg-id".to_string(), "R1\n".to_string());
    assert_eq!(resolve(&markers, "/store", "a/b/secret"), Ok(strings(&["R1"])));
    assert_eq!(resolve(&markers, "/store", "c/secret"), Ok(strings(&["R0"])));
    assert_eq!(resolve(&markers, "/store", "a/secret"), Ok(strings(&["R1"])));
    assert_eq!(resolve(&markers, "/store", "secret"), Ok(strings(&["R0"])));
    assert_eq!(resolve(&markers, "/store", "ab/secret"), Ok(strings(&["R0"])));
}

#[test]
fn markers_outside_the_store_do_not_count() {
    let mut markers = BTreeMap::new();
    markers.insert("/.gpg-id".to_string(), "outside\n".to_string());
    assert_eq!(resolve(&markers, "/store", "a/secret"), Err(Error::PasswordStoreUninitialized));
}
