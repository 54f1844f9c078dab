use pass_store::{
    check_uninitialized_store, find_recursion, get_dir_name, get_dir_path, get_marker_paths,
    get_pass_file, get_pass_path, is_valid_name, Error,
};

#[test]
fn pass_path_joins_root_name_and_ending() {
    assert_eq!(get_pass_path("/store", "web/bank"), "/store/web/bank.gpg");
    assert_eq!(get_pass_path("/home/me/.password-store", "mail"), "/home/me/.password-store/mail.gpg");
    assert_eq!(get_pass_file("web/bank"), "web/bank.gpg");
    assert_eq!(get_dir_path("/store", "web"), "/store/web");
}

#[test]
fn names_with_dotdot_are_refused() {
    assert!(is_valid_name("web/bank"));
    assert!(is_valid_name("a/..b/c"));
    assert!(is_valid_name("a/b../c"));
    assert!(is_valid_name("a/.../c"));
    assert!(!is_valid_name(".."));
    assert!(!is_valid_name("../x"));
    assert!(!is_valid_name("a/../b"));
    assert!(!is_valid_name("a/.."));
}

#[test]
fn empty_and_absolute_names_are_refused() {
    assert!(!is_valid_name(""));
    assert!(!is_valid_name("/etc/passwd"));
    assert!(!is_valid_name("/"));
}

#[test]
fn names_with_an_empty_segment_are_refused() {
    assert!(!is_valid_name("web/"));
    assert!(!is_valid_name("web//bank"));
    assert!(!is_valid_name("web/bank//"));
    assert!(!is_valid_name("//"));
    assert!(is_valid_name("web/bank"));
    assert!(is_valid_name("w"));
}

#[test]
fn names_with_a_dot_segment_are_refused() {
    assert!(!is_valid_name("."));
    assert!(!is_valid_name("./web"));
    assert!(!is_valid_name("web/./bank"));
    assert!(!is_valid_name("web/."));
    assert!(is_valid_name(".web"));
    assert!(is_valid_name("web./bank"));
    assert!(is_valid_name("web/.bank"));
    assert!(is_valid_name("web/b.a.n.k"));
}

#[test]
fn every_valid_name_is_its_own_path() {
    let names = [
        "a", "a/b", "a/b/c", "a/", "/a", "a//b", ".", "./a", "a/.", "a/./b", "..", "a/..", "../a",
        "a/../b", "", "...", "a/...", ".a", "a.", "a/.b/c.", "a b/c", "\u{e9}/\u{1F600}",
    ];
    for name in names {
        let path = std::path::Path::new(name);
        let parts: Vec<String> = path
            .components()
            .map(|c| match c {
                std::path::Component::Normal(part) => part.to_str().unwrap().to_string(),
                _ => String::from("/"),
            })
            .collect();
        let expected = !name.is_empty() && !parts.iter().any(|p| p == "/") && parts.join("/") == name;
        assert_eq!(is_valid_name(name), expected, "name {:?}", name);
    }
}

#[test]
fn directory_names_lose_the_slashes_at_their_end() {
    assert_eq!(get_dir_name("web/"), "web");
    assert_eq!(get_dir_name("web///"), "web");
    assert_eq!(get_dir_name("web/sub/"), "web/sub");
    assert_eq!(get_dir_name("web"), "web");
    assert_eq!(get_dir_name("/web"), "/web");
    assert_eq!(get_dir_name("/"), "");
    assert_eq!(get_dir_name(""), "");
}

#[test]
fn marker_paths_go_from_the_entry_up_to_the_root() {
    assert_eq!(
        get_marker_paths("/store", "a/b/secret"),
        vec![
            "/store/a/b/.gpg-id".to_string(),
            "/store/a/.gpg-id".to_string(),
            "/store/.gpg-id".to_string(),
        ]
    );
    assert_eq!(get_marker_paths("/store", "secret"), vec!["/store/.gpg-id".to_string()]);
}

#[test]
fn marker_paths_of_no_name_are_none() {
    assert_eq!(get_marker_paths("/store", ""), Vec::<String>::new());
}

#[test]
fn store_is_initialized_when_the_root_holds_something() {
    assert_eq!(check_uninitialized_store(Some(1)), Ok(()));
    assert_eq!(check_uninitialized_store(Some(17)), Ok(()));
    assert_eq!(check_uninitialized_store(Some(0)), Err(Error::PasswordStoreUninitialized));
    assert_eq!(check_uninitialized_store(None), Err(Error::PasswordStoreUninitialized));
}

#[test]
fn find_recursion_prefers_the_directory() {
    assert_eq!(
        find_recursion("/store", "web", "net", true, true),
        Ok(("/store/web".to_string(), true, "/store/net".to_string()))
    );
    assert_eq!(
        find_recursion("/store", "web", "net", true, false),
        Ok(("/store/web".to_string(), true, "/store/net".to_string()))
    );
}

#[test]
fn find_recursion_takes_the_entry_where_there_is_no_directory() {
    assert_eq!(
        find_recursion("/store", "web/bank", "finance/bank", false, true),
        Ok(("/store/web/bank.gpg".to_string(), false, "/store/finance/bank.gpg".to_string()))
    );
}

#[test]
fn find_recursion_fails_where_nothing_is_there() {
    assert_eq!(
        find_recursion("/store", "web/bank", "finance/bank", false, false),
        Err(Error::PassDoesNotExist { pass_name: "web/bank".to_string() })
    );
}
