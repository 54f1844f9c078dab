use pass_store::{display_matches, filter_matches, filter_with, run_tree_cmd, Error};

fn strings(items: &[&str]) -> Vec<String> {
    items.iter().map(|s| s.to_string()).collect()
}

#[test]
fn lines_with_one_of_the_words_are_kept() {
    let lines = strings(&["├── web", "│   ├── bank.gpg", "│   └── shop.gpg", "└── mail.gpg"]);
    assert_eq!(
        filter_matches(&lines, &strings(&["bank", "mail"])),
        Some(strings(&["│   ├── bank.gpg", "└── mail.gpg"]))
    );
    assert_eq!(filter_matches(&lines, &strings(&["gpg"])).map(|f| f.len()), Some(3));
}

#[test]
fn case_of_ascii_letters_does_not_count() {
    let lines = strings(&["Bank", "BANKING", "bnk", "my bAnK.gpg"]);
    assert_eq!(
        filter_matches(&lines, &strings(&["bank"])),
        Some(strings(&["Bank", "BANKING", "my bAnK.gpg"]))
    );
    assert_eq!(
        filter_matches(&lines, &strings(&["BANK"])),
        Some(strings(&["Bank", "BANKING", "my bAnK.gpg"]))
    );
}

#[test]
fn case_of_other_letters_counts() {
    let lines = strings(&["caf\u{e9}", "CAF\u{c9}", "Caf\u{e9}"]);
    assert_eq!(
        filter_matches(&lines, &strings(&["caf\u{e9}"])),
        Some(strings(&["caf\u{e9}", "Caf\u{e9}"]))
    );
}

#[test]
fn no_words_match_nothing() {
    let lines = strings(&["a", "b"]);
    assert_eq!(filter_matches(&lines, &Vec::new()), Some(Vec::new()));
}

#[test]
fn empty_word_matches_every_line() {
    let lines = strings(&["a", "", "b"]);
    assert_eq!(filter_matches(&lines, &strings(&[""])), Some(strings(&["a", "", "b"])));
}

#[test]
fn word_longer_than_the_line_does_not_match() {
    let lines = strings(&["ban", "bank"]);
    assert_eq!(filter_matches(&lines, &strings(&["banks"])), Some(Vec::new()));
    assert_eq!(filter_matches(&Vec::new(), &strings(&["x"])), Some(Vec::new()));
}

#[test]
fn matches_are_searched_before_the_ending_is_taken_off() {
    let output = "/store\n├── web\n│   └── Bank.gpg\n├── gpgkeys.gpg\n└── mail.gpg\n";
    assert_eq!(
        display_matches(output, &strings(&["bank"])),
        Some(strings(&["│   └── Bank"]))
    );
    assert_eq!(
        display_matches(output, &strings(&[".gpg"])),
        Some(strings(&["│   └── Bank", "├── gpgkeys", "└── mail"]))
    );
    assert_eq!(display_matches(output, &strings(&["store"])), Some(Vec::new()));
    assert_eq!(display_matches("", &strings(&["x"])), Some(Vec::new()));
}

#[test]
fn listing_programs_are_tried_in_order() {
    assert_eq!(
        run_tree_cmd(0, "/store"),
        Ok(strings(&["eza", "/store", "--tree", "--color=always", "--dereference"]))
    );
    assert_eq!(
        run_tree_cmd(1, "/store"),
        Ok(strings(&["tree", "/store", "-C", "--noreport", "--prune"]))
    );
    assert_eq!(
        run_tree_cmd(2, "/store"),
        Err(Error::TreeCommandNotFound { supported_commands: strings(&["eza", "tree"]) })
    );
    assert!(run_tree_cmd(usize::MAX, "/store").is_err());
}

#[test]
fn a_searcher_built_elsewhere_filters_in_its_own_way() {
    let finder = aho_corasick::AhoCorasick::new(["ank", "ail"]).unwrap();
    let lines = strings(&["bank", "BANK", "mail", "shop"]);
    assert_eq!(filter_with(&finder, &lines), strings(&["bank", "mail"]));
}

#[test]
fn a_searcher_that_cannot_search_finds_nothing() {
    let finder = aho_corasick::AhoCorasick::builder()
        .start_kind(aho_corasick::StartKind::Anchored)
        .build(["bank"])
        .unwrap();
    let lines = strings(&["bank", "my bank"]);
    assert_eq!(filter_with(&finder, &lines), Vec::<String>::new());
}

#[test]
fn a_searcher_for_ordinary_words_does_not_depend_on_the_lines() {
    let words = strings(&["bank", "", "caf\u{e9}"]);
    assert!(filter_matches(&Vec::new(), &words).is_some());
    assert!(filter_matches(&strings(&["x"; 50]), &words).is_some());
    assert!(display_matches("", &words).is_some());
    assert!(display_matches("root\nbank.gpg\n", &words).is_some());
    assert!(filter_matches(&strings(&["a"]), &Vec::new()).is_some());
}
