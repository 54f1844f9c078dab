use pass_store::{
    check_retyped, create_temp_file, get_line, how_i_invoked, lines, list_lines,
    remove_first_line, replace_first_line, secure_tempdir, show_line, yesno, Error, TempStorage,
};

fn strings(items: &[&str]) -> Vec<String> {
    items.iter().map(|s| s.to_string()).collect()
}

#[test]
fn lines_end_at_line_feeds() {
    assert_eq!(lines("a\nb\nc"), strings(&["a", "b", "c"]));
    assert_eq!(lines("a\nb\n"), strings(&["a", "b"]));
    assert_eq!(lines("a\n\nb"), strings(&["a", "", "b"]));
    assert_eq!(lines("\n"), strings(&[""]));
    assert_eq!(lines(""), Vec::<String>::new());
}

#[test]
fn lines_drop_the_carriage_return_before_a_line_feed() {
    assert_eq!(lines("foo\r\nbar\n\r\nbaz\r"), strings(&["foo", "bar", "", "baz\r"]));
    assert_eq!(lines("a\rb\n"), strings(&["a\rb"]));
    assert_eq!(lines("a\r\r\n"), strings(&["a\r"]));
}

#[test]
fn lines_agree_with_the_standard_library() {
    let texts = [
        "",
        "\n",
        "\r",
        "\r\n",
        "one",
        "one\n",
        "one\ntwo",
        "one\r\ntwo\r\n",
        "\n\n\n",
        "a\n\r\n\rb\r",
        "caf\u{e9}\n\u{1F600}\n",
    ];
    for text in texts {
        let expected: Vec<String> = text.lines().map(|l| l.to_string()).collect();
        assert_eq!(lines(text), expected, "text {:?}", text);
    }
}

#[test]
fn remove_first_line_keeps_the_rest_line_by_line() {
    assert_eq!(remove_first_line("pw\nuser: me\nurl: x\n"), "user: me\nurl: x\n");
    assert_eq!(remove_first_line("pw\nuser: me\nurl: x"), "user: me\nurl: x\n");
    assert_eq!(remove_first_line("pw\r\nuser\r\n"), "user\n");
    assert_eq!(remove_first_line("pw\n\nlast"), "\nlast\n");
}

#[test]
fn remove_first_line_of_one_line_is_empty() {
    assert_eq!(remove_first_line("pw"), "");
    assert_eq!(remove_first_line("pw\n"), "");
    assert_eq!(remove_first_line(""), "");
}

#[test]
fn replace_first_line_puts_the_password_first() {
    assert_eq!(replace_first_line("new", "old\nuser: me\n"), "new\nuser: me\n");
    assert_eq!(replace_first_line("new", "old"), "new\n");
    assert_eq!(replace_first_line("new", ""), "new\n");
}

#[test]
fn get_line_counts_from_one() {
    assert_eq!(get_line("pw\nuser\n", 1), Ok("pw".to_string()));
    assert_eq!(get_line("pw\nuser\n", 2), Ok("user".to_string()));
}

#[test]
fn get_line_beyond_the_text_is_an_error() {
    assert_eq!(get_line("pw\nuser\n", 3), Err(Error::NoPasswordAtLine { line_number: 3 }));
    assert_eq!(get_line("", 1), Err(Error::NoPasswordAtLine { line_number: 1 }));
    assert_eq!(get_line("pw", 0), Err(Error::NoPasswordAtLine { line_number: 0 }));
}

#[test]
fn yesno_reads_yes_and_no() {
    assert_eq!(yesno(false, "y\n"), Some(true));
    assert_eq!(yesno(false, "yes\n"), Some(true));
    assert_eq!(yesno(true, "n\n"), Some(false));
    assert_eq!(yesno(true, "no\n"), Some(false));
}

#[test]
fn yesno_ignores_case_and_white_space() {
    assert_eq!(yesno(false, "  YES \r\n"), Some(true));
    assert_eq!(yesno(false, "\tY"), Some(true));
    assert_eq!(yesno(true, " No\u{a0}"), Some(false));
    assert_eq!(yesno(true, "N"), Some(false));
}

#[test]
fn yesno_takes_the_proposed_answer_for_an_empty_line() {
    assert_eq!(yesno(false, "\n"), Some(false));
    assert_eq!(yesno(true, "\n"), Some(true));
    assert_eq!(yesno(true, ""), Some(true));
    assert_eq!(yesno(false, "   "), Some(false));
}

#[test]
fn yesno_refuses_anything_else() {
    assert_eq!(yesno(false, "maybe\n"), None);
    assert_eq!(yesno(true, "yess"), None);
    assert_eq!(yesno(true, "ye"), None);
    assert_eq!(yesno(true, "y e s"), None);
    assert_eq!(yesno(true, "nope"), None);
}

#[test]
fn yesno_agrees_with_lowercase_and_trim() {
    let answers = ["y", "Y", "yEs", " no ", "NO\n", "", " ", "x", "n o", "\u{212a}", "Yes\u{3000}"];
    for answer in answers {
        let expected = match answer.to_lowercase().trim() {
            "y" | "yes" => Some(true),
            "n" | "no" => Some(false),
            "" => Some(false),
            _ => None,
        };
        assert_eq!(yesno(false, answer), expected, "answer {:?}", answer);
    }
}

#[test]
fn retyped_password_must_be_the_same() {
    assert_eq!(check_retyped("hunter2".to_string(), "hunter2"), Ok("hunter2".to_string()));
    assert_eq!(check_retyped("hunter2".to_string(), "hunter3"), Err(Error::PasswordsDontMatch));
    assert_eq!(check_retyped("".to_string(), " "), Err(Error::PasswordsDontMatch));
}

#[test]
fn program_name_is_the_last_segment() {
    assert_eq!(how_i_invoked("/usr/bin/pass"), Some("pass".to_string()));
    assert_eq!(how_i_invoked("pass"), Some("pass".to_string()));
    assert_eq!(how_i_invoked("./target/debug/pass"), Some("pass".to_string()));
    assert_eq!(how_i_invoked("bin/pass//"), Some("pass".to_string()));
}

#[test]
fn program_name_agrees_with_the_standard_library() {
    let paths = [
        "", "/", ".", "..", "./", "a", "a/", "a/.", "a/./", "a/./.", "./a", "/a/b", "a/..",
        "a/../b", "...", "a/.b", "a/b.", "/.", "//", "a//b//", ".//.", "/usr/bin/pass", "./pass",
    ];
    for path in paths {
        let expected = std::path::Path::new(path)
            .file_name()
            .map(|name| name.to_str().unwrap().to_string());
        assert_eq!(how_i_invoked(path), expected, "path {:?}", path);
    }
}

#[test]
fn program_name_may_be_missing() {
    assert_eq!(how_i_invoked(""), None);
    assert_eq!(how_i_invoked("/"), None);
    assert_eq!(how_i_invoked("bin/.."), None);
    assert_eq!(how_i_invoked("."), None);
}

#[test]
fn volatile_directory_is_named_after_the_program() {
    assert_eq!(secure_tempdir("pass"), "/dev/shm/pass.XXXXXXXXXXXXX");
}

#[test]
fn ordinary_disk_only_with_consent() {
    assert_eq!(create_temp_file(true, None), TempStorage::Volatile);
    assert_eq!(create_temp_file(true, Some(false)), TempStorage::Volatile);
    assert_eq!(create_temp_file(false, None), TempStorage::AskConsent);
    assert_eq!(create_temp_file(false, Some(true)), TempStorage::Persistent);
    assert_eq!(create_temp_file(false, Some(false)), TempStorage::Refused);
}

#[test]
fn shown_lines_lose_the_ending() {
    assert_eq!(show_line("├── bank.gpg"), "├── bank");
    assert_eq!(show_line("a.gpg.gpg"), "a");
    assert_eq!(show_line(".gp.gpgg"), ".gpg");
    assert_eq!(show_line("no ending"), "no ending");
    assert_eq!(show_line(".gpg"), "");
    assert_eq!(show_line(".gp"), ".gp");
}

#[test]
fn shown_lines_agree_with_replace() {
    let all = ["", ".gpg", "x.gpgy.gpg", "..gpg", ".g.gpgpg", "web/bank.gpg", "....", ".gpg.gp"];
    for line in all {
        assert_eq!(show_line(line), line.replace(".gpg", ""), "line {:?}", line);
    }
}

#[test]
fn listing_skips_the_first_line() {
    let output = "/home/me/.password-store\n├── web\n│   └── bank.gpg\n└── mail.gpg\n";
    assert_eq!(list_lines(output), strings(&["├── web", "│   └── bank", "└── mail"]));
    assert_eq!(list_lines("only the root\n"), Vec::<String>::new());
    assert_eq!(list_lines(""), Vec::<String>::new());
}

#[test]
fn yesno_agrees_with_lowercase_and_trim_on_every_letter() {
    for code in 0..0x30000u32 {
        let c = match char::from_u32(code) {
            Some(c) => c,
            None => continue,
        };
        for answer in [c.to_string(), format!("{c}es"), format!("n{c}"), format!("{c}no{c}")] {
            let expected = match answer.to_lowercase().trim() {
                "y" | "yes" => Some(true),
                "n" | "no" => Some(false),
                "" => Some(true),
                _ => None,
            };
            assert_eq!(yesno(true, &answer), expected, "answer {:?}", answer);
        }
    }
}
