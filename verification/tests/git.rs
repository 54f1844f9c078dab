use pass_store::git::{
    commit_all, commit_file, init, should_sign_commits, verify_git_initialized, GitEvent,
    GitRequest, GitStep,
};
use pass_store::Error;

fn strings(items: &[&str]) -> Vec<String> {
    items.iter().map(|s| s.to_string()).collect()
}

fn out(success: bool, stdout: &str) -> GitEvent {
    GitEvent::Output { success, stdout: stdout.to_string() }
}

/// Answers every request from `replies` in turn and returns what was asked.
fn play(step: GitStep, replies: Vec<GitEvent>) -> (Vec<Vec<String>>, GitStep) {
    let mut asked = Vec::new();
    let mut step = step;
    let mut replies = replies.into_iter();
    loop {
        match step {
            GitStep::Need(request, pending) => {
                match request {
                    GitRequest::Run { args } => asked.push(args),
                    GitRequest::Append { file, text } => {
                        asked.push(vec!["append".to_string(), file, text])
                    }
                }
                match replies.next() {
                    Some(reply) => step = pending.resume(reply),
                    None => panic!("asked more than expected: {:?}", asked),
                }
            }
            over => return (asked, over),
        }
    }
}

#[test]
fn repository_is_told_by_the_word_true() {
    assert_eq!(verify_git_initialized("true\n"), Ok(()));
    assert_eq!(verify_git_initialized("  true  "), Ok(()));
    assert_eq!(verify_git_initialized("false\n"), Err(Error::PassStoreShouldBeGitRepo));
    assert_eq!(verify_git_initialized(""), Err(Error::PassStoreShouldBeGitRepo));
    assert_eq!(verify_git_initialized("True\n"), Err(Error::PassStoreShouldBeGitRepo));
    assert_eq!(verify_git_initialized("true true"), Err(Error::PassStoreShouldBeGitRepo));
    assert_eq!(verify_git_initialized("tru"), Err(Error::PassStoreShouldBeGitRepo));
}

#[test]
fn signing_is_told_by_the_word_true() {
    assert!(should_sign_commits("true\n"));
    assert!(!should_sign_commits("\n"));
    assert!(!should_sign_commits("false"));
    for output in ["true", " true\r\n", "truer", "TRUE", "", "t r u e", "\u{a0}true\u{2003}"] {
        assert_eq!(should_sign_commits(output), output.trim() == "true", "output {:?}", output);
    }
}

#[test]
fn commit_file_stages_checks_and_commits() {
    let (asked, step) = play(
        commit_file("web/bank.gpg".to_string(), "Add web/bank".to_string()),
        vec![
            out(true, "true\n"),
            out(true, ""),
            out(true, "A  web/bank.gpg\n"),
            out(true, "true\n"),
            out(false, ""),
            out(true, "[main 1234] Add web/bank\n"),
        ],
    );
    assert!(matches!(step, GitStep::Done));
    assert_eq!(
        asked,
        vec![
            strings(&["rev-parse", "--is-inside-work-tree"]),
            strings(&["add", "web/bank.gpg"]),
            strings(&["status", "--porcelain", "web/bank.gpg"]),
            strings(&["rev-parse", "--is-inside-work-tree"]),
            strings(&["config", "bool", "--get", "pass.signcommits"]),
            strings(&["commit", "-m", "Add web/bank"]),
        ]
    );
}

#[test]
fn commit_is_signed_where_the_store_says_so() {
    let (asked, step) = play(
        commit_all("Everything".to_string()),
        vec![
            out(true, "true\n"),
            out(true, ""),
            out(true, "true\n"),
            out(true, "true\n"),
            out(true, ""),
        ],
    );
    assert!(matches!(step, GitStep::Done));
    assert_eq!(
        asked,
        vec![
            strings(&["rev-parse", "--is-inside-work-tree"]),
            strings(&["add", "--all"]),
            strings(&["rev-parse", "--is-inside-work-tree"]),
            strings(&["config", "bool", "--get", "pass.signcommits"]),
            strings(&["commit", "-S", "-m", "Everything"]),
        ]
    );
}

#[test]
fn commit_outside_a_repository() {
    let (asked, step) =
        play(commit_file("a.gpg".to_string(), "m".to_string()), vec![out(false, "")]);
    assert_eq!(asked.len(), 1);
    assert!(matches!(step, GitStep::Failed(Error::PassStoreShouldBeGitRepo)));
}

#[test]
fn file_that_was_not_staged() {
    let (asked, step) = play(
        commit_file("a.gpg".to_string(), "m".to_string()),
        vec![out(true, "true"), out(true, ""), out(true, "")],
    );
    assert_eq!(asked.len(), 3);
    match step {
        GitStep::Failed(error) => {
            assert_eq!(error, Error::CantStageFile { file_name: "a.gpg".to_string() })
        }
        other => panic!("{:?}", other),
    }
}

#[test]
fn commit_that_git_refuses() {
    let (_, step) = play(
        commit_all("m".to_string()),
        vec![out(true, "true"), out(true, ""), out(true, "true"), out(true, ""), out(false, "")],
    );
    assert!(matches!(step, GitStep::Failed(Error::CantCommit)));
}

#[test]
fn command_that_cannot_be_run() {
    let (_, step) = play(
        commit_all("m".to_string()),
        vec![out(true, "true"), GitEvent::Failed(Error::IO("no git".to_string()))],
    );
    match step {
        GitStep::Failed(error) => assert_eq!(error, Error::IO("no git".to_string())),
        other => panic!("{:?}", other),
    }
}

#[test]
fn init_sets_the_store_up() {
    let (asked, step) = play(
        init(strings(&["--initial-branch", "main"])),
        vec![
            out(false, ""),
            out(true, "Initialized empty Git repository"),
            out(true, "true"),
            out(true, ""),
            out(true, "true"),
            out(true, "false"),
            out(true, ""),
            GitEvent::Done,
            out(true, "true"),
            out(true, ""),
            out(true, "A  .gitattributes"),
            out(true, "true"),
            out(true, ""),
            out(true, ""),
            out(true, ""),
            out(true, ""),
        ],
    );
    assert!(matches!(step, GitStep::Done));
    assert_eq!(
        asked,
        vec![
            strings(&["rev-parse", "--is-inside-work-tree"]),
            strings(&["init", "--initial-branch", "main"]),
            strings(&["rev-parse", "--is-inside-work-tree"]),
            strings(&["add", "--all"]),
            strings(&["rev-parse", "--is-inside-work-tree"]),
            strings(&["config", "bool", "--get", "pass.signcommits"]),
            strings(&["commit", "-m", "Add current contents of password store."]),
            strings(&["append", ".gitattributes", "*.gpg diff=gpg\n"]),
            strings(&["rev-parse", "--is-inside-work-tree"]),
            strings(&["add", ".gitattributes"]),
            strings(&["status", "--porcelain", ".gitattributes"]),
            strings(&["rev-parse", "--is-inside-work-tree"]),
            strings(&["config", "bool", "--get", "pass.signcommits"]),
            strings(&["commit", "-m", "Configure git repository for gpg file diff."]),
            strings(&["config", "--local", "diff.gpg.binary", "true"]),
            strings(&[
                "config",
                "--local",
                "diff.gpg.textconv",
                "gpg -d --quiet --yes --compress-algo=none --no-encrypt-to",
            ]),
        ]
    );
}

#[test]
fn init_of_a_repository_is_refused() {
    let (asked, step) = play(init(Vec::new()), vec![out(true, "true\n")]);
    assert_eq!(asked.len(), 1);
    assert!(matches!(step, GitStep::Failed(Error::GitRepoAlreadyInitialized)));
}

#[test]
fn init_that_git_refuses() {
    let (asked, step) = play(init(Vec::new()), vec![out(false, ""), out(false, "")]);
    assert_eq!(asked[1], strings(&["init"]));
    assert!(matches!(step, GitStep::Failed(Error::CantInitGitRepo)));
}

#[test]
fn outcome_that_was_not_asked_for() {
    let (_, step) = play(commit_all("m".to_string()), vec![GitEvent::Done]);
    assert!(matches!(step, GitStep::Failed(Error::UnexpectedEvent)));
}

#[test]
fn white_space_is_what_the_standard_library_trims() {
    for code in 0..0x30000u32 {
        let c = match char::from_u32(code) {
            Some(c) => c,
            None => continue,
        };
        let output = format!("{c}true{c}");
        assert_eq!(should_sign_commits(&output), output.trim() == "true", "output {:?}", output);
    }
}
