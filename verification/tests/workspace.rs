use pass_store::{remove, Error, Event, PassFile, Report, Request, Step};
use std::collections::BTreeMap;

/// A store in memory, with a backend that seals by writing the recipients in
/// front of the reversed plaintext.
struct Env {
    files: BTreeMap<String, Vec<u8>>,
    answers: Vec<bool>,
    prompts: Vec<String>,
    repo: bool,
    fail_encrypt: bool,
    fail_write: bool,
    fail_commit: bool,
    fail_remove: bool,
    served: Vec<String>,
    commits: Vec<(String, String, String)>,
}

fn seal(recipients: &[String], plaintext: &[u8]) -> Vec<u8> {
    let mut bytes = format!("to {}:", recipients.join(",")).into_bytes();
    bytes.extend(plaintext.iter().rev());
    bytes
}

fn unseal(bytes: &[u8]) -> Vec<u8> {
    let at = bytes.iter().position(|b| *b == b':').unwrap();
    bytes[at + 1..].iter().rev().cloned().collect()
}

impl Env {
    fn new() -> Env {
        let mut files = BTreeMap::new();
        files.insert("/store/.gpg-id".to_string(), b"alice@example.com\n".to_vec());
        Env {
            files,
            answers: Vec::new(),
            prompts: Vec::new(),
            repo: true,
            fail_encrypt: false,
            fail_write: false,
            fail_commit: false,
            fail_remove: false,
            served: Vec::new(),
            commits: Vec::new(),
        }
    }

    fn count(&self, kind: &str) -> usize {
        self.served.iter().filter(|k| k.as_str() == kind).count()
    }

    fn serve(&mut self, request: Request) -> Event {
        match request {
            Request::ListRoot { root } => {
                self.served.push("list".to_string());
                let prefix = format!("{}/", root);
                Event::Listed(Some(self.files.keys().filter(|k| k.starts_with(&prefix)).count()))
            }
            Request::ReadEntry { path } => {
                self.served.push("read".to_string());
                match self.files.get(&path) {
                    Some(bytes) => Event::Bytes(unseal(bytes)),
                    None => Event::Missing,
                }
            }
            Request::Probe { path } => {
                self.served.push("probe".to_string());
                let below = format!("{}/", path);
                Event::Exists(
                    self.files.contains_key(&path) || self.files.keys().any(|k| k.starts_with(&below)),
                )
            }
            Request::Confirm { path } => {
                self.served.push("confirm".to_string());
                self.prompts.push(path);
                Event::Answer(self.answers.remove(0))
            }
            Request::ConfirmRemoval { pass_name } => {
                self.served.push("confirm removal".to_string());
                self.prompts.push(pass_name);
                Event::Answer(self.answers.remove(0))
            }
            Request::ReadMarkers { paths } => {
                self.served.push("markers".to_string());
                Event::Markers(
                    paths
                        .iter()
                        .map(|p| self.files.get(p).map(|b| String::from_utf8(b.clone()).unwrap()))
                        .collect(),
                )
            }
            Request::Encrypt { recipients, plaintext } => {
                self.served.push("encrypt".to_string());
                if self.fail_encrypt {
                    Event::Failed(Error::GPG("no public key".to_string()))
                } else {
                    Event::Bytes(seal(&recipients, &plaintext))
                }
            }
            Request::WriteFile { path, bytes } => {
                self.served.push("write".to_string());
                if self.fail_write {
                    Event::Failed(Error::IO("disk full".to_string()))
                } else {
                    self.files.insert(path, bytes);
                    Event::Done
                }
            }
            Request::Commit { root, file, message } => {
                self.served.push("commit".to_string());
                if !self.repo {
                    Event::Failed(Error::PassStoreShouldBeGitRepo)
                } else if self.fail_commit {
                    Event::Failed(Error::CantCommit)
                } else {
                    self.commits.push((root, file, message));
                    Event::Done
                }
            }
            Request::RemoveFile { path } => {
                self.served.push("remove".to_string());
                if self.fail_remove {
                    Event::Failed(Error::IO("read-only".to_string()))
                } else {
                    self.files.remove(&path);
                    Event::Done
                }
            }
            Request::ListFiles { dir } => {
                self.served.push("walk".to_string());
                let prefix = format!("{}/", dir);
                Event::Files(self.files.keys().filter(|k| k.starts_with(&prefix)).cloned().collect())
            }
            Request::RemoveTree { path } => {
                self.served.push("remove tree".to_string());
                let prefix = format!("{}/", path);
                self.files.retain(|k, _| !k.starts_with(&prefix));
                Event::Done
            }
        }
    }
}

fn drive(step: Step, env: &mut Env) -> Step {
    let mut step = step;
    loop {
        match step {
            Step::Need(request, pending) => {
                let event = env.serve(request);
                step = pending.resume(event);
            }
            over => return over,
        }
    }
}

fn ready(step: Step) -> (PassFile, Report) {
    match step {
        Step::Ready(ws, report) => (ws, report),
        other => panic!("not ready: {:?}", other),
    }
}

fn failed(step: Step) -> (Option<PassFile>, Error) {
    match step {
        Step::Failed(ws, error) => (ws, error),
        other => panic!("not failed: {:?}", other),
    }
}

fn open(env: &mut Env, name: &str) -> PassFile {
    ready(drive(PassFile::open("/store".to_string(), name.to_string()), env)).0
}

fn put(env: &mut Env, name: &str, plaintext: &[u8]) {
    let recipients = vec!["alice@example.com".to_string()];
    env.files.insert(format!("/store/{}.gpg", name), seal(&recipients, plaintext));
}

#[test]
fn create_write_flush_reopen() {
    let mut env = Env::new();
    let (mut ws, report) =
        ready(drive(PassFile::create("/store".to_string(), "web/bank".to_string(), false), &mut env));
    assert_eq!(report, Report::Untouched);
    assert!(ws.is_modified());
    assert_eq!(ws.pass_name(), "web/bank");
    assert!(!env.files.contains_key("/store/web/bank.gpg"));
    ws.content_writer().extend_from_slice(b"s3cr3t\n");
    ws.set_commit_msg("Add given password for web/bank to store.".to_string());
    let (ws, report) = ready(drive(ws.flush(), &mut env));
    assert_eq!(report, Report::Committed);
    assert!(!ws.is_modified());
    assert_eq!(
        env.files.get("/store/web/bank.gpg"),
        Some(&seal(&["alice@example.com".to_string()], b"s3cr3t\n"))
    );
    assert_eq!(
        env.commits,
        vec![(
            "/store".to_string(),
            "web/bank.gpg".to_string(),
            "Add given password for web/bank to store.".to_string()
        )]
    );
    let reopened = open(&mut env, "web/bank");
    assert_eq!(reopened.content_reader().as_slice(), b"s3cr3t\n");
    assert!(!reopened.is_modified());
    assert_eq!(reopened.pass_name(), "web/bank");
    assert_eq!(reopened.root(), "/store");
    assert_eq!(reopened.commit_msg(), None);
}

#[test]
fn flush_asks_in_order() {
    let mut env = Env::new();
    let mut ws = PassFile::create("/store".to_string(), "mail".to_string(), true);
    ws = match ws {
        Step::Need(Request::ListRoot { root }, pending) => {
            assert_eq!(root, "/store");
            pending.resume(Event::Listed(Some(1)))
        }
        other => panic!("{:?}", other),
    };
    let (mut ws, _) = ready(ws);
    ws.content_writer().extend_from_slice(b"pw");
    ws.set_commit_msg("msg".to_string());
    let step = match ws.flush() {
        Step::Need(Request::ReadMarkers { paths }, pending) => {
            assert_eq!(paths, vec!["/store/.gpg-id".to_string()]);
            pending.resume(Event::Markers(vec![Some("bob\ncarol\n".to_string())]))
        }
        other => panic!("{:?}", other),
    };
    let step = match step {
        Step::Need(Request::Encrypt { recipients, plaintext }, pending) => {
            assert_eq!(recipients, vec!["bob".to_string(), "carol".to_string()]);
            assert_eq!(plaintext, b"pw".to_vec());
            pending.resume(Event::Bytes(b"CIPHER".to_vec()))
        }
        other => panic!("{:?}", other),
    };
    let step = match step {
        Step::Need(Request::WriteFile { path, bytes }, pending) => {
            assert_eq!(path, "/store/mail.gpg");
            assert_eq!(bytes, b"CIPHER".to_vec());
            pending.resume(Event::Done)
        }
        other => panic!("{:?}", other),
    };
    let step = match step {
        Step::Need(Request::Commit { root, file, message }, pending) => {
            assert_eq!(root, "/store");
            assert_eq!(file, "mail.gpg");
            assert_eq!(message, "msg");
            pending.resume(Event::Done)
        }
        other => panic!("{:?}", other),
    };
    let (ws, report) = ready(step);
    assert_eq!(report, Report::Committed);
    assert!(!ws.is_modified());
    assert_eq!(ws.content_reader().as_slice(), b"pw");
    assert!(env.served.is_empty());
}

#[test]
fn flush_twice_writes_once() {
    let mut env = Env::new();
    put(&mut env, "mail", b"old\n");
    let mut ws = open(&mut env, "mail");
    ws.content_writer().extend_from_slice(b"new\n");
    ws.set_commit_msg("Edit mail".to_string());
    let (ws, report) = ready(drive(ws.flush(), &mut env));
    assert_eq!(report, Report::Committed);
    let after_first = env.files.clone();
    assert_eq!(env.count("encrypt"), 1);
    assert_eq!(env.count("write"), 1);
    assert_eq!(env.count("commit"), 1);
    let second = ws.flush();
    assert!(matches!(second, Step::Ready(_, Report::Untouched)));
    let (ws, _) = ready(second);
    assert_eq!(env.count("encrypt"), 1);
    assert_eq!(env.count("write"), 1);
    assert_eq!(env.count("commit"), 1);
    assert_eq!(env.files, after_first);
    assert_eq!(ws.content_reader().as_slice(), b"new\n");
}

#[test]
fn flush_of_a_clean_workspace_asks_nothing() {
    let mut env = Env::new();
    put(&mut env, "mail", b"old\n");
    let ws = open(&mut env, "mail");
    env.served.clear();
    assert!(matches!(ws.flush(), Step::Ready(_, Report::Untouched)));
}

#[test]
fn writing_marks_dirty_and_replaces_the_plaintext() {
    let mut env = Env::new();
    put(&mut env, "mail", b"old old old\n");
    let mut ws = open(&mut env, "mail");
    assert!(!ws.is_modified());
    ws.content_writer().extend_from_slice(b"new\n");
    assert!(ws.is_modified());
    assert_eq!(ws.content_reader().as_slice(), b"new\n");
    let mut ws2 = open(&mut env, "mail");
    let _ = ws2.content_writer();
    assert!(ws2.is_modified());
    assert_eq!(ws2.content_reader().len(), 0);
}

#[test]
fn flush_without_message_writes_and_reports_it() {
    let mut env = Env::new();
    let (mut ws, _) =
        ready(drive(PassFile::create("/store".to_string(), "mail".to_string(), false), &mut env));
    ws.content_writer().extend_from_slice(b"pw\n");
    let (ws, report) = ready(drive(ws.flush(), &mut env));
    assert_eq!(report, Report::Uncommitted);
    assert!(!ws.is_modified());
    assert_eq!(env.count("commit"), 0);
    assert!(env.files.contains_key("/store/mail.gpg"));
}

#[test]
fn flush_outside_a_repository_is_no_error() {
    let mut env = Env::new();
    env.repo = false;
    let (mut ws, _) =
        ready(drive(PassFile::create("/store".to_string(), "mail".to_string(), false), &mut env));
    ws.content_writer().extend_from_slice(b"pw\n");
    ws.set_commit_msg("msg".to_string());
    let (ws, report) = ready(drive(ws.flush(), &mut env));
    assert_eq!(report, Report::Unversioned);
    assert!(!ws.is_modified());
    assert!(env.files.contains_key("/store/mail.gpg"));
}

#[test]
fn failed_commit_is_reported_and_the_write_stays() {
    let mut env = Env::new();
    env.fail_commit = true;
    let (mut ws, _) =
        ready(drive(PassFile::create("/store".to_string(), "mail".to_string(), false), &mut env));
    ws.content_writer().extend_from_slice(b"pw\n");
    ws.set_commit_msg("msg".to_string());
    let (ws, error) = failed(drive(ws.flush(), &mut env));
    assert_eq!(error, Error::CantCommit);
    let ws = ws.unwrap();
    assert!(ws.is_modified());
    assert_eq!(
        env.files.get("/store/mail.gpg"),
        Some(&seal(&["alice@example.com".to_string()], b"pw\n"))
    );
}

#[test]
fn failed_encryption_leaves_the_durable_file() {
    let mut env = Env::new();
    put(&mut env, "mail", b"old\n");
    let before = env.files.clone();
    let mut ws = open(&mut env, "mail");
    ws.content_writer().extend_from_slice(b"new\n");
    env.fail_encrypt = true;
    let (ws, error) = failed(drive(ws.flush(), &mut env));
    assert_eq!(error, Error::GPG("no public key".to_string()));
    assert_eq!(env.files, before);
    assert_eq!(env.count("write"), 0);
    let ws = ws.unwrap();
    assert!(ws.is_modified());
    assert_eq!(ws.content_reader().as_slice(), b"new\n");
}

#[test]
fn failed_write_leaves_the_durable_file() {
    let mut env = Env::new();
    put(&mut env, "mail", b"old\n");
    let before = env.files.clone();
    let mut ws = open(&mut env, "mail");
    ws.content_writer().extend_from_slice(b"new\n");
    ws.set_commit_msg("msg".to_string());
    env.fail_write = true;
    let (ws, error) = failed(drive(ws.flush(), &mut env));
    assert_eq!(error, Error::IO("disk full".to_string()));
    assert_eq!(env.files, before);
    assert_eq!(env.count("commit"), 0);
    assert!(ws.unwrap().is_modified());
}

#[test]
fn flush_without_any_marker_is_uninitialized() {
    let mut env = Env::new();
    let (mut ws, _) =
        ready(drive(PassFile::create("/store".to_string(), "mail".to_string(), false), &mut env));
    env.files.clear();
    ws.content_writer().extend_from_slice(b"pw\n");
    let (_, error) = failed(drive(ws.flush(), &mut env));
    assert_eq!(error, Error::PasswordStoreUninitialized);
    assert!(env.files.is_empty());
    assert_eq!(env.count("encrypt"), 0);
}

#[test]
fn recipients_are_resolved_at_every_flush() {
    let mut env = Env::new();
    let (mut ws, _) =
        ready(drive(PassFile::create("/store".to_string(), "a/mail".to_string(), false), &mut env));
    ws.content_writer().extend_from_slice(b"pw\n");
    let (mut ws, _) = ready(drive(ws.flush(), &mut env));
    assert_eq!(
        env.files.get("/store/a/mail.gpg"),
        Some(&seal(&["alice@example.com".to_string()], b"pw\n"))
    );
    env.files.insert("/store/a/.gpg-id".to_string(), b"bob\ncarol\n".to_vec());
    ws.content_writer().extend_from_slice(b"pw2\n");
    let _ = ready(drive(ws.flush(), &mut env));
    assert_eq!(
        env.files.get("/store/a/mail.gpg"),
        Some(&seal(&["bob".to_string(), "carol".to_string()], b"pw2\n"))
    );
}

#[test]
fn open_missing_entry() {
    let mut env = Env::new();
    let (ws, error) = failed(drive(PassFile::open("/store".to_string(), "nope".to_string()), &mut env));
    assert!(ws.is_none());
    assert_eq!(error, Error::PassDoesNotExist { pass_name: "nope".to_string() });
}

#[test]
fn open_in_an_empty_store() {
    let mut env = Env::new();
    env.files.clear();
    let (ws, error) = failed(drive(PassFile::open("/store".to_string(), "mail".to_string()), &mut env));
    assert!(ws.is_none());
    assert_eq!(error, Error::PasswordStoreUninitialized);
    assert_eq!(env.count("read"), 0);
}

#[test]
fn open_where_the_root_cannot_be_read() {
    let step = match PassFile::open("/store".to_string(), "mail".to_string()) {
        Step::Need(Request::ListRoot { .. }, pending) => pending.resume(Event::Listed(None)),
        other => panic!("{:?}", other),
    };
    assert_eq!(failed(step).1, Error::PasswordStoreUninitialized);
}

#[test]
fn open_passes_a_decryption_failure_on() {
    let step = match PassFile::open("/store".to_string(), "mail".to_string()) {
        Step::Need(Request::ListRoot { .. }, pending) => pending.resume(Event::Listed(Some(3))),
        other => panic!("{:?}", other),
    };
    let step = match step {
        Step::Need(Request::ReadEntry { path }, pending) => {
            assert_eq!(path, "/store/mail.gpg");
            pending.resume(Event::Failed(Error::GPG("bad passphrase".to_string())))
        }
        other => panic!("{:?}", other),
    };
    let (ws, error) = failed(step);
    assert!(ws.is_none());
    assert_eq!(error, Error::GPG("bad passphrase".to_string()));
}

#[test]
fn invalid_names_are_refused_before_anything_is_asked() {
    for name in ["", "/abs", "../x", "a/../b"] {
        let (ws, error) = failed(PassFile::open("/store".to_string(), name.to_string()));
        assert!(ws.is_none());
        assert_eq!(error, Error::InvalidName { pass_name: name.to_string() });
        let (_, error) = failed(PassFile::create("/store".to_string(), name.to_string(), true));
        assert_eq!(error, Error::InvalidName { pass_name: name.to_string() });
        let (_, error) = failed(remove("/store".to_string(), name.to_string(), true, true));
        assert_eq!(error, Error::InvalidName { pass_name: name.to_string() });
    }
    let mut env = Env::new();
    put(&mut env, "mail", b"pw\n");
    let ws = open(&mut env, "mail");
    let (ws, error) = failed(ws.rename("../mail".to_string(), true));
    assert_eq!(error, Error::InvalidName { pass_name: "../mail".to_string() });
    let ws = ws.unwrap();
    assert_eq!(ws.pass_name(), "mail");
    assert!(!ws.is_modified());
    let (_, error) = failed(ws.copy("".to_string(), false));
    assert_eq!(error, Error::InvalidName { pass_name: "".to_string() });
}

#[test]
fn an_answer_that_was_not_asked_for_ends_the_operation() {
    let step = match PassFile::open("/store".to_string(), "mail".to_string()) {
        Step::Need(_, pending) => pending.resume(Event::Done),
        other => panic!("{:?}", other),
    };
    assert_eq!(failed(step).1, Error::UnexpectedEvent);
    let mut env = Env::new();
    put(&mut env, "mail", b"pw\n");
    let mut ws = open(&mut env, "mail");
    ws.content_writer().extend_from_slice(b"x");
    let step = match ws.flush() {
        Step::Need(_, pending) => pending.resume(Event::Answer(true)),
        other => panic!("{:?}", other),
    };
    let (ws, error) = failed(step);
    assert_eq!(error, Error::UnexpectedEvent);
    assert_eq!(ws.unwrap().content_reader().as_slice(), b"x");
}

#[test]
fn create_over_an_entry_asks_first() {
    let mut env = Env::new();
    put(&mut env, "mail", b"old\n");
    let before = env.files.clone();
    env.answers.push(false);
    let step = drive(PassFile::create("/store".to_string(), "mail".to_string(), false), &mut env);
    assert!(matches!(step, Step::Declined(None)));
    assert_eq!(env.prompts, vec!["/store/mail.gpg".to_string()]);
    assert_eq!(env.files, before);
    env.answers.push(true);
    let (ws, _) =
        ready(drive(PassFile::create("/store".to_string(), "mail".to_string(), false), &mut env));
    assert!(ws.is_modified());
    assert_eq!(ws.content_reader().len(), 0);
    assert_eq!(env.files, before);
}

#[test]
fn create_with_force_does_not_ask() {
    let mut env = Env::new();
    put(&mut env, "mail", b"old\n");
    let (ws, _) =
        ready(drive(PassFile::create("/store".to_string(), "mail".to_string(), true), &mut env));
    assert!(env.prompts.is_empty());
    assert_eq!(env.count("probe"), 0);
    assert!(ws.is_modified());
}

#[test]
fn create_in_an_empty_store_is_uninitialized() {
    let mut env = Env::new();
    env.files.clear();
    let (ws, error) =
        failed(drive(PassFile::create("/store".to_string(), "mail".to_string(), true), &mut env));
    assert!(ws.is_none());
    assert_eq!(error, Error::PasswordStoreUninitialized);
}

#[test]
fn rename_declined_changes_nothing() {
    let mut env = Env::new();
    put(&mut env, "web/bank", b"s3cr3t\n");
    put(&mut env, "finance/bank", b"other\n");
    let before = env.files.clone();
    let ws = open(&mut env, "web/bank");
    env.served.clear();
    env.answers.push(false);
    let step = drive(ws.rename("finance/bank".to_string(), false), &mut env);
    let ws = match step {
        Step::Declined(Some(ws)) => ws,
        other => panic!("{:?}", other),
    };
    assert_eq!(ws.pass_name(), "web/bank");
    assert!(!ws.is_modified());
    assert_eq!(ws.content_reader().as_slice(), b"s3cr3t\n");
    assert_eq!(env.files, before);
    assert_eq!(env.prompts, vec!["/store/finance/bank.gpg".to_string()]);
    assert_eq!(env.served, vec!["probe".to_string(), "confirm".to_string()]);
    assert!(matches!(drive(ws.close(), &mut env), Step::Closed(Report::Untouched)));
    assert_eq!(env.files, before);
}

#[test]
fn rename_moves_the_entry() {
    let mut env = Env::new();
    env.files.insert("/store/finance/.gpg-id".to_string(), b"bob\n".to_vec());
    put(&mut env, "web/bank", b"s3cr3t\n");
    put(&mut env, "mail", b"m\n");
    let mail = env.files.get("/store/mail.gpg").cloned();
    let mut ws = open(&mut env, "web/bank");
    ws.set_commit_msg("Rename web/bank to finance/bank.".to_string());
    env.served.clear();
    let (ws, report) = ready(drive(ws.rename("finance/bank".to_string(), false), &mut env));
    assert_eq!(report, Report::Committed);
    assert_eq!(ws.pass_name(), "finance/bank");
    assert!(!ws.is_modified());
    assert_eq!(ws.content_reader().as_slice(), b"s3cr3t\n");
    assert!(!env.files.contains_key("/store/web/bank.gpg"));
    let moved = env.files.get("/store/finance/bank.gpg").unwrap();
    assert_eq!(moved, &seal(&["bob".to_string()], b"s3cr3t\n"));
    assert_eq!(unseal(moved), b"s3cr3t\n".to_vec());
    assert_eq!(env.files.get("/store/mail.gpg").cloned(), mail);
    assert_eq!(
        env.served,
        vec!["probe", "markers", "encrypt", "write", "commit", "remove"]
            .iter()
            .map(|s| s.to_string())
            .collect::<Vec<String>>()
    );
    assert_eq!(env.commits[0].1, "finance/bank.gpg");
}

#[test]
fn rename_over_an_entry_after_consent() {
    let mut env = Env::new();
    put(&mut env, "web/bank", b"s3cr3t\n");
    put(&mut env, "finance/bank", b"other\n");
    let ws = open(&mut env, "web/bank");
    env.answers.push(true);
    let (ws, report) = ready(drive(ws.rename("finance/bank".to_string(), false), &mut env));
    assert_eq!(report, Report::Uncommitted);
    assert_eq!(ws.pass_name(), "finance/bank");
    assert!(!env.files.contains_key("/store/web/bank.gpg"));
    assert_eq!(unseal(env.files.get("/store/finance/bank.gpg").unwrap()), b"s3cr3t\n".to_vec());
}

#[test]
fn rename_that_fails_keeps_the_old_file() {
    for stage in 0..3 {
        let mut env = Env::new();
        put(&mut env, "web/bank", b"s3cr3t\n");
        let source = env.files.get("/store/web/bank.gpg").cloned().unwrap();
        let mut ws = open(&mut env, "web/bank");
        ws.set_commit_msg("msg".to_string());
        match stage {
            0 => env.fail_encrypt = true,
            1 => env.fail_write = true,
            _ => env.fail_commit = true,
        }
        let (ws, _) = failed(drive(ws.rename("finance/bank".to_string(), true), &mut env));
        assert_eq!(env.files.get("/store/web/bank.gpg"), Some(&source), "stage {}", stage);
        assert_eq!(env.count("remove"), 0);
        assert_eq!(env.files.contains_key("/store/finance/bank.gpg"), stage == 2);
        let ws = ws.unwrap();
        assert_eq!(ws.pass_name(), "finance/bank");
        assert!(ws.is_modified());
        assert_eq!(ws.content_reader().as_slice(), b"s3cr3t\n");
    }
}

#[test]
fn rename_removes_only_after_the_write() {
    let mut env = Env::new();
    put(&mut env, "a", b"pw\n");
    let ws = open(&mut env, "a");
    let mut step = ws.rename("b".to_string(), true);
    let mut written = false;
    loop {
        match step {
            Step::Need(request, pending) => {
                if let Request::RemoveFile { path } = &request {
                    assert!(written);
                    assert_eq!(path, "/store/a.gpg");
                    assert!(env.files.contains_key("/store/b.gpg"));
                }
                if let Request::WriteFile { path, .. } = &request {
                    assert_eq!(path, "/store/b.gpg");
                    assert!(env.files.contains_key("/store/a.gpg"));
                    written = true;
                }
                let event = env.serve(request);
                step = pending.resume(event);
            }
            Step::Ready(..) => break,
            other => panic!("{:?}", other),
        }
    }
    assert!(written);
}

#[test]
fn rename_whose_removal_fails_is_reported() {
    let mut env = Env::new();
    put(&mut env, "a", b"pw\n");
    let ws = open(&mut env, "a");
    env.fail_remove = true;
    let (ws, error) = failed(drive(ws.rename("b".to_string(), true), &mut env));
    assert_eq!(error, Error::IO("read-only".to_string()));
    let ws = ws.unwrap();
    assert_eq!(ws.pass_name(), "b");
    assert!(!ws.is_modified());
    assert!(env.files.contains_key("/store/a.gpg"));
    assert!(env.files.contains_key("/store/b.gpg"));
}

#[test]
fn copy_binds_and_writes_at_close() {
    let mut env = Env::new();
    put(&mut env, "web/bank", b"s3cr3t\n");
    let before = env.files.clone();
    let ws = open(&mut env, "web/bank");
    let (ws, report) = ready(drive(ws.copy("web/bank2".to_string(), false), &mut env));
    assert_eq!(report, Report::Untouched);
    assert_eq!(ws.pass_name(), "web/bank2");
    assert!(ws.is_modified());
    assert_eq!(env.files, before);
    assert!(matches!(drive(ws.close(), &mut env), Step::Closed(Report::Uncommitted)));
    assert_eq!(env.files.get("/store/web/bank.gpg"), before.get("/store/web/bank.gpg"));
    assert_eq!(unseal(env.files.get("/store/web/bank2.gpg").unwrap()), b"s3cr3t\n".to_vec());
}

#[test]
fn copy_declined_changes_nothing() {
    let mut env = Env::new();
    put(&mut env, "a", b"1\n");
    put(&mut env, "b", b"2\n");
    let before = env.files.clone();
    let ws = open(&mut env, "a");
    env.answers.push(false);
    let ws = match drive(ws.copy("b".to_string(), false), &mut env) {
        Step::Declined(Some(ws)) => ws,
        other => panic!("{:?}", other),
    };
    assert_eq!(ws.pass_name(), "a");
    assert!(!ws.is_modified());
    assert_eq!(env.files, before);
}

#[test]
fn close_flushes_what_is_dirty() {
    let mut env = Env::new();
    put(&mut env, "mail", b"old\n");
    let mut ws = open(&mut env, "mail");
    ws.content_writer().extend_from_slice(b"new\n");
    ws.set_commit_msg("Edit".to_string());
    assert!(matches!(drive(ws.close(), &mut env), Step::Closed(Report::Committed)));
    assert_eq!(unseal(env.files.get("/store/mail.gpg").unwrap()), b"new\n".to_vec());
}

#[test]
fn close_that_cannot_flush_is_fatal() {
    let mut env = Env::new();
    put(&mut env, "mail", b"old\n");
    let before = env.files.clone();
    let mut ws = open(&mut env, "mail");
    ws.content_writer().extend_from_slice(b"new\n");
    env.fail_encrypt = true;
    match drive(ws.close(), &mut env) {
        Step::Fatal(ws, error) => {
            assert_eq!(error, Error::GPG("no public key".to_string()));
            assert_eq!(ws.pass_name(), "mail");
            assert_eq!(ws.content_reader().as_slice(), b"new\n");
        }
        other => panic!("{:?}", other),
    }
    assert_eq!(env.files, before);
}

#[test]
fn remove_asks_and_deletes() {
    let mut env = Env::new();
    put(&mut env, "mail", b"pw\n");
    put(&mut env, "web/bank", b"pw\n");
    env.answers.push(false);
    let step = drive(remove("/store".to_string(), "mail".to_string(), false, false), &mut env);
    assert!(matches!(step, Step::Declined(None)));
    assert!(env.files.contains_key("/store/mail.gpg"));
    assert_eq!(env.prompts, vec!["mail".to_string()]);
    env.answers.push(true);
    let step = drive(remove("/store".to_string(), "mail".to_string(), false, false), &mut env);
    assert!(matches!(step, Step::Removed));
    assert!(!env.files.contains_key("/store/mail.gpg"));
    assert!(env.files.contains_key("/store/web/bank.gpg"));
}

#[test]
fn remove_of_a_directory_takes_all_below() {
    let mut env = Env::new();
    put(&mut env, "web/bank", b"pw\n");
    put(&mut env, "web/deep/shop", b"pw\n");
    put(&mut env, "webmail", b"pw\n");
    let step = drive(remove("/store".to_string(), "web".to_string(), true, true), &mut env);
    assert!(matches!(step, Step::Removed));
    assert!(env.prompts.is_empty());
    assert_eq!(
        env.files.keys().cloned().collect::<Vec<String>>(),
        vec!["/store/.gpg-id".to_string(), "/store/webmail.gpg".to_string()]
    );
}

#[test]
fn remove_of_nothing_is_an_error() {
    let mut env = Env::new();
    let (_, error) = failed(drive(remove("/store".to_string(), "nope".to_string(), true, false), &mut env));
    assert_eq!(error, Error::PassDoesNotExist { pass_name: "nope".to_string() });
    assert_eq!(env.count("remove"), 0);
}

#[test]
fn close_whose_commit_fails_is_fatal_though_written() {
    let mut env = Env::new();
    put(&mut env, "mail", b"old\n");
    let mut ws = open(&mut env, "mail");
    ws.content_writer().extend_from_slice(b"new\n");
    ws.set_commit_msg("Edit".to_string());
    env.fail_commit = true;
    match drive(ws.close(), &mut env) {
        Step::Fatal(ws, error) => {
            assert_eq!(error, Error::CantCommit);
            assert_eq!(ws.content_reader().as_slice(), b"new\n");
        }
        other => panic!("{:?}", other),
    }
    assert_eq!(unseal(env.files.get("/store/mail.gpg").unwrap()), b"new\n".to_vec());
}

#[test]
fn rename_to_the_same_name_keeps_the_entry() {
    for force in [true, false] {
        let mut env = Env::new();
        env.files.insert("/store/.gpg-id".to_string(), b"bob\n".to_vec());
        put(&mut env, "mail", b"pw\n");
        let ws = open(&mut env, "mail");
        env.served.clear();
        env.answers.push(true);
        let (ws, report) = ready(drive(ws.rename("mail".to_string(), force), &mut env));
        assert_eq!(report, Report::Uncommitted);
        assert_eq!(ws.pass_name(), "mail");
        assert!(!ws.is_modified());
        assert_eq!(env.count("remove"), 0);
        assert_eq!(env.count("write"), 1);
        let file = env.files.get("/store/mail.gpg").expect("the entry is still there");
        assert_eq!(file, &seal(&["bob".to_string()], b"pw\n"));
        assert_eq!(unseal(file), b"pw\n".to_vec());
        let back = open(&mut env, "mail");
        assert_eq!(back.content_reader().as_slice(), b"pw\n");
    }
}

#[test]
fn rename_to_the_same_name_that_fails_keeps_the_entry() {
    for stage in 0..3 {
        let mut env = Env::new();
        put(&mut env, "mail", b"pw\n");
        let mut ws = open(&mut env, "mail");
        ws.set_commit_msg("msg".to_string());
        match stage {
            0 => env.fail_encrypt = true,
            1 => env.fail_write = true,
            _ => env.fail_commit = true,
        }
        let _ = failed(drive(ws.rename("mail".to_string(), true), &mut env));
        assert_eq!(env.count("remove"), 0);
        assert_eq!(unseal(env.files.get("/store/mail.gpg").unwrap()), b"pw\n".to_vec());
    }
}

#[test]
fn names_that_are_not_their_own_path_are_refused() {
    let mut env = Env::new();
    put(&mut env, "mail", b"pw\n");
    let before = env.files.clone();
    for name in ["mail/", "./mail", "mail/.", "a//mail", "."] {
        let (_, error) = failed(PassFile::open("/store".to_string(), name.to_string()));
        assert_eq!(error, Error::InvalidName { pass_name: name.to_string() });
        let ws = open(&mut env, "mail");
        env.served.clear();
        let (ws, error) = failed(drive(ws.rename(name.to_string(), true), &mut env));
        assert_eq!(error, Error::InvalidName { pass_name: name.to_string() });
        assert_eq!(ws.unwrap().pass_name(), "mail");
        assert!(env.served.is_empty());
        assert_eq!(env.files, before);
    }
}

#[test]
fn the_store_itself_cannot_be_removed() {
    let mut env = Env::new();
    put(&mut env, "mail", b"pw\n");
    put(&mut env, "web/bank", b"pw\n");
    let before = env.files.clone();
    for name in [".", "./", "", "/", "//", "./.", "..", "web/..", ".//"] {
        for recursive in [true, false] {
            let step = drive(remove("/store".to_string(), name.to_string(), true, recursive), &mut env);
            let (_, error) = failed(step);
            assert_eq!(error, Error::InvalidName { pass_name: name.to_string() });
        }
    }
    assert_eq!(env.files, before);
    assert!(env.served.is_empty());
}

#[test]
fn a_directory_may_be_named_with_a_slash_at_its_end() {
    let mut env = Env::new();
    put(&mut env, "web/bank", b"pw\n");
    put(&mut env, "web/deep/shop", b"pw\n");
    put(&mut env, "webmail", b"pw\n");
    let step = drive(remove("/store".to_string(), "web/".to_string(), true, true), &mut env);
    assert!(matches!(step, Step::Removed));
    assert_eq!(
        env.files.keys().cloned().collect::<Vec<String>>(),
        vec!["/store/.gpg-id".to_string(), "/store/webmail.gpg".to_string()]
    );
    let (_, error) = failed(remove("/store".to_string(), "webmail/".to_string(), true, false));
    assert_eq!(error, Error::InvalidName { pass_name: "webmail/".to_string() });
}
