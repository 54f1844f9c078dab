//! Version control of the store, as a dialogue. The library says which `git`
//! command is to be run in the store next and what its outcome means; it
//! runs none.

use vstd::prelude::*;
use vstd::string::StringExecFns;
use crate::error::{Error, ErrorModel};
use crate::text::{to_chars, trim_bounds, trimmed};

verus! {

/// Whether a command's output is the word `true`, white space aside.
pub open spec fn says_true(output: Seq<char>) -> bool {
    trimmed(output) == seq!['t', 'r', 'u', 'e']
}

/// Tests whether a command's output is the word `true`.
fn is_true(output: &str) -> (b: bool)
    ensures
        b == says_true(output@),
{
    let v = to_chars(output);
    let (from, to) = trim_bounds(&v);
    if to - from != 4 {
        assert(v@.subrange(from as int, to as int).len() != 4);
        return false;
    }
    let b = v[from] == 't' && v[from + 1] == 'r' && v[from + 2] == 'u' && v[from + 3] == 'e';
    proof {
        let ghost kept = v@.subrange(from as int, to as int);
        if b {
            assert(kept =~= seq!['t', 'r', 'u', 'e']);
        } else {
            assert(kept[0] == v@[from as int]);
            assert(kept[1] == v@[from + 1]);
            assert(kept[2] == v@[from + 2]);
            assert(kept[3] == v@[from + 3]);
        }
    }
    b
}

/// Reads what `git rev-parse --is-inside-work-tree` printed: the store is
/// under version control if it printed `true`.
pub fn verify_git_initialized(output: &str) -> (result: Result<(), Error>)
    ensures
        says_true(output@) ==> result is Ok,
        !says_true(output@) ==> result is Err && result->Err_0@
            == ErrorModel::PassStoreShouldBeGitRepo,
{
    if is_true(output) {
        Ok(())
    } else {
        Err(Error::PassStoreShouldBeGitRepo)
    }
}

/// Reads what the query for `pass.signcommits` printed: commits are signed
/// if it printed `true`.
pub fn should_sign_commits(output: &str) -> (sign: bool)
    ensures
        sign == says_true(output@),
{
    is_true(output)
}

/// What is to be done in the store.
#[derive(Debug)]
pub enum GitRequest {
    /// Run `git` in the store with these arguments and take its output.
    Run { args: Vec<String> },
    /// Add `text` to the end of `file`, a path below the store's root.
    Append { file: String, text: String },
}

/// A [`GitRequest`] as a mathematical value.
pub enum GitRequestModel {
    Run { args: Seq<Seq<char>> },
    Append { file: Seq<char>, text: Seq<char> },
}

impl View for GitRequest {
    type V = GitRequestModel;

    open spec fn view(&self) -> GitRequestModel {
        match *self {
            GitRequest::Run { args } => GitRequestModel::Run { args: args.deep_view() },
            GitRequest::Append { file, text } => GitRequestModel::Append {
                file: file@,
                text: text@,
            },
        }
    }
}

/// What came of a request.
#[derive(Debug)]
pub enum GitEvent {
    /// The command ran: whether it reported success, and what it printed.
    Output { success: bool, stdout: String },
    /// The text was added.
    Done,
    /// The command could not be run, or the file not written.
    Failed(Error),
}

/// A [`GitEvent`] as a mathematical value.
pub enum GitEventModel {
    Output { success: bool, stdout: Seq<char> },
    Done,
    Failed(ErrorModel),
}

impl View for GitEvent {
    type V = GitEventModel;

    open spec fn view(&self) -> GitEventModel {
        match *self {
            GitEvent::Output { success, stdout } => GitEventModel::Output {
                success,
                stdout: stdout@,
            },
            GitEvent::Done => GitEventModel::Done,
            GitEvent::Failed(error) => GitEventModel::Failed(error@),
        }
    }
}

/// Which command's outcome is awaited.
#[derive(Debug, PartialEq, Eq, Clone, Copy, Structural)]
pub enum GitStage {
    /// Setting up: is the store under version control already?
    InitVerify,
    /// Setting up: `git init`.
    InitRun,
    /// Before staging: is the store under version control?
    Verify,
    /// `git add`.
    Add,
    /// `git status` of the file that was added.
    Status,
    /// Before committing: is the store under version control?
    CommitVerify,
    /// The query whether commits are signed.
    Sign,
    /// `git commit`.
    Commit,
    /// Setting up: the line for `.gitattributes`.
    Attributes,
    /// Setting up: the first `git config`.
    ConfigBinary,
    /// Setting up: the second `git config`.
    ConfigTextconv,
}

/// What follows a commit.
#[derive(Debug, PartialEq, Eq, Clone, Copy, Structural)]
pub enum After {
    /// Nothing: the commit was asked for by itself.
    Nothing,
    /// Setting up goes on with `.gitattributes`.
    Attributes,
    /// Setting up goes on with the configuration.
    Config,
}

/// Commands under way that wait for an outcome.
#[derive(Debug)]
pub struct GitPending {
    stage: GitStage,
    file: Option<String>,
    message: String,
    after: After,
    init_args: Vec<String>,
}

/// A [`GitPending`] as a mathematical value.
pub struct GitPendingModel {
    pub stage: GitStage,
    /// The file that is committed; none where all is committed.
    pub file: Option<Seq<char>>,
    /// The message of the commit.
    pub message: Seq<char>,
    pub after: After,
    /// What the caller adds to `git init`.
    pub init_args: Seq<Seq<char>>,
}

impl View for GitPending {
    type V = GitPendingModel;

    closed spec fn view(&self) -> GitPendingModel {
        GitPendingModel {
            stage: self.stage,
            file: self.file.deep_view(),
            message: self.message@,
            after: self.after,
            init_args: self.init_args.deep_view(),
        }
    }
}

/// Where the commands stand.
#[derive(Debug)]
pub enum GitStep {
    /// The request is to be served and its outcome handed to what is
    /// pending.
    Need(GitRequest, GitPending),
    /// All is done.
    Done,
    /// It failed; nothing more is run.
    Failed(Error),
}

/// A [`GitStep`] as a mathematical value.
pub enum GitStepModel {
    Need(GitRequestModel, GitPendingModel),
    Done,
    Failed(ErrorModel),
}

impl View for GitStep {
    type V = GitStepModel;

    open spec fn view(&self) -> GitStepModel {
        match *self {
            GitStep::Need(request, pending) => GitStepModel::Need(request@, pending@),
            GitStep::Done => GitStepModel::Done,
            GitStep::Failed(error) => GitStepModel::Failed(error@),
        }
    }
}

/// The question whether the store is under version control.
pub open spec fn ask_verify() -> GitRequestModel {
    GitRequestModel::Run { args: seq!["rev-parse"@, "--is-inside-work-tree"@] }
}

/// A commit of one file, or of everything, begins with the question whether
/// the store is under version control.
pub open spec fn begin_commit(
    file: Option<Seq<char>>,
    message: Seq<char>,
    after: After,
) -> GitStepModel {
    GitStepModel::Need(
        ask_verify(),
        GitPendingModel { stage: GitStage::Verify, file, message, after, init_args: Seq::empty() },
    )
}

/// What waits with nothing to remember but the stage.
pub open spec fn at_stage(stage: GitStage) -> GitPendingModel {
    GitPendingModel {
        stage,
        file: None,
        message: Seq::empty(),
        after: After::Nothing,
        init_args: Seq::empty(),
    }
}

/// Setting up begins with the same question.
pub open spec fn begin_init(other_args: Seq<Seq<char>>) -> GitStepModel {
    GitStepModel::Need(
        ask_verify(),
        GitPendingModel { init_args: other_args, ..at_stage(GitStage::InitVerify) },
    )
}

/// The arguments of the commit.
pub open spec fn commit_args(sign: bool, message: Seq<char>) -> Seq<Seq<char>> {
    if sign {
        seq!["commit"@, "-S"@, "-m"@, message]
    } else {
        seq!["commit"@, "-m"@, message]
    }
}

/// What follows a commit that went well.
pub open spec fn after_commit(after: After) -> GitStepModel {
    match after {
        After::Nothing => GitStepModel::Done,
        After::Attributes => GitStepModel::Need(
            GitRequestModel::Append { file: ".gitattributes"@, text: "*.gpg diff=gpg\n"@ },
            at_stage(GitStage::Attributes),
        ),
        After::Config => GitStepModel::Need(
            GitRequestModel::Run {
                args: seq!["config"@, "--local"@, "diff.gpg.binary"@, "true"@],
            },
            at_stage(GitStage::ConfigBinary),
        ),
    }
}

/// What the outcome of a command leads to. A command that could not be run
/// ends everything. The store must be under version control before anything
/// is staged and again before the commit; a file that `git status` does not
/// list after it was added was not staged; the commit is signed if the
/// store's configuration says so.
pub open spec fn git_advance(p: GitPendingModel, reply: GitEventModel) -> GitStepModel {
    match reply {
        GitEventModel::Failed(error) => GitStepModel::Failed(error),
        GitEventModel::Done => if p.stage == GitStage::Attributes {
            begin_commit(
                Some(".gitattributes"@),
                "Configure git repository for gpg file diff."@,
                After::Config,
            )
        } else {
            GitStepModel::Failed(ErrorModel::UnexpectedEvent)
        },
        GitEventModel::Output { success, stdout } => match p.stage {
            GitStage::InitVerify => if says_true(stdout) {
                GitStepModel::Failed(ErrorModel::GitRepoAlreadyInitialized)
            } else {
                GitStepModel::Need(
                    GitRequestModel::Run { args: seq!["init"@] + p.init_args },
                    GitPendingModel { stage: GitStage::InitRun, ..p },
                )
            },
            GitStage::InitRun => if success {
                begin_commit(None, "Add current contents of password store."@, After::Attributes)
            } else {
                GitStepModel::Failed(ErrorModel::CantInitGitRepo)
            },
            GitStage::Verify => if !says_true(stdout) {
                GitStepModel::Failed(ErrorModel::PassStoreShouldBeGitRepo)
            } else {
                GitStepModel::Need(
                    GitRequestModel::Run {
                        args: match p.file {
                            Some(file) => seq!["add"@, file],
                            None => seq!["add"@, "--all"@],
                        },
                    },
                    GitPendingModel { stage: GitStage::Add, ..p },
                )
            },
            GitStage::Add => match p.file {
                Some(file) => GitStepModel::Need(
                    GitRequestModel::Run { args: seq!["status"@, "--porcelain"@, file] },
                    GitPendingModel { stage: GitStage::Status, ..p },
                ),
                None => GitStepModel::Need(
                    ask_verify(),
                    GitPendingModel { stage: GitStage::CommitVerify, ..p },
                ),
            },
            GitStage::Status => if stdout.len() == 0 {
                GitStepModel::Failed(
                    ErrorModel::CantStageFile {
                        file_name: match p.file {
                            Some(file) => file,
                            None => Seq::empty(),
                        },
                    },
                )
            } else {
                GitStepModel::Need(
                    ask_verify(),
                    GitPendingModel { stage: GitStage::CommitVerify, ..p },
                )
            },
            GitStage::CommitVerify => if !says_true(stdout) {
                GitStepModel::Failed(ErrorModel::PassStoreShouldBeGitRepo)
            } else {
                GitStepModel::Need(
                    GitRequestModel::Run {
                        args: seq!["config"@, "bool"@, "--get"@, "pass.signcommits"@],
                    },
                    GitPendingModel { stage: GitStage::Sign, ..p },
                )
            },
            GitStage::Sign => GitStepModel::Need(
                GitRequestModel::Run { args: commit_args(says_true(stdout), p.message) },
                GitPendingModel { stage: GitStage::Commit, ..p },
            ),
            GitStage::Commit => if success {
                after_commit(p.after)
            } else {
                GitStepModel::Failed(ErrorModel::CantCommit)
            },
            GitStage::Attributes => GitStepModel::Failed(ErrorModel::UnexpectedEvent),
            GitStage::ConfigBinary => GitStepModel::Need(
                GitRequestModel::Run {
                    args: seq![
                        "config"@,
                        "--local"@,
                        "diff.gpg.textconv"@,
                        "gpg -d --quiet --yes --compress-algo=none --no-encrypt-to"@,
                    ],
                },
                GitPendingModel { stage: GitStage::ConfigTextconv, ..p },
            ),
            GitStage::ConfigTextconv => GitStepModel::Done,
        },
    }
}

fn words2(a: &str, b: &str) -> (args: Vec<String>)
    ensures
        args.deep_view() == seq![a@, b@],
{
    let mut args: Vec<String> = Vec::new();
    args.push(String::from_str(a));
    args.push(String::from_str(b));
    assert(args.deep_view() =~= seq![a@, b@]);
    args
}

fn words3(a: &str, b: &str, c: &str) -> (args: Vec<String>)
    ensures
        args.deep_view() == seq![a@, b@, c@],
{
    let mut args = words2(a, b);
    let ghost before = args.deep_view();
    args.push(String::from_str(c));
    assert(args.deep_view() =~= before.push(c@));
    args
}

fn words4(a: &str, b: &str, c: &str, d: &str) -> (args: Vec<String>)
    ensures
        args.deep_view() == seq![a@, b@, c@, d@],
{
    let mut args = words3(a, b, c);
    let ghost before = args.deep_view();
    args.push(String::from_str(d));
    assert(args.deep_view() =~= before.push(d@));
    args
}

fn verify_request() -> (request: GitRequest)
    ensures
        request@ == ask_verify(),
{
    GitRequest::Run { args: words2("rev-parse", "--is-inside-work-tree") }
}

fn start_commit(file: Option<String>, message: String, after: After) -> (step: GitStep)
    ensures
        step@ == begin_commit(file.deep_view(), message@, after),
{
    let init_args: Vec<String> = Vec::new();
    assert(init_args.deep_view() =~= Seq::<Seq<char>>::empty());
    GitStep::Need(
        verify_request(),
        GitPending { stage: GitStage::Verify, file, message, after, init_args },
    )
}

fn idle(stage: GitStage) -> (pending: GitPending)
    ensures
        pending@ == at_stage(stage),
{
    let init_args: Vec<String> = Vec::new();
    assert(init_args.deep_view() =~= Seq::<Seq<char>>::empty());
    GitPending { stage, file: None, message: String::new(), after: After::Nothing, init_args }
}

fn finish_commit(after: After) -> (step: GitStep)
    ensures
        step@ == after_commit(after),
{
    match after {
        After::Nothing => GitStep::Done,
        After::Attributes => GitStep::Need(
            GitRequest::Append {
                file: String::from_str(".gitattributes"),
                text: String::from_str("*.gpg diff=gpg\n"),
            },
            idle(GitStage::Attributes),
        ),
        After::Config => GitStep::Need(
            GitRequest::Run { args: words4("config", "--local", "diff.gpg.binary", "true") },
            idle(GitStage::ConfigBinary),
        ),
    }
}

/// Commits the file `file_name` of the store under `message`.
pub fn commit_file(file_name: String, message: String) -> (step: GitStep)
    ensures
        step@ == begin_commit(Some(file_name@), message@, After::Nothing),
{
    start_commit(Some(file_name), message, After::Nothing)
}

/// Commits all that has changed in the store under `message`.
pub fn commit_all(message: String) -> (step: GitStep)
    ensures
        step@ == begin_commit(None, message@, After::Nothing),
{
    start_commit(None, message, After::Nothing)
}

/// Puts the store under version control: `git init`, a first commit of
/// what is there, and the configuration that lets `git diff` read the
/// encrypted files.
pub fn init(other_args: Vec<String>) -> (step: GitStep)
    ensures
        step@ == begin_init(other_args.deep_view()),
{
    GitStep::Need(
        verify_request(),
        GitPending {
            stage: GitStage::InitVerify,
            file: None,
            message: String::new(),
            after: After::Nothing,
            init_args: other_args,
        },
    )
}

impl GitPending {
    /// Takes the outcome of the request that was made and goes on.
    pub fn resume(self, event: GitEvent) -> (step: GitStep)
        ensures
            step@ == git_advance(self@, event@),
    {
        let GitPending { stage, file, message, after, init_args } = self;
        match event {
            GitEvent::Failed(error) => GitStep::Failed(error),
            GitEvent::Done => match stage {
                GitStage::Attributes => start_commit(
                    Some(String::from_str(".gitattributes")),
                    String::from_str("Configure git repository for gpg file diff."),
                    After::Config,
                ),
                _ => GitStep::Failed(Error::UnexpectedEvent),
            },
            GitEvent::Output { success, stdout } => match stage {
                GitStage::InitVerify => if is_true(stdout.as_str()) {
                    GitStep::Failed(Error::GitRepoAlreadyInitialized)
                } else {
                    let mut args: Vec<String> = Vec::new();
                    args.push(String::from_str("init"));
                    let mut i: usize = 0;
                    while i < init_args.len()
                        invariant
                            i <= init_args.len(),
                            args.deep_view() =~= seq!["init"@] + init_args.deep_view().take(
                                i as int,
                            ),
                        decreases init_args.len() - i,
                    {
                        let ghost before = args.deep_view();
                        args.push(init_args[i].clone());
                        assert(args.deep_view() =~= before.push(init_args@[i as int]@));
                        assert(init_args.deep_view().take(i + 1) =~= init_args.deep_view().take(
                            i as int,
                        ).push(init_args@[i as int]@));
                        i += 1;
                    }
                    assert(init_args.deep_view().take(init_args.len() as int)
                        == init_args.deep_view());
                    GitStep::Need(
                        GitRequest::Run { args },
                        GitPending { stage: GitStage::InitRun, file, message, after, init_args },
                    )
                },
                GitStage::InitRun => if success {
                    start_commit(
                        None,
                        String::from_str("Add current contents of password store."),
                        After::Attributes,
                    )
                } else {
                    GitStep::Failed(Error::CantInitGitRepo)
                },
                GitStage::Verify => if !is_true(stdout.as_str()) {
                    GitStep::Failed(Error::PassStoreShouldBeGitRepo)
                } else {
                    let args = match &file {
                        Some(name) => words2("add", name.as_str()),
                        None => words2("add", "--all"),
                    };
                    GitStep::Need(
                        GitRequest::Run { args },
                        GitPending { stage: GitStage::Add, file, message, after, init_args },
                    )
                },
                GitStage::Add => match &file {
                    Some(name) => {
                        let args = words3("status", "--porcelain", name.as_str());
                        GitStep::Need(
                            GitRequest::Run { args },
                            GitPending { stage: GitStage::Status, file, message, after, init_args },
                        )
                    },
                    None => GitStep::Need(
                        verify_request(),
                        GitPending { stage: GitStage::CommitVerify, file, message, after, init_args },
                    ),
                },
                GitStage::Status => if stdout.as_str().is_empty() {
                    let file_name = match file {
                        Some(name) => name,
                        None => String::new(),
                    };
                    GitStep::Failed(Error::CantStageFile { file_name })
                } else {
                    GitStep::Need(
                        verify_request(),
                        GitPending { stage: GitStage::CommitVerify, file, message, after, init_args },
                    )
                },
                GitStage::CommitVerify => if !is_true(stdout.as_str()) {
                    GitStep::Failed(Error::PassStoreShouldBeGitRepo)
                } else {
                    let args = words4("config", "bool", "--get", "pass.signcommits");
                    GitStep::Need(
                        GitRequest::Run { args },
                        GitPending { stage: GitStage::Sign, file, message, after, init_args },
                    )
                },
                GitStage::Sign => {
                    let args = if is_true(stdout.as_str()) {
                        words4("commit", "-S", "-m", message.as_str())
                    } else {
                        words3("commit", "-m", message.as_str())
                    };
                    GitStep::Need(
                        GitRequest::Run { args },
                        GitPending { stage: GitStage::Commit, file, message, after, init_args },
                    )
                },
                GitStage::Commit => if success {
                    finish_commit(after)
                } else {
                    GitStep::Failed(Error::CantCommit)
                },
                GitStage::Attributes => GitStep::Failed(Error::UnexpectedEvent),
                GitStage::ConfigBinary => {
                    let args = words4(
                        "config",
                        "--local",
                        "diff.gpg.textconv",
                        "gpg -d --quiet --yes --compress-algo=none --no-encrypt-to",
                    );
                    GitStep::Need(
                        GitRequest::Run { args },
                        GitPending { stage: GitStage::ConfigTextconv, file, message, after, init_args },
                    )
                },
                GitStage::ConfigTextconv => GitStep::Done,
            },
        }
    }
}

} // verus!
