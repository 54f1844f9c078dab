//! What can go wrong in the store, as plain values.

use vstd::prelude::*;

verus! {

/// An error of the password store. Failures of the file system, of the
/// OpenPGP backend and of the clipboard arrive from outside with their
/// message, which is carried unchanged.
#[derive(Debug, PartialEq, Eq)]
pub enum Error {
    /// A read or a write failed; the message is the system's.
    IO(String),
    /// The OpenPGP backend refused to decrypt or to encrypt.
    GPG(String),
    /// Text that should have been UTF-8 was not.
    FromUtf(String),
    /// The clipboard could not be reached.
    Clipboard(String),
    /// No recipient marker governs the place: the store was never set up.
    PasswordStoreUninitialized,
    /// The entry has fewer lines than the one asked for.
    NoPasswordAtLine { line_number: usize },
    /// None of the listing programs could be started.
    TreeCommandNotFound { supported_commands: Vec<String> },
    /// The password and its repetition differ.
    PasswordsDontMatch,
    /// No durable file exists for the name.
    PassDoesNotExist { pass_name: String },
    /// The store is not under version control.
    PassStoreShouldBeGitRepo,
    /// The store is under version control already.
    GitRepoAlreadyInitialized,
    /// Version control could not be set up.
    CantInitGitRepo,
    /// A file could not be staged.
    CantStageFile { file_name: String },
    /// The commit was refused.
    CantCommit,
    /// An answer was handed to an operation that had asked for something
    /// else.
    UnexpectedEvent,
    /// The name cannot name an entry: it is empty, or one of its segments
    /// is empty, `.` or `..`.
    InvalidName { pass_name: String },
}

/// An [`Error`] with its texts as sequences of characters.
pub enum ErrorModel {
    IO(Seq<char>),
    GPG(Seq<char>),
    FromUtf(Seq<char>),
    Clipboard(Seq<char>),
    PasswordStoreUninitialized,
    NoPasswordAtLine { line_number: usize },
    TreeCommandNotFound { supported_commands: Seq<Seq<char>> },
    PasswordsDontMatch,
    PassDoesNotExist { pass_name: Seq<char> },
    PassStoreShouldBeGitRepo,
    GitRepoAlreadyInitialized,
    CantInitGitRepo,
    CantStageFile { file_name: Seq<char> },
    CantCommit,
    UnexpectedEvent,
    InvalidName { pass_name: Seq<char> },
}

impl View for Error {
    type V = ErrorModel;

    open spec fn view(&self) -> ErrorModel {
        match *self {
            Error::IO(m) => ErrorModel::IO(m@),
            Error::GPG(m) => ErrorModel::GPG(m@),
            Error::FromUtf(m) => ErrorModel::FromUtf(m@),
            Error::Clipboard(m) => ErrorModel::Clipboard(m@),
            Error::PasswordStoreUninitialized => ErrorModel::PasswordStoreUninitialized,
            Error::NoPasswordAtLine { line_number } => ErrorModel::NoPasswordAtLine { line_number },
            Error::TreeCommandNotFound { supported_commands } => ErrorModel::TreeCommandNotFound {
                supported_commands: supported_commands.deep_view(),
            },
            Error::PasswordsDontMatch => ErrorModel::PasswordsDontMatch,
            Error::PassDoesNotExist { pass_name } => ErrorModel::PassDoesNotExist {
                pass_name: pass_name@,
            },
            Error::PassStoreShouldBeGitRepo => ErrorModel::PassStoreShouldBeGitRepo,
            Error::GitRepoAlreadyInitialized => ErrorModel::GitRepoAlreadyInitialized,
            Error::CantInitGitRepo => ErrorModel::CantInitGitRepo,
            Error::CantStageFile { file_name } => ErrorModel::CantStageFile { file_name: file_name@ },
            Error::CantCommit => ErrorModel::CantCommit,
            Error::UnexpectedEvent => ErrorModel::UnexpectedEvent,
            Error::InvalidName { pass_name } => ErrorModel::InvalidName { pass_name: pass_name@ },
        }
    }
}

impl Error {
    /// Whether this is the report that the store is not under version
    /// control, which a store may legally be.
    pub fn is_not_a_repo(&self) -> (b: bool)
        ensures
            b == (self@ == ErrorModel::PassStoreShouldBeGitRepo),
    {
        match self {
            Error::PassStoreShouldBeGitRepo => true,
            _ => false,
        }
    }
}

} // verus!
