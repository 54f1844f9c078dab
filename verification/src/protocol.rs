//! The operations on a workspace, as a dialogue. The library never touches
//! the disk, the keys, the terminal or version control. An operation returns
//! a [`Step`]: either it is over, or it names one thing to be done outside
//! and holds what is pending; the answer is handed to [`Pending::resume`],
//! which returns the next step. What is asked, in which order, and what
//! becomes of each answer is decided here.

use vstd::prelude::*;
use vstd::string::StringExecFns;
use crate::error::{Error, ErrorModel};
use crate::names::{
    dir_name, dir_path, get_dir_name, get_dir_path, get_marker_paths, get_pass_file,
    get_pass_path, is_valid_name, marker_paths, pass_file, pass_path, valid_name,
};
use crate::recipients::{get_recipients, governing, identifiers};
use crate::workspace::{PassFile, Workspace};

verus! {

/// What an operation asks its surroundings to do.
#[derive(Debug)]
pub enum Request {
    /// Count the entries of the store's root directory.
    ListRoot { root: String },
    /// Read the durable file at `path` and decrypt it.
    ReadEntry { path: String },
    /// Find out whether a file exists at `path`.
    Probe { path: String },
    /// Ask the user whether the entry at `path` may be overwritten; an empty
    /// answer means no.
    Confirm { path: String },
    /// Ask the user whether `pass_name` is to be deleted; an empty answer
    /// means no.
    ConfirmRemoval { pass_name: String },
    /// Read the recipient markers at `paths`, in this order.
    ReadMarkers { paths: Vec<String> },
    /// Encrypt `plaintext` to `recipients`, in memory.
    Encrypt { recipients: Vec<String>, plaintext: Vec<u8> },
    /// Create the directories above `path` that are missing and put `bytes`
    /// at `path`, either whole or not at all.
    WriteFile { path: String, bytes: Vec<u8> },
    /// Commit `file`, a path below `root`, under `message`.
    Commit { root: String, file: String, message: String },
    /// Remove the file at `path`.
    RemoveFile { path: String },
    /// Find the regular files below the directory `dir`, at any depth.
    ListFiles { dir: String },
    /// Remove the directory `path` and all that is below it.
    RemoveTree { path: String },
}

/// A [`Request`] as a mathematical value.
pub enum RequestModel {
    ListRoot { root: Seq<char> },
    ReadEntry { path: Seq<char> },
    Probe { path: Seq<char> },
    Confirm { path: Seq<char> },
    ConfirmRemoval { pass_name: Seq<char> },
    ReadMarkers { paths: Seq<Seq<char>> },
    Encrypt { recipients: Seq<Seq<char>>, plaintext: Seq<u8> },
    WriteFile { path: Seq<char>, bytes: Seq<u8> },
    Commit { root: Seq<char>, file: Seq<char>, message: Seq<char> },
    RemoveFile { path: Seq<char> },
    ListFiles { dir: Seq<char> },
    RemoveTree { path: Seq<char> },
}

impl View for Request {
    type V = RequestModel;

    open spec fn view(&self) -> RequestModel {
        match *self {
            Request::ListRoot { root } => RequestModel::ListRoot { root: root@ },
            Request::ReadEntry { path } => RequestModel::ReadEntry { path: path@ },
            Request::Probe { path } => RequestModel::Probe { path: path@ },
            Request::Confirm { path } => RequestModel::Confirm { path: path@ },
            Request::ConfirmRemoval { pass_name } => RequestModel::ConfirmRemoval {
                pass_name: pass_name@,
            },
            Request::ReadMarkers { paths } => RequestModel::ReadMarkers { paths: paths.deep_view() },
            Request::Encrypt { recipients, plaintext } => RequestModel::Encrypt {
                recipients: recipients.deep_view(),
                plaintext: plaintext@,
            },
            Request::WriteFile { path, bytes } => RequestModel::WriteFile {
                path: path@,
                bytes: bytes@,
            },
            Request::Commit { root, file, message } => RequestModel::Commit {
                root: root@,
                file: file@,
                message: message@,
            },
            Request::RemoveFile { path } => RequestModel::RemoveFile { path: path@ },
            Request::ListFiles { dir } => RequestModel::ListFiles { dir: dir@ },
            Request::RemoveTree { path } => RequestModel::RemoveTree { path: path@ },
        }
    }
}

/// What the surroundings answer.
#[derive(Debug)]
pub enum Event {
    /// To `ListRoot`: how many entries the root directory holds, or `None`
    /// where it cannot be read.
    Listed(Option<usize>),
    /// To `ReadEntry`: the plaintext. To `Encrypt`: the ciphertext.
    Bytes(Vec<u8>),
    /// To `ReadEntry`: there is no such file.
    Missing,
    /// To `Probe`.
    Exists(bool),
    /// To `Confirm` and `ConfirmRemoval`: whether the user agreed.
    Answer(bool),
    /// To `ReadMarkers`: the text of each marker, `None` where there is none,
    /// in the order asked.
    Markers(Vec<Option<String>>),
    /// To `ListFiles`: the paths of the files found.
    Files(Vec<String>),
    /// To `WriteFile`, `Commit`, `RemoveFile` and `RemoveTree`: it is done.
    Done,
    /// To any request: it could not be done.
    Failed(Error),
}

/// An [`Event`] as a mathematical value.
pub enum EventModel {
    Listed(Option<usize>),
    Bytes(Seq<u8>),
    Missing,
    Exists(bool),
    Answer(bool),
    Markers(Seq<Option<Seq<char>>>),
    Files(Seq<Seq<char>>),
    Done,
    Failed(ErrorModel),
}

impl View for Event {
    type V = EventModel;

    open spec fn view(&self) -> EventModel {
        match *self {
            Event::Listed(n) => EventModel::Listed(n),
            Event::Bytes(b) => EventModel::Bytes(b@),
            Event::Missing => EventModel::Missing,
            Event::Exists(b) => EventModel::Exists(b),
            Event::Answer(b) => EventModel::Answer(b),
            Event::Markers(m) => EventModel::Markers(m.deep_view()),
            Event::Files(f) => EventModel::Files(f.deep_view()),
            Event::Done => EventModel::Done,
            Event::Failed(e) => EventModel::Failed(e@),
        }
    }
}

/// What a flush did to the store.
#[derive(Debug, Clone, Copy, PartialEq, Eq, Structural)]
pub enum Report {
    /// No durable file was written.
    Untouched,
    /// The durable file was written and committed.
    Committed,
    /// The durable file was written; the store is not under version control.
    Unversioned,
    /// The durable file was written and not committed, because the workspace
    /// has no commit message. The caller should say so.
    Uncommitted,
}

/// What a flush is part of.
#[derive(Debug)]
pub(crate) enum Goal {
    Flush,
    Rename { old_name: String },
    Close,
}

/// A [`Goal`] as a mathematical value.
pub enum GoalModel {
    /// A flush on request: the workspace lives on.
    Flush,
    /// The flush of a rename: the durable file of `old_name` is removed
    /// after it.
    Rename { old_name: Seq<char> },
    /// The last flush of a workspace that is being closed.
    Close,
}

impl View for Goal {
    type V = GoalModel;

    closed spec fn view(&self) -> GoalModel {
        match *self {
            Goal::Flush => GoalModel::Flush,
            Goal::Rename { old_name } => GoalModel::Rename { old_name: old_name@ },
            Goal::Close => GoalModel::Close,
        }
    }
}

/// What waits behind the question whether an entry may be overwritten.
#[derive(Debug)]
pub(crate) enum Target {
    Create { root: String, name: String },
    Copy { ws: PassFile, new_name: String },
    Rename { ws: PassFile, new_name: String },
}

/// A [`Target`] as a mathematical value.
pub enum TargetModel {
    /// A new, empty workspace for `name`.
    Create { root: Seq<char>, name: Seq<char> },
    /// Binding `ws` to `new_name`.
    Copy { ws: Workspace, new_name: Seq<char> },
    /// Binding `ws` to `new_name`, flushing it and removing the durable file
    /// of its old name.
    Rename { ws: Workspace, new_name: Seq<char> },
}

impl View for Target {
    type V = TargetModel;

    closed spec fn view(&self) -> TargetModel {
        match *self {
            Target::Create { root, name } => TargetModel::Create { root: root@, name: name@ },
            Target::Copy { ws, new_name } => TargetModel::Copy { ws: ws@, new_name: new_name@ },
            Target::Rename { ws, new_name } => TargetModel::Rename { ws: ws@, new_name: new_name@ },
        }
    }
}

impl TargetModel {
    /// The durable file that the target would take.
    pub open spec fn path(self) -> Seq<char> {
        match self {
            TargetModel::Create { root, name } => pass_path(root, name),
            TargetModel::Copy { ws, new_name } => pass_path(ws.root, new_name),
            TargetModel::Rename { ws, new_name } => pass_path(ws.root, new_name),
        }
    }

    /// The name that the target would take.
    pub open spec fn name(self) -> Seq<char> {
        match self {
            TargetModel::Create { name, .. } => name,
            TargetModel::Copy { new_name, .. } => new_name,
            TargetModel::Rename { new_name, .. } => new_name,
        }
    }

    /// The workspace that exists before the target is reached, if any.
    pub open spec fn workspace(self) -> Option<Workspace> {
        match self {
            TargetModel::Create { .. } => None,
            TargetModel::Copy { ws, .. } => Some(ws),
            TargetModel::Rename { ws, .. } => Some(ws),
        }
    }
}

#[derive(Debug)]
pub(crate) enum Phase {
    Listing { root: String, name: String, create: Option<bool> },
    Reading { root: String, name: String },
    Probing { target: Target },
    Confirming { target: Target },
    Markers { ws: PassFile, goal: Goal },
    Encrypting { ws: PassFile, goal: Goal },
    Writing { ws: PassFile, goal: Goal },
    Committing { ws: PassFile, goal: Goal },
    Removing { ws: PassFile, report: Report },
    Finding { root: String, name: String, force: bool, recursive: bool },
    Agreeing { root: String, name: String, recursive: bool },
    Deleting,
}

/// An operation that waits for an answer.
#[derive(Debug)]
pub struct Pending {
    pub(crate) phase: Phase,
}

/// A [`Pending`] as a mathematical value: what was asked last, and for what.
pub enum PendingModel {
    /// The root is being listed, for opening `name` or, with `create` set to
    /// whether overwriting is forced, for creating it.
    Listing { root: Seq<char>, name: Seq<char>, create: Option<bool> },
    /// The durable file of `name` is being read and decrypted.
    Reading { root: Seq<char>, name: Seq<char> },
    /// The place that the target would take is being probed.
    Probing { target: TargetModel },
    /// The user is being asked whether the target may overwrite.
    Confirming { target: TargetModel },
    /// The markers are being read.
    Markers { ws: Workspace, goal: GoalModel },
    /// The plaintext is being encrypted.
    Encrypting { ws: Workspace, goal: GoalModel },
    /// The ciphertext is being written.
    Writing { ws: Workspace, goal: GoalModel },
    /// The durable file is being committed.
    Committing { ws: Workspace, goal: GoalModel },
    /// The durable file of the old name is being removed.
    Removing { ws: Workspace, report: Report },
    /// What is to be deleted is being looked for.
    Finding { root: Seq<char>, name: Seq<char>, force: bool, recursive: bool },
    /// The user is being asked whether to delete.
    Agreeing { root: Seq<char>, name: Seq<char>, recursive: bool },
    /// The entry, or the directory, is being deleted.
    Deleting,
}

impl View for Pending {
    type V = PendingModel;

    closed spec fn view(&self) -> PendingModel {
        match self.phase {
            Phase::Listing { root, name, create } => PendingModel::Listing {
                root: root@,
                name: name@,
                create,
            },
            Phase::Reading { root, name } => PendingModel::Reading { root: root@, name: name@ },
            Phase::Probing { target } => PendingModel::Probing { target: target@ },
            Phase::Confirming { target } => PendingModel::Confirming { target: target@ },
            Phase::Markers { ws, goal } => PendingModel::Markers { ws: ws@, goal: goal@ },
            Phase::Encrypting { ws, goal } => PendingModel::Encrypting { ws: ws@, goal: goal@ },
            Phase::Writing { ws, goal } => PendingModel::Writing { ws: ws@, goal: goal@ },
            Phase::Committing { ws, goal } => PendingModel::Committing { ws: ws@, goal: goal@ },
            Phase::Removing { ws, report } => PendingModel::Removing { ws: ws@, report },
            Phase::Finding { root, name, force, recursive } => PendingModel::Finding {
                root: root@,
                name: name@,
                force,
                recursive,
            },
            Phase::Agreeing { root, name, recursive } => PendingModel::Agreeing {
                root: root@,
                name: name@,
                recursive,
            },
            Phase::Deleting => PendingModel::Deleting,
        }
    }
}

/// Where an operation stands.
#[derive(Debug)]
pub enum Step {
    /// The request is to be served and its answer handed to the pending
    /// operation.
    Need(Request, Pending),
    /// The operation succeeded; this is the workspace, and what was done to
    /// the store.
    Ready(PassFile, Report),
    /// The user declined to overwrite. Nothing has changed: the workspace,
    /// where there was one, is as it was.
    Declined(Option<PassFile>),
    /// The operation failed. The workspace, where there was one, is handed
    /// back.
    Failed(Option<PassFile>, Error),
    /// The workspace was flushed for the last time and is gone.
    Closed(Report),
    /// The last flush failed: the workspace is handed back, for its
    /// plaintext may be in no durable file. The caller must not go on as if
    /// nothing had happened.
    Fatal(PassFile, Error),
    /// The entry, or the directory, was deleted.
    Removed,
}

/// A [`Step`] as a mathematical value.
pub enum StepModel {
    Need(RequestModel, PendingModel),
    Ready(Workspace, Report),
    Declined(Option<Workspace>),
    Failed(Option<Workspace>, ErrorModel),
    Closed(Report),
    Fatal(Workspace, ErrorModel),
    Removed,
}

impl View for Step {
    type V = StepModel;

    open spec fn view(&self) -> StepModel {
        match *self {
            Step::Need(request, pending) => StepModel::Need(request@, pending@),
            Step::Ready(ws, report) => StepModel::Ready(ws@, report),
            Step::Declined(ws) => StepModel::Declined(
                match ws {
                    Some(ws) => Some(ws@),
                    None => None,
                },
            ),
            Step::Failed(ws, error) => StepModel::Failed(
                match ws {
                    Some(ws) => Some(ws@),
                    None => None,
                },
                error@,
            ),
            Step::Closed(report) => StepModel::Closed(report),
            Step::Fatal(ws, error) => StepModel::Fatal(ws@, error@),
            Step::Removed => StepModel::Removed,
        }
    }
}

/// A new workspace for `name`: empty, and dirty, so that closing it writes
/// the entry.
pub open spec fn fresh(root: Seq<char>, name: Seq<char>) -> Workspace {
    Workspace { root, name, content: Seq::empty(), dirty: true, commit_msg: None }
}

/// `ws` bound to `new_name`. The plaintext stays; the workspace is dirty,
/// since no durable file of that name holds it yet.
pub open spec fn rebound(ws: Workspace, new_name: Seq<char>) -> Workspace {
    Workspace { name: new_name, dirty: true, ..ws }
}

/// A store is set up if its root can be read and is not empty.
pub open spec fn store_initialized(entries: Option<usize>) -> bool {
    entries matches Some(n) && n > 0
}

/// Opening starts by listing the root, unless the name is no entry name.
pub open spec fn begin_open(root: Seq<char>, name: Seq<char>) -> StepModel {
    if valid_name(name) {
        StepModel::Need(
            RequestModel::ListRoot { root },
            PendingModel::Listing { root, name, create: None },
        )
    } else {
        StepModel::Failed(None, ErrorModel::InvalidName { pass_name: name })
    }
}

/// Creating starts by listing the root, unless the name is no entry name.
pub open spec fn begin_create(root: Seq<char>, name: Seq<char>, force: bool) -> StepModel {
    if valid_name(name) {
        StepModel::Need(
            RequestModel::ListRoot { root },
            PendingModel::Listing { root, name, create: Some(force) },
        )
    } else {
        StepModel::Failed(None, ErrorModel::InvalidName { pass_name: name })
    }
}

/// Nothing is overwritten unasked: unless `force` is set, the place that the
/// target would take is probed first. A target whose name is no entry name
/// is refused at once.
pub open spec fn begin_gate(target: TargetModel, force: bool) -> StepModel {
    if !valid_name(target.name()) {
        StepModel::Failed(target.workspace(), ErrorModel::InvalidName { pass_name: target.name() })
    } else if force {
        pass_gate(target)
    } else {
        StepModel::Need(
            RequestModel::Probe { path: target.path() },
            PendingModel::Probing { target },
        )
    }
}

/// What happens once the target may take its place.
pub open spec fn pass_gate(target: TargetModel) -> StepModel {
    match target {
        TargetModel::Create { root, name } => StepModel::Ready(
            fresh(root, name),
            Report::Untouched,
        ),
        TargetModel::Copy { ws, new_name } => StepModel::Ready(
            rebound(ws, new_name),
            Report::Untouched,
        ),
        TargetModel::Rename { ws, new_name } => begin_flush(
            rebound(ws, new_name),
            GoalModel::Rename { old_name: ws.name },
        ),
    }
}

/// A flush does nothing to a workspace that is not dirty; else it starts by
/// reading the markers that may govern the bound name.
pub open spec fn begin_flush(ws: Workspace, goal: GoalModel) -> StepModel {
    if ws.dirty {
        StepModel::Need(
            RequestModel::ReadMarkers { paths: marker_paths(ws.root, ws.name) },
            PendingModel::Markers { ws, goal },
        )
    } else {
        settle(ws, goal, Report::Untouched)
    }
}

/// The end of a flush that went well: the workspace is clean. A rename goes
/// on to remove the durable file of the old name, unless the new name is
/// the old one, whose file is the one that was just written; a closing
/// workspace is gone.
pub open spec fn settle(ws: Workspace, goal: GoalModel, report: Report) -> StepModel {
    let clean = Workspace { dirty: false, ..ws };
    match goal {
        GoalModel::Flush => StepModel::Ready(clean, report),
        GoalModel::Rename { old_name } => if old_name == ws.name {
            StepModel::Ready(clean, report)
        } else {
            StepModel::Need(
                RequestModel::RemoveFile { path: pass_path(ws.root, old_name) },
                PendingModel::Removing { ws: clean, report },
            )
        },
        GoalModel::Close => StepModel::Closed(report),
    }
}

/// The end of a flush that went wrong: the workspace is handed back as it
/// stands, and a closing workspace raises the alarm.
pub open spec fn fail(ws: Workspace, goal: GoalModel, error: ErrorModel) -> StepModel {
    match goal {
        GoalModel::Close => StepModel::Fatal(ws, error),
        _ => StepModel::Failed(Some(ws), error),
    }
}

/// The request that deletes the entry `name`, or the directory `name` with
/// all below it.
pub open spec fn removal(root: Seq<char>, name: Seq<char>, recursive: bool) -> RequestModel {
    if recursive {
        RequestModel::RemoveTree { path: dir_path(root, name) }
    } else {
        RequestModel::RemoveFile { path: pass_path(root, name) }
    }
}

/// The name that a deletion or a transfer goes by: that of a directory may
/// be typed with slashes at its end, that of an entry is taken as it is.
pub open spec fn named(name: Seq<char>, recursive: bool) -> Seq<char> {
    if recursive {
        dir_name(name)
    } else {
        name
    }
}

/// Deleting starts by looking for what is to be deleted, unless the name is
/// no entry name. The store itself has no name and cannot be deleted.
pub open spec fn begin_remove(
    root: Seq<char>,
    name: Seq<char>,
    force: bool,
    recursive: bool,
) -> StepModel {
    let target = named(name, recursive);
    if valid_name(target) {
        StepModel::Need(
            RequestModel::Probe {
                path: if recursive {
                    dir_path(root, target)
                } else {
                    pass_path(root, target)
                },
            },
            PendingModel::Finding { root, name: target, force, recursive },
        )
    } else {
        StepModel::Failed(None, ErrorModel::InvalidName { pass_name: name })
    }
}

/// What becomes of a pending operation when `reply` arrives.
pub open spec fn advance(pending: PendingModel, reply: EventModel) -> StepModel {
    match pending {
        PendingModel::Listing { root, name, create } => match reply {
            EventModel::Listed(entries) => if !store_initialized(entries) {
                StepModel::Failed(None, ErrorModel::PasswordStoreUninitialized)
            } else {
                match create {
                    None => StepModel::Need(
                        RequestModel::ReadEntry { path: pass_path(root, name) },
                        PendingModel::Reading { root, name },
                    ),
                    Some(force) => begin_gate(TargetModel::Create { root, name }, force),
                }
            },
            EventModel::Failed(error) => StepModel::Failed(None, error),
            _ => StepModel::Failed(None, ErrorModel::UnexpectedEvent),
        },
        PendingModel::Reading { root, name } => match reply {
            EventModel::Bytes(content) => StepModel::Ready(
                Workspace { root, name, content, dirty: false, commit_msg: None },
                Report::Untouched,
            ),
            EventModel::Missing => StepModel::Failed(
                None,
                ErrorModel::PassDoesNotExist { pass_name: name },
            ),
            EventModel::Failed(error) => StepModel::Failed(None, error),
            _ => StepModel::Failed(None, ErrorModel::UnexpectedEvent),
        },
        PendingModel::Probing { target } => match reply {
            EventModel::Exists(false) => pass_gate(target),
            EventModel::Exists(true) => StepModel::Need(
                RequestModel::Confirm { path: target.path() },
                PendingModel::Confirming { target },
            ),
            EventModel::Failed(error) => StepModel::Failed(target.workspace(), error),
            _ => StepModel::Failed(target.workspace(), ErrorModel::UnexpectedEvent),
        },
        PendingModel::Confirming { target } => match reply {
            EventModel::Answer(true) => pass_gate(target),
            EventModel::Answer(false) => StepModel::Declined(target.workspace()),
            EventModel::Failed(error) => StepModel::Failed(target.workspace(), error),
            _ => StepModel::Failed(target.workspace(), ErrorModel::UnexpectedEvent),
        },
        PendingModel::Markers { ws, goal } => match reply {
            EventModel::Markers(markers) => match governing(markers) {
                Some(text) => StepModel::Need(
                    RequestModel::Encrypt { recipients: identifiers(text), plaintext: ws.content },
                    PendingModel::Encrypting { ws, goal },
                ),
                None => fail(ws, goal, ErrorModel::PasswordStoreUninitialized),
            },
            EventModel::Failed(error) => fail(ws, goal, error),
            _ => fail(ws, goal, ErrorModel::UnexpectedEvent),
        },
        PendingModel::Encrypting { ws, goal } => match reply {
            EventModel::Bytes(bytes) => StepModel::Need(
                RequestModel::WriteFile { path: pass_path(ws.root, ws.name), bytes },
                PendingModel::Writing { ws, goal },
            ),
            EventModel::Failed(error) => fail(ws, goal, error),
            _ => fail(ws, goal, ErrorModel::UnexpectedEvent),
        },
        PendingModel::Writing { ws, goal } => match reply {
            EventModel::Done => match ws.commit_msg {
                Some(message) => StepModel::Need(
                    RequestModel::Commit { root: ws.root, file: pass_file(ws.name), message },
                    PendingModel::Committing { ws, goal },
                ),
                None => settle(ws, goal, Report::Uncommitted),
            },
            EventModel::Failed(error) => fail(ws, goal, error),
            _ => fail(ws, goal, ErrorModel::UnexpectedEvent),
        },
        PendingModel::Committing { ws, goal } => match reply {
            EventModel::Done => settle(ws, goal, Report::Committed),
            EventModel::Failed(error) => if error == ErrorModel::PassStoreShouldBeGitRepo {
                settle(ws, goal, Report::Unversioned)
            } else {
                fail(ws, goal, error)
            },
            _ => fail(ws, goal, ErrorModel::UnexpectedEvent),
        },
        PendingModel::Removing { ws, report } => match reply {
            EventModel::Done => StepModel::Ready(ws, report),
            EventModel::Failed(error) => StepModel::Failed(Some(ws), error),
            _ => StepModel::Failed(Some(ws), ErrorModel::UnexpectedEvent),
        },
        PendingModel::Finding { root, name, force, recursive } => match reply {
            EventModel::Exists(false) => StepModel::Failed(
                None,
                ErrorModel::PassDoesNotExist { pass_name: name },
            ),
            EventModel::Exists(true) => if force {
                StepModel::Need(removal(root, name, recursive), PendingModel::Deleting)
            } else {
                StepModel::Need(
                    RequestModel::ConfirmRemoval { pass_name: name },
                    PendingModel::Agreeing { root, name, recursive },
                )
            },
            EventModel::Failed(error) => StepModel::Failed(None, error),
            _ => StepModel::Failed(None, ErrorModel::UnexpectedEvent),
        },
        PendingModel::Agreeing { root, name, recursive } => match reply {
            EventModel::Answer(true) => StepModel::Need(
                removal(root, name, recursive),
                PendingModel::Deleting,
            ),
            EventModel::Answer(false) => StepModel::Declined(None),
            EventModel::Failed(error) => StepModel::Failed(None, error),
            _ => StepModel::Failed(None, ErrorModel::UnexpectedEvent),
        },
        PendingModel::Deleting => match reply {
            EventModel::Done => StepModel::Removed,
            EventModel::Failed(error) => StepModel::Failed(None, error),
            _ => StepModel::Failed(None, ErrorModel::UnexpectedEvent),
        },
    }
}

/// Tells from the number of entries in the root directory whether the store
/// was ever set up.
pub fn check_uninitialized_store(entries: Option<usize>) -> (result: Result<(), Error>)
    ensures
        store_initialized(entries) ==> result is Ok,
        !store_initialized(entries) ==> result is Err && result->Err_0@
            == ErrorModel::PasswordStoreUninitialized,
{
    match entries {
        Some(n) => if n > 0 {
            Ok(())
        } else {
            Err(Error::PasswordStoreUninitialized)
        },
        None => Err(Error::PasswordStoreUninitialized),
    }
}

fn need(request: Request, phase: Phase) -> (step: Step)
    ensures
        step@ == StepModel::Need(request@, (Pending { phase })@),
{
    Step::Need(request, Pending { phase })
}

fn finish(ws: PassFile, goal: Goal, report: Report) -> (step: Step)
    ensures
        step@ == settle(ws@, goal@, report),
{
    let ws = ws.cleaned();
    match goal {
        Goal::Flush => Step::Ready(ws, report),
        Goal::Rename { old_name } => {
            let same = old_name == String::from_str(ws.pass_name());
            if same {
                Step::Ready(ws, report)
            } else {
                let path = get_pass_path(ws.root(), old_name.as_str());
                need(Request::RemoveFile { path }, Phase::Removing { ws, report })
            }
        },
        Goal::Close => {
            let mut ws = ws;
            ws.wipe();
            Step::Closed(report)
        },
    }
}

fn give_up(ws: PassFile, goal: Goal, error: Error) -> (step: Step)
    ensures
        step@ == fail(ws@, goal@, error@),
{
    match goal {
        Goal::Close => Step::Fatal(ws, error),
        _ => Step::Failed(Some(ws), error),
    }
}

fn start_flush(ws: PassFile, goal: Goal) -> (step: Step)
    ensures
        step@ == begin_flush(ws@, goal@),
{
    if ws.is_modified() {
        let paths = get_marker_paths(ws.root(), ws.pass_name());
        need(Request::ReadMarkers { paths }, Phase::Markers { ws, goal })
    } else {
        finish(ws, goal, Report::Untouched)
    }
}

fn removal_request(root: &str, name: &str, recursive: bool) -> (request: Request)
    ensures
        request@ == removal(root@, name@, recursive),
{
    if recursive {
        Request::RemoveTree { path: get_dir_path(root, name) }
    } else {
        Request::RemoveFile { path: get_pass_path(root, name) }
    }
}

/// Deletes the entry `pass_name`, or with `recursive` the directory
/// `pass_name` and all below it. Unless `force` is set the user is asked
/// first.
pub fn remove(root: String, pass_name: String, force: bool, recursive: bool) -> (step: Step)
    ensures
        step@ == begin_remove(root@, pass_name@, force, recursive),
{
    let name = get_named(pass_name.as_str(), recursive);
    if !is_valid_name(name.as_str()) {
        return Step::Failed(None, Error::InvalidName { pass_name });
    }
    let path = if recursive {
        get_dir_path(root.as_str(), name.as_str())
    } else {
        get_pass_path(root.as_str(), name.as_str())
    };
    need(Request::Probe { path }, Phase::Finding { root, name, force, recursive })
}

/// The name that a deletion or a transfer goes by.
pub(crate) fn get_named(name: &str, recursive: bool) -> (target: String)
    ensures
        target@ == named(name@, recursive),
{
    if recursive {
        get_dir_name(name)
    } else {
        String::from_str(name)
    }
}

fn target_path(target: &Target) -> (path: String)
    ensures
        path@ == target@.path(),
{
    match target {
        Target::Create { root, name } => get_pass_path(root.as_str(), name.as_str()),
        Target::Copy { ws, new_name } => get_pass_path(ws.root(), new_name.as_str()),
        Target::Rename { ws, new_name } => get_pass_path(ws.root(), new_name.as_str()),
    }
}

fn target_workspace(target: Target) -> (ws: Option<PassFile>)
    ensures
        match ws {
            Some(ws) => target@.workspace() == Some(ws@),
            None => target@.workspace() is None,
        },
{
    match target {
        Target::Create { .. } => None,
        Target::Copy { ws, .. } => Some(ws),
        Target::Rename { ws, .. } => Some(ws),
    }
}

fn through_gate(target: Target) -> (step: Step)
    ensures
        step@ == pass_gate(target@),
{
    match target {
        Target::Create { root, name } => Step::Ready(PassFile::fresh(root, name), Report::Untouched),
        Target::Copy { ws, new_name } => {
            let (ws, _) = ws.rebind(new_name);
            Step::Ready(ws, Report::Untouched)
        },
        Target::Rename { ws, new_name } => {
            let (ws, old_name) = ws.rebind(new_name);
            start_flush(ws, Goal::Rename { old_name })
        },
    }
}

fn target_name(target: &Target) -> (name: &String)
    ensures
        name@ == target@.name(),
{
    match target {
        Target::Create { name, .. } => name,
        Target::Copy { new_name, .. } => new_name,
        Target::Rename { new_name, .. } => new_name,
    }
}

fn start_gate(target: Target, force: bool) -> (step: Step)
    ensures
        step@ == begin_gate(target@, force),
{
    if !is_valid_name(target_name(&target).as_str()) {
        let pass_name = target_name(&target).clone();
        Step::Failed(target_workspace(target), Error::InvalidName { pass_name })
    } else if force {
        through_gate(target)
    } else {
        let path = target_path(&target);
        need(Request::Probe { path }, Phase::Probing { target })
    }
}

impl PassFile {
    /// Opens the entry `pass_name` of the store at `root`: the store must be
    /// set up and the durable file must exist and decrypt.
    pub fn open(root: String, pass_name: String) -> (step: Step)
        ensures
            step@ == begin_open(root@, pass_name@),
    {
        if !is_valid_name(pass_name.as_str()) {
            return Step::Failed(None, Error::InvalidName { pass_name });
        }
        let request = Request::ListRoot { root: root.clone() };
        need(request, Phase::Listing { root, name: pass_name, create: None })
    }

    /// Creates an empty workspace for `pass_name`. Where a durable file of
    /// that name exists and `force` is not set, the user is asked first;
    /// nothing is written before the workspace is flushed.
    pub fn create(root: String, pass_name: String, force: bool) -> (step: Step)
        ensures
            step@ == begin_create(root@, pass_name@, force),
    {
        if !is_valid_name(pass_name.as_str()) {
            return Step::Failed(None, Error::InvalidName { pass_name });
        }
        let request = Request::ListRoot { root: root.clone() };
        need(request, Phase::Listing { root, name: pass_name, create: Some(force) })
    }

    /// Binds the workspace to `new_name`. The store is not touched: the copy
    /// is written when the workspace is flushed or closed.
    pub fn copy(self, new_name: String, force: bool) -> (step: Step)
        ensures
            step@ == begin_gate(TargetModel::Copy { ws: self@, new_name: new_name@ }, force),
    {
        start_gate(Target::Copy { ws: self, new_name }, force)
    }

    /// Binds the workspace to `new_name`, flushes it, and only then removes
    /// the durable file of the old name. Where the new name is the old one,
    /// nothing is removed: the entry is written afresh and stays.
    pub fn rename(self, new_name: String, force: bool) -> (step: Step)
        ensures
            step@ == begin_gate(TargetModel::Rename { ws: self@, new_name: new_name@ }, force),
    {
        start_gate(Target::Rename { ws: self, new_name }, force)
    }

    /// Writes the plaintext to the store if it may differ from what is
    /// there: encrypts it to the recipients that govern the bound name, then
    /// writes the durable file, then commits it.
    pub fn flush(self) -> (step: Step)
        ensures
            step@ == begin_flush(self@, GoalModel::Flush),
    {
        start_flush(self, Goal::Flush)
    }

    /// Gives the workspace up, after a last flush if it is dirty.
    pub fn close(self) -> (step: Step)
        ensures
            step@ == begin_flush(self@, GoalModel::Close),
    {
        start_flush(self, Goal::Close)
    }
}

impl Pending {
    /// Takes the answer to the request that was made and goes on.
    pub fn resume(self, event: Event) -> (step: Step)
        ensures
            step@ == advance(self@, event@),
    {
        match self.phase {
            Phase::Listing { root, name, create } => match event {
                Event::Listed(entries) => match check_uninitialized_store(entries) {
                    Err(error) => Step::Failed(None, error),
                    Ok(_) => match create {
                        None => {
                            let path = get_pass_path(root.as_str(), name.as_str());
                            need(Request::ReadEntry { path }, Phase::Reading { root, name })
                        },
                        Some(force) => start_gate(Target::Create { root, name }, force),
                    },
                },
                Event::Failed(error) => Step::Failed(None, error),
                _ => Step::Failed(None, Error::UnexpectedEvent),
            },
            Phase::Reading { root, name } => match event {
                Event::Bytes(content) => Step::Ready(
                    PassFile::new(root, name, content),
                    Report::Untouched,
                ),
                Event::Missing => Step::Failed(None, Error::PassDoesNotExist { pass_name: name }),
                Event::Failed(error) => Step::Failed(None, error),
                _ => Step::Failed(None, Error::UnexpectedEvent),
            },
            Phase::Probing { target } => match event {
                Event::Exists(exists) => if exists {
                    let path = target_path(&target);
                    need(Request::Confirm { path }, Phase::Confirming { target })
                } else {
                    through_gate(target)
                },
                Event::Failed(error) => Step::Failed(target_workspace(target), error),
                _ => Step::Failed(target_workspace(target), Error::UnexpectedEvent),
            },
            Phase::Confirming { target } => match event {
                Event::Answer(yes) => if yes {
                    through_gate(target)
                } else {
                    Step::Declined(target_workspace(target))
                },
                Event::Failed(error) => Step::Failed(target_workspace(target), error),
                _ => Step::Failed(target_workspace(target), Error::UnexpectedEvent),
            },
            Phase::Markers { ws, goal } => match event {
                Event::Markers(markers) => match get_recipients(&markers) {
                    Ok(recipients) => {
                        let plaintext = ws.plaintext();
                        need(
                            Request::Encrypt { recipients, plaintext },
                            Phase::Encrypting { ws, goal },
                        )
                    },
                    Err(error) => give_up(ws, goal, error),
                },
                Event::Failed(error) => give_up(ws, goal, error),
                _ => give_up(ws, goal, Error::UnexpectedEvent),
            },
            Phase::Encrypting { ws, goal } => match event {
                Event::Bytes(bytes) => {
                    let path = get_pass_path(ws.root(), ws.pass_name());
                    need(Request::WriteFile { path, bytes }, Phase::Writing { ws, goal })
                },
                Event::Failed(error) => give_up(ws, goal, error),
                _ => give_up(ws, goal, Error::UnexpectedEvent),
            },
            Phase::Writing { ws, goal } => match event {
                Event::Done => match ws.commit_msg() {
                    Some(message) => {
                        let request = Request::Commit {
                            root: String::from_str(ws.root()),
                            file: get_pass_file(ws.pass_name()),
                            message,
                        };
                        need(request, Phase::Committing { ws, goal })
                    },
                    None => finish(ws, goal, Report::Uncommitted),
                },
                Event::Failed(error) => give_up(ws, goal, error),
                _ => give_up(ws, goal, Error::UnexpectedEvent),
            },
            Phase::Committing { ws, goal } => match event {
                Event::Done => finish(ws, goal, Report::Committed),
                Event::Failed(error) => if error.is_not_a_repo() {
                    finish(ws, goal, Report::Unversioned)
                } else {
                    give_up(ws, goal, error)
                },
                _ => give_up(ws, goal, Error::UnexpectedEvent),
            },
            Phase::Removing { ws, report } => match event {
                Event::Done => Step::Ready(ws, report),
                Event::Failed(error) => Step::Failed(Some(ws), error),
                _ => Step::Failed(Some(ws), Error::UnexpectedEvent),
            },
            Phase::Finding { root, name, force, recursive } => match event {
                Event::Exists(exists) => if !exists {
                    Step::Failed(None, Error::PassDoesNotExist { pass_name: name })
                } else if force {
                    need(removal_request(root.as_str(), name.as_str(), recursive), Phase::Deleting)
                } else {
                    need(
                        Request::ConfirmRemoval { pass_name: name.clone() },
                        Phase::Agreeing { root, name, recursive },
                    )
                },
                Event::Failed(error) => Step::Failed(None, error),
                _ => Step::Failed(None, Error::UnexpectedEvent),
            },
            Phase::Agreeing { root, name, recursive } => match event {
                Event::Answer(yes) => if yes {
                    need(removal_request(root.as_str(), name.as_str(), recursive), Phase::Deleting)
                } else {
                    Step::Declined(None)
                },
                Event::Failed(error) => Step::Failed(None, error),
                _ => Step::Failed(None, Error::UnexpectedEvent),
            },
            Phase::Deleting => match event {
                Event::Done => Step::Removed,
                Event::Failed(error) => Step::Failed(None, error),
                _ => Step::Failed(None, Error::UnexpectedEvent),
            },
        }
    }
}

} // verus!
