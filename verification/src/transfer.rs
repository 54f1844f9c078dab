//! Copying and moving, of one entry or of a directory of entries, as a
//! dialogue of its own around the dialogues of the workspaces. Each planned
//! pair is opened, copied or renamed, and closed before the next is begun.
//! The first pair that fails ends the transfer: what was done stays done,
//! what was not begun is not begun.

use vstd::prelude::*;
use crate::bulk::{
    all_below, files_below, get_pass_files_recursively, is_still_used, sorted_plan, still_used,
};
use crate::error::{Error, ErrorModel};
use crate::names::{dir_path, get_dir_path, is_valid_name, valid_name};
use crate::protocol::{
    advance, begin_flush, begin_gate, begin_open, get_named, named, Event, EventModel, GoalModel,
    Pending, PendingModel, Request, RequestModel, Step, StepModel, TargetModel,
};
use crate::workspace::{PassFile, Workspace};

verus! {

/// Whether entries are copied or moved.
#[derive(Debug, PartialEq, Eq, Clone, Copy, Structural)]
pub enum CopyMove {
    Copy,
    Move,
}

/// What is being done to the pair in work.
#[derive(Debug, PartialEq, Eq, Clone, Copy, Structural)]
pub enum Part {
    /// Its source is being opened.
    Opening,
    /// It is being copied or renamed.
    Moving,
    /// Its workspace is being closed.
    Closing,
}

/// A transfer as a mathematical value: what is to be done, and how far it
/// has come.
pub struct JobModel {
    pub root: Seq<char>,
    pub mode: CopyMove,
    pub force: bool,
    /// The old directory, where a directory is transferred.
    pub tree: Option<Seq<char>>,
    /// The pairs of names, old and new.
    pub plan: Seq<(Seq<char>, Seq<char>)>,
    /// The index of the pair in work.
    pub next: nat,
    /// How many of the pairs before it the user declined.
    pub declined: nat,
    /// Why the pair in work has failed, where it has.
    pub failure: Option<ErrorModel>,
}

#[derive(Debug)]
pub(crate) struct Job {
    root: String,
    mode: CopyMove,
    force: bool,
    tree: Option<String>,
    plan: Vec<(String, String)>,
    next: usize,
    declined: usize,
    failure: Option<Error>,
}

impl View for Job {
    type V = JobModel;

    closed spec fn view(&self) -> JobModel {
        JobModel {
            root: self.root@,
            mode: self.mode,
            force: self.force,
            tree: self.tree.deep_view(),
            plan: self.plan.deep_view(),
            next: self.next as nat,
            declined: self.declined as nat,
            failure: match self.failure {
                Some(error) => Some(error@),
                None => None,
            },
        }
    }
}

#[derive(Debug)]
pub(crate) enum BulkPhase {
    Walking { root: String, mode: CopyMove, force: bool, old: String, new: String },
    Entry { job: Job, part: Part, inner: Pending },
    Clearing { job: Job },
}

/// A transfer that waits for an answer.
#[derive(Debug)]
pub struct BulkPending {
    phase: BulkPhase,
}

/// The pair in work is one of the plan, and no more pairs were declined than
/// were begun.
spec fn in_work(job: Job, part: Part) -> bool {
    &&& job.next < job.plan.len()
    &&& job.declined <= job.next + 1
    &&& part != Part::Closing ==> job.declined <= job.next
}

impl BulkPending {
    /// While a pair is in work, it is one of the plan.
    #[verifier::type_invariant]
    spec fn in_plan(self) -> bool {
        match self.phase {
            BulkPhase::Entry { job, part, .. } => in_work(job, part),
            _ => true,
        }
    }
}

/// A [`BulkPending`] as a mathematical value.
pub enum BulkPendingModel {
    /// The files below the old directory are being looked up.
    Walking { root: Seq<char>, mode: CopyMove, force: bool, old: Seq<char>, new: Seq<char> },
    /// The workspace of the pair in work waits for an answer.
    Entry { job: JobModel, part: Part, inner: PendingModel },
    /// The old directory is being removed.
    Clearing { job: JobModel },
}

impl View for BulkPending {
    type V = BulkPendingModel;

    closed spec fn view(&self) -> BulkPendingModel {
        match self.phase {
            BulkPhase::Walking { root, mode, force, old, new } => BulkPendingModel::Walking {
                root: root@,
                mode,
                force,
                old: old@,
                new: new@,
            },
            BulkPhase::Entry { job, part, inner } => BulkPendingModel::Entry {
                job: job@,
                part,
                inner: inner@,
            },
            BulkPhase::Clearing { job } => BulkPendingModel::Clearing { job: job@ },
        }
    }
}

/// Where a transfer stands.
#[derive(Debug)]
pub enum BulkStep {
    /// The request is to be served and its answer handed to the pending
    /// transfer.
    Need(Request, BulkPending),
    /// Every pair was dealt with: `pairs` in all, of which the user declined
    /// `declined`.
    Finished { pairs: usize, declined: usize },
    /// The pair at index `done` failed, after `done` pairs were dealt with.
    /// Those stay as they are; the pairs behind it were not begun.
    Failed { done: usize, error: Error },
    /// The last flush of a workspace failed: its plaintext may be in no
    /// durable file.
    Fatal(PassFile, Error),
}

/// A [`BulkStep`] as a mathematical value.
pub enum BulkStepModel {
    Need(RequestModel, BulkPendingModel),
    Finished { pairs: nat, declined: nat },
    Failed { done: nat, error: ErrorModel },
    Fatal(Workspace, ErrorModel),
}

impl View for BulkStep {
    type V = BulkStepModel;

    open spec fn view(&self) -> BulkStepModel {
        match *self {
            BulkStep::Need(request, pending) => BulkStepModel::Need(request@, pending@),
            BulkStep::Finished { pairs, declined } => BulkStepModel::Finished {
                pairs: pairs as nat,
                declined: declined as nat,
            },
            BulkStep::Failed { done, error } => BulkStepModel::Failed {
                done: done as nat,
                error: error@,
            },
            BulkStep::Fatal(ws, error) => BulkStepModel::Fatal(ws@, error@),
        }
    }
}

/// In which order the parts of a pair come, counted down.
pub open spec fn rank(part: Part) -> nat {
    match part {
        Part::Opening => 2,
        Part::Moving => 1,
        Part::Closing => 0,
    }
}

/// What is done to a workspace that was opened for the pair `to`.
pub open spec fn target_of(mode: CopyMove, ws: Workspace, new_name: Seq<char>) -> TargetModel {
    match mode {
        CopyMove::Copy => TargetModel::Copy { ws, new_name },
        CopyMove::Move => TargetModel::Rename { ws, new_name },
    }
}

/// Whether the new name of the pair at `i` is the old name of another pair
/// of the plan: the place that the pair would take is that of an entry
/// which is itself to be transferred.
pub open spec fn clashes(plan: Seq<(Seq<char>, Seq<char>)>, i: int) -> bool {
    exists|j: int| 0 <= j < plan.len() && j != i && (#[trigger] plan[j]).0 == plan[i].1
}

/// Whether the pair in work overwrites without asking. It does not, though
/// the transfer is forced, where its new place is that of another entry of
/// the plan: if that entry is still there, it has not been transferred yet,
/// and the user is asked before it is overwritten.
pub open spec fn pair_force(job: JobModel) -> bool {
    job.force && !clashes(job.plan, job.next as int)
}

/// The transfer turns to the pair at `job.next`. After the last pair a move
/// of a directory removes the old directory, unless the user declined a
/// pair, whose entry is still there.
pub open spec fn next_pair(job: JobModel) -> BulkStepModel
    decreases job.plan.len() - job.next, 3nat,
{
    if job.next < job.plan.len() {
        carry(job, Part::Opening, begin_open(job.root, job.plan[job.next as int].0))
    } else if job.mode == CopyMove::Move && job.tree is Some && job.declined == 0 {
        BulkStepModel::Need(
            RequestModel::RemoveTree { path: job.tree->0 },
            BulkPendingModel::Clearing { job },
        )
    } else {
        BulkStepModel::Finished { pairs: job.plan.len(), declined: job.declined }
    }
}

/// What the transfer makes of the step that the workspace of the pair in
/// work has reached. A request is passed on. A source that was opened is
/// copied or renamed; after that its workspace is closed, also where the
/// user declined and where the copy or rename failed; after that the next
/// pair is begun, unless this one failed.
pub open spec fn carry(job: JobModel, part: Part, step: StepModel) -> BulkStepModel
    decreases job.plan.len() - job.next, rank(part),
{
    if job.next >= job.plan.len() {
        BulkStepModel::Failed { done: job.next, error: ErrorModel::UnexpectedEvent }
    } else {
        match step {
            StepModel::Need(request, inner) => BulkStepModel::Need(
                request,
                BulkPendingModel::Entry { job, part, inner },
            ),
            _ => match part {
                Part::Opening => match step {
                    StepModel::Ready(ws, _) => carry(
                        job,
                        Part::Moving,
                        begin_gate(
                            target_of(job.mode, ws, job.plan[job.next as int].1),
                            pair_force(job),
                        ),
                    ),
                    StepModel::Failed(_, error) => BulkStepModel::Failed { done: job.next, error },
                    _ => BulkStepModel::Failed {
                        done: job.next,
                        error: ErrorModel::UnexpectedEvent,
                    },
                },
                Part::Moving => match step {
                    StepModel::Ready(ws, _) => carry(
                        job,
                        Part::Closing,
                        begin_flush(ws, GoalModel::Close),
                    ),
                    StepModel::Declined(Some(ws)) => carry(
                        JobModel { declined: job.declined + 1, ..job },
                        Part::Closing,
                        begin_flush(ws, GoalModel::Close),
                    ),
                    StepModel::Failed(Some(ws), error) => carry(
                        JobModel { failure: Some(error), ..job },
                        Part::Closing,
                        begin_flush(ws, GoalModel::Close),
                    ),
                    StepModel::Failed(None, error) => BulkStepModel::Failed {
                        done: job.next,
                        error,
                    },
                    _ => BulkStepModel::Failed {
                        done: job.next,
                        error: ErrorModel::UnexpectedEvent,
                    },
                },
                Part::Closing => match step {
                    StepModel::Closed(_) => match job.failure {
                        Some(error) => BulkStepModel::Failed { done: job.next, error },
                        None => next_pair(JobModel { next: job.next + 1, ..job }),
                    },
                    StepModel::Fatal(ws, error) => BulkStepModel::Fatal(ws, error),
                    _ => BulkStepModel::Failed {
                        done: job.next,
                        error: ErrorModel::UnexpectedEvent,
                    },
                },
            },
        }
    }
}

/// How a transfer begins. The names of directories may be typed with
/// slashes at their end; but for that, neither name may be other than an
/// entry name. A directory is looked through first; a single entry is a
/// plan of one pair.
pub open spec fn begin_transfer(
    mode: CopyMove,
    recursive: bool,
    root: Seq<char>,
    force: bool,
    old: Seq<char>,
    new: Seq<char>,
) -> BulkStepModel {
    let from = named(old, recursive);
    let to = named(new, recursive);
    if !valid_name(from) {
        BulkStepModel::Failed { done: 0, error: ErrorModel::InvalidName { pass_name: old } }
    } else if !valid_name(to) {
        BulkStepModel::Failed { done: 0, error: ErrorModel::InvalidName { pass_name: new } }
    } else if recursive {
        BulkStepModel::Need(
            RequestModel::ListFiles { dir: dir_path(root, from) },
            BulkPendingModel::Walking { root, mode, force, old: from, new: to },
        )
    } else {
        next_pair(
            JobModel {
                root,
                mode,
                force,
                tree: None,
                plan: seq![(from, to)],
                next: 0,
                declined: 0,
                failure: None,
            },
        )
    }
}

/// The transfer of a directory, once the files below it were found. A
/// file that does not lie below the directory is no answer to the
/// question, and nothing is done. The old directory is marked for removal
/// only if nothing is moved into it.
pub open spec fn planned_job(
    root: Seq<char>,
    mode: CopyMove,
    force: bool,
    old: Seq<char>,
    new: Seq<char>,
    files: Seq<Seq<char>>,
) -> JobModel {
    let plan = sorted_plan(root, old, new, files);
    JobModel {
        root,
        mode,
        force,
        tree: if still_used(old, new, plan) {
            None
        } else {
            Some(dir_path(root, old))
        },
        plan,
        next: 0,
        declined: 0,
        failure: None,
    }
}

/// What becomes of a pending transfer when `reply` arrives.
pub open spec fn bulk_advance(pending: BulkPendingModel, reply: EventModel) -> BulkStepModel {
    match pending {
        BulkPendingModel::Walking { root, mode, force, old, new } => match reply {
            EventModel::Files(files) => if all_below(root, old, files) {
                next_pair(planned_job(root, mode, force, old, new, files))
            } else {
                BulkStepModel::Failed { done: 0, error: ErrorModel::UnexpectedEvent }
            },
            EventModel::Failed(error) => BulkStepModel::Failed { done: 0, error },
            _ => BulkStepModel::Failed { done: 0, error: ErrorModel::UnexpectedEvent },
        },
        BulkPendingModel::Entry { job, part, inner } => carry(job, part, advance(inner, reply)),
        BulkPendingModel::Clearing { job } => match reply {
            EventModel::Done => BulkStepModel::Finished {
                pairs: job.plan.len(),
                declined: job.declined,
            },
            EventModel::Failed(error) => BulkStepModel::Failed { done: job.plan.len(), error },
            _ => BulkStepModel::Failed {
                done: job.plan.len(),
                error: ErrorModel::UnexpectedEvent,
            },
        },
    }
}

fn turn_to_next(job: Job) -> (step: BulkStep)
    requires
        job.declined <= job.next <= job.plan.len(),
    ensures
        step@ == next_pair(job@),
    decreases job.plan.len() - job.next, 3nat,
{
    if job.next < job.plan.len() {
        let name = job.plan[job.next].0.clone();
        let opened = PassFile::open(job.root.clone(), name);
        carry_on(job, Part::Opening, opened)
    } else {
        let clear = match (&job.mode, &job.tree) {
            (CopyMove::Move, Some(_)) => job.declined == 0,
            _ => false,
        };
        if clear {
            let path = match &job.tree {
                Some(dir) => dir.clone(),
                None => String::new(),
            };
            BulkStep::Need(
                Request::RemoveTree { path },
                BulkPending { phase: BulkPhase::Clearing { job } },
            )
        } else {
            BulkStep::Finished { pairs: job.plan.len(), declined: job.declined }
        }
    }
}

fn get_pair_force(job: &Job) -> (force: bool)
    requires
        job.next < job.plan.len(),
    ensures
        force == pair_force(job@),
{
    if !job.force {
        return false;
    }
    let mut j: usize = 0;
    while j < job.plan.len()
        invariant
            j <= job.plan.len(),
            job.next < job.plan.len(),
            forall|k: int|
                0 <= k < j && k != job.next ==> (#[trigger] job.plan.deep_view()[k]).0
                    != job.plan.deep_view()[job.next as int].1,
        decreases job.plan.len() - j,
    {
        assert(job.plan.deep_view()[j as int].0 == job.plan@[j as int].0@);
        assert(job.plan.deep_view()[job.next as int].1 == job.plan@[job.next as int].1@);
        if j != job.next && job.plan[j].0 == job.plan[job.next].1 {
            return false;
        }
        j += 1;
    }
    true
}

fn carry_on(job: Job, part: Part, step: Step) -> (next: BulkStep)
    requires
        in_work(job, part),
    ensures
        next@ == carry(job@, part, step@),
    decreases job.plan.len() - job.next, rank(part),
{
    match step {
        Step::Need(request, inner) => BulkStep::Need(
            request,
            BulkPending { phase: BulkPhase::Entry { job, part, inner } },
        ),
        settled => match part {
            Part::Opening => match settled {
                Step::Ready(ws, _) => {
                    let new_name = job.plan[job.next].1.clone();
                    let force = get_pair_force(&job);
                    let moving = match job.mode {
                        CopyMove::Copy => ws.copy(new_name, force),
                        CopyMove::Move => ws.rename(new_name, force),
                    };
                    carry_on(job, Part::Moving, moving)
                },
                Step::Failed(_, error) => BulkStep::Failed { done: job.next, error },
                _ => BulkStep::Failed { done: job.next, error: Error::UnexpectedEvent },
            },
            Part::Moving => match settled {
                Step::Ready(ws, _) => carry_on(job, Part::Closing, ws.close()),
                Step::Declined(Some(ws)) => {
                    let mut job = job;
                    job.declined = job.declined + 1;
                    carry_on(job, Part::Closing, ws.close())
                },
                Step::Failed(Some(ws), error) => {
                    let mut job = job;
                    job.failure = Some(error);
                    carry_on(job, Part::Closing, ws.close())
                },
                Step::Failed(None, error) => BulkStep::Failed { done: job.next, error },
                _ => BulkStep::Failed { done: job.next, error: Error::UnexpectedEvent },
            },
            Part::Closing => match settled {
                Step::Closed(_) => {
                    let Job { root, mode, force, tree, plan, next, declined, failure } = job;
                    match failure {
                        Some(error) => BulkStep::Failed { done: next, error },
                        None => turn_to_next(
                            Job {
                                root,
                                mode,
                                force,
                                tree,
                                plan,
                                next: next + 1,
                                declined,
                                failure: None,
                            },
                        ),
                    }
                },
                Step::Fatal(ws, error) => BulkStep::Fatal(ws, error),
                _ => BulkStep::Failed { done: job.next, error: Error::UnexpectedEvent },
            },
        },
    }
}

/// Copies or moves the entry `old_pass` to `new_pass`, or, where `recursive`
/// is set, every entry below the directory `old_pass` to the same place
/// below `new_pass`.
pub fn copy_move(
    mode: CopyMove,
    recursive: bool,
    root: String,
    force: bool,
    old_pass: String,
    new_pass: String,
) -> (step: BulkStep)
    ensures
        step@ == begin_transfer(mode, recursive, root@, force, old_pass@, new_pass@),
{
    let from = get_named(old_pass.as_str(), recursive);
    let to = get_named(new_pass.as_str(), recursive);
    if !is_valid_name(from.as_str()) {
        BulkStep::Failed { done: 0, error: Error::InvalidName { pass_name: old_pass } }
    } else if !is_valid_name(to.as_str()) {
        BulkStep::Failed { done: 0, error: Error::InvalidName { pass_name: new_pass } }
    } else if recursive {
        let dir = get_dir_path(root.as_str(), from.as_str());
        BulkStep::Need(
            Request::ListFiles { dir },
            BulkPending { phase: BulkPhase::Walking { root, mode, force, old: from, new: to } },
        )
    } else {
        let mut plan: Vec<(String, String)> = Vec::new();
        plan.push((from, to));
        assert(plan.deep_view() == seq![(from@, to@)]);
        turn_to_next(
            Job {
                root,
                mode,
                force,
                tree: None,
                plan,
                next: 0,
                declined: 0,
                failure: None,
            },
        )
    }
}

impl BulkPending {
    /// Takes the answer to the request that was made and goes on.
    pub fn resume(self, event: Event) -> (step: BulkStep)
        ensures
            step@ == bulk_advance(self@, event@),
    {
        proof {
            use_type_invariant(&self);
        }
        match self.phase {
            BulkPhase::Walking { root, mode, force, old, new } => match event {
                Event::Files(files) => {
                    if !files_below(root.as_str(), old.as_str(), &files) {
                        return BulkStep::Failed { done: 0, error: Error::UnexpectedEvent };
                    }
                    let plan = get_pass_files_recursively(
                        root.as_str(),
                        old.as_str(),
                        new.as_str(),
                        &files,
                    );
                    let tree = if is_still_used(old.as_str(), new.as_str(), &plan) {
                        None
                    } else {
                        Some(get_dir_path(root.as_str(), old.as_str()))
                    };
                    turn_to_next(
                        Job {
                            root,
                            mode,
                            force,
                            tree,
                            plan,
                            next: 0,
                            declined: 0,
                            failure: None,
                        },
                    )
                },
                Event::Failed(error) => BulkStep::Failed { done: 0, error },
                _ => BulkStep::Failed { done: 0, error: Error::UnexpectedEvent },
            },
            BulkPhase::Entry { job, part, inner } => carry_on(job, part, inner.resume(event)),
            BulkPhase::Clearing { job } => match event {
                Event::Done => BulkStep::Finished { pairs: job.plan.len(), declined: job.declined },
                Event::Failed(error) => BulkStep::Failed { done: job.plan.len(), error },
                _ => BulkStep::Failed { done: job.plan.len(), error: Error::UnexpectedEvent },
            },
        }
    }
}

} // verus!
