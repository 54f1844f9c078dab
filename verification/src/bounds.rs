//! No operation leaves the store: whatever it asks to be read, written or
//! removed lies below the store's root, by a path that does not lead out
//! again.

use vstd::prelude::*;
use crate::names::{
    inside, lemma_dir_path_inside, lemma_marker_paths_inside, lemma_pass_path_inside,
    marker_paths, pass_file, pass_path, valid_name,
};
use crate::protocol::{
    advance, begin_create, begin_flush, begin_gate, begin_open, begin_remove, EventModel,
    GoalModel, PendingModel, RequestModel, StepModel, TargetModel,
};
use crate::store::{run, served, lemma_run_keeps, Disk, Run};
use crate::transfer::{
    begin_transfer, carry, next_pair, pair_force, rank, target_of, BulkPendingModel, BulkStepModel,
    CopyMove, JobModel, Part,
};
use crate::tree::{bulk_run, bulk_served, lemma_bulk_run_keeps, BulkRun};
use crate::workspace::Workspace;

verus! {

/// Whether a workspace belongs to the store at `root` and is bound to an
/// entry name.
pub open spec fn workspace_in(root: Seq<char>, ws: Workspace) -> bool {
    ws.root == root && valid_name(ws.name)
}

/// Whether what a request touches lies in the store at `root`.
pub open spec fn request_in(root: Seq<char>, request: RequestModel) -> bool {
    match request {
        RequestModel::ListRoot { root: r } => r == root,
        RequestModel::ReadEntry { path } => inside(root, path),
        RequestModel::Probe { path } => inside(root, path),
        RequestModel::Confirm { path } => inside(root, path),
        RequestModel::ConfirmRemoval { .. } => true,
        RequestModel::ReadMarkers { paths } => forall|k: int|
            0 <= k < paths.len() ==> inside(root, #[trigger] paths[k]),
        RequestModel::Encrypt { .. } => true,
        RequestModel::WriteFile { path, .. } => inside(root, path),
        RequestModel::Commit { root: r, file, .. } => r == root && inside(
            root,
            root + seq!['/'] + file,
        ),
        RequestModel::RemoveFile { path } => inside(root, path),
        RequestModel::ListFiles { dir } => inside(root, dir),
        RequestModel::RemoveTree { path } => inside(root, path),
    }
}

/// Whether a target belongs to the store at `root`.
pub open spec fn target_in(root: Seq<char>, target: TargetModel) -> bool {
    match target {
        TargetModel::Create { root: r, name } => r == root && valid_name(name),
        TargetModel::Copy { ws, new_name } => workspace_in(root, ws) && valid_name(new_name),
        TargetModel::Rename { ws, new_name } => workspace_in(root, ws) && valid_name(new_name),
    }
}

/// Whether what a pending operation remembers belongs to the store at
/// `root`.
pub open spec fn pending_in(root: Seq<char>, pending: PendingModel) -> bool {
    match pending {
        PendingModel::Listing { root: r, name, .. } => r == root && valid_name(name),
        PendingModel::Reading { root: r, name } => r == root && valid_name(name),
        PendingModel::Probing { target } => target_in(root, target),
        PendingModel::Confirming { target } => target_in(root, target),
        PendingModel::Markers { ws, goal } => workspace_in(root, ws) && goal_in(goal),
        PendingModel::Encrypting { ws, goal } => workspace_in(root, ws) && goal_in(goal),
        PendingModel::Writing { ws, goal } => workspace_in(root, ws) && goal_in(goal),
        PendingModel::Committing { ws, goal } => workspace_in(root, ws) && goal_in(goal),
        PendingModel::Removing { ws, .. } => workspace_in(root, ws),
        PendingModel::Finding { root: r, name, .. } => r == root && valid_name(name),
        PendingModel::Agreeing { root: r, name, .. } => r == root && valid_name(name),
        PendingModel::Deleting => true,
    }
}

/// Whether the name that a rename leaves behind is an entry name.
pub open spec fn goal_in(goal: GoalModel) -> bool {
    goal matches GoalModel::Rename { old_name } ==> valid_name(old_name)
}

/// Whether a step stays in the store at `root`: what it asks for lies
/// there, and the workspace it hands out belongs there.
pub open spec fn step_in(root: Seq<char>, step: StepModel) -> bool {
    match step {
        StepModel::Need(request, pending) => request_in(root, request) && pending_in(
            root,
            pending,
        ),
        StepModel::Ready(ws, _) => workspace_in(root, ws),
        StepModel::Declined(Some(ws)) => workspace_in(root, ws),
        StepModel::Failed(Some(ws), _) => workspace_in(root, ws),
        StepModel::Fatal(ws, _) => workspace_in(root, ws),
        _ => true,
    }
}

proof fn lemma_flush_in(root: Seq<char>, ws: Workspace, goal: GoalModel)
    requires
        workspace_in(root, ws),
        goal_in(goal),
    ensures
        step_in(root, begin_flush(ws, goal)),
        step_in(root, crate::protocol::settle(ws, goal, crate::protocol::Report::Committed)),
        step_in(root, crate::protocol::settle(ws, goal, crate::protocol::Report::Unversioned)),
        step_in(root, crate::protocol::settle(ws, goal, crate::protocol::Report::Uncommitted)),
        step_in(root, crate::protocol::settle(ws, goal, crate::protocol::Report::Untouched)),
{
    assert forall|k: int| 0 <= k < marker_paths(root, ws.name).len() implies inside(
        root,
        #[trigger] marker_paths(root, ws.name)[k],
    ) by {
        lemma_marker_paths_inside(root, ws.name, k);
    }
    if goal is Rename {
        lemma_pass_path_inside(root, goal->Rename_old_name);
    }
}

proof fn lemma_gate_in(root: Seq<char>, target: TargetModel, force: bool)
    requires
        target.workspace() matches Some(ws) ==> workspace_in(root, ws),
        target matches TargetModel::Create { root: r, .. } ==> r == root,
    ensures
        step_in(root, begin_gate(target, force)),
        target_in(root, target) ==> step_in(root, crate::protocol::pass_gate(target)),
{
    if valid_name(target.name()) {
        lemma_pass_path_inside(root, target.name());
        match target {
            TargetModel::Rename { ws, new_name } => {
                lemma_flush_in(
                    root,
                    crate::protocol::rebound(ws, new_name),
                    GoalModel::Rename { old_name: ws.name },
                );
            },
            _ => {},
        }
    }
}

/// An answer keeps an operation in the store.
pub proof fn lemma_advance_in(root: Seq<char>, pending: PendingModel, reply: EventModel)
    requires
        pending_in(root, pending),
    ensures
        step_in(root, advance(pending, reply)),
{
    match pending {
        PendingModel::Listing { root: r, name, create } => {
            lemma_pass_path_inside(root, name);
            if create is Some {
                lemma_gate_in(root, TargetModel::Create { root, name }, create->0);
            }
        },
        PendingModel::Reading { .. } => {},
        PendingModel::Probing { target } => {
            lemma_pass_path_inside(root, target.name());
            lemma_gate_in(root, target, true);
        },
        PendingModel::Confirming { target } => {
            lemma_gate_in(root, target, true);
        },
        PendingModel::Markers { ws, goal } => {},
        PendingModel::Encrypting { ws, goal } => {
            lemma_pass_path_inside(root, ws.name);
        },
        PendingModel::Writing { ws, goal } => {
            lemma_pass_path_inside(root, ws.name);
            assert(pass_path(root, ws.name) == root + seq!['/'] + pass_file(ws.name));
            lemma_flush_in(root, ws, goal);
        },
        PendingModel::Committing { ws, goal } => {
            lemma_flush_in(root, ws, goal);
        },
        PendingModel::Removing { .. } => {},
        PendingModel::Finding { root: r, name, force, recursive } => {
            lemma_pass_path_inside(root, name);
            lemma_dir_path_inside(root, name);
        },
        PendingModel::Agreeing { root: r, name, recursive } => {
            lemma_pass_path_inside(root, name);
            lemma_dir_path_inside(root, name);
        },
        PendingModel::Deleting => {},
    }
}

/// Whether a run has stayed in the store at `root` so far and will stay
/// there.
pub open spec fn run_in(root: Seq<char>, r: Run) -> bool {
    &&& step_in(root, r.step)
    &&& forall|i: int| 0 <= i < r.log.len() ==> request_in(root, (#[trigger] r.log[i]).0)
}

/// An operation that starts in the store stays there: every file that it
/// asks to be read, probed, written, committed or removed lies below the
/// root, and so does the name of the workspace that it hands out.
pub proof fn lemma_requests_stay_inside(
    root: Seq<char>,
    start: StepModel,
    disk: Disk,
    replies: Seq<EventModel>,
)
    requires
        step_in(root, start),
    ensures
        run_in(root, run(start, disk, replies)),
{
    let inv = |r: Run| run_in(root, r);
    assert forall|r: Run, reply: EventModel| inv(r) implies #[trigger] inv(served(r, reply)) by {
        if r.step is Need {
            let next = served(r, reply);
            lemma_advance_in(root, r.step->Need_1, reply);
            assert forall|i: int| 0 <= i < next.log.len() implies request_in(
                root,
                (#[trigger] next.log[i]).0,
            ) by {
                if i < r.log.len() {
                    assert(next.log[i] == r.log[i]);
                }
            }
        }
    }
    lemma_run_keeps(inv, start, disk, replies);
}

/// The operations of the library start in the store. Opening, creating and
/// deleting do so whatever the name, for they refuse what is no entry name;
/// the operations on a workspace do so if the workspace belongs to the
/// store, as every workspace does that an operation has handed out.
pub proof fn lemma_operations_start_inside(
    root: Seq<char>,
    name: Seq<char>,
    force: bool,
    recursive: bool,
    ws: Workspace,
    goal: GoalModel,
)
    ensures
        step_in(root, begin_open(root, name)),
        step_in(root, begin_create(root, name, force)),
        step_in(root, begin_remove(root, name, force, recursive)),
        workspace_in(root, ws) ==> step_in(
            root,
            begin_gate(TargetModel::Copy { ws, new_name: name }, force),
        ),
        workspace_in(root, ws) ==> step_in(
            root,
            begin_gate(TargetModel::Rename { ws, new_name: name }, force),
        ),
        workspace_in(root, ws) && goal_in(goal) ==> step_in(root, begin_flush(ws, goal)),
{
    if valid_name(name) {
        lemma_pass_path_inside(root, name);
    }
    let target = crate::protocol::named(name, recursive);
    if valid_name(target) {
        lemma_pass_path_inside(root, target);
        lemma_dir_path_inside(root, target);
    }
    if workspace_in(root, ws) {
        lemma_gate_in(root, TargetModel::Copy { ws, new_name: name }, force);
        lemma_gate_in(root, TargetModel::Rename { ws, new_name: name }, force);
        if goal_in(goal) {
            lemma_flush_in(root, ws, goal);
        }
    }
}

/// Whether a transfer belongs to the store at `root`.
pub open spec fn job_in(root: Seq<char>, job: JobModel) -> bool {
    &&& job.root == root
    &&& job.tree matches Some(dir) ==> inside(root, dir)
}

/// Whether a step of a transfer stays in the store at `root`.
pub open spec fn bulk_step_in(root: Seq<char>, step: BulkStepModel) -> bool {
    match step {
        BulkStepModel::Need(request, BulkPendingModel::Walking { root: r, old, .. }) => {
            &&& r == root
            &&& valid_name(old)
            &&& request_in(root, request)
        },
        BulkStepModel::Need(request, BulkPendingModel::Entry { job, inner, .. }) => {
            &&& job_in(root, job)
            &&& request_in(root, request)
            &&& pending_in(root, inner)
        },
        BulkStepModel::Need(request, BulkPendingModel::Clearing { .. }) => request_in(
            root,
            request,
        ),
        BulkStepModel::Fatal(ws, _) => workspace_in(root, ws),
        _ => true,
    }
}

proof fn lemma_carry_in(root: Seq<char>, job: JobModel, part: Part, step: StepModel)
    requires
        job_in(root, job),
        step_in(root, step),
    ensures
        bulk_step_in(root, carry(job, part, step)),
    decreases job.plan.len() - job.next, rank(part),
{
    if job.next < job.plan.len() && !(step is Need) {
        match part {
            Part::Opening => {
                if step is Ready {
                    let ws = step->Ready_0;
                    let target = target_of(job.mode, ws, job.plan[job.next as int].1);
                    lemma_gate_in(root, target, pair_force(job));
                    lemma_carry_in(root, job, Part::Moving, begin_gate(target, pair_force(job)));
                }
            },
            Part::Moving => {
                match step {
                    StepModel::Ready(ws, _) => {
                        lemma_flush_in(root, ws, GoalModel::Close);
                        lemma_carry_in(root, job, Part::Closing, begin_flush(ws, GoalModel::Close));
                    },
                    StepModel::Declined(Some(ws)) => {
                        lemma_flush_in(root, ws, GoalModel::Close);
                        lemma_carry_in(
                            root,
                            JobModel { declined: job.declined + 1, ..job },
                            Part::Closing,
                            begin_flush(ws, GoalModel::Close),
                        );
                    },
                    StepModel::Failed(Some(ws), error) => {
                        lemma_flush_in(root, ws, GoalModel::Close);
                        lemma_carry_in(
                            root,
                            JobModel { failure: Some(error), ..job },
                            Part::Closing,
                            begin_flush(ws, GoalModel::Close),
                        );
                    },
                    _ => {},
                }
            },
            Part::Closing => {
                if step is Closed && job.failure is None {
                    lemma_next_pair_in(root, JobModel { next: job.next + 1, ..job });
                }
            },
        }
    }
}

proof fn lemma_next_pair_in(root: Seq<char>, job: JobModel)
    requires
        job_in(root, job),
    ensures
        bulk_step_in(root, next_pair(job)),
    decreases job.plan.len() - job.next, 3nat,
{
    if job.next < job.plan.len() {
        let name = job.plan[job.next as int].0;
        if valid_name(name) {
            lemma_pass_path_inside(root, name);
        }
        lemma_carry_in(root, job, Part::Opening, begin_open(job.root, name));
    }
}

/// Whether a transfer has stayed in the store at `root` so far and will
/// stay there.
pub open spec fn bulk_run_in(root: Seq<char>, r: BulkRun) -> bool {
    &&& bulk_step_in(root, r.step)
    &&& forall|i: int| 0 <= i < r.log.len() ==> request_in(root, (#[trigger] r.log[i]).0)
}

/// A copy or a move stays in the store: whatever names it is given and
/// whatever files are found, every file that it asks to be read, written or
/// removed lies below the root, and so does the directory that a move
/// removes at its end.
pub proof fn lemma_transfer_stays_inside(
    mode: CopyMove,
    recursive: bool,
    root: Seq<char>,
    force: bool,
    old: Seq<char>,
    new: Seq<char>,
    disk: Disk,
    replies: Seq<EventModel>,
)
    ensures
        bulk_run_in(
            root,
            bulk_run(begin_transfer(mode, recursive, root, force, old, new), disk, replies),
        ),
{
    let inv = |r: BulkRun| bulk_run_in(root, r);
    let start = begin_transfer(mode, recursive, root, force, old, new);
    let from = crate::protocol::named(old, recursive);
    let to = crate::protocol::named(new, recursive);
    assert(bulk_step_in(root, start)) by {
        if valid_name(from) && valid_name(to) {
            lemma_dir_path_inside(root, from);
            if !recursive {
                lemma_next_pair_in(
                    root,
                    JobModel {
                        root,
                        mode,
                        force,
                        tree: None,
                        plan: seq![(from, to)],
                        next: 0,
                        declined: 0,
                        failure: None,
                    },
                );
            }
        }
    }
    assert forall|r: BulkRun, reply: EventModel| inv(r) implies #[trigger] inv(
        bulk_served(r, reply),
    ) by {
        if r.step is Need {
            let request = r.step->Need_0;
            let next = bulk_served(r, reply);
            assert forall|i: int| 0 <= i < next.log.len() implies request_in(
                root,
                (#[trigger] next.log[i]).0,
            ) by {
                if i < r.log.len() {
                    assert(next.log[i] == r.log[i]);
                }
            }
            match r.step->Need_1 {
                BulkPendingModel::Walking { root: t, mode: m, force: f, old: o, new: n } => {
                    lemma_dir_path_inside(root, o);
                    if reply is Files {
                        lemma_next_pair_in(
                            root,
                            crate::transfer::planned_job(t, m, f, o, n, reply->Files_0),
                        );
                    }
                },
                BulkPendingModel::Entry { job, part, inner } => {
                    lemma_advance_in(root, inner, reply);
                    lemma_carry_in(root, job, part, advance(inner, reply));
                },
                BulkPendingModel::Clearing { .. } => {},
            }
        }
    }
    lemma_bulk_run_keeps(inv, start, disk, replies);
}

} // verus!
