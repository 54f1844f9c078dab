//! What a copy or a move does to the store, whatever it is answered.

use vstd::prelude::*;
use crate::bulk::{all_below, lands_below};
use crate::names::{dir_path, valid_name};
use crate::protocol::{
    advance, begin_flush, begin_gate, begin_open, named, EventModel, GoalModel, RequestModel, StepModel,
};
use crate::store::{effect, only_ciphertext, Disk};
use crate::transfer::{
    begin_transfer, bulk_advance, carry, next_pair, pair_force, planned_job, rank, target_of,
    BulkPendingModel, BulkStepModel, CopyMove, JobModel, Part,
};

verus! {

/// A transfer under way: where it stands, what the store holds, and which
/// requests were answered with what so far.
pub struct BulkRun {
    pub step: BulkStepModel,
    pub disk: Disk,
    pub log: Seq<(RequestModel, EventModel)>,
}

/// The transfer after its pending request was answered with `reply`. A
/// transfer that is over stays as it is.
pub open spec fn bulk_served(r: BulkRun, reply: EventModel) -> BulkRun {
    match r.step {
        BulkStepModel::Need(request, pending) => BulkRun {
            step: bulk_advance(pending, reply),
            disk: effect(r.disk, request, reply),
            log: r.log.push((request, reply)),
        },
        _ => r,
    }
}

/// The transfer that starts at `start` on the store `disk` and is answered
/// with `replies`, one after the other.
pub open spec fn bulk_run(start: BulkStepModel, disk: Disk, replies: Seq<EventModel>) -> BulkRun
    decreases replies.len(),
{
    if replies.len() == 0 {
        BulkRun { step: start, disk, log: Seq::empty() }
    } else {
        bulk_served(bulk_run(start, disk, replies.drop_last()), replies.last())
    }
}

/// What holds at the start and is kept by every answer holds of every
/// transfer.
pub proof fn lemma_bulk_run_keeps(
    inv: spec_fn(BulkRun) -> bool,
    start: BulkStepModel,
    disk: Disk,
    replies: Seq<EventModel>,
)
    requires
        inv(BulkRun { step: start, disk, log: Seq::empty() }),
        forall|r: BulkRun, reply: EventModel| inv(r) ==> #[trigger] inv(bulk_served(r, reply)),
    ensures
        inv(bulk_run(start, disk, replies)),
    decreases replies.len(),
{
    if replies.len() > 0 {
        lemma_bulk_run_keeps(inv, start, disk, replies.drop_last());
    }
}

/// Whether a step of a workspace is one that copying, renaming and closing
/// lead to: it neither asks for a directory to be removed nor belongs to a
/// deletion.
pub open spec fn tame(step: StepModel) -> bool {
    step matches StepModel::Need(request, pending) ==> {
        &&& !(request is RemoveTree)
        &&& !(pending is Finding)
        &&& !(pending is Agreeing)
        &&& !(pending is Deleting)
    }
}

/// Whether no directory was removed so far.
pub open spec fn no_tree_removed(log: Seq<(RequestModel, EventModel)>) -> bool {
    forall|i: int| 0 <= i < log.len() ==> !((#[trigger] log[i]).0 is RemoveTree)
}

/// Whether a job is part of the transfer of `old` in the store at `root`.
pub open spec fn job_of(
    job: JobModel,
    mode: CopyMove,
    recursive: bool,
    root: Seq<char>,
    old: Seq<char>,
) -> bool {
    &&& job.mode == mode
    &&& job.root == root
    &&& job.tree matches Some(dir) ==> {
        &&& recursive
        &&& dir == dir_path(root, old)
        &&& !lands_below(old, job.plan)
    }
}

/// What holds at every point of the transfer of `old` in the store at
/// `root`. Only ciphertext is written. While pairs are in work no directory
/// was removed; the old directory is removed when all pairs are done, none
/// was declined and none has its new place in the old directory, in a move
/// of a directory; and after that nothing is asked for.
pub open spec fn orderly(
    mode: CopyMove,
    recursive: bool,
    root: Seq<char>,
    old: Seq<char>,
    r: BulkRun,
) -> bool {
    match r.step {
        BulkStepModel::Need(
            request,
            BulkPendingModel::Walking { root: t, mode: m, old: o, .. },
        ) => {
            &&& t == root
            &&& m == mode
            &&& o == old
            &&& recursive
            &&& request is ListFiles
            &&& r.log.len() == 0
        },
        BulkStepModel::Need(request, BulkPendingModel::Entry { job, part, inner }) => {
            &&& job_of(job, mode, recursive, root, old)
            &&& part != Part::Closing ==> job.failure is None
            &&& tame(StepModel::Need(request, inner))
            &&& only_ciphertext(StepModel::Need(request, inner), r.log)
            &&& no_tree_removed(r.log)
        },
        BulkStepModel::Need(request, BulkPendingModel::Clearing { job }) => {
            &&& job_of(job, mode, recursive, root, old)
            &&& mode == CopyMove::Move
            &&& recursive
            &&& job.declined == 0
            &&& job.next >= job.plan.len()
            &&& !lands_below(old, job.plan)
            &&& request == RequestModel::RemoveTree { path: dir_path(root, old) }
            &&& only_ciphertext(StepModel::Removed, r.log)
            &&& no_tree_removed(r.log)
        },
        _ => {
            &&& only_ciphertext(StepModel::Removed, r.log)
            &&& forall|i: int|
                0 <= i < r.log.len() && (#[trigger] r.log[i]).0 is RemoveTree ==> {
                    &&& i == r.log.len() - 1
                    &&& mode == CopyMove::Move
                    &&& recursive
                    &&& r.log[i].0 == RequestModel::RemoveTree { path: dir_path(root, old) }
                }
        },
    }
}

proof fn lemma_carry_orderly(
    mode: CopyMove,
    recursive: bool,
    root: Seq<char>,
    old: Seq<char>,
    job: JobModel,
    part: Part,
    step: StepModel,
    disk: Disk,
    log: Seq<(RequestModel, EventModel)>,
)
    requires
        job_of(job, mode, recursive, root, old),
        tame(step),
        only_ciphertext(step, log),
        no_tree_removed(log),
        part != Part::Closing ==> job.failure is None,
    ensures
        orderly(mode, recursive, root, old, BulkRun { step: carry(job, part, step), disk, log }),
    decreases job.plan.len() - job.next, rank(part),
{
    if job.next < job.plan.len() && !(step is Need) {
        match part {
            Part::Opening => {
                if step is Ready {
                    let ws = step->Ready_0;
                    let next = begin_gate(
                        target_of(job.mode, ws, job.plan[job.next as int].1),
                        pair_force(job),
                    );
                    lemma_carry_orderly(
                        mode,
                        recursive,
                        root,
                        old,
                        job,
                        Part::Moving,
                        next,
                        disk,
                        log,
                    );
                }
            },
            Part::Moving => {
                match step {
                    StepModel::Ready(ws, _) => {
                        lemma_carry_orderly(
                            mode,
                            recursive,
                            root,
                            old,
                            job,
                            Part::Closing,
                            begin_flush(ws, GoalModel::Close),
                            disk,
                            log,
                        );
                    },
                    StepModel::Declined(Some(ws)) => {
                        lemma_carry_orderly(
                            mode,
                            recursive,
                            root,
                            old,
                            JobModel { declined: job.declined + 1, ..job },
                            Part::Closing,
                            begin_flush(ws, GoalModel::Close),
                            disk,
                            log,
                        );
                    },
                    StepModel::Failed(Some(ws), error) => {
                        lemma_carry_orderly(
                            mode,
                            recursive,
                            root,
                            old,
                            JobModel { failure: Some(error), ..job },
                            Part::Closing,
                            begin_flush(ws, GoalModel::Close),
                            disk,
                            log,
                        );
                    },
                    _ => {},
                }
            },
            Part::Closing => {
                if step is Closed && job.failure is None {
                    lemma_next_pair_orderly(
                        mode,
                        recursive,
                        root,
                        old,
                        JobModel { next: job.next + 1, ..job },
                        disk,
                        log,
                    );
                }
            },
        }
    }
}

proof fn lemma_next_pair_orderly(
    mode: CopyMove,
    recursive: bool,
    root: Seq<char>,
    old: Seq<char>,
    job: JobModel,
    disk: Disk,
    log: Seq<(RequestModel, EventModel)>,
)
    requires
        job_of(job, mode, recursive, root, old),
        job.failure is None,
        only_ciphertext(StepModel::Removed, log),
        no_tree_removed(log),
    ensures
        orderly(mode, recursive, root, old, BulkRun { step: next_pair(job), disk, log }),
    decreases job.plan.len() - job.next, 3nat,
{
    if job.next < job.plan.len() {
        let opened = begin_open(job.root, job.plan[job.next as int].0);
        lemma_carry_orderly(mode, recursive, root, old, job, Part::Opening, opened, disk, log);
    }
}

/// A transfer writes only what the backend answered to a request to
/// encrypt. It removes the old directory only in a move of a directory, only
/// when every pair of the plan was dealt with, none was declined and none
/// was moved to a place in the old directory, and asks for nothing after
/// that.
pub proof fn lemma_transfer_is_orderly(
    mode: CopyMove,
    recursive: bool,
    root: Seq<char>,
    force: bool,
    old: Seq<char>,
    new: Seq<char>,
    disk: Disk,
    replies: Seq<EventModel>,
)
    ensures
        orderly(
            mode,
            recursive,
            root,
            named(old, recursive),
            bulk_run(begin_transfer(mode, recursive, root, force, old, new), disk, replies),
        ),
{
    let from = named(old, recursive);
    let to = named(new, recursive);
    let inv = |r: BulkRun| orderly(mode, recursive, root, from, r);
    let start = begin_transfer(mode, recursive, root, force, old, new);
    let empty = Seq::<(RequestModel, EventModel)>::empty();
    assert(inv(BulkRun { step: start, disk, log: empty })) by {
        if valid_name(from) && valid_name(to) && !recursive {
            let job = JobModel {
                root,
                mode,
                force,
                tree: None,
                plan: seq![(from, to)],
                next: 0,
                declined: 0,
                failure: None,
            };
            lemma_next_pair_orderly(mode, recursive, root, from, job, disk, empty);
        }
    }
    assert forall|r: BulkRun, reply: EventModel| inv(r) implies #[trigger] inv(
        bulk_served(r, reply),
    ) by {
        match r.step {
            BulkStepModel::Need(
                request,
                BulkPendingModel::Walking { root: t, mode: m, force: f, old: o, new: n },
            ) => {
                let log = r.log.push((request, reply));
                assert(log[0] == (request, reply));
                match reply {
                    EventModel::Files(files) => {
                        if all_below(t, o, files) {
                            lemma_next_pair_orderly(
                                mode,
                                recursive,
                                root,
                                from,
                                planned_job(t, m, f, o, n, files),
                                effect(r.disk, request, reply),
                                log,
                            );
                        }
                    },
                    _ => {},
                }
            },
            BulkStepModel::Need(request, BulkPendingModel::Entry { job, part, inner }) => {
                let log = r.log.push((request, reply));
                crate::store::lemma_only_ciphertext_step(
                    StepModel::Need(request, inner),
                    r.log,
                    reply,
                );
                assert forall|i: int| 0 <= i < log.len() implies !((#[trigger] log[i]).0
                    is RemoveTree) by {
                    if i < r.log.len() {
                        assert(log[i] == r.log[i]);
                    }
                }
                lemma_carry_orderly(
                    mode,
                    recursive,
                    root,
                    from,
                    job,
                    part,
                    advance(inner, reply),
                    effect(r.disk, request, reply),
                    log,
                );
            },
            BulkStepModel::Need(request, BulkPendingModel::Clearing { job }) => {
                let log = r.log.push((request, reply));
                assert forall|i: int|
                    0 <= i < log.len() && (#[trigger] log[i]).0 is WriteFile implies {
                    &&& i > 0
                    &&& log[i - 1].0 is Encrypt
                    &&& log[i - 1].1 == EventModel::Bytes(log[i].0->WriteFile_bytes)
                } by {
                    assert(log[i] == r.log[i]);
                    assert(log[i - 1] == r.log[i - 1]);
                }
                assert forall|i: int|
                    0 <= i < log.len() && (#[trigger] log[i]).0 is RemoveTree implies i
                    == log.len() - 1 by {
                    if i < r.log.len() {
                        assert(log[i] == r.log[i]);
                    }
                }
            },
            _ => {},
        }
    }
    lemma_bulk_run_keeps(inv, start, disk, replies);
}

} // verus!
