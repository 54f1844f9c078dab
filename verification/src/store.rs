//! The durable store as a mathematical value, and what the operations on a
//! workspace do to it. A store is a map from paths to the bytes of the files
//! there. An operation is run against a store by answering its requests one
//! after the other; a write or a removal that is answered with `Done` has
//! happened, any other answer leaves the store as it was.

use vstd::prelude::*;
use crate::names::{
    dir_name, dir_path, lemma_pass_path_injective, marker_paths, pass_file, pass_path,
    valid_name,
};
use crate::protocol::{
    advance, begin_create, begin_flush, begin_gate, begin_open, begin_remove, fresh, named,
    rebound, removal, EventModel, GoalModel, PendingModel, Report, RequestModel, StepModel,
    TargetModel,
};
use crate::recipients::{governing, identifiers};
use crate::workspace::Workspace;

verus! {

/// The durable files of a store, by path.
pub type Disk = Map<Seq<char>, Seq<u8>>;

/// An operation under way: where it stands, what the store holds, and which
/// requests were answered with what so far.
pub struct Run {
    pub step: StepModel,
    pub disk: Disk,
    pub log: Seq<(RequestModel, EventModel)>,
}

/// The files of `disk` that lie below the directory `dir`.
pub open spec fn below(disk: Disk, dir: Seq<char>) -> Set<Seq<char>> {
    Set::new(|path: Seq<char>| disk.contains_key(path) && (dir + seq!['/']).is_prefix_of(path))
}

/// What a request does to the store once `reply` has answered it.
pub open spec fn effect(disk: Disk, request: RequestModel, reply: EventModel) -> Disk {
    match (request, reply) {
        (RequestModel::WriteFile { path, bytes }, EventModel::Done) => disk.insert(path, bytes),
        (RequestModel::RemoveFile { path }, EventModel::Done) => disk.remove(path),
        (RequestModel::RemoveTree { path }, EventModel::Done) => disk.remove_keys(
            below(disk, path),
        ),
        _ => disk,
    }
}

/// The run after its pending request was answered with `reply`. A run that
/// is over stays as it is.
pub open spec fn served(r: Run, reply: EventModel) -> Run {
    match r.step {
        StepModel::Need(request, pending) => Run {
            step: advance(pending, reply),
            disk: effect(r.disk, request, reply),
            log: r.log.push((request, reply)),
        },
        _ => r,
    }
}

/// The run that starts at `start` on the store `disk` and is answered with
/// `replies`, one after the other.
pub open spec fn run(start: StepModel, disk: Disk, replies: Seq<EventModel>) -> Run
    decreases replies.len(),
{
    if replies.len() == 0 {
        Run { step: start, disk, log: Seq::empty() }
    } else {
        served(run(start, disk, replies.drop_last()), replies.last())
    }
}

/// What holds at the start and is kept by every answer holds of every run.
pub proof fn lemma_run_keeps(
    inv: spec_fn(Run) -> bool,
    start: StepModel,
    disk: Disk,
    replies: Seq<EventModel>,
)
    requires
        inv(Run { step: start, disk, log: Seq::empty() }),
        forall|r: Run, reply: EventModel| inv(r) ==> #[trigger] inv(served(r, reply)),
    ensures
        inv(run(start, disk, replies)),
    decreases replies.len(),
{
    if replies.len() > 0 {
        lemma_run_keeps(inv, start, disk, replies.drop_last());
    }
}

/// Whether entries `i` and `i + 1` of the log show the making of `bytes`:
/// the markers that may govern the name of `ws` were read, and the plaintext
/// of `ws` was encrypted to the recipients that the nearest of them names,
/// which gave `bytes`.
pub open spec fn sealed_at(
    log: Seq<(RequestModel, EventModel)>,
    i: int,
    ws: Workspace,
    bytes: Seq<u8>,
) -> bool {
    &&& 0 <= i
    &&& i + 1 < log.len()
    &&& log[i].0 == RequestModel::ReadMarkers { paths: marker_paths(ws.root, ws.name) }
    &&& log[i].1 matches EventModel::Markers(markers)
    &&& governing(markers) matches Some(text)
    &&& log[i + 1].0 == RequestModel::Encrypt {
        recipients: identifiers(text),
        plaintext: ws.content,
    }
    &&& log[i + 1].1 == EventModel::Bytes(bytes)
}

/// Whether `bytes` is a ciphertext that this run had made of the plaintext
/// of `ws`, for the recipients that govern its name.
pub open spec fn sealed(
    log: Seq<(RequestModel, EventModel)>,
    ws: Workspace,
    bytes: Seq<u8>,
) -> bool {
    exists|i: int| sealed_at(log, i, ws, bytes)
}

proof fn lemma_sealed_stays(
    log: Seq<(RequestModel, EventModel)>,
    entry: (RequestModel, EventModel),
    ws: Workspace,
    bytes: Seq<u8>,
)
    requires
        sealed(log, ws, bytes),
    ensures
        sealed(log.push(entry), ws, bytes),
{
    let i = choose|i: int| sealed_at(log, i, ws, bytes);
    assert(log.push(entry)[i] == log[i]);
    assert(log.push(entry)[i + 1] == log[i + 1]);
    assert(sealed_at(log.push(entry), i, ws, bytes));
}

/// The store `disk` is `before` with the durable file of `ws` replaced by a
/// ciphertext that the run had made of its plaintext.
pub open spec fn written(
    before: Disk,
    disk: Disk,
    log: Seq<(RequestModel, EventModel)>,
    ws: Workspace,
) -> bool {
    exists|bytes: Seq<u8>| #[trigger]
        sealed(log, ws, bytes) && disk == before.insert(pass_path(ws.root, ws.name), bytes)
}

/// The store `disk` is `before` with the durable file of `ws` replaced by a
/// ciphertext that the run had made of its plaintext, and then without the
/// durable file of `old_name`.
pub open spec fn moved(
    before: Disk,
    disk: Disk,
    log: Seq<(RequestModel, EventModel)>,
    ws: Workspace,
    old_name: Seq<char>,
) -> bool {
    exists|bytes: Seq<u8>| #[trigger]
        sealed(log, ws, bytes) && disk == before.insert(
            pass_path(ws.root, ws.name),
            bytes,
        ).remove(pass_path(ws.root, old_name))
}

/// `ws` with nothing owed to the store.
pub open spec fn clean(ws: Workspace) -> Workspace {
    Workspace { dirty: false, ..ws }
}

/// What holds at every point of a flush of `ws` that started on the store
/// `before`.
pub open spec fn flushing(ws: Workspace, goal: GoalModel, before: Disk, r: Run) -> bool {
    let path = pass_path(ws.root, ws.name);
    match r.step {
        StepModel::Need(request, PendingModel::Markers { ws: w, goal: g }) => {
            &&& w == ws
            &&& g == goal
            &&& ws.dirty
            &&& request == RequestModel::ReadMarkers { paths: marker_paths(ws.root, ws.name) }
            &&& r.disk == before
        },
        StepModel::Need(request, PendingModel::Encrypting { ws: w, goal: g }) => {
            &&& w == ws
            &&& g == goal
            &&& ws.dirty
            &&& r.disk == before
            &&& r.log.len() > 0
            &&& r.log.last().0 == RequestModel::ReadMarkers {
                paths: marker_paths(ws.root, ws.name),
            }
            &&& r.log.last().1 matches EventModel::Markers(markers)
            &&& governing(markers) matches Some(text)
            &&& request == RequestModel::Encrypt {
                recipients: identifiers(text),
                plaintext: ws.content,
            }
        },
        StepModel::Need(request, PendingModel::Writing { ws: w, goal: g }) => {
            &&& w == ws
            &&& g == goal
            &&& ws.dirty
            &&& r.disk == before
            &&& request matches RequestModel::WriteFile { path: p, bytes }
            &&& p == path
            &&& sealed(r.log, ws, bytes)
        },
        StepModel::Need(request, PendingModel::Committing { ws: w, goal: g }) => {
            &&& w == ws
            &&& g == goal
            &&& ws.dirty
            &&& ws.commit_msg matches Some(message)
            &&& request == RequestModel::Commit {
                root: ws.root,
                file: pass_file(ws.name),
                message,
            }
            &&& written(before, r.disk, r.log, ws)
        },
        StepModel::Need(request, PendingModel::Removing { ws: w, report }) => {
            &&& goal matches GoalModel::Rename { old_name }
            &&& old_name != ws.name
            &&& w == clean(ws)
            &&& ws.dirty
            &&& report != Report::Untouched
            &&& request == RequestModel::RemoveFile { path: pass_path(ws.root, old_name) }
            &&& written(before, r.disk, r.log, ws)
        },
        StepModel::Need(_, _) => false,
        StepModel::Ready(w, report) => {
            &&& w == clean(ws)
            &&& match goal {
                GoalModel::Flush => if ws.dirty {
                    report != Report::Untouched && written(before, r.disk, r.log, ws)
                } else {
                    report == Report::Untouched && r.disk == before && r.log.len() == 0
                },
                GoalModel::Rename { old_name } => {
                    &&& ws.dirty
                    &&& report != Report::Untouched
                    &&& if old_name == ws.name {
                        written(before, r.disk, r.log, ws)
                    } else {
                        moved(before, r.disk, r.log, ws, old_name)
                    }
                },
                GoalModel::Close => false,
            }
        },
        StepModel::Closed(report) => {
            &&& goal is Close
            &&& if ws.dirty {
                report != Report::Untouched && written(before, r.disk, r.log, ws)
            } else {
                report == Report::Untouched && r.disk == before
            }
        },
        StepModel::Failed(w, _) => {
            &&& !(goal is Close)
            &&& ws.dirty
            &&& {
                ||| w == Some(ws) && r.disk == before
                ||| w == Some(ws) && written(before, r.disk, r.log, ws)
                ||| goal is Rename && w == Some(clean(ws)) && written(before, r.disk, r.log, ws)
            }
        },
        StepModel::Fatal(w, _) => {
            &&& goal is Close
            &&& ws.dirty
            &&& w == ws
            &&& (r.disk == before || written(before, r.disk, r.log, ws))
        },
        StepModel::Declined(_) => false,
        StepModel::Removed => false,
    }
}

proof fn lemma_flushing_step(
    ws: Workspace,
    goal: GoalModel,
    before: Disk,
    r: Run,
    reply: EventModel,
)
    requires
        flushing(ws, goal, before, r),
    ensures
        flushing(ws, goal, before, served(r, reply)),
{
    let next = served(r, reply);
    let path = pass_path(ws.root, ws.name);
    match r.step {
        StepModel::Need(request, PendingModel::Markers { ws: w, goal: g }) => {
            assert(next.log.last() == (request, reply));
        },
        StepModel::Need(request, PendingModel::Encrypting { ws: w, goal: g }) => {
            match reply {
                EventModel::Bytes(bytes) => {
                    let i = r.log.len() - 1;
                    assert(next.log[i] == r.log[i]);
                    assert(next.log[i + 1] == (request, reply));
                    assert(sealed_at(next.log, i, ws, bytes));
                },
                _ => {},
            }
        },
        StepModel::Need(request, PendingModel::Writing { ws: w, goal: g }) => {
            let bytes = request->WriteFile_bytes;
            lemma_sealed_stays(r.log, (request, reply), ws, bytes);
            match reply {
                EventModel::Done => {
                    assert(next.disk == before.insert(path, bytes));
                    assert(written(before, next.disk, next.log, ws));
                },
                _ => {},
            }
        },
        StepModel::Need(request, PendingModel::Committing { ws: w, goal: g }) => {
            let bytes = choose|bytes: Seq<u8>| #[trigger]
                sealed(r.log, ws, bytes) && r.disk == before.insert(path, bytes);
            lemma_sealed_stays(r.log, (request, reply), ws, bytes);
            assert(written(before, next.disk, next.log, ws));
        },
        StepModel::Need(request, PendingModel::Removing { ws: w, report }) => {
            let bytes = choose|bytes: Seq<u8>| #[trigger]
                sealed(r.log, ws, bytes) && r.disk == before.insert(path, bytes);
            lemma_sealed_stays(r.log, (request, reply), ws, bytes);
            assert(written(before, r.disk, next.log, ws));
            match reply {
                EventModel::Done => {
                    assert(moved(before, next.disk, next.log, ws, goal->Rename_old_name));
                },
                _ => {},
            }
        },
        _ => {},
    }
}

/// Every point of a flush is one that `flushing` describes.
pub proof fn lemma_flush_runs(ws: Workspace, goal: GoalModel, disk: Disk, replies: Seq<EventModel>)
    requires
        goal is Rename ==> ws.dirty,
    ensures
        flushing(ws, goal, disk, run(begin_flush(ws, goal), disk, replies)),
{
    let inv = |r: Run| flushing(ws, goal, disk, r);
    assert forall|r: Run, reply: EventModel| inv(r) implies #[trigger] inv(served(r, reply)) by {
        lemma_flushing_step(ws, goal, disk, r, reply);
    }
    lemma_run_keeps(inv, begin_flush(ws, goal), disk, replies);
}

/// What holds while the question is open whether `target` may take its
/// place: the store is as it was, and where the run has ended, the workspace
/// is as it was.
pub open spec fn gating(target: TargetModel, before: Disk, r: Run) -> bool {
    &&& r.disk == before
    &&& match r.step {
        StepModel::Need(request, PendingModel::Probing { target: t }) => {
            &&& t == target
            &&& request == RequestModel::Probe { path: target.path() }
        },
        StepModel::Need(request, PendingModel::Confirming { target: t }) => {
            &&& t == target
            &&& request == RequestModel::Confirm { path: target.path() }
        },
        StepModel::Declined(w) => w == target.workspace(),
        StepModel::Failed(w, _) => w == target.workspace(),
        _ => false,
    }
}

/// What holds at every point of a rename of `ws` to `new_name`.
pub open spec fn renaming(ws: Workspace, new_name: Seq<char>, before: Disk, r: Run) -> bool {
    ||| gating(TargetModel::Rename { ws, new_name }, before, r)
    ||| flushing(rebound(ws, new_name), GoalModel::Rename { old_name: ws.name }, before, r)
}

/// Every point of a rename is one that `renaming` describes.
pub proof fn lemma_rename_runs(
    ws: Workspace,
    new_name: Seq<char>,
    force: bool,
    disk: Disk,
    replies: Seq<EventModel>,
)
    ensures
        renaming(
            ws,
            new_name,
            disk,
            run(begin_gate(TargetModel::Rename { ws, new_name }, force), disk, replies),
        ),
{
    let inv = |r: Run| renaming(ws, new_name, disk, r);
    assert forall|r: Run, reply: EventModel| inv(r) implies #[trigger] inv(served(r, reply)) by {
        if flushing(rebound(ws, new_name), GoalModel::Rename { old_name: ws.name }, disk, r) {
            lemma_flushing_step(
                rebound(ws, new_name),
                GoalModel::Rename { old_name: ws.name },
                disk,
                r,
                reply,
            );
        }
    }
    lemma_run_keeps(inv, begin_gate(TargetModel::Rename { ws, new_name }, force), disk, replies);
}

/// Whether the file at `path` is in `after` what it was in `before`: there
/// or not, and with the same bytes.
pub open spec fn same_file(before: Disk, after: Disk, path: Seq<char>) -> bool {
    &&& after.contains_key(path) == before.contains_key(path)
    &&& before.contains_key(path) ==> after[path] == before[path]
}

/// A rename never leaves the entry without a durable file. While it has
/// not succeeded, whether it is still under way, was declined, or failed at
/// any point, the durable file of the old name is there as it was, byte for
/// byte; only where the new name is the old one may that file hold instead
/// a ciphertext that the rename had made of the workspace's plaintext.
pub proof fn lemma_rename_keeps_source(
    ws: Workspace,
    new_name: Seq<char>,
    force: bool,
    disk: Disk,
    replies: Seq<EventModel>,
)
    ensures
        ({
            let r = run(begin_gate(TargetModel::Rename { ws, new_name }, force), disk, replies);
            let source = pass_path(ws.root, ws.name);
            !(r.step is Ready) ==> {
                ||| same_file(disk, r.disk, source)
                ||| new_name == ws.name && r.disk.contains_key(source) && sealed(
                    r.log,
                    rebound(ws, new_name),
                    r.disk[source],
                )
            }
        }),
{
    let r = run(begin_gate(TargetModel::Rename { ws, new_name }, force), disk, replies);
    lemma_rename_runs(ws, new_name, force, disk, replies);
    if pass_path(ws.root, ws.name) == pass_path(ws.root, new_name) {
        lemma_pass_path_injective(ws.root, ws.name, new_name);
    }
}

/// After a rename that succeeded the workspace is bound to the new name and
/// clean, with the plaintext it had; the durable file of the new name holds
/// a ciphertext that was made during the rename, of that plaintext, for the
/// recipients that govern the new name; the durable file of the old name is
/// gone, unless the new name is the old one; and every other file is as it
/// was.
pub proof fn lemma_rename_moves(
    ws: Workspace,
    new_name: Seq<char>,
    force: bool,
    disk: Disk,
    replies: Seq<EventModel>,
)
    ensures
        ({
            let r = run(begin_gate(TargetModel::Rename { ws, new_name }, force), disk, replies);
            let source = pass_path(ws.root, ws.name);
            let dest = pass_path(ws.root, new_name);
            r.step matches StepModel::Ready(after, report) ==> {
                &&& after == Workspace { name: new_name, dirty: false, ..ws }
                &&& report != Report::Untouched
                &&& r.disk.contains_key(dest)
                &&& sealed(r.log, rebound(ws, new_name), r.disk[dest])
                &&& new_name != ws.name ==> !r.disk.contains_key(source)
                &&& forall|path: Seq<char>|
                    path != source && path != dest ==> same_file(disk, r.disk, path)
            }
        }),
{
    let r = run(begin_gate(TargetModel::Rename { ws, new_name }, force), disk, replies);
    lemma_rename_runs(ws, new_name, force, disk, replies);
    if pass_path(ws.root, ws.name) == pass_path(ws.root, new_name) {
        lemma_pass_path_injective(ws.root, ws.name, new_name);
    }
}

/// A rename that the user declined has changed nothing: the store is as it
/// was, and the workspace is handed back as it was, bound to its old name.
pub proof fn lemma_rename_declined(
    ws: Workspace,
    new_name: Seq<char>,
    force: bool,
    disk: Disk,
    replies: Seq<EventModel>,
)
    ensures
        ({
            let r = run(begin_gate(TargetModel::Rename { ws, new_name }, force), disk, replies);
            r.step matches StepModel::Declined(left) ==> left == Some(ws) && r.disk == disk
        }),
{
    lemma_rename_runs(ws, new_name, force, disk, replies);
}

/// A flush that succeeded leaves a clean workspace with the plaintext it
/// had, and a flush of that workspace is over at once: it asks for nothing,
/// so nothing is encrypted, written or committed a second time, and the
/// store stays as the first flush left it.
pub proof fn lemma_flush_twice(
    ws: Workspace,
    disk: Disk,
    replies: Seq<EventModel>,
    more: Seq<EventModel>,
)
    ensures
        ({
            let first = run(begin_flush(ws, GoalModel::Flush), disk, replies);
            first.step matches StepModel::Ready(after, report) ==> {
                let second = run(begin_flush(after, GoalModel::Flush), first.disk, more);
                &&& after == clean(ws)
                &&& (report == Report::Untouched <==> !ws.dirty)
                &&& second.step == StepModel::Ready(after, Report::Untouched)
                &&& second.disk == first.disk
                &&& second.log.len() == 0
            }
        }),
{
    let first = run(begin_flush(ws, GoalModel::Flush), disk, replies);
    lemma_flush_runs(ws, GoalModel::Flush, disk, replies);
    if first.step is Ready {
        let after = first.step->Ready_0;
        lemma_flush_runs(after, GoalModel::Flush, first.disk, more);
    }
}

/// How many of the requests that were answered so far are of the kind
/// `kind`.
pub open spec fn asked(log: Seq<(RequestModel, EventModel)>, kind: spec_fn(RequestModel) -> bool) -> nat
    decreases log.len(),
{
    if log.len() == 0 {
        0
    } else if kind(log.last().0) {
        asked(log.drop_last(), kind) + 1
    } else {
        asked(log.drop_last(), kind)
    }
}

/// The requests to encrypt.
pub open spec fn encryptions() -> spec_fn(RequestModel) -> bool {
    |request: RequestModel| request is Encrypt
}

/// The requests to write a file.
pub open spec fn writes() -> spec_fn(RequestModel) -> bool {
    |request: RequestModel| request is WriteFile
}

/// The requests to commit.
pub open spec fn commits() -> spec_fn(RequestModel) -> bool {
    |request: RequestModel| request is Commit
}

/// Whether the log holds `e` requests to encrypt, `w` to write and `c` to
/// commit.
pub open spec fn tally(log: Seq<(RequestModel, EventModel)>, e: nat, w: nat, c: nat) -> bool {
    &&& asked(log, encryptions()) == e
    &&& asked(log, writes()) == w
    &&& asked(log, commits()) == c
}

/// What holds of the requests of a flush at every point of it: how many
/// times it has asked to encrypt, to write and to commit.
pub open spec fn flushing_once(r: Run) -> bool {
    match r.step {
        StepModel::Need(request, PendingModel::Markers { .. }) => {
            &&& request is ReadMarkers
            &&& tally(r.log, 0, 0, 0)
        },
        StepModel::Need(request, PendingModel::Encrypting { .. }) => {
            &&& request is Encrypt
            &&& tally(r.log, 0, 0, 0)
        },
        StepModel::Need(request, PendingModel::Writing { .. }) => {
            &&& request is WriteFile
            &&& tally(r.log, 1, 0, 0)
        },
        StepModel::Need(request, PendingModel::Committing { .. }) => {
            &&& request is Commit
            &&& tally(r.log, 1, 1, 0)
        },
        StepModel::Need(request, PendingModel::Removing { report, .. }) => {
            &&& request is RemoveFile
            &&& report != Report::Untouched
            &&& tally(r.log, 1, 1, if report == Report::Uncommitted { 0nat } else { 1nat })
        },
        StepModel::Need(_, _) => false,
        StepModel::Ready(_, report) => if report == Report::Untouched {
            tally(r.log, 0, 0, 0)
        } else {
            tally(r.log, 1, 1, if report == Report::Uncommitted { 0nat } else { 1nat })
        },
        StepModel::Closed(report) => if report == Report::Untouched {
            tally(r.log, 0, 0, 0)
        } else {
            tally(r.log, 1, 1, if report == Report::Uncommitted { 0nat } else { 1nat })
        },
        _ => {
            &&& asked(r.log, encryptions()) <= 1
            &&& asked(r.log, writes()) <= 1
            &&& asked(r.log, commits()) <= 1
        },
    }
}

/// A flush asks at most once for an encryption, at most once for a write
/// and at most once for a commit, whatever it is answered. Where it
/// succeeds without having touched the store it has asked for none of
/// them; where it succeeds otherwise it has asked for each exactly once,
/// the commit aside where the workspace has no message.
pub proof fn lemma_flush_asks_once(
    ws: Workspace,
    goal: GoalModel,
    disk: Disk,
    replies: Seq<EventModel>,
)
    requires
        goal is Rename ==> ws.dirty,
    ensures
        flushing_once(run(begin_flush(ws, goal), disk, replies)),
{
    let inv = |r: Run| flushing_once(r);
    let empty = Seq::<(RequestModel, EventModel)>::empty();
    assert(tally(empty, 0, 0, 0));
    assert forall|r: Run, reply: EventModel| inv(r) implies #[trigger] inv(served(r, reply)) by {
        if r.step is Need {
            let next = r.log.push((r.step->Need_0, reply));
            assert(next.drop_last() == r.log);
            assert(next.last() == (r.step->Need_0, reply));
        }
    }
    lemma_run_keeps(inv, begin_flush(ws, goal), disk, replies);
}

/// Whatever happens to a flush, the store differs from what it was at most
/// in the durable file of the bound name, and that file is either as it was
/// or holds a ciphertext that was made during the flush of the workspace's
/// plaintext. A flush that fails before its write is answered leaves the
/// store as it was.
pub proof fn lemma_flush_writes_one_file(
    ws: Workspace,
    goal: GoalModel,
    disk: Disk,
    replies: Seq<EventModel>,
)
    requires
        goal is Flush || goal is Close,
    ensures
        ({
            let r = run(begin_flush(ws, goal), disk, replies);
            let path = pass_path(ws.root, ws.name);
            &&& forall|other: Seq<char>| other != path ==> same_file(disk, r.disk, other)
            &&& r.disk == disk || (r.disk.contains_key(path) && sealed(r.log, ws, r.disk[path]))
            &&& (r.step is Ready || r.step is Closed) && ws.dirty ==> r.disk.contains_key(path)
                && sealed(r.log, ws, r.disk[path])
        }),
{
    lemma_flush_runs(ws, goal, disk, replies);
}

/// What holds at every point of a copy of `ws` to `new_name`: the store is
/// never touched.
pub open spec fn copying(ws: Workspace, new_name: Seq<char>, before: Disk, r: Run) -> bool {
    ||| gating(TargetModel::Copy { ws, new_name }, before, r)
    ||| r.step == StepModel::Ready(rebound(ws, new_name), Report::Untouched) && r.disk == before
}

/// A copy does not touch the store. Where it succeeds the workspace is bound
/// to the new name and dirty, with the plaintext it had; where the user
/// declined or something failed it is handed back as it was.
pub proof fn lemma_copy_rebinds(
    ws: Workspace,
    new_name: Seq<char>,
    force: bool,
    disk: Disk,
    replies: Seq<EventModel>,
)
    ensures
        ({
            let r = run(begin_gate(TargetModel::Copy { ws, new_name }, force), disk, replies);
            &&& r.disk == disk
            &&& r.step matches StepModel::Ready(after, report) ==> after == rebound(ws, new_name)
                && report == Report::Untouched
            &&& r.step matches StepModel::Declined(left) ==> left == Some(ws)
            &&& r.step matches StepModel::Failed(left, _) ==> left == Some(ws)
            &&& !(r.step is Closed) && !(r.step is Fatal)
        }),
{
    let inv = |r: Run| copying(ws, new_name, disk, r);
    assert forall|r: Run, reply: EventModel| inv(r) implies #[trigger] inv(served(r, reply)) by {}
    lemma_run_keeps(inv, begin_gate(TargetModel::Copy { ws, new_name }, force), disk, replies);
}

/// What holds at every point of the creation of `name`: the store is never
/// touched.
pub open spec fn creating(
    root: Seq<char>,
    name: Seq<char>,
    force: bool,
    before: Disk,
    r: Run,
) -> bool {
    &&& r.disk == before
    &&& {
        ||| gating(TargetModel::Create { root, name }, before, r)
        ||| r.step == StepModel::Ready(fresh(root, name), Report::Untouched)
        ||| r.step == begin_create(root, name, force)
    }
}

/// Creating a workspace writes nothing. Where it succeeds the workspace is
/// empty, dirty and bound to the name; where the user declined or something
/// failed there is no workspace.
pub proof fn lemma_create_writes_nothing(
    root: Seq<char>,
    name: Seq<char>,
    force: bool,
    disk: Disk,
    replies: Seq<EventModel>,
)
    ensures
        ({
            let r = run(begin_create(root, name, force), disk, replies);
            &&& r.disk == disk
            &&& r.step matches StepModel::Ready(after, report) ==> after == fresh(root, name)
                && report == Report::Untouched
            &&& r.step matches StepModel::Declined(left) ==> left is None
            &&& r.step matches StepModel::Failed(left, _) ==> left is None
            &&& !(r.step is Closed) && !(r.step is Fatal)
        }),
{
    let inv = |r: Run| creating(root, name, force, disk, r);
    assert forall|r: Run, reply: EventModel| inv(r) implies #[trigger] inv(served(r, reply)) by {}
    lemma_run_keeps(inv, begin_create(root, name, force), disk, replies);
}

/// What holds at every point of the opening of `name`.
pub open spec fn opening(root: Seq<char>, name: Seq<char>, before: Disk, r: Run) -> bool {
    &&& r.disk == before
    &&& match r.step {
        StepModel::Need(request, pending) => {
            ||| r.step == begin_open(root, name)
            ||| request == RequestModel::ReadEntry { path: pass_path(root, name) } && pending
                == PendingModel::Reading { root, name }
        },
        StepModel::Ready(ws, report) => {
            &&& report == Report::Untouched
            &&& ws == Workspace { root, name, content: ws.content, dirty: false, commit_msg: None }
            &&& r.log.len() > 0
            &&& r.log.last() == (
                RequestModel::ReadEntry { path: pass_path(root, name) },
                EventModel::Bytes(ws.content),
            )
        },
        StepModel::Failed(ws, _) => ws is None,
        _ => false,
    }
}

/// Opening an entry writes nothing. Where it succeeds the workspace is bound
/// to the name, clean and without a commit message, and its plaintext is
/// what was answered when the entry's durable file was read and decrypted;
/// where it fails there is no workspace.
pub proof fn lemma_open_reads(
    root: Seq<char>,
    name: Seq<char>,
    disk: Disk,
    replies: Seq<EventModel>,
)
    ensures
        opening(root, name, disk, run(begin_open(root, name), disk, replies)),
{
    let inv = |r: Run| opening(root, name, disk, r);
    assert forall|r: Run, reply: EventModel| inv(r) implies #[trigger] inv(served(r, reply)) by {
        assert(served(r, reply).log.len() > 0 ==> served(r, reply).log.last() == (
            r.step->Need_0,
            reply,
        ) || served(r, reply) == r);
    }
    lemma_run_keeps(inv, begin_open(root, name), disk, replies);
}

/// What holds at every point of the deletion of `name`.
pub open spec fn removing(
    root: Seq<char>,
    name: Seq<char>,
    recursive: bool,
    before: Disk,
    r: Run,
) -> bool {
    match r.step {
        StepModel::Need(
            request,
            PendingModel::Finding { root: t, name: n, recursive: rec, .. },
        ) => {
            &&& t == root
            &&& n == name
            &&& rec == recursive
            &&& request is Probe
            &&& r.disk == before
        },
        StepModel::Need(request, PendingModel::Agreeing { root: t, name: n, recursive: rec }) => {
            &&& t == root
            &&& n == name
            &&& rec == recursive
            &&& request is ConfirmRemoval
            &&& r.disk == before
        },
        StepModel::Need(request, PendingModel::Deleting) => {
            &&& request == removal(root, name, recursive)
            &&& r.disk == before
        },
        StepModel::Removed => r.disk == effect(
            before,
            removal(root, name, recursive),
            EventModel::Done,
        ),
        StepModel::Declined(ws) => ws is None && r.disk == before,
        StepModel::Failed(ws, _) => ws is None && r.disk == before,
        _ => false,
    }
}

/// A deletion that the user declined, or that failed, leaves the store as
/// it was. One that succeeded has taken the entry's durable file, or with
/// `recursive` every file below the directory, and nothing else. The
/// directory is an entry name once the slashes at its end are taken off:
/// never the store itself.
pub proof fn lemma_remove_deletes(
    root: Seq<char>,
    name: Seq<char>,
    force: bool,
    recursive: bool,
    disk: Disk,
    replies: Seq<EventModel>,
)
    ensures
        ({
            let r = run(begin_remove(root, name, force, recursive), disk, replies);
            &&& !(r.step is Removed) ==> r.disk == disk
            &&& r.step is Removed ==> valid_name(named(name, recursive))
            &&& r.step is Removed && !recursive ==> r.disk == disk.remove(pass_path(root, name))
            &&& r.step is Removed && recursive ==> r.disk == disk.remove_keys(
                below(disk, dir_path(root, dir_name(name))),
            )
        }),
{
    let inv = |r: Run|
        removing(root, named(name, recursive), recursive, disk, r) && (r.step is Failed
            || valid_name(named(name, recursive)));
    assert forall|r: Run, reply: EventModel| inv(r) implies #[trigger] inv(served(r, reply)) by {}
    lemma_run_keeps(inv, begin_remove(root, name, force, recursive), disk, replies);
}

/// Whether the backend did in this run what a backend is for: whatever it
/// gave out as the encryption of a plaintext, `decrypt` turns back into
/// that plaintext.
pub open spec fn round_trip(
    decrypt: spec_fn(Seq<u8>) -> Seq<u8>,
    log: Seq<(RequestModel, EventModel)>,
) -> bool {
    forall|i: int|
        0 <= i < log.len() ==> match #[trigger] log[i] {
            (RequestModel::Encrypt { plaintext, .. }, EventModel::Bytes(bytes)) => decrypt(bytes)
                == plaintext,
            _ => true,
        }
}

/// Whether the entries that were read in this run were read from the store
/// `disk`: the plaintext that was answered is the decryption of the file
/// that is there.
pub open spec fn honest_reads(
    decrypt: spec_fn(Seq<u8>) -> Seq<u8>,
    disk: Disk,
    log: Seq<(RequestModel, EventModel)>,
) -> bool {
    forall|i: int|
        0 <= i < log.len() ==> match #[trigger] log[i] {
            (RequestModel::ReadEntry { path }, EventModel::Bytes(plaintext)) => disk.contains_key(
                path,
            ) && plaintext == decrypt(disk[path]),
            _ => true,
        }
}

/// What was flushed is what is read back. If a dirty workspace was flushed
/// with a backend whose encryption `decrypt` undoes, and the entry is then
/// opened from the store as the flush left it, the new workspace holds the
/// plaintext of the old one, byte for byte.
pub proof fn lemma_reopen_reads_what_was_flushed(
    decrypt: spec_fn(Seq<u8>) -> Seq<u8>,
    ws: Workspace,
    disk: Disk,
    replies: Seq<EventModel>,
    again: Seq<EventModel>,
)
    requires
        ws.dirty,
    ensures
        ({
            let flushed = run(begin_flush(ws, GoalModel::Flush), disk, replies);
            let opened = run(begin_open(ws.root, ws.name), flushed.disk, again);
            flushed.step is Ready && round_trip(decrypt, flushed.log) && honest_reads(
                decrypt,
                flushed.disk,
                opened.log,
            ) ==> (opened.step matches StepModel::Ready(back, _) ==> back.content == ws.content)
        }),
{
    let flushed = run(begin_flush(ws, GoalModel::Flush), disk, replies);
    let opened = run(begin_open(ws.root, ws.name), flushed.disk, again);
    let path = pass_path(ws.root, ws.name);
    lemma_flush_writes_one_file(ws, GoalModel::Flush, disk, replies);
    lemma_open_reads(ws.root, ws.name, flushed.disk, again);
    if flushed.step is Ready && round_trip(decrypt, flushed.log) && honest_reads(
        decrypt,
        flushed.disk,
        opened.log,
    ) && opened.step is Ready {
        let i = choose|i: int| sealed_at(flushed.log, i, ws, flushed.disk[path]);
        assert(flushed.log[i + 1].1 == EventModel::Bytes(flushed.disk[path]));
        assert(decrypt(flushed.disk[path]) == ws.content);
        let back = opened.step->Ready_0;
        assert(opened.log[opened.log.len() - 1] == (
            RequestModel::ReadEntry { path },
            EventModel::Bytes(back.content),
        ));
    }
}

/// What was renamed is what is read back under the new name. If a workspace
/// was renamed with a backend whose encryption `decrypt` undoes, and the
/// entry is then opened under its new name from the store as the rename
/// left it, the new workspace holds the plaintext that the old one had
/// before the rename.
pub proof fn lemma_reopen_reads_what_was_renamed(
    decrypt: spec_fn(Seq<u8>) -> Seq<u8>,
    ws: Workspace,
    new_name: Seq<char>,
    force: bool,
    disk: Disk,
    replies: Seq<EventModel>,
    again: Seq<EventModel>,
)
    ensures
        ({
            let renamed = run(
                begin_gate(TargetModel::Rename { ws, new_name }, force),
                disk,
                replies,
            );
            let opened = run(begin_open(ws.root, new_name), renamed.disk, again);
            renamed.step is Ready && round_trip(decrypt, renamed.log) && honest_reads(
                decrypt,
                renamed.disk,
                opened.log,
            ) ==> (opened.step matches StepModel::Ready(back, _) ==> back.content == ws.content)
        }),
{
    let renamed = run(begin_gate(TargetModel::Rename { ws, new_name }, force), disk, replies);
    let opened = run(begin_open(ws.root, new_name), renamed.disk, again);
    let path = pass_path(ws.root, new_name);
    lemma_rename_moves(ws, new_name, force, disk, replies);
    lemma_open_reads(ws.root, new_name, renamed.disk, again);
    if renamed.step is Ready && round_trip(decrypt, renamed.log) && honest_reads(
        decrypt,
        renamed.disk,
        opened.log,
    ) && opened.step is Ready {
        let i = choose|i: int|
            sealed_at(renamed.log, i, rebound(ws, new_name), renamed.disk[path]);
        assert(renamed.log[i + 1].1 == EventModel::Bytes(renamed.disk[path]));
        assert(decrypt(renamed.disk[path]) == ws.content);
        let back = opened.step->Ready_0;
        assert(opened.log[opened.log.len() - 1] == (
            RequestModel::ReadEntry { path },
            EventModel::Bytes(back.content),
        ));
    }
}

/// Whether an operation starts with a write, or with a request to the
/// backend that is no request to encrypt. None of the library's does.
pub open spec fn starts_with_write(start: StepModel) -> bool {
    start matches StepModel::Need(request, pending) && (request is WriteFile || (pending
        is Encrypting && !(request is Encrypt)))
}

/// Whether the bytes of every write so far are what the backend had just
/// answered to a request to encrypt, and the same holds of a write that is
/// pending.
pub open spec fn only_ciphertext(step: StepModel, log: Seq<(RequestModel, EventModel)>) -> bool {
    &&& forall|i: int|
        0 <= i < log.len() && (#[trigger] log[i]).0 is WriteFile ==> {
            &&& i > 0
            &&& log[i - 1].0 is Encrypt
            &&& log[i - 1].1 == EventModel::Bytes(log[i].0->WriteFile_bytes)
        }
    &&& step matches StepModel::Need(request, pending) ==> {
        &&& pending is Encrypting ==> request is Encrypt
        &&& request is WriteFile ==> {
            &&& log.len() > 0
            &&& log.last().0 is Encrypt
            &&& log.last().1 == EventModel::Bytes(request->WriteFile_bytes)
        }
    }
}

/// An answer keeps `only_ciphertext`.
pub proof fn lemma_only_ciphertext_step(
    step: StepModel,
    log: Seq<(RequestModel, EventModel)>,
    reply: EventModel,
)
    requires
        only_ciphertext(step, log),
        step is Need,
    ensures
        only_ciphertext(advance(step->Need_1, reply), log.push((step->Need_0, reply))),
{
    let request = step->Need_0;
    let next = log.push((request, reply));
    assert forall|i: int| 0 <= i < next.len() && (#[trigger] next[i]).0 is WriteFile implies {
        &&& i > 0
        &&& next[i - 1].0 is Encrypt
        &&& next[i - 1].1 == EventModel::Bytes(next[i].0->WriteFile_bytes)
    } by {
        if i < log.len() {
            assert(next[i] == log[i]);
            assert(log[i].0 is WriteFile);
            assert(next[i - 1] == log[i - 1]);
        } else {
            assert(next[i] == (request, reply));
            assert(next[i - 1] == log.last());
        }
    }
    assert(next.last() == (request, reply));
}

/// No operation on a workspace writes plaintext to the store: whatever is
/// written is what the backend answered to the request to encrypt that was
/// made just before.
pub proof fn lemma_only_ciphertext_is_written(
    start: StepModel,
    disk: Disk,
    replies: Seq<EventModel>,
)
    requires
        !starts_with_write(start),
    ensures
        ({
            let r = run(start, disk, replies);
            only_ciphertext(r.step, r.log)
        }),
{
    let inv = |r: Run| only_ciphertext(r.step, r.log);
    assert forall|r: Run, reply: EventModel| inv(r) implies #[trigger] inv(served(r, reply)) by {
        if r.step is Need {
            lemma_only_ciphertext_step(r.step, r.log, reply);
        }
    }
    lemma_run_keeps(inv, start, disk, replies);
}

/// None of the library's operations starts with a write.
pub proof fn lemma_operations_start_without_a_write(
    ws: Workspace,
    root: Seq<char>,
    name: Seq<char>,
    force: bool,
    recursive: bool,
    goal: GoalModel,
    target: TargetModel,
)
    ensures
        !starts_with_write(begin_open(root, name)),
        !starts_with_write(begin_create(root, name, force)),
        !starts_with_write(begin_gate(target, force)),
        !starts_with_write(begin_flush(ws, goal)),
        !starts_with_write(begin_remove(root, name, force, recursive)),
{
}

} // verus!
