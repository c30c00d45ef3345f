//! What holds of every run of the planner: it ends, it makes at most one
//! sync snapshot, and it sends nothing but snapshots of the source.

use crate::plan::{lemma_stream_sends_stay_in_catalog, snapshot_of, stream_sends, SendFlag, SendModel};
use crate::planner::{
    after_first, dispatch, initial, match_now, next, no_match, post, stream, ActionModel, EventModel,
    Job, Phase, ProgressModel,
};
use crate::zfs::SnapshotModel;
use vstd::prelude::*;

verus! {

/// How far a phase is from the end, counted in phases.
pub open spec fn stage(p: ProgressModel) -> nat {
    match p.phase {
        Phase::Start => 21,
        Phase::SyncProperty => 20,
        Phase::Hostname => 19,
        Phase::Busy => 18,
        Phase::Exists => 17,
        Phase::ResumeToken => 16,
        Phase::Resume => 15,
        Phase::Reset => 14,
        Phase::SourceSnaps => 13,
        Phase::Clock => 12,
        Phase::Create => 11,
        Phase::CloneSend { last } => 10,
        Phase::FullSend { last, redo } => if redo {
            4
        } else {
            9
        },
        Phase::TargetSnaps => 8,
        Phase::Bookmarks => 7,
        Phase::Used => 6,
        Phase::Destroy => 5,
        Phase::Stream => 3,
        Phase::PruneSource => 2,
        Phase::PruneTarget => 1,
        Phase::Done => 0,
    }
}

/// The sends of the stream that are still to be handed out.
pub open spec fn pending_sends(p: ProgressModel) -> nat {
    if p.phase == Phase::Stream && p.next <= p.sends.len() {
        (p.sends.len() - p.next) as nat
    } else {
        0
    }
}

/// The result of a step lies at most `limit` phases from the end, does not
/// wait for the clock, and makes no snapshot.
spec fn settles(r: (ProgressModel, ActionModel), limit: nat) -> bool {
    stage(r.0) <= limit && r.0.phase != Phase::Clock && !(r.1 is CreateSnapshot)
}

proof fn lemma_stream_settles(
    job: &Job,
    p: ProgressModel,
    bookmark: bool,
    from: Seq<char>,
    tail: Seq<SnapshotModel>,
)
    ensures
        settles(stream(job, p, bookmark, from, tail), 3),
{
}

proof fn lemma_match_settles(job: &Job, p: ProgressModel, redo: bool)
    ensures
        settles(match_now(job, p, redo), if redo {
            3
        } else {
            7
        }),
{
    let k = crate::matching::newest_shared(p.source, crate::zfs::names_map(p.target));
    if k >= 0 {
        lemma_stream_settles(job, p, false, p.source[k].name, p.source.subrange(k + 1, p.source.len() as int));
    }
}

proof fn lemma_after_first_settles(job: &Job, p: ProgressModel, last: bool, redo: bool)
    ensures
        settles(after_first(job, p, last, redo), if redo {
            3
        } else {
            7
        }),
{
    if !last && p.source.len() > 0 {
        lemma_match_settles(
            job,
            ProgressModel { target: seq![p.source[0]], target_created: !redo, ..p },
            redo,
        );
    }
}

proof fn lemma_dispatch_settles(job: &Job, p: ProgressModel)
    ensures
        settles(dispatch(job, p), 10),
{
}

proof fn lemma_post_settles(job: &Job, p: ProgressModel)
    ensures
        settles(post(job, p), 2),
{
}

proof fn lemma_no_match_settles(job: &Job, p: ProgressModel, used: u64)
    ensures
        settles(no_match(job, p, used), 5),
{
}

/// The result of a step counts as an advance from a state `at` phases from
/// the end: it lies nearer to the end, and makes no snapshot.
spec fn advance(r: (ProgressModel, ActionModel), at: nat) -> bool {
    stage(r.0) < at && !(r.1 is CreateSnapshot)
}

proof fn lemma_early_steps(job: &Job, p: ProgressModel, e: EventModel)
    ensures
        advance(crate::planner::on_sync_property(p, e), 20),
        advance(crate::planner::on_hostname(p, e), 19),
        advance(crate::planner::on_busy(p, e), 18),
        advance(crate::planner::on_exists(job, p, e), 17),
        advance(crate::planner::on_resume_token(p, e), 16),
        advance(crate::planner::on_resume(job, p, e), 15),
        advance(crate::planner::on_reset(p, e), 14),
        crate::planner::on_sync_property(p, e).0.phase != Phase::Clock,
        crate::planner::on_hostname(p, e).0.phase != Phase::Clock,
        crate::planner::on_busy(p, e).0.phase != Phase::Clock,
        crate::planner::on_exists(job, p, e).0.phase != Phase::Clock,
        crate::planner::on_resume_token(p, e).0.phase != Phase::Clock,
        crate::planner::on_resume(job, p, e).0.phase != Phase::Clock,
        crate::planner::on_reset(p, e).0.phase != Phase::Clock,
{
}

proof fn lemma_source_steps(job: &Job, p: ProgressModel, e: EventModel)
    ensures
        advance(crate::planner::on_source_snaps(job, p, e), 13),
        job.no_sync_snap || job.skip_sync_snapshot ==> crate::planner::on_source_snaps(job, p, e).0.phase
            != Phase::Clock,
        stage(crate::planner::on_clock(job, p, e).0) < 12,
        crate::planner::on_clock(job, p, e).0.phase != Phase::Clock,
        advance(crate::planner::on_create(job, p, e), 11),
        crate::planner::on_create(job, p, e).0.phase != Phase::Clock,
{
    if let EventModel::Catalog(c) = e {
        lemma_dispatch_settles(job, ProgressModel { source: c, ..p });
    }
    if let EventModel::Clock { hostname, date } = e {
        lemma_dispatch_settles(job, ProgressModel { hostname, ..p });
    }
    lemma_dispatch_settles(
        job,
        ProgressModel {
            created: Some(p.pending),
            source: p.source.push(crate::planner::fake_newest(p.pending)),
            ..p
        },
    );
}

proof fn lemma_first_send_steps(job: &Job, p: ProgressModel, last: bool, redo: bool, e: EventModel)
    ensures
        advance(crate::planner::on_clone_send(job, p, last, e), 10),
        crate::planner::on_clone_send(job, p, last, e).0.phase != Phase::Clock,
        advance(
            crate::planner::on_full_send(job, p, last, redo, e),
            if redo {
                4
            } else {
                9
            },
        ),
        crate::planner::on_full_send(job, p, last, redo, e).0.phase != Phase::Clock,
{
    lemma_after_first_settles(job, p, last, false);
    lemma_after_first_settles(job, p, last, redo);
}

proof fn lemma_match_steps(job: &Job, p: ProgressModel, e: EventModel)
    ensures
        advance(crate::planner::on_target_snaps(job, p, e), 8),
        crate::planner::on_target_snaps(job, p, e).0.phase != Phase::Clock,
        advance(crate::planner::on_bookmarks(job, p, e), 7),
        crate::planner::on_bookmarks(job, p, e).0.phase != Phase::Clock,
        advance(crate::planner::on_used(job, p, e), 6),
        crate::planner::on_used(job, p, e).0.phase != Phase::Clock,
        advance(crate::planner::on_destroy(job, p, e), 5),
        crate::planner::on_destroy(job, p, e).0.phase != Phase::Clock,
{
    if let EventModel::Catalog(c) = e {
        lemma_match_settles(job, ProgressModel { target: c, ..p }, false);
        let t = crate::matching::newest_bookmarked(p.target, c);
        if t >= 0 {
            let bookmark = c[crate::matching::last_with_guid(c, p.target[t].guid)];
            lemma_stream_settles(
                job,
                p,
                true,
                bookmark.name,
                p.source.subrange(
                    crate::matching::first_later(p.source, bookmark.creation.creation) as int,
                    p.source.len() as int,
                ),
            );
        } else {
            lemma_no_match_settles(job, p, crate::planner::SMALL_TARGET);
        }
    }
    if let EventModel::Value(v) = e {
        if let Some(used) = crate::text::parse_u64(v) {
            lemma_no_match_settles(job, p, used);
        }
    }
}

proof fn lemma_late_steps(job: &Job, p: ProgressModel, e: EventModel)
    ensures
        p.phase == Phase::Stream ==> {
            let r = crate::planner::on_stream(job, p, e);
            &&& !(r.1 is CreateSnapshot)
            &&& r.0.phase != Phase::Clock
            &&& stage(r.0) < 3 || (stage(r.0) == 3 && pending_sends(r.0) < pending_sends(p))
        },
        advance(crate::planner::on_prune_source(job, p, e), 2),
        crate::planner::on_prune_source(job, p, e).0.phase != Phase::Clock,
        advance(crate::planner::on_prune_target(p, e), 1),
        crate::planner::on_prune_target(p, e).0.phase != Phase::Clock,
{
    lemma_post_settles(job, p);
}

/// What a step from a phase other than the wait for the clock settles on.
proof fn lemma_step_settles(job: &Job, p: ProgressModel, e: EventModel)
    requires
        p.phase != Phase::Done,
        p.phase != Phase::Clock,
    ensures
        !(next(job, p, e).1 is CreateSnapshot),
        stage(next(job, p, e).0) < stage(p) || (stage(next(job, p, e).0) == stage(p) && pending_sends(
            next(job, p, e).0,
        ) < pending_sends(p)),
        job.no_sync_snap || job.skip_sync_snapshot || p.phase != Phase::SourceSnaps ==> next(
            job,
            p,
            e,
        ).0.phase != Phase::Clock,
{
    match p.phase {
        Phase::Start => {},
        Phase::SyncProperty | Phase::Hostname | Phase::Busy | Phase::Exists | Phase::ResumeToken
        | Phase::Resume | Phase::Reset => {
            lemma_early_steps(job, p, e);
        },
        Phase::SourceSnaps | Phase::Create => {
            lemma_source_steps(job, p, e);
        },
        Phase::CloneSend { last } => {
            lemma_first_send_steps(job, p, last, false, e);
        },
        Phase::FullSend { last, redo } => {
            lemma_first_send_steps(job, p, last, redo, e);
        },
        Phase::TargetSnaps | Phase::Bookmarks | Phase::Used | Phase::Destroy => {
            lemma_match_steps(job, p, e);
        },
        Phase::Stream | Phase::PruneSource | Phase::PruneTarget => {
            lemma_late_steps(job, p, e);
        },
        _ => {},
    }
}

/// Every step brings the planner nearer to its end: it reaches a later phase,
/// or hands out one more send of the stream. So a run takes at most as many
/// steps as there are phases and sends.
pub proof fn lemma_step_advances(job: &Job, p: ProgressModel, e: EventModel)
    requires
        p.phase != Phase::Done,
    ensures
        ({
            let q = next(job, p, e).0;
            stage(q) < stage(p) || (stage(q) == stage(p) && pending_sends(q) < pending_sends(p))
        }),
{
    if p.phase == Phase::Clock {
        lemma_source_steps(job, p, e);
    } else {
        lemma_step_settles(job, p, e);
    }
}

/// The actions of a run: what the planner answers to each of the events in
/// turn.
pub open spec fn run(job: &Job, p: ProgressModel, events: Seq<EventModel>) -> Seq<ActionModel>
    decreases events.len(),
{
    if events.len() == 0 {
        Seq::empty()
    } else {
        seq![next(job, p, events[0]).1] + run(job, next(job, p, events[0]).0, events.drop_first())
    }
}

/// How many of the actions make a snapshot.
pub open spec fn creations(actions: Seq<ActionModel>) -> nat
    decreases actions.len(),
{
    if actions.len() == 0 {
        0
    } else if actions[0] is CreateSnapshot {
        1 + creations(actions.drop_first())
    } else {
        creations(actions.drop_first())
    }
}

/// From any state on, a run makes at most one sync snapshot, and none once
/// the time for it has passed.
pub proof fn lemma_at_most_one_sync_snapshot(job: &Job, p: ProgressModel, events: Seq<EventModel>)
    ensures
        creations(run(job, p, events)) <= (if stage(p) >= 12 {
            1nat
        } else {
            0nat
        }),
    decreases events.len(),
{
    if events.len() > 0 {
        let (q, a) = next(job, p, events[0]);
        let rest = run(job, q, events.drop_first());
        lemma_at_most_one_sync_snapshot(job, q, events.drop_first());
        assert(run(job, p, events).drop_first() =~= rest);
        if p.phase != Phase::Done {
            lemma_step_advances(job, p, events[0]);
        }
    }
}

/// A whole run makes at most one sync snapshot, and none where that is
/// switched off or was done by an earlier attempt.
pub proof fn lemma_sync_snapshots_of_a_run(job: &Job, events: Seq<EventModel>)
    ensures
        creations(run(job, initial(), events)) <= 1,
        job.no_sync_snap || job.skip_sync_snapshot ==> creations(run(job, initial(), events)) == 0,
{
    lemma_at_most_one_sync_snapshot(job, initial(), events);
    if job.no_sync_snap || job.skip_sync_snapshot {
        lemma_no_sync_snapshot(job, initial(), events);
    }
}

proof fn lemma_no_sync_snapshot(job: &Job, p: ProgressModel, events: Seq<EventModel>)
    requires
        job.no_sync_snap || job.skip_sync_snapshot,
        p.phase != Phase::Clock,
    ensures
        creations(run(job, p, events)) == 0,
    decreases events.len(),
{
    if events.len() > 0 {
        let (q, a) = next(job, p, events[0]);
        if p.phase != Phase::Done {
            lemma_step_settles(job, p, events[0]);
        }
        lemma_no_sync_snapshot(job, q, events.drop_first());
        assert(run(job, p, events).drop_first() =~= run(job, q, events.drop_first()));
    }
}

/// The snapshot that a send brings to the target.
pub open spec fn goal(s: SendModel) -> Seq<char> {
    match s.to {
        Some(t) => t,
        None => s.from,
    }
}

/// Whether the send brings a snapshot of the catalog, or resumes a receive.
pub open spec fn from_catalog(job: &Job, source: Seq<SnapshotModel>, s: SendModel) -> bool {
    s.flag == Some(SendFlag::Resume) || exists|k: int|
        0 <= k < source.len() && goal(s) == snapshot_of(job.source@, (#[trigger] source[k]).name)
}

/// While the stream is sent, each of its sends brings a snapshot of the
/// catalog of the source.
pub open spec fn sound(job: &Job, p: ProgressModel) -> bool {
    p.phase == Phase::Stream ==> forall|i: int|
        0 <= i < p.sends.len() ==> from_catalog(job, p.source, #[trigger] p.sends[i])
}

proof fn lemma_stream_is_sound(
    job: &Job,
    p: ProgressModel,
    bookmark: bool,
    from: Seq<char>,
    a: int,
)
    requires
        0 <= a <= p.source.len(),
    ensures
        ({
            let (q, action) = stream(job, p, bookmark, from, p.source.subrange(a, p.source.len() as int));
            sound(job, q) && (action matches ActionModel::Transfer(s) ==> from_catalog(job, q.source, s))
        }),
{
    let tail = p.source.subrange(a, p.source.len() as int);
    let sends = stream_sends(job.source@, bookmark, from, tail, job.no_stream, job.filter.active());
    lemma_stream_sends_stay_in_catalog(job.source@, bookmark, from, tail, job.no_stream, job.filter.active());
    assert forall|i: int| 0 <= i < sends.len() implies from_catalog(job, p.source, #[trigger] sends[i]) by {
        let s = sends[i];
        let k = choose|k: int| 0 <= k < tail.len() && s.to == Some(snapshot_of(job.source@, tail[k].name));
        assert(tail[k] == p.source[a + k]);
    }
}

/// A replication starts in a sound state.
pub proof fn lemma_initial_is_sound(job: &Job)
    ensures
        sound(job, initial()),
{
}

/// The planner sends nothing but snapshots of the source: every send that it
/// hands out resumes a receive from its token or brings a snapshot that the
/// catalog of the source lists.
pub proof fn lemma_sends_come_from_the_catalog(job: &Job, p: ProgressModel, e: EventModel)
    requires
        sound(job, p),
    ensures
        sound(job, next(job, p, e).0),
        next(job, p, e).1 matches ActionModel::Transfer(s) ==> from_catalog(job, next(job, p, e).0.source, s),
{
    let (q, action) = next(job, p, e);
    match p.phase {
        Phase::SourceSnaps => {
            if let EventModel::Catalog(c) = e {
                lemma_dispatch(job, ProgressModel { source: c, ..p });
            }
        },
        Phase::Clock => {
            if let EventModel::Clock { hostname, date } = e {
                lemma_dispatch(job, ProgressModel { hostname, ..p });
            }
        },
        Phase::Create => {
            lemma_dispatch(
                job,
                ProgressModel {
                    created: Some(p.pending),
                    source: p.source.push(crate::planner::fake_newest(p.pending)),
                    ..p
                },
            );
        },
        Phase::CloneSend { last } => {
            lemma_after_first(job, p, last, false);
            if let ActionModel::Transfer(s) = action {
                if p.source.len() > 0 {
                    assert(q.source[0] == p.source[0]);
                    assert(q.source[q.source.len() - 1] == p.source.last());
                }
            }
        },
        Phase::FullSend { last, redo } => {
            lemma_after_first(job, p, last, redo);
        },
        Phase::TargetSnaps => {
            if let EventModel::Catalog(c) = e {
                lemma_match_now(job, ProgressModel { target: c, ..p }, false);
            }
        },
        Phase::Bookmarks => {
            if let EventModel::Catalog(b) = e {
                let t = crate::matching::newest_bookmarked(p.target, b);
                if t >= 0 {
                    let bookmark = b[crate::matching::last_with_guid(b, p.target[t].guid)];
                    crate::matching::lemma_first_later(p.source, bookmark.creation.creation);
                    lemma_stream_is_sound(
                        job,
                        p,
                        true,
                        bookmark.name,
                        crate::matching::first_later(p.source, bookmark.creation.creation) as int,
                    );
                }
            }
        },
        Phase::Destroy => {
            if let ActionModel::Transfer(s) = action {
                assert(q.source[0] == p.source[0]);
                assert(q.source[q.source.len() - 1] == p.source.last());
            }
        },
        Phase::Stream => {
            if let ActionModel::Transfer(s) = action {
                assert(s == p.sends[p.next as int]);
            }
        },
        _ => {},
    }
}

proof fn lemma_dispatch(job: &Job, p: ProgressModel)
    ensures
        sound(job, dispatch(job, p).0),
        dispatch(job, p).1 matches ActionModel::Transfer(s) ==> from_catalog(job, dispatch(job, p).0.source, s),
{
    let (q, action) = dispatch(job, p);
    if let ActionModel::Transfer(s) = action {
        assert(q.source[0] == p.source[0]);
        assert(q.source[q.source.len() - 1] == p.source.last());
    }
}

proof fn lemma_match_now(job: &Job, p: ProgressModel, redo: bool)
    ensures
        sound(job, match_now(job, p, redo).0),
        match_now(job, p, redo).1 matches ActionModel::Transfer(s) ==> from_catalog(
            job,
            match_now(job, p, redo).0.source,
            s,
        ),
{
    let k = crate::matching::newest_shared(p.source, crate::zfs::names_map(p.target));
    crate::matching::lemma_newest_shared(p.source, crate::zfs::names_map(p.target));
    if k >= 0 {
        lemma_stream_is_sound(job, p, false, p.source[k].name, k + 1);
    }
}

proof fn lemma_after_first(job: &Job, p: ProgressModel, last: bool, redo: bool)
    ensures
        sound(job, after_first(job, p, last, redo).0),
        after_first(job, p, last, redo).1 matches ActionModel::Transfer(s) ==> from_catalog(
            job,
            after_first(job, p, last, redo).0.source,
            s,
        ),
{
    if !last && p.source.len() > 0 {
        lemma_match_now(job, ProgressModel { target: seq![p.source[0]], target_created: !redo, ..p }, redo);
    }
}

} // verus!
