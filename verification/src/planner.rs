//! The replication of one dataset as a machine of states. The machine decides
//! and the caller acts: each step takes what the last action brought and
//! gives the next action, until it gives the outcome.
//!
//! The path through the machine:
//!
//! 1. The property `syncoid:sync` of the source may switch the dataset off, or
//!    name the hosts that replicate it.
//! 2. A target that is being received into is left alone.
//! 3. An interrupted receive is resumed; if its source is gone, the state of
//!    the receive is reset.
//! 4. The snapshots of the source are listed, and a sync snapshot is made.
//! 5. A target that does not exist is created by a first send. One that
//!    exists is matched with the source; without a match it is left alone, or
//!    destroyed and created again where that is asked for.
//! 6. What the target lacks is sent, and old sync snapshots are pruned.

use crate::catalog::SnapFilter;
use crate::fs::{opt_string, Role};
use crate::matching::{
    first_later, get_matching_bookmark, get_matching_snapshot, last_with_guid, newest_bookmarked,
    newest_shared,
};
use crate::pattern::Pattern;
use crate::plan::{
    clone_send, full_send, plan_stream, prune_list, prune_names, resume_send, sends_of, stream_sends,
    sync_name, sync_snap_name, Send, SendModel,
};
use crate::text::{
    chars_eq, chars_of, contains, contains_run, has_char, parse_decimal, parse_u64, split, split_chars,
    str_eq, texts,
};
use crate::zfs::{catalog, names_map, Creation, Snapshot, SnapshotModel, FAKE_NEW_SYNC_CREATION};
use crate::zfs_cmd::token_of;
use vstd::prelude::*;

verus! {

/// A target that uses less than this without sharing a snapshot with the
/// source was probably created by mistake.
pub const SMALL_TARGET: u64 = 67108864;

/// What is replicated, where to, and how.
#[derive(Debug)]
pub struct Job {
    /// The name of the source dataset.
    pub source: String,
    /// The snapshot that the source was cloned from, if it is a clone.
    pub source_origin: Option<String>,
    /// The name of the target dataset.
    pub target: String,
    /// The snapshot that the target is to be a clone of, if any.
    pub target_origin: Option<String>,
    pub no_stream: bool,
    pub no_sync_snap: bool,
    pub keep_sync_snap: bool,
    pub no_resume: bool,
    pub force_delete: bool,
    pub dry_run: bool,
    /// No sync snapshot is made: one was made in an earlier attempt.
    pub skip_sync_snapshot: bool,
    pub identifier: Option<String>,
    pub prune_formats: Vec<String>,
    pub filter: SnapFilter,
    /// Tells an error output that says that the source of an interrupted
    /// receive is gone.
    pub stale: Pattern,
}

/// The text of the pattern for a resume whose incremental source is gone.
pub open spec fn stale_pattern_text() -> Seq<char> {
    "incremental source [0-9xa-f]+ no longer exists"@
}

/// The pattern for a resume whose incremental source is gone.
pub fn stale_pattern() -> (r: Option<Pattern>)
    ensures
        r is Some <==> crate::pattern::regex_valid(stale_pattern_text()),
        r matches Some(p) ==> p.text() == stale_pattern_text(),
{
    Pattern::new("incremental source [0-9xa-f]+ no longer exists")
}

/// Why a dataset is not replicated.
#[derive(Debug, Clone, Copy, PartialEq, Eq, Structural)]
pub enum Skip {
    /// The property `syncoid:sync` is `false`.
    Disabled,
    /// The property names hosts, and this one is not among them.
    OtherHost,
    /// The source does not exist.
    SourceMissing,
}

/// Why a replication fails.
#[derive(Debug, Clone, Copy, PartialEq, Eq, Structural)]
pub enum Failure {
    /// The target is being received into.
    Busy,
    /// The source has no snapshot, and the new sync snapshot was filtered out.
    NoSnapshots,
    /// The source has no snapshot, and none was to be made.
    NoSnapshotsNoSync,
    /// Source and target share nothing, and the target is small: it was
    /// probably created by mistake.
    TooSmall,
    /// Source and target share nothing, and the target is the root of a pool,
    /// which is never destroyed.
    RootDataset,
    /// Source and target share nothing, and the target is not to be
    /// destroyed.
    NoMatch,
    /// The space that the target uses is no number.
    BadSize,
    /// A send failed.
    Transfer,
    /// An action could not be performed.
    Io,
    /// The target did not match although it was just created.
    Internal,
    /// The caller brought something that the last action cannot bring.
    Protocol,
}

/// How a replication ends.
#[derive(Debug, Clone, Copy, PartialEq, Eq, Structural)]
pub enum Outcome {
    /// Everything was sent.
    Synced,
    /// The target holds the newest snapshot already. `announce` says whether
    /// that is worth a message: not right after the target was created or a
    /// receive was resumed.
    UpToDate { announce: bool },
    Skipped(Skip),
    Failed(Failure),
}

/// Where the machine stands: which answer it waits for.
#[derive(Debug, Clone, Copy, PartialEq, Eq, Structural)]
pub enum Phase {
    Start,
    SyncProperty,
    Hostname,
    Busy,
    Exists,
    ResumeToken,
    Resume,
    Reset,
    SourceSnaps,
    Clock,
    Create,
    /// The first send to a new clone. `last` says that nothing follows it.
    CloneSend { last: bool },
    /// The first send to a new target. `redo` says that the target was
    /// destroyed for it.
    FullSend { last: bool, redo: bool },
    TargetSnaps,
    Bookmarks,
    Used,
    Destroy,
    Stream,
    PruneSource,
    PruneTarget,
    Done,
}

/// What the caller is to do next.
#[derive(Debug, Clone, PartialEq, Eq)]
pub enum Action {
    /// Read the property `syncoid:sync` of the source. Answer: `Value`, or
    /// `Missing` if the source does not exist.
    ReadSyncProperty,
    /// Read the name of this host. Answer: `Value`.
    ReadHostname,
    /// Look for a `zfs receive` into the target. Answer: `Flag`.
    CheckBusy,
    /// Find out whether the target exists. Answer: `Flag`.
    CheckExists,
    /// Read the property `receive_resume_token` of the target. Answer:
    /// `Value`.
    ReadResumeToken,
    /// Estimate the send; then, unless the target is being received into or
    /// the run is a dry one, run it into a receive at the target. Answer:
    /// `Done`, `Busy`, or `TransferFailed`.
    Transfer(Send),
    /// Reset the state of the interrupted receive at the target. Answer:
    /// `Done`.
    ResetReceive,
    /// List the snapshots of the source or of the target. Answer: `Catalog`.
    ListSnapshots(Role),
    /// List the bookmarks of the source. Answer: `Catalog`.
    ListBookmarks,
    /// Read the name of this host and the date. Answer: `Clock`.
    ReadClock,
    /// Make the snapshot of that name on the source. Answer: `Done`.
    CreateSnapshot(String),
    /// Read the property `used` of the target in bytes. Answer: `Value`.
    ReadUsed,
    /// Destroy the target with all that depends on it. Answer: `Done`.
    DestroyTarget,
    /// Destroy the named snapshots of the source or of the target. Answer:
    /// `Done`.
    Prune { role: Role, snapshots: Vec<String> },
    /// Nothing more: the replication has ended.
    Finish(Outcome),
}

/// An action with its texts as sequences of characters.
pub enum ActionModel {
    ReadSyncProperty,
    ReadHostname,
    CheckBusy,
    CheckExists,
    ReadResumeToken,
    Transfer(SendModel),
    ResetReceive,
    ListSnapshots(Role),
    ListBookmarks,
    ReadClock,
    CreateSnapshot(Seq<char>),
    ReadUsed,
    DestroyTarget,
    Prune { role: Role, snapshots: Seq<Seq<char>> },
    Finish(Outcome),
}

impl View for Action {
    type V = ActionModel;

    open spec fn view(&self) -> ActionModel {
        match self {
            Action::ReadSyncProperty => ActionModel::ReadSyncProperty,
            Action::ReadHostname => ActionModel::ReadHostname,
            Action::CheckBusy => ActionModel::CheckBusy,
            Action::CheckExists => ActionModel::CheckExists,
            Action::ReadResumeToken => ActionModel::ReadResumeToken,
            Action::Transfer(s) => ActionModel::Transfer(s@),
            Action::ResetReceive => ActionModel::ResetReceive,
            Action::ListSnapshots(r) => ActionModel::ListSnapshots(*r),
            Action::ListBookmarks => ActionModel::ListBookmarks,
            Action::ReadClock => ActionModel::ReadClock,
            Action::CreateSnapshot(n) => ActionModel::CreateSnapshot(n@),
            Action::ReadUsed => ActionModel::ReadUsed,
            Action::DestroyTarget => ActionModel::DestroyTarget,
            Action::Prune { role, snapshots } => ActionModel::Prune {
                role: *role,
                snapshots: snapshots.deep_view(),
            },
            Action::Finish(o) => ActionModel::Finish(*o),
        }
    }
}

/// What the last action brought.
#[derive(Debug, Clone, PartialEq, Eq)]
pub enum Event {
    /// Nothing yet: the replication starts.
    Start,
    /// The value that was read.
    Value(String),
    /// The dataset whose property was to be read does not exist.
    Missing,
    /// The answer to a question.
    Flag(bool),
    /// The name of this host and the date for the name of a sync snapshot.
    Clock { hostname: String, date: String },
    /// The snapshots or bookmarks that were listed, sorted.
    Catalog(Vec<Snapshot<String>>),
    /// The action was performed.
    Done,
    /// The send failed: while its size was estimated, or after. `stderr` is
    /// what the sending `zfs` wrote to its error output.
    TransferFailed { estimating: bool, stderr: String },
    /// The send was not run: the target is being received into.
    Busy,
    /// The action could not be performed.
    Failed,
}

/// An event with its texts as sequences of characters.
pub enum EventModel {
    Start,
    Value(Seq<char>),
    Missing,
    Flag(bool),
    Clock { hostname: Seq<char>, date: Seq<char> },
    Catalog(Seq<SnapshotModel>),
    Done,
    TransferFailed { estimating: bool, stderr: Seq<char> },
    Busy,
    Failed,
}

impl View for Event {
    type V = EventModel;

    open spec fn view(&self) -> EventModel {
        match self {
            Event::Start => EventModel::Start,
            Event::Value(v) => EventModel::Value(v@),
            Event::Missing => EventModel::Missing,
            Event::Flag(b) => EventModel::Flag(*b),
            Event::Clock { hostname, date } => EventModel::Clock { hostname: hostname@, date: date@ },
            Event::Catalog(c) => EventModel::Catalog(catalog(c@)),
            Event::Done => EventModel::Done,
            Event::TransferFailed { estimating, stderr } => EventModel::TransferFailed {
                estimating: *estimating,
                stderr: stderr@,
            },
            Event::Busy => EventModel::Busy,
            Event::Failed => EventModel::Failed,
        }
    }
}

/// What the machine has learnt so far.
#[derive(Debug)]
pub struct Progress {
    pub phase: Phase,
    /// The value of `syncoid:sync`, while the name of this host is read.
    pub sync: String,
    pub target_exists: bool,
    pub resumed: bool,
    pub target_created: bool,
    /// The snapshots of the source, with the new sync snapshot at the end.
    pub source_snaps: Vec<Snapshot<String>>,
    /// The snapshots of the target as they were before anything was sent.
    pub target_snaps: Vec<Snapshot<String>>,
    /// The name of the sync snapshot that is being made.
    pub pending: String,
    /// The name of the sync snapshot that was made.
    pub created: Option<String>,
    pub hostname: String,
    /// The sends that bring the target up to date.
    pub sends: Vec<Send>,
    /// How many of them were handed out.
    pub next: usize,
}

/// What the machine has learnt, with texts as sequences of characters.
#[verifier::ext_equal]
pub struct ProgressModel {
    pub phase: Phase,
    pub sync: Seq<char>,
    pub target_exists: bool,
    pub resumed: bool,
    pub target_created: bool,
    pub source: Seq<SnapshotModel>,
    pub target: Seq<SnapshotModel>,
    pub pending: Seq<char>,
    pub created: Option<Seq<char>>,
    pub hostname: Seq<char>,
    pub sends: Seq<SendModel>,
    pub next: nat,
}

impl View for Progress {
    type V = ProgressModel;

    open spec fn view(&self) -> ProgressModel {
        ProgressModel {
            phase: self.phase,
            sync: self.sync@,
            target_exists: self.target_exists,
            resumed: self.resumed,
            target_created: self.target_created,
            source: catalog(self.source_snaps@),
            target: catalog(self.target_snaps@),
            pending: self.pending@,
            created: opt_string(self.created),
            hostname: self.hostname@,
            sends: sends_of(self.sends@),
            next: self.next as nat,
        }
    }
}

/// What becomes of a send once its size is estimated.
#[derive(Debug, Clone, Copy, PartialEq, Eq, Structural)]
pub enum TransferStep {
    /// The target is being received into: nothing is run, and the send counts
    /// as refused.
    Refuse,
    /// The run is a dry one: nothing is run, and the send counts as done.
    Skip,
    /// The pipelines are run.
    Run,
}

impl TransferStep {
    /// What the planner is told without running anything, if nothing is to
    /// be run.
    pub open spec fn settled(&self) -> Option<EventModel> {
        match self {
            TransferStep::Refuse => Some(EventModel::Busy),
            TransferStep::Skip => Some(EventModel::Done),
            TransferStep::Run => None,
        }
    }

    /// What the planner is told without running anything, if nothing is to
    /// be run.
    pub fn event(&self) -> (r: Option<Event>)
        ensures
            match self.settled() {
                Some(e) => r matches Some(x) && x@ == e,
                None => r is None,
            },
    {
        match self {
            TransferStep::Refuse => Some(Event::Busy),
            TransferStep::Skip => Some(Event::Done),
            TransferStep::Run => None,
        }
    }
}

/// What becomes of a send: a target that is being received into refuses it,
/// whether the run is a dry one or not; a dry run skips it; else it is run.
pub fn transfer_step(busy: bool, dry_run: bool) -> (r: TransferStep)
    ensures
        r == (if busy {
            TransferStep::Refuse
        } else if dry_run {
            TransferStep::Skip
        } else {
            TransferStep::Run
        }),
{
    if busy {
        TransferStep::Refuse
    } else if dry_run {
        TransferStep::Skip
    } else {
        TransferStep::Run
    }
}

/// The state in another phase.
pub open spec fn at(p: ProgressModel, phase: Phase) -> ProgressModel {
    ProgressModel { phase, ..p }
}

/// The end of the replication.
pub open spec fn finish(p: ProgressModel, outcome: Outcome) -> (ProgressModel, ActionModel) {
    (at(p, Phase::Done), ActionModel::Finish(outcome))
}

/// The end of the replication in failure.
pub open spec fn fail(p: ProgressModel, failure: Failure) -> (ProgressModel, ActionModel) {
    finish(p, Outcome::Failed(failure))
}

/// The stand-in for a sync snapshot that was just made.
pub open spec fn fake_newest(name: Seq<char>) -> SnapshotModel {
    SnapshotModel {
        name,
        guid: crate::zfs::fake_guid(),
        creation: Creation { creation: FAKE_NEW_SYNC_CREATION, idx: 0 },
    }
}

/// Whether the error output of a failed resume says that the source of the
/// interrupted receive is gone.
pub open spec fn stale(job: &Job, stderr: Seq<char>) -> bool {
    contains_run(stderr, "used in the initial send no longer exists"@) || job.stale.matches(stderr)
}

/// Whether the property `syncoid:sync` leaves the decision to the name of the
/// host: it is none of `false`, `true`, `-` and the empty value.
pub open spec fn names_hosts(sync: Seq<char>) -> bool {
    sync != "false"@ && sync != "true"@ && sync != "-"@ && sync.len() != 0
}

/// After the resume questions: list the snapshots of the source.
pub open spec fn collect(p: ProgressModel) -> (ProgressModel, ActionModel) {
    (at(p, Phase::SourceSnaps), ActionModel::ListSnapshots(Role::Source))
}

/// The first send, of the newest snapshot when nothing is to follow it and of
/// the oldest else.
pub open spec fn first_snapshot(p: ProgressModel, last: bool) -> Seq<char> {
    if last {
        p.source.last().name
    } else {
        p.source[0].name
    }
}

/// With the snapshots of the source at hand: a target that does not exist is
/// created by a first send, as a clone where source and target both have an
/// origin; the snapshots of one that exists are listed.
pub open spec fn dispatch(job: &Job, p: ProgressModel) -> (ProgressModel, ActionModel) {
    if p.source.len() == 0 {
        fail(
            p,
            if !job.no_sync_snap && !job.skip_sync_snapshot {
                Failure::NoSnapshots
            } else {
                Failure::NoSnapshotsNoSync
            },
        )
    } else if !p.target_exists {
        match job.source_origin {
            Some(origin) => if job.target_origin is Some {
                (
                    at(p, Phase::CloneSend { last: job.no_stream }),
                    ActionModel::Transfer(
                        clone_send(origin@, job.source@, first_snapshot(p, job.no_stream)),
                    ),
                )
            } else {
                (
                    at(p, Phase::FullSend { last: job.no_stream, redo: false }),
                    ActionModel::Transfer(full_send(job.source@, first_snapshot(p, job.no_stream))),
                )
            },
            None => (
                at(p, Phase::FullSend { last: job.no_stream, redo: false }),
                ActionModel::Transfer(full_send(job.source@, first_snapshot(p, job.no_stream))),
            ),
        }
    } else {
        (at(p, Phase::TargetSnaps), ActionModel::ListSnapshots(Role::Target))
    }
}

/// After the last send: prune the old sync snapshots of the source if a new
/// one was made and old ones are not kept.
pub open spec fn post(job: &Job, p: ProgressModel) -> (ProgressModel, ActionModel) {
    match p.created {
        Some(new) => if !job.keep_sync_snap {
            (
                at(p, Phase::PruneSource),
                ActionModel::Prune {
                    role: Role::Source,
                    snapshots: prune_list(
                        job.source@,
                        p.source,
                        new,
                        job.prune_formats@,
                        opt_string(job.identifier),
                        p.hostname,
                    ),
                },
            )
        } else {
            finish(p, Outcome::Synced)
        },
        None => finish(p, Outcome::Synced),
    }
}

/// With a match at hand: nothing to do when the target holds the newest
/// snapshot, else the first of the sends that bring it up to date.
pub open spec fn stream(
    job: &Job,
    p: ProgressModel,
    bookmark: bool,
    from: Seq<char>,
    tail: Seq<SnapshotModel>,
) -> (ProgressModel, ActionModel) {
    let sends = stream_sends(job.source@, bookmark, from, tail, job.no_stream, job.filter.active());
    if sends.len() == 0 {
        finish(p, Outcome::UpToDate { announce: !p.target_created && !p.resumed })
    } else {
        (
            ProgressModel { phase: Phase::Stream, sends, next: 1, ..p },
            ActionModel::Transfer(sends[0]),
        )
    }
}

/// With the snapshots of both sides at hand: the newest snapshot of the source
/// that the target holds too is the match. Without one the bookmarks of the
/// source are listed; a target that was just created must match.
pub open spec fn match_now(job: &Job, p: ProgressModel, redo: bool) -> (ProgressModel, ActionModel) {
    let k = newest_shared(p.source, names_map(p.target));
    if k >= 0 {
        stream(job, p, false, p.source[k].name, p.source.subrange(k + 1, p.source.len() as int))
    } else if redo {
        fail(p, Failure::Internal)
    } else {
        (at(p, Phase::Bookmarks), ActionModel::ListBookmarks)
    }
}

/// After the first send to a new target: done if nothing is to follow, else
/// the target now holds the oldest snapshot of the source.
pub open spec fn after_first(job: &Job, p: ProgressModel, last: bool, redo: bool) -> (
    ProgressModel,
    ActionModel,
) {
    if last {
        finish(p, Outcome::Synced)
    } else if p.source.len() == 0 {
        fail(p, Failure::Internal)
    } else {
        match_now(
            job,
            ProgressModel { target: seq![p.source[0]], target_created: !redo, ..p },
            redo,
        )
    }
}

/// Without a match: a target that is not to be destroyed is left alone, with
/// a hint if it is small enough to have been created by mistake; the root of a
/// pool is never destroyed; any other target is destroyed and created again.
pub open spec fn no_match(job: &Job, p: ProgressModel, used: u64) -> (ProgressModel, ActionModel) {
    if !job.force_delete {
        if used < SMALL_TARGET {
            fail(p, Failure::TooSmall)
        } else {
            fail(p, Failure::NoMatch)
        }
    } else if !job.target@.contains('/') {
        fail(p, Failure::RootDataset)
    } else {
        (at(p, Phase::Destroy), ActionModel::DestroyTarget)
    }
}

/// What comes of an event that the phase has no step for: an action that
/// could not be performed, a send that failed, and a send that was not run
/// because the target is being received into each end the replication with
/// their failure; anything else is out of place.
pub open spec fn other(p: ProgressModel, e: EventModel) -> (ProgressModel, ActionModel) {
    match e {
        EventModel::Failed => fail(p, Failure::Io),
        EventModel::TransferFailed { estimating, stderr } => fail(p, Failure::Transfer),
        EventModel::Busy => fail(p, Failure::Busy),
        _ => fail(p, Failure::Protocol),
    }
}

/// The property `syncoid:sync` switches the dataset off with `false`, leaves
/// it on with `true`, `-` or nothing, and else names the hosts that replicate
/// it. A source that does not exist is passed over.
pub open spec fn on_sync_property(p: ProgressModel, e: EventModel) -> (ProgressModel, ActionModel) {
    match e {
        EventModel::Missing => finish(p, Outcome::Skipped(Skip::SourceMissing)),
        EventModel::Value(v) => if v == "false"@ {
            finish(p, Outcome::Skipped(Skip::Disabled))
        } else if names_hosts(v) {
            (ProgressModel { phase: Phase::Hostname, sync: v, ..p }, ActionModel::ReadHostname)
        } else {
            (at(p, Phase::Busy), ActionModel::CheckBusy)
        },
        _ => other(p, e),
    }
}

/// The dataset is replicated by the hosts that the property names, separated
/// by commas.
pub open spec fn on_hostname(p: ProgressModel, e: EventModel) -> (ProgressModel, ActionModel) {
    match e {
        EventModel::Value(h) => if split(p.sync, ',').contains(h) {
            (at(p, Phase::Busy), ActionModel::CheckBusy)
        } else {
            finish(p, Outcome::Skipped(Skip::OtherHost))
        },
        _ => other(p, e),
    }
}

/// A target that is being received into is left alone.
pub open spec fn on_busy(p: ProgressModel, e: EventModel) -> (ProgressModel, ActionModel) {
    match e {
        EventModel::Flag(busy) => if busy {
            fail(p, Failure::Busy)
        } else {
            (at(p, Phase::Exists), ActionModel::CheckExists)
        },
        _ => other(p, e),
    }
}

/// A target that exists may hold an interrupted receive, unless resuming is
/// off.
pub open spec fn on_exists(job: &Job, p: ProgressModel, e: EventModel) -> (ProgressModel, ActionModel) {
    match e {
        EventModel::Flag(exists) => if exists && !job.no_resume {
            (
                ProgressModel { phase: Phase::ResumeToken, target_exists: exists, ..p },
                ActionModel::ReadResumeToken,
            )
        } else {
            collect(ProgressModel { target_exists: exists, ..p })
        },
        _ => other(p, e),
    }
}

/// An interrupted receive is resumed from its token.
pub open spec fn on_resume_token(p: ProgressModel, e: EventModel) -> (ProgressModel, ActionModel) {
    match e {
        EventModel::Value(v) => match token_of(v) {
            Some(token) => (at(p, Phase::Resume), ActionModel::Transfer(resume_send(token))),
            None => collect(p),
        },
        _ => other(p, e),
    }
}

/// A resume that fails because its source is gone leads to a reset of the
/// receive; any other failure ends the replication.
pub open spec fn on_resume(job: &Job, p: ProgressModel, e: EventModel) -> (ProgressModel, ActionModel) {
    match e {
        EventModel::Done => collect(ProgressModel { resumed: true, ..p }),
        EventModel::TransferFailed { estimating, stderr } => if stale(job, stderr) {
            (at(p, Phase::Reset), ActionModel::ResetReceive)
        } else {
            fail(p, Failure::Transfer)
        },
        _ => other(p, e),
    }
}

/// After the reset the replication goes on as if there had been no token.
pub open spec fn on_reset(p: ProgressModel, e: EventModel) -> (ProgressModel, ActionModel) {
    match e {
        EventModel::Done => collect(p),
        _ => other(p, e),
    }
}

/// With the snapshots of the source: a sync snapshot is made unless that is
/// off or was done in an earlier attempt.
pub open spec fn on_source_snaps(job: &Job, p: ProgressModel, e: EventModel) -> (
    ProgressModel,
    ActionModel,
) {
    match e {
        EventModel::Catalog(c) => if !job.no_sync_snap && !job.skip_sync_snapshot {
            (ProgressModel { phase: Phase::Clock, source: c, ..p }, ActionModel::ReadClock)
        } else {
            dispatch(job, ProgressModel { source: c, ..p })
        },
        _ => other(p, e),
    }
}

/// The sync snapshot is named after identifier, host and date, and is made
/// unless the snapshot filters leave its name out.
pub open spec fn on_clock(job: &Job, p: ProgressModel, e: EventModel) -> (ProgressModel, ActionModel) {
    match e {
        EventModel::Clock { hostname, date } => {
            let name = sync_name(opt_string(job.identifier), hostname, date);
            if job.filter.includes(name) {
                (
                    ProgressModel { phase: Phase::Create, hostname, pending: name, ..p },
                    ActionModel::CreateSnapshot(name),
                )
            } else {
                dispatch(job, ProgressModel { hostname, ..p })
            }
        },
        _ => other(p, e),
    }
}

/// The sync snapshot that was made counts as the newest snapshot of the
/// source, without being listed again.
pub open spec fn on_create(job: &Job, p: ProgressModel, e: EventModel) -> (ProgressModel, ActionModel) {
    match e {
        EventModel::Done => dispatch(
            job,
            ProgressModel {
                created: Some(p.pending),
                source: p.source.push(fake_newest(p.pending)),
                ..p
            },
        ),
        _ => other(p, e),
    }
}

/// A clone that the target cannot make from the origin is sent in full
/// instead.
pub open spec fn on_clone_send(job: &Job, p: ProgressModel, last: bool, e: EventModel) -> (
    ProgressModel,
    ActionModel,
) {
    match e {
        EventModel::Done => after_first(job, p, last, false),
        EventModel::TransferFailed { estimating, stderr } => if estimating || p.source.len() == 0 {
            fail(p, Failure::Transfer)
        } else {
            (
                at(p, Phase::FullSend { last, redo: false }),
                ActionModel::Transfer(full_send(job.source@, first_snapshot(p, last))),
            )
        },
        _ => other(p, e),
    }
}

/// The step after a full send: on to the rest of the stream, or to the end.
pub open spec fn on_full_send(job: &Job, p: ProgressModel, last: bool, redo: bool, e: EventModel) -> (
    ProgressModel,
    ActionModel,
) {
    match e {
        EventModel::Done => after_first(job, p, last, redo),
        _ => other(p, e),
    }
}

/// The step that takes the catalog of the target and looks for the newest
/// snapshot that both ends hold.
pub open spec fn on_target_snaps(job: &Job, p: ProgressModel, e: EventModel) -> (
    ProgressModel,
    ActionModel,
) {
    match e {
        EventModel::Catalog(c) => match_now(job, ProgressModel { target: c, ..p }, false),
        _ => other(p, e),
    }
}

/// Without a shared snapshot, a bookmark of the source for the newest
/// snapshot of the target that has one is the match; what the source made
/// after the second of the bookmark is still to be sent. Without a bookmark
/// either, the space that the target uses is asked for (a dry run takes the
/// target for large).
pub open spec fn on_bookmarks(job: &Job, p: ProgressModel, e: EventModel) -> (ProgressModel, ActionModel) {
    match e {
        EventModel::Catalog(b) => {
            let t = newest_bookmarked(p.target, b);
            if t >= 0 {
                let bookmark = b[last_with_guid(b, p.target[t].guid)];
                stream(
                    job,
                    p,
                    true,
                    bookmark.name,
                    p.source.subrange(
                        first_later(p.source, bookmark.creation.creation) as int,
                        p.source.len() as int,
                    ),
                )
            } else if job.dry_run {
                no_match(job, p, SMALL_TARGET)
            } else {
                (at(p, Phase::Used), ActionModel::ReadUsed)
            }
        },
        _ => other(p, e),
    }
}

/// The step that takes the size of a target without a common snapshot.
pub open spec fn on_used(job: &Job, p: ProgressModel, e: EventModel) -> (ProgressModel, ActionModel) {
    match e {
        EventModel::Value(v) => match parse_u64(v) {
            Some(used) => no_match(job, p, used),
            None => fail(p, Failure::BadSize),
        },
        _ => other(p, e),
    }
}

/// A target that was destroyed is created again by a full send, and no new
/// sync snapshot is made for it.
pub open spec fn on_destroy(job: &Job, p: ProgressModel, e: EventModel) -> (ProgressModel, ActionModel) {
    match e {
        EventModel::Done => if p.source.len() == 0 {
            fail(p, Failure::Internal)
        } else {
            (
                at(p, Phase::FullSend { last: job.no_stream, redo: true }),
                ActionModel::Transfer(full_send(job.source@, first_snapshot(p, job.no_stream))),
            )
        },
        _ => other(p, e),
    }
}

/// The sends of the stream follow one another; after the last, old sync
/// snapshots are pruned.
pub open spec fn on_stream(job: &Job, p: ProgressModel, e: EventModel) -> (ProgressModel, ActionModel) {
    match e {
        EventModel::Done => if p.next < p.sends.len() {
            (
                ProgressModel { next: p.next + 1, ..p },
                ActionModel::Transfer(p.sends[p.next as int]),
            )
        } else {
            post(job, p)
        },
        _ => other(p, e),
    }
}

/// The step after the old sync snapshots of the source were destroyed.
pub open spec fn on_prune_source(job: &Job, p: ProgressModel, e: EventModel) -> (
    ProgressModel,
    ActionModel,
) {
    match e {
        EventModel::Done => match p.created {
            Some(new) => (
                at(p, Phase::PruneTarget),
                ActionModel::Prune {
                    role: Role::Target,
                    snapshots: prune_list(
                        job.target@,
                        p.target,
                        new,
                        job.prune_formats@,
                        opt_string(job.identifier),
                        p.hostname,
                    ),
                },
            ),
            None => finish(p, Outcome::Synced),
        },
        _ => other(p, e),
    }
}

/// The step after the old sync snapshots of the target were destroyed.
pub open spec fn on_prune_target(p: ProgressModel, e: EventModel) -> (ProgressModel, ActionModel) {
    match e {
        EventModel::Done => finish(p, Outcome::Synced),
        _ => other(p, e),
    }
}

/// The step of the machine: the state after the event, and the next action.
pub open spec fn next(job: &Job, p: ProgressModel, e: EventModel) -> (ProgressModel, ActionModel) {
    match p.phase {
        Phase::Start => match e {
            EventModel::Start => (at(p, Phase::SyncProperty), ActionModel::ReadSyncProperty),
            _ => fail(p, Failure::Protocol),
        },
        Phase::SyncProperty => on_sync_property(p, e),
        Phase::Hostname => on_hostname(p, e),
        Phase::Busy => on_busy(p, e),
        Phase::Exists => on_exists(job, p, e),
        Phase::ResumeToken => on_resume_token(p, e),
        Phase::Resume => on_resume(job, p, e),
        Phase::Reset => on_reset(p, e),
        Phase::SourceSnaps => on_source_snaps(job, p, e),
        Phase::Clock => on_clock(job, p, e),
        Phase::Create => on_create(job, p, e),
        Phase::CloneSend { last } => on_clone_send(job, p, last, e),
        Phase::FullSend { last, redo } => on_full_send(job, p, last, redo, e),
        Phase::TargetSnaps => on_target_snaps(job, p, e),
        Phase::Bookmarks => on_bookmarks(job, p, e),
        Phase::Used => on_used(job, p, e),
        Phase::Destroy => on_destroy(job, p, e),
        Phase::Stream => on_stream(job, p, e),
        Phase::PruneSource => on_prune_source(job, p, e),
        Phase::PruneTarget => on_prune_target(p, e),
        Phase::Done => fail(p, Failure::Protocol),
    }
}

/// The state in which a replication starts.
pub open spec fn initial() -> ProgressModel {
    ProgressModel {
        phase: Phase::Start,
        sync: Seq::empty(),
        target_exists: false,
        resumed: false,
        target_created: false,
        source: Seq::empty(),
        target: Seq::empty(),
        pending: Seq::empty(),
        created: None,
        hostname: Seq::empty(),
        sends: Seq::empty(),
        next: 0,
    }
}

proof fn lemma_catalog_subrange(list: Seq<Snapshot<String>>, a: int, b: int)
    requires
        0 <= a <= b <= list.len(),
    ensures
        catalog(list.subrange(a, b)) == catalog(list).subrange(a, b),
{
    assert(catalog(list.subrange(a, b)) =~= catalog(list).subrange(a, b));
}

impl Progress {
    fn new() -> (r: Self)
        ensures
            r@ == initial(),
    {
        let r = Progress {
            phase: Phase::Start,
            sync: String::new(),
            target_exists: false,
            resumed: false,
            target_created: false,
            source_snaps: Vec::new(),
            target_snaps: Vec::new(),
            pending: String::new(),
            created: None,
            hostname: String::new(),
            sends: Vec::new(),
            next: 0,
        };
        assert(r@ =~= initial());
        r
    }

    fn finish(&mut self, outcome: Outcome) -> (r: Action)
        ensures
            (final(self)@, r@) == finish(old(self)@, outcome),
    {
        self.phase = Phase::Done;
        Action::Finish(outcome)
    }

    fn fail(&mut self, failure: Failure) -> (r: Action)
        ensures
            (final(self)@, r@) == fail(old(self)@, failure),
    {
        self.finish(Outcome::Failed(failure))
    }

    fn collect(&mut self) -> (r: Action)
        ensures
            (final(self)@, r@) == collect(old(self)@),
    {
        self.phase = Phase::SourceSnaps;
        Action::ListSnapshots(Role::Source)
    }

    fn first_snapshot(&self, last: bool) -> (r: &str)
        requires
            self.source_snaps@.len() > 0,
        ensures
            r@ == first_snapshot(self@, last),
    {
        let n: usize = self.source_snaps.len();
        if last {
            self.source_snaps[n - 1].name.as_str()
        } else {
            self.source_snaps[0].name.as_str()
        }
    }

    fn dispatch(&mut self, job: &Job) -> (r: Action)
        ensures
            (final(self)@, r@) == dispatch(job, old(self)@),
    {
        if self.source_snaps.len() == 0 {
            return self.fail(
                if !job.no_sync_snap && !job.skip_sync_snapshot {
                    Failure::NoSnapshots
                } else {
                    Failure::NoSnapshotsNoSync
                },
            );
        }
        if self.target_exists {
            self.phase = Phase::TargetSnaps;
            return Action::ListSnapshots(Role::Target);
        }
        let send = match &job.source_origin {
            Some(origin) => if job.target_origin.is_some() {
                Some(
                    Send::clone_from(
                        origin.as_str(),
                        job.source.as_str(),
                        self.first_snapshot(job.no_stream),
                    ),
                )
            } else {
                None
            },
            None => None,
        };
        match send {
            Some(s) => {
                self.phase = Phase::CloneSend { last: job.no_stream };
                Action::Transfer(s)
            },
            None => {
                let s = Send::full(job.source.as_str(), self.first_snapshot(job.no_stream));
                self.phase = Phase::FullSend { last: job.no_stream, redo: false };
                Action::Transfer(s)
            },
        }
    }

    fn post(&mut self, job: &Job) -> (r: Action)
        ensures
            (final(self)@, r@) == post(job, old(self)@),
    {
        let names = match &self.created {
            Some(new) => if !job.keep_sync_snap {
                Some(
                    prune_names(
                        job.source.as_str(),
                        &self.source_snaps,
                        new.as_str(),
                        &job.prune_formats,
                        &job.identifier,
                        self.hostname.as_str(),
                    ),
                )
            } else {
                None
            },
            None => None,
        };
        match names {
            Some(snapshots) => {
                self.phase = Phase::PruneSource;
                Action::Prune { role: Role::Source, snapshots }
            },
            None => self.finish(Outcome::Synced),
        }
    }

    /// Takes the sends of the stream and hands out the first.
    fn start_stream(&mut self, sends: Vec<Send>) -> (r: Action)
        ensures
            sends@.len() == 0 ==> (final(self)@, r@) == finish(
                old(self)@,
                Outcome::UpToDate { announce: !old(self)@.target_created && !old(self)@.resumed },
            ),
            sends@.len() > 0 ==> (final(self)@, r@) == (
                ProgressModel { phase: Phase::Stream, sends: sends_of(sends@), next: 1, ..old(self)@ },
                ActionModel::Transfer(sends_of(sends@)[0]),
            ),
    {
        if sends.len() == 0 {
            let announce = !self.target_created && !self.resumed;
            return self.finish(Outcome::UpToDate { announce });
        }
        let first = sends[0].duplicate();
        self.sends = sends;
        self.next = 1;
        self.phase = Phase::Stream;
        Action::Transfer(first)
    }

    fn match_now(&mut self, job: &Job, redo: bool) -> (r: Action)
        ensures
            (final(self)@, r@) == match_now(job, old(self)@, redo),
    {
        let map = Snapshot::list_to_map(&self.target_snaps);
        let ghost k = newest_shared(self@.source, names_map(self@.target));
        let sends = match get_matching_snapshot(&self.source_snaps, &map) {
            Some((m, tail)) => {
                proof {
                    crate::matching::lemma_newest_shared(self@.source, names_map(self@.target));
                    lemma_catalog_subrange(self.source_snaps@, k + 1, self.source_snaps@.len() as int);
                }
                Some(
                    plan_stream(
                        job.source.as_str(),
                        &m,
                        tail,
                        job.no_stream,
                        job.filter.is_active(),
                    ),
                )
            },
            None => None,
        };
        match sends {
            Some(s) => self.start_stream(s),
            None => {
                if redo {
                    self.fail(Failure::Internal)
                } else {
                    self.phase = Phase::Bookmarks;
                    Action::ListBookmarks
                }
            },
        }
    }

    fn after_first(&mut self, job: &Job, last: bool, redo: bool) -> (r: Action)
        ensures
            (final(self)@, r@) == after_first(job, old(self)@, last, redo),
    {
        if last {
            return self.finish(Outcome::Synced);
        }
        if self.source_snaps.len() == 0 {
            return self.fail(Failure::Internal);
        }
        let oldest = self.source_snaps[0].as_ref().to_owned();
        let mut target: Vec<Snapshot<String>> = Vec::new();
        target.push(oldest);
        assert(catalog(target@) =~= seq![old(self)@.source[0]]);
        self.target_snaps = target;
        self.target_created = !redo;
        self.match_now(job, redo)
    }

    fn no_match(&mut self, job: &Job, used: u64) -> (r: Action)
        ensures
            (final(self)@, r@) == no_match(job, old(self)@, used),
    {
        if !job.force_delete {
            if used < SMALL_TARGET {
                self.fail(Failure::TooSmall)
            } else {
                self.fail(Failure::NoMatch)
            }
        } else {
            let name = chars_of(job.target.as_str());
            if !has_char(&name, '/') {
                self.fail(Failure::RootDataset)
            } else {
                self.phase = Phase::Destroy;
                Action::DestroyTarget
            }
        }
    }

    fn with_bookmarks(&mut self, job: &Job, bookmarks: &Vec<Snapshot<String>>) -> (r: Action)
        ensures
            (final(self)@, r@) == on_bookmarks(job, old(self)@, EventModel::Catalog(catalog(bookmarks@))),
    {
        let ghost b = catalog(bookmarks@);
        let ghost t = newest_bookmarked(self@.target, b);
        let sends = match get_matching_bookmark(&self.target_snaps, bookmarks, &self.source_snaps) {
            Some((m, tail)) => {
                proof {
                    let bm = b[last_with_guid(b, self@.target[t].guid)];
                    crate::matching::lemma_first_later(self@.source, bm.creation.creation);
                    lemma_catalog_subrange(
                        self.source_snaps@,
                        first_later(self@.source, bm.creation.creation) as int,
                        self.source_snaps@.len() as int,
                    );
                }
                Some(
                    plan_stream(
                        job.source.as_str(),
                        &m,
                        tail,
                        job.no_stream,
                        job.filter.is_active(),
                    ),
                )
            },
            None => None,
        };
        match sends {
            Some(s) => self.start_stream(s),
            None => {
                if job.dry_run {
                    self.no_match(job, SMALL_TARGET)
                } else {
                    self.phase = Phase::Used;
                    Action::ReadUsed
                }
            },
        }
    }

    fn is_stale(job: &Job, stderr: &str) -> (r: bool)
        ensures
            r == stale(job, stderr@),
    {
        let err = chars_of(stderr);
        let gone = chars_of("used in the initial send no longer exists");
        contains(&err, &gone) || job.stale.is_match(stderr)
    }

    fn host_listed(sync: &str, hostname: &str) -> (r: bool)
        ensures
            r == split(sync@, ',').contains(hostname@),
    {
        let v = chars_of(sync);
        let hosts = split_chars(&v, ',');
        let h = chars_of(hostname);
        let mut i: usize = 0;
        while i < hosts.len()
            invariant
                i <= hosts.len(),
                h@ == hostname@,
                texts(hosts@) == split(sync@, ','),
                forall|j: int| 0 <= j < i ==> texts(hosts@)[j] != hostname@,
            decreases hosts.len() - i,
        {
            assert(texts(hosts@)[i as int] == hosts@[i as int]@);
            if chars_eq(&hosts[i], &h) {
                return true;
            }
            i += 1;
        }
        false
    }

    fn other(&mut self, event: Event) -> (r: Action)
        ensures
            (final(self)@, r@) == other(old(self)@, event@),
    {
        match event {
            Event::Failed => self.fail(Failure::Io),
            Event::TransferFailed { .. } => self.fail(Failure::Transfer),
            Event::Busy => self.fail(Failure::Busy),
            _ => self.fail(Failure::Protocol),
        }
    }

    fn on_sync_property(&mut self, event: Event) -> (r: Action)
        ensures
            (final(self)@, r@) == on_sync_property(old(self)@, event@),
    {
        match event {
            Event::Missing => self.finish(Outcome::Skipped(Skip::SourceMissing)),
            Event::Value(v) => {
                if str_eq(v.as_str(), "false") {
                    self.finish(Outcome::Skipped(Skip::Disabled))
                } else if !str_eq(v.as_str(), "true") && !str_eq(v.as_str(), "-")
                    && v.as_str().unicode_len() != 0 {
                    self.sync = v;
                    self.phase = Phase::Hostname;
                    Action::ReadHostname
                } else {
                    self.phase = Phase::Busy;
                    Action::CheckBusy
                }
            },
            other => self.other(other),
        }
    }

    fn on_hostname(&mut self, event: Event) -> (r: Action)
        ensures
            (final(self)@, r@) == on_hostname(old(self)@, event@),
    {
        match event {
            Event::Value(h) => {
                if Self::host_listed(self.sync.as_str(), h.as_str()) {
                    self.phase = Phase::Busy;
                    Action::CheckBusy
                } else {
                    self.finish(Outcome::Skipped(Skip::OtherHost))
                }
            },
            other => self.other(other),
        }
    }

    fn on_busy(&mut self, event: Event) -> (r: Action)
        ensures
            (final(self)@, r@) == on_busy(old(self)@, event@),
    {
        match event {
            Event::Flag(busy) => {
                if busy {
                    self.fail(Failure::Busy)
                } else {
                    self.phase = Phase::Exists;
                    Action::CheckExists
                }
            },
            other => self.other(other),
        }
    }

    fn on_exists(&mut self, job: &Job, event: Event) -> (r: Action)
        ensures
            (final(self)@, r@) == on_exists(job, old(self)@, event@),
    {
        match event {
            Event::Flag(exists) => {
                self.target_exists = exists;
                if exists && !job.no_resume {
                    self.phase = Phase::ResumeToken;
                    Action::ReadResumeToken
                } else {
                    self.collect()
                }
            },
            other => self.other(other),
        }
    }

    fn on_resume_token(&mut self, event: Event) -> (r: Action)
        ensures
            (final(self)@, r@) == on_resume_token(old(self)@, event@),
    {
        match event {
            Event::Value(v) => match crate::zfs_cmd::get_resume_token(v) {
                Some(token) => {
                    self.phase = Phase::Resume;
                    Action::Transfer(Send::resume(token.as_str()))
                },
                None => self.collect(),
            },
            other => self.other(other),
        }
    }

    fn on_resume(&mut self, job: &Job, event: Event) -> (r: Action)
        ensures
            (final(self)@, r@) == on_resume(job, old(self)@, event@),
    {
        match event {
            Event::Done => {
                self.resumed = true;
                self.collect()
            },
            Event::TransferFailed { estimating, stderr } => {
                if Self::is_stale(job, stderr.as_str()) {
                    self.phase = Phase::Reset;
                    Action::ResetReceive
                } else {
                    self.fail(Failure::Transfer)
                }
            },
            other => self.other(other),
        }
    }

    fn on_reset(&mut self, event: Event) -> (r: Action)
        ensures
            (final(self)@, r@) == on_reset(old(self)@, event@),
    {
        match event {
            Event::Done => self.collect(),
            other => self.other(other),
        }
    }

    fn on_source_snaps(&mut self, job: &Job, event: Event) -> (r: Action)
        ensures
            (final(self)@, r@) == on_source_snaps(job, old(self)@, event@),
    {
        match event {
            Event::Catalog(c) => {
                self.source_snaps = c;
                if !job.no_sync_snap && !job.skip_sync_snapshot {
                    self.phase = Phase::Clock;
                    Action::ReadClock
                } else {
                    self.dispatch(job)
                }
            },
            other => self.other(other),
        }
    }

    fn on_clock(&mut self, job: &Job, event: Event) -> (r: Action)
        ensures
            (final(self)@, r@) == on_clock(job, old(self)@, event@),
    {
        match event {
            Event::Clock { hostname, date } => {
                let name = sync_snap_name(&job.identifier, hostname.as_str(), date.as_str());
                self.hostname = hostname;
                if job.filter.snap_is_included(name.as_str()) {
                    self.pending = name.clone();
                    self.phase = Phase::Create;
                    Action::CreateSnapshot(name)
                } else {
                    self.dispatch(job)
                }
            },
            other => self.other(other),
        }
    }

    fn on_create(&mut self, job: &Job, event: Event) -> (r: Action)
        ensures
            (final(self)@, r@) == on_create(job, old(self)@, event@),
    {
        match event {
            Event::Done => {
                let ghost before = catalog(self.source_snaps@);
                let fake = Snapshot::fake_newest(self.pending.clone());
                self.source_snaps.push(fake);
                self.created = Some(self.pending.clone());
                assert(catalog(self.source_snaps@) =~= before.push(fake_newest(self.pending@)));
                self.dispatch(job)
            },
            other => self.other(other),
        }
    }

    fn on_clone_send(&mut self, job: &Job, last: bool, event: Event) -> (r: Action)
        ensures
            (final(self)@, r@) == on_clone_send(job, old(self)@, last, event@),
    {
        match event {
            Event::Done => self.after_first(job, last, false),
            Event::TransferFailed { estimating, stderr } => {
                if estimating || self.source_snaps.len() == 0 {
                    self.fail(Failure::Transfer)
                } else {
                    let s = Send::full(job.source.as_str(), self.first_snapshot(last));
                    self.phase = Phase::FullSend { last, redo: false };
                    Action::Transfer(s)
                }
            },
            other => self.other(other),
        }
    }

    fn on_full_send(&mut self, job: &Job, last: bool, redo: bool, event: Event) -> (r: Action)
        ensures
            (final(self)@, r@) == on_full_send(job, old(self)@, last, redo, event@),
    {
        match event {
            Event::Done => self.after_first(job, last, redo),
            other => self.other(other),
        }
    }

    fn on_target_snaps(&mut self, job: &Job, event: Event) -> (r: Action)
        ensures
            (final(self)@, r@) == on_target_snaps(job, old(self)@, event@),
    {
        match event {
            Event::Catalog(c) => {
                self.target_snaps = c;
                self.match_now(job, false)
            },
            other => self.other(other),
        }
    }

    fn on_bookmarks(&mut self, job: &Job, event: Event) -> (r: Action)
        ensures
            (final(self)@, r@) == on_bookmarks(job, old(self)@, event@),
    {
        match event {
            Event::Catalog(b) => self.with_bookmarks(job, &b),
            other => self.other(other),
        }
    }

    fn on_used(&mut self, job: &Job, event: Event) -> (r: Action)
        ensures
            (final(self)@, r@) == on_used(job, old(self)@, event@),
    {
        match event {
            Event::Value(v) => {
                let digits = chars_of(v.as_str());
                let n: usize = digits.len();
                assert(digits@.subrange(0, n as int) =~= v@);
                match parse_decimal(&digits, 0, n) {
                    Some(used) => self.no_match(job, used),
                    None => self.fail(Failure::BadSize),
                }
            },
            other => self.other(other),
        }
    }

    fn on_destroy(&mut self, job: &Job, event: Event) -> (r: Action)
        ensures
            (final(self)@, r@) == on_destroy(job, old(self)@, event@),
    {
        match event {
            Event::Done => {
                if self.source_snaps.len() == 0 {
                    self.fail(Failure::Internal)
                } else {
                    let s = Send::full(job.source.as_str(), self.first_snapshot(job.no_stream));
                    self.phase = Phase::FullSend { last: job.no_stream, redo: true };
                    Action::Transfer(s)
                }
            },
            other => self.other(other),
        }
    }

    fn on_stream(&mut self, job: &Job, event: Event) -> (r: Action)
        ensures
            (final(self)@, r@) == on_stream(job, old(self)@, event@),
    {
        match event {
            Event::Done => {
                if self.next < self.sends.len() {
                    let s = self.sends[self.next].duplicate();
                    assert(s@ == self@.sends[self.next as int]);
                    self.next = self.next + 1;
                    Action::Transfer(s)
                } else {
                    self.post(job)
                }
            },
            other => self.other(other),
        }
    }

    fn on_prune_source(&mut self, job: &Job, event: Event) -> (r: Action)
        ensures
            (final(self)@, r@) == on_prune_source(job, old(self)@, event@),
    {
        match event {
            Event::Done => {
                let names = match &self.created {
                    Some(new) => Some(
                        prune_names(
                            job.target.as_str(),
                            &self.target_snaps,
                            new.as_str(),
                            &job.prune_formats,
                            &job.identifier,
                            self.hostname.as_str(),
                        ),
                    ),
                    None => None,
                };
                match names {
                    Some(snapshots) => {
                        self.phase = Phase::PruneTarget;
                        Action::Prune { role: Role::Target, snapshots }
                    },
                    None => self.finish(Outcome::Synced),
                }
            },
            other => self.other(other),
        }
    }

    fn on_prune_target(&mut self, event: Event) -> (r: Action)
        ensures
            (final(self)@, r@) == on_prune_target(old(self)@, event@),
    {
        match event {
            Event::Done => self.finish(Outcome::Synced),
            other => self.other(other),
        }
    }

    /// The step of the machine.
    fn step(&mut self, job: &Job, event: Event) -> (r: Action)
        ensures
            (final(self)@, r@) == next(job, old(self)@, event@),
    {
        match self.phase {
            Phase::Start => match event {
                Event::Start => {
                    self.phase = Phase::SyncProperty;
                    Action::ReadSyncProperty
                },
                _ => self.fail(Failure::Protocol),
            },
            Phase::SyncProperty => self.on_sync_property(event),
            Phase::Hostname => self.on_hostname(event),
            Phase::Busy => self.on_busy(event),
            Phase::Exists => self.on_exists(job, event),
            Phase::ResumeToken => self.on_resume_token(event),
            Phase::Resume => self.on_resume(job, event),
            Phase::Reset => self.on_reset(event),
            Phase::SourceSnaps => self.on_source_snaps(job, event),
            Phase::Clock => self.on_clock(job, event),
            Phase::Create => self.on_create(job, event),
            Phase::CloneSend { last } => self.on_clone_send(job, last, event),
            Phase::FullSend { last, redo } => self.on_full_send(job, last, redo, event),
            Phase::TargetSnaps => self.on_target_snaps(job, event),
            Phase::Bookmarks => self.on_bookmarks(job, event),
            Phase::Used => self.on_used(job, event),
            Phase::Destroy => self.on_destroy(job, event),
            Phase::Stream => self.on_stream(job, event),
            Phase::PruneSource => self.on_prune_source(job, event),
            Phase::PruneTarget => self.on_prune_target(event),
            Phase::Done => self.fail(Failure::Protocol),
        }
    }
}

/// The replication of one dataset: the job, and how far it has come.
#[derive(Debug)]
pub struct Planner {
    pub job: Job,
    pub progress: Progress,
}

impl Planner {
    /// The machine for a job, before its first step.
    pub fn new(job: Job) -> (r: Self)
        ensures
            r.job == job,
            r.progress@ == initial(),
    {
        Planner { job, progress: Progress::new() }
    }

    /// Takes what the last action brought and gives the next action. The first
    /// step takes `Event::Start`; after `Action::Finish` there is no further
    /// step.
    pub fn step(&mut self, event: Event) -> (action: Action)
        ensures
            final(self).job == old(self).job,
            (final(self).progress@, action@) == next(&old(self).job, old(self).progress@, event@),
            action@ is DestroyTarget ==> old(self).job.force_delete && old(self).job.target@.contains(
                '/',
            ),
    {
        proof {
            lemma_destroy_is_safe(&self.job, self.progress@, event@);
        }
        self.progress.step(&self.job, event)
    }

    /// Whether the replication has ended.
    pub fn is_done(&self) -> (r: bool)
        ensures
            r == (self.progress.phase == Phase::Done),
    {
        match self.progress.phase {
            Phase::Done => true,
            _ => false,
        }
    }
}

/// The target is destroyed only where that was asked for, and never when it
/// is the root of a pool.
pub proof fn lemma_destroy_is_safe(job: &Job, p: ProgressModel, e: EventModel)
    ensures
        next(job, p, e).1 is DestroyTarget ==> job.force_delete && job.target@.contains('/'),
{
    match p.phase {
        Phase::SourceSnaps | Phase::Clock | Phase::Create => {
            lemma_first_steps_destroy_nothing(job, p, e);
        },
        Phase::CloneSend { last } => {
            lemma_sends_destroy_nothing(job, p, last, false, e);
        },
        Phase::FullSend { last, redo } => {
            lemma_sends_destroy_nothing(job, p, last, redo, e);
        },
        Phase::TargetSnaps => {
            lemma_sends_destroy_nothing(job, p, false, false, e);
        },
        Phase::Bookmarks | Phase::Used => {
            lemma_only_no_match_destroys(job, p, e);
        },
        Phase::Stream | Phase::PruneSource | Phase::PruneTarget | Phase::Destroy => {
            lemma_last_steps_destroy_nothing(job, p, e);
        },
        _ => {},
    }
}

/// Whether the step destroys the target.
spec fn destroys(r: (ProgressModel, ActionModel)) -> bool {
    r.1 is DestroyTarget
}

proof fn lemma_first_steps_destroy_nothing(job: &Job, p: ProgressModel, e: EventModel)
    ensures
        !destroys(on_source_snaps(job, p, e)),
        !destroys(on_clock(job, p, e)),
        !destroys(on_create(job, p, e)),
{
}

proof fn lemma_match_destroys_nothing(job: &Job, p: ProgressModel, redo: bool)
    ensures
        !destroys(match_now(job, p, redo)),
        !destroys(after_first(job, p, false, redo)),
        !destroys(after_first(job, p, true, redo)),
{
}

proof fn lemma_sends_destroy_nothing(job: &Job, p: ProgressModel, last: bool, redo: bool, e: EventModel)
    ensures
        !destroys(on_clone_send(job, p, last, e)),
        !destroys(on_full_send(job, p, last, redo, e)),
        !destroys(on_target_snaps(job, p, e)),
{
    lemma_match_destroys_nothing(job, p, redo);
    lemma_match_destroys_nothing(job, p, false);
    if let EventModel::Catalog(c) = e {
        lemma_match_destroys_nothing(job, ProgressModel { target: c, ..p }, false);
    }
}

proof fn lemma_only_no_match_destroys(job: &Job, p: ProgressModel, e: EventModel)
    ensures
        destroys(on_bookmarks(job, p, e)) ==> job.force_delete && job.target@.contains('/'),
        destroys(on_used(job, p, e)) ==> job.force_delete && job.target@.contains('/'),
{
}

proof fn lemma_last_steps_destroy_nothing(job: &Job, p: ProgressModel, e: EventModel)
    ensures
        !destroys(on_stream(job, p, e)),
        !destroys(on_prune_source(job, p, e)),
        !destroys(on_prune_target(p, e)),
        !destroys(on_destroy(job, p, e)),
{
}

/// A send that was refused because the target is being received into ends
/// the replication as busy, whichever send it was.
pub proof fn lemma_busy_target_ends_the_run(job: &Job, p: ProgressModel)
    requires
        p.phase is Resume || p.phase is CloneSend || p.phase is FullSend || p.phase is Stream,
    ensures
        next(job, p, EventModel::Busy) == fail(p, Failure::Busy),
{
}

/// A resume whose source is gone is recovered from: the receive is reset,
/// and after the reset the replication goes on exactly as it does for a
/// target without a token, with the listing of the source.
pub proof fn lemma_stale_resume_recovers(job: &Job, p: ProgressModel, estimating: bool, stderr: Seq<char>)
    requires
        p.phase == Phase::Resume,
        stale(job, stderr),
    ensures
        next(job, p, EventModel::TransferFailed { estimating, stderr }) == (
            at(p, Phase::Reset),
            ActionModel::ResetReceive,
        ),
        next(job, at(p, Phase::Reset), EventModel::Done) == collect(p),
        next(job, at(p, Phase::ResumeToken), EventModel::Value("-"@)) == collect(p),
        collect(p) == (at(p, Phase::SourceSnaps), ActionModel::ListSnapshots(Role::Source)),
{
    assert(at(at(p, Phase::Reset), Phase::SourceSnaps) == at(p, Phase::SourceSnaps));
    assert(at(at(p, Phase::ResumeToken), Phase::SourceSnaps) == at(p, Phase::SourceSnaps));
}

/// A target that holds the newest snapshot of the source is up to date: no
/// send follows, and no snapshot is made or destroyed.
pub proof fn lemma_second_run_sends_nothing(job: &Job, p: ProgressModel, c: Seq<SnapshotModel>)
    requires
        p.phase == Phase::TargetSnaps,
        p.source.len() > 0,
        crate::matching::shared(p.source.last(), names_map(c)),
    ensures
        next(job, p, EventModel::Catalog(c)).1 == ActionModel::Finish(
            Outcome::UpToDate { announce: !p.target_created && !p.resumed },
        ),
{
    crate::matching::lemma_newest_on_target_leaves_nothing(p.source, names_map(c));
    let k = newest_shared(p.source, names_map(c));
    assert(p.source.subrange(k + 1, p.source.len() as int) =~= Seq::<SnapshotModel>::empty());
}

/// A run that made a new sync snapshot finds the newest snapshot of the run
/// before it: where the target holds the snapshot that stands before the new
/// one and not the new one, that snapshot is the match, and what is sent is
/// the one step from it to the new one.
pub proof fn lemma_second_run_finds_the_first(job: &Job, p: ProgressModel, c: Seq<SnapshotModel>)
    requires
        p.phase == Phase::TargetSnaps,
        p.source.len() >= 2,
        crate::matching::shared(p.source[p.source.len() - 2], names_map(c)),
        !crate::matching::shared(p.source.last(), names_map(c)),
    ensures
        newest_shared(p.source, names_map(c)) == p.source.len() - 2,
        next(job, p, EventModel::Catalog(c)).1 == ActionModel::Transfer(
            if job.no_stream || job.filter.active() {
                crate::plan::step_send(
                    job.source@,
                    false,
                    p.source[p.source.len() - 2].name,
                    p.source.last().name,
                )
            } else {
                crate::plan::range_send(
                    job.source@,
                    p.source[p.source.len() - 2].name,
                    p.source.last().name,
                )
            },
        ),
        next(job, p, EventModel::Catalog(c)).0.sends.len() == 1,
{
    let n = p.source.len() as int;
    let t = names_map(c);
    assert(p.source.drop_last().last() == p.source[n - 2]);
    assert(newest_shared(p.source, t) == newest_shared(p.source.drop_last(), t));
    let tail = p.source.subrange(n - 1, n);
    assert(tail.len() == 1);
    assert(tail[0] == p.source.last());
    assert(crate::plan::chain(job.source@, tail, 1) =~= Seq::<SendModel>::empty());
}

} // verus!
