//! Setting up the replication of one dataset from the settings of the run.

use crate::args::Args;
use crate::catalog::SnapFilter;
use crate::fs::{opt_string, Fs};
use crate::pattern::{compile_all, regex_valid};
use crate::planner::{stale_pattern, stale_pattern_text, Failure, Job};
use vstd::prelude::*;

verus! {

/// A text that was to be a regular expression and is none.
#[derive(Debug, Clone, Copy, PartialEq, Eq, Structural)]
pub enum BadPattern {
    /// The pattern at that place among those that leave snapshots out.
    ExcludeSnaps(usize),
    /// The pattern at that place among those that take snapshots in.
    IncludeSnaps(usize),
    /// The built-in pattern for the error of a stale resume.
    Stale,
}

/// Whether the snapshot filters of the settings are regular expressions.
pub open spec fn filters_valid(args: &Args) -> bool {
    &&& forall|i: int| 0 <= i < args.exclude_snaps@.len() ==> regex_valid(args.exclude_snaps@[i]@)
    &&& forall|i: int| 0 <= i < args.include_snaps@.len() ==> regex_valid(args.include_snaps@[i]@)
}

/// Whether all the patterns that a replication uses are regular expressions.
pub open spec fn patterns_valid(args: &Args) -> bool {
    filters_valid(args) && regex_valid(stale_pattern_text())
}

/// Whether the filter holds the patterns of the settings, each at its place.
pub open spec fn filter_of(f: &SnapFilter, args: &Args) -> bool {
    &&& f.exclude_snaps@.len() == args.exclude_snaps@.len()
    &&& f.include_snaps@.len() == args.include_snaps@.len()
    &&& forall|i: int|
        0 <= i < f.exclude_snaps@.len() ==> (#[trigger] f.exclude_snaps@[i]).text()
            == args.exclude_snaps@[i]@
    &&& forall|i: int|
        0 <= i < f.include_snaps@.len() ==> (#[trigger] f.include_snaps@[i]).text()
            == args.include_snaps@[i]@
}

/// Compiles the snapshot filters of the settings.
pub fn snap_filter(args: &Args) -> (r: Result<SnapFilter, BadPattern>)
    ensures
        r is Ok <==> filters_valid(args),
        match r {
            Ok(f) => filter_of(&f, args),
            Err(BadPattern::ExcludeSnaps(k)) => k < args.exclude_snaps@.len() && !regex_valid(
                args.exclude_snaps@[k as int]@,
            ),
            Err(BadPattern::IncludeSnaps(k)) => k < args.include_snaps@.len() && !regex_valid(
                args.include_snaps@[k as int]@,
            ),
            Err(BadPattern::Stale) => false,
        },
{
    let exclude_snaps = match compile_all(&args.exclude_snaps) {
        Ok(p) => p,
        Err(k) => {
            return Err(BadPattern::ExcludeSnaps(k));
        },
    };
    let include_snaps = match compile_all(&args.include_snaps) {
        Ok(p) => p,
        Err(k) => {
            return Err(BadPattern::IncludeSnaps(k));
        },
    };
    Ok(SnapFilter { exclude_snaps, include_snaps })
}

impl Job {
    /// The replication of `source` to `target` under the settings of the run.
    /// `skip_sync_snapshot` says that no sync snapshot is to be made because
    /// an earlier attempt made one.
    pub fn new(source: &Fs, target: &Fs, args: &Args, skip_sync_snapshot: bool) -> (r: Result<
        Job,
        BadPattern,
    >)
        ensures
            r matches Ok(job) ==> {
                &&& job.source@ == source.fs@
                &&& opt_string(job.source_origin) == opt_string(source.origin)
                &&& job.target@ == target.fs@
                &&& opt_string(job.target_origin) == opt_string(target.origin)
                &&& job.no_stream == args.no_stream
                &&& job.no_sync_snap == args.no_sync_snap
                &&& job.keep_sync_snap == args.keep_sync_snap
                &&& job.no_resume == args.no_resume
                &&& job.force_delete == args.force_delete
                &&& job.dry_run == args.dry_run
                &&& job.skip_sync_snapshot == skip_sync_snapshot
                &&& opt_string(job.identifier) == opt_string(args.identifier)
                &&& job.prune_formats@ == args.prune_formats@
                &&& filter_of(&job.filter, args)
                &&& job.stale.text() == stale_pattern_text()
            },
            r matches Err(e) ==> match e {
                BadPattern::ExcludeSnaps(k) => k < args.exclude_snaps@.len() && !regex_valid(
                    args.exclude_snaps@[k as int]@,
                ),
                BadPattern::IncludeSnaps(k) => k < args.include_snaps@.len() && !regex_valid(
                    args.include_snaps@[k as int]@,
                ),
                BadPattern::Stale => !regex_valid(stale_pattern_text()),
            },
            r is Ok <==> patterns_valid(args),
    {
        let filter = match snap_filter(args) {
            Ok(f) => f,
            Err(e) => {
                return Err(e);
            },
        };
        let stale = match stale_pattern() {
            Some(p) => p,
            None => {
                return Err(BadPattern::Stale);
            },
        };
        Ok(
            Job {
                source: source.fs.clone(),
                source_origin: source.origin.clone(),
                target: target.fs.clone(),
                target_origin: target.origin.clone(),
                no_stream: args.no_stream,
                no_sync_snap: args.no_sync_snap,
                keep_sync_snap: args.keep_sync_snap,
                no_resume: args.no_resume,
                force_delete: args.force_delete,
                dry_run: args.dry_run,
                skip_sync_snapshot,
                identifier: args.identifier.clone(),
                prune_formats: args.prune_formats.clone(),
                filter,
                stale,
            },
        )
    }
}

impl Failure {
    /// The message of the failure.
    pub open spec fn message(&self) -> Seq<char> {
        match self {
            Failure::Busy => "target is already in zfs recv"@,
            Failure::NoSnapshots => "New sync snapshot was not created or was filered out, and there were no snapshots on source"@,
            Failure::NoSnapshotsNoSync => "No snapshots exist on source and you asked for --no-sync-snap"@,
            Failure::TooSmall => "no matching snapshots and target dataset is too small"@,
            Failure::RootDataset => "not deleting root dataset"@,
            Failure::NoMatch => "no matching snapshots"@,
            Failure::BadSize => "parsing target size failed"@,
            Failure::Transfer => "sync pipeline failed"@,
            Failure::Io => "an operation of the sync failed"@,
            Failure::Internal => "building matching snapshots from oldest failed"@,
            Failure::Protocol => "the planner was handed an answer it did not ask for"@,
        }
    }

    /// The message of the failure.
    pub fn to_str(&self) -> (r: &'static str)
        ensures
            r@ == self.message(),
    {
        match self {
            Failure::Busy => "target is already in zfs recv",
            Failure::NoSnapshots => "New sync snapshot was not created or was filered out, and there were no snapshots on source",
            Failure::NoSnapshotsNoSync => "No snapshots exist on source and you asked for --no-sync-snap",
            Failure::TooSmall => "no matching snapshots and target dataset is too small",
            Failure::RootDataset => "not deleting root dataset",
            Failure::NoMatch => "no matching snapshots",
            Failure::BadSize => "parsing target size failed",
            Failure::Transfer => "sync pipeline failed",
            Failure::Io => "an operation of the sync failed",
            Failure::Internal => "building matching snapshots from oldest failed",
            Failure::Protocol => "the planner was handed an answer it did not ask for",
        }
    }
}

} // verus!
