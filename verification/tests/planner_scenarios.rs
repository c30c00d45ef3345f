use chithi::catalog::SnapFilter;
use chithi::cmd::{CmdTarget, Pipeline};
use chithi::fs::{Fs, Role};
use chithi::pattern::Pattern;
use chithi::plan::{Send, SendFlag};
use chithi::planner::{
    stale_pattern, transfer_step, Action, Event, Failure, Job, Outcome, Planner, Skip, TransferStep,
};
use chithi::send_recv_opts::Opts;
use chithi::walker::{get_child_datasets, sync_order};
use chithi::zfs::{Creation, Snapshot};
use chithi::zfs_cmd::{recv_cmd, send_cmd};

fn snap(name: &str, guid: &str, creation: u64, idx: usize) -> Snapshot<String> {
    Snapshot::new(name.to_string(), guid.to_string(), Creation::fake_new(creation, idx))
}

fn job(source: &str, target: &str) -> Job {
    Job {
        source: source.to_string(),
        source_origin: None,
        target: target.to_string(),
        target_origin: None,
        no_stream: false,
        no_sync_snap: true,
        keep_sync_snap: false,
        no_resume: false,
        force_delete: false,
        dry_run: false,
        skip_sync_snapshot: false,
        identifier: None,
        prune_formats: vec!["chithi".to_string()],
        filter: SnapFilter { exclude_snaps: vec![], include_snaps: vec![] },
        stale: stale_pattern().unwrap(),
    }
}

fn full(name: &str) -> Action {
    Action::Transfer(Send { flag: None, from: name.to_string(), to: None })
}

fn incremental(flag: SendFlag, from: &str, to: &str) -> Action {
    Action::Transfer(Send { flag: Some(flag), from: from.to_string(), to: Some(to.to_string()) })
}

/// Drives the planner up to the listing of the source snapshots.
fn up_to_source_listing(planner: &mut Planner, target_exists: bool) {
    assert_eq!(planner.step(Event::Start), Action::ReadSyncProperty);
    assert_eq!(planner.step(Event::Value("-".to_string())), Action::CheckBusy);
    assert_eq!(planner.step(Event::Flag(false)), Action::CheckExists);
    if target_exists {
        assert_eq!(planner.step(Event::Flag(true)), Action::ReadResumeToken);
        assert_eq!(
            planner.step(Event::Value("-".to_string())),
            Action::ListSnapshots(Role::Source)
        );
    } else {
        assert_eq!(planner.step(Event::Flag(false)), Action::ListSnapshots(Role::Source));
    }
}

#[test]
fn scenario_fresh_target_stream_mode() {
    let mut planner = Planner::new(job("pool/src", "pool/dst"));
    up_to_source_listing(&mut planner, false);
    let source = vec![snap("S1", "A", 10, 0), snap("S2", "B", 20, 1)];
    let first = planner.step(Event::Catalog(source));
    assert_eq!(first, full("pool/src@S1"));
    let second = planner.step(Event::Done);
    assert_eq!(second, incremental(SendFlag::IncrementalAll, "pool/src@S1", "pool/src@S2"));
    assert_eq!(planner.step(Event::Done), Action::Finish(Outcome::Synced));
    assert!(planner.is_done());

    // the commands of the two sends
    let none = Opts::try_from_str("").unwrap();
    let (Action::Transfer(first), Action::Transfer(second)) = (first, second) else {
        panic!("two sends");
    };
    let send = send_cmd(&none, &first, true);
    assert_eq!(send.to_string(), "zfs send pool/src@S1");
    let recv = recv_cmd(&none, "pool/dst", true, true, true);
    assert_eq!(recv.to_string(), "zfs receive pool/dst");
    let local = CmdTarget::new_local();
    let mut pipeline = Pipeline::new(&local, send);
    pipeline.add_cmd(recv);
    assert_eq!(
        pipeline.to_cmd(),
        vec!["sh", "-c", "--", "zfs send pool/src@S1 | zfs receive pool/dst"]
    );
    let send = send_cmd(&none, &second, true);
    assert_eq!(send.to_string(), "zfs send -I pool/src@S1 pool/src@S2");
    // by default an interrupted receive keeps its state and the target is rolled back
    let recv = recv_cmd(&none, "pool/dst", false, false, false);
    assert_eq!(recv.to_string(), "sudo zfs receive -s -F pool/dst");
}

#[test]
fn scenario_incremental_no_op() {
    let mut planner = Planner::new(job("pool/src", "pool/dst"));
    up_to_source_listing(&mut planner, true);
    let source = vec![snap("S1", "A", 10, 0), snap("S2", "B", 20, 1)];
    assert_eq!(planner.step(Event::Catalog(source)), Action::ListSnapshots(Role::Target));
    let target = vec![snap("S1", "A", 10, 0), snap("S2", "B", 20, 1)];
    assert_eq!(
        planner.step(Event::Catalog(target)),
        Action::Finish(Outcome::UpToDate { announce: true })
    );
}

#[test]
fn scenario_matching_by_bookmark() {
    let mut planner = Planner::new(job("pool/src", "pool/dst"));
    up_to_source_listing(&mut planner, true);
    assert_eq!(
        planner.step(Event::Catalog(vec![snap("S3", "C", 30, 0)])),
        Action::ListSnapshots(Role::Target)
    );
    assert_eq!(planner.step(Event::Catalog(vec![snap("S2", "B", 20, 0)])), Action::ListBookmarks);
    let action = planner.step(Event::Catalog(vec![snap("S2", "B", 20, 0)]));
    assert_eq!(action, incremental(SendFlag::Incremental, "pool/src#S2", "pool/src@S3"));
    let Action::Transfer(send) = action else { panic!("a send") };
    let none = Opts::try_from_str("").unwrap();
    assert_eq!(send_cmd(&none, &send, true).to_string(), "zfs send -i pool/src#S2 pool/src@S3");
    assert_eq!(planner.step(Event::Done), Action::Finish(Outcome::Synced));
}

#[test]
fn scenario_resume_token_stale() {
    let mut planner = Planner::new(job("pool/src", "pool/dst"));
    assert_eq!(planner.step(Event::Start), Action::ReadSyncProperty);
    assert_eq!(planner.step(Event::Value("true".to_string())), Action::CheckBusy);
    assert_eq!(planner.step(Event::Flag(false)), Action::CheckExists);
    assert_eq!(planner.step(Event::Flag(true)), Action::ReadResumeToken);
    let resume = planner.step(Event::Value("abc".to_string()));
    assert_eq!(
        resume,
        Action::Transfer(Send { flag: Some(SendFlag::Resume), from: "abc".to_string(), to: None })
    );
    let Action::Transfer(send) = resume else { panic!("a send") };
    let none = Opts::try_from_str("").unwrap();
    assert_eq!(send_cmd(&none, &send, true).to_string(), "zfs send -t abc");
    let failed = Event::TransferFailed {
        estimating: false,
        stderr: "cannot resume send: incremental source 0x1234 no longer exists\n".to_string(),
    };
    assert_eq!(planner.step(failed), Action::ResetReceive);
    // from here on as if there had been no token
    assert_eq!(planner.step(Event::Done), Action::ListSnapshots(Role::Source));
    let source = vec![snap("S1", "A", 10, 0), snap("S2", "B", 20, 1)];
    assert_eq!(planner.step(Event::Catalog(source)), Action::ListSnapshots(Role::Target));
    assert_eq!(
        planner.step(Event::Catalog(vec![snap("S1", "A", 10, 0)])),
        incremental(SendFlag::IncrementalAll, "pool/src@S1", "pool/src@S2")
    );
    assert_eq!(planner.step(Event::Done), Action::Finish(Outcome::Synced));
}

#[test]
fn resume_with_the_other_stale_message_resets_too() {
    let mut planner = Planner::new(job("pool/src", "pool/dst"));
    assert_eq!(planner.step(Event::Start), Action::ReadSyncProperty);
    assert_eq!(planner.step(Event::Value("".to_string())), Action::CheckBusy);
    assert_eq!(planner.step(Event::Flag(false)), Action::CheckExists);
    assert_eq!(planner.step(Event::Flag(true)), Action::ReadResumeToken);
    planner.step(Event::Value("abc".to_string()));
    let failed = Event::TransferFailed {
        estimating: true,
        stderr: "snapshot used in the initial send no longer exists".to_string(),
    };
    assert_eq!(planner.step(failed), Action::ResetReceive);
}

#[test]
fn resume_that_fails_otherwise_fails_the_dataset() {
    let mut planner = Planner::new(job("pool/src", "pool/dst"));
    assert_eq!(planner.step(Event::Start), Action::ReadSyncProperty);
    assert_eq!(planner.step(Event::Value("-".to_string())), Action::CheckBusy);
    assert_eq!(planner.step(Event::Flag(false)), Action::CheckExists);
    assert_eq!(planner.step(Event::Flag(true)), Action::ReadResumeToken);
    planner.step(Event::Value("abc".to_string()));
    let failed = Event::TransferFailed {
        estimating: false,
        stderr: "incremental source G123 no longer exists".to_string(),
    };
    assert_eq!(planner.step(failed), Action::Finish(Outcome::Failed(Failure::Transfer)));
}

#[test]
fn resuming_successfully_goes_on_without_announcing() {
    let mut planner = Planner::new(job("pool/src", "pool/dst"));
    assert_eq!(planner.step(Event::Start), Action::ReadSyncProperty);
    assert_eq!(planner.step(Event::Value("-".to_string())), Action::CheckBusy);
    assert_eq!(planner.step(Event::Flag(false)), Action::CheckExists);
    assert_eq!(planner.step(Event::Flag(true)), Action::ReadResumeToken);
    planner.step(Event::Value("abc".to_string()));
    assert_eq!(planner.step(Event::Done), Action::ListSnapshots(Role::Source));
    assert_eq!(
        planner.step(Event::Catalog(vec![snap("S1", "A", 10, 0)])),
        Action::ListSnapshots(Role::Target)
    );
    assert_eq!(
        planner.step(Event::Catalog(vec![snap("S1", "A", 10, 0)])),
        Action::Finish(Outcome::UpToDate { announce: false })
    );
}

fn up_to_no_match(planner: &mut Planner) -> Action {
    up_to_source_listing(planner, true);
    let source = vec![snap("S1", "A", 10, 0), snap("S2", "B", 20, 1)];
    assert_eq!(planner.step(Event::Catalog(source)), Action::ListSnapshots(Role::Target));
    assert_eq!(planner.step(Event::Catalog(vec![snap("Q", "Z", 5, 0)])), Action::ListBookmarks);
    planner.step(Event::Catalog(vec![]))
}

#[test]
fn scenario_no_match_refusal_then_force_delete() {
    let mut j = job("pool/src", "pool/dst");
    j.force_delete = true;
    j.no_sync_snap = false;
    j.skip_sync_snapshot = true;
    let mut planner = Planner::new(j);
    assert_eq!(up_to_no_match(&mut planner), Action::ReadUsed);
    assert_eq!(planner.step(Event::Value("104857600".to_string())), Action::DestroyTarget);
    // the redo makes no new sync snapshot
    assert_eq!(planner.step(Event::Done), full("pool/src@S1"));
    assert_eq!(
        planner.step(Event::Done),
        incremental(SendFlag::IncrementalAll, "pool/src@S1", "pool/src@S2")
    );
    assert_eq!(planner.step(Event::Done), Action::Finish(Outcome::Synced));
}

#[test]
fn no_match_without_force_delete_refuses() {
    let mut planner = Planner::new(job("pool/src", "pool/dst"));
    assert_eq!(up_to_no_match(&mut planner), Action::ReadUsed);
    assert_eq!(
        planner.step(Event::Value("104857600".to_string())),
        Action::Finish(Outcome::Failed(Failure::NoMatch))
    );
    assert_eq!(Failure::NoMatch.to_str(), "no matching snapshots");
}

#[test]
fn no_match_on_a_small_target_hints_at_a_mistake() {
    let mut planner = Planner::new(job("pool/src", "pool/dst"));
    assert_eq!(up_to_no_match(&mut planner), Action::ReadUsed);
    // one byte below 64 MiB
    assert_eq!(
        planner.step(Event::Value("67108863".to_string())),
        Action::Finish(Outcome::Failed(Failure::TooSmall))
    );
    let mut planner = Planner::new(job("pool/src", "pool/dst"));
    up_to_no_match(&mut planner);
    assert_eq!(
        planner.step(Event::Value("67108864".to_string())),
        Action::Finish(Outcome::Failed(Failure::NoMatch))
    );
}

#[test]
fn the_root_of_a_pool_is_never_destroyed() {
    let mut j = job("pool/src", "tank");
    j.force_delete = true;
    let mut planner = Planner::new(j);
    assert_eq!(up_to_no_match(&mut planner), Action::ReadUsed);
    assert_eq!(
        planner.step(Event::Value("104857600".to_string())),
        Action::Finish(Outcome::Failed(Failure::RootDataset))
    );
}

#[test]
fn a_size_that_is_no_number_fails() {
    let mut planner = Planner::new(job("pool/src", "pool/dst"));
    assert_eq!(up_to_no_match(&mut planner), Action::ReadUsed);
    assert_eq!(
        planner.step(Event::Value("100M".to_string())),
        Action::Finish(Outcome::Failed(Failure::BadSize))
    );
}

#[test]
fn a_dry_run_takes_the_target_for_large() {
    let mut j = job("pool/src", "pool/dst");
    j.dry_run = true;
    let mut planner = Planner::new(j);
    assert_eq!(up_to_no_match(&mut planner), Action::Finish(Outcome::Failed(Failure::NoMatch)));
}

#[test]
fn scenario_clone_replication_with_sibling_dependency() {
    let source = Fs::new(None, "pool", Role::Source);
    let target = Fs::new(None, "tank/backup", Role::Target);
    let lines = vec!["pool\t-".to_string(), "pool/a\t-".to_string(), "pool/b\tpool/a@snap".to_string()];
    let none: Vec<Pattern> = vec![];
    let children = get_child_datasets(&source, &lines, true, &none).unwrap();
    assert_eq!(children.len(), 2);
    assert_eq!(children[1].origin, Some("pool/a@snap".to_string()));
    let targets: Vec<Fs> = children
        .iter()
        .map(|child| target.child_from_source(&source, child, true).unwrap())
        .collect();
    assert_eq!(targets[0].fs, "tank/backup/a");
    assert_eq!(targets[0].origin, None);
    assert_eq!(targets[1].fs, "tank/backup/b");
    assert_eq!(targets[1].origin, Some("tank/backup/a@snap".to_string()));
    assert_eq!(targets[1].origin_dataset(), Some("tank/backup/a".to_string()));
    // pool/a first, its clone after it
    assert_eq!(sync_order(&targets, true), vec![0, 1]);

    let mut j = job("pool/b", "tank/backup/b");
    j.source_origin = children[1].origin.clone();
    j.target_origin = targets[1].origin.clone();
    let mut planner = Planner::new(j);
    up_to_source_listing(&mut planner, false);
    let action = planner.step(Event::Catalog(vec![snap("snap", "G", 40, 0)]));
    assert_eq!(action, incremental(SendFlag::Incremental, "pool/a@snap", "pool/b@snap"));
    let Action::Transfer(send) = action else { panic!("a send") };
    let none = Opts::try_from_str("").unwrap();
    assert_eq!(send_cmd(&none, &send, true).to_string(), "zfs send -i pool/a@snap pool/b@snap");
    assert_eq!(
        recv_cmd(&none, "tank/backup/b", true, true, true).to_string(),
        "zfs receive tank/backup/b"
    );
    assert_eq!(
        planner.step(Event::Done),
        Action::Finish(Outcome::UpToDate { announce: false })
    );
}

#[test]
fn a_clone_that_cannot_be_made_is_sent_in_full() {
    let mut j = job("pool/b", "tank/b");
    j.source_origin = Some("pool/a@snap".to_string());
    j.target_origin = Some("tank/a@snap".to_string());
    let mut planner = Planner::new(j);
    up_to_source_listing(&mut planner, false);
    let source = vec![snap("S1", "A", 10, 0), snap("S2", "B", 20, 1)];
    assert_eq!(
        planner.step(Event::Catalog(source)),
        incremental(SendFlag::Incremental, "pool/a@snap", "pool/b@S1")
    );
    let failed = Event::TransferFailed { estimating: false, stderr: "cannot receive".to_string() };
    assert_eq!(planner.step(failed), full("pool/b@S1"));
    assert_eq!(
        planner.step(Event::Done),
        incremental(SendFlag::IncrementalAll, "pool/b@S1", "pool/b@S2")
    );
}

#[test]
fn a_clone_whose_size_cannot_be_estimated_fails() {
    let mut j = job("pool/b", "tank/b");
    j.source_origin = Some("pool/a@snap".to_string());
    j.target_origin = Some("tank/a@snap".to_string());
    let mut planner = Planner::new(j);
    up_to_source_listing(&mut planner, false);
    planner.step(Event::Catalog(vec![snap("S1", "A", 10, 0)]));
    let failed = Event::TransferFailed { estimating: true, stderr: String::new() };
    assert_eq!(planner.step(failed), Action::Finish(Outcome::Failed(Failure::Transfer)));
}

#[test]
fn without_streaming_a_new_target_gets_the_newest_snapshot_only() {
    let mut j = job("pool/src", "pool/dst");
    j.no_stream = true;
    let mut planner = Planner::new(j);
    up_to_source_listing(&mut planner, false);
    let source = vec![snap("S1", "A", 10, 0), snap("S2", "B", 20, 1)];
    assert_eq!(planner.step(Event::Catalog(source)), full("pool/src@S2"));
    assert_eq!(planner.step(Event::Done), Action::Finish(Outcome::Synced));
}

#[test]
fn without_streaming_one_step_leads_to_the_newest_snapshot() {
    let mut j = job("pool/src", "pool/dst");
    j.no_stream = true;
    let mut planner = Planner::new(j);
    up_to_source_listing(&mut planner, true);
    let source = vec![snap("S1", "A", 10, 0), snap("S2", "B", 20, 1), snap("S3", "C", 30, 2)];
    planner.step(Event::Catalog(source));
    assert_eq!(
        planner.step(Event::Catalog(vec![snap("S1", "A", 10, 0)])),
        incremental(SendFlag::Incremental, "pool/src@S1", "pool/src@S3")
    );
    assert_eq!(planner.step(Event::Done), Action::Finish(Outcome::Synced));
}

#[test]
fn with_snapshot_filters_the_stream_is_a_chain_of_steps() {
    let mut j = job("pool/src", "pool/dst");
    j.filter = SnapFilter { exclude_snaps: vec![Pattern::new("^hourly").unwrap()], include_snaps: vec![] };
    let mut planner = Planner::new(j);
    up_to_source_listing(&mut planner, true);
    let source = vec![snap("S1", "A", 10, 0), snap("S2", "B", 20, 1), snap("S3", "C", 30, 2)];
    planner.step(Event::Catalog(source));
    assert_eq!(
        planner.step(Event::Catalog(vec![snap("S1", "A", 10, 0)])),
        incremental(SendFlag::Incremental, "pool/src@S1", "pool/src@S2")
    );
    assert_eq!(
        planner.step(Event::Done),
        incremental(SendFlag::Incremental, "pool/src@S2", "pool/src@S3")
    );
    assert_eq!(planner.step(Event::Done), Action::Finish(Outcome::Synced));
}

#[test]
fn from_a_bookmark_a_step_and_then_a_run() {
    let mut planner = Planner::new(job("pool/src", "pool/dst"));
    up_to_source_listing(&mut planner, true);
    let source = vec![snap("S3", "C", 30, 0), snap("S4", "D", 40, 1), snap("S5", "E", 50, 2)];
    planner.step(Event::Catalog(source));
    planner.step(Event::Catalog(vec![snap("S2", "B", 20, 0)]));
    assert_eq!(
        planner.step(Event::Catalog(vec![snap("S2", "B", 20, 0)])),
        incremental(SendFlag::Incremental, "pool/src#S2", "pool/src@S3")
    );
    assert_eq!(
        planner.step(Event::Done),
        incremental(SendFlag::IncrementalAll, "pool/src@S3", "pool/src@S5")
    );
    assert_eq!(planner.step(Event::Done), Action::Finish(Outcome::Synced));
}

#[test]
fn sync_property_false_skips_the_dataset() {
    let mut planner = Planner::new(job("pool/src", "pool/dst"));
    planner.step(Event::Start);
    assert_eq!(
        planner.step(Event::Value("false".to_string())),
        Action::Finish(Outcome::Skipped(Skip::Disabled))
    );
}

#[test]
fn sync_property_with_hosts_asks_for_this_host() {
    let mut planner = Planner::new(job("pool/src", "pool/dst"));
    planner.step(Event::Start);
    assert_eq!(planner.step(Event::Value("alpha,beta".to_string())), Action::ReadHostname);
    assert_eq!(planner.step(Event::Value("beta".to_string())), Action::CheckBusy);
    let mut planner = Planner::new(job("pool/src", "pool/dst"));
    planner.step(Event::Start);
    planner.step(Event::Value("alpha,beta".to_string()));
    assert_eq!(
        planner.step(Event::Value("bet".to_string())),
        Action::Finish(Outcome::Skipped(Skip::OtherHost))
    );
}

#[test]
fn a_missing_source_is_skipped() {
    let mut planner = Planner::new(job("pool/src", "pool/dst"));
    planner.step(Event::Start);
    assert_eq!(
        planner.step(Event::Missing),
        Action::Finish(Outcome::Skipped(Skip::SourceMissing))
    );
}

#[test]
fn a_busy_target_fails() {
    let mut planner = Planner::new(job("pool/src", "pool/dst"));
    planner.step(Event::Start);
    planner.step(Event::Value("-".to_string()));
    assert_eq!(planner.step(Event::Flag(true)), Action::Finish(Outcome::Failed(Failure::Busy)));
    assert_eq!(Failure::Busy.to_str(), "target is already in zfs recv");
}

#[test]
fn a_source_without_snapshots_fails() {
    let mut planner = Planner::new(job("pool/src", "pool/dst"));
    up_to_source_listing(&mut planner, false);
    assert_eq!(
        planner.step(Event::Catalog(vec![])),
        Action::Finish(Outcome::Failed(Failure::NoSnapshotsNoSync))
    );
}

#[test]
fn an_action_that_cannot_be_performed_fails() {
    let mut planner = Planner::new(job("pool/src", "pool/dst"));
    planner.step(Event::Start);
    assert_eq!(planner.step(Event::Failed), Action::Finish(Outcome::Failed(Failure::Io)));
    // and after the end every step is out of place
    assert_eq!(planner.step(Event::Done), Action::Finish(Outcome::Failed(Failure::Protocol)));
}

#[test]
fn an_answer_out_of_place_fails() {
    let mut planner = Planner::new(job("pool/src", "pool/dst"));
    assert_eq!(planner.step(Event::Done), Action::Finish(Outcome::Failed(Failure::Protocol)));
    let mut planner = Planner::new(job("pool/src", "pool/dst"));
    planner.step(Event::Start);
    assert_eq!(
        planner.step(Event::Flag(true)),
        Action::Finish(Outcome::Failed(Failure::Protocol))
    );
}

fn with_sync_snapshot() -> Job {
    let mut j = job("pool/src", "pool/dst");
    j.no_sync_snap = false;
    j.identifier = Some("id".to_string());
    j.prune_formats = vec!["chithi".to_string(), "syncoid".to_string()];
    j
}

#[test]
fn a_run_makes_one_sync_snapshot_and_prunes_the_old_ones() {
    let mut planner = Planner::new(with_sync_snapshot());
    up_to_source_listing(&mut planner, true);
    let source = vec![
        snap("chithi_idbox_2024-01-01:00:00:00-GMT00:00", "A", 10, 0),
        snap("manual", "B", 20, 1),
        snap("syncoid_idbox_old", "C", 30, 2),
        snap("chithi_otherbox_2024", "D", 40, 3),
    ];
    assert_eq!(planner.step(Event::Catalog(source)), Action::ReadClock);
    let clock = Event::Clock {
        hostname: "box".to_string(),
        date: "2024-03-02:01:02:03-GMT01:00".to_string(),
    };
    let new = "chithi_idbox_2024-03-02:01:02:03-GMT01:00";
    assert_eq!(planner.step(clock), Action::CreateSnapshot(new.to_string()));
    assert_eq!(planner.step(Event::Done), Action::ListSnapshots(Role::Target));
    let target = vec![
        snap("chithi_idbox_2024-01-01:00:00:00-GMT00:00", "A", 10, 0),
        snap("manual", "B", 20, 1),
    ];
    assert_eq!(
        planner.step(Event::Catalog(target)),
        incremental(
            SendFlag::IncrementalAll,
            "pool/src@manual",
            "pool/src@chithi_idbox_2024-03-02:01:02:03-GMT01:00"
        )
    );
    assert_eq!(
        planner.step(Event::Done),
        Action::Prune {
            role: Role::Source,
            snapshots: vec![
                "pool/src@chithi_idbox_2024-01-01:00:00:00-GMT00:00".to_string(),
                "pool/src@syncoid_idbox_old".to_string(),
            ],
        }
    );
    assert_eq!(
        planner.step(Event::Done),
        Action::Prune {
            role: Role::Target,
            snapshots: vec!["pool/dst@chithi_idbox_2024-01-01:00:00:00-GMT00:00".to_string()],
        }
    );
    assert_eq!(planner.step(Event::Done), Action::Finish(Outcome::Synced));
}

#[test]
fn kept_sync_snapshots_are_not_pruned() {
    let mut j = with_sync_snapshot();
    j.keep_sync_snap = true;
    let mut planner = Planner::new(j);
    up_to_source_listing(&mut planner, true);
    planner.step(Event::Catalog(vec![snap("chithi_idbox_old", "A", 10, 0)]));
    planner.step(Event::Clock { hostname: "box".to_string(), date: "now".to_string() });
    planner.step(Event::Done);
    planner.step(Event::Catalog(vec![snap("chithi_idbox_old", "A", 10, 0)]));
    assert_eq!(planner.step(Event::Done), Action::Finish(Outcome::Synced));
}

#[test]
fn a_sync_snapshot_that_the_filters_leave_out_is_not_made() {
    let mut j = with_sync_snapshot();
    j.filter = SnapFilter { exclude_snaps: vec![Pattern::new("^chithi_").unwrap()], include_snaps: vec![] };
    let mut planner = Planner::new(j);
    up_to_source_listing(&mut planner, false);
    planner.step(Event::Catalog(vec![]));
    let clock = Event::Clock { hostname: "box".to_string(), date: "now".to_string() };
    assert_eq!(planner.step(clock), Action::Finish(Outcome::Failed(Failure::NoSnapshots)));
}

#[test]
fn the_second_of_two_runs_finds_the_newest_snapshot_of_the_first() {
    // first run: a new target gets everything up to the new sync snapshot
    let mut planner = Planner::new(with_sync_snapshot());
    up_to_source_listing(&mut planner, false);
    planner.step(Event::Catalog(vec![snap("S1", "A", 10, 0)]));
    let made = planner.step(Event::Clock { hostname: "box".to_string(), date: "day1".to_string() });
    assert_eq!(made, Action::CreateSnapshot("chithi_idbox_day1".to_string()));
    assert_eq!(planner.step(Event::Done), full("pool/src@S1"));
    assert_eq!(
        planner.step(Event::Done),
        incremental(SendFlag::IncrementalAll, "pool/src@S1", "pool/src@chithi_idbox_day1")
    );
    // second run without a new snapshot: both sides hold the same
    let mut planner = Planner::new(job("pool/src", "pool/dst"));
    up_to_source_listing(&mut planner, true);
    let both = vec![snap("S1", "A", 10, 0), snap("chithi_idbox_day1", "N", 50, 1)];
    planner.step(Event::Catalog(both.clone()));
    assert_eq!(
        planner.step(Event::Catalog(both)),
        Action::Finish(Outcome::UpToDate { announce: true })
    );
}

#[test]
fn a_busy_target_refuses_a_send_and_a_dry_run_skips_it() {
    assert_eq!(transfer_step(true, false), TransferStep::Refuse);
    assert_eq!(transfer_step(true, true), TransferStep::Refuse);
    assert_eq!(transfer_step(false, true), TransferStep::Skip);
    assert_eq!(transfer_step(false, false), TransferStep::Run);
    assert_eq!(TransferStep::Refuse.event(), Some(Event::Busy));
    assert_eq!(TransferStep::Skip.event(), Some(Event::Done));
    assert_eq!(TransferStep::Run.event(), None);
}

#[test]
fn a_send_that_was_refused_ends_the_run_as_busy() {
    // the first send to a new target
    let mut planner = Planner::new(job("pool/src", "pool/dst"));
    up_to_source_listing(&mut planner, false);
    let source = vec![snap("S1", "A", 10, 0), snap("S2", "B", 20, 1)];
    assert_eq!(planner.step(Event::Catalog(source)), full("pool/src@S1"));
    assert_eq!(planner.step(Event::Busy), Action::Finish(Outcome::Failed(Failure::Busy)));
    assert!(planner.is_done());

    // a send of the stream
    let mut planner = Planner::new(job("pool/src", "pool/dst"));
    up_to_source_listing(&mut planner, true);
    let source = vec![snap("S1", "A", 10, 0), snap("S2", "B", 20, 1)];
    assert_eq!(planner.step(Event::Catalog(source)), Action::ListSnapshots(Role::Target));
    assert_eq!(
        planner.step(Event::Catalog(vec![snap("S1", "A", 10, 0)])),
        incremental(SendFlag::IncrementalAll, "pool/src@S1", "pool/src@S2")
    );
    assert_eq!(planner.step(Event::Busy), Action::Finish(Outcome::Failed(Failure::Busy)));

    // a resume
    let mut planner = Planner::new(job("pool/src", "pool/dst"));
    assert_eq!(planner.step(Event::Start), Action::ReadSyncProperty);
    assert_eq!(planner.step(Event::Value("-".to_string())), Action::CheckBusy);
    assert_eq!(planner.step(Event::Flag(false)), Action::CheckExists);
    assert_eq!(planner.step(Event::Flag(true)), Action::ReadResumeToken);
    assert!(matches!(planner.step(Event::Value("abc".to_string())), Action::Transfer(_)));
    assert_eq!(planner.step(Event::Busy), Action::Finish(Outcome::Failed(Failure::Busy)));
    assert_eq!(Failure::Busy.to_str(), "target is already in zfs recv");
}

#[test]
fn a_dry_run_goes_through_its_sends_without_running_them() {
    let mut dry = job("pool/src", "pool/dst");
    dry.dry_run = true;
    let mut planner = Planner::new(dry);
    up_to_source_listing(&mut planner, false);
    let source = vec![snap("S1", "A", 10, 0), snap("S2", "B", 20, 1)];
    assert_eq!(planner.step(Event::Catalog(source)), full("pool/src@S1"));
    let answer = transfer_step(false, true).event().expect("nothing is run");
    assert_eq!(
        planner.step(answer),
        incremental(SendFlag::IncrementalAll, "pool/src@S1", "pool/src@S2")
    );
    let answer = transfer_step(false, true).event().expect("nothing is run");
    assert_eq!(planner.step(answer), Action::Finish(Outcome::Synced));
}
