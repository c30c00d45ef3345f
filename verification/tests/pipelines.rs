use chithi::args::{Args, SkippedCommands};
use chithi::bw::Bytes;
use chithi::cmd::{Cmd, CmdTarget, Pipeline};
use chithi::compress::Compress;
use chithi::send_recv_opts::Opts;
use chithi::sync_pipelines::{
    ConnectionType, Enabled, Found, OptionalCommands, Probe, Slot, Slots,
};

fn args() -> Args {
    Args {
        compress: Compress::Lzo,
        identifier: None,
        recursive: false,
        skip_parent: false,
        source_bwlimit: None,
        target_bwlimit: None,
        mbuffer_size: "16M".to_string(),
        pv_options: "-p -t -e -r -b".to_string(),
        no_stream: false,
        no_sync_snap: false,
        keep_sync_snap: false,
        create_bookmark: false,
        syncoid_bookmarks: false,
        prune_formats: vec!["chithi".to_string()],
        use_hold: "false".to_string(),
        no_rollback: false,
        exclude_datasets: vec![],
        exclude_snaps: vec![],
        include_snaps: vec![],
        use_bookmarks: "fallback".to_string(),
        max_bookmarks: None,
        send_options: Opts::default(),
        recv_options: Opts::default(),
        ssh_cipher: None,
        ssh_port: None,
        ssh_config: None,
        ssh_identity: None,
        ssh_options: vec![],
        debug: false,
        quiet: false,
        dump_snaps: false,
        no_command_checks: false,
        skip_optional_commands: SkippedCommands::none(),
        dry_run: false,
        no_resume: false,
        no_clone_handling: false,
        no_privilege_elevation: false,
        source_host: None,
        target_host: None,
        force_delete: false,
        no_recv_check_start: false,
        max_delay_seconds: None,
        source: "pool/src".to_string(),
        target: "pool/dst".to_string(),
    }
}

fn strings(items: &[&str]) -> Vec<String> {
    items.iter().map(|s| s.to_string()).collect()
}

fn nothing_enabled() -> Enabled {
    Enabled {
        source_pv: false,
        local_pv: false,
        target_pv: false,
        compress: false,
        local_compress: false,
        source_mbuffer: false,
        local_mbuffer: false,
        target_mbuffer: false,
    }
}

fn no_slots() -> Slots {
    Slots {
        source_pv: false,
        target_pv: false,
        local_pv: false,
        source_compress: false,
        target_compress: false,
        local_compress: false,
        local_decompress: false,
        source_mbuffer: false,
        target_mbuffer: false,
        local_source_mbuffer: false,
        local_target_mbuffer: false,
    }
}

#[test]
fn kinds_of_connection() {
    let options = vec![];
    let local = CmdTarget::new_local();
    let a = CmdTarget::new(Some("a"), None, None, None, None, &options);
    let b = CmdTarget::new(Some("b"), None, None, None, None, &options);
    let args = args();
    assert_eq!(ConnectionType::new(&local, &local, &args), ConnectionType::Local);
    assert_eq!(ConnectionType::new(&local, &b, &args), ConnectionType::Push);
    assert_eq!(ConnectionType::new(&a, &local, &args), ConnectionType::Pull);
    assert_eq!(ConnectionType::new(&a, &b, &args), ConnectionType::RemoteIndirect);
    assert!(!args.direct_connection());
}

#[test]
fn what_is_wanted_locally() {
    let args = args();
    assert_eq!(
        ConnectionType::Local.get_relevant_enabled(&args, true),
        Enabled { local_pv: true, local_mbuffer: true, ..nothing_enabled() }
    );
    // no progress meter without a terminal or when quiet
    assert_eq!(
        ConnectionType::Local.get_relevant_enabled(&args, false),
        Enabled { local_mbuffer: true, ..nothing_enabled() }
    );
    let mut quiet = self::args();
    quiet.quiet = true;
    assert_eq!(
        ConnectionType::Local.get_relevant_enabled(&quiet, true),
        Enabled { local_mbuffer: true, ..nothing_enabled() }
    );
    let mut skipping = self::args();
    skipping.skip_optional_commands = Args::get_commands_to_skip("localpv,localmbuffer").unwrap();
    assert_eq!(ConnectionType::Local.get_relevant_enabled(&skipping, true), nothing_enabled());
}

#[test]
fn what_is_wanted_for_a_push_and_a_pull() {
    let args = args();
    assert_eq!(
        ConnectionType::Push.get_relevant_enabled(&args, true),
        Enabled {
            local_pv: true,
            local_mbuffer: true,
            compress: true,
            local_compress: true,
            target_mbuffer: true,
            ..nothing_enabled()
        }
    );
    // a pull shows its progress even without a terminal
    assert_eq!(
        ConnectionType::Pull.get_relevant_enabled(&args, false),
        Enabled {
            local_pv: true,
            local_mbuffer: true,
            compress: true,
            local_compress: true,
            source_mbuffer: true,
            ..nothing_enabled()
        }
    );
    let mut uncompressed = self::args();
    uncompressed.compress = Compress::Off;
    assert!(!ConnectionType::Push.get_relevant_enabled(&uncompressed, true).compress);
    for token in ["compress", "localcompress"] {
        let mut skipping = self::args();
        skipping.skip_optional_commands = Args::get_commands_to_skip(token).unwrap();
        let enabled = ConnectionType::Push.get_relevant_enabled(&skipping, true);
        assert!(!enabled.compress && !enabled.local_compress);
        let enabled = ConnectionType::Pull.get_relevant_enabled(&skipping, true);
        assert!(!enabled.compress && !enabled.local_compress);
    }
}

#[test]
fn what_is_wanted_between_remote_hosts() {
    let args = args();
    assert_eq!(
        ConnectionType::RemoteDirect.get_relevant_enabled(&args, true),
        Enabled {
            source_pv: true,
            target_pv: true,
            compress: true,
            source_mbuffer: true,
            target_mbuffer: true,
            ..nothing_enabled()
        }
    );
    assert_eq!(
        ConnectionType::RemoteIndirect.get_relevant_enabled(&args, true),
        Enabled {
            source_pv: true,
            local_pv: true,
            target_pv: false,
            compress: true,
            local_compress: true,
            source_mbuffer: true,
            local_mbuffer: true,
            target_mbuffer: true,
        }
    );
    // compressed data is not unpacked locally just to count it when that is switched off
    let mut skipping = self::args();
    skipping.skip_optional_commands = Args::get_commands_to_skip("localcompress").unwrap();
    let enabled = ConnectionType::RemoteIndirect.get_relevant_enabled(&skipping, true);
    assert!(enabled.compress && !enabled.local_compress && !enabled.local_pv && enabled.source_pv);
    let mut uncompressed = self::args();
    uncompressed.compress = Compress::Off;
    let enabled = ConnectionType::RemoteIndirect.get_relevant_enabled(&uncompressed, true);
    assert!(!enabled.compress && !enabled.local_compress && enabled.local_pv);
}

#[test]
fn which_tests_are_asked_for() {
    let args = args();
    let all = [
        Probe::SourcePv,
        Probe::LocalPv,
        Probe::TargetPv,
        Probe::SourceCompress,
        Probe::LocalCompress,
        Probe::LocalDecompress,
        Probe::TargetDecompress,
        Probe::SourceMbuffer,
        Probe::LocalMbuffer,
        Probe::TargetMbuffer,
    ];
    let asked = |conn: ConnectionType| -> Vec<Probe> {
        let enabled = conn.get_relevant_enabled(&args, true);
        all.iter().copied().filter(|p| conn.asks(&enabled, *p)).collect()
    };
    assert_eq!(asked(ConnectionType::Local), vec![Probe::LocalPv, Probe::LocalMbuffer]);
    assert_eq!(
        asked(ConnectionType::Push),
        vec![
            Probe::LocalPv,
            Probe::LocalCompress,
            Probe::TargetDecompress,
            Probe::LocalMbuffer,
            Probe::TargetMbuffer,
        ]
    );
    assert_eq!(
        asked(ConnectionType::Pull),
        vec![
            Probe::LocalPv,
            Probe::SourceCompress,
            Probe::LocalDecompress,
            Probe::SourceMbuffer,
            Probe::LocalMbuffer,
        ]
    );
    assert_eq!(
        asked(ConnectionType::RemoteIndirect),
        vec![
            Probe::SourcePv,
            Probe::LocalPv,
            Probe::SourceCompress,
            Probe::LocalCompress,
            Probe::LocalDecompress,
            Probe::TargetDecompress,
            Probe::SourceMbuffer,
            Probe::LocalMbuffer,
            Probe::TargetMbuffer,
        ]
    );
}

#[test]
fn findings_are_recorded() {
    let mut found = Found::all(false);
    found.record(Probe::LocalPv, true);
    found.record(Probe::TargetDecompress, true);
    assert_eq!(found, Found { local_pv: true, target_decompress: true, ..Found::all(false) });
    found.record(Probe::LocalPv, false);
    assert_eq!(found, Found { target_decompress: true, ..Found::all(false) });
}

fn stages(pipeline: &Pipeline) -> Vec<String> {
    pipeline.cmds().iter().map(|c| c.to_string()).collect()
}

fn send_and_recv() -> (Cmd<'static>, Cmd<'static>) {
    let none = Opts::try_from_str("").unwrap();
    let send = chithi::plan::Send::full("pool/src", "S1");
    (
        chithi::zfs_cmd::send_cmd(&none, &send, true),
        chithi::zfs_cmd::recv_cmd(&none, "pool/dst", true, true, true),
    )
}

#[test]
fn local_pipeline() {
    let local = CmdTarget::new_local();
    let args = args();
    let (commands, warnings) =
        OptionalCommands::new(&local, &local, &local, &args, true, &Found::all(true));
    assert!(warnings.is_empty());
    assert_eq!(commands.conn_type, ConnectionType::Local);
    assert_eq!(commands.slots, Slots { source_pv: true, source_mbuffer: true, ..no_slots() });
    let (send, recv) = send_and_recv();
    let (source, local_part, target) = commands.build_sync_pipelines(send, recv, "4096");
    assert!(local_part.is_none() && target.is_none());
    assert_eq!(
        stages(&source),
        vec![
            "zfs send pool/src@S1",
            "pv -p -t -e -r -b -s 4096",
            "mbuffer -q -s 128k -m 16M",
            "zfs receive pool/dst",
        ]
    );
    assert_eq!(
        source.to_cmd(),
        vec![
            "sh",
            "-c",
            "--",
            "zfs send pool/src@S1 | pv -p -t -e -r -b -s 4096 | mbuffer -q -s 128k -m 16M | zfs receive pool/dst",
        ]
    );
    // a size of zero is not handed to the progress meter
    let (send, recv) = send_and_recv();
    let (source, _, _) = commands.build_sync_pipelines(send, recv, "0");
    assert_eq!(stages(&source)[1], "pv -p -t -e -r -b");
    assert_eq!(commands.get_pv(Slot::SourcePv, "0").unwrap().to_string(), "pv -p -t -e -r -b");
    assert!(commands.get_pv(Slot::TargetPv, "1").is_none());
    assert!(commands.get(Slot::SourceCompress).is_none());
}

#[test]
fn local_pipeline_without_helpers() {
    let local = CmdTarget::new_local();
    let args = args();
    let (commands, warnings) =
        OptionalCommands::new(&local, &local, &local, &args, true, &Found::all(false));
    assert_eq!(
        warnings,
        vec![
            "pv not available on local machine - sync will continue without progress bar - to disable this warning use --skip-optional-commands 'localpv'",
            "mbuffer not available on local machine - sync will continue without buffering and bandwith limits - to disable this warning use --skip-optional-commands 'localmbuffer'",
        ]
    );
    assert_eq!(commands.slots, no_slots());
    let (send, recv) = send_and_recv();
    let (source, _, _) = commands.build_sync_pipelines(send, recv, "4096");
    assert_eq!(stages(&source), vec!["zfs send pool/src@S1", "zfs receive pool/dst"]);
}

#[test]
fn no_tests_means_that_everything_exists() {
    let local = CmdTarget::new_local();
    let mut args = args();
    args.no_command_checks = true;
    let (commands, warnings) =
        OptionalCommands::new(&local, &local, &local, &args, true, &Found::all(false));
    assert!(warnings.is_empty());
    assert_eq!(commands.slots, Slots { source_pv: true, source_mbuffer: true, ..no_slots() });
}

#[test]
fn push_pipelines() {
    let options = vec![];
    let local = CmdTarget::new_local();
    let remote = CmdTarget::new(Some("user@far"), None, None, None, None, &options);
    let mut args = args();
    args.source_bwlimit = Some(Bytes::try_from_str("10m").unwrap());
    args.target_bwlimit = Some(Bytes::try_from_str("512").unwrap());
    let (commands, warnings) =
        OptionalCommands::new(&local, &remote, &local, &args, true, &Found::all(true));
    assert!(warnings.is_empty());
    let (send, recv) = send_and_recv();
    let (source, local_part, target) = commands.build_sync_pipelines(send, recv, "5000");
    assert!(local_part.is_none());
    assert_eq!(
        stages(&source),
        vec![
            "zfs send pool/src@S1",
            "pv -p -t -e -r -b -s 5000",
            "lzop",
            "mbuffer -q -s 128k -m 16M -R 10M",
        ]
    );
    assert!(!source.is_remote());
    let target = target.unwrap();
    assert_eq!(
        stages(&target),
        vec!["lzop -dfc", "mbuffer -q -s 128k -m 16M -r 512", "zfs receive pool/dst"]
    );
    assert!(target.is_remote());
    assert!(!target.uses_terminal());
    assert_eq!(
        target.to_cmd(),
        vec![
            "ssh", "user@far", "lzop -dfc", "|", "mbuffer -q -s 128k -m 16M -r 512", "|",
            "zfs receive pool/dst",
        ]
    );
}

#[test]
fn compression_needs_both_ends() {
    let options = vec![];
    let local = CmdTarget::new_local();
    let remote = CmdTarget::new(Some("far"), None, None, None, None, &options);
    let args = args();
    let found = Found { target_decompress: false, ..Found::all(true) };
    let (commands, warnings) = OptionalCommands::new(&local, &remote, &local, &args, false, &found);
    assert_eq!(
        warnings,
        vec!["lzop not available on far - sync will continue without compression - to disable this warning use --skip-optional-commands 'compress'"]
    );
    assert!(!commands.slots.source_compress && !commands.slots.target_compress);
    let found = Found { local_compress: false, target_decompress: false, ..Found::all(true) };
    let (_, warnings) = OptionalCommands::new(&local, &remote, &local, &args, false, &found);
    assert_eq!(
        warnings,
        vec!["lzop not available on local machine - sync will continue without compression - to disable this warning use --skip-optional-commands 'localcompress'"]
    );
    let (send, recv) = send_and_recv();
    let (source, _, target) = commands.build_sync_pipelines(send, recv, "5000");
    assert_eq!(stages(&source), vec!["zfs send pool/src@S1", "mbuffer -q -s 128k -m 16M"]);
    assert_eq!(
        stages(&target.unwrap()),
        vec!["mbuffer -q -s 128k -m 16M", "zfs receive pool/dst"]
    );
}

#[test]
fn pull_pipelines() {
    let options = vec![];
    let local = CmdTarget::new_local();
    let remote = CmdTarget::new(Some("far"), None, None, None, None, &options);
    let mut args = args();
    args.compress = Compress::Gzip;
    let (commands, warnings) =
        OptionalCommands::new(&remote, &local, &local, &args, true, &Found::all(true));
    assert!(warnings.is_empty());
    let (send, recv) = send_and_recv();
    let (source, local_part, target) = commands.build_sync_pipelines(send, recv, "5000");
    assert!(local_part.is_none());
    assert_eq!(
        stages(&source),
        vec!["zfs send pool/src@S1", "gzip -3", "mbuffer -q -s 128k -m 16M"]
    );
    assert!(source.is_remote() && !source.uses_terminal());
    let target = target.unwrap();
    assert_eq!(
        stages(&target),
        vec![
            "zcat",
            "mbuffer -q -s 128k -m 16M",
            "pv -p -t -e -r -b -s 5000",
            "zfs receive pool/dst",
        ]
    );
    assert!(target.uses_terminal());
}

#[test]
fn pipelines_through_the_local_machine() {
    let options = vec![];
    let local = CmdTarget::new_local();
    let near = CmdTarget::new(Some("near"), None, None, None, None, &options);
    let far = CmdTarget::new(Some("far"), None, None, None, None, &options);
    let mut args = args();
    args.compress = Compress::ZstdFast;
    let (commands, warnings) =
        OptionalCommands::new(&near, &far, &local, &args, true, &Found::all(true));
    assert!(warnings.is_empty());
    assert_eq!(commands.conn_type, ConnectionType::RemoteIndirect);
    let (send, recv) = send_and_recv();
    let (source, local_part, target) = commands.build_sync_pipelines(send, recv, "5000");
    // the progress meter runs locally, so not at the source
    assert_eq!(
        stages(&source),
        vec!["zfs send pool/src@S1", "zstd -3", "mbuffer -q -s 128k -m 16M"]
    );
    assert!(!source.uses_terminal());
    assert_eq!(
        stages(&local_part.unwrap()),
        vec![
            "mbuffer -q -s 128k -m 16M",
            "zstd -dc",
            "pv -p -t -e -r -b -s 5000",
            "zstd -3",
            "mbuffer -q -s 128k -m 16M",
        ]
    );
    assert_eq!(
        stages(&target.unwrap()),
        vec!["zstd -dc", "mbuffer -q -s 128k -m 16M", "zfs receive pool/dst"]
    );
}

#[test]
fn without_a_local_progress_meter_the_source_shows_it() {
    let options = vec![];
    let local = CmdTarget::new_local();
    let near = CmdTarget::new(Some("near"), None, None, None, None, &options);
    let far = CmdTarget::new(Some("far"), None, None, None, None, &options);
    let args = args();
    let found = Found { local_pv: false, local_mbuffer: false, ..Found::all(true) };
    let (commands, warnings) = OptionalCommands::new(&near, &far, &local, &args, true, &found);
    assert_eq!(
        warnings,
        vec!["pv not available on local machine - sync will continue without progress bar - to disable this warning use --skip-optional-commands 'localpv'"]
    );
    let (send, recv) = send_and_recv();
    let (source, local_part, _) = commands.build_sync_pipelines(send, recv, "5000");
    assert!(local_part.is_none());
    assert_eq!(
        stages(&source),
        vec![
            "zfs send pool/src@S1",
            "pv -p -t -e -r -b -s 5000",
            "lzop",
            "mbuffer -q -s 128k -m 16M",
        ]
    );
    assert!(source.uses_terminal());
    assert_eq!(
        source.to_cmd(),
        vec![
            "ssh", "-t", "-o", "LogLevel=QUIET", "near", "zfs send pool/src@S1", "|",
            "pv -p -t -e -r -b -s 5000", "|", "lzop", "|", "mbuffer -q -s 128k -m 16M",
        ]
    );
    // nothing exists anywhere
    let (commands, warnings) =
        OptionalCommands::new(&near, &far, &local, &args, true, &Found::all(false));
    assert_eq!(commands.slots, no_slots());
    assert_eq!(
        warnings,
        vec![
            "lzop not available on near - sync will continue without compression - to disable this warning use --skip-optional-commands 'compress'",
            "pv not available on local machine - sync will continue without progress bar - to disable this warning use --skip-optional-commands 'localpv'",
            "pv not available on near - sync will continue without progress bar - to disable this warning use --skip-optional-commands 'sourcepv'",
            "mbuffer not available on near - sync will continue without buffering and bandwith limits - to disable this warning use --skip-optional-commands 'sourcembuffer'",
            "mbuffer not available on far - sync will continue without buffering and write limits - to disable this warning use --skip-optional-commands 'targetmbuffer'",
        ]
    );
}

#[test]
fn a_missing_local_decompressor_counts_against_the_local_progress_meter() {
    let options = vec![];
    let local = CmdTarget::new_local();
    let near = CmdTarget::new(Some("near"), None, None, None, None, &options);
    let far = CmdTarget::new(Some("far"), None, None, None, None, &options);
    let mut args = args();
    args.compress = Compress::Gzip;
    let found = Found { local_decompress: false, ..Found::all(true) };
    let (commands, warnings) = OptionalCommands::new(&near, &far, &local, &args, true, &found);
    assert_eq!(
        warnings,
        vec!["zcat not available on local machine - sync will continue without progress bar - to disable this warning use --skip-optional-commands 'localcompress'"]
    );
    assert!(commands.slots.source_pv && !commands.slots.local_pv && !commands.slots.local_compress);
    assert!(!commands.slots.local_source_mbuffer && !commands.slots.local_target_mbuffer);
}

#[test]
fn warnings_are_texts() {
    assert_eq!(
        OptionalCommands::not_avail_warn("pv", "a and b", "progress bar", "sourcepv,targetpv"),
        "pv not available on a and b - sync will continue without progress bar - to disable this warning use --skip-optional-commands 'sourcepv,targetpv'"
    );
    let options = vec![];
    let far = CmdTarget::new(Some("far"), None, None, None, None, &options);
    let cmd = Cmd::new(&far, false, "mbuffer", strings(&["-q"]));
    assert_eq!(
        OptionalCommands::sync_warn(&cmd, "buffering", "targetmbuffer"),
        "mbuffer not available on far - sync will continue without buffering - to disable this warning use --skip-optional-commands 'targetmbuffer'"
    );
}

#[test]
fn buffer_arguments() {
    let mut args = args();
    assert_eq!(args.get_source_mbuffer_args(), vec!["-q", "-s", "128k", "-m", "16M"]);
    assert_eq!(args.get_target_mbuffer_args(), vec!["-q", "-s", "128k", "-m", "16M"]);
    args.mbuffer_size = "1G".to_string();
    args.source_bwlimit = Some(Bytes::try_from_str("5k").unwrap());
    args.target_bwlimit = Some(Bytes::try_from_str("7").unwrap());
    assert_eq!(args.get_source_mbuffer_args(), vec!["-q", "-s", "128k", "-m", "1G", "-R", "5K"]);
    assert_eq!(args.get_target_mbuffer_args(), vec!["-q", "-s", "128k", "-m", "1G", "-r", "7"]);
    assert!(args.clone_handling() && args.recv_check_start());
    args.no_clone_handling = true;
    args.no_recv_check_start = true;
    assert!(!args.clone_handling() && !args.recv_check_start());
}
