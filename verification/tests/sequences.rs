use chithi::cmd::{Cmd, CmdTarget};
use chithi::compress::Compress;
use chithi::sequence::{prune_sequence, Sequence};
use chithi::sync_pipelines::{needed_probes, ConnectionType, Enabled, Hop, Probe};

fn strings(items: &[&str]) -> Vec<String> {
    items.iter().map(|s| s.to_string()).collect()
}

#[test]
fn no_sequence_without_commands() {
    let local = CmdTarget::new_local();
    assert!(Sequence::from(&local, vec![]).is_none());
    let zfs = Cmd::new(&local, false, "zfs", vec![]);
    assert!(prune_sequence(&zfs, &vec![]).is_none());
}

#[test]
fn a_sequence_of_one_local_command_runs_it_directly() {
    let local = CmdTarget::new_local();
    let zfs = Cmd::new(&local, true, "zfs", vec![]);
    let sequence = prune_sequence(&zfs, &strings(&["pool/fs@old one"])).unwrap();
    assert_eq!(sequence.len(), 1);
    assert_eq!(sequence.to_cmd(), vec!["sudo", "zfs", "destroy", "pool/fs@old one"]);
    assert_eq!(sequence.to_string(), "sudo zfs destroy 'pool/fs@old one'");
}

#[test]
fn a_local_sequence_is_a_script_for_sh() {
    let local = CmdTarget::new_local();
    let zfs = Cmd::new(&local, false, "zfs", vec![]);
    let names = strings(&["pool/fs@a", "pool/fs@it's", "pool/fs@c"]);
    let sequence = prune_sequence(&zfs, &names).unwrap();
    assert_eq!(sequence.len(), 3);
    assert_eq!(
        sequence.to_cmd(),
        vec![
            "sh",
            "-c",
            "--",
            "zfs destroy pool/fs@a; zfs destroy 'pool/fs@it'\\''s'; zfs destroy pool/fs@c"
        ]
    );
    assert_eq!(
        sequence.to_string(),
        "zfs destroy pool/fs@a; zfs destroy 'pool/fs@it'\\''s'; zfs destroy pool/fs@c"
    );
}

#[test]
fn a_remote_sequence_is_handed_to_ssh() {
    let options = strings(&["Compression=no"]);
    let mut target = CmdTarget::new(Some("user@host"), None, None, None, Some("22"), &options);
    target.set_control(Some("/tmp/socket"));
    let zfs = Cmd::new(&target, true, "zfs", vec![]);
    let sequence = prune_sequence(&zfs, &strings(&["pool/fs@a", "pool/fs@b c"])).unwrap();
    assert_eq!(
        sequence.to_cmd(),
        vec![
            "ssh",
            "-S",
            "/tmp/socket",
            "-o",
            "Compression=no",
            "user@host",
            "sudo zfs destroy pool/fs@a",
            ";",
            "sudo zfs destroy 'pool/fs@b c'"
        ]
    );
    let shown = sequence.to_string();
    assert!(shown.starts_with("ssh "), "{shown}");
    assert!(
        shown.ends_with("user@host sudo zfs destroy pool/fs@a; sudo zfs destroy 'pool/fs@b c'"),
        "{shown}"
    );
}

#[test]
fn a_sequence_keeps_the_order_of_its_commands() {
    let local = CmdTarget::new_local();
    let first = Cmd::new(&local, false, "true", vec![]);
    let second = Cmd::new(&local, false, "echo", strings(&["a", "b"]));
    let sequence = Sequence::from(&local, vec![first, second]).unwrap();
    assert_eq!(sequence.len(), 2);
    assert_eq!(sequence.to_cmd(), vec!["sh", "-c", "--", "true; echo a b"]);
}

#[test]
fn each_test_has_its_host_and_its_program() {
    let programs = Compress::Gzip.to_cmd();
    let none = Compress::Off.to_cmd();
    assert_eq!(Probe::SourcePv.hop(), Hop::Source);
    assert_eq!(Probe::SourceCompress.hop(), Hop::Source);
    assert_eq!(Probe::SourceMbuffer.hop(), Hop::Source);
    assert_eq!(Probe::LocalPv.hop(), Hop::Local);
    assert_eq!(Probe::LocalCompress.hop(), Hop::Local);
    assert_eq!(Probe::LocalDecompress.hop(), Hop::Local);
    assert_eq!(Probe::LocalMbuffer.hop(), Hop::Local);
    assert_eq!(Probe::TargetPv.hop(), Hop::Target);
    assert_eq!(Probe::TargetDecompress.hop(), Hop::Target);
    assert_eq!(Probe::TargetMbuffer.hop(), Hop::Target);
    assert_eq!(Probe::LocalPv.program(&programs), Some("pv"));
    assert_eq!(Probe::TargetMbuffer.program(&none), Some("mbuffer"));
    assert_eq!(Probe::SourceCompress.program(&programs), Some("gzip"));
    assert_eq!(Probe::LocalCompress.program(&programs), Some("gzip"));
    assert_eq!(Probe::LocalDecompress.program(&programs), Some("zcat"));
    assert_eq!(Probe::TargetDecompress.program(&programs), Some("zcat"));
    assert_eq!(Probe::SourceCompress.program(&none), None);
    assert_eq!(Probe::TargetDecompress.program(&none), None);
}

#[test]
fn only_what_the_connection_uses_is_tested() {
    let everything = Enabled {
        source_pv: true,
        local_pv: true,
        target_pv: true,
        compress: true,
        local_compress: true,
        source_mbuffer: true,
        local_mbuffer: true,
        target_mbuffer: true,
    };
    let mut local = needed_probes(ConnectionType::Local, &everything);
    local.sort_by_key(|p| format!("{p:?}"));
    assert_eq!(local, vec![Probe::LocalMbuffer, Probe::LocalPv]);
    let mut direct = needed_probes(ConnectionType::RemoteDirect, &everything);
    direct.sort_by_key(|p| format!("{p:?}"));
    assert_eq!(
        direct,
        vec![
            Probe::SourceCompress,
            Probe::SourceMbuffer,
            Probe::SourcePv,
            Probe::TargetDecompress,
            Probe::TargetMbuffer,
            Probe::TargetPv,
        ]
    );
    let nothing = Enabled {
        source_pv: false,
        local_pv: false,
        target_pv: false,
        compress: false,
        local_compress: false,
        source_mbuffer: false,
        local_mbuffer: false,
        target_mbuffer: false,
    };
    for conn in [
        ConnectionType::Local,
        ConnectionType::Push,
        ConnectionType::Pull,
        ConnectionType::RemoteDirect,
        ConnectionType::RemoteIndirect,
    ] {
        assert!(needed_probes(conn, &nothing).is_empty());
    }
}
