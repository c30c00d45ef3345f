use chithi::fs::{Fs, Role};
use chithi::pattern::Pattern;
use chithi::plan::{plan_stream, prune_names, sync_snap_name, Send, SendFlag};
use chithi::send_recv_opts::Opts;
use chithi::sys::{format_syncoid_date, get_syncoid_date, LocalTime};
use chithi::walker::{
    get_child_datasets, is_zfs_busy, is_zfs_busy_for, line_is_receive, sync_order, zfs_recv_pattern,
};
use chithi::zfs::{Creation, IntermediateSource, Snapshot};
use chithi::zfs_cmd::{
    get_resume_token, get_send_size_args, get_value_args, list_args, parse_send_size, prune_batches,
    read_target_exists, read_zfs_value, recv_cmd, send_cmd, Existence, ValueError,
};

fn snap(name: &str, guid: &str, creation: u64, idx: usize) -> Snapshot<String> {
    Snapshot::new(name.to_string(), guid.to_string(), Creation::fake_new(creation, idx))
}

fn strings(items: &[&str]) -> Vec<String> {
    items.iter().map(|s| s.to_string()).collect()
}

#[test]
fn dates_of_sync_snapshots() {
    let t = LocalTime { year: 2024, month: 3, day: 2, hour: 1, minute: 2, second: 3, offset: 3600 };
    assert_eq!(format_syncoid_date(&t), "2024-03-02:01:02:03-GMT01:00");
    let t = LocalTime { year: 2024, month: 12, day: 31, hour: 23, minute: 59, second: 59, offset: 0 };
    assert_eq!(format_syncoid_date(&t), "2024-12-31:23:59:59-GMT00:00");
    // to the west the offset is negative; half hours exist
    let t = LocalTime { offset: -12600, ..t };
    assert_eq!(format_syncoid_date(&t), "2024-12-31:23:59:59-GMT-03:30");
    let t = LocalTime { offset: 20700, ..t };
    assert_eq!(format_syncoid_date(&t), "2024-12-31:23:59:59-GMT05:45");
    let t = LocalTime { offset: -59, year: 987, ..t };
    assert_eq!(format_syncoid_date(&t), "0987-12-31:23:59:59-GMT-00:00");
    let t = LocalTime { year: -5, offset: 86399, ..t };
    assert_eq!(format_syncoid_date(&t), "-005-12-31:23:59:59-GMT23:59");
    let t = LocalTime { year: 12345, offset: -86399, ..t };
    assert_eq!(format_syncoid_date(&t), "12345-12-31:23:59:59-GMT-23:59");
}

#[test]
fn the_date_of_now_has_the_shape() {
    let date = get_syncoid_date();
    let (day, rest) = date.split_once(':').expect("date and time");
    let parts: Vec<&str> = day.split('-').collect();
    assert_eq!(parts.len(), 3, "{date}");
    assert!(parts[0].len() >= 4 && parts[1].len() == 2 && parts[2].len() == 2);
    let month: u32 = parts[1].parse().unwrap();
    assert!((1..=12).contains(&month));
    let (time, zone) = rest.split_once("-GMT").expect("zone");
    assert_eq!(time.len(), 8);
    let zone = zone.strip_prefix('-').unwrap_or(zone);
    assert_eq!(zone.len(), 5);
    assert_eq!(&zone[2..3], ":");
    assert!(!date.contains('+'));
}

#[test]
fn names_of_sync_snapshots() {
    assert_eq!(
        sync_snap_name(&Some("extra".to_string()), "box", "2024-03-02:01:02:03-GMT01:00"),
        "chithi_extrabox_2024-03-02:01:02:03-GMT01:00"
    );
    assert_eq!(sync_snap_name(&None, "box", "d"), "chithi_box_d");
}

#[test]
fn values_of_properties() {
    assert_eq!(
        read_zfs_value(true, Some("pool/fs\tsyncoid:sync\ttrue\tlocal\n"), ""),
        Ok("true".to_string())
    );
    assert_eq!(read_zfs_value(true, Some("  a\tb\t\td\n"), ""), Ok(String::new()));
    assert_eq!(read_zfs_value(true, Some("a\tb\tc"), "some warning"), Ok("c".to_string()));
    assert_eq!(read_zfs_value(true, Some("a\tb\t \n"), ""), Err(ValueError::TooFewFields));
    assert_eq!(read_zfs_value(true, Some("a\tb"), ""), Err(ValueError::TooFewFields));
    assert_eq!(read_zfs_value(true, Some(""), ""), Err(ValueError::TooFewFields));
    assert_eq!(read_zfs_value(true, None, ""), Err(ValueError::NotText));
    assert_eq!(read_zfs_value(false, Some("a\tb\tc"), "permission denied"), Err(ValueError::Failed));
    // that the dataset does not exist counts first, whatever else there is
    let missing = "cannot open 'pool/fs': dataset does not exist\n";
    assert_eq!(read_zfs_value(false, None, missing), Err(ValueError::NotFound));
    assert_eq!(read_zfs_value(true, Some("a\tb\tc"), missing), Err(ValueError::NotFound));
    assert_eq!(ValueError::NotFound.to_str(), "dataset does not exist");
    assert_eq!(ValueError::Failed.to_str(), "failed to get zfs property");
    assert_eq!(ValueError::NotText.to_str(), "could not parse output of zfs get");
    assert_eq!(
        ValueError::TooFewFields.to_str(),
        "expected zfs get to return at least three fields"
    );
}

#[test]
fn existence_of_the_target() {
    let out = "pool/dst\tname\tpool/dst\t-\n";
    assert_eq!(
        read_target_exists(true, out, "", "pool/dst"),
        Ok(Existence { exists: true, exact: true })
    );
    // a name that only starts the output counts as existing, but is marked
    assert_eq!(
        read_target_exists(true, out, "", "pool/d"),
        Ok(Existence { exists: true, exact: false })
    );
    assert_eq!(
        read_target_exists(true, out, "", "pool/other"),
        Ok(Existence { exists: false, exact: false })
    );
    assert_eq!(
        read_target_exists(true, "", "", "pool/dst"),
        Ok(Existence { exists: false, exact: false })
    );
    assert_eq!(
        read_target_exists(false, out, "cannot open 'pool/dst': dataset does not exist", "pool/dst"),
        Ok(Existence { exists: false, exact: false })
    );
    assert_eq!(
        read_target_exists(false, out, "permission denied", "pool/dst"),
        Err(ValueError::Failed)
    );
}

#[test]
fn resume_tokens() {
    assert_eq!(get_resume_token("1-abc-def".to_string()), Some("1-abc-def".to_string()));
    assert_eq!(get_resume_token("-".to_string()), None);
    assert_eq!(get_resume_token(String::new()), None);
    assert_eq!(get_resume_token("--".to_string()), Some("--".to_string()));
}

#[test]
fn estimated_sizes() {
    assert_eq!(parse_send_size("full\tpool/src@S1\t123456\nsize\t123456\n"), 123456);
    assert_eq!(parse_send_size("size\t4096"), 4096);
    assert_eq!(parse_send_size("size\t4097\n\n  "), 4097);
    // small sizes are raised so that the progress meter has something to show
    assert_eq!(parse_send_size("size\t4095"), 4096);
    assert_eq!(parse_send_size("size\t0"), 4096);
    assert_eq!(parse_send_size("12"), 4096);
    assert_eq!(parse_send_size("total estimated size is 1234567"), 1234567);
    assert_eq!(parse_send_size("size 77777B"), 77777);
    assert_eq!(parse_send_size("a\r\nsize\t99999\r\n"), 99999);
    assert_eq!(parse_send_size("18446744073709551615"), u64::MAX);
    // one character after the number is passed over
    assert_eq!(parse_send_size("1.5G"), 4096);
    // no number at the end: unknown
    for unknown in ["", "   \n", "size", "size\t12xy", "x", "size\t18446744073709551616", "12 \tx"] {
        assert_eq!(parse_send_size(unknown), 0, "for {unknown:?}");
    }
    assert_eq!(parse_send_size("size\t5000\nwarning"), 0);
}

#[test]
fn estimated_sizes_agree_with_the_standard_library() {
    fn by_std(output: &str) -> u64 {
        output
            .trim()
            .lines()
            .last()
            .and_then(|l| l.rsplit_terminator(|c: char| !c.is_ascii_digit()).next())
            .map(str::trim)
            .and_then(|s| s.parse::<u64>().ok())
            .map(|n| if n < 4096 { 4096 } else { n })
            .unwrap_or_default()
    }
    for output in [
        "", "5", "size\t123456\n", "x", "12x", "12x3y", "abc 12xy", "size\t1\nsize\t2", "1\n\n",
        "12 ", "12\t", "  12", "a1b22c333", "+5", "-5", "９９", "99\u{a0}", "5\r", "5\r\n6\r", "\n",
        "7\n8x\n", "99999999999999999999", "1 2", "ö5", "5ö", "5öö",
    ] {
        assert_eq!(parse_send_size(output), by_std(output), "for {output:?}");
    }
}

#[test]
fn send_options_are_filtered_by_the_kind_of_send() {
    let options = Opts::try_from_str("LPVRbcehpsvwd X a/b o a=b").unwrap();
    let full = Send::full("pool/src", "S1");
    assert_eq!(
        send_cmd(&options, &full, true).to_cmd(),
        strings(&[
            "zfs", "send", "-L", "-P", "-V", "-R", "-b", "-c", "-e", "-h", "-p", "-s", "-v", "-w",
            "-X a/b", "pool/src@S1",
        ])
    );
    let resume = Send::resume("token");
    assert_eq!(
        send_cmd(&options, &resume, false).to_cmd(),
        strings(&["sudo", "zfs", "send", "-P", "-V", "-e", "-v", "-t", "token"])
    );
    let from_bookmark = Send::step("pool/src", true, "mark", "S2");
    assert_eq!(
        send_cmd(&options, &from_bookmark, true).to_cmd(),
        strings(&["zfs", "send", "-L", "-V", "-c", "-e", "-w", "-i", "pool/src#mark", "pool/src@S2"])
    );
    let range = Send::range("pool/src", "S1", "S2");
    assert_eq!(range.flag, Some(SendFlag::IncrementalAll));
    assert_eq!(
        send_cmd(&Opts::default(), &range, true).to_cmd(),
        strings(&["zfs", "send", "-I", "pool/src@S1", "pool/src@S2"])
    );
    // estimating a size
    assert_eq!(
        get_send_size_args(&options, &full),
        strings(&[
            "send", "-L", "-V", "-R", "-b", "-c", "-e", "-h", "-p", "-s", "-w", "-X a/b", "-nvP",
            "pool/src@S1",
        ])
    );
    assert_eq!(
        get_send_size_args(&options, &resume),
        strings(&["send", "-V", "-e", "-nvP", "-t", "token"])
    );
    assert_eq!(
        get_send_size_args(&options, &from_bookmark),
        strings(&[
            "send", "-L", "-V", "-R", "-b", "-c", "-e", "-h", "-p", "-s", "-w", "-X a/b", "-nvP", "-i",
            "pool/src#mark", "pool/src@S2",
        ])
    );
    let clone = Send::clone_from("pool/a@s", "pool/b", "t");
    assert_eq!(
        get_send_size_args(&Opts::default(), &clone),
        strings(&["send", "-nvP", "-i", "pool/a@s", "pool/b@t"])
    );
    assert_eq!(clone.duplicate(), clone);
}

#[test]
fn receive_options_are_filtered() {
    let options = Opts::try_from_str("uvhFsd o compression=lz4 x recordsize X no").unwrap();
    assert_eq!(
        recv_cmd(&options, "pool/dst", false, false, true).to_cmd(),
        strings(&[
            "zfs", "receive", "-u", "-v", "-h", "-o compression=lz4", "-x recordsize", "-s", "-F",
            "pool/dst",
        ])
    );
    assert_eq!(
        recv_cmd(&Opts::default(), "pool/dst", true, false, false).to_cmd(),
        strings(&["sudo", "zfs", "receive", "-F", "pool/dst"])
    );
    assert_eq!(
        recv_cmd(&Opts::default(), "pool/dst", false, true, true).to_cmd(),
        strings(&["zfs", "receive", "-s", "pool/dst"])
    );
}

#[test]
fn listing_arguments() {
    assert_eq!(
        list_args("pool/fs", false),
        strings(&["get", "-Hpd", "1", "-t", "snapshot", "guid,creation", "pool/fs"])
    );
    assert_eq!(
        list_args("pool/fs", true),
        strings(&["get", "-Hpd", "1", "-t", "bookmark", "guid,creation", "pool/fs"])
    );
    assert_eq!(
        get_value_args(&["-p", "used"], "pool/fs"),
        strings(&["get", "-H", "-p", "used", "pool/fs"])
    );
    assert_eq!(get_value_args(&[], "pool/fs"), strings(&["get", "-H", "pool/fs"]));
}

#[test]
fn streams() {
    let tail = vec![snap("S2", "B", 20, 1), snap("S3", "C", 30, 2), snap("S4", "D", 40, 3)];
    let from = snap("S1", "A", 10, 0);
    let snapshot = IntermediateSource::Snapshot(from.as_ref());
    let bookmark = IntermediateSource::Bookmark(from.as_ref());
    assert_eq!(
        plan_stream("p", &snapshot, &tail, false, false),
        vec![Send::range("p", "S1", "S4")]
    );
    assert_eq!(plan_stream("p", &snapshot, &tail, true, false), vec![Send::step("p", false, "S1", "S4")]);
    assert_eq!(plan_stream("p", &bookmark, &tail, true, true), vec![Send::step("p", true, "S1", "S4")]);
    assert_eq!(
        plan_stream("p", &snapshot, &tail, false, true),
        vec![
            Send::step("p", false, "S1", "S2"),
            Send::step("p", false, "S2", "S3"),
            Send::step("p", false, "S3", "S4"),
        ]
    );
    assert_eq!(
        plan_stream("p", &bookmark, &tail, false, true),
        vec![
            Send::step("p", true, "S1", "S2"),
            Send::step("p", false, "S2", "S3"),
            Send::step("p", false, "S3", "S4"),
        ]
    );
    assert_eq!(
        plan_stream("p", &bookmark, &tail, false, false),
        vec![Send::step("p", true, "S1", "S2"), Send::range("p", "S2", "S4")]
    );
    assert_eq!(
        plan_stream("p", &bookmark, &tail[..1], false, false),
        vec![Send::step("p", true, "S1", "S2")]
    );
    assert_eq!(plan_stream("p", &snapshot, &tail[..1], false, true), vec![Send::step("p", false, "S1", "S2")]);
    for (no_stream, filtered) in [(false, false), (false, true), (true, false), (true, true)] {
        assert!(plan_stream("p", &snapshot, &[], no_stream, filtered).is_empty());
        assert!(plan_stream("p", &bookmark, &[], no_stream, filtered).is_empty());
    }
}

#[test]
fn old_sync_snapshots_to_prune() {
    let snaps = vec![
        snap("chithi_box_1", "A", 1, 0),
        snap("chithi_box2_1", "B", 2, 1),
        snap("chithi_box", "C", 3, 2),
        snap("chithi_bo", "D", 4, 3),
        snap("xchithi_box_1", "E", 5, 4),
        snap("syncoid_box_1", "F", 6, 5),
        snap("chithi_box_new", "G", 7, 6),
    ];
    let formats = strings(&["chithi"]);
    assert_eq!(
        prune_names("pool/fs", &snaps, "chithi_box_new", &formats, &None, "box"),
        strings(&["pool/fs@chithi_box_1", "pool/fs@chithi_box2_1", "pool/fs@chithi_box"])
    );
    let formats = strings(&["syncoid", "chithi"]);
    assert_eq!(
        prune_names("pool/fs", &snaps, "nothing", &formats, &None, "box"),
        strings(&[
            "pool/fs@chithi_box_1",
            "pool/fs@chithi_box2_1",
            "pool/fs@chithi_box",
            "pool/fs@syncoid_box_1",
            "pool/fs@chithi_box_new",
        ])
    );
    assert!(prune_names("pool/fs", &snaps, "x", &formats, &Some("id".to_string()), "box").is_empty());
    assert!(prune_names("pool/fs", &snaps, "x", &vec![], &None, "box").is_empty());
    let with_id = vec![snap("chithi_idbox_1", "A", 1, 0)];
    assert_eq!(
        prune_names("p", &with_id, "x", &formats, &Some("id".to_string()), "box"),
        strings(&["p@chithi_idbox_1"])
    );
}

#[test]
fn batches_of_ten() {
    let names: Vec<String> = (0..25).map(|i| format!("p@s{i}")).collect();
    let batches = prune_batches(&names);
    assert_eq!(batches.len(), 3);
    assert_eq!(batches[0], names[..10]);
    assert_eq!(batches[1], names[10..20]);
    assert_eq!(batches[2], names[20..]);
    assert_eq!(prune_batches(&names[..10].to_vec()), vec![names[..10].to_vec()]);
    assert_eq!(prune_batches(&names[..11].to_vec()).len(), 2);
    assert_eq!(prune_batches(&names[..1].to_vec()), vec![names[..1].to_vec()]);
    assert!(prune_batches(&vec![]).is_empty());
}

#[test]
fn a_receive_in_the_process_list() {
    let pattern = zfs_recv_pattern().unwrap();
    assert_eq!(pattern.as_str(), "zfs *(receive|recv).*\\s$");
    assert!(line_is_receive(&pattern, "zfs receive -s -F pool/dst", "pool/dst"));
    assert!(line_is_receive(&pattern, "sudo zfs recv pool/dst", "pool/dst"));
    assert!(line_is_receive(&pattern, "/sbin/zfs  receive\tpool/dst", "pool/dst"));
    assert!(line_is_receive(&pattern, "zfsrecv -x pool/dst", "pool/dst"));
    // another dataset, or no receive
    assert!(!line_is_receive(&pattern, "zfs receive pool/dst/child", "pool/dst"));
    assert!(!line_is_receive(&pattern, "zfs receive pool/dst ", "pool/dst"));
    assert!(!line_is_receive(&pattern, "zfs send pool/dst", "pool/dst"));
    assert!(!line_is_receive(&pattern, "zfs receive otherpool/dst", "pool/dst"));
    assert!(!line_is_receive(&pattern, "zfs receivepool/dst", "pool/dst"));
    assert!(!line_is_receive(&pattern, "pool/dst", "pool/dst"));
    assert!(!line_is_receive(&pattern, "", "pool/dst"));

    let lines = strings(&["ps -Ao args=", "zfs send pool/src@a", "ssh far zfs receive -s tank/dst/b"]);
    let a = Fs::new(None, "tank/dst/a", Role::Target);
    let b = Fs::new(None, "tank/dst/b", Role::Target);
    assert!(!is_zfs_busy(&pattern, &lines, &a));
    assert!(is_zfs_busy(&pattern, &lines, &b));
    assert!(is_zfs_busy_for(&pattern, &lines, &vec![a.clone(), b.clone()]));
    assert!(!is_zfs_busy_for(&pattern, &lines, &vec![a]));
    assert!(!is_zfs_busy_for(&pattern, &lines, &vec![]));
    assert!(!is_zfs_busy(&pattern, &vec![], &b));
    assert!(Pattern::new("zfs *(receive|recv).*\\s$").is_some());
}

#[test]
fn children_of_a_dataset() {
    let source = Fs::new(None, "host:pool/src", Role::Source);
    let listing = strings(&[
        "pool/src\t-",
        "pool/src/a\t-",
        "pool/src/tmp\t-",
        "pool/src/b\tpool/src/a@s\textra",
        "pool/src/tmpfs/x\t-",
    ]);
    let tmp = vec![Pattern::new("/tmp").unwrap()];
    let children = get_child_datasets(&source, &listing, false, &tmp).unwrap();
    let names: Vec<&str> = children.iter().map(|c| c.fs.as_str()).collect();
    assert_eq!(names, vec!["pool/src", "pool/src/a", "pool/src/b"]);
    assert_eq!(children[2].origin, Some("pool/src/a@s\textra".to_string()));
    assert!(children.iter().all(|c| c.host == Some("host") && c.role == Role::Source));
    let children = get_child_datasets(&source, &listing, true, &vec![]).unwrap();
    assert_eq!(children.len(), 4);
    assert_eq!(children[0].fs, "pool/src/a");
    // only the first line is the parent
    let children = get_child_datasets(&source, &listing[1..].to_vec(), true, &tmp).unwrap();
    let names: Vec<&str> = children.iter().map(|c| c.fs.as_str()).collect();
    assert_eq!(names, vec!["pool/src/b"]);
    assert!(get_child_datasets(&source, &vec![], true, &vec![]).unwrap().is_empty());
    let broken = strings(&["pool/src\t-", "no tab here", "also none"]);
    let error = get_child_datasets(&source, &broken, true, &vec![]).unwrap_err();
    assert_eq!(error.line, "no tab here");
    assert_eq!(error.to_string(), "expected tab separated name and origin, got no tab here");
}

#[test]
fn clones_of_siblings_come_last() {
    let parent = Fs::new(None, "tank", Role::Target);
    let targets = vec![
        parent.new_child("tank/c".to_string(), "tank/a@s".to_string()),
        parent.new_child("tank/a".to_string(), "-".to_string()),
        parent.new_child("tank/d".to_string(), "elsewhere/x@s".to_string()),
        parent.new_child("tank/b".to_string(), "tank/c@s".to_string()),
        parent.new_child("tank/e".to_string(), "tank/a".to_string()),
    ];
    assert_eq!(sync_order(&targets, true), vec![1, 2, 4, 0, 3]);
    assert_eq!(sync_order(&targets, false), vec![0, 1, 2, 3, 4]);
    assert!(sync_order(&vec![], true).is_empty());
}
