use chithi::args::{Args, SkipToken, SkippedCommands};
use chithi::bw::{Bytes, BytesSuffix};
use chithi::compress::Compress;
use chithi::fs::{get_is_roots, split_host_at_colon, Fs, Role};
use chithi::get_ssh::GetSsh;
use chithi::send_recv_opts::Opts;

#[test]
fn sizes() {
    assert_eq!(Bytes::try_from_str("512"), Ok(Bytes { size: 512, suffix: None }));
    assert_eq!(Bytes::try_from_str("64k"), Ok(Bytes { size: 64, suffix: Some(BytesSuffix::K) }));
    assert_eq!(Bytes::try_from_str("64K"), Ok(Bytes { size: 64, suffix: Some(BytesSuffix::K) }));
    assert_eq!(Bytes::try_from_str("2m"), Ok(Bytes { size: 2, suffix: Some(BytesSuffix::M) }));
    assert_eq!(Bytes::try_from_str("2G"), Ok(Bytes { size: 2, suffix: Some(BytesSuffix::G) }));
    assert_eq!(Bytes::try_from_str("007t"), Ok(Bytes { size: 7, suffix: Some(BytesSuffix::T) }));
    assert_eq!(
        Bytes::try_from_str("18446744073709551615"),
        Ok(Bytes { size: u64::MAX, suffix: None })
    );
}

#[test]
fn sizes_that_are_refused() {
    assert_eq!(Bytes::try_from_str("12x"), Err("unrecognized character when parsing size"));
    assert_eq!(Bytes::try_from_str("1.5M"), Err("unrecognized character when parsing size"));
    assert_eq!(Bytes::try_from_str("-1"), Err("unrecognized character when parsing size"));
    assert_eq!(
        Bytes::try_from_str("12k3"),
        Err("expected size value to end after suffix but found more characters")
    );
    assert_eq!(
        Bytes::try_from_str("12kM"),
        Err("expected size value to end after suffix but found more characters")
    );
    assert_eq!(
        Bytes::try_from_str("12kx"),
        Err("expected size value to end after suffix but found more characters")
    );
    assert_eq!(Bytes::try_from_str("0"), Err("size limit cannot be zero"));
    assert_eq!(Bytes::try_from_str("000G"), Err("size limit cannot be zero"));
    assert_eq!(Bytes::try_from_str(""), Err("size value must be a number that fits in 64 bits"));
    assert_eq!(Bytes::try_from_str("k"), Err("size value must be a number that fits in 64 bits"));
    assert_eq!(
        Bytes::try_from_str("18446744073709551616"),
        Err("size value must be a number that fits in 64 bits")
    );
}

#[test]
fn sizes_as_text() {
    assert_eq!(Bytes { size: 512, suffix: None }.to_string(), "512");
    assert_eq!(Bytes { size: 64, suffix: Some(BytesSuffix::K) }.to_string(), "64K");
    assert_eq!(Bytes { size: 1, suffix: Some(BytesSuffix::T) }.to_string(), "1T");
    assert_eq!(Bytes { size: u64::MAX, suffix: Some(BytesSuffix::G) }.to_string(), "18446744073709551615G");
    assert_eq!(BytesSuffix::try_from('g'), Ok(BytesSuffix::G));
    assert_eq!(BytesSuffix::try_from('x'), Err("could not parse size suffix"));
}

#[test]
fn compression_formats() {
    let all = [
        "gzip", "pigz-fast", "pigz-slow", "zstd-fast", "zstdmt-fast", "zstd-slow", "zstdmt-slow", "xz",
        "lzo", "lz4", "none",
    ];
    for name in all {
        let format = Compress::try_from_str(name).unwrap();
        assert_eq!(format.to_str(), name);
        assert_eq!(format.is_some(), name != "none");
        assert_eq!(format.to_cmd().is_some(), name != "none");
    }
    assert_eq!(Compress::try_from_str("bzip2"), Err("unsupported compress format"));
    assert_eq!(Compress::try_from_str("GZIP"), Err("unsupported compress format"));
    assert_eq!(Compress::try_from_str(""), Err("unsupported compress format"));
    assert_eq!(Compress::default(), Compress::Lzo);
}

#[test]
fn compression_programs() {
    let table: [(&str, &str, &[&str], &str, &[&str]); 10] = [
        ("gzip", "gzip", &["-3"], "zcat", &[]),
        ("pigz-fast", "pigz", &["-3"], "pigz", &["-dc"]),
        ("pigz-slow", "pigz", &["-9"], "pigz", &["-dc"]),
        ("zstd-fast", "zstd", &["-3"], "zstd", &["-dc"]),
        ("zstdmt-fast", "zstdmt", &["-3"], "zstdmt", &["-dc"]),
        ("zstd-slow", "zstd", &["-19"], "zstd", &["-dc"]),
        ("zstdmt-slow", "zstdmt", &["-19"], "zstdmt", &["-dc"]),
        ("xz", "xz", &[], "xz", &["-d"]),
        ("lzo", "lzop", &[], "lzop", &["-dfc"]),
        ("lz4", "lz4", &[], "lz4", &["-dc"]),
    ];
    for (name, base, args, decompress, decompress_args) in table {
        let cmd = Compress::try_from_str(name).unwrap().to_cmd().unwrap();
        assert_eq!(cmd.base, base);
        assert_eq!(cmd.args, args);
        assert_eq!(cmd.decompress, decompress);
        assert_eq!(cmd.decompress_args, decompress_args);
    }
    assert!(Compress::Off.to_cmd().is_none());
}

fn lines(options: &Opts<Vec<chithi::send_recv_opts::OptionsLine<String>>>) -> Vec<(char, String)> {
    options.options.iter().map(|o| (o.option, o.line.clone())).collect()
}

#[test]
fn send_and_receive_options() {
    let options = Opts::try_from_str("Lc e").unwrap();
    assert_eq!(
        lines(&options),
        vec![('L', "-L".to_string()), ('c', "-c".to_string()), ('e', "-e".to_string())]
    );
    let options = Opts::try_from_str("ux recordsize o compression=lz4").unwrap();
    assert_eq!(
        lines(&options),
        vec![
            ('u', "-u".to_string()),
            ('x', "-x recordsize".to_string()),
            ('o', "-o compression=lz4".to_string()),
        ]
    );
    assert_eq!(options.to_string(), "ux recordsize o compression=lz4");
    assert_eq!(options.filter_allowed(&['o', 'u']), vec!["-u", "-o compression=lz4"]);
    assert_eq!(options.filter_allowed(&['x']), vec!["-x recordsize"]);
    assert!(options.filter_allowed(&[]).is_empty());
    let options = Opts::try_from_str("  X   a=b   w ").unwrap();
    assert_eq!(lines(&options), vec![('X', "-X a=b".to_string()), ('w', "-w".to_string())]);
    assert_eq!(options.to_string(), "X a=b w");
    assert!(Opts::try_from_str("").unwrap().options.is_empty());
    assert!(Opts::try_from_str("   ").unwrap().options.is_empty());
    assert!(Opts::default().options.is_empty());
}

#[test]
fn options_that_are_refused() {
    assert_eq!(
        Opts::try_from_str("ox").unwrap_err(),
        "found another single letter options after o, x, or X instead of the option value"
    );
    assert_eq!(
        Opts::try_from_str("Lo x").map(|o| lines(&o)),
        Ok(vec![('L', "-L".to_string()), ('o', "-o x".to_string())])
    );
    assert_eq!(
        Opts::try_from_str("u o").unwrap_err(),
        "did not find value after o, x, or X option"
    );
    assert_eq!(
        Opts::try_from_str("x ").unwrap_err(),
        "did not find value after o, x, or X option"
    );
    // the first fault counts
    assert_eq!(
        Opts::try_from_str("oL o").unwrap_err(),
        "found another single letter options after o, x, or X instead of the option value"
    );
}

#[test]
fn commands_to_skip() {
    assert_eq!(Args::get_commands_to_skip(""), Ok(SkippedCommands::none()));
    assert_eq!(Args::get_commands_to_skip("  \t"), Ok(SkippedCommands::none()));
    let skipped = Args::get_commands_to_skip(" sourcepv,localmbuffer,sourcepv\n").unwrap();
    assert!(skipped.contains(SkipToken::SourcePv));
    assert!(skipped.contains(SkipToken::LocalMbuffer));
    for token in [
        SkipToken::TargetPv,
        SkipToken::LocalPv,
        SkipToken::Compress,
        SkipToken::LocalCompress,
        SkipToken::SourceMbuffer,
        SkipToken::TargetMbuffer,
    ] {
        assert!(!skipped.contains(token));
    }
    let all = "sourcepv,targetpv,localpv,compress,localcompress,sourcembuffer,targetmbuffer,localmbuffer";
    let skipped = Args::get_commands_to_skip(all).unwrap();
    assert_eq!(
        skipped,
        SkippedCommands {
            sourcepv: true,
            targetpv: true,
            localpv: true,
            compress: true,
            localcompress: true,
            sourcembuffer: true,
            targetmbuffer: true,
            localmbuffer: true,
        }
    );
    assert_eq!(SkipToken::LocalCompress.to_str(), "localcompress");
}

#[test]
fn commands_to_skip_that_are_refused() {
    assert_eq!(
        Args::get_commands_to_skip("sourcepv,pv,nope"),
        Err("unsupported command pv passed to --skip-optional-commands".to_string())
    );
    assert_eq!(
        Args::get_commands_to_skip("sourcepv, targetpv"),
        Err("unsupported command  targetpv passed to --skip-optional-commands".to_string())
    );
    assert_eq!(
        Args::get_commands_to_skip("sourcepv,"),
        Err("unsupported command  passed to --skip-optional-commands".to_string())
    );
}

#[test]
fn identifiers() {
    assert_eq!(Args::validate_identifier("host-1_a:b.c"), Ok("host-1_a:b.c".to_string()));
    assert_eq!(Args::validate_identifier(""), Ok(String::new()));
    for bad in ["a b", "a/b", "a@b", "ä", "a,b"] {
        assert_eq!(Args::validate_identifier(bad), Err("extra indentifier contains invalid chars!"));
    }
}

#[test]
fn dataset_names_are_taken_apart() {
    assert_eq!(split_host_at_colon("host:pool"), Some(("host", "pool")));
    assert_eq!(split_host_at_colon("user@host:pool:also/fs:x"), Some(("user@host", "pool:also/fs:x")));
    assert_eq!(split_host_at_colon(":pool"), Some(("", "pool")));
    assert_eq!(split_host_at_colon("host:"), Some(("host", "")));
    assert_eq!(split_host_at_colon("pool/fs:x"), None);
    assert_eq!(split_host_at_colon("pool"), None);
    assert_eq!(split_host_at_colon(""), None);
    assert_eq!(split_host_at_colon("ünï:pööl"), Some(("ünï", "pööl")));
}

/// Host and name written as one text again.
fn joined(fs: &Fs) -> String {
    match fs.host {
        Some(host) => format!("{host}:{}", fs.fs),
        None => fs.fs.clone(),
    }
}

#[test]
fn parsing_a_dataset_name_loses_nothing() {
    for name in ["pool", "pool/fs", "host:pool/fs", "u@h:p:q/r:s", ":pool", "a:", "", "/", ":", "a/b:c"] {
        let fs = Fs::new(None, name, Role::Source);
        assert_eq!(joined(&fs), name);
        let owned = GetSsh::new(None, name.to_string());
        assert_eq!(owned.host.as_deref(), fs.host);
        assert_eq!(owned.fs, fs.fs);
        // with a separate host the name is the whole text
        let fs = Fs::new(Some("h"), name, Role::Target);
        assert_eq!(fs.host, Some("h"));
        assert_eq!(fs.fs, name);
        let fs = Fs::new(Some(""), name, Role::Target);
        assert_eq!(fs.host, None);
        assert_eq!(fs.fs, name);
    }
}

#[test]
fn datasets_are_written_with_their_host_in_front() {
    assert_eq!(Fs::new(None, "pool/fs", Role::Source).to_string(), "pool/fs");
    assert_eq!(Fs::new(None, "u@h:pool/fs", Role::Source).to_string(), "u@h:pool/fs");
    assert_eq!(Fs::new(Some("h"), "a:b", Role::Source).to_string(), "h:a:b");
    assert_eq!(Fs::new(Some(""), "a:b", Role::Source).to_string(), "a:b");
}

#[test]
fn what_is_written_parses_back() {
    for text in [
        "pool",
        "pool/fs",
        "host:pool",
        "user@host:pool/filesystem:alsofs",
        "user@host:pool:alsopool",
        "pool/fs:with/colon",
        ":pool",
        "host:",
        "",
        "a b:c d/e",
    ] {
        let first = Fs::new(None, text, Role::Target);
        let written = first.to_string();
        assert_eq!(written, text);
        let second = Fs::new(None, &written, Role::Target);
        assert_eq!(second.host, first.host, "for {text:?}");
        assert_eq!(second.fs, first.fs, "for {text:?}");
    }
    // a host given apart parses back as long as it holds neither `/` nor `:`
    let apart = Fs::new(Some("user@host"), "pool/fs", Role::Source);
    let written = apart.to_string();
    let again = Fs::new(None, &written, Role::Source);
    assert_eq!((again.host, again.fs.as_str()), (Some("user@host"), "pool/fs"));
}

#[test]
fn children_and_origins() {
    let parent = Fs::new(None, "host:pool", Role::Target);
    let child = parent.new_child("pool/a".to_string(), "-".to_string());
    assert_eq!(child.host, Some("host"));
    assert_eq!(child.role, Role::Target);
    assert_eq!(child.origin, None);
    assert_eq!(child.origin_dataset(), None);
    let child = parent.new_child("pool/b".to_string(), "pool/a@s@t".to_string());
    assert_eq!(child.origin, Some("pool/a@s@t".to_string()));
    assert_eq!(child.origin_dataset(), Some("pool/a".to_string()));
    let child = parent.new_child("pool/c".to_string(), "odd".to_string());
    assert_eq!(child.origin_dataset(), None);
}

#[test]
fn targets_of_children() {
    let source = Fs::new(None, "pool/src", Role::Source);
    let target = Fs::new(None, "host:tank/dst", Role::Target);
    let child = source.new_child("pool/src/a/b".to_string(), "pool/src/a@snap".to_string());
    let mapped = target.child_from_source(&source, &child, true).unwrap();
    assert_eq!(mapped.fs, "tank/dst/a/b");
    assert_eq!(mapped.host, Some("host"));
    assert_eq!(mapped.role, Role::Target);
    assert_eq!(mapped.origin, Some("tank/dst/a@snap".to_string()));
    // without clone handling the origin is dropped
    let mapped = target.child_from_source(&source, &child, false).unwrap();
    assert_eq!(mapped.origin, None);
    // an origin outside the source is dropped too
    let child = source.new_child("pool/src/c".to_string(), "pool/other@snap".to_string());
    assert_eq!(target.child_from_source(&source, &child, true).unwrap().origin, None);
    // the source itself maps to the target
    let same = source.new_child("pool/src".to_string(), "-".to_string());
    assert_eq!(target.child_from_source(&source, &same, true).unwrap().fs, "tank/dst");
    let stranger = source.new_child("pool/else".to_string(), "-".to_string());
    let error = target.child_from_source(&source, &stranger, true).unwrap_err();
    assert_eq!(error.to_string(), "child pool/else did not start with source pool/src");
}

#[test]
fn who_runs_as_root() {
    assert_eq!(get_is_roots(Some("root@a"), Some("user@b"), false, false), (true, false));
    assert_eq!(get_is_roots(Some("root@a"), Some("user@b"), true, false), (true, true));
    assert_eq!(get_is_roots(Some("a"), None, false, true), (true, true));
    assert_eq!(get_is_roots(Some("a"), None, true, false), (false, false));
    assert_eq!(get_is_roots(None, Some("rooty@b"), false, true), (true, false));
    assert_eq!(get_is_roots(Some("@b"), Some("root@b@c"), false, true), (false, true));
}

#[test]
fn roots_of_pools() {
    assert!(GetSsh::new(None, "host:pool".to_string()).is_root);
    assert!(!GetSsh::new(None, "host:pool/fs".to_string()).is_root);
    assert!(GetSsh::new(Some("a/b".to_string()), "pool".to_string()).is_root);
}
