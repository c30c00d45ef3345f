use chithi::cmd::{Cmd, CmdTarget, Pipeline, Ssh};
use chithi::control::{
    control_plan, control_socket_path, new_control_socket_path, sanitize_host, ControlPlan,
};
use chithi::escape::escape_str;
use chithi::sys::LocalTime;

fn strings(items: &[&str]) -> Vec<String> {
    items.iter().map(|s| s.to_string()).collect()
}

#[test]
fn plain_arguments_stay_as_they_are() {
    assert_eq!(escape_str("pool/fs@snap"), "pool/fs@snap");
    assert_eq!(escape_str("-o"), "-o");
    assert_eq!(escape_str("compression=lz4,a-b_c.d:e+f"), "compression=lz4,a-b_c.d:e+f");
    assert_eq!(escape_str(""), "");
}

#[test]
fn special_characters_are_quoted() {
    assert_eq!(escape_str("pool/fs#bookmark"), "'pool/fs#bookmark'");
    assert_eq!(escape_str("a b"), "'a b'");
    assert_eq!(escape_str("$HOME"), "'$HOME'");
    assert_eq!(escape_str("a\tb"), "'a\tb'");
    assert_eq!(escape_str("x|y&z;<>()*?[]^!~%{}\""), "'x|y&z;<>()*?[]^!~%{}\"'");
}

#[test]
fn every_special_character_quotes_by_itself() {
    for c in "#'\" \t\n\r|&;<>()$*?[]^!~%{}".chars() {
        let escaped = escape_str(&c.to_string());
        assert!(escaped.starts_with('\'') && escaped.ends_with('\''), "{c:?} gave {escaped}");
    }
    for c in "abcXYZ019-_=+,./:@\\`".chars() {
        assert_eq!(escape_str(&c.to_string()), c.to_string());
    }
}

#[test]
fn single_quotes_are_closed_escaped_and_opened_again() {
    assert_eq!(escape_str("it's"), "'it'\\''s'");
    assert_eq!(escape_str("'"), "''\\'''");
    assert_eq!(escape_str("''"), "''\\'''\\'''");
}

#[test]
fn escaping_twice_quotes_the_quotes() {
    let once = escape_str("a b");
    assert_eq!(once, "'a b'");
    assert_eq!(escape_str(&once), "''\\''a b'\\'''");
}

/// Reads a word as a POSIX shell does for quotes and backslashes.
fn shell_reads(word: &str) -> Option<String> {
    let mut out = String::new();
    let mut chars = word.chars();
    let mut quoted = false;
    while let Some(c) = chars.next() {
        if quoted {
            if c == '\'' {
                quoted = false;
            } else {
                out.push(c);
            }
        } else if c == '\'' {
            quoted = true;
        } else if c == '\\' {
            out.push(chars.next()?);
        } else {
            out.push(c);
        }
    }
    if quoted {
        None
    } else {
        Some(out)
    }
}

#[test]
fn what_is_escaped_reads_back() {
    for a in ["plain", "a b", "it's", "''", "a'b c'd", "tab\there", "$(rm -rf)", "x\ny", "*", "'#'"] {
        assert_eq!(shell_reads(&escape_str(a)), Some(a.to_string()), "for {a:?}");
    }
}

fn remote<'a>(options: &'a Vec<String>) -> CmdTarget<'a> {
    CmdTarget::new(Some("user@host"), Some("aes"), Some("cfg"), Some("key"), Some("2222"), options)
}

#[test]
fn local_target() {
    let local = CmdTarget::new_local();
    assert!(!local.is_remote());
    assert_eq!(local.host(), "");
    assert_eq!(local.on_str(), "");
    assert_eq!(local.pretty_str(), "local machine");
    assert_eq!(local.to_string(), "");
    assert_eq!(local.make_cmd("zfs"), vec!["zfs"]);
    assert_eq!(local.make_check("pv"), vec!["sh", "-c", "command -v pv"]);
    let options = vec![];
    assert_eq!(CmdTarget::new(None, Some("aes"), None, None, None, &options), CmdTarget::Local);
}

#[test]
fn remote_target() {
    let options = strings(&["StrictHostKeyChecking=no", "Compression=no"]);
    let mut target = remote(&options);
    assert!(target.is_remote());
    assert_eq!(target.host(), "user@host");
    assert_eq!(target.on_str(), " on ");
    assert_eq!(target.pretty_str(), "user@host");
    let prefix = [
        "ssh", "-c", "aes", "-F", "cfg", "-i", "key", "-p", "2222", "-o",
        "StrictHostKeyChecking=no", "-o", "Compression=no",
    ];
    let mut cmd = strings(&prefix);
    cmd.extend(strings(&["user@host", "zfs"]));
    assert_eq!(target.make_cmd("zfs"), cmd);
    let mut check = strings(&prefix);
    check.extend(strings(&["user@host", "command", "-v", "zfs"]));
    assert_eq!(target.make_check("zfs"), check);
    assert_eq!(
        target.to_string(),
        "ssh -c aes -F cfg -i key -p 2222 -o StrictHostKeyChecking=no -o Compression=no user@host "
    );

    target.set_control(Some("/tmp/sock"));
    assert_eq!(target.control(), Some("/tmp/sock"));
    let mut with_socket = strings(&prefix);
    with_socket.extend(strings(&["-S", "/tmp/sock", "user@host", "zfs"]));
    assert_eq!(target.make_cmd("zfs"), with_socket);
    assert_eq!(
        target.to_string(),
        "ssh -c aes -F cfg -i key -p 2222 -S /tmp/sock -o StrictHostKeyChecking=no -o Compression=no user@host "
    );
    target.set_control(None);
    assert_eq!(target.control(), None);
    assert_eq!(target.make_cmd("zfs"), cmd);
}

#[test]
fn setting_a_socket_on_the_local_target_does_nothing() {
    let mut local = CmdTarget::new_local();
    local.set_control(Some("/tmp/sock"));
    assert_eq!(local, CmdTarget::Local);
    assert_eq!(local.control(), None);
}

#[test]
fn ssh_new_has_no_socket() {
    let options = strings(&["A=b"]);
    let ssh = Ssh::new("host", None, None, None, Some("22"), &options);
    assert_eq!(ssh.control, None);
    assert_eq!(ssh.make_pre_cmd(), vec!["ssh", "-p", "22", "-o", "A=b"]);
    assert_eq!(ssh.to_cmd(), vec!["ssh", "-p", "22", "-o", "A=b", "host"]);
}

#[test]
fn local_command() {
    let local = CmdTarget::new_local();
    let mut cmd = Cmd::new(&local, true, "zfs", strings(&["get", "-H"]));
    cmd.arg("syncoid:sync");
    cmd.args(&["pool/my fs", "x"]);
    assert_eq!(cmd.base(), "zfs");
    assert_eq!(cmd.target(), &CmdTarget::Local);
    // local arguments are handed on as they are
    assert_eq!(cmd.to_cmd(), vec!["sudo", "zfs", "get", "-H", "syncoid:sync", "pool/my fs", "x"]);
    assert_eq!(cmd.to_string(), "sudo zfs get -H syncoid:sync pool/my fs x");
    assert_eq!(cmd.to_check(), vec!["sh", "-c", "command -v zfs"]);
    let copy = cmd.to_mut();
    assert_eq!(copy.to_cmd(), cmd.to_cmd());
    assert!(cmd.check_exists(true).is_ok());
    let missing = cmd.check_exists(false).unwrap_err();
    assert_eq!(missing.program, "zfs");
    assert_eq!(missing.place, "local machine");
}

#[test]
fn remote_command_escapes_its_arguments() {
    let options = vec![];
    let target = CmdTarget::new(Some("host"), None, None, None, None, &options);
    let cmd = Cmd::new(&target, false, "zfs", strings(&["send", "-i", "pool/fs#mark", "pool/fs@it's"]));
    assert_eq!(
        cmd.to_cmd(),
        vec!["ssh", "host", "zfs", "send", "-i", "'pool/fs#mark'", "'pool/fs@it'\\''s'"]
    );
    assert_eq!(cmd.to_string(), "ssh host zfs send -i 'pool/fs#mark' 'pool/fs@it'\\''s'");
    let elevated = Cmd::new(&target, true, "zfs", vec![]);
    assert_eq!(elevated.to_cmd(), vec!["ssh", "host", "sudo", "zfs"]);
    assert_eq!(elevated.check_exists(false).unwrap_err().place, "host");
    let local = elevated.to_local();
    assert_eq!(local.to_cmd(), vec!["sudo", "zfs"]);
}

#[test]
fn a_pipeline_of_one_local_command_runs_it_directly() {
    let local = CmdTarget::new_local();
    let pipeline = Pipeline::new(&local, Cmd::new(&local, false, "zfs", strings(&["send", "a b"])));
    assert!(!pipeline.is_remote());
    assert_eq!(pipeline.to_cmd(), vec!["zfs", "send", "a b"]);
    assert_eq!(pipeline.to_string(), "zfs send a b");
    assert_eq!(pipeline.cmds().len(), 1);
}

#[test]
fn a_local_pipeline_is_a_script_for_sh() {
    let local = CmdTarget::new_local();
    let mut pipeline = Pipeline::new(&local, Cmd::new(&local, true, "zfs", strings(&["send", "p/a b@s"])));
    pipeline.add_cmd(Cmd::new(&local, false, "pv", strings(&["-s", "4096"])));
    pipeline.add_cmd(Cmd::new(&local, false, "zfs", strings(&["receive", "q/it's"])));
    assert_eq!(
        pipeline.to_cmd(),
        vec!["sh", "-c", "--", "sudo zfs send 'p/a b@s' | pv -s 4096 | zfs receive 'q/it'\\''s'"]
    );
    assert_eq!(
        pipeline.to_string(),
        "sh -c -- sudo zfs send p/a b@s | pv -s 4096 | zfs receive q/it's"
    );
    assert_eq!(
        Pipeline::escape_cmd(&pipeline.cmds()[0]),
        "sudo zfs send 'p/a b@s'"
    );
}

#[test]
fn a_remote_pipeline_is_handed_to_ssh() {
    let options = strings(&["A=b"]);
    let mut target = CmdTarget::new(Some("host"), Some("aes"), None, None, None, &options);
    target.set_control(Some("/tmp/s"));
    let local = CmdTarget::new_local();
    let cmds = vec![
        Cmd::new(&local, false, "zfs", strings(&["send", "p/a b@s"])),
        Cmd::new(&local, false, "lzop", vec![]),
    ];
    let mut pipeline = Pipeline::from(&target, cmds).unwrap();
    assert!(pipeline.is_remote());
    assert!(!pipeline.uses_terminal());
    assert_eq!(
        pipeline.to_cmd(),
        vec!["ssh", "-S", "/tmp/s", "-o", "A=b", "host", "zfs send 'p/a b@s'", "|", "lzop"]
    );
    assert_eq!(
        pipeline.to_string(),
        "ssh -c aes -S /tmp/s -o A=b host zfs send 'p/a b@s' | lzop"
    );
    pipeline.use_terminal_if_ssh(true);
    assert_eq!(
        pipeline.to_cmd(),
        vec![
            "ssh", "-t", "-o", "LogLevel=QUIET", "-S", "/tmp/s", "-o", "A=b", "host",
            "zfs send 'p/a b@s'", "|", "lzop",
        ]
    );
    assert_eq!(pipeline.target(), &target);
}

#[test]
fn a_stage_behind_its_own_ssh_is_escaped_twice() {
    let options = vec![];
    let target = CmdTarget::new(Some("host"), None, None, None, None, &options);
    let cmd = Cmd::new(&target, true, "zfs", strings(&["send", "a b", "plain"]));
    assert_eq!(Pipeline::escape_cmd(&cmd), "ssh host sudo zfs  send ''\\''a b'\\''' plain");
}

#[test]
fn no_pipeline_without_commands() {
    let local = CmdTarget::new_local();
    assert!(Pipeline::from(&local, vec![]).is_none());
}

#[test]
fn sanitized_hosts() {
    assert_eq!(sanitize_host("user@host.example.com"), "user-hostexamplecom");
    assert_eq!(sanitize_host("a-b_c:d/e"), "abcde");
    // a `-` of the host is dropped like any other mark; only `@` becomes one
    assert_eq!(sanitize_host("a-b"), "ab");
    assert_eq!(sanitize_host("me@a-b"), "me-ab");
    assert_eq!(sanitize_host("ü@ñ"), "-");
    let long = "x".repeat(60);
    assert_eq!(sanitize_host(&long), "x".repeat(50));
    let mixed = "@.".repeat(60);
    assert_eq!(sanitize_host(&mixed), "-".repeat(50));
    assert_eq!(sanitize_host(""), "");
}

#[test]
fn control_socket_paths() {
    let t = LocalTime { year: 2024, month: 3, day: 2, hour: 1, minute: 2, second: 3, offset: 3600 };
    assert_eq!(
        control_socket_path("user@host", &t, 4242, 7),
        "/tmp/chithi-user-host-20240302010203-4242-7"
    );
    let t = LocalTime { year: 987, month: 12, day: 31, hour: 23, minute: 59, second: 59, offset: 0 };
    assert_eq!(control_socket_path("h", &t, 0, 999), "/tmp/chithi-h-09871231235959-0-999");
}

#[test]
fn a_fresh_control_socket_path_has_the_shape() {
    let path = new_control_socket_path("user@host", 4242);
    let rest = path.strip_prefix("/tmp/chithi-user-host-").expect("prefix");
    let parts: Vec<&str> = rest.split('-').collect();
    assert_eq!(parts.len(), 3, "{path}");
    assert_eq!(parts[0].len(), 14);
    assert!(parts[0].chars().all(|c| c.is_ascii_digit()));
    assert_eq!(parts[1], "4242");
    let number: u32 = parts[2].parse().expect("a number");
    assert!(number < 1000);
    assert_eq!(parts[2], number.to_string());
}

#[test]
fn control_commands() {
    let options = strings(&["A=b"]);
    let mut target = CmdTarget::new(Some("host"), None, None, None, Some("22"), &options);
    assert_eq!(
        target.control_master_cmd("/tmp/s").unwrap(),
        vec!["ssh", "-p", "22", "-o", "A=b", "-M", "-S", "/tmp/s", "-o", "ControlPersist=1m", "host", "exit"]
    );
    assert_eq!(
        target.control_check_cmd("/tmp/s").unwrap(),
        vec!["ssh", "-p", "22", "-o", "A=b", "-S", "/tmp/s", "host", "echo", "-n"]
    );
    assert_eq!(target.control_exit_cmd(), None);
    target.set_control(Some("/tmp/s"));
    assert_eq!(
        target.control_exit_cmd().unwrap(),
        vec!["ssh", "-p", "22", "-o", "A=b", "-S", "/tmp/s", "host", "-O", "exit"]
    );
    let local = CmdTarget::new_local();
    assert_eq!(local.control_master_cmd("/tmp/s"), None);
    assert_eq!(local.control_check_cmd("/tmp/s"), None);
    assert_eq!(local.control_exit_cmd(), None);
}

#[test]
fn control_plans() {
    let options = vec![];
    let local = CmdTarget::new_local();
    let a = CmdTarget::new(Some("a"), None, None, None, None, &options);
    let a2 = CmdTarget::new(Some("a"), Some("aes"), None, None, None, &options);
    let b = CmdTarget::new(Some("b"), None, None, None, None, &options);
    assert_eq!(control_plan(&local, &local), ControlPlan::NoControl);
    assert_eq!(control_plan(&a, &a2), ControlPlan::Shared);
    assert_eq!(control_plan(&a, &b), ControlPlan::Separate);
    assert_eq!(control_plan(&a, &local), ControlPlan::Separate);
    assert_eq!(control_plan(&local, &b), ControlPlan::Separate);
}
