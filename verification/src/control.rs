//! The master connection that the `ssh` invocations of one run share: where
//! its control socket lies, and the commands that open, test and close it.

use crate::chance::random_below;
use crate::cmd::CmdTarget;
use crate::sys::{local_now, push_timestamp, timestamp, LocalTime};
use crate::text::{
    char_is_alphanumeric, chars_of, decimal, is_ascii_alphanumeric, push_arg, push_padded, push_str,
    str_eq, to_string,
};
use vstd::prelude::*;

verus! {

/// What one character of a host contributes to the name of a socket: `-` for
/// an `@`, itself for an ASCII letter or digit, nothing else.
pub open spec fn clean_char(c: char) -> Seq<char> {
    if c == '@' {
        seq!['-']
    } else if is_ascii_alphanumeric(c) {
        seq![c]
    } else {
        Seq::empty()
    }
}

/// The cleaned characters of a host, in order.
pub open spec fn cleaned(host: Seq<char>) -> Seq<char>
    decreases host.len(),
{
    if host.len() == 0 {
        Seq::empty()
    } else {
        cleaned(host.drop_last()) + clean_char(host.last())
    }
}

/// At most the first `n` characters.
pub open spec fn at_most(s: Seq<char>, n: nat) -> Seq<char> {
    if s.len() > n {
        s.take(n as int)
    } else {
        s
    }
}

/// The host as it enters the name of a socket: cleaned, and cut to fifty
/// characters.
pub open spec fn sanitized_host(host: Seq<char>) -> Seq<char> {
    at_most(cleaned(host), 50)
}

/// The path of a control socket:
/// `/tmp/chithi-<host>-<YYYYMMDDHHMMSS>-<pid>-<number>`.
pub open spec fn socket_path(host: Seq<char>, t: LocalTime, pid: u32, number: u32) -> Seq<char> {
    "/tmp/chithi-"@ + sanitized_host(host) + seq!['-'] + timestamp(t) + seq!['-'] + decimal(
        pid as nat,
    ) + seq!['-'] + decimal(number as nat)
}

/// The host as it enters the name of a socket.
pub fn sanitize_host(host: &str) -> (r: String)
    ensures
        r@ == sanitized_host(host@),
{
    let v = chars_of(host);
    let mut out: Vec<char> = Vec::new();
    let mut i: usize = 0;
    assert(cleaned(v@.take(0)) =~= Seq::<char>::empty());
    while i < v.len()
        invariant
            i <= v.len(),
            out@ == at_most(cleaned(v@.take(i as int)), 50),
        decreases v.len() - i,
    {
        let c: char = v[i];
        proof {
            assert(v@.take(i + 1).drop_last() =~= v@.take(i as int));
            assert(v@.take(i + 1).last() == c);
        }
        if out.len() < 50 {
            if c == '@' {
                out.push('-');
            } else if char_is_alphanumeric(c) {
                out.push(c);
            }
        }
        assert(out@ =~= at_most(cleaned(v@.take(i + 1)), 50));
        i += 1;
    }
    assert(v@.take(v.len() as int) =~= v@);
    to_string(&out)
}

/// The path of the control socket for a host, a moment, the number of this
/// process, and a number that tells apart the sockets of one second.
pub fn control_socket_path(host: &str, t: &LocalTime, pid: u32, number: u32) -> (r: String)
    ensures
        r@ == socket_path(host@, *t, pid, number),
{
    let mut out: Vec<char> = Vec::new();
    push_str(&mut out, "/tmp/chithi-");
    let clean = sanitize_host(host);
    push_str(&mut out, clean.as_str());
    out.push('-');
    push_timestamp(&mut out, t);
    out.push('-');
    push_padded(&mut out, pid as u64, 0);
    out.push('-');
    push_padded(&mut out, number as u64, 0);
    assert(out@ =~= socket_path(host@, *t, pid, number));
    to_string(&out)
}

/// A fresh path for the control socket of a host: for the present moment and
/// with a random number below a thousand.
pub fn new_control_socket_path(host: &str, pid: u32) -> (r: String)
    ensures
        exists|t: LocalTime, number: u32|
            t.valid() && number < 1000 && r@ == #[trigger] socket_path(host@, t, pid, number),
{
    let now = local_now();
    let number = random_below(1000);
    control_socket_path(host, &now, pid, number)
}

/// How many master connections a run opens.
#[derive(Debug, Clone, Copy, PartialEq, Eq, Structural)]
pub enum ControlPlan {
    /// Both ends are local: none.
    NoControl,
    /// Both ends are the same host: one, opened for the source and used by the
    /// target too.
    Shared,
    /// One for each end that is remote.
    Separate,
}

/// The plan for source and target.
pub open spec fn planned(source: &CmdTarget, target: &CmdTarget) -> ControlPlan {
    if !source.remote() && !target.remote() {
        ControlPlan::NoControl
    } else if source.host_text() == target.host_text() {
        ControlPlan::Shared
    } else {
        ControlPlan::Separate
    }
}

/// How many master connections to open for source and target.
pub fn control_plan(source: &CmdTarget, target: &CmdTarget) -> (r: ControlPlan)
    ensures
        r == planned(source, target),
{
    if !source.is_remote() && !target.is_remote() {
        ControlPlan::NoControl
    } else if str_eq(source.host(), target.host()) {
        ControlPlan::Shared
    } else {
        ControlPlan::Separate
    }
}

impl<'args> CmdTarget<'args> {
    /// The command that opens a master connection with its control socket at
    /// `control`. A local target needs none.
    pub fn control_master_cmd(&self, control: &str) -> (r: Option<Vec<String>>)
        ensures
            match self {
                CmdTarget::Local => r is None,
                CmdTarget::Remote { ssh } => r matches Some(argv) && argv.deep_view() == ssh.pre_args()
                    + seq!["-M"@, "-S"@, control@, "-o"@, "ControlPersist=1m"@, ssh.host@, "exit"@],
            },
    {
        match self {
            CmdTarget::Local => None,
            CmdTarget::Remote { ssh } => {
                let mut argv = ssh.make_pre_cmd();
                push_arg(&mut argv, "-M");
                push_arg(&mut argv, "-S");
                push_arg(&mut argv, control);
                push_arg(&mut argv, "-o");
                push_arg(&mut argv, "ControlPersist=1m");
                push_arg(&mut argv, ssh.host);
                push_arg(&mut argv, "exit");
                assert(argv.deep_view() =~= ssh.pre_args() + seq![
                    "-M"@,
                    "-S"@,
                    control@,
                    "-o"@,
                    "ControlPersist=1m"@,
                    ssh.host@,
                    "exit"@,
                ]);
                Some(argv)
            },
        }
    }

    /// The command that tests the master connection at `control` by running
    /// `echo -n` through it.
    pub fn control_check_cmd(&self, control: &str) -> (r: Option<Vec<String>>)
        ensures
            match self {
                CmdTarget::Local => r is None,
                CmdTarget::Remote { ssh } => r matches Some(argv) && argv.deep_view() == ssh.pre_args()
                    + seq!["-S"@, control@, ssh.host@, "echo"@, "-n"@],
            },
    {
        match self {
            CmdTarget::Local => None,
            CmdTarget::Remote { ssh } => {
                let mut argv = ssh.make_pre_cmd();
                push_arg(&mut argv, "-S");
                push_arg(&mut argv, control);
                push_arg(&mut argv, ssh.host);
                push_arg(&mut argv, "echo");
                push_arg(&mut argv, "-n");
                assert(argv.deep_view() =~= ssh.pre_args() + seq![
                    "-S"@,
                    control@,
                    ssh.host@,
                    "echo"@,
                    "-n"@,
                ]);
                Some(argv)
            },
        }
    }

    /// The command that closes the master connection of the target, if it has
    /// one.
    pub fn control_exit_cmd(&self) -> (r: Option<Vec<String>>)
        ensures
            match self {
                CmdTarget::Local => r is None,
                CmdTarget::Remote { ssh } => match ssh.control {
                    Some(c) => r matches Some(argv) && argv.deep_view() == ssh.pre_args() + seq![
                        "-S"@,
                        c@,
                        ssh.host@,
                        "-O"@,
                        "exit"@,
                    ],
                    None => r is None,
                },
            },
    {
        match self {
            CmdTarget::Local => None,
            CmdTarget::Remote { ssh } => match &ssh.control {
                Some(control) => {
                    let mut argv = ssh.make_pre_cmd();
                    push_arg(&mut argv, "-S");
                    push_arg(&mut argv, control.as_str());
                    push_arg(&mut argv, ssh.host);
                    push_arg(&mut argv, "-O");
                    push_arg(&mut argv, "exit");
                    assert(argv.deep_view() =~= ssh.pre_args() + seq![
                        "-S"@,
                        control@,
                        ssh.host@,
                        "-O"@,
                        "exit"@,
                    ]);
                    Some(argv)
                },
                None => None,
            },
        }
    }
}

} // verus!
