//! Where a command runs (locally or behind `ssh`), the command itself, and
//! pipelines of commands: all of them data, rendered on demand as an argument
//! vector or as text for a shell.

use crate::escape::{escaped, push_escaped};
use crate::text::{chars_of, push_arg, push_str, to_string};
use vstd::prelude::*;

verus! {

/// The two arguments `flag value` when a value is set, else none.
pub open spec fn flag_args(flag: Seq<char>, value: Option<&str>) -> Seq<Seq<char>> {
    match value {
        Some(v) => seq![flag, v@],
        None => Seq::empty(),
    }
}

/// `-o option` for each option, in order.
pub open spec fn option_args(options: Seq<String>) -> Seq<Seq<char>>
    decreases options.len(),
{
    if options.len() == 0 {
        Seq::empty()
    } else {
        option_args(options.drop_last()) + seq!["-o"@, options.last()@]
    }
}

/// The text `flag value ` when a value is set, else nothing. The flag comes
/// with its trailing blank.
pub open spec fn flag_text(flag: Seq<char>, value: Option<&str>) -> Seq<char> {
    match value {
        Some(v) => flag + v@ + " "@,
        None => Seq::empty(),
    }
}

/// The text `-o option ` for each option, in order.
pub open spec fn option_text(options: Seq<String>) -> Seq<char>
    decreases options.len(),
{
    if options.len() == 0 {
        Seq::empty()
    } else {
        option_text(options.drop_last()) + "-o "@ + options.last()@ + " "@
    }
}

/// The text of each argument.
pub open spec fn plain_args(args: Seq<String>) -> Seq<Seq<char>> {
    Seq::new(args.len(), |i: int| args[i]@)
}

/// The escaped text of each argument.
pub open spec fn escaped_args(args: Seq<String>) -> Seq<Seq<char>> {
    Seq::new(args.len(), |i: int| escaped(args[i]@))
}

/// The text of each argument, a blank before each.
pub open spec fn spaced_plain(args: Seq<String>) -> Seq<char>
    decreases args.len(),
{
    if args.len() == 0 {
        Seq::empty()
    } else {
        spaced_plain(args.drop_last()) + " "@ + args.last()@
    }
}

/// The escaped text of each argument, a blank before each.
pub open spec fn spaced_escaped(args: Seq<String>) -> Seq<char>
    decreases args.len(),
{
    if args.len() == 0 {
        Seq::empty()
    } else {
        spaced_escaped(args.drop_last()) + " "@ + escaped(args.last()@)
    }
}

/// The twice escaped text of each argument, a blank before each.
pub open spec fn spaced_escaped_twice(args: Seq<String>) -> Seq<char>
    decreases args.len(),
{
    if args.len() == 0 {
        Seq::empty()
    } else {
        spaced_escaped_twice(args.drop_last()) + " "@ + escaped(escaped(args.last()@))
    }
}

fn push_flag(argv: &mut Vec<String>, flag: &str, value: Option<&str>)
    ensures
        final(argv).deep_view() == old(argv).deep_view() + flag_args(flag@, value),
{
    if let Some(v) = value {
        push_arg(argv, flag);
        push_arg(argv, v);
    }
    assert(argv.deep_view() =~= old(argv).deep_view() + flag_args(flag@, value));
}

fn push_options(argv: &mut Vec<String>, options: &Vec<String>)
    ensures
        final(argv).deep_view() == old(argv).deep_view() + option_args(options@),
{
    let mut i: usize = 0;
    assert(argv.deep_view() =~= old(argv).deep_view() + option_args(options@.take(0)));
    while i < options.len()
        invariant
            i <= options.len(),
            argv.deep_view() == old(argv).deep_view() + option_args(options@.take(i as int)),
        decreases options.len() - i,
    {
        push_arg(argv, "-o");
        push_arg(argv, options[i].as_str());
        proof {
            assert(options@.take(i + 1).drop_last() =~= options@.take(i as int));
            assert(argv.deep_view() =~= old(argv).deep_view() + option_args(options@.take(i + 1)));
        }
        i += 1;
    }
    assert(options@.take(options.len() as int) =~= options@);
}

fn push_flag_text(out: &mut Vec<char>, flag: &str, value: Option<&str>)
    ensures
        final(out)@ == old(out)@ + flag_text(flag@, value),
{
    if let Some(v) = value {
        push_str(out, flag);
        push_str(out, v);
        push_str(out, " ");
    }
    assert(out@ =~= old(out)@ + flag_text(flag@, value));
}

fn push_option_text(out: &mut Vec<char>, options: &Vec<String>)
    ensures
        final(out)@ == old(out)@ + option_text(options@),
{
    let mut i: usize = 0;
    assert(out@ =~= old(out)@ + option_text(options@.take(0)));
    while i < options.len()
        invariant
            i <= options.len(),
            out@ == old(out)@ + option_text(options@.take(i as int)),
        decreases options.len() - i,
    {
        push_str(out, "-o ");
        push_str(out, options[i].as_str());
        push_str(out, " ");
        proof {
            assert(options@.take(i + 1).drop_last() =~= options@.take(i as int));
            assert(out@ =~= old(out)@ + option_text(options@.take(i + 1)));
        }
        i += 1;
    }
    assert(options@.take(options.len() as int) =~= options@);
}

fn push_args(argv: &mut Vec<String>, args: &Vec<String>, escape: bool)
    ensures
        final(argv).deep_view() == old(argv).deep_view() + (if escape {
            escaped_args(args@)
        } else {
            plain_args(args@)
        }),
{
    let mut i: usize = 0;
    while i < args.len()
        invariant
            i <= args.len(),
            argv.deep_view() == old(argv).deep_view() + (if escape {
                escaped_args(args@).take(i as int)
            } else {
                plain_args(args@).take(i as int)
            }),
        decreases args.len() - i,
    {
        if escape {
            let e = crate::escape::escape_str(args[i].as_str());
            push_arg(argv, e.as_str());
            assert(argv.deep_view() =~= old(argv).deep_view() + escaped_args(args@).take(i + 1));
        } else {
            push_arg(argv, args[i].as_str());
            assert(argv.deep_view() =~= old(argv).deep_view() + plain_args(args@).take(i + 1));
        }
        i += 1;
    }
    assert(escaped_args(args@).take(args.len() as int) =~= escaped_args(args@));
    assert(plain_args(args@).take(args.len() as int) =~= plain_args(args@));
}

/// How the arguments are written when rendered as text.
#[derive(Clone, Copy, PartialEq, Eq, Structural)]
pub enum Quoting {
    Plain,
    Once,
    Twice,
}

/// The arguments written after one another, each with a blank in front.
pub open spec fn spaced(args: Seq<String>, quoting: Quoting) -> Seq<char> {
    match quoting {
        Quoting::Plain => spaced_plain(args),
        Quoting::Once => spaced_escaped(args),
        Quoting::Twice => spaced_escaped_twice(args),
    }
}

fn push_spaced(out: &mut Vec<char>, args: &Vec<String>, quoting: Quoting)
    ensures
        final(out)@ == old(out)@ + spaced(args@, quoting),
{
    let mut i: usize = 0;
    assert(out@ =~= old(out)@ + spaced(args@.take(0), quoting));
    while i < args.len()
        invariant
            i <= args.len(),
            out@ == old(out)@ + spaced(args@.take(i as int), quoting),
        decreases args.len() - i,
    {
        out.push(' ');
        let a = chars_of(args[i].as_str());
        proof {
            reveal_strlit(" ");
            assert(" "@ =~= seq![' ']);
            assert(args@.take(i + 1).drop_last() =~= args@.take(i as int));
        }
        match quoting {
            Quoting::Plain => {
                let n: usize = a.len();
                crate::text::push_range(out, &a, 0, n);
                assert(a@.subrange(0, n as int) =~= a@);
            },
            Quoting::Once => {
                push_escaped(out, &a);
            },
            Quoting::Twice => {
                let mut once: Vec<char> = Vec::new();
                push_escaped(&mut once, &a);
                assert(once@ =~= escaped(a@));
                push_escaped(out, &once);
            },
        }
        assert(out@ =~= old(out)@ + spaced(args@.take(i + 1), quoting));
        i += 1;
    }
    assert(args@.take(args.len() as int) =~= args@);
}

/// How to reach a remote host over `ssh`.
#[derive(Debug, Clone, PartialEq, Eq)]
pub struct Ssh<'args> {
    pub host: &'args str,
    pub cipher: Option<&'args str>,
    pub config: Option<&'args str>,
    pub identity: Option<&'args str>,
    pub port: Option<&'args str>,
    /// Path of the control socket of a running master connection, if any.
    pub control: Option<String>,
    pub options: &'args Vec<String>,
}

impl<'args> Ssh<'args> {
    /// `ssh` with the cipher, configuration file, identity, port and options.
    pub open spec fn pre_args(&self) -> Seq<Seq<char>> {
        seq!["ssh"@] + flag_args("-c"@, self.cipher) + flag_args("-F"@, self.config) + flag_args(
            "-i"@,
            self.identity,
        ) + flag_args("-p"@, self.port) + option_args(self.options@)
    }

    /// `-S socket` when a control socket is set.
    pub open spec fn control_args(&self) -> Seq<Seq<char>> {
        match self.control {
            Some(c) => seq!["-S"@, c@],
            None => Seq::empty(),
        }
    }

    /// The whole `ssh` prefix of a remote command, up to and including the host.
    pub open spec fn args(&self) -> Seq<Seq<char>> {
        self.pre_args() + self.control_args() + seq![self.host@]
    }

    /// The settings of `ssh` for a host, without a control socket.
    pub fn new(
        host: &'args str,
        cipher: Option<&'args str>,
        config: Option<&'args str>,
        identity: Option<&'args str>,
        port: Option<&'args str>,
        options: &'args Vec<String>,
    ) -> (ssh: Self)
        ensures
            ssh.host == host,
            ssh.cipher == cipher,
            ssh.config == config,
            ssh.identity == identity,
            ssh.port == port,
            ssh.control is None,
            ssh.options == options,
    {
        Self { host, cipher, config, identity, port, control: None, options }
    }

    /// The `ssh` invocation without control socket and host.
    pub fn make_pre_cmd(&self) -> (argv: Vec<String>)
        ensures
            argv.deep_view() == self.pre_args(),
    {
        let mut argv: Vec<String> = Vec::new();
        push_arg(&mut argv, "ssh");
        push_flag(&mut argv, "-c", self.cipher);
        push_flag(&mut argv, "-F", self.config);
        push_flag(&mut argv, "-i", self.identity);
        push_flag(&mut argv, "-p", self.port);
        push_options(&mut argv, self.options);
        assert(argv.deep_view() =~= self.pre_args());
        argv
    }

    fn push_control(&self, argv: &mut Vec<String>)
        ensures
            final(argv).deep_view() == old(argv).deep_view() + self.control_args(),
    {
        match &self.control {
            Some(c) => {
                push_arg(argv, "-S");
                push_arg(argv, c.as_str());
            },
            None => {},
        }
        assert(argv.deep_view() =~= old(argv).deep_view() + self.control_args());
    }

    /// The `ssh` invocation up to and including the host.
    pub fn to_cmd(&self) -> (argv: Vec<String>)
        ensures
            argv.deep_view() == self.args(),
    {
        let mut argv = self.make_pre_cmd();
        self.push_control(&mut argv);
        push_arg(&mut argv, self.host);
        assert(argv.deep_view() =~= self.args());
        argv
    }
}

/// Where a command runs.
#[derive(Debug, Clone, PartialEq, Eq)]
pub enum CmdTarget<'args> {
    Local,
    Remote { ssh: Ssh<'args> },
}

impl<'args> CmdTarget<'args> {
    /// Whether commands run on another machine.
    pub open spec fn remote(&self) -> bool {
        self is Remote
    }

    /// The command line that tests whether the program `base` exists there.
    pub open spec fn check_args(&self, base: Seq<char>) -> Seq<Seq<char>> {
        match self {
            CmdTarget::Local => seq!["sh"@, "-c"@, "command -v "@ + base],
            CmdTarget::Remote { ssh } => ssh.args() + seq!["command"@, "-v"@, base],
        }
    }

    /// The start of a command line that runs the program `base` there.
    pub open spec fn cmd_args(&self, base: Seq<char>) -> Seq<Seq<char>> {
        match self {
            CmdTarget::Local => seq![base],
            CmdTarget::Remote { ssh } => ssh.args() + seq![base],
        }
    }

    /// The readable form: nothing for the local machine, else the `ssh`
    /// invocation with a blank after each part.
    pub open spec fn display(&self) -> Seq<char> {
        match self {
            CmdTarget::Local => Seq::empty(),
            CmdTarget::Remote { ssh } => "ssh "@ + flag_text("-c "@, ssh.cipher) + flag_text(
                "-F "@,
                ssh.config,
            ) + flag_text("-i "@, ssh.identity) + flag_text("-p "@, ssh.port) + (match ssh.control {
                Some(c) => "-S "@ + c@ + " "@,
                None => Seq::empty(),
            }) + option_text(ssh.options@) + ssh.host@ + " "@,
        }
    }

    /// This machine.
    pub fn new_local() -> (t: Self)
        ensures
            t is Local,
    {
        Self::Local
    }

    /// The local machine when no host is given, else the host over `ssh`.
    pub fn new(
        host: Option<&'args str>,
        cipher: Option<&'args str>,
        config: Option<&'args str>,
        identity: Option<&'args str>,
        port: Option<&'args str>,
        ssh_options: &'args Vec<String>,
    ) -> (t: Self)
        ensures
            host is None ==> t is Local,
            host matches Some(h) ==> t == (CmdTarget::Remote {
                ssh: Ssh {
                    host: h,
                    cipher,
                    config,
                    identity,
                    port,
                    control: None,
                    options: ssh_options,
                },
            }),
    {
        match host {
            None => Self::Local,
            Some(host) => {
                let ssh = Ssh::new(host, cipher, config, identity, port, ssh_options);
                Self::Remote { ssh }
            },
        }
    }

    /// Whether commands run on another machine.
    pub fn is_remote(&self) -> (r: bool)
        ensures
            r == self.remote(),
    {
        match self {
            CmdTarget::Local => false,
            CmdTarget::Remote { .. } => true,
        }
    }

    /// The command line that tests whether the program `base` exists there.
    pub fn make_check(&self, base: &str) -> (argv: Vec<String>)
        ensures
            argv.deep_view() == self.check_args(base@),
    {
        match self {
            CmdTarget::Local => {
                let mut script: Vec<char> = Vec::new();
                push_str(&mut script, "command -v ");
                push_str(&mut script, base);
                let script = to_string(&script);
                let mut argv: Vec<String> = Vec::new();
                push_arg(&mut argv, "sh");
                push_arg(&mut argv, "-c");
                push_arg(&mut argv, script.as_str());
                assert(argv.deep_view() =~= self.check_args(base@));
                argv
            },
            CmdTarget::Remote { ssh } => {
                let mut argv = ssh.to_cmd();
                push_arg(&mut argv, "command");
                push_arg(&mut argv, "-v");
                push_arg(&mut argv, base);
                assert(argv.deep_view() =~= self.check_args(base@));
                argv
            },
        }
    }

    /// The start of a command line that runs the program `base` there.
    pub fn make_cmd(&self, base: &str) -> (argv: Vec<String>)
        ensures
            argv.deep_view() == self.cmd_args(base@),
    {
        match self {
            CmdTarget::Local => {
                let mut argv: Vec<String> = Vec::new();
                push_arg(&mut argv, base);
                assert(argv.deep_view() =~= self.cmd_args(base@));
                argv
            },
            CmdTarget::Remote { ssh } => {
                let mut argv = ssh.to_cmd();
                push_arg(&mut argv, base);
                argv
            },
        }
    }

    /// Sets or clears the control socket of a remote target; a local target
    /// stays as it is.
    pub fn set_control(&mut self, control: Option<&str>)
        ensures
            *old(self) is Local ==> *final(self) == *old(self),
            *old(self) matches CmdTarget::Remote { ssh } ==> {
                &&& *final(self) matches CmdTarget::Remote { ssh: after }
                &&& after.host == ssh.host
                &&& after.cipher == ssh.cipher
                &&& after.config == ssh.config
                &&& after.identity == ssh.identity
                &&& after.port == ssh.port
                &&& after.options == ssh.options
                &&& control is None ==> after.control is None
                &&& control matches Some(c) ==> after.control matches Some(a) && a@ == c@
            },
    {
        match self {
            CmdTarget::Local => {},
            CmdTarget::Remote { ssh } => {
                ssh.control = match control {
                    Some(c) => Some(c.to_string()),
                    None => None,
                };
            },
        }
    }

    /// The control socket of a remote target, if one is set.
    pub fn control(&self) -> (r: Option<&str>)
        ensures
            self is Local ==> r is None,
            self matches CmdTarget::Remote { ssh } ==> match ssh.control {
                Some(c) => r matches Some(x) && x@ == c@,
                None => r is None,
            },
    {
        match self {
            CmdTarget::Local => None,
            CmdTarget::Remote { ssh } => match &ssh.control {
                Some(c) => Some(c.as_str()),
                None => None,
            },
        }
    }

    /// The joining word between a command and its host in messages.
    pub fn on_str(&self) -> (r: &'static str)
        ensures
            r@ == (if self.remote() {
                " on "@
            } else {
                ""@
            }),
    {
        match self {
            CmdTarget::Local => "",
            CmdTarget::Remote { .. } => " on ",
        }
    }

    /// The host, empty for the local machine.
    pub open spec fn host_text(&self) -> Seq<char> {
        match self {
            CmdTarget::Local => ""@,
            CmdTarget::Remote { ssh } => ssh.host@,
        }
    }

    /// The host, empty for the local machine.
    pub fn host(&self) -> (r: &str)
        ensures
            r@ == self.host_text(),
    {
        match self {
            CmdTarget::Local => "",
            CmdTarget::Remote { ssh } => ssh.host,
        }
    }

    /// The host as named in messages.
    pub open spec fn pretty(&self) -> Seq<char> {
        match self {
            CmdTarget::Local => "local machine"@,
            CmdTarget::Remote { ssh } => ssh.host@,
        }
    }

    /// The host as named in messages.
    pub fn pretty_str(&self) -> (r: &'args str)
        ensures
            r@ == self.pretty(),
    {
        match self {
            CmdTarget::Local => "local machine",
            CmdTarget::Remote { ssh } => ssh.host,
        }
    }

    fn push_display(&self, out: &mut Vec<char>)
        ensures
            final(out)@ == old(out)@ + self.display(),
    {
        match self {
            CmdTarget::Local => {
                assert(out@ =~= old(out)@ + self.display());
            },
            CmdTarget::Remote { ssh } => {
                push_str(out, "ssh ");
                push_flag_text(out, "-c ", ssh.cipher);
                push_flag_text(out, "-F ", ssh.config);
                push_flag_text(out, "-i ", ssh.identity);
                push_flag_text(out, "-p ", ssh.port);
                match &ssh.control {
                    Some(c) => {
                        push_str(out, "-S ");
                        push_str(out, c.as_str());
                        push_str(out, " ");
                    },
                    None => {},
                }
                push_option_text(out, ssh.options);
                push_str(out, ssh.host);
                push_str(out, " ");
                assert(out@ =~= old(out)@ + self.display());
            },
        }
    }

    /// The readable form of the target.
    pub fn to_string(&self) -> (r: String)
        ensures
            r@ == self.display(),
    {
        let mut out: Vec<char> = Vec::new();
        self.push_display(&mut out);
        assert(out@ =~= self.display());
        to_string(&out)
    }
}

/// A program that a `check_exists` found missing, and where.
#[derive(Debug, Clone, PartialEq, Eq)]
pub struct CommandNotFound {
    pub program: String,
    pub place: String,
}

/// A program with its arguments, the place where it runs, and whether it
/// runs under `sudo`.
#[derive(Debug)]
pub struct Cmd<'args> {
    pub target: &'args CmdTarget<'args>,
    pub sudo: bool,
    pub base: &'static str,
    pub args: Vec<String>,
}

/// A command with its texts as sequences of characters.
pub struct CmdModel<'args> {
    pub target: &'args CmdTarget<'args>,
    pub sudo: bool,
    pub base: Seq<char>,
    pub args: Seq<Seq<char>>,
}

impl<'args> View for Cmd<'args> {
    type V = CmdModel<'args>;

    open spec fn view(&self) -> CmdModel<'args> {
        CmdModel {
            target: self.target,
            sudo: self.sudo,
            base: self.base@,
            args: self.args.deep_view(),
        }
    }
}

/// The model of each command.
pub open spec fn models<'args>(cmds: Seq<Cmd<'args>>) -> Seq<CmdModel<'args>> {
    Seq::new(cmds.len(), |i: int| cmds[i]@)
}

impl<'args> Cmd<'args> {
    /// The command line up to and including the program.
    pub open spec fn head_args(&self) -> Seq<Seq<char>> {
        if self.sudo {
            self.target.cmd_args("sudo"@).push(self.base@)
        } else {
            self.target.cmd_args(self.base@)
        }
    }

    /// The command line: on a remote target behind the `ssh` prefix, with each
    /// argument escaped for the remote shell.
    pub open spec fn argv(&self) -> Seq<Seq<char>> {
        self.head_args() + (if self.target.remote() {
            escaped_args(self.args@)
        } else {
            plain_args(self.args@)
        })
    }

    /// `sudo ` when the command is elevated.
    pub open spec fn sudo_text(&self) -> Seq<char> {
        if self.sudo {
            "sudo "@
        } else {
            Seq::empty()
        }
    }

    /// The readable form of the command.
    pub open spec fn display(&self) -> Seq<char> {
        self.target.display() + self.sudo_text() + self.base@ + spaced(
            self.args@,
            if self.target.remote() {
                Quoting::Once
            } else {
                Quoting::Plain
            },
        )
    }

    /// The command as one stage of a shell pipeline: arguments escaped once,
    /// or twice behind an `ssh` of its own.
    pub open spec fn stage(&self) -> Seq<char> {
        if self.target.remote() {
            self.target.display() + self.sudo_text() + self.base@ + " "@ + spaced(
                self.args@,
                Quoting::Twice,
            )
        } else {
            self.sudo_text() + self.base@ + spaced(self.args@, Quoting::Once)
        }
    }

    /// The program `cmd` with its arguments, to run at `target`, through `sudo`
    /// if asked.
    pub fn new(target: &'args CmdTarget<'args>, sudo: bool, cmd: &'static str, args: Vec<String>) -> (c:
        Self)
        ensures
            c.target == target,
            c.sudo == sudo,
            c.base == cmd,
            c.args == args,
    {
        Self { target, sudo, base: cmd, args }
    }

    /// The same command, run on the local machine.
    pub fn to_local(self) -> (c: Self)
        ensures
            *c.target is Local,
            c.sudo == self.sudo,
            c.base == self.base,
            c.args == self.args,
    {
        Self { target: &CmdTarget::Local, sudo: self.sudo, base: self.base, args: self.args }
    }

    /// Where the command runs.
    pub fn target(&self) -> (t: &'args CmdTarget<'args>)
        ensures
            t == self.target,
    {
        self.target
    }

    /// The name of the program.
    pub fn base(&self) -> (b: &'static str)
        ensures
            b == self.base,
    {
        self.base
    }

    /// The command line.
    pub fn to_cmd(&self) -> (argv: Vec<String>)
        ensures
            argv.deep_view() == self.argv(),
    {
        let mut argv = if self.sudo {
            let mut argv = self.target.make_cmd("sudo");
            push_arg(&mut argv, self.base);
            argv
        } else {
            self.target.make_cmd(self.base)
        };
        assert(argv.deep_view() == self.head_args());
        push_args(&mut argv, &self.args, self.target.is_remote());
        argv
    }

    /// A copy of the command, to which arguments can be added.
    pub fn to_mut(&self) -> (c: Self)
        ensures
            c.target == self.target,
            c.sudo == self.sudo,
            c.base == self.base,
            c.args@ == self.args@,
    {
        Self { target: self.target, sudo: self.sudo, base: self.base, args: self.args.clone() }
    }

    /// The command line that tests whether the program exists at the target.
    pub fn to_check(&self) -> (argv: Vec<String>)
        ensures
            argv.deep_view() == self.target.check_args(self.base@),
    {
        self.target.make_check(self.base)
    }

    /// The verdict on the outcome of the check: an error that names the
    /// program and the place when it was not found.
    pub fn check_exists(&self, found: bool) -> (r: Result<(), CommandNotFound>)
        ensures
            r is Ok <==> found,
            r matches Err(e) ==> e.program@ == self.base@ && e.place@ == self.target.pretty(),
    {
        if found {
            Ok(())
        } else {
            Err(
                CommandNotFound {
                    program: self.base.to_string(),
                    place: self.target.pretty_str().to_string(),
                },
            )
        }
    }

    /// Adds one argument.
    pub fn arg(&mut self, value: &str)
        ensures
            final(self).target == old(self).target,
            final(self).sudo == old(self).sudo,
            final(self).base == old(self).base,
            final(self).args.deep_view() == old(self).args.deep_view().push(value@),
    {
        push_arg(&mut self.args, value);
    }

    /// Adds arguments, in order.
    pub fn args(&mut self, values: &[&str])
        ensures
            final(self).target == old(self).target,
            final(self).sudo == old(self).sudo,
            final(self).base == old(self).base,
            final(self).args.deep_view() == old(self).args.deep_view() + Seq::new(
                values@.len(),
                |i: int| values@[i]@,
            ),
    {
        let ghost added = Seq::new(values@.len(), |i: int| values@[i]@);
        let mut i: usize = 0;
        assert(self.args.deep_view() =~= old(self).args.deep_view() + added.take(0));
        while i < values.len()
            invariant
                i <= values.len(),
                added == Seq::new(values@.len(), |i: int| values@[i]@),
                self.target == old(self).target,
                self.sudo == old(self).sudo,
                self.base == old(self).base,
                self.args.deep_view() == old(self).args.deep_view() + added.take(i as int),
            decreases values.len() - i,
        {
            push_arg(&mut self.args, values[i]);
            assert(self.args.deep_view() =~= old(self).args.deep_view() + added.take(i + 1));
            i += 1;
        }
        assert(added.take(values.len() as int) =~= added);
    }

    fn push_sudo(&self, out: &mut Vec<char>)
        ensures
            final(out)@ == old(out)@ + self.sudo_text(),
    {
        if self.sudo {
            push_str(out, "sudo ");
        }
        assert(out@ =~= old(out)@ + self.sudo_text());
    }

    fn push_display(&self, out: &mut Vec<char>)
        ensures
            final(out)@ == old(out)@ + self.display(),
    {
        self.target.push_display(out);
        self.push_sudo(out);
        push_str(out, self.base);
        let quoting = if self.target.is_remote() {
            Quoting::Once
        } else {
            Quoting::Plain
        };
        push_spaced(out, &self.args, quoting);
        assert(out@ =~= old(out)@ + self.display());
    }

    fn push_stage(&self, out: &mut Vec<char>)
        ensures
            final(out)@ == old(out)@ + self.stage(),
    {
        if self.target.is_remote() {
            self.target.push_display(out);
            self.push_sudo(out);
            push_str(out, self.base);
            push_str(out, " ");
            push_spaced(out, &self.args, Quoting::Twice);
        } else {
            self.push_sudo(out);
            push_str(out, self.base);
            push_spaced(out, &self.args, Quoting::Once);
        }
        assert(out@ =~= old(out)@ + self.stage());
    }

    /// The readable form of the command.
    pub fn to_string(&self) -> (r: String)
        ensures
            r@ == self.display(),
    {
        let mut out: Vec<char> = Vec::new();
        self.push_display(&mut out);
        assert(out@ =~= self.display());
        to_string(&out)
    }
}

/// The stages, ` | ` between them.
pub open spec fn joined_stages(cmds: Seq<Cmd>) -> Seq<char>
    decreases cmds.len(),
{
    if cmds.len() == 0 {
        Seq::empty()
    } else if cmds.len() == 1 {
        cmds[0].stage()
    } else {
        joined_stages(cmds.drop_last()) + " | "@ + cmds.last().stage()
    }
}

/// The readable forms of the commands, ` | ` between them.
pub open spec fn joined_display(cmds: Seq<Cmd>) -> Seq<char>
    decreases cmds.len(),
{
    if cmds.len() == 0 {
        Seq::empty()
    } else if cmds.len() == 1 {
        cmds[0].display()
    } else {
        joined_display(cmds.drop_last()) + " | "@ + cmds.last().display()
    }
}

/// The stages as arguments of their own, the argument `|` between them.
pub open spec fn piped_stage_args(cmds: Seq<Cmd>) -> Seq<Seq<char>>
    decreases cmds.len(),
{
    if cmds.len() == 0 {
        Seq::empty()
    } else if cmds.len() == 1 {
        seq![cmds[0].stage()]
    } else {
        piped_stage_args(cmds.drop_last()) + seq!["|"@, cmds.last().stage()]
    }
}

/// A chain of commands that runs as one script on one host, each feeding the
/// next. It is never empty.
#[derive(Debug)]
pub struct Pipeline<'args> {
    target: &'args CmdTarget<'args>,
    use_terminal_if_ssh: bool,
    cmds: Vec<Cmd<'args>>,
}

impl<'args> Pipeline<'args> {
    /// A pipeline holds at least one command.
    pub closed spec fn well_formed(&self) -> bool {
        self.cmds@.len() >= 1
    }

    /// The host on which the pipeline runs.
    pub closed spec fn place(&self) -> &'args CmdTarget<'args> {
        self.target
    }

    /// Whether `ssh` is to allocate a terminal.
    pub closed spec fn terminal(&self) -> bool {
        self.use_terminal_if_ssh
    }

    /// The commands of the pipeline, in order.
    pub closed spec fn stages(&self) -> Seq<Cmd<'args>> {
        self.cmds@
    }

    /// The command line that runs the pipeline: a lone local command directly,
    /// several local ones as a script for `sh`, and a remote pipeline as
    /// arguments of `ssh`.
    pub open spec fn argv(&self) -> Seq<Seq<char>> {
        match *self.place() {
            CmdTarget::Local => if self.stages().len() == 1 {
                self.stages()[0].argv()
            } else {
                seq!["sh"@, "-c"@, "--"@, joined_stages(self.stages())]
            },
            CmdTarget::Remote { ssh } => seq!["ssh"@] + (if self.terminal() {
                seq!["-t"@, "-o"@, "LogLevel=QUIET"@]
            } else {
                Seq::empty()
            }) + ssh.control_args() + option_args(ssh.options@) + seq![ssh.host@]
                + piped_stage_args(self.stages()),
        }
    }

    /// The readable form of the pipeline.
    pub open spec fn display(&self) -> Seq<char> {
        match *self.place() {
            CmdTarget::Local => if self.stages().len() == 1 {
                self.stages()[0].display()
            } else {
                "sh -c -- "@ + joined_display(self.stages())
            },
            CmdTarget::Remote { ssh } => self.place().display() + joined_stages(self.stages()),
        }
    }

    /// A pipeline of one command.
    pub fn new(target: &'args CmdTarget<'args>, cmd: Cmd<'args>) -> (p: Self)
        ensures
            p.well_formed(),
            p.place() == target,
            !p.terminal(),
            p.stages() == seq![cmd],
    {
        let mut cmds: Vec<Cmd<'args>> = Vec::new();
        cmds.push(cmd);
        assert(cmds@ =~= seq![cmd]);
        Self { target, use_terminal_if_ssh: false, cmds }
    }

    /// Adds a command at the end.
    pub fn add_cmd(&mut self, cmd: Cmd<'args>)
        ensures
            final(self).well_formed(),
            final(self).place() == old(self).place(),
            final(self).terminal() == old(self).terminal(),
            final(self).stages() == old(self).stages().push(cmd),
    {
        self.cmds.push(cmd);
    }

    /// Whether the pipeline runs on another machine.
    pub fn is_remote(&self) -> (r: bool)
        ensures
            r == self.place().remote(),
    {
        self.target.is_remote()
    }

    /// Says whether `ssh` is to allocate a terminal for the pipeline.
    pub fn use_terminal_if_ssh(&mut self, value: bool)
        ensures
            final(self).well_formed() == old(self).well_formed(),
            final(self).place() == old(self).place(),
            final(self).terminal() == value,
            final(self).stages() == old(self).stages(),
    {
        self.use_terminal_if_ssh = value;
    }

    /// A pipeline of the given commands in order, or nothing when there is no
    /// command.
    pub fn from(target: &'args CmdTarget<'args>, from: Vec<Cmd<'args>>) -> (r: Option<Self>)
        ensures
            r is Some <==> from@.len() > 0,
            r matches Some(p) ==> p.well_formed() && p.place() == target && !p.terminal()
                && p.stages() == from@,
    {
        if from.len() == 0 {
            None
        } else {
            Some(Self { target, use_terminal_if_ssh: false, cmds: from })
        }
    }

    /// Where the pipeline runs.
    pub fn target(&self) -> (t: &'args CmdTarget<'args>)
        ensures
            t == self.place(),
    {
        self.target
    }

    /// Whether `ssh` is to allocate a terminal for the pipeline.
    pub fn uses_terminal(&self) -> (r: bool)
        ensures
            r == self.terminal(),
    {
        self.use_terminal_if_ssh
    }

    /// The stages of the pipeline, in order.
    pub fn cmds(&self) -> (r: &Vec<Cmd<'args>>)
        ensures
            r@ == self.stages(),
            self.well_formed() ==> r@.len() >= 1,
    {
        &self.cmds
    }

    /// One command as a stage of a shell pipeline.
    pub fn escape_cmd(cmd: &Cmd<'args>) -> (r: String)
        ensures
            r@ == cmd.stage(),
    {
        let mut out: Vec<char> = Vec::new();
        cmd.push_stage(&mut out);
        assert(out@ =~= cmd.stage());
        to_string(&out)
    }

    fn push_joined_stages(&self, out: &mut Vec<char>)
        requires
            self.well_formed(),
        ensures
            final(out)@ == old(out)@ + joined_stages(self.stages()),
    {
        self.cmds[0].push_stage(out);
        let mut i: usize = 1;
        assert(self.cmds@.take(1) =~= seq![self.cmds@[0]]);
        while i < self.cmds.len()
            invariant
                1 <= i <= self.cmds.len(),
                out@ == old(out)@ + joined_stages(self.cmds@.take(i as int)),
            decreases self.cmds.len() - i,
        {
            push_str(out, " | ");
            self.cmds[i].push_stage(out);
            proof {
                assert(self.cmds@.take(i + 1).drop_last() =~= self.cmds@.take(i as int));
                assert(out@ =~= old(out)@ + joined_stages(self.cmds@.take(i + 1)));
            }
            i += 1;
        }
        assert(self.cmds@.take(self.cmds.len() as int) =~= self.cmds@);
    }

    fn push_joined_display(&self, out: &mut Vec<char>)
        requires
            self.well_formed(),
        ensures
            final(out)@ == old(out)@ + joined_display(self.stages()),
    {
        self.cmds[0].push_display(out);
        let mut i: usize = 1;
        assert(self.cmds@.take(1) =~= seq![self.cmds@[0]]);
        while i < self.cmds.len()
            invariant
                1 <= i <= self.cmds.len(),
                out@ == old(out)@ + joined_display(self.cmds@.take(i as int)),
            decreases self.cmds.len() - i,
        {
            push_str(out, " | ");
            self.cmds[i].push_display(out);
            proof {
                assert(self.cmds@.take(i + 1).drop_last() =~= self.cmds@.take(i as int));
                assert(out@ =~= old(out)@ + joined_display(self.cmds@.take(i + 1)));
            }
            i += 1;
        }
        assert(self.cmds@.take(self.cmds.len() as int) =~= self.cmds@);
    }

    fn push_piped_stage_args(&self, argv: &mut Vec<String>)
        requires
            self.well_formed(),
        ensures
            final(argv).deep_view() == old(argv).deep_view() + piped_stage_args(self.stages()),
    {
        let first = Self::escape_cmd(&self.cmds[0]);
        push_arg(argv, first.as_str());
        let mut i: usize = 1;
        assert(self.cmds@.take(1) =~= seq![self.cmds@[0]]);
        assert(argv.deep_view() =~= old(argv).deep_view() + piped_stage_args(self.cmds@.take(1)));
        while i < self.cmds.len()
            invariant
                1 <= i <= self.cmds.len(),
                argv.deep_view() == old(argv).deep_view() + piped_stage_args(
                    self.cmds@.take(i as int),
                ),
            decreases self.cmds.len() - i,
        {
            push_arg(argv, "|");
            let stage = Self::escape_cmd(&self.cmds[i]);
            push_arg(argv, stage.as_str());
            proof {
                assert(self.cmds@.take(i + 1).drop_last() =~= self.cmds@.take(i as int));
                assert(argv.deep_view() =~= old(argv).deep_view() + piped_stage_args(
                    self.cmds@.take(i + 1),
                ));
            }
            i += 1;
        }
        assert(self.cmds@.take(self.cmds.len() as int) =~= self.cmds@);
    }

    /// The command line that runs the pipeline.
    pub fn to_cmd(&self) -> (argv: Vec<String>)
        requires
            self.well_formed(),
        ensures
            argv.deep_view() == self.argv(),
    {
        match self.target {
            CmdTarget::Local => {
                if self.cmds.len() == 1 {
                    return self.cmds[0].to_cmd();
                }
                let mut script: Vec<char> = Vec::new();
                self.push_joined_stages(&mut script);
                assert(script@ =~= joined_stages(self.stages()));
                let script = to_string(&script);
                let mut argv: Vec<String> = Vec::new();
                push_arg(&mut argv, "sh");
                push_arg(&mut argv, "-c");
                push_arg(&mut argv, "--");
                push_arg(&mut argv, script.as_str());
                assert(argv.deep_view() =~= self.argv());
                argv
            },
            CmdTarget::Remote { ssh } => {
                let mut argv: Vec<String> = Vec::new();
                push_arg(&mut argv, "ssh");
                if self.use_terminal_if_ssh {
                    push_arg(&mut argv, "-t");
                    push_arg(&mut argv, "-o");
                    push_arg(&mut argv, "LogLevel=QUIET");
                }
                ssh.push_control(&mut argv);
                push_options(&mut argv, ssh.options);
                push_arg(&mut argv, ssh.host);
                self.push_piped_stage_args(&mut argv);
                assert(argv.deep_view() =~= self.argv());
                argv
            },
        }
    }

    /// The readable form of the pipeline.
    pub fn to_string(&self) -> (r: String)
        requires
            self.well_formed(),
        ensures
            r@ == self.display(),
    {
        let mut out: Vec<char> = Vec::new();
        match self.target {
            CmdTarget::Local => {
                if self.cmds.len() == 1 {
                    self.cmds[0].push_display(&mut out);
                } else {
                    push_str(&mut out, "sh -c -- ");
                    self.push_joined_display(&mut out);
                }
            },
            CmdTarget::Remote { .. } => {
                self.target.push_display(&mut out);
                self.push_joined_stages(&mut out);
            },
        }
        assert(out@ =~= self.display());
        to_string(&out)
    }
}

} // verus!
