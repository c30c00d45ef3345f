//! Commands that run one after another as one script on one host.

use crate::cmd::{option_args, Cmd, CmdTarget, Pipeline};
use crate::text::{push_arg, push_str, to_string};
use vstd::prelude::*;

verus! {

/// The stages, `; ` between them.
pub open spec fn sequenced(cmds: Seq<Cmd>) -> Seq<char>
    decreases cmds.len(),
{
    if cmds.len() == 0 {
        Seq::empty()
    } else if cmds.len() == 1 {
        cmds[0].stage()
    } else {
        sequenced(cmds.drop_last()) + "; "@ + cmds.last().stage()
    }
}

/// The stages as arguments of their own, the argument `;` between them.
pub open spec fn sequenced_args(cmds: Seq<Cmd>) -> Seq<Seq<char>>
    decreases cmds.len(),
{
    if cmds.len() == 0 {
        Seq::empty()
    } else if cmds.len() == 1 {
        seq![cmds[0].stage()]
    } else {
        sequenced_args(cmds.drop_last()) + seq![";"@, cmds.last().stage()]
    }
}

/// A list of commands that runs as one script on one host, each after the
/// one before it, whether that succeeded or not. It is never empty.
#[derive(Debug)]
pub struct Sequence<'args> {
    target: &'args CmdTarget<'args>,
    cmds: Vec<Cmd<'args>>,
}

impl<'args> Sequence<'args> {
    /// A sequence holds at least one command.
    pub closed spec fn well_formed(&self) -> bool {
        self.cmds@.len() >= 1
    }

    /// The host on which the sequence runs.
    pub closed spec fn place(&self) -> &'args CmdTarget<'args> {
        self.target
    }

    /// The commands of the sequence, in order.
    pub closed spec fn steps(&self) -> Seq<Cmd<'args>> {
        self.cmds@
    }

    /// The command line that runs the sequence: a lone local command
    /// directly, several local ones as a script for `sh`, and a remote
    /// sequence as arguments of `ssh`.
    pub open spec fn argv(&self) -> Seq<Seq<char>> {
        match *self.place() {
            CmdTarget::Local => if self.steps().len() == 1 {
                self.steps()[0].argv()
            } else {
                seq!["sh"@, "-c"@, "--"@, sequenced(self.steps())]
            },
            CmdTarget::Remote { ssh } => seq!["ssh"@] + ssh.control_args() + option_args(ssh.options@)
                + seq![ssh.host@] + sequenced_args(self.steps()),
        }
    }

    /// The readable form of the sequence.
    pub open spec fn display(&self) -> Seq<char> {
        self.place().display() + sequenced(self.steps())
    }

    /// A sequence of the given commands in order, or nothing when there is no
    /// command.
    pub fn from(target: &'args CmdTarget<'args>, from: Vec<Cmd<'args>>) -> (r: Option<Self>)
        ensures
            r is Some <==> from@.len() > 0,
            r matches Some(s) ==> s.well_formed() && s.place() == target && s.steps() == from@,
    {
        if from.len() == 0 {
            None
        } else {
            Some(Self { target, cmds: from })
        }
    }

    /// The number of commands.
    pub fn len(&self) -> (r: usize)
        ensures
            r == self.steps().len(),
    {
        self.cmds.len()
    }

    fn script(&self) -> (r: String)
        requires
            self.well_formed(),
        ensures
            r@ == sequenced(self.steps()),
    {
        let mut out: Vec<char> = Vec::new();
        let first = Pipeline::escape_cmd(&self.cmds[0]);
        push_str(&mut out, first.as_str());
        let mut i: usize = 1;
        assert(self.cmds@.take(1) =~= seq![self.cmds@[0]]);
        assert(out@ =~= sequenced(self.cmds@.take(1)));
        while i < self.cmds.len()
            invariant
                1 <= i <= self.cmds.len(),
                out@ == sequenced(self.cmds@.take(i as int)),
            decreases self.cmds.len() - i,
        {
            push_str(&mut out, "; ");
            let stage = Pipeline::escape_cmd(&self.cmds[i]);
            push_str(&mut out, stage.as_str());
            proof {
                assert(self.cmds@.take(i + 1).drop_last() =~= self.cmds@.take(i as int));
                assert(out@ =~= sequenced(self.cmds@.take(i + 1)));
            }
            i += 1;
        }
        assert(self.cmds@.take(self.cmds.len() as int) =~= self.cmds@);
        to_string(&out)
    }

    /// The command line that runs the sequence.
    pub fn to_cmd(&self) -> (argv: Vec<String>)
        requires
            self.well_formed(),
        ensures
            argv.deep_view() == self.argv(),
    {
        match self.target {
            CmdTarget::Local => {
                if self.cmds.len() == 1 {
                    return self.cmds[0].to_cmd();
                }
                let script = self.script();
                let mut argv: Vec<String> = Vec::new();
                push_arg(&mut argv, "sh");
                push_arg(&mut argv, "-c");
                push_arg(&mut argv, "--");
                push_arg(&mut argv, script.as_str());
                assert(argv.deep_view() =~= self.argv());
                argv
            },
            CmdTarget::Remote { ssh } => {
                let mut argv: Vec<String> = Vec::new();
                push_arg(&mut argv, "ssh");
                match &ssh.control {
                    Some(c) => {
                        push_arg(&mut argv, "-S");
                        push_arg(&mut argv, c.as_str());
                    },
                    None => {},
                }
                let ghost head = argv.deep_view();
                assert(head =~= seq!["ssh"@] + ssh.control_args());
                let mut k: usize = 0;
                assert(argv.deep_view() =~= head + option_args(ssh.options@.take(0)));
                while k < ssh.options.len()
                    invariant
                        k <= ssh.options.len(),
                        argv.deep_view() == head + option_args(ssh.options@.take(k as int)),
                    decreases ssh.options.len() - k,
                {
                    push_arg(&mut argv, "-o");
                    push_arg(&mut argv, ssh.options[k].as_str());
                    proof {
                        assert(ssh.options@.take(k + 1).drop_last() =~= ssh.options@.take(k as int));
                        assert(argv.deep_view() =~= head + option_args(ssh.options@.take(k + 1)));
                    }
                    k += 1;
                }
                assert(ssh.options@.take(ssh.options.len() as int) =~= ssh.options@);
                push_arg(&mut argv, ssh.host);
                let ghost start = argv.deep_view();
                let first = Pipeline::escape_cmd(&self.cmds[0]);
                push_arg(&mut argv, first.as_str());
                let mut i: usize = 1;
                assert(self.cmds@.take(1) =~= seq![self.cmds@[0]]);
                assert(argv.deep_view() =~= start + sequenced_args(self.cmds@.take(1)));
                while i < self.cmds.len()
                    invariant
                        1 <= i <= self.cmds.len(),
                        argv.deep_view() == start + sequenced_args(self.cmds@.take(i as int)),
                    decreases self.cmds.len() - i,
                {
                    push_arg(&mut argv, ";");
                    let stage = Pipeline::escape_cmd(&self.cmds[i]);
                    push_arg(&mut argv, stage.as_str());
                    proof {
                        assert(self.cmds@.take(i + 1).drop_last() =~= self.cmds@.take(i as int));
                        assert(argv.deep_view() =~= start + sequenced_args(self.cmds@.take(i + 1)));
                    }
                    i += 1;
                }
                assert(self.cmds@.take(self.cmds.len() as int) =~= self.cmds@);
                assert(argv.deep_view() =~= self.argv());
                argv
            },
        }
    }

    /// The readable form of the sequence.
    pub fn to_string(&self) -> (r: String)
        requires
            self.well_formed(),
        ensures
            r@ == self.display(),
    {
        let mut out: Vec<char> = Vec::new();
        let place = self.target.to_string();
        push_str(&mut out, place.as_str());
        let script = self.script();
        push_str(&mut out, script.as_str());
        assert(out@ =~= self.display());
        to_string(&out)
    }
}

/// The commands that destroy the named snapshots one by one: the `zfs` of the
/// dataset, run where the sequence runs, with `destroy` and the name.
pub open spec fn destroy_models<'a>(zfs: &Cmd<'a>, names: Seq<Seq<char>>) -> Seq<crate::cmd::CmdModel<'a>> {
    Seq::new(
        names.len(),
        |i: int|
            crate::cmd::CmdModel {
                target: &CmdTarget::Local,
                sudo: zfs.sudo,
                base: zfs.base@,
                args: zfs.args.deep_view() + seq!["destroy"@, names[i]],
            },
    )
}

/// The sequence that destroys the named snapshots at the host of `zfs`, one
/// `zfs destroy` for each; nothing when no snapshot is named.
pub fn prune_sequence<'a>(zfs: &Cmd<'a>, names: &Vec<String>) -> (r: Option<Sequence<'a>>)
    ensures
        r is Some <==> names@.len() > 0,
        r matches Some(s) ==> s.well_formed() && s.place() == zfs.target && crate::cmd::models(s.steps())
            == destroy_models(zfs, names.deep_view()),
{
    let mut cmds: Vec<Cmd<'a>> = Vec::new();
    let ghost want = destroy_models(zfs, names.deep_view());
    let mut i: usize = 0;
    assert(crate::cmd::models(cmds@) =~= want.take(0));
    while i < names.len()
        invariant
            i <= names.len(),
            want == destroy_models(zfs, names.deep_view()),
            crate::cmd::models(cmds@) == want.take(i as int),
        decreases names.len() - i,
    {
        let mut cmd = zfs.to_mut().to_local();
        cmd.arg("destroy");
        cmd.arg(names[i].as_str());
        assert(cmd.args.deep_view() =~= zfs.args.deep_view() + seq!["destroy"@, names@[i as int]@]);
        let ghost before = crate::cmd::models(cmds@);
        cmds.push(cmd);
        assert(crate::cmd::models(cmds@) =~= before.push(cmd@));
        assert(crate::cmd::models(cmds@) =~= want.take(i + 1));
        i += 1;
    }
    assert(want.take(names.len() as int) =~= want);
    Sequence::from(zfs.target, cmds)
}

} // verus!
