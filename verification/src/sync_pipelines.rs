//! The optional helper programs of a transfer (progress meter, compressor,
//! buffer), which of them are used at which host, and the pipelines that carry
//! the data from the sending to the receiving command.
//!
//! Which helpers are wanted follows from the kind of connection and from the
//! settings. Whether a wanted helper exists at its host is found out by the
//! caller, who hands the findings in.

use crate::args::{Args, SkipToken, SkippedCommands};
use crate::cmd::{models, Cmd, CmdModel, CmdTarget, Pipeline};
use crate::compress::{words, CompressCommand};
use crate::text::{chars_of, push_arg, push_str, split_words, str_eq, texts, to_string};
use vstd::prelude::*;

verus! {

/// How source and target lie to the local machine.
#[derive(Debug, Clone, Copy, PartialEq, Eq, Structural)]
pub enum ConnectionType {
    /// Both are local.
    Local,
    /// The source is local, the target remote.
    Push,
    /// The source is remote, the target local.
    Pull,
    /// Both are remote and exchange the data between themselves.
    RemoteDirect,
    /// Both are remote and the data passes through the local machine.
    RemoteIndirect,
}

/// The helper programs that the kind of connection calls for and that the
/// settings leave switched on.
#[derive(Debug, Clone, Copy, PartialEq, Eq, Structural)]
pub struct Enabled {
    pub source_pv: bool,
    pub local_pv: bool,
    pub target_pv: bool,
    pub compress: bool,
    pub local_compress: bool,
    pub source_mbuffer: bool,
    pub local_mbuffer: bool,
    pub target_mbuffer: bool,
}

/// One test for a helper program at a host.
#[derive(Debug, Clone, Copy, PartialEq, Eq, Structural)]
pub enum Probe {
    SourcePv,
    LocalPv,
    TargetPv,
    SourceCompress,
    LocalCompress,
    LocalDecompress,
    TargetDecompress,
    SourceMbuffer,
    LocalMbuffer,
    TargetMbuffer,
}

/// What the tests found: for each helper program at each host, whether it
/// exists there.
#[derive(Debug, Clone, Copy, PartialEq, Eq, Structural)]
pub struct Found {
    pub source_pv: bool,
    pub local_pv: bool,
    pub target_pv: bool,
    pub source_compress: bool,
    pub local_compress: bool,
    pub local_decompress: bool,
    pub target_decompress: bool,
    pub source_mbuffer: bool,
    pub local_mbuffer: bool,
    pub target_mbuffer: bool,
}

/// A place in a pipeline that a helper program can take.
#[derive(Debug, Clone, Copy, PartialEq, Eq, Structural)]
pub enum Slot {
    SourcePv,
    TargetPv,
    LocalPv,
    SourceCompress,
    TargetCompress,
    LocalCompress,
    LocalDecompress,
    SourceMbuffer,
    TargetMbuffer,
    LocalSourceMbuffer,
    LocalTargetMbuffer,
}

/// Which places are taken.
#[derive(Debug, Clone, Copy, PartialEq, Eq, Structural)]
pub struct Slots {
    pub source_pv: bool,
    pub target_pv: bool,
    pub local_pv: bool,
    pub source_compress: bool,
    pub target_compress: bool,
    pub local_compress: bool,
    pub local_decompress: bool,
    pub source_mbuffer: bool,
    pub target_mbuffer: bool,
    pub local_source_mbuffer: bool,
    pub local_target_mbuffer: bool,
}

impl Found {
    /// Whether the probe found its program.
    pub open spec fn get(&self, probe: Probe) -> bool {
        match probe {
            Probe::SourcePv => self.source_pv,
            Probe::LocalPv => self.local_pv,
            Probe::TargetPv => self.target_pv,
            Probe::SourceCompress => self.source_compress,
            Probe::LocalCompress => self.local_compress,
            Probe::LocalDecompress => self.local_decompress,
            Probe::TargetDecompress => self.target_decompress,
            Probe::SourceMbuffer => self.source_mbuffer,
            Probe::LocalMbuffer => self.local_mbuffer,
            Probe::TargetMbuffer => self.target_mbuffer,
        }
    }

    /// Findings in which every helper program exists everywhere or nowhere.
    pub fn all(found: bool) -> (r: Self)
        ensures
            forall|p: Probe| r.get(p) == found,
            found ==> r == effective(r, true),
    {
        Found {
            source_pv: found,
            local_pv: found,
            target_pv: found,
            source_compress: found,
            local_compress: found,
            local_decompress: found,
            target_decompress: found,
            source_mbuffer: found,
            local_mbuffer: found,
            target_mbuffer: found,
        }
    }

    /// Records the outcome of one test.
    pub fn record(&mut self, probe: Probe, found: bool)
        ensures
            forall|p: Probe|
                final(self).get(p) == (if p == probe {
                    found
                } else {
                    old(self).get(p)
                }),
    {
        match probe {
            Probe::SourcePv => self.source_pv = found,
            Probe::LocalPv => self.local_pv = found,
            Probe::TargetPv => self.target_pv = found,
            Probe::SourceCompress => self.source_compress = found,
            Probe::LocalCompress => self.local_compress = found,
            Probe::LocalDecompress => self.local_decompress = found,
            Probe::TargetDecompress => self.target_decompress = found,
            Probe::SourceMbuffer => self.source_mbuffer = found,
            Probe::LocalMbuffer => self.local_mbuffer = found,
            Probe::TargetMbuffer => self.target_mbuffer = found,
        }
    }
}

impl Slots {
    /// Whether the slot is filled.
    pub open spec fn has(&self, slot: Slot) -> bool {
        match slot {
            Slot::SourcePv => self.source_pv,
            Slot::TargetPv => self.target_pv,
            Slot::LocalPv => self.local_pv,
            Slot::SourceCompress => self.source_compress,
            Slot::TargetCompress => self.target_compress,
            Slot::LocalCompress => self.local_compress,
            Slot::LocalDecompress => self.local_decompress,
            Slot::SourceMbuffer => self.source_mbuffer,
            Slot::TargetMbuffer => self.target_mbuffer,
            Slot::LocalSourceMbuffer => self.local_source_mbuffer,
            Slot::LocalTargetMbuffer => self.local_target_mbuffer,
        }
    }

    /// Whether the slot is filled.
    pub fn contains(&self, slot: Slot) -> (r: bool)
        ensures
            r == self.has(slot),
    {
        match slot {
            Slot::SourcePv => self.source_pv,
            Slot::TargetPv => self.target_pv,
            Slot::LocalPv => self.local_pv,
            Slot::SourceCompress => self.source_compress,
            Slot::TargetCompress => self.target_compress,
            Slot::LocalCompress => self.local_compress,
            Slot::LocalDecompress => self.local_decompress,
            Slot::SourceMbuffer => self.source_mbuffer,
            Slot::TargetMbuffer => self.target_mbuffer,
            Slot::LocalSourceMbuffer => self.local_source_mbuffer,
            Slot::LocalTargetMbuffer => self.local_target_mbuffer,
        }
    }
}

/// The kind of connection between a source and a target.
pub open spec fn connection(source_remote: bool, target_remote: bool, direct: bool) -> ConnectionType {
    if source_remote && target_remote {
        if direct {
            ConnectionType::RemoteDirect
        } else {
            ConnectionType::RemoteIndirect
        }
    } else if source_remote {
        ConnectionType::Pull
    } else if target_remote {
        ConnectionType::Push
    } else {
        ConnectionType::Local
    }
}

/// The helper programs that are wanted. `terminal` says whether the standard
/// error stream is a terminal, `compressing` whether a compression format is
/// set.
///
/// The progress meter shows at one host only, and only on a terminal and
/// unless quiet (a pull shows it locally unless quiet). Compression is for
/// hosts that differ, and both ends must be switched on. Buffers are wanted at
/// every host that carries data. Between two remote hosts the data is
/// recompressed locally only where the local progress meter needs to see it
/// uncompressed.
pub open spec fn relevant(
    conn: ConnectionType,
    skip: SkippedCommands,
    quiet: bool,
    compressing: bool,
    terminal: bool,
) -> Enabled {
    let use_pv = terminal && !quiet;
    match conn {
        ConnectionType::Local => Enabled {
            source_pv: false,
            local_pv: !skip.localpv && use_pv,
            target_pv: false,
            compress: false,
            local_compress: false,
            source_mbuffer: false,
            local_mbuffer: !skip.localmbuffer,
            target_mbuffer: false,
        },
        ConnectionType::Push => Enabled {
            source_pv: false,
            local_pv: !skip.localpv && use_pv,
            target_pv: false,
            compress: !skip.localcompress && !skip.compress && compressing,
            local_compress: !skip.localcompress && !skip.compress && compressing,
            source_mbuffer: false,
            local_mbuffer: !skip.localmbuffer,
            target_mbuffer: !skip.targetmbuffer,
        },
        ConnectionType::Pull => Enabled {
            source_pv: false,
            local_pv: !skip.localpv && !quiet,
            target_pv: false,
            compress: !skip.compress && !skip.localcompress && compressing,
            local_compress: !skip.compress && !skip.localcompress && compressing,
            source_mbuffer: !skip.sourcembuffer,
            local_mbuffer: !skip.localmbuffer,
            target_mbuffer: false,
        },
        ConnectionType::RemoteDirect => Enabled {
            source_pv: !skip.sourcepv && use_pv,
            local_pv: false,
            target_pv: !skip.targetpv && use_pv,
            compress: !skip.compress && compressing,
            local_compress: false,
            source_mbuffer: !skip.sourcembuffer,
            local_mbuffer: false,
            target_mbuffer: !skip.targetmbuffer,
        },
        ConnectionType::RemoteIndirect => {
            let c = !skip.compress && compressing;
            Enabled {
                source_pv: !skip.sourcepv && use_pv,
                local_pv: if c {
                    !skip.localcompress && !skip.localpv && use_pv
                } else {
                    !skip.localpv && use_pv
                },
                target_pv: false,
                compress: c,
                local_compress: c && !skip.localcompress && !skip.localpv && use_pv,
                source_mbuffer: !skip.sourcembuffer,
                local_mbuffer: !skip.localmbuffer,
                target_mbuffer: !skip.targetmbuffer,
            }
        },
    }
}

/// Whether the kind of connection, with these helpers wanted, asks whether
/// the program of `probe` exists at its host.
pub open spec fn consumes(conn: ConnectionType, en: Enabled, probe: Probe) -> bool {
    match conn {
        ConnectionType::Local => match probe {
            Probe::LocalPv => en.local_pv,
            Probe::LocalMbuffer => en.local_mbuffer,
            _ => false,
        },
        ConnectionType::Push => match probe {
            Probe::LocalPv => en.local_pv,
            Probe::LocalMbuffer => en.local_mbuffer,
            Probe::LocalCompress => en.local_compress && en.compress,
            Probe::TargetDecompress => en.local_compress && en.compress,
            Probe::TargetMbuffer => en.target_mbuffer,
            _ => false,
        },
        ConnectionType::Pull => match probe {
            Probe::SourceCompress => en.local_compress && en.compress,
            Probe::LocalDecompress => en.local_compress && en.compress,
            Probe::SourceMbuffer => en.source_mbuffer,
            Probe::LocalMbuffer => en.local_mbuffer,
            Probe::LocalPv => en.local_pv,
            _ => false,
        },
        ConnectionType::RemoteDirect => match probe {
            Probe::SourcePv => en.source_pv,
            Probe::TargetPv => en.target_pv,
            Probe::SourceCompress => en.compress,
            Probe::TargetDecompress => en.compress,
            Probe::SourceMbuffer => en.source_mbuffer,
            Probe::TargetMbuffer => en.target_mbuffer,
            _ => false,
        },
        ConnectionType::RemoteIndirect => match probe {
            Probe::SourceCompress => en.compress,
            Probe::TargetDecompress => en.compress,
            Probe::LocalPv => en.local_pv,
            Probe::LocalCompress => en.compress && en.local_pv && en.local_compress,
            Probe::LocalDecompress => en.compress && en.local_pv && en.local_compress,
            Probe::SourcePv => en.source_pv,
            Probe::SourceMbuffer => en.source_mbuffer,
            Probe::TargetMbuffer => en.target_mbuffer,
            Probe::LocalMbuffer => en.local_mbuffer,
            Probe::TargetPv => false,
        },
    }
}

/// The places that are taken, given what is wanted and what exists.
///
/// A helper takes its place where it is wanted and exists. Compression takes
/// both its places or neither. Between two remote hosts that exchange the data
/// directly the progress meter runs at the source if it exists there, else at
/// the target. Where the data passes through the local machine the progress
/// meter runs locally (together with a local decompressor and compressor when
/// the data is compressed), else at the source; the two local buffers are
/// used only beside a local progress meter.
pub open spec fn select(conn: ConnectionType, en: Enabled, ex: Found) -> Slots {
    match conn {
        ConnectionType::Local => Slots {
            source_pv: en.local_pv && ex.local_pv,
            target_pv: false,
            local_pv: false,
            source_compress: false,
            target_compress: false,
            local_compress: false,
            local_decompress: false,
            source_mbuffer: en.local_mbuffer && ex.local_mbuffer,
            target_mbuffer: false,
            local_source_mbuffer: false,
            local_target_mbuffer: false,
        },
        ConnectionType::Push => {
            let c = en.local_compress && en.compress && ex.local_compress && ex.target_decompress;
            Slots {
                source_pv: en.local_pv && ex.local_pv,
                target_pv: false,
                local_pv: false,
                source_compress: c,
                target_compress: c,
                local_compress: false,
                local_decompress: false,
                source_mbuffer: en.local_mbuffer && ex.local_mbuffer,
                target_mbuffer: en.target_mbuffer && ex.target_mbuffer,
                local_source_mbuffer: false,
                local_target_mbuffer: false,
            }
        },
        ConnectionType::Pull => {
            let c = en.compress && en.local_compress && ex.source_compress && ex.local_decompress;
            Slots {
                source_pv: false,
                target_pv: en.local_pv && ex.local_pv,
                local_pv: false,
                source_compress: c,
                target_compress: c,
                local_compress: false,
                local_decompress: false,
                source_mbuffer: en.source_mbuffer && ex.source_mbuffer,
                target_mbuffer: en.local_mbuffer && ex.local_mbuffer,
                local_source_mbuffer: false,
                local_target_mbuffer: false,
            }
        },
        ConnectionType::RemoteDirect => {
            let c = en.compress && ex.source_compress && ex.target_decompress;
            Slots {
                source_pv: en.source_pv && ex.source_pv,
                target_pv: en.target_pv && ex.target_pv && !(en.source_pv && ex.source_pv),
                local_pv: false,
                source_compress: c,
                target_compress: c,
                local_compress: false,
                local_decompress: false,
                source_mbuffer: en.source_mbuffer && ex.source_mbuffer,
                target_mbuffer: en.target_mbuffer && ex.target_mbuffer,
                local_source_mbuffer: false,
                local_target_mbuffer: false,
            }
        },
        ConnectionType::RemoteIndirect => {
            let c = en.compress && ex.source_compress && ex.target_decompress;
            let lp = if c {
                en.local_pv && en.local_compress && ex.local_pv && ex.local_compress
                    && ex.local_decompress
            } else {
                en.local_pv && ex.local_pv
            };
            Slots {
                source_pv: !lp && en.source_pv && ex.source_pv,
                target_pv: false,
                local_pv: lp,
                source_compress: c,
                target_compress: c,
                local_compress: c && lp,
                local_decompress: c && lp,
                source_mbuffer: en.source_mbuffer && ex.source_mbuffer,
                target_mbuffer: en.target_mbuffer && ex.target_mbuffer,
                local_source_mbuffer: lp && en.local_mbuffer && ex.local_mbuffer,
                local_target_mbuffer: lp && en.local_mbuffer && ex.local_mbuffer,
            }
        },
    }
}

/// The names that the warnings speak of: the three hosts, and the programs
/// that compress and decompress.
pub struct Names {
    pub source: Seq<char>,
    pub local: Seq<char>,
    pub target: Seq<char>,
    pub compress: Seq<char>,
    pub decompress: Seq<char>,
}

/// The warning that the programs `cmds` are missing at `targets`, that the
/// sync goes on without `continue_without`, and that `skip_with` silences the
/// warning.
pub open spec fn notice(
    cmds: Seq<char>,
    targets: Seq<char>,
    continue_without: Seq<char>,
    skip_with: Seq<char>,
) -> Seq<char> {
    cmds + " not available on "@ + targets + " - sync will continue without "@ + continue_without
        + " - to disable this warning use --skip-optional-commands '"@ + skip_with + "'"@
}

/// The warning, if the condition holds.
pub open spec fn when(condition: bool, warning: Seq<char>) -> Seq<Seq<char>> {
    if condition {
        seq![warning]
    } else {
        Seq::empty()
    }
}

/// The warning about the first of the two programs of a compression pair that
/// is missing, if one is.
pub open spec fn pair_notice(
    wanted: bool,
    first_found: bool,
    first: Seq<char>,
    first_place: Seq<char>,
    first_token: Seq<char>,
    second_found: bool,
    second: Seq<char>,
    second_place: Seq<char>,
    second_token: Seq<char>,
) -> Seq<Seq<char>> {
    if !wanted {
        Seq::empty()
    } else if !first_found {
        seq![notice(first, first_place, "compression"@, first_token)]
    } else if !second_found {
        seq![notice(second, second_place, "compression"@, second_token)]
    } else {
        Seq::empty()
    }
}

/// The warnings about the progress meter where the data passes through the
/// local machine: about the first missing program of the local group, then
/// about a missing progress meter at the source if that was tried.
pub open spec fn indirect_pv_notices(en: Enabled, ex: Found, n: Names) -> Seq<Seq<char>> {
    let c = en.compress && ex.source_compress && ex.target_decompress;
    let lp = select(ConnectionType::RemoteIndirect, en, ex).local_pv;
    (if c {
        if en.local_pv && en.local_compress {
            if !ex.local_pv {
                seq![notice("pv"@, n.local, "progress bar"@, "localpv"@)]
            } else if !ex.local_compress {
                seq![notice(n.compress, n.local, "progress bar"@, "localcompress"@)]
            } else if !ex.local_decompress {
                seq![notice(n.decompress, n.local, "progress bar"@, "localcompress"@)]
            } else {
                Seq::empty()
            }
        } else {
            Seq::empty()
        }
    } else {
        when(en.local_pv && !ex.local_pv, notice("pv"@, n.local, "progress bar"@, "localpv"@))
    }) + when(
        !lp && en.source_pv && !ex.source_pv,
        notice("pv"@, n.source, "progress bar"@, "sourcepv"@),
    )
}

/// The warnings, in the order in which they are given: one for each wanted
/// helper that is missing and for which the sync goes on without.
pub open spec fn notices(conn: ConnectionType, en: Enabled, ex: Found, n: Names) -> Seq<Seq<char>> {
    let limits = "buffering and bandwith limits"@;
    let writes = "buffering and write limits"@;
    match conn {
        ConnectionType::Local => when(
            en.local_pv && !ex.local_pv,
            notice("pv"@, n.local, "progress bar"@, "localpv"@),
        ) + when(
            en.local_mbuffer && !ex.local_mbuffer,
            notice("mbuffer"@, n.local, limits, "localmbuffer"@),
        ),
        ConnectionType::Push => when(
            en.local_pv && !ex.local_pv,
            notice("pv"@, n.local, "progress bar"@, "localpv"@),
        ) + when(
            en.local_mbuffer && !ex.local_mbuffer,
            notice("mbuffer"@, n.local, limits, "localmbuffer"@),
        ) + pair_notice(
            en.local_compress && en.compress,
            ex.local_compress,
            n.compress,
            n.local,
            "localcompress"@,
            ex.target_decompress,
            n.decompress,
            n.target,
            "compress"@,
        ) + when(
            en.target_mbuffer && !ex.target_mbuffer,
            notice("mbuffer"@, n.target, writes, "targetmbuffer"@),
        ),
        ConnectionType::Pull => pair_notice(
            en.compress && en.local_compress,
            ex.source_compress,
            n.compress,
            n.source,
            "compress"@,
            ex.local_decompress,
            n.decompress,
            n.local,
            "localcompress"@,
        ) + when(
            en.source_mbuffer && !ex.source_mbuffer,
            notice("mbuffer"@, n.source, limits, "sourcembuffer"@),
        ) + when(
            en.local_mbuffer && !ex.local_mbuffer,
            notice("mbuffer"@, n.local, writes, "localmbuffer"@),
        ) + when(en.local_pv && !ex.local_pv, notice("pv"@, n.local, "progress bar"@, "localpv"@)),
        ConnectionType::RemoteDirect => (if en.source_pv && en.target_pv {
            when(
                !ex.source_pv && !ex.target_pv,
                notice("pv"@, n.source + " and "@ + n.target, "progress bar"@, "sourcepv,targetpv"@),
            )
        } else if en.source_pv {
            when(!ex.source_pv, notice("pv"@, n.source, "progress bar"@, "sourcepv"@))
        } else {
            when(
                en.target_pv && !ex.target_pv,
                notice("pv"@, n.target, "progress bar"@, "targetpv"@),
            )
        }) + pair_notice(
            en.compress,
            ex.source_compress,
            n.compress,
            n.source,
            "compress"@,
            ex.target_decompress,
            n.decompress,
            n.target,
            "compress"@,
        ) + when(
            en.source_mbuffer && !ex.source_mbuffer,
            notice("mbuffer"@, n.source, limits, "sourcembuffer"@),
        ) + when(
            en.target_mbuffer && !ex.target_mbuffer,
            notice("mbuffer"@, n.target, writes, "targetmbuffer"@),
        ),
        ConnectionType::RemoteIndirect => pair_notice(
            en.compress,
            ex.source_compress,
            n.compress,
            n.source,
            "compress"@,
            ex.target_decompress,
            n.decompress,
            n.target,
            "compress"@,
        ) + indirect_pv_notices(en, ex, n) + when(
            en.source_mbuffer && !ex.source_mbuffer,
            notice("mbuffer"@, n.source, limits, "sourcembuffer"@),
        ) + when(
            en.target_mbuffer && !ex.target_mbuffer,
            notice("mbuffer"@, n.target, writes, "targetmbuffer"@),
        ) + when(
            select(conn, en, ex).local_pv && en.local_mbuffer && !ex.local_mbuffer,
            notice("mbuffer"@, n.local, "local buffering and bandwidth limits"@, "localmbuffer"@),
        ),
    }
}

/// Findings that agree on every test that is asked for give the same places
/// and the same warnings: nothing else needs to be tested.
pub proof fn lemma_only_consumed_probes_count(
    conn: ConnectionType,
    en: Enabled,
    a: Found,
    b: Found,
    n: Names,
)
    requires
        forall|p: Probe| consumes(conn, en, p) ==> a.get(p) == b.get(p),
    ensures
        select(conn, en, a) == select(conn, en, b),
        notices(conn, en, a, n) == notices(conn, en, b, n),
{
    assert(consumes(conn, en, Probe::SourcePv) ==> a.get(Probe::SourcePv) == b.get(Probe::SourcePv));
    assert(consumes(conn, en, Probe::LocalPv) ==> a.get(Probe::LocalPv) == b.get(Probe::LocalPv));
    assert(consumes(conn, en, Probe::TargetPv) ==> a.get(Probe::TargetPv) == b.get(Probe::TargetPv));
    assert(consumes(conn, en, Probe::SourceCompress) ==> a.get(Probe::SourceCompress) == b.get(
        Probe::SourceCompress,
    ));
    assert(consumes(conn, en, Probe::LocalCompress) ==> a.get(Probe::LocalCompress) == b.get(
        Probe::LocalCompress,
    ));
    assert(consumes(conn, en, Probe::LocalDecompress) ==> a.get(Probe::LocalDecompress) == b.get(
        Probe::LocalDecompress,
    ));
    assert(consumes(conn, en, Probe::TargetDecompress) ==> a.get(Probe::TargetDecompress) == b.get(
        Probe::TargetDecompress,
    ));
    assert(consumes(conn, en, Probe::SourceMbuffer) ==> a.get(Probe::SourceMbuffer) == b.get(
        Probe::SourceMbuffer,
    ));
    assert(consumes(conn, en, Probe::LocalMbuffer) ==> a.get(Probe::LocalMbuffer) == b.get(
        Probe::LocalMbuffer,
    ));
    assert(consumes(conn, en, Probe::TargetMbuffer) ==> a.get(Probe::TargetMbuffer) == b.get(
        Probe::TargetMbuffer,
    ));
}

/// A place is taken only by a helper that was wanted.
pub proof fn lemma_selected_was_wanted(conn: ConnectionType, en: Enabled, ex: Found)
    ensures
        ({
            let s = select(conn, en, ex);
            &&& s.source_compress == s.target_compress
            &&& s.source_compress ==> en.compress
            &&& s.local_compress ==> en.compress && en.local_compress
            &&& s.local_decompress == s.local_compress
            &&& !(s.source_pv && s.local_pv) && !(s.source_pv && s.target_pv) && !(s.local_pv
                && s.target_pv)
        }),
{
}

impl ConnectionType {
    /// The kind of connection between the two hosts.
    pub fn new(source_cmd_target: &CmdTarget, target_cmd_target: &CmdTarget, args: &Args) -> (r: Self)
        ensures
            r == connection(source_cmd_target.remote(), target_cmd_target.remote(), false),
    {
        match (source_cmd_target.is_remote(), target_cmd_target.is_remote()) {
            (true, true) => {
                if args.direct_connection() {
                    ConnectionType::RemoteDirect
                } else {
                    ConnectionType::RemoteIndirect
                }
            },
            (true, false) => ConnectionType::Pull,
            (false, true) => ConnectionType::Push,
            (false, false) => ConnectionType::Local,
        }
    }

    /// The helper programs that are wanted, before any test for existence.
    /// `stderr_is_terminal` says whether the standard error stream of this
    /// process is a terminal.
    pub fn get_relevant_enabled(&self, args: &Args, stderr_is_terminal: bool) -> (r: Enabled)
        ensures
            r == relevant(
                *self,
                args.skip_optional_commands,
                args.quiet,
                !(args.compress is Off),
                stderr_is_terminal,
            ),
    {
        let use_pv = stderr_is_terminal && !args.quiet;
        let use_compress = args.compress.is_some();
        let localpv = args.optional_enabled(SkipToken::LocalPv);
        let sourcepv = args.optional_enabled(SkipToken::SourcePv);
        let targetpv = args.optional_enabled(SkipToken::TargetPv);
        let compress = args.optional_enabled(SkipToken::Compress);
        let localcompress = args.optional_enabled(SkipToken::LocalCompress);
        let sourcembuffer = args.optional_enabled(SkipToken::SourceMbuffer);
        let targetmbuffer = args.optional_enabled(SkipToken::TargetMbuffer);
        let localmbuffer = args.optional_enabled(SkipToken::LocalMbuffer);
        let mut res = Enabled {
            source_pv: false,
            local_pv: false,
            target_pv: false,
            compress: false,
            local_compress: false,
            source_mbuffer: false,
            local_mbuffer: false,
            target_mbuffer: false,
        };
        match self {
            ConnectionType::Local => {
                if localpv && use_pv {
                    res.local_pv = true;
                }
                if localmbuffer {
                    res.local_mbuffer = true;
                }
            },
            ConnectionType::Push => {
                if localpv && use_pv {
                    res.local_pv = true;
                }
                if localmbuffer {
                    res.local_mbuffer = true;
                }
                if localcompress && compress && use_compress {
                    res.local_compress = true;
                    res.compress = true;
                }
                if targetmbuffer {
                    res.target_mbuffer = true;
                }
            },
            ConnectionType::Pull => {
                if compress && localcompress && use_compress {
                    res.compress = true;
                    res.local_compress = true;
                }
                if sourcembuffer {
                    res.source_mbuffer = true;
                }
                if localmbuffer {
                    res.local_mbuffer = true;
                }
                if localpv && !args.quiet {
                    res.local_pv = true;
                }
            },
            ConnectionType::RemoteDirect => {
                if sourcepv && use_pv {
                    res.source_pv = true;
                }
                if compress && use_compress {
                    res.compress = true;
                }
                if sourcembuffer {
                    res.source_mbuffer = true;
                }
                if targetmbuffer {
                    res.target_mbuffer = true;
                }
                if targetpv && use_pv {
                    res.target_pv = true;
                }
            },
            ConnectionType::RemoteIndirect => {
                if sourcepv && use_pv {
                    res.source_pv = true;
                }
                if compress && use_compress {
                    res.compress = true;
                    if localcompress && localpv && use_pv {
                        res.local_compress = true;
                        res.local_pv = true;
                    }
                } else if localpv && use_pv {
                    res.local_pv = true;
                }
                if sourcembuffer {
                    res.source_mbuffer = true;
                }
                if targetmbuffer {
                    res.target_mbuffer = true;
                }
                if localmbuffer {
                    res.local_mbuffer = true;
                }
            },
        }
        res
    }

    /// Whether the test is asked for, given what is wanted.
    pub fn asks(&self, enabled: &Enabled, probe: Probe) -> (r: bool)
        ensures
            r == consumes(*self, *enabled, probe),
    {
        let en = enabled;
        match self {
            ConnectionType::Local => match probe {
                Probe::LocalPv => en.local_pv,
                Probe::LocalMbuffer => en.local_mbuffer,
                _ => false,
            },
            ConnectionType::Push => match probe {
                Probe::LocalPv => en.local_pv,
                Probe::LocalMbuffer => en.local_mbuffer,
                Probe::LocalCompress => en.local_compress && en.compress,
                Probe::TargetDecompress => en.local_compress && en.compress,
                Probe::TargetMbuffer => en.target_mbuffer,
                _ => false,
            },
            ConnectionType::Pull => match probe {
                Probe::SourceCompress => en.local_compress && en.compress,
                Probe::LocalDecompress => en.local_compress && en.compress,
                Probe::SourceMbuffer => en.source_mbuffer,
                Probe::LocalMbuffer => en.local_mbuffer,
                Probe::LocalPv => en.local_pv,
                _ => false,
            },
            ConnectionType::RemoteDirect => match probe {
                Probe::SourcePv => en.source_pv,
                Probe::TargetPv => en.target_pv,
                Probe::SourceCompress => en.compress,
                Probe::TargetDecompress => en.compress,
                Probe::SourceMbuffer => en.source_mbuffer,
                Probe::TargetMbuffer => en.target_mbuffer,
                _ => false,
            },
            ConnectionType::RemoteIndirect => match probe {
                Probe::SourceCompress => en.compress,
                Probe::TargetDecompress => en.compress,
                Probe::LocalPv => en.local_pv,
                Probe::LocalCompress => en.compress && en.local_pv && en.local_compress,
                Probe::LocalDecompress => en.compress && en.local_pv && en.local_compress,
                Probe::SourcePv => en.source_pv,
                Probe::SourceMbuffer => en.source_mbuffer,
                Probe::TargetMbuffer => en.target_mbuffer,
                Probe::LocalMbuffer => en.local_mbuffer,
                Probe::TargetPv => false,
            },
        }
    }

    /// The places that are taken, given what is wanted and what exists.
    pub fn choose_slots(&self, en: &Enabled, ex: &Found) -> (r: Slots)
        ensures
            r == select(*self, *en, *ex),
    {
        let mut s = Slots {
            source_pv: false,
            target_pv: false,
            local_pv: false,
            source_compress: false,
            target_compress: false,
            local_compress: false,
            local_decompress: false,
            source_mbuffer: false,
            target_mbuffer: false,
            local_source_mbuffer: false,
            local_target_mbuffer: false,
        };
        match self {
            ConnectionType::Local => {
                s.source_pv = en.local_pv && ex.local_pv;
                s.source_mbuffer = en.local_mbuffer && ex.local_mbuffer;
            },
            ConnectionType::Push => {
                let c = en.local_compress && en.compress && ex.local_compress
                    && ex.target_decompress;
                s.source_pv = en.local_pv && ex.local_pv;
                s.source_mbuffer = en.local_mbuffer && ex.local_mbuffer;
                s.source_compress = c;
                s.target_compress = c;
                s.target_mbuffer = en.target_mbuffer && ex.target_mbuffer;
            },
            ConnectionType::Pull => {
                let c = en.compress && en.local_compress && ex.source_compress
                    && ex.local_decompress;
                s.source_compress = c;
                s.target_compress = c;
                s.source_mbuffer = en.source_mbuffer && ex.source_mbuffer;
                s.target_mbuffer = en.local_mbuffer && ex.local_mbuffer;
                s.target_pv = en.local_pv && ex.local_pv;
            },
            ConnectionType::RemoteDirect => {
                let c = en.compress && ex.source_compress && ex.target_decompress;
                s.source_pv = en.source_pv && ex.source_pv;
                s.target_pv = en.target_pv && ex.target_pv && !s.source_pv;
                s.source_compress = c;
                s.target_compress = c;
                s.source_mbuffer = en.source_mbuffer && ex.source_mbuffer;
                s.target_mbuffer = en.target_mbuffer && ex.target_mbuffer;
            },
            ConnectionType::RemoteIndirect => {
                let c = en.compress && ex.source_compress && ex.target_decompress;
                let lp = if c {
                    en.local_pv && en.local_compress && ex.local_pv && ex.local_compress
                        && ex.local_decompress
                } else {
                    en.local_pv && ex.local_pv
                };
                s.source_compress = c;
                s.target_compress = c;
                s.local_pv = lp;
                s.local_compress = c && lp;
                s.local_decompress = c && lp;
                s.source_pv = !lp && en.source_pv && ex.source_pv;
                s.source_mbuffer = en.source_mbuffer && ex.source_mbuffer;
                s.target_mbuffer = en.target_mbuffer && ex.target_mbuffer;
                s.local_source_mbuffer = lp && en.local_mbuffer && ex.local_mbuffer;
                s.local_target_mbuffer = lp && en.local_mbuffer && ex.local_mbuffer;
            },
        }
        s
    }
}

/// One of the three hosts of a sync.
#[derive(Debug, Clone, Copy, PartialEq, Eq, Structural)]
pub enum Hop {
    Source,
    Local,
    Target,
}

impl Probe {
    /// The host at which the test is made.
    pub open spec fn place(&self) -> Hop {
        match self {
            Probe::SourcePv | Probe::SourceCompress | Probe::SourceMbuffer => Hop::Source,
            Probe::LocalPv | Probe::LocalCompress | Probe::LocalDecompress | Probe::LocalMbuffer => Hop::Local,
            Probe::TargetPv | Probe::TargetDecompress | Probe::TargetMbuffer => Hop::Target,
        }
    }

    /// The program that is looked for: the progress meter, the buffer, or the
    /// compressor or decompressor of the format, which has none when the
    /// format is off.
    pub open spec fn wanted(&self, compress: Option<CompressCommand>) -> Option<Seq<char>> {
        match self {
            Probe::SourcePv | Probe::LocalPv | Probe::TargetPv => Some("pv"@),
            Probe::SourceMbuffer | Probe::LocalMbuffer | Probe::TargetMbuffer => Some("mbuffer"@),
            Probe::SourceCompress | Probe::LocalCompress => match compress {
                Some(c) => Some(c.base@),
                None => None,
            },
            Probe::LocalDecompress | Probe::TargetDecompress => match compress {
                Some(c) => Some(c.decompress@),
                None => None,
            },
        }
    }

    /// The host at which the test is made.
    pub fn hop(&self) -> (r: Hop)
        ensures
            r == self.place(),
    {
        match self {
            Probe::SourcePv | Probe::SourceCompress | Probe::SourceMbuffer => Hop::Source,
            Probe::LocalPv | Probe::LocalCompress | Probe::LocalDecompress | Probe::LocalMbuffer => Hop::Local,
            Probe::TargetPv | Probe::TargetDecompress | Probe::TargetMbuffer => Hop::Target,
        }
    }

    /// The program that is looked for.
    pub fn program(&self, compress: &Option<CompressCommand>) -> (r: Option<&'static str>)
        ensures
            crate::fs::opt_text(r) == self.wanted(*compress),
    {
        match self {
            Probe::SourcePv | Probe::LocalPv | Probe::TargetPv => Some("pv"),
            Probe::SourceMbuffer | Probe::LocalMbuffer | Probe::TargetMbuffer => Some("mbuffer"),
            Probe::SourceCompress | Probe::LocalCompress => match compress {
                Some(c) => Some(c.base),
                None => None,
            },
            Probe::LocalDecompress | Probe::TargetDecompress => match compress {
                Some(c) => Some(c.decompress),
                None => None,
            },
        }
    }
}

/// The tests that the connection asks for, each once.
pub fn needed_probes(conn: ConnectionType, enabled: &Enabled) -> (r: Vec<Probe>)
    ensures
        forall|p: Probe| r@.contains(p) <==> consumes(conn, *enabled, p),
        r@.no_duplicates(),
{
    let all: [Probe; 10] = [
        Probe::SourcePv,
        Probe::LocalPv,
        Probe::TargetPv,
        Probe::SourceCompress,
        Probe::LocalCompress,
        Probe::LocalDecompress,
        Probe::TargetDecompress,
        Probe::SourceMbuffer,
        Probe::LocalMbuffer,
        Probe::TargetMbuffer,
    ];
    assert(forall|p: Probe| all@.contains(p)) by {
        assert forall|p: Probe| all@.contains(p) by {
            match p {
                Probe::SourcePv => assert(all@[0] == p),
                Probe::LocalPv => assert(all@[1] == p),
                Probe::TargetPv => assert(all@[2] == p),
                Probe::SourceCompress => assert(all@[3] == p),
                Probe::LocalCompress => assert(all@[4] == p),
                Probe::LocalDecompress => assert(all@[5] == p),
                Probe::TargetDecompress => assert(all@[6] == p),
                Probe::SourceMbuffer => assert(all@[7] == p),
                Probe::LocalMbuffer => assert(all@[8] == p),
                Probe::TargetMbuffer => assert(all@[9] == p),
            }
        }
    }
    let mut out: Vec<Probe> = Vec::new();
    let mut i: usize = 0;
    while i < 10
        invariant
            i <= 10,
            all@.len() == 10,
            all@.no_duplicates(),
            forall|k: int| 0 <= k < out@.len() ==> exists|j: int| 0 <= j < i && all@[j] == #[trigger] out@[k],
            forall|j: int| 0 <= j < i ==> (out@.contains(#[trigger] all@[j]) <==> consumes(conn, *enabled, all@[j])),
            forall|k: int| 0 <= k < out@.len() ==> consumes(conn, *enabled, #[trigger] out@[k]),
            out@.no_duplicates(),
        decreases 10 - i,
    {
        let ghost before = out@;
        if conn.asks(enabled, all[i]) {
            assert(!before.contains(all@[i as int])) by {
                if before.contains(all@[i as int]) {
                    let k = choose|k: int| 0 <= k < before.len() && before[k] == all@[i as int];
                    let j = choose|j: int| 0 <= j < i && all@[j] == before[k];
                    assert(all@[j] == all@[i as int]);
                }
            }
            out.push(all[i]);
            assert(out@[out@.len() - 1] == all@[i as int]);
            assert forall|j: int| 0 <= j < i + 1 implies (out@.contains(#[trigger] all@[j]) <==> consumes(
                conn,
                *enabled,
                all@[j],
            )) by {
                if j < i {
                    if before.contains(all@[j]) {
                        let k = choose|k: int| 0 <= k < before.len() && before[k] == all@[j];
                        assert(out@[k] == all@[j]);
                    }
                    if out@.contains(all@[j]) {
                        let k = choose|k: int| 0 <= k < out@.len() && out@[k] == all@[j];
                        if k < before.len() {
                            assert(before[k] == all@[j]);
                        }
                    }
                }
            }
        } else {
            assert forall|j: int| 0 <= j < i + 1 implies (out@.contains(#[trigger] all@[j]) <==> consumes(
                conn,
                *enabled,
                all@[j],
            )) by {
                if j == i && out@.contains(all@[j]) {
                    let k = choose|k: int| 0 <= k < out@.len() && out@[k] == all@[j];
                    assert(consumes(conn, *enabled, out@[k]));
                }
            }
        }
        i += 1;
    }
    assert forall|p: Probe| out@.contains(p) <==> consumes(conn, *enabled, p) by {
        assert(all@.contains(p));
        let j = choose|j: int| 0 <= j < all@.len() && all@[j] == p;
        assert(out@.contains(all@[j]) <==> consumes(conn, *enabled, all@[j]));
    }
    out
}

/// The findings that count: every helper exists where the settings say not to
/// test.
pub open spec fn effective(found: Found, no_command_checks: bool) -> Found {
    if no_command_checks {
        Found {
            source_pv: true,
            local_pv: true,
            target_pv: true,
            source_compress: true,
            local_compress: true,
            local_decompress: true,
            target_decompress: true,
            source_mbuffer: true,
            local_mbuffer: true,
            target_mbuffer: true,
        }
    } else {
        found
    }
}

/// The model as a list of one or none.
pub open spec fn present<'a>(m: Option<CmdModel<'a>>) -> Seq<CmdModel<'a>> {
    match m {
        Some(x) => seq![x],
        None => Seq::empty(),
    }
}

/// The progress meter with the size that it is to expect, unless the size is
/// written `0`.
pub open spec fn sized<'a>(m: Option<CmdModel<'a>>, size: Seq<char>) -> Option<CmdModel<'a>> {
    match m {
        Some(x) => Some(
            CmdModel {
                target: x.target,
                sudo: x.sudo,
                base: x.base,
                args: if size == "0"@ {
                    x.args
                } else {
                    x.args + seq!["-s"@, size]
                },
            },
        ),
        None => None,
    }
}

/// The three pipelines of a sync, as the models of their commands.
pub struct Layout<'a> {
    pub source: Seq<CmdModel<'a>>,
    pub source_terminal: bool,
    pub local: Seq<CmdModel<'a>>,
    pub target: Seq<CmdModel<'a>>,
    pub target_terminal: bool,
}

fn to_strings(args: &[&str]) -> (r: Vec<String>)
    ensures
        r.deep_view() == words(args),
{
    let mut r: Vec<String> = Vec::new();
    let mut i: usize = 0;
    assert(r.deep_view() =~= words(args).take(0));
    while i < args.len()
        invariant
            i <= args.len(),
            r.deep_view() == words(args).take(i as int),
        decreases args.len() - i,
    {
        push_arg(&mut r, args[i]);
        assert(r.deep_view() =~= words(args).take(i + 1));
        i += 1;
    }
    assert(words(args).take(args.len() as int) =~= words(args));
    r
}

fn to_string_vec(pieces: &Vec<Vec<char>>) -> (r: Vec<String>)
    ensures
        r.deep_view() == texts(pieces@),
{
    let mut r: Vec<String> = Vec::new();
    let mut i: usize = 0;
    assert(r.deep_view() =~= texts(pieces@).take(0));
    while i < pieces.len()
        invariant
            i <= pieces.len(),
            r.deep_view() == texts(pieces@).take(i as int),
        decreases pieces.len() - i,
    {
        let s = to_string(&pieces[i]);
        push_arg(&mut r, s.as_str());
        assert(r.deep_view() =~= texts(pieces@).take(i + 1));
        i += 1;
    }
    assert(texts(pieces@).take(pieces.len() as int) =~= texts(pieces@));
    r
}

fn copy_strings(args: &Vec<String>) -> (r: Vec<String>)
    ensures
        r.deep_view() == args.deep_view(),
{
    let mut r: Vec<String> = Vec::new();
    let mut i: usize = 0;
    assert(r.deep_view() =~= args.deep_view().take(0));
    while i < args.len()
        invariant
            i <= args.len(),
            r.deep_view() == args.deep_view().take(i as int),
        decreases args.len() - i,
    {
        push_arg(&mut r, args[i].as_str());
        assert(r.deep_view() =~= args.deep_view().take(i + 1));
        i += 1;
    }
    assert(args.deep_view().take(args.len() as int) =~= args.deep_view());
    r
}

fn warn_if(
    warnings: &mut Vec<String>,
    condition: bool,
    cmds: &str,
    targets: &str,
    continue_without: &str,
    skip_with: &str,
)
    ensures
        final(warnings).deep_view() == old(warnings).deep_view() + when(
            condition,
            notice(cmds@, targets@, continue_without@, skip_with@),
        ),
{
    if condition {
        let w = OptionalCommands::not_avail_warn(cmds, targets, continue_without, skip_with);
        push_arg(warnings, w.as_str());
    }
    assert(warnings.deep_view() =~= old(warnings).deep_view() + when(
        condition,
        notice(cmds@, targets@, continue_without@, skip_with@),
    ));
}

fn warn_pair(
    warnings: &mut Vec<String>,
    wanted: bool,
    first_found: bool,
    first: &str,
    first_place: &str,
    first_token: &str,
    second_found: bool,
    second: &str,
    second_place: &str,
    second_token: &str,
)
    ensures
        final(warnings).deep_view() == old(warnings).deep_view() + pair_notice(
            wanted,
            first_found,
            first@,
            first_place@,
            first_token@,
            second_found,
            second@,
            second_place@,
            second_token@,
        ),
{
    if !wanted {
        assert(warnings.deep_view() =~= old(warnings).deep_view() + Seq::<Seq<char>>::empty());
    } else if !first_found {
        warn_if(warnings, true, first, first_place, "compression", first_token);
    } else if !second_found {
        warn_if(warnings, true, second, second_place, "compression", second_token);
    } else {
        assert(warnings.deep_view() =~= old(warnings).deep_view() + Seq::<Seq<char>>::empty());
    }
}

fn push_opt<'a>(cmds: &mut Vec<Cmd<'a>>, cmd: Option<Cmd<'a>>)
    ensures
        models(final(cmds)@) == models(old(cmds)@) + present(
            match cmd {
                Some(c) => Some(c@),
                None => None,
            },
        ),
{
    match cmd {
        Some(c) => {
            cmds.push(c);
            assert(models(cmds@) =~= models(old(cmds)@) + seq![c@]);
        },
        None => {
            assert(models(cmds@) =~= models(old(cmds)@) + Seq::<CmdModel<'a>>::empty());
        },
    }
}

fn push_one<'a>(cmds: &mut Vec<Cmd<'a>>, cmd: Cmd<'a>)
    ensures
        models(final(cmds)@) == models(old(cmds)@) + seq![cmd@],
{
    cmds.push(cmd);
    assert(models(cmds@) =~= models(old(cmds)@) + seq![cmd@]);
}

/// The helper programs that take part in a sync, and the hosts between which
/// it runs.
#[derive(Debug)]
pub struct OptionalCommands<'args> {
    pub conn_type: ConnectionType,
    pub source_cmd_target: &'args CmdTarget<'args>,
    pub target_cmd_target: &'args CmdTarget<'args>,
    pub local_cmd_target: &'args CmdTarget<'args>,
    /// The places that are taken.
    pub slots: Slots,
    /// The arguments of the progress meter.
    pub pv_args: Vec<String>,
    /// The arguments of a buffer on the sending side.
    pub source_mbuffer_args: Vec<String>,
    /// The arguments of a buffer on the receiving side.
    pub target_mbuffer_args: Vec<String>,
    /// The programs that compress and decompress, if a format is set.
    pub compress: Option<CompressCommand>,
}

impl<'args> OptionalCommands<'args> {
    /// The names that the warnings speak of.
    pub open spec fn names(&self) -> Names {
        Names {
            source: self.source_cmd_target.pretty(),
            local: self.local_cmd_target.pretty(),
            target: self.target_cmd_target.pretty(),
            compress: match self.compress {
                Some(c) => c.base@,
                None => Seq::empty(),
            },
            decompress: match self.compress {
                Some(c) => c.decompress@,
                None => Seq::empty(),
            },
        }
    }

    /// The command in a place, if the place is taken. Every command runs
    /// without `sudo` and carries no host of its own: it runs where its
    /// pipeline runs.
    pub open spec fn entry(&self, slot: Slot) -> Option<CmdModel<'args>> {
        if !self.slots.has(slot) {
            None
        } else {
            match slot {
                Slot::SourcePv | Slot::TargetPv | Slot::LocalPv => Some(
                    CmdModel {
                        target: &CmdTarget::Local,
                        sudo: false,
                        base: "pv"@,
                        args: self.pv_args.deep_view(),
                    },
                ),
                Slot::SourceCompress | Slot::LocalCompress => match self.compress {
                    Some(c) => Some(
                        CmdModel {
                            target: &CmdTarget::Local,
                            sudo: false,
                            base: c.base@,
                            args: words(c.args),
                        },
                    ),
                    None => None,
                },
                Slot::TargetCompress | Slot::LocalDecompress => match self.compress {
                    Some(c) => Some(
                        CmdModel {
                            target: &CmdTarget::Local,
                            sudo: false,
                            base: c.decompress@,
                            args: words(c.decompress_args),
                        },
                    ),
                    None => None,
                },
                Slot::SourceMbuffer | Slot::LocalSourceMbuffer => Some(
                    CmdModel {
                        target: &CmdTarget::Local,
                        sudo: false,
                        base: "mbuffer"@,
                        args: self.source_mbuffer_args.deep_view(),
                    },
                ),
                Slot::TargetMbuffer | Slot::LocalTargetMbuffer => Some(
                    CmdModel {
                        target: &CmdTarget::Local,
                        sudo: false,
                        base: "mbuffer"@,
                        args: self.target_mbuffer_args.deep_view(),
                    },
                ),
            }
        }
    }

    /// The pipelines of a sync from `send` to `recv`, by the kind of
    /// connection:
    ///
    /// - local: one pipeline, `send | pv? | mbuffer? | recv`;
    /// - push: `send | pv? | compress? | mbuffer?`, then at the target
    ///   `decompress? | mbuffer? | recv`;
    /// - pull: `send | compress? | mbuffer?`, then locally
    ///   `decompress? | mbuffer? | pv? | recv`;
    /// - between two remote hosts: `send | pv? | compress? | mbuffer?`, then
    ///   `decompress? | mbuffer? | pv? | recv` where they exchange the data
    ///   directly, else locally
    ///   `mbuffer? | decompress? | pv? | compress? | mbuffer?` and at the target
    ///   `decompress? | mbuffer? | recv`.
    ///
    /// A pipeline with a progress meter asks `ssh` for a terminal.
    pub open spec fn layout(&self, send: CmdModel<'args>, recv: CmdModel<'args>, size: Seq<char>) -> Layout<
        'args,
    > {
        let source_pv = sized(self.entry(Slot::SourcePv), size);
        let target_pv = sized(self.entry(Slot::TargetPv), size);
        let local_pv = sized(self.entry(Slot::LocalPv), size);
        let sending = seq![send] + present(source_pv) + present(self.entry(Slot::SourceCompress))
            + present(self.entry(Slot::SourceMbuffer));
        let receiving = present(self.entry(Slot::TargetCompress)) + present(
            self.entry(Slot::TargetMbuffer),
        ) + seq![recv];
        let receiving_pv = present(self.entry(Slot::TargetCompress)) + present(
            self.entry(Slot::TargetMbuffer),
        ) + present(target_pv) + seq![recv];
        match self.conn_type {
            ConnectionType::Local => Layout {
                source: seq![send] + present(source_pv) + present(self.entry(Slot::SourceMbuffer))
                    + seq![recv],
                source_terminal: false,
                local: Seq::empty(),
                target: Seq::empty(),
                target_terminal: false,
            },
            ConnectionType::Push => Layout {
                source: sending,
                source_terminal: source_pv is Some,
                local: Seq::empty(),
                target: receiving,
                target_terminal: false,
            },
            ConnectionType::Pull => Layout {
                source: seq![send] + present(self.entry(Slot::SourceCompress)) + present(
                    self.entry(Slot::SourceMbuffer),
                ),
                source_terminal: false,
                local: Seq::empty(),
                target: receiving_pv,
                target_terminal: target_pv is Some,
            },
            ConnectionType::RemoteDirect => Layout {
                source: sending,
                source_terminal: source_pv is Some,
                local: Seq::empty(),
                target: receiving_pv,
                target_terminal: target_pv is Some,
            },
            ConnectionType::RemoteIndirect => Layout {
                source: sending,
                source_terminal: source_pv is Some,
                local: present(self.entry(Slot::LocalTargetMbuffer)) + present(
                    self.entry(Slot::LocalDecompress),
                ) + present(local_pv) + present(self.entry(Slot::LocalCompress)) + present(
                    self.entry(Slot::LocalSourceMbuffer),
                ),
                target: receiving,
                target_terminal: false,
            },
        }
    }

    /// The warning that a helper program is missing.
    pub fn not_avail_warn(cmds: &str, targets: &str, continue_without: &str, skip_with: &str) -> (r:
        String)
        ensures
            r@ == notice(cmds@, targets@, continue_without@, skip_with@),
    {
        let mut out: Vec<char> = Vec::new();
        push_str(&mut out, cmds);
        push_str(&mut out, " not available on ");
        push_str(&mut out, targets);
        push_str(&mut out, " - sync will continue without ");
        push_str(&mut out, continue_without);
        push_str(&mut out, " - to disable this warning use --skip-optional-commands '");
        push_str(&mut out, skip_with);
        push_str(&mut out, "'");
        assert(out@ =~= notice(cmds@, targets@, continue_without@, skip_with@));
        to_string(&out)
    }

    /// The warning that the program of `cmd` is missing at its host.
    pub fn sync_warn(cmd: &Cmd<'_>, continue_without: &str, skip_with: &str) -> (r: String)
        ensures
            r@ == notice(cmd.base@, cmd.target.pretty(), continue_without@, skip_with@),
    {
        Self::not_avail_warn(cmd.base(), cmd.target().pretty_str(), continue_without, skip_with)
    }

    /// Decides which helper programs take part. `found` holds, for every test
    /// that the connection asks for, whether the program exists at its host;
    /// with the setting not to test, every program counts as existing. The
    /// second result holds the warnings, in order.
    pub fn new(
        source_cmd_target: &'args CmdTarget<'args>,
        target_cmd_target: &'args CmdTarget<'args>,
        local_cmd_target: &'args CmdTarget<'args>,
        args: &Args,
        stderr_is_terminal: bool,
        found: &Found,
    ) -> (r: (Self, Vec<String>))
        ensures
            ({
                let conn = connection(source_cmd_target.remote(), target_cmd_target.remote(), false);
                let en = relevant(
                    conn,
                    args.skip_optional_commands,
                    args.quiet,
                    !(args.compress is Off),
                    stderr_is_terminal,
                );
                let ex = effective(*found, args.no_command_checks);
                &&& r.0.conn_type == conn
                &&& r.0.source_cmd_target == source_cmd_target
                &&& r.0.target_cmd_target == target_cmd_target
                &&& r.0.local_cmd_target == local_cmd_target
                &&& r.0.slots == select(conn, en, ex)
                &&& r.0.pv_args.deep_view() == crate::text::words(args.pv_options@)
                &&& r.0.source_mbuffer_args.deep_view() == crate::args::mbuffer_args(
                    args.mbuffer_size@,
                    "-R"@,
                    args.source_bwlimit,
                )
                &&& r.0.target_mbuffer_args.deep_view() == crate::args::mbuffer_args(
                    args.mbuffer_size@,
                    "-r"@,
                    args.target_bwlimit,
                )
                &&& match args.compress.programs() {
                    Some(p) => r.0.compress matches Some(c) && c.parts() == p,
                    None => r.0.compress is None,
                }
                &&& r.1.deep_view() == notices(conn, en, ex, r.0.names())
            }),
    {
        let conn_type = ConnectionType::new(source_cmd_target, target_cmd_target, args);
        let en = conn_type.get_relevant_enabled(args, stderr_is_terminal);
        let ex = if args.no_command_checks {
            Found::all(true)
        } else {
            *found
        };
        assert(ex == effective(*found, args.no_command_checks));
        let slots = conn_type.choose_slots(&en, &ex);
        let pv_options = chars_of(args.pv_options.as_str());
        let pv_words = split_words(&pv_options);
        let res = Self {
            conn_type,
            source_cmd_target,
            target_cmd_target,
            local_cmd_target,
            slots,
            pv_args: to_string_vec(&pv_words),
            source_mbuffer_args: args.get_source_mbuffer_args(),
            target_mbuffer_args: args.get_target_mbuffer_args(),
            compress: args.compress.to_cmd(),
        };
        let source = source_cmd_target.pretty_str();
        let target = target_cmd_target.pretty_str();
        let local = local_cmd_target.pretty_str();
        let (packer, unpacker) = match res.compress {
            Some(c) => (c.base, c.decompress),
            None => ("", ""),
        };
        let ghost n = res.names();
        proof {
            reveal_strlit("");
            assert(""@ =~= Seq::<char>::empty());
        }
        let limits = "buffering and bandwith limits";
        let writes = "buffering and write limits";
        let mut w: Vec<String> = Vec::new();
        assert(w.deep_view() =~= Seq::<Seq<char>>::empty());
        match conn_type {
            ConnectionType::Local => {
                warn_if(&mut w, en.local_pv && !ex.local_pv, "pv", local, "progress bar", "localpv");
                warn_if(
                    &mut w,
                    en.local_mbuffer && !ex.local_mbuffer,
                    "mbuffer",
                    local,
                    limits,
                    "localmbuffer",
                );
            },
            ConnectionType::Push => {
                warn_if(&mut w, en.local_pv && !ex.local_pv, "pv", local, "progress bar", "localpv");
                warn_if(
                    &mut w,
                    en.local_mbuffer && !ex.local_mbuffer,
                    "mbuffer",
                    local,
                    limits,
                    "localmbuffer",
                );
                warn_pair(
                    &mut w,
                    en.local_compress && en.compress,
                    ex.local_compress,
                    packer,
                    local,
                    "localcompress",
                    ex.target_decompress,
                    unpacker,
                    target,
                    "compress",
                );
                warn_if(
                    &mut w,
                    en.target_mbuffer && !ex.target_mbuffer,
                    "mbuffer",
                    target,
                    writes,
                    "targetmbuffer",
                );
            },
            ConnectionType::Pull => {
                warn_pair(
                    &mut w,
                    en.compress && en.local_compress,
                    ex.source_compress,
                    packer,
                    source,
                    "compress",
                    ex.local_decompress,
                    unpacker,
                    local,
                    "localcompress",
                );
                warn_if(
                    &mut w,
                    en.source_mbuffer && !ex.source_mbuffer,
                    "mbuffer",
                    source,
                    limits,
                    "sourcembuffer",
                );
                warn_if(
                    &mut w,
                    en.local_mbuffer && !ex.local_mbuffer,
                    "mbuffer",
                    local,
                    writes,
                    "localmbuffer",
                );
                warn_if(&mut w, en.local_pv && !ex.local_pv, "pv", local, "progress bar", "localpv");
            },
            ConnectionType::RemoteDirect => {
                if en.source_pv && en.target_pv {
                    let mut both: Vec<char> = Vec::new();
                    push_str(&mut both, source);
                    push_str(&mut both, " and ");
                    push_str(&mut both, target);
                    let both = to_string(&both);
                    assert(both@ =~= n.source + " and "@ + n.target);
                    warn_if(
                        &mut w,
                        !ex.source_pv && !ex.target_pv,
                        "pv",
                        both.as_str(),
                        "progress bar",
                        "sourcepv,targetpv",
                    );
                } else if en.source_pv {
                    warn_if(&mut w, !ex.source_pv, "pv", source, "progress bar", "sourcepv");
                } else {
                    warn_if(
                        &mut w,
                        en.target_pv && !ex.target_pv,
                        "pv",
                        target,
                        "progress bar",
                        "targetpv",
                    );
                }
                warn_pair(
                    &mut w,
                    en.compress,
                    ex.source_compress,
                    packer,
                    source,
                    "compress",
                    ex.target_decompress,
                    unpacker,
                    target,
                    "compress",
                );
                warn_if(
                    &mut w,
                    en.source_mbuffer && !ex.source_mbuffer,
                    "mbuffer",
                    source,
                    limits,
                    "sourcembuffer",
                );
                warn_if(
                    &mut w,
                    en.target_mbuffer && !ex.target_mbuffer,
                    "mbuffer",
                    target,
                    writes,
                    "targetmbuffer",
                );
            },
            ConnectionType::RemoteIndirect => {
                warn_pair(
                    &mut w,
                    en.compress,
                    ex.source_compress,
                    packer,
                    source,
                    "compress",
                    ex.target_decompress,
                    unpacker,
                    target,
                    "compress",
                );
                let ghost before = w.deep_view();
                let c = en.compress && ex.source_compress && ex.target_decompress;
                if c {
                    if en.local_pv && en.local_compress {
                        if !ex.local_pv {
                            warn_if(&mut w, true, "pv", local, "progress bar", "localpv");
                        } else if !ex.local_compress {
                            warn_if(&mut w, true, packer, local, "progress bar", "localcompress");
                        } else if !ex.local_decompress {
                            warn_if(&mut w, true, unpacker, local, "progress bar", "localcompress");
                        }
                    }
                } else {
                    warn_if(
                        &mut w,
                        en.local_pv && !ex.local_pv,
                        "pv",
                        local,
                        "progress bar",
                        "localpv",
                    );
                }
                warn_if(
                    &mut w,
                    !slots.local_pv && en.source_pv && !ex.source_pv,
                    "pv",
                    source,
                    "progress bar",
                    "sourcepv",
                );
                assert(w.deep_view() =~= before + indirect_pv_notices(en, ex, n));
                warn_if(
                    &mut w,
                    en.source_mbuffer && !ex.source_mbuffer,
                    "mbuffer",
                    source,
                    limits,
                    "sourcembuffer",
                );
                warn_if(
                    &mut w,
                    en.target_mbuffer && !ex.target_mbuffer,
                    "mbuffer",
                    target,
                    writes,
                    "targetmbuffer",
                );
                warn_if(
                    &mut w,
                    slots.local_pv && en.local_mbuffer && !ex.local_mbuffer,
                    "mbuffer",
                    local,
                    "local buffering and bandwidth limits",
                    "localmbuffer",
                );
            },
        }
        assert(w.deep_view() =~= notices(conn_type, en, ex, n));
        (res, w)
    }

    /// The command in a place, if the place is taken.
    pub fn get(&self, slot: Slot) -> (r: Option<Cmd<'args>>)
        ensures
            match self.entry(slot) {
                Some(m) => r matches Some(c) && c@ == m,
                None => r is None,
            },
    {
        if !self.slots.contains(slot) {
            return None;
        }
        match slot {
            Slot::SourcePv | Slot::TargetPv | Slot::LocalPv => Some(
                Cmd::new(&CmdTarget::Local, false, "pv", copy_strings(&self.pv_args)),
            ),
            Slot::SourceCompress | Slot::LocalCompress => match self.compress {
                Some(c) => Some(Cmd::new(&CmdTarget::Local, false, c.base, to_strings(c.args))),
                None => None,
            },
            Slot::TargetCompress | Slot::LocalDecompress => match self.compress {
                Some(c) => Some(
                    Cmd::new(&CmdTarget::Local, false, c.decompress, to_strings(c.decompress_args)),
                ),
                None => None,
            },
            Slot::SourceMbuffer | Slot::LocalSourceMbuffer => Some(
                Cmd::new(&CmdTarget::Local, false, "mbuffer", copy_strings(&self.source_mbuffer_args)),
            ),
            Slot::TargetMbuffer | Slot::LocalTargetMbuffer => Some(
                Cmd::new(&CmdTarget::Local, false, "mbuffer", copy_strings(&self.target_mbuffer_args)),
            ),
        }
    }

    /// The progress meter in a place, told the size to expect unless the size
    /// is written `0`.
    pub fn get_pv(&self, pv_key: Slot, pv_size_str: &str) -> (r: Option<Cmd<'args>>)
        ensures
            match sized(self.entry(pv_key), pv_size_str@) {
                Some(m) => r matches Some(c) && c@ == m,
                None => r is None,
            },
    {
        match self.get(pv_key) {
            Some(mut pv) => {
                if !str_eq(pv_size_str, "0") {
                    pv.arg("-s");
                    pv.arg(pv_size_str);
                    assert(pv.args.deep_view() =~= self.entry(pv_key)->0.args + seq![
                        "-s"@,
                        pv_size_str@,
                    ]);
                }
                Some(pv)
            },
            None => None,
        }
    }

    /// Builds the pipelines of one sync: at the source, locally if the data
    /// passes through, and at the target.
    pub fn build_sync_pipelines(
        &self,
        send_cmd: Cmd<'args>,
        recv_cmd: Cmd<'args>,
        pv_size_str: &str,
    ) -> (r: (Pipeline<'args>, Option<Pipeline<'args>>, Option<Pipeline<'args>>))
        ensures
            ({
                let l = self.layout(send_cmd@, recv_cmd@, pv_size_str@);
                &&& r.0.well_formed()
                &&& r.0.place() == self.source_cmd_target
                &&& r.0.terminal() == l.source_terminal
                &&& models(r.0.stages()) == l.source
                &&& r.1 is Some <==> l.local.len() > 0
                &&& r.1 matches Some(p) ==> p.well_formed() && p.place() == self.local_cmd_target
                    && !p.terminal() && models(p.stages()) == l.local
                &&& r.2 is Some <==> l.target.len() > 0
                &&& r.2 matches Some(p) ==> p.well_formed() && p.place() == self.target_cmd_target
                    && p.terminal() == l.target_terminal && models(p.stages()) == l.target
            }),
    {
        let ghost l = self.layout(send_cmd@, recv_cmd@, pv_size_str@);
        let source_pv = self.get_pv(Slot::SourcePv, pv_size_str);
        let target_pv = self.get_pv(Slot::TargetPv, pv_size_str);
        let local_pv = self.get_pv(Slot::LocalPv, pv_size_str);
        let source_compress = self.get(Slot::SourceCompress);
        let target_compress = self.get(Slot::TargetCompress);
        let local_compress = self.get(Slot::LocalCompress);
        let local_decompress = self.get(Slot::LocalDecompress);
        let source_mbuffer = self.get(Slot::SourceMbuffer);
        let target_mbuffer = self.get(Slot::TargetMbuffer);
        let local_source_mbuffer = self.get(Slot::LocalSourceMbuffer);
        let local_target_mbuffer = self.get(Slot::LocalTargetMbuffer);
        let source_terminal = source_pv.is_some();
        let target_terminal = target_pv.is_some();
        let mut source: Vec<Cmd<'args>> = Vec::new();
        let mut local: Vec<Cmd<'args>> = Vec::new();
        let mut target: Vec<Cmd<'args>> = Vec::new();
        assert(models(source@) =~= Seq::<CmdModel<'args>>::empty());
        assert(models(local@) =~= Seq::<CmdModel<'args>>::empty());
        assert(models(target@) =~= Seq::<CmdModel<'args>>::empty());
        let mut set_source_terminal = false;
        let mut set_target_terminal = false;
        match self.conn_type {
            ConnectionType::Local => {
                push_one(&mut source, send_cmd);
                push_opt(&mut source, source_pv);
                push_opt(&mut source, source_mbuffer);
                push_one(&mut source, recv_cmd);
            },
            ConnectionType::Push => {
                push_one(&mut source, send_cmd);
                push_opt(&mut source, source_pv);
                push_opt(&mut source, source_compress);
                push_opt(&mut source, source_mbuffer);
                set_source_terminal = source_terminal;
                push_opt(&mut target, target_compress);
                push_opt(&mut target, target_mbuffer);
                push_one(&mut target, recv_cmd);
            },
            ConnectionType::Pull => {
                push_one(&mut source, send_cmd);
                push_opt(&mut source, source_compress);
                push_opt(&mut source, source_mbuffer);
                push_opt(&mut target, target_compress);
                push_opt(&mut target, target_mbuffer);
                push_opt(&mut target, target_pv);
                push_one(&mut target, recv_cmd);
                set_target_terminal = target_terminal;
            },
            ConnectionType::RemoteDirect => {
                push_one(&mut source, send_cmd);
                push_opt(&mut source, source_pv);
                push_opt(&mut source, source_compress);
                push_opt(&mut source, source_mbuffer);
                set_source_terminal = source_terminal;
                push_opt(&mut target, target_compress);
                push_opt(&mut target, target_mbuffer);
                push_opt(&mut target, target_pv);
                push_one(&mut target, recv_cmd);
                set_target_terminal = target_terminal;
            },
            ConnectionType::RemoteIndirect => {
                push_one(&mut source, send_cmd);
                push_opt(&mut source, source_pv);
                push_opt(&mut source, source_compress);
                push_opt(&mut source, source_mbuffer);
                set_source_terminal = source_terminal;
                push_opt(&mut local, local_target_mbuffer);
                push_opt(&mut local, local_decompress);
                push_opt(&mut local, local_pv);
                push_opt(&mut local, local_compress);
                push_opt(&mut local, local_source_mbuffer);
                push_opt(&mut target, target_compress);
                push_opt(&mut target, target_mbuffer);
                push_one(&mut target, recv_cmd);
            },
        }
        assert(models(source@) =~= l.source);
        assert(models(local@) =~= l.local);
        assert(models(target@) =~= l.target);
        assert(set_source_terminal == l.source_terminal);
        assert(set_target_terminal == l.target_terminal);
        assert(models(source@).len() == source@.len());
        assert(models(local@).len() == local@.len());
        assert(models(target@).len() == target@.len());
        let mut source_pipeline = match Pipeline::from(self.source_cmd_target, source) {
            Some(p) => p,
            None => {
                proof {
                    assert(false);
                }
                Pipeline::new(self.source_cmd_target, Cmd::new(&CmdTarget::Local, false, "", Vec::new()))
            },
        };
        source_pipeline.use_terminal_if_ssh(set_source_terminal);
        let local_pipeline = Pipeline::from(self.local_cmd_target, local);
        let target_pipeline = match Pipeline::from(self.target_cmd_target, target) {
            Some(mut p) => {
                p.use_terminal_if_ssh(set_target_terminal);
                Some(p)
            },
            None => None,
        };
        (source_pipeline, local_pipeline, target_pipeline)
    }
}

} // verus!
