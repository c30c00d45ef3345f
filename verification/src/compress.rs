//! The compression formats for data in transit, and the programs that
//! compress and decompress each.

use crate::text::str_eq;
use vstd::prelude::*;

verus! {

/// A compression format; `Lzo` unless another is chosen.
#[derive(Debug, Clone, Copy, PartialEq, Eq, Structural)]
pub enum Compress {
    Gzip,
    PigzFast,
    PigzSlow,
    ZstdFast,
    ZstdmtFast,
    ZstdSlow,
    ZstdmtSlow,
    Xz,
    Lzo,
    Lz4,
    Off,
}

/// The program that compresses with its arguments, and the program that
/// decompresses with its arguments.
#[derive(Debug, Clone, Copy)]
pub struct CompressCommand {
    pub base: &'static str,
    pub args: &'static [&'static str],
    pub decompress: &'static str,
    pub decompress_args: &'static [&'static str],
}

/// The text of each element.
pub open spec fn words(args: &[&str]) -> Seq<Seq<char>> {
    Seq::new(args@.len(), |i: int| args@[i]@)
}

impl CompressCommand {
    /// The four parts as text.
    pub open spec fn parts(&self) -> (Seq<char>, Seq<Seq<char>>, Seq<char>, Seq<Seq<char>>) {
        (self.base@, words(self.args), self.decompress@, words(self.decompress_args))
    }
}

impl Compress {
    /// The name of the format on the command line.
    pub open spec fn name(&self) -> Seq<char> {
        match self {
            Compress::Gzip => "gzip"@,
            Compress::PigzFast => "pigz-fast"@,
            Compress::PigzSlow => "pigz-slow"@,
            Compress::ZstdFast => "zstd-fast"@,
            Compress::ZstdmtFast => "zstdmt-fast"@,
            Compress::ZstdSlow => "zstd-slow"@,
            Compress::ZstdmtSlow => "zstdmt-slow"@,
            Compress::Xz => "xz"@,
            Compress::Lzo => "lzo"@,
            Compress::Lz4 => "lz4"@,
            Compress::Off => "none"@,
        }
    }

    /// The format that a name stands for.
    pub open spec fn named(value: Seq<char>) -> Option<Compress> {
        if value == "gzip"@ {
            Some(Compress::Gzip)
        } else if value == "pigz-fast"@ {
            Some(Compress::PigzFast)
        } else if value == "pigz-slow"@ {
            Some(Compress::PigzSlow)
        } else if value == "zstd-fast"@ {
            Some(Compress::ZstdFast)
        } else if value == "zstdmt-fast"@ {
            Some(Compress::ZstdmtFast)
        } else if value == "zstd-slow"@ {
            Some(Compress::ZstdSlow)
        } else if value == "zstdmt-slow"@ {
            Some(Compress::ZstdmtSlow)
        } else if value == "xz"@ {
            Some(Compress::Xz)
        } else if value == "lzo"@ {
            Some(Compress::Lzo)
        } else if value == "lz4"@ {
            Some(Compress::Lz4)
        } else if value == "none"@ {
            Some(Compress::Off)
        } else {
            None
        }
    }

    /// The fixed table of programs: compressor, its arguments, decompressor,
    /// its arguments. The format `Off` has no programs.
    pub open spec fn programs(&self) -> Option<
        (Seq<char>, Seq<Seq<char>>, Seq<char>, Seq<Seq<char>>),
    > {
        match self {
            Compress::Gzip => Some(("gzip"@, seq!["-3"@], "zcat"@, Seq::empty())),
            Compress::PigzFast => Some(("pigz"@, seq!["-3"@], "pigz"@, seq!["-dc"@])),
            Compress::PigzSlow => Some(("pigz"@, seq!["-9"@], "pigz"@, seq!["-dc"@])),
            Compress::ZstdFast => Some(("zstd"@, seq!["-3"@], "zstd"@, seq!["-dc"@])),
            Compress::ZstdmtFast => Some(("zstdmt"@, seq!["-3"@], "zstdmt"@, seq!["-dc"@])),
            Compress::ZstdSlow => Some(("zstd"@, seq!["-19"@], "zstd"@, seq!["-dc"@])),
            Compress::ZstdmtSlow => Some(("zstdmt"@, seq!["-19"@], "zstdmt"@, seq!["-dc"@])),
            Compress::Xz => Some(("xz"@, Seq::empty(), "xz"@, seq!["-d"@])),
            Compress::Lzo => Some(("lzop"@, Seq::empty(), "lzop"@, seq!["-dfc"@])),
            Compress::Lz4 => Some(("lz4"@, Seq::empty(), "lz4"@, seq!["-dc"@])),
            Compress::Off => None,
        }
    }

    /// The name of the method, as the command line gives it.
    pub fn to_str(&self) -> (r: &'static str)
        ensures
            r@ == self.name(),
    {
        match self {
            Compress::Gzip => "gzip",
            Compress::PigzFast => "pigz-fast",
            Compress::PigzSlow => "pigz-slow",
            Compress::ZstdFast => "zstd-fast",
            Compress::ZstdmtFast => "zstdmt-fast",
            Compress::ZstdSlow => "zstd-slow",
            Compress::ZstdmtSlow => "zstdmt-slow",
            Compress::Xz => "xz",
            Compress::Lzo => "lzo",
            Compress::Lz4 => "lz4",
            Compress::Off => "none",
        }
    }

    /// The format of the given name; an error for a name that is none of the
    /// eleven.
    pub fn try_from_str(value: &str) -> (r: Result<Self, &'static str>)
        ensures
            match Self::named(value@) {
                Some(c) => r == Ok::<Self, &'static str>(c),
                None => r matches Err(m) && m@ == "unsupported compress format"@,
            },
    {
        if str_eq(value, "gzip") {
            Ok(Compress::Gzip)
        } else if str_eq(value, "pigz-fast") {
            Ok(Compress::PigzFast)
        } else if str_eq(value, "pigz-slow") {
            Ok(Compress::PigzSlow)
        } else if str_eq(value, "zstd-fast") {
            Ok(Compress::ZstdFast)
        } else if str_eq(value, "zstdmt-fast") {
            Ok(Compress::ZstdmtFast)
        } else if str_eq(value, "zstd-slow") {
            Ok(Compress::ZstdSlow)
        } else if str_eq(value, "zstdmt-slow") {
            Ok(Compress::ZstdmtSlow)
        } else if str_eq(value, "xz") {
            Ok(Compress::Xz)
        } else if str_eq(value, "lzo") {
            Ok(Compress::Lzo)
        } else if str_eq(value, "lz4") {
            Ok(Compress::Lz4)
        } else if str_eq(value, "none") {
            Ok(Compress::Off)
        } else {
            Err("unsupported compress format")
        }
    }

    /// The programs of the format.
    pub fn to_cmd(&self) -> (r: Option<CompressCommand>)
        ensures
            match self.programs() {
                Some(p) => r matches Some(c) && c.parts() == p,
                None => r is None,
            },
    {
        let none: &'static [&'static str] = &[];
        let r = match self {
            Compress::Gzip => Some(
                CompressCommand { base: "gzip", args: &["-3"], decompress: "zcat", decompress_args: none },
            ),
            Compress::PigzFast => Some(
                CompressCommand {
                    base: "pigz",
                    args: &["-3"],
                    decompress: "pigz",
                    decompress_args: &["-dc"],
                },
            ),
            Compress::PigzSlow => Some(
                CompressCommand {
                    base: "pigz",
                    args: &["-9"],
                    decompress: "pigz",
                    decompress_args: &["-dc"],
                },
            ),
            Compress::ZstdFast => Some(
                CompressCommand {
                    base: "zstd",
                    args: &["-3"],
                    decompress: "zstd",
                    decompress_args: &["-dc"],
                },
            ),
            Compress::ZstdmtFast => Some(
                CompressCommand {
                    base: "zstdmt",
                    args: &["-3"],
                    decompress: "zstdmt",
                    decompress_args: &["-dc"],
                },
            ),
            Compress::ZstdSlow => Some(
                CompressCommand {
                    base: "zstd",
                    args: &["-19"],
                    decompress: "zstd",
                    decompress_args: &["-dc"],
                },
            ),
            Compress::ZstdmtSlow => Some(
                CompressCommand {
                    base: "zstdmt",
                    args: &["-19"],
                    decompress: "zstdmt",
                    decompress_args: &["-dc"],
                },
            ),
            Compress::Xz => Some(
                CompressCommand { base: "xz", args: none, decompress: "xz", decompress_args: &["-d"] },
            ),
            Compress::Lzo => Some(
                CompressCommand {
                    base: "lzop",
                    args: none,
                    decompress: "lzop",
                    decompress_args: &["-dfc"],
                },
            ),
            Compress::Lz4 => Some(
                CompressCommand { base: "lz4", args: none, decompress: "lz4", decompress_args: &["-dc"] },
            ),
            Compress::Off => None,
        };
        proof {
            if let Some(c) = r {
                let p = self.programs()->0;
                assert(c.parts().1 =~= p.1);
                assert(c.parts().3 =~= p.3);
            }
        }
        r
    }

    /// Whether the format compresses at all.
    pub fn is_some(&self) -> (r: bool)
        ensures
            r == !(self is Off),
    {
        !matches!(self, Compress::Off)
    }
}

impl Default for Compress {
    fn default() -> (r: Self)
        ensures
            r == Compress::Lzo,
    {
        Compress::Lzo
    }
}

/// Every format is found again under its own name.
pub proof fn lemma_name_round_trip(c: Compress)
    ensures
        Compress::named(c.name()) == Some(c),
{
    reveal_strlit("gzip");
    reveal_strlit("pigz-fast");
    reveal_strlit("pigz-slow");
    reveal_strlit("zstd-fast");
    reveal_strlit("zstdmt-fast");
    reveal_strlit("zstd-slow");
    reveal_strlit("zstdmt-slow");
    reveal_strlit("xz");
    reveal_strlit("lzo");
    reveal_strlit("lz4");
    reveal_strlit("none");
    assert("gzip"@.len() == 4 && "none"@.len() == 4 && "xz"@.len() == 2);
    assert("lzo"@.len() == 3 && "lz4"@.len() == 3);
    assert("pigz-fast"@.len() == 9 && "pigz-slow"@.len() == 9);
    assert("zstd-fast"@.len() == 9 && "zstd-slow"@.len() == 9);
    assert("zstdmt-fast"@.len() == 11 && "zstdmt-slow"@.len() == 11);
    assert("gzip"@[0] != "none"@[0]);
    assert("pigz-fast"@[5] != "pigz-slow"@[5]);
    assert("pigz-fast"@[0] != "zstd-fast"@[0]);
    assert("pigz-fast"@[0] != "zstd-slow"@[0]);
    assert("pigz-slow"@[0] != "zstd-fast"@[0]);
    assert("pigz-slow"@[0] != "zstd-slow"@[0]);
    assert("zstd-fast"@[5] != "zstd-slow"@[5]);
    assert("zstdmt-fast"@[7] != "zstdmt-slow"@[7]);
    assert("lzo"@[2] != "lz4"@[2]);
}

} // verus!
