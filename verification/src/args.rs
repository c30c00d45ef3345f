//! The settings of one run, as plain values, and the small parsers for the
//! settings that have a syntax of their own.

use crate::bw::Bytes;
use crate::compress::Compress;
use crate::send_recv_opts::{OptionsLine, Opts};
use crate::text::{
    chars_of, char_is_alphanumeric, is_ascii_alphanumeric, push_arg, push_range, push_str, split,
    split_chars, str_eq, texts, to_string, trim, trim_bounds,
};
use vstd::prelude::*;

verus! {

/// An optional helper program that can be switched off by name.
#[derive(Debug, Clone, Copy, PartialEq, Eq, Structural)]
pub enum SkipToken {
    SourcePv,
    TargetPv,
    LocalPv,
    Compress,
    LocalCompress,
    SourceMbuffer,
    TargetMbuffer,
    LocalMbuffer,
}

impl SkipToken {
    /// The name of the token on the command line.
    pub open spec fn name(&self) -> Seq<char> {
        match self {
            SkipToken::SourcePv => "sourcepv"@,
            SkipToken::TargetPv => "targetpv"@,
            SkipToken::LocalPv => "localpv"@,
            SkipToken::Compress => "compress"@,
            SkipToken::LocalCompress => "localcompress"@,
            SkipToken::SourceMbuffer => "sourcembuffer"@,
            SkipToken::TargetMbuffer => "targetmbuffer"@,
            SkipToken::LocalMbuffer => "localmbuffer"@,
        }
    }

    /// The token of the given name.
    pub open spec fn named(value: Seq<char>) -> Option<SkipToken> {
        if value == "sourcepv"@ {
            Some(SkipToken::SourcePv)
        } else if value == "targetpv"@ {
            Some(SkipToken::TargetPv)
        } else if value == "localpv"@ {
            Some(SkipToken::LocalPv)
        } else if value == "compress"@ {
            Some(SkipToken::Compress)
        } else if value == "localcompress"@ {
            Some(SkipToken::LocalCompress)
        } else if value == "sourcembuffer"@ {
            Some(SkipToken::SourceMbuffer)
        } else if value == "targetmbuffer"@ {
            Some(SkipToken::TargetMbuffer)
        } else if value == "localmbuffer"@ {
            Some(SkipToken::LocalMbuffer)
        } else {
            None
        }
    }

    /// The word of the token.
    pub fn to_str(&self) -> (r: &'static str)
        ensures
            r@ == self.name(),
    {
        match self {
            SkipToken::SourcePv => "sourcepv",
            SkipToken::TargetPv => "targetpv",
            SkipToken::LocalPv => "localpv",
            SkipToken::Compress => "compress",
            SkipToken::LocalCompress => "localcompress",
            SkipToken::SourceMbuffer => "sourcembuffer",
            SkipToken::TargetMbuffer => "targetmbuffer",
            SkipToken::LocalMbuffer => "localmbuffer",
        }
    }

    /// The token of that word, if it is one.
    pub fn from_chars(value: &Vec<char>) -> (r: Option<SkipToken>)
        ensures
            r == Self::named(value@),
    {
        let s = to_string(value);
        let s = s.as_str();
        if str_eq(s, "sourcepv") {
            Some(SkipToken::SourcePv)
        } else if str_eq(s, "targetpv") {
            Some(SkipToken::TargetPv)
        } else if str_eq(s, "localpv") {
            Some(SkipToken::LocalPv)
        } else if str_eq(s, "compress") {
            Some(SkipToken::Compress)
        } else if str_eq(s, "localcompress") {
            Some(SkipToken::LocalCompress)
        } else if str_eq(s, "sourcembuffer") {
            Some(SkipToken::SourceMbuffer)
        } else if str_eq(s, "targetmbuffer") {
            Some(SkipToken::TargetMbuffer)
        } else if str_eq(s, "localmbuffer") {
            Some(SkipToken::LocalMbuffer)
        } else {
            None
        }
    }
}

/// The set of optional helper programs that are switched off.
#[derive(Debug, Clone, Copy, PartialEq, Eq, Structural)]
pub struct SkippedCommands {
    pub sourcepv: bool,
    pub targetpv: bool,
    pub localpv: bool,
    pub compress: bool,
    pub localcompress: bool,
    pub sourcembuffer: bool,
    pub targetmbuffer: bool,
    pub localmbuffer: bool,
}

impl SkippedCommands {
    /// Whether the token is in the set.
    pub open spec fn has(&self, token: SkipToken) -> bool {
        match token {
            SkipToken::SourcePv => self.sourcepv,
            SkipToken::TargetPv => self.targetpv,
            SkipToken::LocalPv => self.localpv,
            SkipToken::Compress => self.compress,
            SkipToken::LocalCompress => self.localcompress,
            SkipToken::SourceMbuffer => self.sourcembuffer,
            SkipToken::TargetMbuffer => self.targetmbuffer,
            SkipToken::LocalMbuffer => self.localmbuffer,
        }
    }

    /// The empty set.
    pub fn none() -> (r: Self)
        ensures
            forall|t: SkipToken| !r.has(t),
    {
        SkippedCommands {
            sourcepv: false,
            targetpv: false,
            localpv: false,
            compress: false,
            localcompress: false,
            sourcembuffer: false,
            targetmbuffer: false,
            localmbuffer: false,
        }
    }

    /// Whether the token is in the set.
    pub fn contains(&self, token: SkipToken) -> (r: bool)
        ensures
            r == self.has(token),
    {
        match token {
            SkipToken::SourcePv => self.sourcepv,
            SkipToken::TargetPv => self.targetpv,
            SkipToken::LocalPv => self.localpv,
            SkipToken::Compress => self.compress,
            SkipToken::LocalCompress => self.localcompress,
            SkipToken::SourceMbuffer => self.sourcembuffer,
            SkipToken::TargetMbuffer => self.targetmbuffer,
            SkipToken::LocalMbuffer => self.localmbuffer,
        }
    }

    /// Puts the token into the set.
    pub fn insert(&mut self, token: SkipToken)
        ensures
            forall|t: SkipToken| final(self).has(t) == (t == token || old(self).has(t)),
    {
        match token {
            SkipToken::SourcePv => self.sourcepv = true,
            SkipToken::TargetPv => self.targetpv = true,
            SkipToken::LocalPv => self.localpv = true,
            SkipToken::Compress => self.compress = true,
            SkipToken::LocalCompress => self.localcompress = true,
            SkipToken::SourceMbuffer => self.sourcembuffer = true,
            SkipToken::TargetMbuffer => self.targetmbuffer = true,
            SkipToken::LocalMbuffer => self.localmbuffer = true,
        }
    }
}

/// The settings of one run.
#[derive(Debug, Clone)]
pub struct Args {
    pub compress: Compress,
    pub identifier: Option<String>,
    pub recursive: bool,
    pub skip_parent: bool,
    pub source_bwlimit: Option<Bytes>,
    pub target_bwlimit: Option<Bytes>,
    pub mbuffer_size: String,
    pub pv_options: String,
    pub no_stream: bool,
    pub no_sync_snap: bool,
    pub keep_sync_snap: bool,
    pub create_bookmark: bool,
    pub syncoid_bookmarks: bool,
    pub prune_formats: Vec<String>,
    pub use_hold: String,
    pub no_rollback: bool,
    /// Regular expressions; a dataset whose name one of them matches is left out.
    pub exclude_datasets: Vec<String>,
    /// Regular expressions; a snapshot whose name one of them matches is left out.
    pub exclude_snaps: Vec<String>,
    /// Regular expressions; when there are any, only snapshots whose name one
    /// of them matches are taken.
    pub include_snaps: Vec<String>,
    pub use_bookmarks: String,
    pub max_bookmarks: Option<usize>,
    pub send_options: Opts<Vec<OptionsLine<String>>>,
    pub recv_options: Opts<Vec<OptionsLine<String>>>,
    pub ssh_cipher: Option<String>,
    pub ssh_port: Option<String>,
    pub ssh_config: Option<String>,
    pub ssh_identity: Option<String>,
    pub ssh_options: Vec<String>,
    pub debug: bool,
    pub quiet: bool,
    pub dump_snaps: bool,
    pub no_command_checks: bool,
    pub skip_optional_commands: SkippedCommands,
    pub dry_run: bool,
    pub no_resume: bool,
    pub no_clone_handling: bool,
    pub no_privilege_elevation: bool,
    pub source_host: Option<String>,
    pub target_host: Option<String>,
    pub force_delete: bool,
    pub no_recv_check_start: bool,
    pub max_delay_seconds: Option<u32>,
    pub source: String,
    pub target: String,
}

/// Position of the first token that names no optional helper program, or the
/// number of tokens.
pub open spec fn first_unknown(tokens: Seq<Seq<char>>) -> nat
    decreases tokens.len(),
{
    if tokens.len() == 0 || SkipToken::named(tokens[0]) is None {
        0
    } else {
        1 + first_unknown(tokens.drop_first())
    }
}

/// The tokens of a list of names separated by commas; none for a list that is
/// empty but for white space.
pub open spec fn skip_tokens(commands: Seq<char>) -> Seq<Seq<char>> {
    if trim(commands).len() == 0 {
        Seq::empty()
    } else {
        split(trim(commands), ',')
    }
}

/// The message for a name that is no optional helper program.
pub open spec fn unsupported_command(name: Seq<char>) -> Seq<char> {
    "unsupported command "@ + name + " passed to --skip-optional-commands"@
}

/// The characters that an identifier may hold.
pub open spec fn identifier_char(c: char) -> bool {
    is_ascii_alphanumeric(c) || c == '-' || c == '_' || c == ':' || c == '.'
}

/// The arguments of the buffer program: quiet, block size, buffer size, and
/// the rate limit under the given flag when there is one.
pub open spec fn mbuffer_args(size: Seq<char>, flag: Seq<char>, limit: Option<Bytes>) -> Seq<
    Seq<char>,
> {
    seq!["-q"@, "-s"@, "128k"@, "-m"@, size] + (match limit {
        Some(l) => seq![flag, l.text()],
        None => Seq::empty(),
    })
}

/// A position before which every word is a token, and which holds a word
/// that is none or is the end, is the first unknown one.
pub proof fn lemma_first_unknown_is(tokens: Seq<Seq<char>>, k: int)
    requires
        0 <= k <= tokens.len(),
        forall|i: int| 0 <= i < k ==> SkipToken::named(tokens[i]) is Some,
        k < tokens.len() ==> SkipToken::named(tokens[k]) is None,
    ensures
        first_unknown(tokens) == k,
    decreases tokens.len(),
{
    if tokens.len() == 0 || SkipToken::named(tokens[0]) is None {
    } else {
        let t = tokens.drop_first();
        assert forall|i: int| 0 <= i < k - 1 implies SkipToken::named(t[i]) is Some by {
            assert(t[i] == tokens[i + 1]);
        }
        lemma_first_unknown_is(t, k - 1);
    }
}

fn mbuffer_argv(size: &str, flag: &str, limit: &Option<Bytes>) -> (r: Vec<String>)
    ensures
        r.deep_view() == mbuffer_args(size@, flag@, *limit),
{
    let mut r: Vec<String> = Vec::new();
    push_arg(&mut r, "-q");
    push_arg(&mut r, "-s");
    push_arg(&mut r, "128k");
    push_arg(&mut r, "-m");
    push_arg(&mut r, size);
    match limit {
        Some(l) => {
            push_arg(&mut r, flag);
            let text = l.to_string();
            push_arg(&mut r, text.as_str());
        },
        None => {},
    }
    assert(r.deep_view() =~= mbuffer_args(size@, flag@, *limit));
    r
}

impl Args {
    /// Whether clones are recreated on the target.
    pub fn clone_handling(&self) -> (r: bool)
        ensures
            r == !self.no_clone_handling,
    {
        !self.no_clone_handling
    }

    /// Whether a recursive run first checks all its targets for a running
    /// receive.
    pub fn recv_check_start(&self) -> (r: bool)
        ensures
            r == !self.no_recv_check_start,
    {
        !self.no_recv_check_start
    }

    /// Parses the list of optional helper programs to switch off: names
    /// separated by commas. The first name that is none of the eight is
    /// reported.
    pub fn get_commands_to_skip(commands: &str) -> (r: Result<SkippedCommands, String>)
        ensures
            ({
                let tokens = skip_tokens(commands@);
                let k = first_unknown(tokens) as int;
                if k < tokens.len() {
                    r matches Err(m) && m@ == unsupported_command(tokens[k])
                } else {
                    r matches Ok(s) && forall|t: SkipToken|
                        s.has(t) <==> exists|i: int|
                            0 <= i < tokens.len() && SkipToken::named(#[trigger] tokens[i]) == Some(t)
                }
            }),
    {
        let mut res = SkippedCommands::none();
        let v = chars_of(commands);
        let (a, b) = trim_bounds(&v);
        if a == b {
            return Ok(res);
        }
        let mut trimmed: Vec<char> = Vec::new();
        push_range(&mut trimmed, &v, a, b);
        assert(trimmed@ =~= trim(commands@));
        let tokens = split_chars(&trimmed, ',');
        let ghost all = texts(tokens@);
        let mut i: usize = 0;
        while i < tokens.len()
            invariant
                i <= tokens.len(),
                all == texts(tokens@),
                all == skip_tokens(commands@),
                forall|j: int| 0 <= j < i ==> SkipToken::named(all[j]) is Some,
                forall|t: SkipToken|
                    res.has(t) <==> exists|j: int|
                        0 <= j < i && SkipToken::named(#[trigger] all[j]) == Some(t),
            decreases tokens.len() - i,
        {
            assert(all[i as int] == tokens@[i as int]@);
            match SkipToken::from_chars(&tokens[i]) {
                Some(token) => {
                    res.insert(token);
                    assert forall|t: SkipToken|
                        res.has(t) <==> exists|j: int|
                            0 <= j < i + 1 && SkipToken::named(#[trigger] all[j]) == Some(t) by {
                        if res.has(t) {
                            if t == token {
                                assert(SkipToken::named(all[i as int]) == Some(t));
                            } else {
                                let j = choose|j: int|
                                    0 <= j < i && SkipToken::named(#[trigger] all[j]) == Some(t);
                                assert(0 <= j < i + 1);
                            }
                        }
                    }
                },
                None => {
                    proof {
                        lemma_first_unknown_is(all, i as int);
                    }
                    let mut msg: Vec<char> = Vec::new();
                    push_str(&mut msg, "unsupported command ");
                    let n: usize = tokens[i].len();
                    push_range(&mut msg, &tokens[i], 0, n);
                    assert(tokens@[i as int]@.subrange(0, n as int) =~= tokens@[i as int]@);
                    push_str(&mut msg, " passed to --skip-optional-commands");
                    assert(msg@ =~= unsupported_command(all[i as int]));
                    return Err(to_string(&msg));
                },
            }
            i += 1;
        }
        proof {
            lemma_first_unknown_is(all, tokens.len() as int);
        }
        Ok(res)
    }

    /// Whether the optional helper program is not switched off.
    pub fn optional_enabled(&self, optional: SkipToken) -> (r: bool)
        ensures
            r == !self.skip_optional_commands.has(optional),
    {
        !self.skip_optional_commands.contains(optional)
    }

    /// The arguments of the buffer program on the sending side.
    pub fn get_source_mbuffer_args(&self) -> (r: Vec<String>)
        ensures
            r.deep_view() == mbuffer_args(self.mbuffer_size@, "-R"@, self.source_bwlimit),
    {
        mbuffer_argv(self.mbuffer_size.as_str(), "-R", &self.source_bwlimit)
    }

    /// The arguments of the buffer program on the receiving side.
    pub fn get_target_mbuffer_args(&self) -> (r: Vec<String>)
        ensures
            r.deep_view() == mbuffer_args(self.mbuffer_size@, "-r"@, self.target_bwlimit),
    {
        mbuffer_argv(self.mbuffer_size.as_str(), "-r", &self.target_bwlimit)
    }

    /// Whether two remote hosts exchange the data between themselves. They
    /// never do: the data passes through the local machine.
    pub fn direct_connection(&self) -> (r: bool)
        ensures
            !r,
    {
        false
    }

    /// Accepts an identifier made of ASCII letters, digits and `-_:.` only.
    pub fn validate_identifier(value: &str) -> (r: Result<String, &'static str>)
        ensures
            if forall|i: int| 0 <= i < value@.len() ==> identifier_char(value@[i]) {
                r matches Ok(s) && s@ == value@
            } else {
                r matches Err(m) && m@ == "extra indentifier contains invalid chars!"@
            },
    {
        let v = chars_of(value);
        let mut i: usize = 0;
        while i < v.len()
            invariant
                i <= v.len(),
                v@ == value@,
                forall|j: int| 0 <= j < i ==> identifier_char(v@[j]),
            decreases v.len() - i,
        {
            let c: char = v[i];
            if !(char_is_alphanumeric(c) || c == '-' || c == '_' || c == ':' || c == '.') {
                assert(!identifier_char(value@[i as int]));
                return Err("extra indentifier contains invalid chars!");
            }
            i += 1;
        }
        Ok(value.to_string())
    }
}

} // verus!
