//! The `zfs` invocations of a replication and the reading of what they print.

use crate::cmd::{Cmd, CmdTarget};
use crate::plan::{Send, SendFlag, SendModel};
use crate::send_recv_opts::{allowed_lines, OptionsLine, Opts};
use crate::text::{
    char_is_digit, chars_of, contains, contains_run, digits_value, find_char, first_index,
    has_char, has_prefix, is_ascii_digit, parse_digits, push_arg, split, split_chars, str_eq, string_of,
    texts, trim, trim_bounds,
};
use vstd::prelude::*;

verus! {

/// Why a property could not be read.
#[derive(Debug, Clone, Copy, PartialEq, Eq, Structural)]
pub enum ValueError {
    /// `zfs` said that the dataset does not exist.
    NotFound,
    /// `zfs` failed otherwise.
    Failed,
    /// The output is no text.
    NotText,
    /// The output has fewer than three fields.
    TooFewFields,
}

impl ValueError {
    /// The message of the error.
    pub open spec fn message(&self) -> Seq<char> {
        match self {
            ValueError::NotFound => "dataset does not exist"@,
            ValueError::Failed => "failed to get zfs property"@,
            ValueError::NotText => "could not parse output of zfs get"@,
            ValueError::TooFewFields => "expected zfs get to return at least three fields"@,
        }
    }

    /// The message of the error.
    pub fn to_str(&self) -> (r: &'static str)
        ensures
            r@ == self.message(),
    {
        match self {
            ValueError::NotFound => "dataset does not exist",
            ValueError::Failed => "failed to get zfs property",
            ValueError::NotText => "could not parse output of zfs get",
            ValueError::TooFewFields => "expected zfs get to return at least three fields",
        }
    }
}

/// The value that `zfs get -H` printed, or why there is none. That the
/// dataset does not exist is read from the error output and counts first;
/// then whether the command succeeded; then the third of the tab separated
/// fields of the output, without the white space around the output.
pub open spec fn value_of(success: bool, stdout: Option<Seq<char>>, stderr: Seq<char>) -> Result<
    Seq<char>,
    ValueError,
> {
    if contains_run(stderr, "dataset does not exist"@) {
        Err(ValueError::NotFound)
    } else if !success {
        Err(ValueError::Failed)
    } else {
        match stdout {
            None => Err(ValueError::NotText),
            Some(out) => {
                let fields = split(trim(out), '\t');
                if fields.len() < 3 {
                    Err(ValueError::TooFewFields)
                } else {
                    Ok(fields[2])
                }
            },
        }
    }
}

/// Whether the target exists, and whether `zfs` named exactly it.
#[derive(Debug, Clone, Copy, PartialEq, Eq, Structural)]
pub struct Existence {
    /// The output starts with the name of the dataset.
    pub exists: bool,
    /// The first field of the output is the name of the dataset.
    pub exact: bool,
}

/// What `zfs get -H name <fs>` tells: a failure that says that the dataset
/// does not exist means that it does not; any other failure is an error; a
/// success means that it exists if the output starts with its name.
pub open spec fn existence_of(success: bool, stdout: Seq<char>, stderr: Seq<char>, fs: Seq<char>) -> Result<
    Existence,
    ValueError,
> {
    if !success {
        if contains_run(stderr, "dataset does not exist"@) {
            Ok(Existence { exists: false, exact: false })
        } else {
            Err(ValueError::Failed)
        }
    } else {
        Ok(
            Existence {
                exists: fs.is_prefix_of(stdout),
                exact: stdout.take(first_index(stdout, '\t') as int) == fs,
            },
        )
    }
}

/// The token of an interrupted receive, if the property holds one: `-` and
/// the empty value stand for none.
pub open spec fn token_of(value: Seq<char>) -> Option<Seq<char>> {
    if value == "-"@ || value.len() == 0 {
        None
    } else {
        Some(value)
    }
}

/// Number of trailing characters of `s` that are not `c`.
pub open spec fn trailing_without(s: Seq<char>, c: char) -> nat
    decreases s.len(),
{
    if s.len() == 0 || s.last() == c {
        0
    } else {
        1 + trailing_without(s.drop_last(), c)
    }
}

/// Number of trailing decimal digits of `s`.
pub open spec fn trailing_digits(s: Seq<char>) -> nat
    decreases s.len(),
{
    if s.len() == 0 || !is_ascii_digit(s.last()) {
        0
    } else {
        1 + trailing_digits(s.drop_last())
    }
}

/// The last line of a text.
pub open spec fn last_line(s: Seq<char>) -> Seq<char> {
    s.skip(s.len() - trailing_without(s, '\n'))
}

/// The digits at the end of a line, one character that is no digit after
/// them passed over.
pub open spec fn size_digits(line: Seq<char>) -> Seq<char> {
    let body = if line.len() > 0 && !is_ascii_digit(line.last()) {
        line.drop_last()
    } else {
        line
    };
    body.skip(body.len() - trailing_digits(body))
}

/// The size that `zfs send -nvP` estimates: the number at the end of the last
/// line of its output, but at least 4096; zero when there is no such number.
pub open spec fn send_size_of(output: Seq<char>) -> u64 {
    match digits_value(size_digits(last_line(trim(output)))) {
        Some(n) => if n < 4096 {
            4096
        } else {
            n
        },
        None => 0,
    }
}

/// The letters of the send options that a kind of send accepts. `estimate`
/// is for the dry run that estimates the size.
pub open spec fn send_letters(send: SendModel, estimate: bool) -> Seq<char> {
    if send.flag == Some(SendFlag::Resume) {
        if estimate {
            seq!['V', 'e']
        } else {
            seq!['P', 'V', 'e', 'v']
        }
    } else if estimate {
        seq!['L', 'V', 'R', 'X', 'b', 'c', 'e', 'h', 'p', 's', 'w']
    } else if send.from.contains('#') {
        seq!['L', 'V', 'c', 'e', 'w']
    } else {
        seq!['L', 'P', 'V', 'R', 'X', 'b', 'c', 'e', 'h', 'p', 's', 'v', 'w']
    }
}

/// Flag, start and goal of a send as arguments.
pub open spec fn from_to(send: SendModel) -> Seq<Seq<char>> {
    (match send.flag {
        Some(f) => seq![f.text()],
        None => Seq::empty(),
    }) + seq![send.from] + (match send.to {
        Some(t) => seq![t],
        None => Seq::empty(),
    })
}

/// The arguments of the `zfs send`: the options that this kind of send
/// accepts, then flag, start and goal.
pub open spec fn send_args(options: Seq<OptionsLine<String>>, send: SendModel) -> Seq<Seq<char>> {
    seq!["send"@] + allowed_lines(options, send_letters(send, false)) + from_to(send)
}

/// The arguments of the `zfs send` that only estimates the size.
pub open spec fn estimate_args(options: Seq<OptionsLine<String>>, send: SendModel) -> Seq<Seq<char>> {
    seq!["send"@] + allowed_lines(options, send_letters(send, true)) + seq!["-nvP"@] + from_to(send)
}

/// The arguments of the `zfs receive`: the options that a receive accepts,
/// `-s` to keep the state of an interrupted stream unless resuming is off,
/// `-F` to roll the target back unless rollback is off, and the target.
pub open spec fn recv_args(
    options: Seq<OptionsLine<String>>,
    target: Seq<char>,
    no_resume: bool,
    no_rollback: bool,
) -> Seq<Seq<char>> {
    seq!["receive"@] + allowed_lines(options, seq!['h', 'o', 'x', 'u', 'v']) + (if no_resume {
        Seq::empty()
    } else {
        seq!["-s"@]
    }) + (if no_rollback {
        Seq::empty()
    } else {
        seq!["-F"@]
    }) + seq![target]
}

proof fn lemma_trailing_without_is(s: Seq<char>, c: char, k: int)
    requires
        0 <= k <= s.len(),
        forall|j: int| s.len() - k <= j < s.len() ==> s[j] != c,
        k < s.len() ==> s[s.len() - k - 1] == c,
    ensures
        trailing_without(s, c) == k,
    decreases s.len(),
{
    if s.len() == 0 || s.last() == c {
    } else {
        let d = s.drop_last();
        assert forall|j: int| d.len() - (k - 1) <= j < d.len() implies d[j] != c by {
            assert(d[j] == s[j]);
        }
        if k - 1 < d.len() {
            assert(d[d.len() - (k - 1) - 1] == s[s.len() - k - 1]);
        }
        lemma_trailing_without_is(d, c, k - 1);
    }
}

proof fn lemma_trailing_digits_is(s: Seq<char>, k: int)
    requires
        0 <= k <= s.len(),
        forall|j: int| s.len() - k <= j < s.len() ==> is_ascii_digit(s[j]),
        k < s.len() ==> !is_ascii_digit(s[s.len() - k - 1]),
    ensures
        trailing_digits(s) == k,
    decreases s.len(),
{
    if s.len() == 0 || !is_ascii_digit(s.last()) {
    } else {
        let d = s.drop_last();
        assert forall|j: int| d.len() - (k - 1) <= j < d.len() implies is_ascii_digit(d[j]) by {
            assert(d[j] == s[j]);
        }
        if k - 1 < d.len() {
            assert(d[d.len() - (k - 1) - 1] == s[s.len() - k - 1]);
        }
        lemma_trailing_digits_is(d, k - 1);
    }
}

/// The value that `zfs get -H` printed. `stdout` is the output if it is text.
pub fn read_zfs_value(success: bool, stdout: Option<&str>, stderr: &str) -> (r: Result<String, ValueError>)
    ensures
        match value_of(success, crate::fs::opt_text(stdout), stderr@) {
            Ok(v) => r matches Ok(s) && s@ == v,
            Err(e) => r == Err::<String, ValueError>(e),
        },
{
    let err = chars_of(stderr);
    let needle = chars_of("dataset does not exist");
    if contains(&err, &needle) {
        return Err(ValueError::NotFound);
    }
    if !success {
        return Err(ValueError::Failed);
    }
    match stdout {
        None => Err(ValueError::NotText),
        Some(out) => {
            let v = chars_of(out);
            let (a, b) = trim_bounds(&v);
            let mut trimmed: Vec<char> = Vec::new();
            crate::text::push_range(&mut trimmed, &v, a, b);
            assert(trimmed@ =~= trim(out@));
            let fields = split_chars(&trimmed, '\t');
            if fields.len() < 3 {
                Err(ValueError::TooFewFields)
            } else {
                assert(texts(fields@)[2] == fields@[2]@);
                Ok(crate::text::to_string(&fields[2]))
            }
        },
    }
}

/// What `zfs get -H name <fs>` tells about the existence of `fs`.
pub fn read_target_exists(success: bool, stdout: &str, stderr: &str, fs: &str) -> (r: Result<
    Existence,
    ValueError,
>)
    ensures
        r == existence_of(success, stdout@, stderr@, fs@),
{
    if !success {
        let err = chars_of(stderr);
        let needle = chars_of("dataset does not exist");
        if contains(&err, &needle) {
            return Ok(Existence { exists: false, exact: false });
        }
        return Err(ValueError::Failed);
    }
    let out = chars_of(stdout);
    let name = chars_of(fs);
    let exists = has_prefix(&out, &name);
    let k: usize = find_char(&out, 0, '\t');
    assert(out@.skip(0) =~= out@);
    let first = string_of(&out, 0, k);
    assert(out@.subrange(0, k as int) =~= out@.take(k as int));
    Ok(Existence { exists, exact: str_eq(first.as_str(), fs) })
}

/// The token of an interrupted receive, if the property holds one.
pub fn get_resume_token(value: String) -> (r: Option<String>)
    ensures
        crate::fs::opt_string(r) == token_of(value@),
{
    if str_eq(value.as_str(), "-") || value.as_str().unicode_len() == 0 {
        None
    } else {
        Some(value)
    }
}

/// The size that `zfs send -nvP` estimates, read from its output.
pub fn parse_send_size(output: &str) -> (r: u64)
    ensures
        r == send_size_of(output@),
{
    let v = chars_of(output);
    let (a, b) = trim_bounds(&v);
    let mut t: Vec<char> = Vec::new();
    crate::text::push_range(&mut t, &v, a, b);
    assert(t@ =~= trim(output@));
    // the last line
    let mut start: usize = t.len();
    while start > 0 && t[start - 1] != '\n'
        invariant
            start <= t.len(),
            forall|j: int| start <= j < t.len() ==> t@[j] != '\n',
        decreases start,
    {
        start -= 1;
    }
    proof {
        lemma_trailing_without_is(t@, '\n', t.len() - start);
    }
    let mut end: usize = t.len();
    let ghost line = t@.skip(start as int);
    assert(line == last_line(t@));
    if end > start && !char_is_digit(t[end - 1]) {
        end -= 1;
    }
    let ghost body = t@.subrange(start as int, end as int);
    proof {
        if line.len() > 0 && !is_ascii_digit(line.last()) {
            assert(body =~= line.drop_last());
        } else {
            assert(body =~= line);
        }
    }
    let mut from: usize = end;
    while from > start && char_is_digit(t[from - 1])
        invariant
            start <= from <= end <= t.len(),
            body == t@.subrange(start as int, end as int),
            forall|j: int| from <= j < end ==> is_ascii_digit(t@[j]),
        decreases from,
    {
        from -= 1;
    }
    proof {
        assert forall|j: int| body.len() - (end - from) <= j < body.len() implies is_ascii_digit(
            body[j],
        ) by {
            assert(body[j] == t@[start + j]);
        }
        if end - from < body.len() {
            assert(body[body.len() - (end - from) - 1] == t@[from - 1]);
        }
        lemma_trailing_digits_is(body, end - from);
        assert(t@.subrange(from as int, end as int) =~= size_digits(line));
    }
    match parse_digits(&t, from, end) {
        Some(n) => if n < 4096 {
            4096
        } else {
            n
        },
        None => 0,
    }
}

fn push_from_to(args: &mut Vec<String>, send: &Send)
    ensures
        final(args).deep_view() == old(args).deep_view() + from_to(send@),
{
    match send.flag {
        Some(f) => push_arg(args, f.to_str()),
        None => {},
    }
    push_arg(args, send.from.as_str());
    match &send.to {
        Some(t) => push_arg(args, t.as_str()),
        None => {},
    }
    assert(args.deep_view() =~= old(args).deep_view() + from_to(send@));
}

fn push_allowed(args: &mut Vec<String>, options: &Opts<Vec<OptionsLine<String>>>, letters: &[char])
    ensures
        final(args).deep_view() == old(args).deep_view() + allowed_lines(options.options@, letters@),
{
    let lines = options.filter_allowed(letters);
    let ghost want = allowed_lines(options.options@, letters@);
    let mut i: usize = 0;
    assert(args.deep_view() =~= old(args).deep_view() + want.take(0));
    while i < lines.len()
        invariant
            i <= lines.len(),
            want == Seq::new(lines@.len(), |i: int| lines@[i]@),
            args.deep_view() == old(args).deep_view() + want.take(i as int),
        decreases lines.len() - i,
    {
        push_arg(args, lines[i]);
        assert(args.deep_view() =~= old(args).deep_view() + want.take(i + 1));
        i += 1;
    }
    assert(want.take(lines.len() as int) =~= want);
}

fn allowed_for(send: &Send, estimate: bool) -> (r: &'static [char])
    ensures
        r@ == send_letters(send@, estimate),
{
    let resume = match send.flag {
        Some(SendFlag::Resume) => true,
        _ => false,
    };
    if resume {
        if estimate {
            let r: &'static [char] = &['V', 'e'];
            assert(r@ =~= send_letters(send@, estimate));
            r
        } else {
            let r: &'static [char] = &['P', 'V', 'e', 'v'];
            assert(r@ =~= send_letters(send@, estimate));
            r
        }
    } else if estimate {
        let r: &'static [char] = &['L', 'V', 'R', 'X', 'b', 'c', 'e', 'h', 'p', 's', 'w'];
        assert(r@ =~= send_letters(send@, estimate));
        r
    } else {
        let from = chars_of(send.from.as_str());
        if has_char(&from, '#') {
            let r: &'static [char] = &['L', 'V', 'c', 'e', 'w'];
            assert(r@ =~= send_letters(send@, estimate));
            r
        } else {
            let r: &'static [char] = &['L', 'P', 'V', 'R', 'X', 'b', 'c', 'e', 'h', 'p', 's', 'v', 'w'];
            assert(r@ =~= send_letters(send@, estimate));
            r
        }
    }
}

/// The `zfs send` that estimates the size of a send, as arguments to add to
/// the `zfs` of the source.
pub fn get_send_size_args(send_options: &Opts<Vec<OptionsLine<String>>>, send: &Send) -> (r: Vec<String>)
    ensures
        r.deep_view() == estimate_args(send_options.options@, send@),
{
    let mut args: Vec<String> = Vec::new();
    push_arg(&mut args, "send");
    push_allowed(&mut args, send_options, allowed_for(send, true));
    push_arg(&mut args, "-nvP");
    push_from_to(&mut args, send);
    assert(args.deep_view() =~= estimate_args(send_options.options@, send@));
    args
}

/// The sending command of a sync. It carries no host: it runs where its
/// pipeline runs.
pub fn send_cmd(send_options: &Opts<Vec<OptionsLine<String>>>, send: &Send, source_is_root: bool) -> (r: Cmd<
    'static,
>)
    ensures
        *r.target is Local,
        r.sudo == !source_is_root,
        r.base@ == "zfs"@,
        r.args.deep_view() == send_args(send_options.options@, send@),
{
    let mut args: Vec<String> = Vec::new();
    push_arg(&mut args, "send");
    push_allowed(&mut args, send_options, allowed_for(send, false));
    push_from_to(&mut args, send);
    assert(args.deep_view() =~= send_args(send_options.options@, send@));
    Cmd::new(&CmdTarget::Local, !source_is_root, "zfs", args)
}

/// The receiving command of a sync.
pub fn recv_cmd(
    recv_options: &Opts<Vec<OptionsLine<String>>>,
    target: &str,
    no_resume: bool,
    no_rollback: bool,
    target_is_root: bool,
) -> (r: Cmd<'static>)
    ensures
        *r.target is Local,
        r.sudo == !target_is_root,
        r.base@ == "zfs"@,
        r.args.deep_view() == recv_args(recv_options.options@, target@, no_resume, no_rollback),
{
    let mut args: Vec<String> = Vec::new();
    push_arg(&mut args, "receive");
    let letters: &'static [char] = &['h', 'o', 'x', 'u', 'v'];
    assert(letters@ =~= seq!['h', 'o', 'x', 'u', 'v']);
    push_allowed(&mut args, recv_options, letters);
    if !no_resume {
        push_arg(&mut args, "-s");
    }
    if !no_rollback {
        push_arg(&mut args, "-F");
    }
    push_arg(&mut args, target);
    assert(args.deep_view() =~= recv_args(recv_options.options@, target@, no_resume, no_rollback));
    Cmd::new(&CmdTarget::Local, !target_is_root, "zfs", args)
}

/// The arguments that list the snapshots (or, with `bookmarks`, the
/// bookmarks) of a dataset with GUID and creation time.
pub fn list_args(fs: &str, bookmarks: bool) -> (r: Vec<String>)
    ensures
        r.deep_view() == seq![
            "get"@,
            "-Hpd"@,
            "1"@,
            "-t"@,
            if bookmarks {
                "bookmark"@
            } else {
                "snapshot"@
            },
            "guid,creation"@,
            fs@,
        ],
{
    let mut args: Vec<String> = Vec::new();
    push_arg(&mut args, "get");
    push_arg(&mut args, "-Hpd");
    push_arg(&mut args, "1");
    push_arg(&mut args, "-t");
    push_arg(
        &mut args,
        if bookmarks {
            "bookmark"
        } else {
            "snapshot"
        },
    );
    push_arg(&mut args, "guid,creation");
    push_arg(&mut args, fs);
    args
}

/// The arguments that read properties of a dataset: `get -H <property…> <fs>`.
pub fn get_value_args(property: &[&str], fs: &str) -> (r: Vec<String>)
    ensures
        r.deep_view() == seq!["get"@, "-H"@] + crate::compress::words(property) + seq![fs@],
{
    let mut args: Vec<String> = Vec::new();
    push_arg(&mut args, "get");
    push_arg(&mut args, "-H");
    let ghost want = crate::compress::words(property);
    let ghost start = args.deep_view();
    let mut i: usize = 0;
    assert(args.deep_view() =~= start + want.take(0));
    while i < property.len()
        invariant
            i <= property.len(),
            want == crate::compress::words(property),
            args.deep_view() == start + want.take(i as int),
        decreases property.len() - i,
    {
        push_arg(&mut args, property[i]);
        assert(args.deep_view() =~= start + want.take(i + 1));
        i += 1;
    }
    assert(want.take(property.len() as int) =~= want);
    push_arg(&mut args, fs);
    assert(args.deep_view() =~= seq!["get"@, "-H"@] + want + seq![fs@]);
    args
}

/// The commands that destroy the named snapshots, in batches of at most ten.
pub open spec fn batches(names: Seq<Seq<char>>) -> Seq<Seq<Seq<char>>>
    decreases names.len(),
{
    if names.len() == 0 {
        Seq::empty()
    } else if names.len() <= 10 {
        seq![names]
    } else {
        seq![names.take(10)] + batches(names.skip(10))
    }
}

/// Splits the names of the snapshots to prune into batches of at most ten, in
/// order.
pub fn prune_batches(names: &Vec<String>) -> (r: Vec<Vec<String>>)
    ensures
        Seq::new(r@.len(), |i: int| r@[i].deep_view()) == batches(names.deep_view()),
{
    let ghost all = names.deep_view();
    let mut out: Vec<Vec<String>> = Vec::new();
    let mut start: usize = 0;
    assert(all.skip(0) =~= all);
    assert(Seq::new(out@.len(), |i: int| out@[i].deep_view()) + batches(all) =~= batches(all));
    while start < names.len()
        invariant
            start <= names.len(),
            all == names.deep_view(),
            batches(all) == Seq::new(out@.len(), |i: int| out@[i].deep_view()) + batches(
                all.skip(start as int),
            ),
        decreases names.len() - start,
    {
        let end: usize = if names.len() - start <= 10 {
            names.len()
        } else {
            start + 10
        };
        let ghost rest = all.skip(start as int);
        let ghost done = Seq::new(out@.len(), |i: int| out@[i].deep_view());
        let mut batch: Vec<String> = Vec::new();
        let mut i: usize = start;
        assert(batch.deep_view() =~= rest.take(0));
        while i < end
            invariant
                start <= i <= end <= names.len(),
                all == names.deep_view(),
                rest == all.skip(start as int),
                batch.deep_view() == rest.take(i - start),
            decreases end - i,
        {
            push_arg(&mut batch, names[i].as_str());
            assert(batch.deep_view() =~= rest.take(i - start + 1));
            i += 1;
        }
        out.push(batch);
        proof {
            let now = Seq::new(out@.len(), |i: int| out@[i].deep_view());
            assert(now =~= done.push(rest.take(end - start)));
            if rest.len() <= 10 {
                assert(rest.take(end - start) =~= rest);
                assert(all.skip(end as int) =~= Seq::<Seq<char>>::empty());
                assert(done + seq![rest] + Seq::<Seq<Seq<char>>>::empty() =~= now);
            } else {
                assert(rest.skip(10) =~= all.skip(end as int));
                assert(done + (seq![rest.take(10)] + batches(rest.skip(10))) =~= now + batches(
                    all.skip(end as int),
                ));
            }
        }
        start = end;
    }
    assert(all.skip(names.len() as int) =~= Seq::<Seq<char>>::empty());
    assert(Seq::new(out@.len(), |i: int| out@[i].deep_view()) + Seq::<Seq<Seq<char>>>::empty()
        =~= Seq::new(out@.len(), |i: int| out@[i].deep_view()));
    out
}

} // verus!
