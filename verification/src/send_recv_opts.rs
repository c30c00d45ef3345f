//! Extra options for `zfs send` and `zfs receive`, written in a compact form
//! such as `Lc e` or `ux recordsize o compression=lz4`, and filtered down to
//! what each kind of transfer accepts.

use crate::text::{chars_of, push_range, split, split_chars, texts, to_string};
use vstd::prelude::*;

verus! {

/// The options of one command, in the order given.
#[derive(Debug, Clone)]
pub struct Opts<T> {
    pub options: T,
}

/// One option: its letter, and the text to hand to the command (`-L`, or
/// `-o compression=lz4`).
#[derive(Debug, Clone)]
pub struct OptionsLine<T> {
    pub option: char,
    pub line: T,
}

/// The letters that are followed by a value.
pub open spec fn takes_value(c: char) -> bool {
    c == 'o' || c == 'x' || c == 'X'
}

/// Position of the first letter of `token` that takes a value, or its length.
pub open spec fn first_valued(token: Seq<char>) -> nat
    decreases token.len(),
{
    if token.len() == 0 || takes_value(token[0]) {
        0
    } else {
        1 + first_valued(token.drop_first())
    }
}

/// The options that the first `k` letters of `token` stand for.
pub open spec fn flags(token: Seq<char>, k: int) -> Seq<(char, Seq<char>)> {
    Seq::new(k as nat, |i: int| (token[i], seq!['-', token[i]]))
}

/// Puts `head` in front of a successful result.
pub open spec fn after(
    head: Seq<(char, Seq<char>)>,
    rest: Result<Seq<(char, Seq<char>)>, Seq<char>>,
) -> Result<Seq<(char, Seq<char>)>, Seq<char>> {
    match rest {
        Ok(r) => Ok(head + r),
        Err(e) => Err(e),
    }
}

/// What the blank-separated `tokens` mean, read from the left. `pending` is
/// the letter that still waits for its value. Empty tokens are passed over. A
/// token of letters gives one option per letter; a letter that takes a value
/// must end its token, and the next token is its value.
pub open spec fn read_tokens(tokens: Seq<Seq<char>>, pending: Option<char>) -> Result<
    Seq<(char, Seq<char>)>,
    Seq<char>,
>
    decreases tokens.len(),
{
    if tokens.len() == 0 {
        if pending is Some {
            Err("did not find value after o, x, or X option"@)
        } else {
            Ok(Seq::empty())
        }
    } else {
        let t = tokens[0];
        let rest = tokens.drop_first();
        if t.len() == 0 {
            read_tokens(rest, pending)
        } else {
            match pending {
                Some(o) => after(seq![(o, seq!['-', o, ' '] + t)], read_tokens(rest, None)),
                None => {
                    let k = first_valued(t) as int;
                    if k == t.len() {
                        after(flags(t, k), read_tokens(rest, None))
                    } else if k + 1 < t.len() {
                        Err(
                            "found another single letter options after o, x, or X instead of the option value"@,
                        )
                    } else {
                        after(flags(t, k), read_tokens(rest, Some(t[k])))
                    }
                },
            }
        }
    }
}

/// What an option text means.
pub open spec fn read_options(value: Seq<char>) -> Result<Seq<(char, Seq<char>)>, Seq<char>> {
    read_tokens(split(value, ' '), None)
}

/// Letter and text of each option.
pub open spec fn lines_of(options: Seq<OptionsLine<String>>) -> Seq<(char, Seq<char>)> {
    Seq::new(options.len(), |i: int| (options[i].option, options[i].line@))
}

/// The texts of the options whose letter is allowed, in order.
pub open spec fn allowed_lines(options: Seq<OptionsLine<String>>, allowed: Seq<char>) -> Seq<
    Seq<char>,
>
    decreases options.len(),
{
    if options.len() == 0 {
        Seq::empty()
    } else if allowed.contains(options.last().option) {
        allowed_lines(options.drop_last(), allowed).push(options.last().line@)
    } else {
        allowed_lines(options.drop_last(), allowed)
    }
}

/// The compact form of the options: each text without its first character, a
/// blank after an option that has a value.
pub open spec fn compact(options: Seq<OptionsLine<String>>) -> Seq<char>
    decreases options.len(),
{
    if options.len() == 0 {
        Seq::empty()
    } else {
        let before = options.drop_last();
        compact(before) + (if before.len() > 0 && takes_value(before.last().option) {
            seq![' ']
        } else {
            Seq::empty()
        }) + without_first(options.last().line@)
    }
}

/// `s` without its first character, if it has one.
pub open spec fn without_first(s: Seq<char>) -> Seq<char> {
    if s.len() > 0 {
        s.skip(1)
    } else {
        s
    }
}

/// The lines of a list of options with one more at its end.
pub proof fn lemma_lines_of_push(options: Seq<OptionsLine<String>>, x: OptionsLine<String>)
    ensures
        lines_of(options.push(x)) == lines_of(options).push((x.option, x.line@)),
{
    assert(lines_of(options.push(x)) =~= lines_of(options).push((x.option, x.line@)));
}

/// A position with no valued option before it, which holds one or is the
/// end, is that of the first valued option.
pub proof fn lemma_first_valued_is(token: Seq<char>, k: int)
    requires
        0 <= k <= token.len(),
        forall|i: int| 0 <= i < k ==> !takes_value(token[i]),
        k < token.len() ==> takes_value(token[k]),
    ensures
        first_valued(token) == k,
    decreases token.len(),
{
    if token.len() == 0 || takes_value(token[0]) {
    } else {
        let t = token.drop_first();
        assert forall|i: int| 0 <= i < k - 1 implies !takes_value(t[i]) by {
            assert(t[i] == token[i + 1]);
        }
        lemma_first_valued_is(t, k - 1);
    }
}

/// Whether the option takes a value.
pub fn char_takes_value(c: char) -> (r: bool)
    ensures
        r == takes_value(c),
{
    c == 'o' || c == 'x' || c == 'X'
}

/// Whether `c` is among the allowed characters.
pub fn char_in(allowed: &[char], c: char) -> (r: bool)
    ensures
        r == allowed@.contains(c),
{
    let mut i: usize = 0;
    while i < allowed.len()
        invariant
            i <= allowed.len(),
            forall|j: int| 0 <= j < i ==> allowed@[j] != c,
        decreases allowed.len() - i,
    {
        if allowed[i] == c {
            return true;
        }
        i += 1;
    }
    false
}

impl Opts<Vec<OptionsLine<String>>> {
    /// Parses the compact form.
    pub fn try_from_str(value: &str) -> (r: Result<Self, &'static str>)
        ensures
            match read_options(value@) {
                Ok(lines) => r matches Ok(o) && lines_of(o.options@) == lines,
                Err(m) => r matches Err(e) && e@ == m,
            },
    {
        let v = chars_of(value);
        let tokens = split_chars(&v, ' ');
        let ghost all = texts(tokens@);
        let mut options: Vec<OptionsLine<String>> = Vec::new();
        let mut pending: Option<char> = None;
        let mut i: usize = 0;
        assert(all.skip(0) =~= all);
        assert(lines_of(options@) =~= Seq::empty());
        assert(read_tokens(all, None) == after(lines_of(options@), read_tokens(all.skip(0), pending)))
            by {
            match read_tokens(all, None) {
                Ok(r) => assert(Seq::<(char, Seq<char>)>::empty() + r =~= r),
                Err(_) => {},
            }
        }
        while i < tokens.len()
            invariant
                i <= tokens.len(),
                all == texts(tokens@),
                read_options(value@) == after(
                    lines_of(options@),
                    read_tokens(all.skip(i as int), pending),
                ),
            decreases tokens.len() - i,
        {
            let t = &tokens[i];
            let ghost rest = all.skip(i + 1);
            let ghost here = all.skip(i as int);
            let ghost done = lines_of(options@);
            proof {
                assert(here[0] == t@);
                assert(here.drop_first() =~= rest);
            }
            if t.len() == 0 {
            } else if let Some(o) = pending {
                let mut line: Vec<char> = Vec::new();
                line.push('-');
                line.push(o);
                line.push(' ');
                let n: usize = t.len();
                push_range(&mut line, t, 0, n);
                proof {
                    assert(t@.subrange(0, n as int) =~= t@);
                    assert(line@ =~= seq!['-', o, ' '] + t@);
                }
                let entry = OptionsLine { option: o, line: to_string(&line) };
                proof {
                    lemma_lines_of_push(options@, entry);
                }
                options.push(entry);
                pending = None;
                proof {
                    let one = seq![(o, seq!['-', o, ' '] + t@)];
                    assert(lines_of(options@) =~= done + one);
                    match read_tokens(rest, None) {
                        Ok(r) => assert(done + (one + r) =~= (done + one) + r),
                        Err(_) => {},
                    }
                }
            } else {
                let mut k: usize = 0;
                assert(done + flags(t@, 0) =~= done);
                while k < t.len() && !char_takes_value(t[k])
                    invariant
                        k <= t.len(),
                        forall|j: int| 0 <= j < k ==> !takes_value(t@[j]),
                        lines_of(options@) == done + flags(t@, k as int),
                    decreases t.len() - k,
                {
                    let c: char = t[k];
                    let mut line: Vec<char> = Vec::new();
                    line.push('-');
                    line.push(c);
                    assert(line@ =~= seq!['-', c]);
                    let entry = OptionsLine { option: c, line: to_string(&line) };
                    proof {
                        lemma_lines_of_push(options@, entry);
                    }
                    options.push(entry);
                    assert(lines_of(options@) =~= done + flags(t@, k + 1));
                    k += 1;
                }
                proof {
                    lemma_first_valued_is(t@, k as int);
                }
                if k < t.len() {
                    if k + 1 < t.len() {
                        return Err(
                            "found another single letter options after o, x, or X instead of the option value",
                        );
                    }
                    pending = Some(t[k]);
                }
                proof {
                    match read_tokens(rest, pending) {
                        Ok(r) => assert(done + (flags(t@, k as int) + r) =~= (done + flags(
                            t@,
                            k as int,
                        )) + r),
                        Err(_) => {},
                    }
                }
            }
            i += 1;
        }
        assert(all.skip(tokens.len() as int) =~= Seq::empty());
        if pending.is_some() {
            return Err("did not find value after o, x, or X option");
        }
        assert(lines_of(options@) + Seq::empty() =~= lines_of(options@));
        Ok(Self { options })
    }

    /// The texts of the options whose letter is among `allowed`, in order.
    pub fn filter_allowed(&self, allowed: &[char]) -> (r: Vec<&str>)
        ensures
            Seq::new(r@.len(), |i: int| r@[i]@) == allowed_lines(self.options@, allowed@),
    {
        let mut r: Vec<&str> = Vec::new();
        let mut i: usize = 0;
        assert(Seq::new(r@.len(), |i: int| r@[i]@) =~= allowed_lines(self.options@.take(0), allowed@));
        while i < self.options.len()
            invariant
                i <= self.options.len(),
                Seq::new(r@.len(), |i: int| r@[i]@) == allowed_lines(
                    self.options@.take(i as int),
                    allowed@,
                ),
            decreases self.options.len() - i,
        {
            let ghost before = Seq::new(r@.len(), |i: int| r@[i]@);
            proof {
                assert(self.options@.take(i + 1).drop_last() =~= self.options@.take(i as int));
            }
            if char_in(allowed, self.options[i].option) {
                r.push(self.options[i].line.as_str());
                assert(Seq::new(r@.len(), |i: int| r@[i]@) =~= before.push(self.options@[i as int].line@));
            }
            i += 1;
        }
        assert(self.options@.take(self.options.len() as int) =~= self.options@);
        r
    }

    /// The compact form, as `try_from_str` reads it.
    pub fn to_string(&self) -> (r: String)
        ensures
            r@ == compact(self.options@),
    {
        let mut out: Vec<char> = Vec::new();
        let mut i: usize = 0;
        assert(out@ =~= compact(self.options@.take(0)));
        while i < self.options.len()
            invariant
                i <= self.options.len(),
                out@ == compact(self.options@.take(i as int)),
            decreases self.options.len() - i,
        {
            proof {
                assert(self.options@.take(i + 1).drop_last() =~= self.options@.take(i as int));
            }
            if i > 0 && char_takes_value(self.options[i - 1].option) {
                out.push(' ');
            }
            let line = chars_of(self.options[i].line.as_str());
            let n: usize = line.len();
            if n > 0 {
                push_range(&mut out, &line, 1, n);
                assert(line@.subrange(1, n as int) =~= line@.skip(1));
            }
            assert(out@ =~= compact(self.options@.take(i + 1)));
            i += 1;
        }
        assert(self.options@.take(self.options.len() as int) =~= self.options@);
        to_string(&out)
    }
}

impl Default for Opts<Vec<OptionsLine<String>>> {
    fn default() -> (r: Self)
        ensures
            r.options@.len() == 0,
    {
        Opts { options: Vec::new() }
    }
}

} // verus!
