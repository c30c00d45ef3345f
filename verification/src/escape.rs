//! Shell escaping of arguments, and the reading of a shell word against which
//! the escaping is proved.

use crate::text::{chars_of, push_range, to_string};
use vstd::prelude::*;

verus! {

/// The characters that make `escape_str` quote an argument.
pub open spec fn is_special(c: char) -> bool {
    c == '#' || c == '\'' || c == '"' || c == ' ' || c == '\t' || c == '\n' || c == '\r' || c
        == '|' || c == '&' || c == ';' || c == '<' || c == '>' || c == '(' || c == ')' || c == '$'
        || c == '*' || c == '?' || c == '[' || c == ']' || c == '^' || c == '!' || c == '~' || c
        == '%' || c == '{' || c == '}'
}

/// Whether some character of `s` is special.
pub open spec fn needs_quoting(s: Seq<char>) -> bool {
    exists|i: int| 0 <= i < s.len() && is_special(#[trigger] s[i])
}

/// What one character becomes between single quotes: a single quote closes the
/// quotation, stands escaped, and opens it again.
pub open spec fn quoted_char(c: char) -> Seq<char> {
    if c == '\'' {
        seq!['\'', '\\', '\'', '\'']
    } else {
        seq![c]
    }
}

/// The inside of the single-quoted form of `s`.
pub open spec fn quote_body(s: Seq<char>) -> Seq<char>
    decreases s.len(),
{
    if s.len() == 0 {
        Seq::empty()
    } else {
        quoted_char(s[0]) + quote_body(s.drop_first())
    }
}

/// The escaped form of an argument: itself when no character is special, else
/// wrapped in single quotes.
pub open spec fn escaped(s: Seq<char>) -> Seq<char> {
    if needs_quoting(s) {
        seq!['\''] + quote_body(s) + seq!['\'']
    } else {
        s
    }
}

/// The body of a quoted word grows by what its last character contributes.
pub proof fn lemma_quote_body_push(s: Seq<char>, c: char)
    ensures
        quote_body(s.push(c)) == quote_body(s) + quoted_char(c),
    decreases s.len(),
{
    if s.len() == 0 {
        assert(s.push(c).drop_first() =~= Seq::<char>::empty());
        assert(quote_body(s.push(c)) =~= quoted_char(c) + quote_body(Seq::empty()));
        assert(quote_body(s.push(c)) =~= quote_body(s) + quoted_char(c));
    } else {
        lemma_quote_body_push(s.drop_first(), c);
        assert(s.push(c).drop_first() =~= s.drop_first().push(c));
        assert(quote_body(s.push(c)) =~= quote_body(s) + quoted_char(c));
    }
}

/// Whether the character is one of those that the shell reads specially.
pub fn char_is_special(c: char) -> (r: bool)
    ensures
        r == is_special(c),
{
    c == '#' || c == '\'' || c == '"' || c == ' ' || c == '\t' || c == '\n' || c == '\r' || c
        == '|' || c == '&' || c == ';' || c == '<' || c == '>' || c == '(' || c == ')' || c == '$'
        || c == '*' || c == '?' || c == '[' || c == ']' || c == '^' || c == '!' || c == '~' || c
        == '%' || c == '{' || c == '}'
}

/// Appends the escaped form of `v` to `out`.
pub fn push_escaped(out: &mut Vec<char>, v: &Vec<char>)
    ensures
        final(out)@ == old(out)@ + escaped(v@),
{
    let mut special: bool = false;
    let mut i: usize = 0;
    while i < v.len()
        invariant
            i <= v.len(),
            special == needs_quoting(v@.take(i as int)),
        decreases v.len() - i,
    {
        let ghost before = v@.take(i as int);
        let ghost after = v@.take(i + 1);
        proof {
            if needs_quoting(before) {
                let k = choose|k: int| 0 <= k < before.len() && is_special(#[trigger] before[k]);
                assert(is_special(after[k]));
            }
            if is_special(v@[i as int]) {
                assert(is_special(after[i as int]));
            }
            if needs_quoting(after) && !is_special(v@[i as int]) {
                let k = choose|k: int| 0 <= k < after.len() && is_special(#[trigger] after[k]);
                assert(is_special(before[k]));
            }
        }
        if char_is_special(v[i]) {
            special = true;
        }
        i += 1;
    }
    assert(v@.take(v.len() as int) =~= v@);
    if !special {
        let n: usize = v.len();
        push_range(out, v, 0, n);
        assert(v@.subrange(0, n as int) =~= v@);
        return ;
    }
    out.push('\'');
    let mut j: usize = 0;
    assert(quote_body(v@.take(0)) =~= Seq::<char>::empty());
    while j < v.len()
        invariant
            j <= v.len(),
            out@ == old(out)@ + seq!['\''] + quote_body(v@.take(j as int)),
        decreases v.len() - j,
    {
        let c: char = v[j];
        proof {
            lemma_quote_body_push(v@.take(j as int), c);
            assert(v@.take(j as int).push(c) =~= v@.take(j + 1));
        }
        if c == '\'' {
            out.push('\'');
            out.push('\\');
            out.push('\'');
            out.push('\'');
        } else {
            out.push(c);
        }
        assert(out@ =~= old(out)@ + seq!['\''] + quote_body(v@.take(j + 1)));
        j += 1;
    }
    out.push('\'');
    assert(out@ =~= old(out)@ + escaped(v@));
}

/// Escapes an argument for a shell: an argument with a special character is
/// wrapped in single quotes, each single quote inside written as `'\''`.
pub fn escape_str(s: &str) -> (r: String)
    ensures
        r@ == escaped(s@),
{
    let v = chars_of(s);
    let mut out: Vec<char> = Vec::new();
    push_escaped(&mut out, &v);
    assert(out@ =~= escaped(s@));
    to_string(&out)
}

/// The characters that a POSIX shell does not take literally when they stand
/// unquoted in a word: the special ones above, the backquote and the
/// backslash.
pub open spec fn is_shell_active(c: char) -> bool {
    is_special(c) || c == '`' || c == '\\'
}

/// Puts `c` in front of what was read, if anything was.
pub open spec fn prepend(c: char, rest: Option<Seq<char>>) -> Option<Seq<char>> {
    match rest {
        Some(r) => Some(seq![c] + r),
        None => None,
    }
}

/// The text that a POSIX shell hands on for the word `w` after quote removal,
/// by the rules for single quotes and backslashes: between single quotes every
/// character is literal and a single quote ends the quotation; outside, a
/// backslash makes the next character literal. `None` where the word is not a
/// plain literal: an unquoted active character, or a quotation left open.
/// `quoted` says whether reading starts inside single quotes.
pub open spec fn shell_reads(w: Seq<char>, quoted: bool) -> Option<Seq<char>>
    decreases w.len(),
{
    if w.len() == 0 {
        if quoted {
            None
        } else {
            Some(Seq::empty())
        }
    } else {
        let c = w[0];
        let rest = w.drop_first();
        if quoted {
            if c == '\'' {
                shell_reads(rest, false)
            } else {
                prepend(c, shell_reads(rest, true))
            }
        } else if c == '\'' {
            shell_reads(rest, true)
        } else if c == '\\' {
            if rest.len() == 0 {
                None
            } else {
                prepend(rest[0], shell_reads(rest.drop_first(), false))
            }
        } else if is_shell_active(c) {
            None
        } else {
            prepend(c, shell_reads(rest, false))
        }
    }
}

/// Inside single quotes, the quoted body of `s` followed by the closing quote
/// reads back as `s`.
pub proof fn lemma_quote_body_reads_back(s: Seq<char>)
    ensures
        shell_reads(quote_body(s) + seq!['\''], true) == Some(s),
    decreases s.len(),
{
    let w = quote_body(s) + seq!['\''];
    if s.len() == 0 {
        assert(w =~= seq!['\'']);
        assert(w.drop_first() =~= Seq::<char>::empty());
        assert(shell_reads(w, true) == shell_reads(w.drop_first(), false));
        assert(s =~= Seq::<char>::empty());
    } else {
        let t = s.drop_first();
        let tail = quote_body(t) + seq!['\''];
        lemma_quote_body_reads_back(t);
        if s[0] == '\'' {
            let w1 = seq!['\\', '\'', '\''] + tail;
            let w2 = seq!['\'', '\''] + tail;
            let w3 = seq!['\''] + tail;
            assert(w =~= seq!['\''] + w1);
            assert(w.drop_first() =~= w1);
            assert(w1.drop_first() =~= w2);
            assert(w2.drop_first() =~= w3);
            assert(w3.drop_first() =~= tail);
            assert(shell_reads(w, true) == shell_reads(w1, false));
            assert(shell_reads(w1, false) == prepend('\'', shell_reads(w3, false)));
            assert(shell_reads(w3, false) == shell_reads(tail, true));
            assert(seq!['\''] + t =~= s);
        } else {
            assert(w =~= seq![s[0]] + tail);
            assert(w.drop_first() =~= tail);
            assert(shell_reads(w, true) == prepend(s[0], shell_reads(tail, true)));
            assert(seq![s[0]] + t =~= s);
        }
    }
}

/// A word without active characters reads back as itself.
pub proof fn lemma_plain_reads_back(s: Seq<char>)
    requires
        forall|i: int| 0 <= i < s.len() ==> !is_shell_active(#[trigger] s[i]),
    ensures
        shell_reads(s, false) == Some(s),
    decreases s.len(),
{
    if s.len() == 0 {
        assert(s =~= Seq::<char>::empty());
    } else {
        let t = s.drop_first();
        assert forall|i: int| 0 <= i < t.len() implies !is_shell_active(#[trigger] t[i]) by {
            assert(t[i] == s[i + 1]);
        }
        lemma_plain_reads_back(t);
        assert(!is_shell_active(s[0]));
        assert(seq![s[0]] + t =~= s);
    }
}

/// Escaping is undone by the shell: the escaped form of an argument reads back
/// as the argument. The one kind of argument left out is that which
/// `escape_str` leaves bare although it holds a backslash or a backquote,
/// neither of which makes it quote.
pub proof fn lemma_escape_reads_back(a: Seq<char>)
    requires
        needs_quoting(a) || forall|i: int| 0 <= i < a.len() ==> a[i] != '\\' && a[i] != '`',
    ensures
        shell_reads(escaped(a), false) == Some(a),
{
    if needs_quoting(a) {
        let inner = quote_body(a) + seq!['\''];
        let w = seq!['\''] + quote_body(a) + seq!['\''];
        lemma_quote_body_reads_back(a);
        assert(w.drop_first() =~= inner);
        assert(shell_reads(w, false) == shell_reads(inner, true));
    } else {
        assert forall|i: int| 0 <= i < a.len() implies !is_shell_active(#[trigger] a[i]) by {
            if is_special(a[i]) {
                assert(needs_quoting(a));
            }
        }
        lemma_plain_reads_back(a);
    }
}

} // verus!
