//! Bandwidth limits as written on the command line: a positive whole number
//! with an optional unit letter.

use crate::text::{
    all_digits, chars_of, char_is_digit, decimal, digits_value, is_ascii_digit, parse_digits,
    push_padded, to_string,
};
use vstd::prelude::*;

verus! {

/// The unit letter of a size.
#[derive(Debug, Clone, Copy, PartialEq, Eq, Structural)]
pub enum BytesSuffix {
    K,
    M,
    G,
    T,
}

impl BytesSuffix {
    /// The unit that a letter stands for, in either case.
    pub open spec fn of_char(c: char) -> Option<BytesSuffix> {
        if c == 'k' || c == 'K' {
            Some(BytesSuffix::K)
        } else if c == 'm' || c == 'M' {
            Some(BytesSuffix::M)
        } else if c == 'g' || c == 'G' {
            Some(BytesSuffix::G)
        } else if c == 't' || c == 'T' {
            Some(BytesSuffix::T)
        } else {
            None
        }
    }

    /// The letter of the unit.
    pub open spec fn letter(&self) -> char {
        match self {
            BytesSuffix::K => 'K',
            BytesSuffix::M => 'M',
            BytesSuffix::G => 'G',
            BytesSuffix::T => 'T',
        }
    }

    /// The unit that a letter stands for, or an error for any other character.
    pub fn try_from(value: char) -> (r: Result<Self, &'static str>)
        ensures
            match Self::of_char(value) {
                Some(s) => r == Ok::<Self, &'static str>(s),
                None => r matches Err(m) && m@ == "could not parse size suffix"@,
            },
    {
        if value == 'k' || value == 'K' {
            Ok(BytesSuffix::K)
        } else if value == 'm' || value == 'M' {
            Ok(BytesSuffix::M)
        } else if value == 'g' || value == 'G' {
            Ok(BytesSuffix::G)
        } else if value == 't' || value == 'T' {
            Ok(BytesSuffix::T)
        } else {
            Err("could not parse size suffix")
        }
    }
}

/// A size: a positive number and its unit, if it has one.
#[derive(Debug, Clone, Copy, PartialEq, Eq, Structural)]
pub struct Bytes {
    pub size: u64,
    pub suffix: Option<BytesSuffix>,
}

/// Number of leading decimal digits of `s`.
pub open spec fn leading_digits(s: Seq<char>) -> nat
    decreases s.len(),
{
    if s.len() == 0 || !is_ascii_digit(s[0]) {
        0
    } else {
        1 + leading_digits(s.drop_first())
    }
}

/// What a size text means. The text is a run of digits, then at most one unit
/// letter, then nothing. The errors, in the order in which they are found:
/// a character that is neither digit nor unit; characters after the unit; no
/// digits or a number beyond 64 bits; zero.
pub open spec fn size_of_text(value: Seq<char>) -> Result<Bytes, Seq<char>> {
    let k = leading_digits(value) as int;
    if k < value.len() && BytesSuffix::of_char(value[k]) is None {
        Err("unrecognized character when parsing size"@)
    } else if k + 1 < value.len() {
        Err("expected size value to end after suffix but found more characters"@)
    } else {
        let suffix = if k < value.len() {
            BytesSuffix::of_char(value[k])
        } else {
            None
        };
        match digits_value(value.take(k)) {
            None => Err("size value must be a number that fits in 64 bits"@),
            Some(n) => if n == 0 {
                Err("size limit cannot be zero"@)
            } else {
                Ok(Bytes { size: n, suffix })
            },
        }
    }
}

/// The leading digits are digits, and what follows them is none.
pub proof fn lemma_leading_digits(s: Seq<char>)
    ensures
        leading_digits(s) <= s.len(),
        all_digits(s.take(leading_digits(s) as int)),
        leading_digits(s) < s.len() ==> !is_ascii_digit(s[leading_digits(s) as int]),
    decreases s.len(),
{
    if s.len() == 0 || !is_ascii_digit(s[0]) {
    } else {
        let t = s.drop_first();
        lemma_leading_digits(t);
        let k = leading_digits(s) as int;
        assert forall|i: int| 0 <= i < k implies is_ascii_digit(#[trigger] s.take(k)[i]) by {
            if i > 0 {
                assert(s.take(k)[i] == t.take(k - 1)[i - 1]);
            }
        }
        if k < s.len() {
            assert(s[k] == t[k - 1]);
        }
    }
}

/// A position before which all are digits, and which holds no digit or is the
/// end, is the number of leading digits.
pub proof fn lemma_leading_digits_is(s: Seq<char>, k: int)
    requires
        0 <= k <= s.len(),
        forall|i: int| 0 <= i < k ==> is_ascii_digit(s[i]),
        k < s.len() ==> !is_ascii_digit(s[k]),
    ensures
        leading_digits(s) == k,
    decreases s.len(),
{
    if s.len() == 0 || !is_ascii_digit(s[0]) {
    } else {
        let t = s.drop_first();
        assert forall|i: int| 0 <= i < k - 1 implies is_ascii_digit(t[i]) by {
            assert(t[i] == s[i + 1]);
        }
        lemma_leading_digits_is(t, k - 1);
    }
}

impl Bytes {
    /// The size as text: the number, then the letter of its unit.
    pub open spec fn text(&self) -> Seq<char> {
        match self.suffix {
            Some(s) => decimal(self.size as nat).push(s.letter()),
            None => decimal(self.size as nat),
        }
    }

    /// Parses a size such as `512`, `64k` or `2G`.
    pub fn try_from_str(value: &str) -> (r: Result<Self, &'static str>)
        ensures
            match size_of_text(value@) {
                Ok(b) => r == Ok::<Self, &'static str>(b),
                Err(m) => r matches Err(e) && e@ == m,
            },
    {
        let v = chars_of(value);
        let mut k: usize = 0;
        while k < v.len() && char_is_digit(v[k])
            invariant
                k <= v.len(),
                forall|i: int| 0 <= i < k ==> is_ascii_digit(v@[i]),
            decreases v.len() - k,
        {
            k += 1;
        }
        proof {
            lemma_leading_digits_is(v@, k as int);
        }
        let mut suffix: Option<BytesSuffix> = None;
        if k < v.len() {
            match BytesSuffix::try_from(v[k]) {
                Ok(s) => {
                    suffix = Some(s);
                },
                Err(_) => {
                    return Err("unrecognized character when parsing size");
                },
            }
            if k + 1 < v.len() {
                return Err("expected size value to end after suffix but found more characters");
            }
        }
        assert(v@.subrange(0, k as int) =~= v@.take(k as int));
        match parse_digits(&v, 0, k) {
            None => Err("size value must be a number that fits in 64 bits"),
            Some(n) => {
                if n == 0 {
                    Err("size limit cannot be zero")
                } else {
                    Ok(Bytes { size: n, suffix })
                }
            },
        }
    }

    /// The size as text, as the buffer program takes it.
    pub fn to_string(&self) -> (r: String)
        ensures
            r@ == self.text(),
    {
        let mut out: Vec<char> = Vec::new();
        push_padded(&mut out, self.size, 0);
        assert(out@ =~= decimal(self.size as nat));
        match self.suffix {
            Some(BytesSuffix::K) => out.push('K'),
            Some(BytesSuffix::M) => out.push('M'),
            Some(BytesSuffix::G) => out.push('G'),
            Some(BytesSuffix::T) => out.push('T'),
            None => {},
        }
        to_string(&out)
    }
}

} // verus!
