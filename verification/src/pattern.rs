//! Regular expressions, held by their source text and matched by the
//! `regex-lite` crate.

use crate::text::str_eq;
use regex_lite::Regex;
use vstd::prelude::*;

verus! {

/// Whether `regex_lite::Regex::new` accepts the pattern.
pub uninterp spec fn regex_valid(pattern: Seq<char>) -> bool;

/// Whether the regular expression `pattern` has a match somewhere in `text`,
/// as `regex_lite::Regex::is_match` finds it.
pub uninterp spec fn regex_matches(pattern: Seq<char>, text: Seq<char>) -> bool;

/// Compiles `pattern` with `regex_lite::Regex::new` and asks
/// `Regex::is_match` whether it matches somewhere in `text`. Nothing is
/// returned for a pattern that does not compile. Both outcomes depend on the
/// two texts alone; what they are is not proved here.
#[verifier::external_body]
fn regex_is_match(pattern: &str, text: &str) -> (r: Option<bool>)
    ensures
        r is Some <==> regex_valid(pattern@),
        r matches Some(m) ==> m == regex_matches(pattern@, text@),
{
    match Regex::new(pattern) {
        Ok(re) => Some(re.is_match(text)),
        Err(_) => None,
    }
}

/// A regular expression that is known to compile.
#[derive(Debug)]
pub struct Pattern {
    source: String,
}

impl Pattern {
    #[verifier::type_invariant]
    spec fn compiles(&self) -> bool {
        regex_valid(self.source@)
    }

    /// The text of the regular expression.
    pub closed spec fn text(&self) -> Seq<char> {
        self.source@
    }

    /// Whether the regular expression has a match somewhere in `text`.
    pub open spec fn matches(&self, text: Seq<char>) -> bool {
        regex_matches(self.text(), text)
    }

    /// The regular expression of the given text, if the text is one.
    pub fn new(source: &str) -> (r: Option<Self>)
        ensures
            r is Some <==> regex_valid(source@),
            r matches Some(p) ==> p.text() == source@,
    {
        match regex_is_match(source, "") {
            Some(_) => Some(Pattern { source: source.to_string() }),
            None => None,
        }
    }

    /// The text of the regular expression.
    pub fn as_str(&self) -> (r: &str)
        ensures
            r@ == self.text(),
    {
        self.source.as_str()
    }

    /// Whether the regular expression has a match somewhere in `text`.
    pub fn is_match(&self, text: &str) -> (r: bool)
        ensures
            r == self.matches(text@),
    {
        proof {
            use_type_invariant(self);
        }
        match regex_is_match(self.source.as_str(), text) {
            Some(m) => m,
            None => false,
        }
    }

    /// Whether the two are the same regular expression.
    pub fn same(&self, other: &Pattern) -> (r: bool)
        ensures
            r == (self.text() == other.text()),
    {
        str_eq(self.source.as_str(), other.source.as_str())
    }
}

impl Clone for Pattern {
    fn clone(&self) -> (r: Self)
        ensures
            r.text() == self.text(),
    {
        proof {
            use_type_invariant(self);
        }
        Pattern { source: self.source.clone() }
    }
}

/// Whether one of the patterns matches somewhere in `text`.
pub open spec fn any_matches(patterns: Seq<Pattern>, text: Seq<char>) -> bool {
    exists|i: int| 0 <= i < patterns.len() && (#[trigger] patterns[i]).matches(text)
}

/// Whether one of the patterns matches somewhere in `text`.
pub fn matches_any(patterns: &Vec<Pattern>, text: &str) -> (r: bool)
    ensures
        r == any_matches(patterns@, text@),
{
    let mut i: usize = 0;
    while i < patterns.len()
        invariant
            i <= patterns.len(),
            forall|j: int| 0 <= j < i ==> !(#[trigger] patterns@[j]).matches(text@),
        decreases patterns.len() - i,
    {
        if patterns[i].is_match(text) {
            return true;
        }
        i += 1;
    }
    false
}

/// Compiles each text; the position of the first text that is no regular
/// expression is the error.
pub fn compile_all(sources: &Vec<String>) -> (r: Result<Vec<Pattern>, usize>)
    ensures
        match r {
            Ok(p) => {
                &&& p@.len() == sources@.len()
                &&& forall|i: int| 0 <= i < p@.len() ==> (#[trigger] p@[i]).text() == sources@[i]@
                &&& forall|i: int| 0 <= i < sources@.len() ==> regex_valid(sources@[i]@)
            },
            Err(k) => {
                &&& k < sources@.len()
                &&& !regex_valid(sources@[k as int]@)
                &&& forall|i: int| 0 <= i < k ==> regex_valid(sources@[i]@)
            },
        },
{
    let mut out: Vec<Pattern> = Vec::new();
    let mut i: usize = 0;
    while i < sources.len()
        invariant
            i <= sources.len(),
            out@.len() == i,
            forall|j: int| 0 <= j < i ==> (#[trigger] out@[j]).text() == sources@[j]@,
            forall|j: int| 0 <= j < i ==> regex_valid(sources@[j]@),
        decreases sources.len() - i,
    {
        match Pattern::new(sources[i].as_str()) {
            Some(p) => out.push(p),
            None => {
                return Err(i);
            },
        }
        i += 1;
    }
    Ok(out)
}

} // verus!
