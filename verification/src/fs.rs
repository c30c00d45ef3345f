//! Datasets as named on the command line: `pool/fs`, or `user@host:pool/fs`
//! for a dataset on another host.

use crate::text::{
    chars_of, find_char, find_either, first_index, first_index_of_either, has_prefix,
    lemma_first_index_of_either, lemma_first_index_of_either_is, push_range, push_str, str_eq,
    string_of, to_string,
};
use vstd::prelude::*;

verus! {

/// Whether a dataset is read from or written to.
#[derive(Debug, Clone, Copy, PartialEq, Eq, Structural)]
pub enum Role {
    Source,
    Target,
}

/// A dataset: the host it lives on (none for the local machine), its name,
/// its role, and for a clone the snapshot it was cloned from.
#[derive(Debug, Clone, PartialEq, Eq)]
pub struct Fs<'args> {
    pub host: Option<&'args str>,
    pub fs: String,
    pub role: Role,
    pub origin: Option<String>,
}

/// The text of an optional string.
pub open spec fn opt_text(o: Option<&str>) -> Option<Seq<char>> {
    match o {
        Some(s) => Some(s@),
        None => None,
    }
}

/// The text of an optional string.
pub open spec fn opt_string(o: Option<String>) -> Option<Seq<char>> {
    match o {
        Some(s) => Some(s@),
        None => None,
    }
}

/// The split of `host:rest` at the first colon, if a colon comes before any
/// slash.
pub open spec fn split_at_colon(s: Seq<char>) -> Option<(Seq<char>, Seq<char>)> {
    let k = first_index_of_either(s, '/', ':') as int;
    if k < s.len() && s[k] == ':' {
        Some((s.take(k), s.skip(k + 1)))
    } else {
        None
    }
}

/// Host and name of a dataset. A host that is given apart counts, and the
/// empty one stands for the local machine; without one, a colon before the
/// first slash parts the host from the name.
pub open spec fn dataset_of(host: Option<Seq<char>>, fs: Seq<char>) -> (Option<Seq<char>>, Seq<char>) {
    match host {
        Some(h) => (
            if h.len() == 0 {
                None
            } else {
                Some(h)
            },
            fs,
        ),
        None => match split_at_colon(fs) {
            Some((h, name)) => (Some(h), name),
            None => (None, fs),
        },
    }
}

/// Host and name written as one text again.
pub open spec fn joined(dataset: (Option<Seq<char>>, Seq<char>)) -> Seq<char> {
    match dataset.0 {
        Some(h) => h + seq![':'] + dataset.1,
        None => dataset.1,
    }
}

/// Parsing is defined for every text, and nothing is lost: host and name of a
/// text without a separate host, written with the colon between them, are the
/// text again; and with a separate host the name is the whole text.
pub proof fn lemma_dataset_round_trip(host: Option<Seq<char>>, fs: Seq<char>)
    ensures
        host is None ==> joined(dataset_of(host, fs)) == fs,
        host is Some ==> dataset_of(host, fs).1 == fs,
        host matches Some(h) ==> dataset_of(host, fs).0 == (if h.len() == 0 {
            None
        } else {
            Some(h)
        }),
        dataset_of(host, fs).0 matches Some(h) ==> (host is Some || (!h.contains('/')
            && !h.contains(':'))),
{
    if host is None {
        lemma_first_index_of_either(fs, '/', ':');
        let k = first_index_of_either(fs, '/', ':') as int;
        if k < fs.len() && fs[k] == ':' {
            assert(fs.take(k) + seq![':'] + fs.skip(k + 1) =~= fs);
            let h = fs.take(k);
            assert forall|i: int| 0 <= i < h.len() implies h[i] != '/' && h[i] != ':' by {
                assert(h[i] == fs[i]);
            }
        }
    }
}

/// Whether the written form of a dataset says where the host ends: a host
/// holds neither `/` nor `:`, and a name without a host has no colon before
/// its first slash.
pub open spec fn well_parted(dataset: (Option<Seq<char>>, Seq<char>)) -> bool {
    match dataset.0 {
        Some(h) => !h.contains('/') && !h.contains(':'),
        None => split_at_colon(dataset.1) is None,
    }
}

/// What parsing gives is well parted.
pub proof fn lemma_parsed_is_well_parted(fs: Seq<char>)
    ensures
        well_parted(dataset_of(None, fs)),
{
    lemma_dataset_round_trip(None, fs);
}

/// A well parted dataset, written and parsed, is the same dataset again.
pub proof fn lemma_written_parses_back(dataset: (Option<Seq<char>>, Seq<char>))
    requires
        well_parted(dataset),
    ensures
        dataset_of(None, joined(dataset)) == dataset,
{
    match dataset.0 {
        Some(h) => {
            let s = joined(dataset);
            let k = h.len() as int;
            assert forall|j: int| 0 <= j < k implies s[j] != '/' && s[j] != ':' by {
                assert(s[j] == h[j]);
                assert(h.contains(h[j]));
            }
            assert(s[k] == ':');
            lemma_first_index_of_either_is(s, '/', ':', k);
            assert(s.take(k) =~= h);
            assert(s.skip(k + 1) =~= dataset.1);
        },
        None => {},
    }
}

/// Parsing round-trips through the written form: for every text, the dataset
/// that it names, written and parsed again, has the same host and name; and
/// the written form of what a text names is the text itself.
pub proof fn lemma_display_parses_back(fs: Seq<char>)
    ensures
        dataset_of(None, joined(dataset_of(None, fs))) == dataset_of(None, fs),
        joined(dataset_of(None, fs)) == fs,
{
    lemma_dataset_round_trip(None, fs);
}

/// The part of an origin before the `@`, if it has one.
pub open spec fn dataset_part(origin: Option<Seq<char>>) -> Option<Seq<char>> {
    match origin {
        Some(o) => if first_index(o, '@') < o.len() {
            Some(o.take(first_index(o, '@') as int))
        } else {
            None
        },
        None => None,
    }
}

/// The origin of a child on the target: that of the child on the source with
/// the name of the source replaced by that of the target, if clones are
/// handled and the origin lies under the source.
pub open spec fn moved_origin(
    target: Seq<char>,
    source: Seq<char>,
    origin: Option<Seq<char>>,
    clone_handling: bool,
) -> Option<Seq<char>> {
    match origin {
        Some(o) => if clone_handling && source.is_prefix_of(o) && target + o.skip(source.len() as int)
            != "-"@ {
            Some(target + o.skip(source.len() as int))
        } else {
            None
        },
        None => None,
    }
}

/// Whether operations on a host run as root: the user named in
/// `user@host` is root or the check is waived; without a user in the host,
/// whether the local user is root.
pub open spec fn runs_as_root(host: Option<Seq<char>>, bypass: bool, local_is_root: bool) -> bool {
    match host {
        Some(h) => if first_index(h, '@') < h.len() {
            bypass || h.take(first_index(h, '@') as int) == "root"@
        } else {
            local_is_root
        },
        None => local_is_root,
    }
}

fn get_is_root(host: Option<&str>, bypass_root_check: bool, local_is_root: bool) -> (r: bool)
    ensures
        r == runs_as_root(opt_text(host), bypass_root_check, local_is_root),
{
    match host {
        Some(h) => {
            let v = chars_of(h);
            let k: usize = find_char(&v, 0, '@');
            assert(v@.skip(0) =~= v@);
            if k < v.len() {
                let user = string_of(&v, 0, k);
                assert(v@.subrange(0, k as int) =~= v@.take(k as int));
                bypass_root_check || str_eq(user.as_str(), "root")
            } else {
                local_is_root
            }
        },
        None => local_is_root,
    }
}

/// Whether operations on source and target run as root. `local_is_root` says
/// whether the user of this process is root.
pub fn get_is_roots(
    source: Option<&str>,
    target: Option<&str>,
    bypass_root_check: bool,
    local_is_root: bool,
) -> (r: (bool, bool))
    ensures
        r.0 == runs_as_root(opt_text(source), bypass_root_check, local_is_root),
        r.1 == runs_as_root(opt_text(target), bypass_root_check, local_is_root),
{
    (
        get_is_root(source, bypass_root_check, local_is_root),
        get_is_root(target, bypass_root_check, local_is_root),
    )
}

/// Splits `host:rest` at the first colon, if a colon comes before any slash.
pub fn split_host_at_colon<'a>(host: &'a str) -> (r: Option<(&'a str, &'a str)>)
    ensures
        match split_at_colon(host@) {
            Some((h, rest)) => r matches Some((a, b)) && a@ == h && b@ == rest,
            None => r is None,
        },
{
    let v = chars_of(host);
    let k: usize = find_either(&v, '/', ':');
    if k < v.len() && v[k] == ':' {
        let n: usize = v.len();
        let head = host.substring_char(0, k);
        let tail = host.substring_char(k + 1, n);
        assert(host@.subrange(0, k as int) =~= host@.take(k as int));
        assert(host@.subrange(k + 1, n as int) =~= host@.skip(k + 1));
        Some((head, tail))
    } else {
        None
    }
}

/// A child dataset that did not lie under the source.
#[derive(Debug, Clone, PartialEq, Eq)]
pub struct NotUnderSource {
    pub child: String,
    pub source: String,
}

impl NotUnderSource {
    /// The message of the error.
    pub fn to_string(&self) -> (r: String)
        ensures
            r@ == "child "@ + self.child@ + " did not start with source "@ + self.source@,
    {
        let mut out: Vec<char> = Vec::new();
        push_str(&mut out, "child ");
        push_str(&mut out, self.child.as_str());
        push_str(&mut out, " did not start with source ");
        push_str(&mut out, self.source.as_str());
        to_string(&out)
    }
}

impl<'args> Fs<'args> {
    /// Host and name as texts.
    pub open spec fn dataset(&self) -> (Option<Seq<char>>, Seq<char>) {
        (opt_text(self.host), self.fs@)
    }

    /// The dataset of the given name. A host given apart counts, the empty
    /// one standing for the local machine; without one the host is read from
    /// the name.
    pub fn new(host_opt: Option<&'args str>, fs: &'args str, role: Role) -> (r: Self)
        ensures
            r.dataset() == dataset_of(opt_text(host_opt), fs@),
            r.role == role,
            r.origin is None,
    {
        let (host, fs) = match host_opt {
            Some(host) => (
                if host.unicode_len() == 0 {
                    None
                } else {
                    Some(host)
                },
                fs,
            ),
            None => {
                match split_host_at_colon(fs) {
                    Some((host, fs)) => (Some(host), fs),
                    None => (None, fs),
                }
            },
        };
        Self { host, fs: fs.to_string(), role, origin: None }
    }

    /// A dataset on the same host and in the same role. The origin `-` stands
    /// for none.
    pub fn new_child(&self, name: String, origin: String) -> (r: Self)
        ensures
            r.host == self.host,
            r.fs == name,
            r.role == self.role,
            opt_string(r.origin) == (if origin@ == "-"@ {
                None
            } else {
                Some(origin@)
            }),
    {
        let none = str_eq(origin.as_str(), "-");
        Self {
            host: self.host,
            fs: name,
            role: self.role,
            origin: if none {
                None
            } else {
                Some(origin)
            },
        }
    }

    /// The target for a child of the source: the name of the child with the
    /// name of the source replaced by that of this target, and the origin
    /// moved likewise when clones are handled. An error for a child that does
    /// not lie under the source.
    pub fn child_from_source(&self, source: &Self, child: &Self, clone_handling: bool) -> (r: Result<
        Self,
        NotUnderSource,
    >)
        ensures
            source.fs@.is_prefix_of(child.fs@) ==> {
                &&& r matches Ok(t)
                &&& t.host == self.host
                &&& t.role == self.role
                &&& t.fs@ == self.fs@ + child.fs@.skip(source.fs@.len() as int)
                &&& opt_string(t.origin) == moved_origin(
                    self.fs@,
                    source.fs@,
                    opt_string(child.origin),
                    clone_handling,
                )
            },
            !source.fs@.is_prefix_of(child.fs@) ==> {
                &&& r matches Err(e)
                &&& e.child@ == joined(child.dataset())
                &&& e.source@ == joined(source.dataset())
            },
    {
        let from = chars_of(source.fs.as_str());
        let name = chars_of(child.fs.as_str());
        if !has_prefix(&name, &from) {
            return Err(NotUnderSource { child: child.to_string(), source: source.to_string() });
        }
        let mut target_dataset = chars_of(self.fs.as_str());
        let n: usize = name.len();
        push_range(&mut target_dataset, &name, from.len(), n);
        assert(name@.subrange(from@.len() as int, n as int) =~= child.fs@.skip(
            source.fs@.len() as int,
        ));
        let mut target_origin: Option<String> = None;
        if clone_handling {
            match &child.origin {
                Some(child_origin) => {
                    let o = chars_of(child_origin.as_str());
                    if has_prefix(&o, &from) {
                        let mut moved = chars_of(self.fs.as_str());
                        let m: usize = o.len();
                        push_range(&mut moved, &o, from.len(), m);
                        assert(o@.subrange(from@.len() as int, m as int) =~= child_origin@.skip(
                            source.fs@.len() as int,
                        ));
                        target_origin = Some(to_string(&moved));
                    }
                },
                None => {},
            }
        }
        let origin = match target_origin {
            Some(o) => o,
            None => "-".to_string(),
        };
        Ok(self.new_child(to_string(&target_dataset), origin))
    }

    /// The dataset that this one was cloned from: its origin without the
    /// snapshot.
    pub fn origin_dataset(&self) -> (r: Option<String>)
        ensures
            opt_string(r) == dataset_part(opt_string(self.origin)),
    {
        match &self.origin {
            Some(o) => {
                let v = chars_of(o.as_str());
                let k: usize = find_char(&v, 0, '@');
                assert(v@.skip(0) =~= v@);
                if k < v.len() {
                    assert(v@.subrange(0, k as int) =~= v@.take(k as int));
                    Some(string_of(&v, 0, k))
                } else {
                    None
                }
            },
            None => None,
        }
    }

    /// The written form, which parses back: the name, with the host and a
    /// colon in front if there is a host.
    pub fn to_string(&self) -> (r: String)
        ensures
            r@ == joined(self.dataset()),
    {
        let mut out: Vec<char> = Vec::new();
        match self.host {
            Some(host) => {
                push_str(&mut out, host);
                out.push(':');
            },
            None => {},
        }
        push_str(&mut out, self.fs.as_str());
        assert(out@ =~= joined(self.dataset()));
        to_string(&out)
    }
}

} // verus!
