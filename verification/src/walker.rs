//! The datasets of a recursive run: the children that `zfs list` names, the
//! check that no target is being received into, and the order in which the
//! children are synced.

use crate::fs::{dataset_part, opt_string, Fs};
use crate::pattern::{any_matches, matches_any, regex_valid, Pattern};
use crate::text::{chars_of, find_char, first_index, has_suffix, push_str, str_eq, string_of, to_string};
use vstd::prelude::*;

verus! {

/// A line of `zfs list` without a tab between name and origin.
#[derive(Debug, Clone, PartialEq, Eq)]
pub struct NoTab {
    pub line: String,
}

impl NoTab {
    /// The message of the error.
    pub fn to_string(&self) -> (r: String)
        ensures
            r@ == "expected tab separated name and origin, got "@ + self.line@,
    {
        let mut out: Vec<char> = Vec::new();
        push_str(&mut out, "expected tab separated name and origin, got ");
        push_str(&mut out, self.line.as_str());
        to_string(&out)
    }
}

/// Name and origin of one child, the origin `-` read as none.
pub struct Child {
    pub name: Seq<char>,
    pub origin: Option<Seq<char>>,
}

/// The child that a line names: the name before the first tab, the origin
/// after it.
pub open spec fn child_of(line: Seq<char>) -> Child {
    let k = first_index(line, '\t') as int;
    Child {
        name: line.take(k),
        origin: if line.skip(k + 1) == "-"@ {
            None
        } else {
            Some(line.skip(k + 1))
        },
    }
}

/// The children that the lines name, or the first line without a tab. The
/// first line names the parent, which is left out when it is to be skipped; a
/// dataset whose name one of the patterns matches is left out.
pub open spec fn children_of(
    lines: Seq<Seq<char>>,
    first: bool,
    skip_parent: bool,
    exclude: Seq<Pattern>,
) -> Result<Seq<Child>, Seq<char>>
    decreases lines.len(),
{
    if lines.len() == 0 {
        Ok(Seq::empty())
    } else if first_index(lines[0], '\t') >= lines[0].len() {
        Err(lines[0])
    } else {
        let child = child_of(lines[0]);
        match children_of(lines.drop_first(), false, skip_parent, exclude) {
            Err(e) => Err(e),
            Ok(rest) => if (first && skip_parent) || any_matches(exclude, child.name) {
                Ok(rest)
            } else {
                Ok(seq![child] + rest)
            },
        }
    }
}

/// Name and origin of each dataset.
pub open spec fn children(list: Seq<Fs>) -> Seq<Child> {
    Seq::new(list.len(), |i: int| Child { name: list[i].fs@, origin: opt_string(list[i].origin) })
}

/// The children of `fs` that the lines of
/// `zfs list -o name,origin -t filesystem,volume -Hr <fs>` name. Each is on
/// the host of `fs` and in its role.
pub fn get_child_datasets<'a>(
    fs: &Fs<'a>,
    lines: &Vec<String>,
    skip_parent: bool,
    exclude_datasets: &Vec<Pattern>,
) -> (r: Result<Vec<Fs<'a>>, NoTab>)
    ensures
        match children_of(lines.deep_view(), true, skip_parent, exclude_datasets@) {
            Ok(c) => r matches Ok(v) && children(v@) == c && forall|i: int|
                0 <= i < v@.len() ==> (#[trigger] v@[i]).host == fs.host && v@[i].role == fs.role,
            Err(line) => r matches Err(e) && e.line@ == line,
        },
{
    let ghost input = lines.deep_view();
    let mut out: Vec<Fs<'a>> = Vec::new();
    let mut i: usize = 0;
    // The lines are read in order; what is proved is read from the end.
    while i < lines.len()
        invariant
            i <= lines.len(),
            input == lines.deep_view(),
            forall|j: int| 0 <= j < i ==> first_index(input[j], '\t') < input[j].len(),
        decreases lines.len() - i,
    {
        let v = chars_of(lines[i].as_str());
        assert(v@.skip(0) =~= v@);
        let k: usize = find_char(&v, 0, '\t');
        if k >= v.len() {
            proof {
                lemma_first_bad_line(input, true, skip_parent, exclude_datasets@, i as int);
            }
            return Err(NoTab { line: lines[i].clone() });
        }
        i += 1;
    }
    let mut i: usize = lines.len();
    assert(input.skip(i as int) =~= Seq::<Seq<char>>::empty());
    let mut rev: Vec<Fs<'a>> = Vec::new();
    assert(children(rev@).reverse() =~= Seq::<Child>::empty());
    while i > 0
        invariant
            i <= lines.len(),
            input == lines.deep_view(),
            forall|j: int| 0 <= j < lines.len() ==> first_index(input[j], '\t') < input[j].len(),
            children_of(input.skip(i as int), i == 0, skip_parent, exclude_datasets@) == Ok::<
                Seq<Child>,
                Seq<char>,
            >(children(rev@).reverse()),
            forall|j: int|
                0 <= j < rev@.len() ==> (#[trigger] rev@[j]).host == fs.host && rev@[j].role == fs.role,
        decreases i,
    {
        i -= 1;
        let ghost here = input.skip(i as int);
        let ghost before = children(rev@);
        proof {
            assert(here[0] == input[i as int]);
            assert(here.drop_first() =~= input.skip(i + 1));
            assert(i + 1 != 0);
        }
        let v = chars_of(lines[i].as_str());
        assert(v@.skip(0) =~= v@);
        let k: usize = find_char(&v, 0, '\t');
        let n: usize = v.len();
        let name = string_of(&v, 0, k);
        let origin = string_of(&v, k + 1, n);
        proof {
            assert(v@.subrange(0, k as int) =~= input[i as int].take(k as int));
            assert(v@.subrange(k + 1, n as int) =~= input[i as int].skip(k + 1));
        }
        let skipped = (i == 0 && skip_parent) || matches_any(exclude_datasets, name.as_str());
        if !skipped {
            let child = fs.new_child(name, origin);
            rev.push(child);
            proof {
                assert(children(rev@) =~= before.push(child_of(here[0])));
                assert(children(rev@).reverse() =~= seq![child_of(here[0])] + before.reverse());
            }
        }
    }
    assert(input.skip(0) =~= input);
    let ghost want = children(rev@).reverse();
    while rev.len() > 0
        invariant
            rev@.len() <= want.len(),
            children(rev@) == want.reverse().take(rev@.len() as int),
            children(out@) == want.take(want.len() - rev@.len()),
            forall|j: int|
                0 <= j < rev@.len() ==> (#[trigger] rev@[j]).host == fs.host && rev@[j].role == fs.role,
            forall|j: int|
                0 <= j < out@.len() ==> (#[trigger] out@[j]).host == fs.host && out@[j].role == fs.role,
        decreases rev.len(),
    {
        let ghost left = rev@.len();
        let ghost back = children(rev@);
        let ghost done = children(out@);
        match rev.pop() {
            Some(c) => {
                proof {
                    assert(back[left - 1] == children(seq![c])[0]);
                    assert(want.reverse()[left - 1] == want[want.len() - left]);
                    assert(children(rev@) =~= want.reverse().take(left - 1));
                }
                out.push(c);
                assert(children(out@) =~= done.push(back[left - 1]));
                assert(children(out@) =~= want.take(want.len() - left + 1));
            },
            None => {},
        }
    }
    assert(want.take(want.len() as int) =~= want);
    Ok(out)
}

proof fn lemma_first_bad_line(
    lines: Seq<Seq<char>>,
    first: bool,
    skip_parent: bool,
    exclude: Seq<Pattern>,
    k: int,
)
    requires
        0 <= k < lines.len(),
        first_index(lines[k], '\t') >= lines[k].len(),
        forall|j: int| 0 <= j < k ==> first_index(lines[j], '\t') < lines[j].len(),
    ensures
        children_of(lines, first, skip_parent, exclude) == Err::<Seq<Child>, Seq<char>>(lines[k]),
    decreases lines.len(),
{
    if k > 0 {
        let rest = lines.drop_first();
        assert(rest[k - 1] == lines[k]);
        assert forall|j: int| 0 <= j < k - 1 implies first_index(rest[j], '\t') < rest[j].len() by {
            assert(rest[j] == lines[j + 1]);
        }
        lemma_first_bad_line(rest, false, skip_parent, exclude, k - 1);
    }
}

/// The text of the pattern that tells a receiving `zfs` in a process list,
/// when matched against what stands before the name of the dataset.
pub open spec fn recv_pattern_text() -> Seq<char> {
    "zfs *(receive|recv).*\\s$"@
}

/// The pattern that tells a receiving `zfs`.
pub fn zfs_recv_pattern() -> (r: Option<Pattern>)
    ensures
        r is Some <==> regex_valid(recv_pattern_text()),
        r matches Some(p) ==> p.text() == recv_pattern_text(),
{
    Pattern::new("zfs *(receive|recv).*\\s$")
}

/// Whether a line of the process list shows a `zfs receive` into the dataset:
/// the line ends with the name of the dataset, and what stands before the name
/// matches the pattern.
pub open spec fn receiving(pattern: &Pattern, line: Seq<char>, fs: Seq<char>) -> bool {
    fs.is_suffix_of(line) && pattern.matches(line.take(line.len() - fs.len()))
}

/// Whether a line of the process list shows a receive into the dataset.
pub fn line_is_receive(pattern: &Pattern, line: &str, fs: &str) -> (r: bool)
    ensures
        r == receiving(pattern, line@, fs@),
{
    let l = chars_of(line);
    let f = chars_of(fs);
    if !has_suffix(&l, &f) {
        return false;
    }
    let prefix = string_of(&l, 0, l.len() - f.len());
    assert(l@.subrange(0, l@.len() - f@.len()) =~= line@.take(line@.len() - fs@.len()));
    pattern.is_match(prefix.as_str())
}

/// Whether some line shows a receive into the dataset.
pub open spec fn busy(pattern: &Pattern, lines: Seq<String>, fs: Seq<char>) -> bool {
    exists|i: int| 0 <= i < lines.len() && receiving(pattern, (#[trigger] lines[i])@, fs)
}

/// Whether the process list shows a receive into the dataset.
pub fn is_zfs_busy(pattern: &Pattern, lines: &Vec<String>, fs: &Fs) -> (r: bool)
    ensures
        r == busy(pattern, lines@, fs.fs@),
{
    let mut i: usize = 0;
    while i < lines.len()
        invariant
            i <= lines.len(),
            forall|j: int| 0 <= j < i ==> !receiving(pattern, (#[trigger] lines@[j])@, fs.fs@),
        decreases lines.len() - i,
    {
        if line_is_receive(pattern, lines[i].as_str(), fs.fs.as_str()) {
            return true;
        }
        i += 1;
    }
    false
}

/// Whether the process list shows a receive into one of the datasets.
pub fn is_zfs_busy_for(pattern: &Pattern, lines: &Vec<String>, fss: &Vec<Fs>) -> (r: bool)
    ensures
        r == exists|k: int| 0 <= k < fss@.len() && busy(pattern, lines@, (#[trigger] fss@[k]).fs@),
{
    let mut k: usize = 0;
    while k < fss.len()
        invariant
            k <= fss.len(),
            forall|j: int| 0 <= j < k ==> !busy(pattern, lines@, (#[trigger] fss@[j]).fs@),
        decreases fss.len() - k,
    {
        if is_zfs_busy(pattern, lines, &fss[k]) {
            return true;
        }
        k += 1;
    }
    false
}

/// Why a recursive run does not start.
#[derive(Debug, Clone, Copy, PartialEq, Eq, Structural)]
pub enum Refusal {
    /// The source has no dataset to sync.
    NoDatasets,
    /// One of the targets is being received into.
    Busy,
    /// The parent is skipped, and does not exist on the target.
    ParentMissing,
}

impl Refusal {
    /// The message of the refusal.
    pub open spec fn message(&self) -> Seq<char> {
        match self {
            Refusal::NoDatasets => "no source datasets found"@,
            Refusal::Busy => "one of the child datasets are in recv"@,
            Refusal::ParentMissing => "--skip-parent is set, but the target parent dataset does not exist"@,
        }
    }

    /// The message of the refusal.
    pub fn to_str(&self) -> (r: &'static str)
        ensures
            r@ == self.message(),
    {
        match self {
            Refusal::NoDatasets => "no source datasets found",
            Refusal::Busy => "one of the child datasets are in recv",
            Refusal::ParentMissing => "--skip-parent is set, but the target parent dataset does not exist",
        }
    }
}

/// The checks before the first send of a recursive run, in their order: there
/// must be a dataset to sync; no target may be received into, unless that
/// check is switched off; and where the parent is skipped, it must exist on
/// the target. `busy` and `parent_exists` count only where their check is
/// made.
pub fn preflight(
    datasets: usize,
    recv_check_start: bool,
    busy: bool,
    skip_parent: bool,
    parent_exists: bool,
) -> (r: Option<Refusal>)
    ensures
        r == (if datasets == 0 {
            Some(Refusal::NoDatasets)
        } else if recv_check_start && busy {
            Some(Refusal::Busy)
        } else if skip_parent && !parent_exists {
            Some(Refusal::ParentMissing)
        } else {
            None
        }),
{
    if datasets == 0 {
        Some(Refusal::NoDatasets)
    } else if recv_check_start && busy {
        Some(Refusal::Busy)
    } else if skip_parent && !parent_exists {
        Some(Refusal::ParentMissing)
    } else {
        None
    }
}

/// Whether the target `i` waits for the second pass: clones are handled, it
/// is a clone, and the dataset it was cloned from is among the targets.
pub open spec fn deferred(targets: Seq<Fs>, i: int, clone_handling: bool) -> bool {
    clone_handling && targets[i].origin is Some && exists|k: int|
        0 <= k < targets.len() && Some((#[trigger] targets[k]).fs@) == dataset_part(
            opt_string(targets[i].origin),
        )
}

/// The positions below `n` that wait (or do not wait) for the second pass, in
/// order.
pub open spec fn pass(targets: Seq<Fs>, clone_handling: bool, second: bool, n: int) -> Seq<usize>
    decreases n,
{
    if n <= 0 {
        Seq::empty()
    } else if deferred(targets, n - 1, clone_handling) == second {
        pass(targets, clone_handling, second, n - 1).push((n - 1) as usize)
    } else {
        pass(targets, clone_handling, second, n - 1)
    }
}

fn has_dataset(targets: &Vec<Fs>, name: &str) -> (r: bool)
    ensures
        r == exists|k: int| 0 <= k < targets@.len() && (#[trigger] targets@[k]).fs@ == name@,
{
    let mut k: usize = 0;
    while k < targets.len()
        invariant
            k <= targets.len(),
            forall|j: int| 0 <= j < k ==> (#[trigger] targets@[j]).fs@ != name@,
        decreases targets.len() - k,
    {
        if str_eq(targets[k].fs.as_str(), name) {
            return true;
        }
        k += 1;
    }
    false
}

/// The order in which the children are synced: first those that do not wait,
/// then the clones of other children, each group in the order of the listing.
pub fn sync_order(targets: &Vec<Fs>, clone_handling: bool) -> (r: Vec<usize>)
    ensures
        r@ == pass(targets@, clone_handling, false, targets@.len() as int) + pass(
            targets@,
            clone_handling,
            true,
            targets@.len() as int,
        ),
{
    let mut first: Vec<usize> = Vec::new();
    let mut second: Vec<usize> = Vec::new();
    let mut i: usize = 0;
    while i < targets.len()
        invariant
            i <= targets.len(),
            first@ == pass(targets@, clone_handling, false, i as int),
            second@ == pass(targets@, clone_handling, true, i as int),
        decreases targets.len() - i,
    {
        let mut waits = false;
        if clone_handling && targets[i].origin.is_some() {
            match targets[i].origin_dataset() {
                Some(base) => {
                    waits = has_dataset(targets, base.as_str());
                    proof {
                        if waits {
                            let k = choose|k: int|
                                0 <= k < targets@.len() && (#[trigger] targets@[k]).fs@ == base@;
                            assert(Some(targets@[k].fs@) == dataset_part(
                                opt_string(targets@[i as int].origin),
                            ));
                        }
                    }
                },
                None => {},
            }
        }
        assert(waits == deferred(targets@, i as int, clone_handling));
        if waits {
            second.push(i);
        } else {
            first.push(i);
        }
        i += 1;
    }
    let mut order = first;
    let mut j: usize = 0;
    let ghost head = order@;
    while j < second.len()
        invariant
            j <= second.len(),
            order@ == head + second@.take(j as int),
        decreases second.len() - j,
    {
        order.push(second[j]);
        assert(order@ =~= head + second@.take(j + 1));
        j += 1;
    }
    assert(second@.take(second.len() as int) =~= second@);
    order
}

/// The order names every child exactly once.
pub proof fn lemma_pass_sizes(targets: Seq<Fs>, clone_handling: bool, n: int)
    requires
        0 <= n <= targets.len(),
    ensures
        pass(targets, clone_handling, false, n).len() + pass(targets, clone_handling, true, n).len() == n,
        forall|i: int|
            0 <= i < n ==> pass(targets, clone_handling, deferred(targets, i, clone_handling), n).contains(
                i as usize,
            ),
    decreases n,
{
    if n > 0 {
        lemma_pass_sizes(targets, clone_handling, n - 1);
        assert forall|i: int| 0 <= i < n implies pass(
            targets,
            clone_handling,
            deferred(targets, i, clone_handling),
            n,
        ).contains(i as usize) by {
            let d = deferred(targets, i, clone_handling);
            let p = pass(targets, clone_handling, d, n);
            if i == n - 1 {
                assert(p[p.len() - 1] == i as usize);
            } else {
                let q = pass(targets, clone_handling, d, n - 1);
                assert(q.contains(i as usize));
                let m = choose|m: int| 0 <= m < q.len() && q[m] == i as usize;
                if deferred(targets, n - 1, clone_handling) == d {
                    assert(p[m] == q[m]);
                }
            }
        }
    }
}

} // verus!
