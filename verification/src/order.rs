//! The order of a catalog: by creation time, then by name. A sorted catalog of
//! distinct names has one possible arrangement, whatever the order in which
//! its entries came.

use crate::text::chars_of;
use crate::zfs::{catalog, Snapshot, SnapshotModel};
use vstd::prelude::*;

verus! {

/// The order of texts in which the first character that differs decides, and
/// a text comes after each of its beginnings.
pub open spec fn text_before(a: Seq<char>, b: Seq<char>) -> bool
    decreases a.len(),
{
    if b.len() == 0 {
        false
    } else if a.len() == 0 {
        true
    } else if a[0] != b[0] {
        a[0] < b[0]
    } else {
        text_before(a.drop_first(), b.drop_first())
    }
}

/// Strictly before, in the order of a catalog: earlier creation time, or the
/// same and the name before.
pub open spec fn before(a: SnapshotModel, b: SnapshotModel) -> bool {
    a.creation.before(b.creation) || (a.creation == b.creation && text_before(a.name, b.name))
}

/// Not after: before, or equal in creation time and name.
pub open spec fn not_after(a: SnapshotModel, b: SnapshotModel) -> bool {
    before(a, b) || (a.creation == b.creation && a.name == b.name)
}

/// Every entry stands not after those that follow it.
pub open spec fn sorted(s: Seq<SnapshotModel>) -> bool {
    forall|i: int, j: int| 0 <= i < j < s.len() ==> not_after(#[trigger] s[i], #[trigger] s[j])
}

/// Every entry stands strictly before those that follow it.
pub open spec fn strictly_sorted(s: Seq<SnapshotModel>) -> bool {
    forall|i: int, j: int| 0 <= i < j < s.len() ==> before(#[trigger] s[i], #[trigger] s[j])
}

/// No name occurs twice.
pub open spec fn distinct_names(s: Seq<SnapshotModel>) -> bool {
    forall|i: int, j: int| 0 <= i < j < s.len() ==> (#[trigger] s[i]).name != (#[trigger] s[j]).name
}

/// No text stands before itself.
pub proof fn lemma_text_before_irreflexive(a: Seq<char>)
    ensures
        !text_before(a, a),
    decreases a.len(),
{
    if a.len() > 0 {
        lemma_text_before_irreflexive(a.drop_first());
    }
}

/// Of two texts at most one stands before the other.
pub proof fn lemma_text_before_asymmetric(a: Seq<char>, b: Seq<char>)
    requires
        text_before(a, b),
    ensures
        !text_before(b, a),
    decreases a.len(),
{
    if a.len() > 0 && b.len() > 0 && a[0] == b[0] {
        lemma_text_before_asymmetric(a.drop_first(), b.drop_first());
    }
}

/// The order of texts is transitive.
pub proof fn lemma_text_before_transitive(a: Seq<char>, b: Seq<char>, c: Seq<char>)
    requires
        text_before(a, b),
        text_before(b, c),
    ensures
        text_before(a, c),
    decreases a.len(),
{
    if a.len() > 0 && b.len() > 0 && c.len() > 0 && a[0] == b[0] && b[0] == c[0] {
        lemma_text_before_transitive(a.drop_first(), b.drop_first(), c.drop_first());
    }
}

/// Of two texts that differ, one stands before the other.
pub proof fn lemma_text_before_total(a: Seq<char>, b: Seq<char>)
    ensures
        text_before(a, b) || text_before(b, a) || a == b,
    decreases a.len(),
{
    if a.len() > 0 && b.len() > 0 && a[0] == b[0] {
        lemma_text_before_total(a.drop_first(), b.drop_first());
        if a.drop_first() == b.drop_first() {
            assert(a =~= seq![a[0]] + a.drop_first());
            assert(b =~= seq![b[0]] + b.drop_first());
        }
    } else if a.len() == 0 && b.len() == 0 {
        assert(a =~= b);
    }
}

/// The order of snapshots is transitive.
pub proof fn lemma_before_transitive(a: SnapshotModel, b: SnapshotModel, c: SnapshotModel)
    requires
        before(a, b),
        before(b, c),
    ensures
        before(a, c),
{
    if a.creation == b.creation && b.creation == c.creation {
        lemma_text_before_transitive(a.name, b.name, c.name);
    }
}

/// Of two snapshots at most one stands before the other, and then they
/// differ in creation time or in name.
pub proof fn lemma_before_asymmetric(a: SnapshotModel, b: SnapshotModel)
    requires
        before(a, b),
    ensures
        !before(b, a),
        !(a.creation == b.creation && a.name == b.name),
{
    if a.creation == b.creation {
        lemma_text_before_asymmetric(a.name, b.name);
        lemma_text_before_irreflexive(a.name);
    }
}

/// Of any two entries, one stands not after the other.
pub proof fn lemma_not_after_total(a: SnapshotModel, b: SnapshotModel)
    ensures
        not_after(a, b) || before(b, a),
{
    lemma_text_before_total(a.name, b.name);
}

/// `not_after` is transitive.
pub proof fn lemma_not_after_transitive(a: SnapshotModel, b: SnapshotModel, c: SnapshotModel)
    requires
        not_after(a, b),
        not_after(b, c),
    ensures
        not_after(a, c),
{
    if before(a, b) && before(b, c) {
        lemma_before_transitive(a, b, c);
    }
}

/// A sorted catalog of distinct names is strictly sorted.
pub proof fn lemma_sorted_distinct_is_strict(s: Seq<SnapshotModel>)
    requires
        sorted(s),
        distinct_names(s),
    ensures
        strictly_sorted(s),
{
}

/// Names stay distinct under rearrangement.
pub proof fn lemma_distinct_names_of_rearranged(a: Seq<SnapshotModel>, b: Seq<SnapshotModel>)
    requires
        distinct_names(a),
        a.to_multiset() == b.to_multiset(),
    ensures
        distinct_names(b),
    decreases b.len(),
{
    broadcast use vstd::multiset::group_multiset_axioms;
    broadcast use vstd::seq_lib::group_to_multiset_ensures;

    if b.len() > 0 {
        // take the last entry of `b` out of both
        let x = b.last();
        assert(b.to_multiset().count(x) > 0) by {
            assert(b.contains(x)) by {
                assert(b[b.len() - 1] == x);
            }
        }
        assert(a.contains(x));
        let k = choose|k: int| 0 <= k < a.len() && a[k] == x;
        let a2 = a.remove(k);
        let b2 = b.drop_last();
        assert(b2 =~= b.remove(b.len() - 1));
        assert(a2.to_multiset() =~= b2.to_multiset());
        assert(distinct_names(a2)) by {
            assert forall|i: int, j: int| 0 <= i < j < a2.len() implies (#[trigger] a2[i]).name != (
            #[trigger] a2[j]).name by {
                let i0 = if i < k {
                    i
                } else {
                    i + 1
                };
                let j0 = if j < k {
                    j
                } else {
                    j + 1
                };
                assert(a2[i] == a[i0] && a2[j] == a[j0]);
            }
        }
        lemma_distinct_names_of_rearranged(a2, b2);
        assert forall|i: int, j: int| 0 <= i < j < b.len() implies (#[trigger] b[i]).name != (
        #[trigger] b[j]).name by {
            if j < b.len() - 1 {
                assert(b[i] == b2[i] && b[j] == b2[j]);
            } else {
                // b[j] is x; b[i] is in b2, hence in a2, hence in a at another place
                assert(b2[i] == b[i]);
                assert(b2.contains(b[i]));
                assert(a2.to_multiset().count(b[i]) > 0);
                assert(a2.contains(b[i]));
                let m = choose|m: int| 0 <= m < a2.len() && a2[m] == b[i];
                let m0 = if m < k {
                    m
                } else {
                    m + 1
                };
                assert(a[m0] == b[i]);
                assert(m0 != k);
                if m0 < k {
                    assert(a[m0].name != a[k].name);
                } else {
                    assert(a[k].name != a[m0].name);
                }
            }
        }
    }
}

/// Two strictly sorted catalogs with the same entries are the same catalog.
pub proof fn lemma_strictly_sorted_unique(x: Seq<SnapshotModel>, y: Seq<SnapshotModel>)
    requires
        strictly_sorted(x),
        strictly_sorted(y),
        x.to_multiset() == y.to_multiset(),
    ensures
        x == y,
    decreases x.len(),
{
    broadcast use vstd::multiset::group_multiset_axioms;
    broadcast use vstd::seq_lib::group_to_multiset_ensures;

    assert(x.len() == x.to_multiset().len());
    assert(y.len() == y.to_multiset().len());
    if x.len() == 0 {
        assert(x =~= y);
    } else {
        assert(x.contains(x[0]));
        assert(y.contains(y[0]));
        assert(y.to_multiset().count(x[0]) > 0);
        assert(x.to_multiset().count(y[0]) > 0);
        assert(y.contains(x[0]));
        assert(x.contains(y[0]));
        let i = choose|i: int| 0 <= i < x.len() && x[i] == y[0];
        let j = choose|j: int| 0 <= j < y.len() && y[j] == x[0];
        if i > 0 && j > 0 {
            assert(before(x[0], x[i]));
            assert(before(y[0], y[j]));
            lemma_before_asymmetric(x[0], x[i]);
        }
        assert(x[0] == y[0]);
        assert(x.drop_first() =~= x.remove(0));
        assert(y.drop_first() =~= y.remove(0));
        assert(x.drop_first().to_multiset() =~= y.drop_first().to_multiset());
        assert(strictly_sorted(x.drop_first())) by {
            assert forall|a: int, b: int| 0 <= a < b < x.drop_first().len() implies before(
                #[trigger] x.drop_first()[a],
                #[trigger] x.drop_first()[b],
            ) by {
                assert(x.drop_first()[a] == x[a + 1] && x.drop_first()[b] == x[b + 1]);
            }
        }
        assert(strictly_sorted(y.drop_first())) by {
            assert forall|a: int, b: int| 0 <= a < b < y.drop_first().len() implies before(
                #[trigger] y.drop_first()[a],
                #[trigger] y.drop_first()[b],
            ) by {
                assert(y.drop_first()[a] == y[a + 1] && y.drop_first()[b] == y[b + 1]);
            }
        }
        lemma_strictly_sorted_unique(x.drop_first(), y.drop_first());
        assert(x =~= seq![x[0]] + x.drop_first());
        assert(y =~= seq![y[0]] + y.drop_first());
    }
}

/// Sorting is independent of the order in which the entries came: two sorted
/// arrangements of one catalog with distinct names are equal.
pub proof fn lemma_sorted_catalog_unique(a: Seq<SnapshotModel>, b: Seq<SnapshotModel>)
    requires
        sorted(a),
        sorted(b),
        distinct_names(a),
        a.to_multiset() == b.to_multiset(),
    ensures
        a == b,
{
    lemma_distinct_names_of_rearranged(a, b);
    lemma_sorted_distinct_is_strict(a);
    lemma_sorted_distinct_is_strict(b);
    lemma_strictly_sorted_unique(a, b);
}

/// Whether the text `a` stands before `b`.
pub fn name_before(a: &str, b: &str) -> (r: bool)
    ensures
        r == text_before(a@, b@),
{
    let x = chars_of(a);
    let y = chars_of(b);
    let mut i: usize = 0;
    assert(x@.skip(0) =~= x@ && y@.skip(0) =~= y@);
    while i < x.len() && i < y.len()
        invariant
            i <= x.len(),
            i <= y.len(),
            x@ == a@,
            y@ == b@,
            text_before(x@, y@) == text_before(x@.skip(i as int), y@.skip(i as int)),
        decreases x.len() - i,
    {
        let ghost xs = x@.skip(i as int);
        let ghost ys = y@.skip(i as int);
        proof {
            assert(xs[0] == x@[i as int] && ys[0] == y@[i as int]);
            assert(xs.drop_first() =~= x@.skip(i + 1));
            assert(ys.drop_first() =~= y@.skip(i + 1));
        }
        if x[i] != y[i] {
            return x[i] < y[i];
        }
        i += 1;
    }
    i < y.len()
}

/// Whether the snapshot `a` stands strictly before `b` in the order of a
/// catalog.
pub fn snapshot_before(a: &Snapshot<String>, b: &Snapshot<String>) -> (r: bool)
    ensures
        r == before(a@, b@),
{
    if a.creation.is_before(&b.creation) {
        true
    } else if b.creation.is_before(&a.creation) {
        false
    } else {
        name_before(a.name.as_str(), b.name.as_str())
    }
}

/// The catalog of a list without its element at `i`.
pub proof fn lemma_catalog_remove(v: Seq<Snapshot<String>>, i: int)
    requires
        0 <= i < v.len(),
    ensures
        catalog(v.remove(i)) == catalog(v).remove(i),
{
    assert(catalog(v.remove(i)) =~= catalog(v).remove(i));
}

/// The catalog of a list with one more element at `i`.
pub proof fn lemma_catalog_insert(v: Seq<Snapshot<String>>, i: int, x: Snapshot<String>)
    requires
        0 <= i <= v.len(),
    ensures
        catalog(v.insert(i, x)) == catalog(v).insert(i, x@),
{
    assert(catalog(v.insert(i, x)) =~= catalog(v).insert(i, x@));
}

/// Sorts a catalog by creation time, then by name. Entries that are equal in
/// both keep the order in which they came.
pub fn sort_snapshots(snapshots: &mut Vec<Snapshot<String>>)
    ensures
        sorted(catalog(final(snapshots)@)),
        catalog(final(snapshots)@).to_multiset() == catalog(old(snapshots)@).to_multiset(),
{
    broadcast use vstd::seq_lib::group_to_multiset_ensures;

    let n: usize = snapshots.len();
    let mut i: usize = 1;
    while i < n
        invariant
            snapshots.len() == n,
            1 <= i,
            catalog(snapshots@).to_multiset() == catalog(old(snapshots)@).to_multiset(),
            forall|a: int, b: int|
                0 <= a < b < i && b < n ==> not_after(
                    #[trigger] catalog(snapshots@)[a],
                    #[trigger] catalog(snapshots@)[b],
                ),
        decreases n - i,
    {
        let ghost start = snapshots@;
        let ghost whole = catalog(start);
        // the place for entry i: after the last entry that is not after it
        let mut j: usize = i;
        while j > 0 && snapshot_before(&snapshots[i], &snapshots[j - 1])
            invariant
                j <= i < n,
                snapshots.len() == n,
                snapshots@ == start,
                whole == catalog(start),
                forall|k: int| j <= k < i ==> before(whole[i as int], #[trigger] whole[k]),
            decreases j,
        {
            j -= 1;
        }
        proof {
            if j > 0 {
                lemma_not_after_total(whole[j - 1], whole[i as int]);
            }
            lemma_catalog_remove(start, i as int);
        }
        let x = snapshots.remove(i);
        proof {
            lemma_catalog_insert(snapshots@, j as int, x);
            assert(x@ == whole[i as int]);
        }
        snapshots.insert(j, x);
        proof {
            let now = catalog(snapshots@);
            assert(now =~= whole.remove(i as int).insert(j as int, whole[i as int]));
            assert(now.to_multiset() =~= whole.to_multiset()) by {
                broadcast use vstd::multiset::group_multiset_axioms;

                vstd::seq_lib::to_multiset_remove(whole, i as int);
                vstd::seq_lib::to_multiset_insert(whole.remove(i as int), j as int, whole[i as int]);
                whole.to_multiset_ensures();
                assert(whole.contains(whole[i as int]));
                assert(whole.to_multiset().count(whole[i as int]) > 0);
            }
            assert forall|a: int, b: int| 0 <= a < b < i + 1 && b < n implies not_after(
                #[trigger] now[a],
                #[trigger] now[b],
            ) by {
                // where the two came from
                let a0 = if a < j {
                    a
                } else if a == j {
                    i as int
                } else {
                    a - 1
                };
                let b0 = if b < j {
                    b
                } else if b == j {
                    i as int
                } else {
                    b - 1
                };
                assert(now[a] == whole[a0] && now[b] == whole[b0]);
                if a == j {
                    assert(before(whole[i as int], whole[b0]));
                } else if b == j {
                    if a < j - 1 {
                        assert(not_after(whole[a], whole[j - 1]));
                        lemma_not_after_transitive(whole[a], whole[j - 1], whole[i as int]);
                    }
                } else {
                    assert(not_after(whole[a0], whole[b0]));
                }
            }
        }
        i += 1;
    }
    proof {
        let now = catalog(snapshots@);
        assert forall|a: int, b: int| 0 <= a < b < now.len() implies not_after(
            #[trigger] now[a],
            #[trigger] now[b],
        ) by {}
    }
}

} // verus!
