//! Finding what source and target have in common: the newest snapshot of the
//! source that the target holds too, or else a bookmark of the source for a
//! snapshot of the target. What comes after it on the source is still to be
//! sent.

use crate::order::{before, sorted, strictly_sorted};
use crate::text::str_eq;
use crate::zfs::{catalog, info_map, Creation, IntermediateSource, Snapshot, SnapshotInfo, SnapshotModel};
use vstd::hash_map::StringHashMap;
use vstd::prelude::*;
use vstd::slice::slice_subrange;

verus! {

/// Whether the target holds a snapshot of that name with the same GUID.
pub open spec fn shared(s: SnapshotModel, target: Map<Seq<char>, (Seq<char>, Creation)>) -> bool {
    target.contains_key(s.name) && target[s.name].0 == s.guid
}

/// Position of the last snapshot of `source` that the target shares, or -1.
pub open spec fn newest_shared(
    source: Seq<SnapshotModel>,
    target: Map<Seq<char>, (Seq<char>, Creation)>,
) -> int
    decreases source.len(),
{
    if source.len() == 0 {
        -1
    } else if shared(source.last(), target) {
        source.len() - 1
    } else {
        newest_shared(source.drop_last(), target)
    }
}

/// Position of the last entry of `list` with that GUID, or -1.
pub open spec fn last_with_guid(list: Seq<SnapshotModel>, guid: Seq<char>) -> int
    decreases list.len(),
{
    if list.len() == 0 {
        -1
    } else if list.last().guid == guid {
        list.len() - 1
    } else {
        last_with_guid(list.drop_last(), guid)
    }
}

/// Position of the last snapshot of `targets` whose GUID one of the bookmarks
/// carries, or -1.
pub open spec fn newest_bookmarked(targets: Seq<SnapshotModel>, bookmarks: Seq<SnapshotModel>) -> int
    decreases targets.len(),
{
    if targets.len() == 0 {
        -1
    } else if last_with_guid(bookmarks, targets.last().guid) >= 0 {
        targets.len() - 1
    } else {
        newest_bookmarked(targets.drop_last(), bookmarks)
    }
}

/// Position of the first snapshot of `source` made after the given second, or
/// the length of `source`.
pub open spec fn first_later(source: Seq<SnapshotModel>, second: u64) -> nat
    decreases source.len(),
{
    if source.len() == 0 || source[0].creation.creation > second {
        0
    } else {
        1 + first_later(source.drop_first(), second)
    }
}

/// The newest shared snapshot is shared, and no later one is.
pub proof fn lemma_newest_shared(source: Seq<SnapshotModel>, target: Map<Seq<char>, (Seq<char>, Creation)>)
    ensures
        -1 <= newest_shared(source, target) < source.len(),
        newest_shared(source, target) >= 0 ==> shared(source[newest_shared(source, target)], target),
        forall|j: int|
            newest_shared(source, target) < j < source.len() ==> !shared(#[trigger] source[j], target),
    decreases source.len(),
{
    if source.len() > 0 && !shared(source.last(), target) {
        let d = source.drop_last();
        lemma_newest_shared(d, target);
        assert forall|j: int| newest_shared(source, target) < j < source.len() implies !shared(
            #[trigger] source[j],
            target,
        ) by {
            if j < source.len() - 1 {
                assert(d[j] == source[j]);
            }
        }
        if newest_shared(d, target) >= 0 {
            assert(d[newest_shared(d, target)] == source[newest_shared(d, target)]);
        }
    }
}

/// The last snapshot with the GUID has it, and no later one has.
pub proof fn lemma_last_with_guid(list: Seq<SnapshotModel>, guid: Seq<char>)
    ensures
        -1 <= last_with_guid(list, guid) < list.len(),
        last_with_guid(list, guid) >= 0 ==> list[last_with_guid(list, guid)].guid == guid,
        forall|j: int| last_with_guid(list, guid) < j < list.len() ==> (#[trigger] list[j]).guid != guid,
    decreases list.len(),
{
    if list.len() > 0 && list.last().guid != guid {
        let d = list.drop_last();
        lemma_last_with_guid(d, guid);
        assert forall|j: int| last_with_guid(list, guid) < j < list.len() implies (
        #[trigger] list[j]).guid != guid by {
            if j < list.len() - 1 {
                assert(d[j] == list[j]);
            }
        }
        if last_with_guid(d, guid) >= 0 {
            assert(d[last_with_guid(d, guid)] == list[last_with_guid(d, guid)]);
        }
    }
}

/// The first later snapshot is later than the second, and none before it
/// is.
pub proof fn lemma_first_later(source: Seq<SnapshotModel>, second: u64)
    ensures
        first_later(source, second) <= source.len(),
        first_later(source, second) < source.len() ==> source[first_later(
            source,
            second,
        ) as int].creation.creation > second,
        forall|j: int|
            0 <= j < first_later(source, second) ==> (#[trigger] source[j]).creation.creation
                <= second,
    decreases source.len(),
{
    if source.len() == 0 || source[0].creation.creation > second {
    } else {
        let t = source.drop_first();
        lemma_first_later(t, second);
        assert forall|j: int| 0 <= j < first_later(source, second) implies (
        #[trigger] source[j]).creation.creation <= second by {
            if j > 0 {
                assert(source[j] == t[j - 1]);
            }
        }
        if first_later(t, second) < t.len() {
            assert(source[first_later(source, second) as int] == t[first_later(t, second) as int]);
        }
    }
}

/// A position with nothing later before it, which holds a later snapshot or
/// is the end, is that of the first later one.
pub proof fn lemma_first_later_is(source: Seq<SnapshotModel>, second: u64, k: int)
    requires
        0 <= k <= source.len(),
        forall|j: int| 0 <= j < k ==> source[j].creation.creation <= second,
        k < source.len() ==> source[k].creation.creation > second,
    ensures
        first_later(source, second) == k,
{
    lemma_first_later(source, second);
}

/// What follows the shared snapshot in a catalog of distinct entries was made
/// strictly after it.
pub proof fn lemma_tail_is_newer(
    source: Seq<SnapshotModel>,
    target: Map<Seq<char>, (Seq<char>, Creation)>,
)
    requires
        strictly_sorted(source),
        newest_shared(source, target) >= 0,
    ensures
        forall|j: int|
            newest_shared(source, target) < j < source.len() ==> before(
                source[newest_shared(source, target)],
                #[trigger] source[j],
            ),
{
    lemma_newest_shared(source, target);
}

/// In a sorted catalog, what follows the first snapshot made after a second
/// was made after that second too, and nothing before it was.
pub proof fn lemma_bookmark_tail_is_newer(source: Seq<SnapshotModel>, second: u64)
    requires
        sorted(source),
    ensures
        forall|j: int|
            first_later(source, second) <= j < source.len() ==> (
            #[trigger] source[j]).creation.creation > second,
        forall|j: int|
            0 <= j < first_later(source, second) ==> (#[trigger] source[j]).creation.creation
                <= second,
{
    lemma_first_later(source, second);
    let k = first_later(source, second) as int;
    assert forall|j: int| k <= j < source.len() implies (#[trigger] source[j]).creation.creation
        > second by {
        if j > k {
            assert(crate::order::not_after(source[k], source[j]));
        }
    }
}

/// A target that holds the newest snapshot of the source is matched at that
/// snapshot, and nothing is left to send.
pub proof fn lemma_newest_on_target_leaves_nothing(
    source: Seq<SnapshotModel>,
    target: Map<Seq<char>, (Seq<char>, Creation)>,
)
    requires
        source.len() > 0,
        shared(source.last(), target),
    ensures
        newest_shared(source, target) == source.len() - 1,
        source.subrange(newest_shared(source, target) + 1, source.len() as int).len() == 0,
{
}

/// The oldest snapshot of a sorted catalog.
pub fn oldest_sync_snap<'a>(source_snaps: &'a Vec<Snapshot<String>>) -> (r: Option<Snapshot<&'a str>>)
    ensures
        source_snaps@.len() == 0 ==> r is None,
        source_snaps@.len() > 0 ==> r is Some && r->0@ == source_snaps@[0]@,
{
    if source_snaps.len() > 0 {
        Some(source_snaps[0].as_ref())
    } else {
        None
    }
}

/// The name of the newest snapshot of a sorted catalog.
pub fn newest_sync_snap<'a>(source_snaps: &'a Vec<Snapshot<String>>) -> (r: Option<&'a String>)
    ensures
        source_snaps@.len() == 0 ==> r is None,
        source_snaps@.len() > 0 ==> r is Some && r->0@ == source_snaps@.last().name@,
{
    let len: usize = source_snaps.len();
    if len > 0 {
        Some(&source_snaps[len - 1].name)
    } else {
        None
    }
}

/// The newest snapshot of the source that the target holds under the same
/// name with the same GUID, and the snapshots of the source after it.
pub fn get_matching_snapshot<'a>(
    sorted_source_snaps: &'a Vec<Snapshot<String>>,
    target_snaps: &StringHashMap<SnapshotInfo<String>>,
) -> (r: Option<(IntermediateSource<'a>, &'a [Snapshot<String>])>)
    ensures
        ({
            let source = catalog(sorted_source_snaps@);
            let k = newest_shared(source, info_map(target_snaps@));
            if k < 0 {
                r is None
            } else {
                &&& r matches Some((m, tail))
                &&& m is Snapshot
                &&& m.inner() == source[k]
                &&& tail@ == sorted_source_snaps@.subrange(k + 1, source.len() as int)
            }
        }),
{
    let ghost source = catalog(sorted_source_snaps@);
    let ghost target = info_map(target_snaps@);
    let n: usize = sorted_source_snaps.len();
    let mut idx: usize = n;
    assert(source.take(n as int) =~= source);
    while idx > 0
        invariant
            idx <= n,
            n == sorted_source_snaps@.len(),
            source == catalog(sorted_source_snaps@),
            target == info_map(target_snaps@),
            newest_shared(source, target) == newest_shared(source.take(idx as int), target),
        decreases idx,
    {
        let source_snap = &sorted_source_snaps[idx - 1];
        let ghost upto = source.take(idx as int);
        proof {
            assert(upto.last() == source_snap@);
            assert(upto.drop_last() =~= source.take(idx - 1));
        }
        let hit = match target_snaps.get(source_snap.name.as_str()) {
            Some(target_snap) => str_eq(source_snap.guid.as_str(), target_snap.guid.as_str()),
            None => false,
        };
        if hit {
            let rest = slice_subrange(sorted_source_snaps.as_slice(), idx, n);
            return Some((IntermediateSource::Snapshot(source_snap.as_ref()), rest));
        }
        idx -= 1;
    }
    assert(source.take(0) =~= Seq::<SnapshotModel>::empty());
    None
}

/// Position of the last entry of `list` with that GUID.
fn find_last_with_guid(list: &Vec<Snapshot<String>>, guid: &str) -> (r: Option<usize>)
    ensures
        match r {
            Some(i) => i == last_with_guid(catalog(list@), guid@),
            None => last_with_guid(catalog(list@), guid@) < 0,
        },
{
    let ghost all = catalog(list@);
    let mut i: usize = list.len();
    assert(all.take(i as int) =~= all);
    while i > 0
        invariant
            i <= list.len(),
            all == catalog(list@),
            last_with_guid(all, guid@) == last_with_guid(all.take(i as int), guid@),
        decreases i,
    {
        proof {
            assert(all.take(i as int).last() == list@[i - 1]@);
            assert(all.take(i as int).drop_last() =~= all.take(i - 1));
        }
        if str_eq(list[i - 1].guid.as_str(), guid) {
            return Some(i - 1);
        }
        i -= 1;
    }
    assert(all.take(0) =~= Seq::<SnapshotModel>::empty());
    None
}

/// The bookmark of the source for the newest snapshot of the target that has
/// one, and the snapshots of the source made after the second of the
/// bookmark.
pub fn get_matching_bookmark<'b, 'c>(
    sorted_target_snaps: &Vec<Snapshot<String>>,
    sorted_source_bookmarks: &'b Vec<Snapshot<String>>,
    sorted_source_snaps: &'c Vec<Snapshot<String>>,
) -> (r: Option<(IntermediateSource<'b>, &'c [Snapshot<String>])>)
    ensures
        ({
            let targets = catalog(sorted_target_snaps@);
            let bookmarks = catalog(sorted_source_bookmarks@);
            let source = catalog(sorted_source_snaps@);
            let t = newest_bookmarked(targets, bookmarks);
            if t < 0 {
                r is None
            } else {
                let b = last_with_guid(bookmarks, targets[t].guid);
                let from = first_later(source, bookmarks[b].creation.creation) as int;
                &&& r matches Some((m, tail))
                &&& m is Bookmark
                &&& m.inner() == bookmarks[b]
                &&& tail@ == sorted_source_snaps@.subrange(from, source.len() as int)
            }
        }),
{
    let ghost targets = catalog(sorted_target_snaps@);
    let ghost bookmarks = catalog(sorted_source_bookmarks@);
    let ghost source = catalog(sorted_source_snaps@);
    let mut t: usize = sorted_target_snaps.len();
    assert(targets.take(t as int) =~= targets);
    while t > 0
        invariant
            t <= sorted_target_snaps@.len(),
            targets == catalog(sorted_target_snaps@),
            bookmarks == catalog(sorted_source_bookmarks@),
            source == catalog(sorted_source_snaps@),
            newest_bookmarked(targets, bookmarks) == newest_bookmarked(
                targets.take(t as int),
                bookmarks,
            ),
        decreases t,
    {
        proof {
            assert(targets.take(t as int).last() == sorted_target_snaps@[t - 1]@);
            assert(targets.take(t as int).drop_last() =~= targets.take(t - 1));
        }
        match find_last_with_guid(sorted_source_bookmarks, sorted_target_snaps[t - 1].guid.as_str()) {
            Some(b) => {
                proof {
                    lemma_last_with_guid(bookmarks, targets[t - 1].guid);
                }
                let bookmark = &sorted_source_bookmarks[b];
                let second: u64 = bookmark.creation.creation;
                let n: usize = sorted_source_snaps.len();
                let mut from: usize = 0;
                while from < n && sorted_source_snaps[from].creation.creation <= second
                    invariant
                        from <= n,
                        n == sorted_source_snaps@.len(),
                        source == catalog(sorted_source_snaps@),
                        forall|j: int| 0 <= j < from ==> source[j].creation.creation <= second,
                    decreases n - from,
                {
                    from += 1;
                }
                proof {
                    lemma_first_later_is(source, second, from as int);
                }
                let rest = slice_subrange(sorted_source_snaps.as_slice(), from, n);
                return Some((IntermediateSource::Bookmark(bookmark.as_ref()), rest));
            },
            None => {},
        }
        t -= 1;
    }
    assert(targets.take(0) =~= Seq::<SnapshotModel>::empty());
    None
}

} // verus!
