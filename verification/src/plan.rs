//! The sends of a replication: what one `zfs send` starts from and goes to,
//! and the sends that bring a target from a common snapshot or bookmark up to
//! the newest snapshot of the source.

use crate::text::{chars_of, has_prefix, push_str, str_eq, to_string};
use crate::zfs::{catalog, IntermediateSource, Snapshot, SnapshotModel};
use vstd::prelude::*;

verus! {

/// The kind of a send that does not start from nothing.
#[derive(Debug, Clone, Copy, PartialEq, Eq, Structural)]
pub enum SendFlag {
    /// `-t`: resume an interrupted receive from its token.
    Resume,
    /// `-i`: from one snapshot or bookmark to a snapshot.
    Incremental,
    /// `-I`: from one snapshot to another with all snapshots between.
    IncrementalAll,
}

impl SendFlag {
    /// The flag as `zfs send` takes it.
    pub open spec fn text(&self) -> Seq<char> {
        match self {
            SendFlag::Resume => "-t"@,
            SendFlag::Incremental => "-i"@,
            SendFlag::IncrementalAll => "-I"@,
        }
    }

    /// The flag as `zfs send` takes it.
    pub fn to_str(&self) -> (r: &'static str)
        ensures
            r@ == self.text(),
    {
        match self {
            SendFlag::Resume => "-t",
            SendFlag::Incremental => "-i",
            SendFlag::IncrementalAll => "-I",
        }
    }
}

/// One `zfs send`: `zfs send [flag] from [to]`.
#[derive(Debug, Clone, PartialEq, Eq)]
pub struct Send {
    pub flag: Option<SendFlag>,
    pub from: String,
    pub to: Option<String>,
}

/// A send with its texts as sequences of characters.
pub struct SendModel {
    pub flag: Option<SendFlag>,
    pub from: Seq<char>,
    pub to: Option<Seq<char>>,
}

impl View for Send {
    type V = SendModel;

    open spec fn view(&self) -> SendModel {
        SendModel {
            flag: self.flag,
            from: self.from@,
            to: match self.to {
                Some(t) => Some(t@),
                None => None,
            },
        }
    }
}

/// The model of each send.
pub open spec fn sends_of(list: Seq<Send>) -> Seq<SendModel> {
    Seq::new(list.len(), |i: int| list[i]@)
}

/// `dataset@name`.
pub open spec fn snapshot_of(dataset: Seq<char>, name: Seq<char>) -> Seq<char> {
    dataset + seq!['@'] + name
}

/// `dataset#name`.
pub open spec fn bookmark_of(dataset: Seq<char>, name: Seq<char>) -> Seq<char> {
    dataset + seq!['#'] + name
}

/// The resumption of an interrupted receive.
pub open spec fn resume_send(token: Seq<char>) -> SendModel {
    SendModel { flag: Some(SendFlag::Resume), from: token, to: None }
}

/// The whole of one snapshot.
pub open spec fn full_send(dataset: Seq<char>, name: Seq<char>) -> SendModel {
    SendModel { flag: None, from: snapshot_of(dataset, name), to: None }
}

/// One snapshot of a clone, as the difference from the origin of the clone.
pub open spec fn clone_send(origin: Seq<char>, dataset: Seq<char>, name: Seq<char>) -> SendModel {
    SendModel {
        flag: Some(SendFlag::Incremental),
        from: origin,
        to: Some(snapshot_of(dataset, name)),
    }
}

/// The step from a snapshot or a bookmark to a snapshot.
pub open spec fn step_send(dataset: Seq<char>, bookmark: bool, from: Seq<char>, to: Seq<char>) -> SendModel {
    SendModel {
        flag: Some(SendFlag::Incremental),
        from: if bookmark {
            bookmark_of(dataset, from)
        } else {
            snapshot_of(dataset, from)
        },
        to: Some(snapshot_of(dataset, to)),
    }
}

/// The run from one snapshot to another with all snapshots between.
pub open spec fn range_send(dataset: Seq<char>, from: Seq<char>, to: Seq<char>) -> SendModel {
    SendModel {
        flag: Some(SendFlag::IncrementalAll),
        from: snapshot_of(dataset, from),
        to: Some(snapshot_of(dataset, to)),
    }
}

/// The steps between neighbours: from each of the first `n` snapshots of
/// `tail` but the first to the one before it.
pub open spec fn chain(dataset: Seq<char>, tail: Seq<SnapshotModel>, n: int) -> Seq<SendModel>
    decreases n,
{
    if n <= 1 {
        Seq::empty()
    } else {
        chain(dataset, tail, n - 1).push(
            step_send(dataset, false, tail[n - 2].name, tail[n - 1].name),
        )
    }
}

/// The sends that bring the target from what it shares with the source up to
/// the newest snapshot of `tail`, the snapshots of the source after the shared
/// one:
///
/// - none when nothing is left;
/// - without streaming, one step to the newest;
/// - with snapshot filters, a step to the first and then a step between
///   each two neighbours, so that no snapshot that was filtered out is sent;
/// - from a snapshot, one run to the newest;
/// - from a bookmark, a step to the first and, if more are left, a run from
///   there to the newest.
pub open spec fn stream_sends(
    dataset: Seq<char>,
    bookmark: bool,
    from: Seq<char>,
    tail: Seq<SnapshotModel>,
    no_stream: bool,
    filtered: bool,
) -> Seq<SendModel> {
    if tail.len() == 0 {
        Seq::empty()
    } else if no_stream {
        seq![step_send(dataset, bookmark, from, tail.last().name)]
    } else if filtered {
        seq![step_send(dataset, bookmark, from, tail[0].name)] + chain(dataset, tail, tail.len() as int)
    } else if !bookmark {
        seq![range_send(dataset, from, tail.last().name)]
    } else if tail.len() > 1 {
        seq![
            step_send(dataset, true, from, tail[0].name),
            range_send(dataset, tail[0].name, tail.last().name),
        ]
    } else {
        seq![step_send(dataset, true, from, tail[0].name)]
    }
}

/// Every send of the stream starts from the shared snapshot or bookmark or
/// from a snapshot of `tail`, and goes to a snapshot of `tail`.
pub proof fn lemma_stream_sends_stay_in_catalog(
    dataset: Seq<char>,
    bookmark: bool,
    from: Seq<char>,
    tail: Seq<SnapshotModel>,
    no_stream: bool,
    filtered: bool,
)
    ensures
        forall|i: int|
            #![trigger stream_sends(dataset, bookmark, from, tail, no_stream, filtered)[i]]
            0 <= i < stream_sends(dataset, bookmark, from, tail, no_stream, filtered).len() ==> {
                let s = stream_sends(dataset, bookmark, from, tail, no_stream, filtered)[i];
                &&& s.flag is Some
                &&& s.flag != Some(SendFlag::Resume)
                &&& exists|k: int| 0 <= k < tail.len() && s.to == Some(snapshot_of(dataset, tail[k].name))
                &&& (s.from == snapshot_of(dataset, from) || s.from == bookmark_of(dataset, from)
                    || exists|k: int| 0 <= k < tail.len() && s.from == snapshot_of(dataset, tail[k].name))
            },
{
    let all = stream_sends(dataset, bookmark, from, tail, no_stream, filtered);
    assert forall|i: int| #![trigger all[i]] 0 <= i < all.len() implies {
        let s = all[i];
        &&& s.flag is Some
        &&& s.flag != Some(SendFlag::Resume)
        &&& exists|k: int| 0 <= k < tail.len() && s.to == Some(snapshot_of(dataset, tail[k].name))
        &&& (s.from == snapshot_of(dataset, from) || s.from == bookmark_of(dataset, from)
            || exists|k: int| 0 <= k < tail.len() && s.from == snapshot_of(dataset, tail[k].name))
    } by {
        let s = all[i];
        let last = tail.len() - 1;
        if no_stream {
            assert(s.to == Some(snapshot_of(dataset, tail[last].name)));
        } else if filtered {
            lemma_chain(dataset, tail, tail.len() as int);
            if i == 0 {
                assert(s.to == Some(snapshot_of(dataset, tail[0].name)));
            } else {
                let c = chain(dataset, tail, tail.len() as int);
                assert(s == c[i - 1]);
                assert(s.to == Some(snapshot_of(dataset, tail[i].name)));
                assert(s.from == snapshot_of(dataset, tail[i - 1].name));
            }
        } else if !bookmark {
            assert(s.to == Some(snapshot_of(dataset, tail[last].name)));
        } else if i == 0 {
            assert(s.to == Some(snapshot_of(dataset, tail[0].name)));
        } else {
            assert(s.to == Some(snapshot_of(dataset, tail[last].name)));
            assert(s.from == snapshot_of(dataset, tail[0].name));
        }
    }
}

/// How many sends a chain has, and what each of them is.
pub proof fn lemma_chain(dataset: Seq<char>, tail: Seq<SnapshotModel>, n: int)
    requires
        n <= tail.len(),
    ensures
        chain(dataset, tail, n).len() == (if n <= 1 {
            0
        } else {
            n - 1
        }),
        forall|i: int|
            0 <= i < chain(dataset, tail, n).len() ==> #[trigger] chain(dataset, tail, n)[i]
                == step_send(dataset, false, tail[i].name, tail[i + 1].name),
    decreases n,
{
    if n > 1 {
        lemma_chain(dataset, tail, n - 1);
    }
}

fn join3(a: &str, mark: char, b: &str) -> (r: String)
    ensures
        r@ == a@ + seq![mark] + b@,
{
    let mut out: Vec<char> = Vec::new();
    push_str(&mut out, a);
    out.push(mark);
    push_str(&mut out, b);
    to_string(&out)
}

impl Send {
    /// The resumption of an interrupted receive from its token.
    pub fn resume(token: &str) -> (r: Self)
        ensures
            r@ == resume_send(token@),
    {
        Send { flag: Some(SendFlag::Resume), from: token.to_string(), to: None }
    }

    /// The whole of the snapshot `name` of `dataset`.
    pub fn full(dataset: &str, name: &str) -> (r: Self)
        ensures
            r@ == full_send(dataset@, name@),
    {
        Send { flag: None, from: join3(dataset, '@', name), to: None }
    }

    /// The snapshot `name` of the clone `dataset`, as the difference from
    /// its origin.
    pub fn clone_from(origin: &str, dataset: &str, name: &str) -> (r: Self)
        ensures
            r@ == clone_send(origin@, dataset@, name@),
    {
        Send {
            flag: Some(SendFlag::Incremental),
            from: origin.to_string(),
            to: Some(join3(dataset, '@', name)),
        }
    }

    /// The step from the snapshot or bookmark `from` to the snapshot `to`.
    pub fn step(dataset: &str, bookmark: bool, from: &str, to: &str) -> (r: Self)
        ensures
            r@ == step_send(dataset@, bookmark, from@, to@),
    {
        Send {
            flag: Some(SendFlag::Incremental),
            from: join3(
                dataset,
                if bookmark {
                    '#'
                } else {
                    '@'
                },
                from,
            ),
            to: Some(join3(dataset, '@', to)),
        }
    }

    /// The run from the snapshot `from` to the snapshot `to`.
    pub fn range(dataset: &str, from: &str, to: &str) -> (r: Self)
        ensures
            r@ == range_send(dataset@, from@, to@),
    {
        Send {
            flag: Some(SendFlag::IncrementalAll),
            from: join3(dataset, '@', from),
            to: Some(join3(dataset, '@', to)),
        }
    }

    /// A copy of the send.
    pub fn duplicate(&self) -> (r: Self)
        ensures
            r@ == self@,
    {
        Send {
            flag: self.flag,
            from: self.from.clone(),
            to: match &self.to {
                Some(t) => Some(t.clone()),
                None => None,
            },
        }
    }
}

/// The sends that bring the target up to the newest snapshot of `tail`.
pub fn plan_stream(
    dataset: &str,
    intermediate: &IntermediateSource<'_>,
    tail: &[Snapshot<String>],
    no_stream: bool,
    filtered: bool,
) -> (r: Vec<Send>)
    ensures
        sends_of(r@) == stream_sends(
            dataset@,
            intermediate is Bookmark,
            intermediate.inner().name,
            catalog(tail@),
            no_stream,
            filtered,
        ),
{
    let ghost models = catalog(tail@);
    let (bookmark, from): (bool, &str) = match intermediate {
        IntermediateSource::Snapshot(s) => (false, s.name),
        IntermediateSource::Bookmark(s) => (true, s.name),
    };
    let ghost want = stream_sends(dataset@, bookmark, from@, models, no_stream, filtered);
    let mut out: Vec<Send> = Vec::new();
    let n: usize = tail.len();
    if n == 0 {
        assert(sends_of(out@) =~= want);
        return out;
    }
    assert(models[n - 1] == tail@[n - 1]@ && models[0] == tail@[0]@);
    if no_stream {
        out.push(Send::step(dataset, bookmark, from, tail[n - 1].name.as_str()));
        assert(sends_of(out@) =~= want);
    } else if filtered {
        out.push(Send::step(dataset, bookmark, from, tail[0].name.as_str()));
        let ghost first = sends_of(out@);
        assert(first =~= seq![step_send(dataset@, bookmark, from@, models[0].name)]);
        let mut i: usize = 1;
        assert(first + chain(dataset@, models, 1) =~= first);
        while i < n
            invariant
                1 <= i <= n,
                n == tail@.len(),
                models == catalog(tail@),
                sends_of(out@) == first + chain(dataset@, models, i as int),
            decreases n - i,
        {
            let ghost before = sends_of(out@);
            let s = Send::step(dataset, false, tail[i - 1].name.as_str(), tail[i].name.as_str());
            assert(models[i - 1] == tail@[i - 1]@ && models[i as int] == tail@[i as int]@);
            out.push(s);
            assert(sends_of(out@) =~= before.push(s@));
            assert(sends_of(out@) =~= first + chain(dataset@, models, i + 1));
            i += 1;
        }
    } else if !bookmark {
        out.push(Send::range(dataset, from, tail[n - 1].name.as_str()));
        assert(sends_of(out@) =~= want);
    } else {
        out.push(Send::step(dataset, true, from, tail[0].name.as_str()));
        if n > 1 {
            out.push(Send::range(dataset, tail[0].name.as_str(), tail[n - 1].name.as_str()));
        }
        assert(sends_of(out@) =~= want);
    }
    out
}

/// The start of the names of sync snapshots in one format:
/// `<format>_<identifier><hostname>`.
pub open spec fn sync_prefix(format: Seq<char>, identifier: Option<Seq<char>>, hostname: Seq<char>) -> Seq<
    char,
> {
    format + seq!['_'] + (match identifier {
        Some(i) => i,
        None => Seq::empty(),
    }) + hostname
}

/// The name of a new sync snapshot: `chithi_<identifier><hostname>_<date>`.
pub open spec fn sync_name(identifier: Option<Seq<char>>, hostname: Seq<char>, date: Seq<char>) -> Seq<
    char,
> {
    sync_prefix("chithi"@, identifier, hostname) + seq!['_'] + date
}

/// Whether a snapshot is an old sync snapshot to be pruned: it is not the one
/// just made, and its name starts like a sync snapshot of one of the formats.
pub open spec fn prunable(
    name: Seq<char>,
    new_snapshot: Seq<char>,
    formats: Seq<String>,
    identifier: Option<Seq<char>>,
    hostname: Seq<char>,
) -> bool {
    name != new_snapshot && exists|i: int|
        0 <= i < formats.len() && sync_prefix(
            (#[trigger] formats[i])@,
            identifier,
            hostname,
        ).is_prefix_of(name)
}

/// The full names `dataset@name` of the snapshots to prune, in the order of
/// the catalog.
pub open spec fn prune_list(
    dataset: Seq<char>,
    snapshots: Seq<SnapshotModel>,
    new_snapshot: Seq<char>,
    formats: Seq<String>,
    identifier: Option<Seq<char>>,
    hostname: Seq<char>,
) -> Seq<Seq<char>>
    decreases snapshots.len(),
{
    if snapshots.len() == 0 {
        Seq::empty()
    } else {
        let rest = prune_list(
            dataset,
            snapshots.drop_last(),
            new_snapshot,
            formats,
            identifier,
            hostname,
        );
        if prunable(snapshots.last().name, new_snapshot, formats, identifier, hostname) {
            rest.push(snapshot_of(dataset, snapshots.last().name))
        } else {
            rest
        }
    }
}

/// The name of a new sync snapshot.
pub fn sync_snap_name(identifier: &Option<String>, hostname: &str, date: &str) -> (r: String)
    ensures
        r@ == sync_name(crate::fs::opt_string(*identifier), hostname@, date@),
{
    let mut out: Vec<char> = Vec::new();
    push_str(&mut out, "chithi");
    out.push('_');
    match identifier {
        Some(i) => push_str(&mut out, i.as_str()),
        None => {},
    }
    push_str(&mut out, hostname);
    out.push('_');
    push_str(&mut out, date);
    assert(out@ =~= sync_name(crate::fs::opt_string(*identifier), hostname@, date@));
    to_string(&out)
}

fn has_any_prefix(name: &Vec<char>, prefixes: &Vec<Vec<char>>) -> (r: bool)
    ensures
        r == exists|k: int| 0 <= k < prefixes@.len() && (#[trigger] prefixes@[k])@.is_prefix_of(name@),
{
    let mut j: usize = 0;
    while j < prefixes.len()
        invariant
            j <= prefixes.len(),
            forall|k: int| 0 <= k < j ==> !(#[trigger] prefixes@[k])@.is_prefix_of(name@),
        decreases prefixes.len() - j,
    {
        if has_prefix(name, &prefixes[j]) {
            return true;
        }
        j += 1;
    }
    false
}

/// The full names of the old sync snapshots to prune.
pub fn prune_names(
    dataset: &str,
    snapshots: &Vec<Snapshot<String>>,
    new_snapshot: &str,
    formats: &Vec<String>,
    identifier: &Option<String>,
    hostname: &str,
) -> (r: Vec<String>)
    ensures
        r.deep_view() == prune_list(
            dataset@,
            catalog(snapshots@),
            new_snapshot@,
            formats@,
            crate::fs::opt_string(*identifier),
            hostname@,
        ),
{
    let ghost id = crate::fs::opt_string(*identifier);
    let mut prefixes: Vec<Vec<char>> = Vec::new();
    let mut f: usize = 0;
    while f < formats.len()
        invariant
            f <= formats.len(),
            id == crate::fs::opt_string(*identifier),
            prefixes@.len() == f,
            forall|j: int| 0 <= j < f ==> (#[trigger] prefixes@[j])@ == sync_prefix(formats@[j]@, id, hostname@),
        decreases formats.len() - f,
    {
        let mut p: Vec<char> = Vec::new();
        push_str(&mut p, formats[f].as_str());
        p.push('_');
        match identifier {
            Some(i) => push_str(&mut p, i.as_str()),
            None => {},
        }
        push_str(&mut p, hostname);
        assert(p@ =~= sync_prefix(formats@[f as int]@, id, hostname@));
        prefixes.push(p);
        f += 1;
    }
    let ghost all = catalog(snapshots@);
    let mut out: Vec<String> = Vec::new();
    let mut i: usize = 0;
    assert(out.deep_view() =~= prune_list(dataset@, all.take(0), new_snapshot@, formats@, id, hostname@));
    while i < snapshots.len()
        invariant
            i <= snapshots.len(),
            all == catalog(snapshots@),
            id == crate::fs::opt_string(*identifier),
            prefixes@.len() == formats@.len(),
            forall|j: int|
                0 <= j < formats@.len() ==> (#[trigger] prefixes@[j])@ == sync_prefix(
                    formats@[j]@,
                    id,
                    hostname@,
                ),
            out.deep_view() == prune_list(
                dataset@,
                all.take(i as int),
                new_snapshot@,
                formats@,
                id,
                hostname@,
            ),
        decreases snapshots.len() - i,
    {
        let name = snapshots[i].name.as_str();
        proof {
            assert(all.take(i + 1).drop_last() =~= all.take(i as int));
            assert(all.take(i + 1).last().name == name@);
        }
        let mut hit = false;
        if !str_eq(name, new_snapshot) {
            let chars = chars_of(name);
            hit = has_any_prefix(&chars, &prefixes);
            proof {
                if hit {
                    let k = choose|k: int|
                        0 <= k < prefixes@.len() && (#[trigger] prefixes@[k])@.is_prefix_of(name@);
                    assert(sync_prefix(formats@[k]@, id, hostname@).is_prefix_of(name@));
                } else {
                    assert forall|k: int| 0 <= k < formats@.len() implies !sync_prefix(
                        (#[trigger] formats@[k])@,
                        id,
                        hostname@,
                    ).is_prefix_of(name@) by {
                        assert(prefixes@[k]@ == sync_prefix(formats@[k]@, id, hostname@));
                    }
                }
            }
        }
        assert(hit == prunable(name@, new_snapshot@, formats@, id, hostname@));
        if hit {
            let full = join3(dataset, '@', name);
            crate::text::push_arg(&mut out, full.as_str());
        }
        i += 1;
    }
    assert(all.take(snapshots.len() as int) =~= all);
    out
}

} // verus!
