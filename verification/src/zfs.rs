//! Snapshots and bookmarks as the catalog of a dataset lists them, and the
//! order in which a catalog is kept.

use crate::text::{chars_of, padded, parse_decimal, parse_u64, push_padded, push_str, to_string};
use vstd::hash_map::StringHashMap;
use vstd::prelude::*;

verus! {

/// When a snapshot was made: the second, and a running number that keeps
/// snapshots of one second in the order in which they were listed.
#[derive(Debug, Clone, Copy, PartialEq, Eq, Structural)]
pub struct Creation {
    pub creation: u64,
    pub idx: usize,
}

impl Creation {
    /// The readable form: the second in ten digits, the running number in
    /// three, both padded with zeros.
    pub open spec fn text(&self) -> Seq<char> {
        padded(self.creation as nat, 10) + padded(self.idx as nat, 3)
    }

    /// Earlier second, or the same second and a lower running number.
    pub open spec fn before(&self, other: Creation) -> bool {
        self.creation < other.creation || (self.creation == other.creation && self.idx < other.idx)
    }

    /// The creation time that the decimal text `creation` gives, with the
    /// running number `idx`; nothing when the text is no number.
    pub fn new(creation: &str, idx: usize) -> (r: Option<Self>)
        ensures
            r == match parse_u64(creation@) {
                Some(c) => Some(Creation { creation: c, idx }),
                None => None,
            },
    {
        let v = chars_of(creation);
        let n: usize = v.len();
        assert(v@.subrange(0, n as int) =~= creation@);
        match parse_decimal(&v, 0, n) {
            Some(creation) => Some(Self { creation, idx }),
            None => None,
        }
    }

    /// A creation time with a given place in the listing.
    pub fn fake_new(creation: u64, idx: usize) -> (r: Self)
        ensures
            r == (Creation { creation, idx }),
    {
        Self { creation, idx }
    }

    /// Whether this creation time stands before the other: by the time, and by
    /// the place in the listing where the times are equal.
    pub fn is_before(&self, other: &Creation) -> (r: bool)
        ensures
            r == self.before(*other),
    {
        self.creation < other.creation || (self.creation == other.creation && self.idx < other.idx)
    }

    /// The readable form.
    pub fn to_string(&self) -> (r: String)
        ensures
            r@ == self.text(),
    {
        let mut out: Vec<char> = Vec::new();
        push_padded(&mut out, self.creation, 10);
        push_padded(&mut out, self.idx as u64, 3);
        assert(out@ =~= self.text());
        to_string(&out)
    }
}

/// A snapshot or a bookmark: its name within the dataset, its GUID, and when
/// it was made.
#[derive(Debug, Clone, PartialEq, Eq)]
pub struct Snapshot<T> {
    pub name: T,
    pub guid: T,
    pub creation: Creation,
}

/// A snapshot with its texts as sequences of characters.
pub struct SnapshotModel {
    pub name: Seq<char>,
    pub guid: Seq<char>,
    pub creation: Creation,
}

impl View for Snapshot<String> {
    type V = SnapshotModel;

    open spec fn view(&self) -> SnapshotModel {
        SnapshotModel { name: self.name@, guid: self.guid@, creation: self.creation }
    }
}

impl<'a> View for Snapshot<&'a str> {
    type V = SnapshotModel;

    open spec fn view(&self) -> SnapshotModel {
        SnapshotModel { name: self.name@, guid: self.guid@, creation: self.creation }
    }
}

/// The model of each snapshot of a list.
pub open spec fn catalog(list: Seq<Snapshot<String>>) -> Seq<SnapshotModel> {
    Seq::new(list.len(), |i: int| list[i]@)
}

/// The GUID of the newest snapshot that the tool pretends to have listed.
pub open spec fn fake_guid() -> Seq<char> {
    "9999999999999999999"@
}

/// The second in which that snapshot counts as made.
pub const FAKE_NEW_SYNC_CREATION: u64 = 10000000000;

impl<T> Snapshot<T> {
    /// A snapshot of that name, GUID and creation time.
    pub fn new(name: T, guid: T, creation: Creation) -> (r: Self)
        ensures
            r.name == name,
            r.guid == guid,
            r.creation == creation,
    {
        Self { name, guid, creation }
    }
}

impl<'a> Snapshot<&'a str> {
    /// A copy that owns its texts.
    pub fn to_owned(&self) -> (r: Snapshot<String>)
        ensures
            r@ == self@,
    {
        Snapshot {
            name: self.name.to_string(),
            guid: self.guid.to_string(),
            creation: self.creation,
        }
    }
}

/// What is known of a snapshot under its name.
#[derive(Debug, Clone, PartialEq, Eq)]
pub struct SnapshotInfo<T> {
    pub guid: T,
    pub creation: Creation,
}

/// The map from names to GUID and creation time that a list gives. Of two
/// entries with one name the later counts.
pub open spec fn names_map(list: Seq<SnapshotModel>) -> Map<Seq<char>, (Seq<char>, Creation)>
    decreases list.len(),
{
    if list.len() == 0 {
        Map::empty()
    } else {
        names_map(list.drop_last()).insert(list.last().name, (list.last().guid, list.last().creation))
    }
}

/// Guid and creation time under each name.
pub open spec fn info_map(m: Map<Seq<char>, SnapshotInfo<String>>) -> Map<
    Seq<char>,
    (Seq<char>, Creation),
> {
    Map::new(|k: Seq<char>| m.contains_key(k), |k: Seq<char>| (m[k].guid@, m[k].creation))
}

impl Snapshot<String> {
    /// The stand-in for a sync snapshot that was just made and is not listed
    /// again in this run: it carries a fixed GUID and a creation time later
    /// than any real one, so that it counts as the newest.
    pub fn fake_newest(name: String) -> (r: Self)
        ensures
            r@ == (SnapshotModel {
                name: name@,
                guid: fake_guid(),
                creation: Creation { creation: FAKE_NEW_SYNC_CREATION, idx: 0 },
            }),
    {
        Self {
            name,
            guid: "9999999999999999999".to_string(),
            creation: Creation::fake_new(FAKE_NEW_SYNC_CREATION, 0),
        }
    }

    /// A view of the snapshot that borrows its texts.
    pub fn as_ref<'a>(&'a self) -> (r: Snapshot<&'a str>)
        ensures
            r@ == self@,
    {
        Snapshot { name: self.name.as_str(), guid: self.guid.as_str(), creation: self.creation }
    }

    /// What is known of the snapshot under its name.
    pub fn info(&self) -> (r: SnapshotInfo<String>)
        ensures
            r.guid@ == self.guid@,
            r.creation == self.creation,
    {
        SnapshotInfo { guid: self.guid.clone(), creation: self.creation }
    }

    /// The snapshots of a list by name.
    pub fn list_to_map(list: &Vec<Self>) -> (m: StringHashMap<SnapshotInfo<String>>)
        ensures
            info_map(m@) == names_map(catalog(list@)),
    {
        let mut m: StringHashMap<SnapshotInfo<String>> = StringHashMap::new();
        let mut i: usize = 0;
        assert(info_map(m@) =~= names_map(catalog(list@).take(0)));
        while i < list.len()
            invariant
                i <= list.len(),
                info_map(m@) == names_map(catalog(list@).take(i as int)),
            decreases list.len() - i,
        {
            let ghost before = m@;
            m.insert(list[i].name.clone(), list[i].info());
            proof {
                let c = catalog(list@);
                assert(c.take(i + 1).drop_last() =~= c.take(i as int));
                assert(c.take(i + 1).last() == list@[i as int]@);
                assert(info_map(m@) =~= info_map(before).insert(
                    list@[i as int].name@,
                    (list@[i as int].guid@, list@[i as int].creation),
                ));
            }
            i += 1;
        }
        assert(catalog(list@).take(list.len() as int) =~= catalog(list@));
        m
    }
}

/// What an incremental send starts from: a snapshot that both sides have, or
/// a bookmark of one.
#[derive(Debug, Clone, PartialEq, Eq)]
pub enum IntermediateSource<'a> {
    Snapshot(Snapshot<&'a str>),
    Bookmark(Snapshot<&'a str>),
}

impl<'a> IntermediateSource<'a> {
    /// The snapshot or bookmark itself.
    pub open spec fn inner(&self) -> SnapshotModel {
        match self {
            IntermediateSource::Snapshot(s) => s@,
            IntermediateSource::Bookmark(s) => s@,
        }
    }

    /// The name with its mark in front: `@` for a snapshot, `#` for a
    /// bookmark.
    pub fn source(&self) -> (r: String)
        ensures
            r@ == (match self {
                IntermediateSource::Snapshot(s) => seq!['@'] + s.name@,
                IntermediateSource::Bookmark(s) => seq!['#'] + s.name@,
            }),
    {
        let mut out: Vec<char> = Vec::new();
        match self {
            IntermediateSource::Snapshot(snapshot) => {
                out.push('@');
                push_str(&mut out, snapshot.name);
            },
            IntermediateSource::Bookmark(snapshot) => {
                out.push('#');
                push_str(&mut out, snapshot.name);
            },
        }
        to_string(&out)
    }

    /// How the source is called in messages.
    pub fn kind(&self) -> (r: &'static str)
        ensures
            r@ == (match self {
                IntermediateSource::Snapshot(_) => "snapshot"@,
                IntermediateSource::Bookmark(_) => "bookmark"@,
            }),
    {
        match self {
            IntermediateSource::Snapshot(_) => "snapshot",
            IntermediateSource::Bookmark(_) => "bookmark",
        }
    }
}

} // verus!
