//! Reading the catalog of a dataset: the snapshots (or bookmarks) that
//! `zfs get -Hpd 1 -t snapshot guid,creation <fs>` lists, one property per
//! line, tab separated.

use crate::order::{distinct_names, sort_snapshots, sorted};
use crate::pattern::{any_matches, matches_any, Pattern};
use crate::text::{
    chars_of, chars_eq, contains, contains_run, first_index, find_char, has_prefix, parse_decimal,
    parse_u64, push_range, push_str, split, split_chars, string_of, texts, to_string,
};
use crate::zfs::{catalog, Creation, Snapshot, SnapshotModel};
use vstd::hash_map::StringHashMap;
use vstd::prelude::*;

verus! {

/// Why a listing could not be turned into a catalog.
#[derive(Debug, Clone, PartialEq, Eq)]
pub enum CatalogError {
    /// A line of the dataset has fewer than three fields.
    TooFewFields,
    /// The listing names a snapshot without giving both its GUID and its
    /// creation time.
    Incomplete(String),
}

/// The error with its text as a sequence of characters.
pub enum CatalogFault {
    TooFewFields,
    Incomplete(Seq<char>),
}

impl View for CatalogError {
    type V = CatalogFault;

    open spec fn view(&self) -> CatalogFault {
        match self {
            CatalogError::TooFewFields => CatalogFault::TooFewFields,
            CatalogError::Incomplete(name) => CatalogFault::Incomplete(name@),
        }
    }
}

impl CatalogError {
    /// The message of the error.
    pub fn to_string(&self) -> (r: String)
        ensures
            r@ == (match self@ {
                CatalogFault::TooFewFields => "expected zfs get to return at least three fields"@,
                CatalogFault::Incomplete(name) => "didn't get both guid and creation for "@ + name,
            }),
    {
        match self {
            CatalogError::TooFewFields => "expected zfs get to return at least three fields".to_string(),
            CatalogError::Incomplete(name) => {
                let mut out: Vec<char> = Vec::new();
                push_str(&mut out, "didn't get both guid and creation for ");
                push_str(&mut out, name.as_str());
                to_string(&out)
            },
        }
    }
}

/// What one line of a listing says.
pub enum Row {
    /// The line is about another dataset, or about no snapshot.
    Foreign,
    /// The line has fewer than three fields.
    Short,
    /// The GUID of the named snapshot.
    Guid { name: Seq<char>, value: Seq<char> },
    /// The creation time of the named snapshot, as written.
    Created { name: Seq<char>, value: Seq<char> },
    /// Another property.
    Other,
}

/// What the line says. The first field must be the dataset `fs`, the mark
/// (`@` for snapshots, `#` for bookmarks) and a name; the second names the
/// property, the third holds its value.
pub open spec fn row_of(line: Seq<char>, fs: Seq<char>, mark: char) -> Row {
    let fields = split(line, '\t');
    let head = fields[0];
    if !(fs.push(mark)).is_prefix_of(head) {
        Row::Foreign
    } else if fields.len() < 3 {
        Row::Short
    } else {
        let name = head.skip(fs.len() as int + 1);
        if fields[1] == "guid"@ {
            Row::Guid { name, value: fields[2] }
        } else if fields[1] == "creation"@ {
            Row::Created { name, value: fields[2] }
        } else {
            Row::Other
        }
    }
}

/// What is known of one snapshot while the listing is read.
pub struct Entry {
    pub name: Seq<char>,
    pub guid: Option<Seq<char>>,
    pub creation: Option<Creation>,
}

/// The entries in the order in which their names first came, and the number
/// of creation times read so far.
pub struct Gathered {
    pub entries: Seq<Entry>,
    pub counter: nat,
}

/// Position of the entry of that name, or -1.
pub open spec fn position(entries: Seq<Entry>, name: Seq<char>) -> int
    decreases entries.len(),
{
    if entries.len() == 0 {
        -1
    } else if entries.last().name == name {
        entries.len() - 1
    } else {
        position(entries.drop_last(), name)
    }
}

/// The entries with one of that name among them: a new, empty one at the end
/// if there was none.
pub open spec fn with_entry(entries: Seq<Entry>, name: Seq<char>) -> Seq<Entry> {
    if position(entries, name) >= 0 {
        entries
    } else {
        entries.push(Entry { name, guid: None, creation: None })
    }
}

/// The state after one more line. A creation time that is no number leaves
/// the entry without one; every creation time that is read takes the next
/// running number.
pub open spec fn gather(g: Gathered, row: Row) -> Result<Gathered, CatalogFault> {
    match row {
        Row::Foreign => Ok(g),
        Row::Other => Ok(g),
        Row::Short => Err(CatalogFault::TooFewFields),
        Row::Guid { name, value } => {
            let e = with_entry(g.entries, name);
            let p = position(e, name);
            Ok(
                Gathered {
                    entries: e.update(
                        p,
                        Entry { name, guid: Some(value), creation: e[p].creation },
                    ),
                    counter: g.counter,
                },
            )
        },
        Row::Created { name, value } => {
            let e = with_entry(g.entries, name);
            let p = position(e, name);
            match parse_u64(value) {
                Some(c) => Ok(
                    Gathered {
                        entries: e.update(
                            p,
                            Entry {
                                name,
                                guid: e[p].guid,
                                creation: Some(
                                    Creation { creation: c, idx: g.counter as usize },
                                ),
                            },
                        ),
                        counter: g.counter + 1,
                    },
                ),
                None => Ok(Gathered { entries: e, counter: g.counter }),
            }
        },
    }
}

/// The state after all the lines, or the error of the first line that has
/// one.
pub open spec fn gather_all(lines: Seq<Seq<char>>, fs: Seq<char>, mark: char, g: Gathered) -> Result<
    Gathered,
    CatalogFault,
>
    decreases lines.len(),
{
    if lines.len() == 0 {
        Ok(g)
    } else {
        match gather(g, row_of(lines[0], fs, mark)) {
            Ok(next) => gather_all(lines.drop_first(), fs, mark, next),
            Err(e) => Err(e),
        }
    }
}

/// Position of the first entry that lacks its GUID or its creation time, or
/// the number of entries.
pub open spec fn first_incomplete(entries: Seq<Entry>) -> nat
    decreases entries.len(),
{
    if entries.len() == 0 || entries[0].guid is None || entries[0].creation is None {
        0
    } else {
        1 + first_incomplete(entries.drop_first())
    }
}

/// The entries as snapshots.
pub open spec fn completed(entries: Seq<Entry>) -> Seq<SnapshotModel> {
    Seq::new(
        entries.len(),
        |i: int|
            SnapshotModel {
                name: entries[i].name,
                guid: entries[i].guid->0,
                creation: entries[i].creation->0,
            },
    )
}

/// The catalog that a listing gives, in the order in which the names first
/// came; or the error: a line with too few fields, else the first snapshot
/// that is left incomplete.
pub open spec fn listing(lines: Seq<Seq<char>>, fs: Seq<char>, mark: char) -> Result<
    Seq<SnapshotModel>,
    CatalogFault,
> {
    match gather_all(lines, fs, mark, Gathered { entries: Seq::empty(), counter: 0 }) {
        Err(e) => Err(e),
        Ok(g) => {
            let k = first_incomplete(g.entries) as int;
            if k < g.entries.len() {
                Err(CatalogFault::Incomplete(g.entries[k].name))
            } else {
                Ok(completed(g.entries))
            }
        },
    }
}

/// Which snapshots are taken.
#[derive(Debug)]
pub struct SnapFilter {
    /// A snapshot whose name one of these matches is left out.
    pub exclude_snaps: Vec<Pattern>,
    /// When there are any, only snapshots whose name one of these matches are
    /// taken.
    pub include_snaps: Vec<Pattern>,
}

impl SnapFilter {
    /// Whether a snapshot of that name is taken: no exclusion matches, and an
    /// inclusion does if there is any. Exclusion wins over inclusion.
    pub open spec fn includes(&self, name: Seq<char>) -> bool {
        !any_matches(self.exclude_snaps@, name) && (self.include_snaps@.len() == 0 || any_matches(
            self.include_snaps@,
            name,
        ))
    }

    /// Whether any pattern is set.
    pub open spec fn active(&self) -> bool {
        self.exclude_snaps@.len() > 0 || self.include_snaps@.len() > 0
    }

    /// Whether a snapshot of that name is taken.
    pub fn snap_is_included(&self, snap_name: &str) -> (r: bool)
        ensures
            r == self.includes(snap_name@),
    {
        if matches_any(&self.exclude_snaps, snap_name) {
            return false;
        }
        if self.include_snaps.len() == 0 {
            return true;
        }
        matches_any(&self.include_snaps, snap_name)
    }

    /// Whether any pattern is set.
    pub fn is_active(&self) -> (r: bool)
        ensures
            r == self.active(),
    {
        self.exclude_snaps.len() > 0 || self.include_snaps.len() > 0
    }
}

/// The snapshots of `all` that the filter takes, in order.
pub open spec fn kept(all: Seq<SnapshotModel>, filter: &SnapFilter) -> Seq<SnapshotModel>
    decreases all.len(),
{
    if all.len() == 0 {
        Seq::empty()
    } else if filter.includes(all.last().name) {
        kept(all.drop_last(), filter).push(all.last())
    } else {
        kept(all.drop_last(), filter)
    }
}

/// The text up to the first line break.
pub open spec fn first_line(text: Seq<char>) -> Seq<char> {
    text.take(first_index(text, '\n') as int)
}

/// Whether the error output says that the pool has no bookmarks at all.
pub open spec fn bookmarks_unsupported(stderr: Seq<char>) -> bool {
    contains_run(first_line(stderr), "invalid type"@) || contains_run(
        first_line(stderr),
        "operation not applicable to datasets of this type"@,
    )
}

struct Partial {
    name: String,
    guid: Option<String>,
    creation: Option<Creation>,
}

impl View for Partial {
    type V = Entry;

    closed spec fn view(&self) -> Entry {
        Entry {
            name: self.name@,
            guid: match self.guid {
                Some(g) => Some(g@),
                None => None,
            },
            creation: self.creation,
        }
    }
}

spec fn entries_of(v: Seq<Partial>) -> Seq<Entry> {
    Seq::new(v.len(), |i: int| v[i]@)
}

proof fn lemma_position(entries: Seq<Entry>, name: Seq<char>)
    ensures
        -1 <= position(entries, name) < entries.len(),
        position(entries, name) >= 0 ==> entries[position(entries, name)].name == name,
        position(entries, name) < 0 ==> forall|i: int|
            0 <= i < entries.len() ==> (#[trigger] entries[i]).name != name,
    decreases entries.len(),
{
    if entries.len() > 0 && entries.last().name != name {
        lemma_position(entries.drop_last(), name);
        assert forall|i: int| 0 <= i < entries.len() && position(entries, name) < 0 implies (
        #[trigger] entries[i]).name != name by {
            if i < entries.len() - 1 {
                assert(entries.drop_last()[i] == entries[i]);
            }
        }
    }
}

/// The position of a name depends on the names alone.
proof fn lemma_position_same_names(a: Seq<Entry>, b: Seq<Entry>, name: Seq<char>)
    requires
        a.len() == b.len(),
        forall|i: int| 0 <= i < a.len() ==> a[i].name == b[i].name,
    ensures
        position(a, name) == position(b, name),
    decreases a.len(),
{
    if a.len() > 0 {
        assert forall|i: int| 0 <= i < a.drop_last().len() implies a.drop_last()[i].name
            == b.drop_last()[i].name by {
            assert(a.drop_last()[i] == a[i] && b.drop_last()[i] == b[i]);
        }
        lemma_position_same_names(a.drop_last(), b.drop_last(), name);
    }
}

spec fn names_distinct(entries: Seq<Entry>) -> bool {
    forall|i: int, j: int|
        0 <= i < j < entries.len() ==> (#[trigger] entries[i]).name != (#[trigger] entries[j]).name
}

/// The index knows exactly the names of the entries, each at its position.
spec fn indexed(index: Map<Seq<char>, usize>, entries: Seq<Entry>) -> bool {
    &&& forall|k: Seq<char>| #[trigger] index.contains_key(k) <==> position(entries, k) >= 0
    &&& forall|k: Seq<char>| #[trigger] index.contains_key(k) ==> index[k] == position(entries, k)
}

/// The place of the entry of that name, made if there was none.
fn slot_for(entries: &mut Vec<Partial>, index: &mut StringHashMap<usize>, name: &str) -> (p: usize)
    requires
        indexed(old(index)@, entries_of(old(entries)@)),
        names_distinct(entries_of(old(entries)@)),
    ensures
        indexed(final(index)@, entries_of(final(entries)@)),
        names_distinct(entries_of(final(entries)@)),
        entries_of(final(entries)@) == with_entry(entries_of(old(entries)@), name@),
        p == position(entries_of(final(entries)@), name@),
        0 <= p < final(entries)@.len(),
        final(entries)@[p as int].name@ == name@,
{
    let ghost before = entries_of(entries@);
    proof {
        lemma_position(before, name@);
    }
    match index.get(name) {
        Some(p) => *p,
        None => {
            let p: usize = entries.len();
            entries.push(Partial { name: name.to_string(), guid: None, creation: None });
            index.insert(name.to_string(), p);
            proof {
                let now = entries_of(entries@);
                assert(now =~= before.push(Entry { name: name@, guid: None, creation: None }));
                assert(now.drop_last() =~= before);
                assert forall|k: Seq<char>| #[trigger]
                    index@.contains_key(k) <==> position(now, k) >= 0 by {}
                assert forall|k: Seq<char>| #[trigger] index@.contains_key(k) implies index@[k]
                    == position(now, k) by {}
                assert forall|i: int, j: int| 0 <= i < j < now.len() implies (#[trigger] now[i]).name
                    != (#[trigger] now[j]).name by {
                    if j < now.len() - 1 {
                        assert(now[i] == before[i] && now[j] == before[j]);
                    } else {
                        assert(now[i] == before[i]);
                    }
                }
            }
            p
        },
    }
}

/// What one line says, with the texts it carries.
enum RowData {
    Foreign,
    Short,
    Guid { name: String, value: String },
    Created { name: String, digits: Vec<char> },
    Other,
}

impl View for RowData {
    type V = Row;

    closed spec fn view(&self) -> Row {
        match self {
            RowData::Foreign => Row::Foreign,
            RowData::Short => Row::Short,
            RowData::Guid { name, value } => Row::Guid { name: name@, value: value@ },
            RowData::Created { name, digits } => Row::Created { name: name@, value: digits@ },
            RowData::Other => Row::Other,
        }
    }
}

fn read_row(line: &str, fs_mark: &Vec<char>) -> (r: RowData)
    requires
        fs_mark@.len() >= 1,
    ensures
        r@ == row_of(line@, fs_mark@.drop_last(), fs_mark@.last()),
{
    let ghost fs = fs_mark@.drop_last();
    let ghost mark = fs_mark@.last();
    assert(fs.push(mark) =~= fs_mark@);
    let v = chars_of(line);
    let fields = split_chars(&v, '\t');
    let ghost all = texts(fields@);
    assert(all[0] == fields@[0]@);
    let head = &fields[0];
    if !has_prefix(head, fs_mark) {
        return RowData::Foreign;
    }
    if fields.len() < 3 {
        return RowData::Short;
    }
    assert(all[1] == fields@[1]@ && all[2] == fields@[2]@);
    let n: usize = head.len();
    let name = string_of(head, fs_mark.len(), n);
    assert(head@.subrange(fs_mark@.len() as int, n as int) =~= head@.skip(fs.len() as int + 1));
    let guid = chars_of("guid");
    let creation = chars_of("creation");
    if chars_eq(&fields[1], &guid) {
        RowData::Guid { name, value: to_string(&fields[2]) }
    } else if chars_eq(&fields[1], &creation) {
        let mut digits: Vec<char> = Vec::new();
        let m: usize = fields[2].len();
        push_range(&mut digits, &fields[2], 0, m);
        assert(digits@ =~= fields@[2]@);
        RowData::Created { name, digits }
    } else {
        RowData::Other
    }
}

proof fn lemma_first_incomplete_is(entries: Seq<Entry>, k: int)
    requires
        0 <= k <= entries.len(),
        forall|i: int| 0 <= i < k ==> entries[i].guid is Some && entries[i].creation is Some,
        k < entries.len() ==> entries[k].guid is None || entries[k].creation is None,
    ensures
        first_incomplete(entries) == k,
    decreases entries.len(),
{
    if entries.len() == 0 || entries[0].guid is None || entries[0].creation is None {
    } else {
        let t = entries.drop_first();
        assert forall|i: int| 0 <= i < k - 1 implies t[i].guid is Some && t[i].creation is Some by {
            assert(t[i] == entries[i + 1]);
        }
        if k < entries.len() {
            assert(t[k - 1] == entries[k]);
        }
        lemma_first_incomplete_is(t, k - 1);
    }
}

proof fn lemma_completed_distinct(entries: Seq<Entry>)
    requires
        names_distinct(entries),
    ensures
        distinct_names(completed(entries)),
{
    let c = completed(entries);
    assert forall|i: int, j: int| 0 <= i < j < c.len() implies (#[trigger] c[i]).name != (
    #[trigger] c[j]).name by {
        assert(entries[i].name != entries[j].name);
    }
}

/// The catalog that a listing gives, in the order in which the names first
/// came. `mark` is `@` for snapshots and `#` for bookmarks.
pub fn read_listing(lines: &Vec<String>, fs: &str, mark: char) -> (r: Result<
    Vec<Snapshot<String>>,
    CatalogError,
>)
    ensures
        match listing(lines.deep_view(), fs@, mark) {
            Ok(all) => r matches Ok(v) && catalog(v@) == all && distinct_names(all),
            Err(e) => r matches Err(x) && x@ == e,
        },
{
    let mut fs_mark = chars_of(fs);
    fs_mark.push(mark);
    assert(fs_mark@.drop_last() =~= fs@);
    let ghost input = lines.deep_view();
    let mut entries: Vec<Partial> = Vec::new();
    let mut index: StringHashMap<usize> = StringHashMap::new();
    let mut counter: usize = 0;
    let mut i: usize = 0;
    assert(input.skip(0) =~= input);
    assert(entries_of(entries@) =~= Seq::<Entry>::empty());
    while i < lines.len()
        invariant
            i <= lines.len(),
            input == lines.deep_view(),
            fs_mark@.len() >= 1,
            fs_mark@.drop_last() == fs@,
            fs_mark@.last() == mark,
            counter <= i,
            indexed(index@, entries_of(entries@)),
            names_distinct(entries_of(entries@)),
            gather_all(input, fs@, mark, Gathered { entries: Seq::empty(), counter: 0 })
                == gather_all(
                input.skip(i as int),
                fs@,
                mark,
                Gathered { entries: entries_of(entries@), counter: counter as nat },
            ),
        decreases lines.len() - i,
    {
        let ghost g = Gathered { entries: entries_of(entries@), counter: counter as nat };
        proof {
            assert(input.skip(i as int)[0] == lines@[i as int]@);
            assert(input.skip(i as int).drop_first() =~= input.skip(i + 1));
        }
        match read_row(lines[i].as_str(), &fs_mark) {
            RowData::Foreign => {},
            RowData::Other => {},
            RowData::Short => {
                return Err(CatalogError::TooFewFields);
            },
            RowData::Guid { name, value } => {
                let p = slot_for(&mut entries, &mut index, name.as_str());
                let ghost e = entries_of(entries@);
                let creation = entries[p].creation;
                entries.set(p, Partial { name, guid: Some(value), creation });
                proof {
                    let now = entries_of(entries@);
                    assert(now =~= e.update(
                        p as int,
                        Entry { name: name@, guid: Some(value@), creation: e[p as int].creation },
                    ));
                    assert forall|j: int| 0 <= j < now.len() implies now[j].name == e[j].name by {}
                    assert forall|k: Seq<char>| position(now, k) == position(e, k) by {
                        lemma_position_same_names(now, e, k);
                    }
                }
            },
            RowData::Created { name, digits } => {
                let p = slot_for(&mut entries, &mut index, name.as_str());
                let ghost e = entries_of(entries@);
                let m: usize = digits.len();
                assert(digits@.subrange(0, m as int) =~= digits@);
                match parse_decimal(&digits, 0, m) {
                    Some(c) => {
                        let guid = match &entries[p].guid {
                            Some(g) => Some(g.clone()),
                            None => None,
                        };
                        entries.set(
                            p,
                            Partial { name, guid, creation: Some(Creation::fake_new(c, counter)) },
                        );
                        proof {
                            let now = entries_of(entries@);
                            assert(now =~= e.update(
                                p as int,
                                Entry {
                                    name: name@,
                                    guid: e[p as int].guid,
                                    creation: Some(Creation { creation: c, idx: counter }),
                                },
                            ));
                            assert forall|j: int| 0 <= j < now.len() implies now[j].name
                                == e[j].name by {}
                            assert forall|k: Seq<char>| position(now, k) == position(e, k) by {
                                lemma_position_same_names(now, e, k);
                            }
                        }
                        counter += 1;
                    },
                    None => {},
                }
            },
        }
        i += 1;
    }
    assert(input.skip(lines.len() as int) =~= Seq::<Seq<char>>::empty());
    let ghost done = entries_of(entries@);
    let mut out: Vec<Snapshot<String>> = Vec::new();
    let mut k: usize = 0;
    assert(catalog(out@) =~= completed(done).take(0));
    while k < entries.len()
        invariant
            k <= entries.len(),
            done == entries_of(entries@),
            gather_all(
                lines.deep_view(),
                fs@,
                mark,
                Gathered { entries: Seq::empty(), counter: 0 },
            ) == Ok::<Gathered, CatalogFault>(Gathered { entries: done, counter: counter as nat }),
            forall|j: int| 0 <= j < k ==> done[j].guid is Some && done[j].creation is Some,
            catalog(out@) == completed(done).take(k as int),
        decreases entries.len() - k,
    {
        let entry = &entries[k];
        assert(done[k as int] == entry@);
        match (&entry.guid, entry.creation) {
            (Some(guid), Some(creation)) => {
                let ghost before = catalog(out@);
                let snapshot = Snapshot::new(entry.name.clone(), guid.clone(), creation);
                assert(snapshot@ == completed(done)[k as int]);
                out.push(snapshot);
                assert(catalog(out@) =~= before.push(snapshot@));
                assert(catalog(out@) =~= completed(done).take(k + 1));
            },
            _ => {
                proof {
                    lemma_first_incomplete_is(done, k as int);
                }
                return Err(CatalogError::Incomplete(entry.name.clone()));
            },
        }
        k += 1;
    }
    proof {
        lemma_first_incomplete_is(done, entries.len() as int);
        assert(completed(done).take(entries.len() as int) =~= completed(done));
        lemma_completed_distinct(done);
    }
    Ok(out)
}

/// What the filter takes of a catalog with one more snapshot at its end.
pub proof fn lemma_kept_push(all: Seq<SnapshotModel>, x: SnapshotModel, filter: &SnapFilter)
    ensures
        kept(all.push(x), filter) == (if filter.includes(x.name) {
            kept(all, filter).push(x)
        } else {
            kept(all, filter)
        }),
{
    assert(all.push(x).drop_last() =~= all);
}

/// What the filter keeps is part of what it was given, in the same order.
pub proof fn lemma_kept_is_part(all: Seq<SnapshotModel>, filter: &SnapFilter)
    requires
        distinct_names(all),
    ensures
        distinct_names(kept(all, filter)),
        forall|i: int|
            0 <= i < kept(all, filter).len() ==> all.contains(#[trigger] kept(all, filter)[i])
                && filter.includes(kept(all, filter)[i].name),
    decreases all.len(),
{
    if all.len() > 0 {
        let d = all.drop_last();
        assert forall|i: int, j: int| 0 <= i < j < d.len() implies (#[trigger] d[i]).name != (
        #[trigger] d[j]).name by {
            assert(d[i] == all[i] && d[j] == all[j]);
        }
        lemma_kept_is_part(d, filter);
        let k = kept(all, filter);
        let kd = kept(d, filter);
        assert forall|i: int| 0 <= i < k.len() implies all.contains(#[trigger] k[i])
            && filter.includes(k[i].name) by {
            if i < kd.len() {
                assert(k[i] == kd[i]);
                assert(d.contains(kd[i]));
                let m = choose|m: int| 0 <= m < d.len() && d[m] == kd[i];
                assert(all[m] == kd[i]);
            } else {
                assert(k[i] == all[all.len() - 1]);
            }
        }
        assert forall|i: int, j: int| 0 <= i < j < k.len() implies (#[trigger] k[i]).name != (
        #[trigger] k[j]).name by {
            if j < kd.len() {
                assert(k[i] == kd[i] && k[j] == kd[j]);
            } else {
                assert(k[j] == all[all.len() - 1]);
                assert(k[i] == kd[i]);
                assert(d.contains(kd[i]));
                let m = choose|m: int| 0 <= m < d.len() && d[m] == kd[i];
                assert(all[m].name != all[all.len() - 1].name);
            }
        }
    }
}

/// Keeps the snapshots that the filter takes, in order.
pub fn filter_snapshots(all: Vec<Snapshot<String>>, filter: &SnapFilter) -> (r: Vec<Snapshot<String>>)
    ensures
        catalog(r@) == kept(catalog(all@), filter),
{
    let mut out: Vec<Snapshot<String>> = Vec::new();
    let ghost whole = catalog(all@);
    let mut rest = all;
    // take the entries from the end, then put them back in order
    let mut rev: Vec<Snapshot<String>> = Vec::new();
    while rest.len() > 0
        invariant
            catalog(rest@) + catalog(rev@).reverse() == whole,
        decreases rest.len(),
    {
        let ghost before = catalog(rest@);
        let ghost back = catalog(rev@);
        match rest.pop() {
            Some(s) => {
                rev.push(s);
                proof {
                    assert(catalog(rest@) =~= before.drop_last());
                    assert(catalog(rev@) =~= back.push(s@));
                    assert(catalog(rest@) + catalog(rev@).reverse() =~= before + back.reverse());
                }
            },
            None => {},
        }
    }
    assert(catalog(rev@).reverse() =~= whole);
    assert(catalog(out@) =~= kept(whole.take(0), filter));
    let ghost n = whole.len();
    while rev.len() > 0
        invariant
            n == whole.len(),
            rev@.len() <= n,
            catalog(rev@) == whole.reverse().take(rev@.len() as int),
            catalog(out@) == kept(whole.take(n - rev@.len()), filter),
        decreases rev.len(),
    {
        let ghost left = rev@.len();
        let ghost done = whole.take(n - left);
        let ghost back = catalog(rev@);
        match rev.pop() {
            Some(s) => {
                proof {
                    assert(s@ == back[left - 1]);
                    assert(s@ == whole.reverse()[left - 1]);
                    assert(s@ == whole[n - left]);
                    assert(done.push(s@) =~= whole.take(n - left + 1));
                    lemma_kept_push(done, s@, filter);
                    assert(catalog(rev@) =~= whole.reverse().take(left - 1));
                }
                if filter.snap_is_included(s.name.as_str()) {
                    let ghost before = catalog(out@);
                    out.push(s);
                    assert(catalog(out@) =~= before.push(s@));
                }
            },
            None => {},
        }
    }
    assert(whole.take(n as int) =~= whole);
    out
}

/// Why a line of a listing adds nothing to the catalog.
#[derive(Debug, Clone, Copy, PartialEq, Eq, Structural)]
pub enum Note {
    /// The line is about another dataset, or about no snapshot of this one.
    Foreign,
    /// The line gives a creation time that is no number.
    BadCreation,
    /// The line gives a property other than GUID and creation time.
    OtherProperty,
}

/// What is to be noted of a row, if it adds nothing.
pub open spec fn note_of(row: Row) -> Option<Note> {
    match row {
        Row::Foreign => Some(Note::Foreign),
        Row::Other => Some(Note::OtherProperty),
        Row::Created { name, value } => if parse_u64(value) is None {
            Some(Note::BadCreation)
        } else {
            None
        },
        _ => None,
    }
}

/// The lines that add nothing to the catalog, by their position and in
/// order, each with the reason.
pub open spec fn passed_over(lines: Seq<Seq<char>>, fs: Seq<char>, mark: char) -> Seq<(usize, Note)>
    decreases lines.len(),
{
    if lines.len() == 0 {
        Seq::empty()
    } else {
        let before = passed_over(lines.drop_last(), fs, mark);
        match note_of(row_of(lines.last(), fs, mark)) {
            Some(note) => before.push(((lines.len() - 1) as usize, note)),
            None => before,
        }
    }
}

/// The lines of a listing that the reading passes over, so that they can be
/// reported: lines about another dataset, creation times that are no number,
/// and properties that were not asked for. `mark` is `@` for snapshots and
/// `#` for bookmarks.
pub fn skipped_rows(lines: &Vec<String>, fs: &str, mark: char) -> (r: Vec<(usize, Note)>)
    ensures
        r@ == passed_over(lines.deep_view(), fs@, mark),
{
    let mut fs_mark = chars_of(fs);
    fs_mark.push(mark);
    assert(fs_mark@.drop_last() =~= fs@);
    let ghost input = lines.deep_view();
    let mut out: Vec<(usize, Note)> = Vec::new();
    let mut i: usize = 0;
    while i < lines.len()
        invariant
            i <= lines.len(),
            input == lines.deep_view(),
            fs_mark@.len() >= 1,
            fs_mark@.drop_last() == fs@,
            fs_mark@.last() == mark,
            out@ == passed_over(input.take(i as int), fs@, mark),
        decreases lines.len() - i,
    {
        proof {
            assert(input.take(i + 1).drop_last() =~= input.take(i as int));
            assert(input.take(i + 1).last() == lines@[i as int]@);
        }
        match read_row(lines[i].as_str(), &fs_mark) {
            RowData::Foreign => out.push((i, Note::Foreign)),
            RowData::Other => out.push((i, Note::OtherProperty)),
            RowData::Created { name, digits } => {
                let m: usize = digits.len();
                assert(digits@.subrange(0, m as int) =~= digits@);
                if parse_decimal(&digits, 0, m).is_none() {
                    out.push((i, Note::BadCreation));
                }
            },
            _ => {},
        }
        i += 1;
    }
    assert(input.take(lines.len() as int) =~= input);
    out
}

/// The snapshots of the dataset `fs`, read from the lines of the listing,
/// filtered and sorted by creation time and name.
pub fn get_snaps(lines: &Vec<String>, fs: &str, filter: &SnapFilter) -> (r: Result<
    Vec<Snapshot<String>>,
    CatalogError,
>)
    ensures
        match listing(lines.deep_view(), fs@, '@') {
            Ok(all) => r matches Ok(v) && sorted(catalog(v@)) && distinct_names(catalog(v@))
                && catalog(v@).to_multiset() == kept(all, filter).to_multiset(),
            Err(e) => r matches Err(x) && x@ == e,
        },
{
    listed(lines, fs, '@', filter)
}

/// The bookmarks of the dataset `fs`, read from the lines of the listing,
/// filtered and sorted. A pool that knows no bookmarks, which the first line
/// of the error output tells, has none.
pub fn get_bookmarks(stderr: &str, lines: &Vec<String>, fs: &str, filter: &SnapFilter) -> (r: Result<
    Vec<Snapshot<String>>,
    CatalogError,
>)
    ensures
        if bookmarks_unsupported(stderr@) {
            r matches Ok(v) && v@.len() == 0
        } else {
            match listing(lines.deep_view(), fs@, '#') {
                Ok(all) => r matches Ok(v) && sorted(catalog(v@)) && distinct_names(catalog(v@))
                    && catalog(v@).to_multiset() == kept(all, filter).to_multiset(),
                Err(e) => r matches Err(x) && x@ == e,
            }
        },
{
    let err = chars_of(stderr);
    let end: usize = find_char(&err, 0, '\n');
    assert(err@.skip(0) =~= err@);
    let mut first: Vec<char> = Vec::new();
    push_range(&mut first, &err, 0, end);
    assert(first@ =~= first_line(stderr@));
    let invalid = chars_of("invalid type");
    let inapplicable = chars_of("operation not applicable to datasets of this type");
    if contains(&first, &invalid) || contains(&first, &inapplicable) {
        return Ok(Vec::new());
    }
    listed(lines, fs, '#', filter)
}

fn listed(lines: &Vec<String>, fs: &str, mark: char, filter: &SnapFilter) -> (r: Result<
    Vec<Snapshot<String>>,
    CatalogError,
>)
    ensures
        match listing(lines.deep_view(), fs@, mark) {
            Ok(all) => r matches Ok(v) && sorted(catalog(v@)) && distinct_names(catalog(v@))
                && catalog(v@).to_multiset() == kept(all, filter).to_multiset(),
            Err(e) => r matches Err(x) && x@ == e,
        },
{
    match read_listing(lines, fs, mark) {
        Err(e) => Err(e),
        Ok(all) => {
            let ghost whole = catalog(all@);
            let mut v = filter_snapshots(all, filter);
            let ghost before = catalog(v@);
            sort_snapshots(&mut v);
            proof {
                lemma_kept_is_part(whole, filter);
                crate::order::lemma_distinct_names_of_rearranged(before, catalog(v@));
            }
            Ok(v)
        },
    }
}

} // verus!
