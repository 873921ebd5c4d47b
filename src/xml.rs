//! GPU catalog entries and the records of the catalog's XML answer.
use std::cmp::Ordering;
use crate::text::{chars_of, ends_with_at};
use vstd::prelude::*;

verus! {

/// One GPU of the catalog. Names are not unique: entries that share a name
/// but differ in their ids are all kept.
#[derive(Clone, Debug)]
pub struct XmlGpuEntry {
    /// Display name, e.g. "GeForce RTX 3090 Ti".
    pub name: String,
    /// Series id (the record's `ParentID`), e.g. 120.
    pub series: u16,
    /// Device id (the record's `Value`), e.g. 985.
    pub id: u16,
}

impl PartialEq for XmlGpuEntry {
    fn eq(&self, other: &XmlGpuEntry) -> (r: bool) {
        self.series == other.series && self.id == other.id && self.name == other.name
    }
}

impl vstd::std_specs::cmp::PartialEqSpecImpl for XmlGpuEntry {
    open spec fn obeys_eq_spec() -> bool {
        true
    }

    open spec fn eq_spec(&self, other: &XmlGpuEntry) -> bool {
        self.name@ == other.name@ && self.series == other.series && self.id == other.id
    }
}

impl XmlGpuEntry {
    /// A copy of this entry.
    pub fn duplicate(&self) -> (r: XmlGpuEntry)
        ensures
            r == *self,
    {
        XmlGpuEntry { name: self.name.clone(), series: self.series, id: self.id }
    }
}

/// The `Name` element of a catalog record.
#[derive(Clone, Debug)]
pub struct Name {
    pub value: String,
}

/// The `Value` element of a catalog record.
#[derive(Clone, Copy, Debug)]
pub struct Value {
    pub value: u16,
}

/// One `LookupValue` record of the catalog.
#[derive(Clone, Debug)]
pub struct LookupValue {
    /// `ParentID`: the series the GPU belongs to.
    pub parentid: u16,
    pub name: Name,
    pub value: Value,
}

/// The `LookupValues` element: the list of records.
#[derive(Clone, Debug)]
pub struct LookupValues {
    pub lookupvalue: Vec<LookupValue>,
}

/// The root element of the catalog's answer.
#[derive(Clone, Debug)]
pub struct LookupValueSearch {
    pub lookupvalues: LookupValues,
}

/// The catalog entry a record describes.
pub open spec fn entry_of(record: LookupValue) -> XmlGpuEntry {
    XmlGpuEntry { name: record.name.value, series: record.parentid, id: record.value.value }
}

impl LookupValueSearch {
    /// The catalog entries of the records, in record order, one per record.
    pub fn gpu_entries(&self) -> (r: Vec<XmlGpuEntry>)
        ensures
            r@ == self.lookupvalues.lookupvalue@.map_values(|l: LookupValue| entry_of(l)),
    {
        let records = &self.lookupvalues.lookupvalue;
        let mut entries: Vec<XmlGpuEntry> = Vec::new();
        let mut i: usize = 0;
        while i < records.len()
            invariant
                i <= records@.len(),
                entries@ == records@.subrange(0, i as int).map_values(|l: LookupValue| entry_of(l)),
            decreases records@.len() - i,
        {
            let record = &records[i];
            let entry = XmlGpuEntry {
                name: record.name.value.clone(),
                series: record.parentid,
                id: record.value.value,
            };
            entries.push(entry);
            assert(entries@ =~= records@.subrange(0, i + 1).map_values(
                |l: LookupValue| entry_of(l),
            ));
            i = i + 1;
        }
        assert(records@.subrange(0, i as int) =~= records@);
        entries
    }
}

/// Orders entries by device id, highest first.
pub fn by_id_descending(a: &XmlGpuEntry, b: &XmlGpuEntry) -> (r: Ordering)
    ensures
        r == (if a.id > b.id {
            Ordering::Less
        } else if a.id < b.id {
            Ordering::Greater
        } else {
            Ordering::Equal
        }),
{
    if a.id > b.id {
        Ordering::Less
    } else if a.id < b.id {
        Ordering::Greater
    } else {
        Ordering::Equal
    }
}

/// The test that picks the entries with device id `id`.
pub open spec fn has_id(id: u16) -> spec_fn(XmlGpuEntry) -> bool {
    |e: XmlGpuEntry| e.id == id
}

/// `sorted` holds the entries of `unsorted` by device id, highest first; entries
/// with equal ids keep the order they had in `unsorted`.
pub open spec fn sorted_by_id_desc(sorted: Seq<XmlGpuEntry>, unsorted: Seq<XmlGpuEntry>) -> bool {
    &&& sorted.len() == unsorted.len()
    &&& forall|i: int, j: int| 0 <= i < j < sorted.len() ==> sorted[i].id >= sorted[j].id
    &&& forall|id: u16| #[trigger] sorted.filter(has_id(id)) == unsorted.filter(has_id(id))
}

/// Relies on slice::sort_by: it reorders the items so that each compares as
/// `Less` or `Equal` to every later one, and it is stable (items that compare
/// `Equal` keep their order).
#[verifier::external_body]
pub(crate) fn sort_by_id_desc(v: &mut Vec<XmlGpuEntry>)
    ensures
        sorted_by_id_desc(final(v)@, old(v)@),
{
    v.sort_by(|a, b| by_id_descending(a, b));
}

/// `needle` occurs in `hay` as a run of consecutive characters.
pub open spec fn contains_seq(hay: Seq<char>, needle: Seq<char>) -> bool {
    exists|i: int|
        0 <= i && i + needle.len() <= hay.len() && #[trigger] hay.subrange(i, i + needle.len())
            == needle
}

/// Whether `needle` occurs in `hay`.
pub fn str_contains(hay: &str, needle: &str) -> (r: bool)
    ensures
        r == contains_seq(hay@, needle@),
{
    let h = chars_of(hay);
    let n = chars_of(needle);
    if n.len() > h.len() {
        assert forall|i: int| 0 <= i && i + n@.len() <= h@.len() implies #[trigger] h@.subrange(
            i,
            i + n@.len(),
        ) != n@ by {}
        return false;
    }
    let mut j: usize = n.len();
    loop
        invariant
            h@ == hay@,
            n@ == needle@,
            n@.len() <= j <= h@.len(),
            forall|e: int| n@.len() <= e < j ==> #[trigger] h@.subrange(e - n@.len(), e) != n@,
        decreases h@.len() - j,
    {
        if ends_with_at(&h, &n, j) {
            let ghost i = j - n@.len();
            assert(h@.subrange(i, i + n@.len()) == n@);
            return true;
        }
        if j == h.len() {
            assert forall|i: int| 0 <= i && i + n@.len() <= h@.len() implies #[trigger] h@.subrange(
                i,
                i + n@.len(),
            ) != n@ by {
                let e = i + n@.len();
                assert(i == e - n@.len());
                if e < j {
                    assert(h@.subrange(e - n@.len(), e) != n@);
                } else {
                    assert(e == j);
                }
            }
            return false;
        }
        j = j + 1;
    }
}

/// The entry's name contains the query.
pub open spec fn matches_query(entry: XmlGpuEntry, query: Seq<char>) -> bool {
    contains_seq(entry.name@, query)
}

/// The test an entry must pass to be shown for `query`.
pub open spec fn query_pred(query: Seq<char>) -> spec_fn(XmlGpuEntry) -> bool {
    |e: XmlGpuEntry| matches_query(e, query)
}

/// The entries whose name contains `query`, in their order.
pub open spec fn spec_filter(all: Seq<XmlGpuEntry>, query: Seq<char>) -> Seq<XmlGpuEntry> {
    all.filter(query_pred(query))
}

/// The entries of `all` whose name contains `query` (case-sensitive), in the
/// order of `all`.
pub fn filter_items(all: &Vec<XmlGpuEntry>, query: &str) -> (r: Vec<XmlGpuEntry>)
    ensures
        r@ == spec_filter(all@, query@),
{
    let mut out: Vec<XmlGpuEntry> = Vec::new();
    let mut i: usize = 0;
    while i < all.len()
        invariant
            i <= all@.len(),
            out@ == spec_filter(all@.subrange(0, i as int), query@),
        decreases all@.len() - i,
    {
        let entry = &all[i];
        let ghost prev = all@.subrange(0, i as int);
        let ghost next = all@.subrange(0, i + 1);
        proof {
            assert(next =~= prev.push(*entry));
            prev.lemma_filter_push(*entry, query_pred(query@));
        }
        if str_contains(entry.name.as_str(), query) {
            out.push(entry.duplicate());
        }
        i = i + 1;
    }
    assert(all@.subrange(0, i as int) =~= all@);
    out
}

/// The first entry of `all` named exactly `name`, if any; used to match a
/// detected GPU against the catalog.
pub fn find_by_name(all: &Vec<XmlGpuEntry>, name: &str) -> (r: Option<XmlGpuEntry>)
    ensures
        r matches Some(e) ==> exists|i: int|
            0 <= i < all@.len() && all@[i] == e && e.name@ == name@ && forall|j: int|
                0 <= j < i ==> (#[trigger] all@[j]).name@ != name@,
        r is None ==> forall|j: int| 0 <= j < all@.len() ==> (#[trigger] all@[j]).name@ != name@,
{
    let mut i: usize = 0;
    while i < all.len()
        invariant
            i <= all@.len(),
            forall|j: int| 0 <= j < i ==> (#[trigger] all@[j]).name@ != name@,
        decreases all@.len() - i,
    {
        if same_text(all[i].name.as_str(), name) {
            let e = all[i].duplicate();
            assert(all@[i as int] == e);
            return Some(e);
        }
        i = i + 1;
    }
    None
}

/// Whether two texts are equal, character for character.
pub fn same_text(a: &str, b: &str) -> (r: bool)
    ensures
        r == (a@ == b@),
{
    let x = chars_of(a);
    let y = chars_of(b);
    if x.len() != y.len() {
        return false;
    }
    let mut i: usize = 0;
    while i < x.len()
        invariant
            x@ == a@,
            y@ == b@,
            x@.len() == y@.len(),
            i <= x@.len(),
            forall|k: int| 0 <= k < i ==> x@[k] == y@[k],
        decreases x@.len() - i,
    {
        if x[i] != y[i] {
            assert(x@[i as int] != y@[i as int]);
            return false;
        }
        i = i + 1;
    }
    assert(x@ =~= y@);
    true
}

proof fn lemma_filter_keeps_passing(s: Seq<XmlGpuEntry>, query: Seq<char>)
    requires
        forall|i: int| 0 <= i < s.len() ==> #[trigger] matches_query(s[i], query),
    ensures
        spec_filter(s, query) == s,
    decreases s.len(),
{
    if s.len() == 0 {
        reveal(Seq::filter);
    } else {
        let prefix = s.drop_last();
        assert forall|i: int| 0 <= i < prefix.len() implies #[trigger] matches_query(
            prefix[i],
            query,
        ) by {
            assert(prefix[i] == s[i]);
        }
        lemma_filter_keeps_passing(prefix, query);
        assert(s =~= prefix.push(s.last()));
        prefix.lemma_filter_push(s.last(), query_pred(query));
    }
}

/// Filtering is idempotent: filtering the result of a filter again by the same
/// query changes nothing.
pub proof fn lemma_filter_idempotent(all: Seq<XmlGpuEntry>, query: Seq<char>)
    ensures
        spec_filter(spec_filter(all, query), query) == spec_filter(all, query),
{
    broadcast use vstd::seq_lib::group_filter_ensures;

    let once = spec_filter(all, query);
    assert forall|i: int| 0 <= i < once.len() implies #[trigger] matches_query(once[i], query) by {
        assert(query_pred(query)(once[i]));
    }
    lemma_filter_keeps_passing(once, query);
}

/// A name that contains a query extended by one character contains the query.
pub proof fn lemma_contains_extended(hay: Seq<char>, query: Seq<char>, c: char)
    requires
        contains_seq(hay, query.push(c)),
    ensures
        contains_seq(hay, query),
{
    let longer = query.push(c);
    let i = choose|i: int|
        0 <= i && i + longer.len() <= hay.len() && #[trigger] hay.subrange(i, i + longer.len())
            == longer;
    assert(hay.subrange(i, i + query.len()) =~= query) by {
        assert forall|k: int| 0 <= k < query.len() implies hay.subrange(i, i + query.len())[k]
            == query[k] by {
            assert(hay.subrange(i, i + longer.len())[k] == longer[k]);
        }
    }
}

/// Extending the query by one character never lets more entries through.
pub proof fn lemma_filter_monotone(all: Seq<XmlGpuEntry>, query: Seq<char>, c: char)
    ensures
        spec_filter(all, query.push(c)).len() <= spec_filter(all, query).len(),
    decreases all.len(),
{
    if all.len() == 0 {
        reveal(Seq::filter);
    } else {
        let prefix = all.drop_last();
        let x = all.last();
        lemma_filter_monotone(prefix, query, c);
        assert(all =~= prefix.push(x));
        prefix.lemma_filter_push(x, query_pred(query));
        prefix.lemma_filter_push(x, query_pred(query.push(c)));
        if matches_query(x, query.push(c)) {
            lemma_contains_extended(x.name@, query, c);
        }
    }
}

} // verus!
