//! The provider's records of one zone, indexed by name.
//!
//! The provider hands its records out page by page. Each page is absorbed into two
//! maps from record name to record identifier, one for A records and one for AAAA
//! records; records of any other type are passed over.

use vstd::prelude::*;
use crate::error::ZoneError;
use crate::views::views;

verus! {

/// What a map from record name to record identifier holds.
pub type NameIndex = Map<Seq<char>, Seq<char>>;

/// The type of a remote record, as far as this crate tells types apart.
#[derive(Clone, Copy, Debug, PartialEq, Eq)]
pub enum RecordKind {
    A,
    AAAA,
    Other,
}

/// One record as the provider lists it.
#[derive(Clone, Debug, PartialEq, Eq)]
pub struct RemoteRecord {
    /// The identifier the provider gave the record.
    pub id: String,
    /// The record's name.
    pub name: String,
    /// The record's type.
    pub kind: RecordKind,
}

/// A [`RemoteRecord`] with its strings as sequences of characters.
pub struct RemoteRecordView {
    pub id: Seq<char>,
    pub name: Seq<char>,
    pub kind: RecordKind,
}

impl View for RemoteRecord {
    type V = RemoteRecordView;

    open spec fn view(&self) -> RemoteRecordView {
        RemoteRecordView { id: self.id@, name: self.name@, kind: self.kind }
    }
}

/// `index` after the records of type `kind` among `records` were entered in order,
/// each under its name. A later record replaces an earlier one of the same name.
pub open spec fn indexed(index: NameIndex, records: Seq<RemoteRecordView>, kind: RecordKind)
    -> NameIndex
    decreases records.len(),
{
    if records.len() == 0 {
        index
    } else {
        let before = indexed(index, records.drop_last(), kind);
        let record = records.last();
        if record.kind == kind {
            before.insert(record.name, record.id)
        } else {
            before
        }
    }
}

/// A map from record name to record identifier.
#[derive(Debug, PartialEq, Eq)]
#[verifier::external_body]
pub struct RecordIds {
    inner: hashbrown::HashMap<String, String>,
}

/// The entries of `ids`: for each name it holds, the identifier stored under it.
pub uninterp spec fn record_ids(ids: RecordIds) -> Map<Seq<char>, Seq<char>>;

/// `hashbrown::HashMap::new`: a map without entries.
#[verifier::external_body]
fn ids_new() -> (ids: RecordIds)
    ensures
        record_ids(ids) == NameIndex::empty(),
{
    RecordIds { inner: hashbrown::HashMap::new() }
}

/// `hashbrown::HashMap::insert`: afterwards `name` leads to `id`, whether or not
/// it led anywhere before, and every other name leads where it did.
#[verifier::external_body]
fn ids_insert(ids: &mut RecordIds, name: String, id: String)
    ensures
        record_ids(*final(ids)) == record_ids(*old(ids)).insert(name@, id@),
{
    ids.inner.insert(name, id);
}

/// `hashbrown::HashMap::get`: the identifier stored under `name`, if there is one.
#[verifier::external_body]
fn ids_get<'a>(ids: &'a RecordIds, name: &str) -> (id: Option<&'a String>)
    ensures
        id is Some <==> record_ids(*ids).contains_key(name@),
        id is Some ==> id->0@ == record_ids(*ids)[name@],
{
    ids.inner.get(name)
}

/// The record identifiers of one zone, by record name: one map for the A records
/// and one for the AAAA records.
#[derive(Debug, PartialEq, Eq)]
pub struct RecordMaps {
    a: RecordIds,
    aaaa: RecordIds,
}

/// What a [`RecordMaps`] holds.
pub struct RecordMapsView {
    pub a: NameIndex,
    pub aaaa: NameIndex,
}

impl RecordMapsView {
    /// No record of either type.
    pub open spec fn empty() -> RecordMapsView {
        RecordMapsView { a: Map::empty(), aaaa: Map::empty() }
    }

    /// These maps after one more page of records.
    pub open spec fn absorb(self, records: Seq<RemoteRecordView>) -> RecordMapsView {
        RecordMapsView {
            a: indexed(self.a, records, RecordKind::A),
            aaaa: indexed(self.aaaa, records, RecordKind::AAAA),
        }
    }
}

impl View for RecordMaps {
    type V = RecordMapsView;

    closed spec fn view(&self) -> RecordMapsView {
        RecordMapsView { a: record_ids(self.a), aaaa: record_ids(self.aaaa) }
    }
}

impl RecordMaps {
    /// Maps that hold no record yet.
    pub fn new() -> (maps: RecordMaps)
        ensures
            maps@ == RecordMapsView::empty(),
    {
        RecordMaps { a: ids_new(), aaaa: ids_new() }
    }

    /// Enters one page of records: A records into the A map, AAAA records into the
    /// AAAA map, each under its name, in the order of the page.
    pub fn absorb(&mut self, records: &Vec<RemoteRecord>)
        ensures
            final(self)@ == old(self)@.absorb(views(records@)),
    {
        let ghost all = views(records@);
        let mut i: usize = 0;
        while i < records.len()
            invariant
                i <= records.len(),
                all == views(records@),
                self@ == old(self)@.absorb(all.take(i as int)),
            decreases records.len() - i,
        {
            let record = &records[i];
            proof {
                assert(all.take(i + 1).drop_last() =~= all.take(i as int));
                assert(all.take(i + 1).last() == record@);
            }
            match record.kind {
                RecordKind::A => {
                    ids_insert(&mut self.a, record.name.clone(), record.id.clone());
                },
                RecordKind::AAAA => {
                    ids_insert(&mut self.aaaa, record.name.clone(), record.id.clone());
                },
                RecordKind::Other => {},
            }
            i += 1;
        }
        proof {
            assert(all.take(records.len() as int) =~= all);
        }
    }

    /// The identifier of the A record called `name`, if the zone has one.
    pub fn a_id(&self, name: &str) -> (id: Option<&String>)
        ensures
            id is Some <==> self@.a.contains_key(name@),
            id is Some ==> id->0@ == self@.a[name@],
    {
        ids_get(&self.a, name)
    }

    /// The identifier of the AAAA record called `name`, if the zone has one.
    pub fn aaaa_id(&self, name: &str) -> (id: Option<&String>)
        ensures
            id is Some <==> self@.aaaa.contains_key(name@),
            id is Some ==> id->0@ == self@.aaaa[name@],
    {
        ids_get(&self.aaaa, name)
    }
}

/// Entering two pages one after the other is entering their concatenation.
pub proof fn lemma_indexed_concat(
    index: NameIndex,
    first: Seq<RemoteRecordView>,
    second: Seq<RemoteRecordView>,
    kind: RecordKind,
)
    ensures
        indexed(indexed(index, first, kind), second, kind) == indexed(index, first + second, kind),
    decreases second.len(),
{
    if second.len() == 0 {
        assert(first + second =~= first);
    } else {
        lemma_indexed_concat(index, first, second.drop_last(), kind);
        assert((first + second).drop_last() =~= first + second.drop_last());
        assert((first + second).last() == second.last());
    }
}

/// Whether `records[i]` is a record of type `kind` called `name`.
pub open spec fn is_named(records: Seq<RemoteRecordView>, kind: RecordKind, name: Seq<char>, i: int)
    -> bool {
    0 <= i < records.len() && records[i].kind == kind && records[i].name == name
}

/// Whether `records[i]` is the last record of type `kind` called `name`.
pub open spec fn is_last_named(
    records: Seq<RemoteRecordView>,
    kind: RecordKind,
    name: Seq<char>,
    i: int,
) -> bool {
    &&& is_named(records, kind, name, i)
    &&& forall|j: int| i < j ==> !#[trigger] is_named(records, kind, name, j)
}

/// What an index holds after `records` were entered: a name is in it exactly if it
/// was before or some record of the type carries it, and it leads to the identifier
/// of the last such record, or where it led before if there is none.
pub proof fn lemma_indexed_lookup(
    index: NameIndex,
    records: Seq<RemoteRecordView>,
    kind: RecordKind,
    name: Seq<char>,
)
    ensures
        indexed(index, records, kind).contains_key(name) <==> (index.contains_key(name) || exists|
            i: int,
        | is_named(records, kind, name, i)),
        forall|i: int| #[trigger]
            is_last_named(records, kind, name, i) ==> indexed(index, records, kind)[name]
                == records[i].id,
        (forall|i: int| !is_named(records, kind, name, i)) ==> indexed(index, records, kind)[name]
            == index[name],
    decreases records.len(),
{
    if records.len() > 0 {
        let shorter = records.drop_last();
        let end = records.len() - 1;
        lemma_indexed_lookup(index, shorter, kind, name);
        assert forall|i: int| i != end implies is_named(shorter, kind, name, i) == is_named(
            records,
            kind,
            name,
            i,
        ) by {}
        assert(!is_named(shorter, kind, name, end));
        if is_named(records, kind, name, end) {
            assert forall|i: int| #[trigger] is_last_named(records, kind, name, i) implies i
                == end by {
                if i < end {
                    assert(!is_named(records, kind, name, end));
                }
            }
        } else {
            assert forall|i: int| #[trigger]
                is_last_named(records, kind, name, i) implies is_last_named(
                shorter,
                kind,
                name,
                i,
            ) by {
                assert(i != end);
                assert forall|j: int| i < j implies !#[trigger] is_named(
                    shorter,
                    kind,
                    name,
                    j,
                ) by {
                    if j != end {
                        assert(!is_named(records, kind, name, j));
                    }
                }
            }
            if exists|i: int| is_named(records, kind, name, i) {
                let i = choose|i: int| is_named(records, kind, name, i);
                assert(is_named(shorter, kind, name, i));
            }
            if exists|i: int| is_named(shorter, kind, name, i) {
                let i = choose|i: int| is_named(shorter, kind, name, i);
                assert(is_named(records, kind, name, i));
            }
        }
    }
}

/// Among the records of a type that carry a name, one is the last.
pub proof fn lemma_last_named_exists(
    records: Seq<RemoteRecordView>,
    kind: RecordKind,
    name: Seq<char>,
    i: int,
)
    requires
        is_named(records, kind, name, i),
    ensures
        exists|last: int| i <= last && is_last_named(records, kind, name, last),
    decreases records.len() - i,
{
    if exists|j: int| i < j && is_named(records, kind, name, j) {
        let j = choose|j: int| i < j && is_named(records, kind, name, j);
        lemma_last_named_exists(records, kind, name, j);
        let last = choose|last: int| j <= last && is_last_named(records, kind, name, last);
        assert(i <= last && is_last_named(records, kind, name, last));
    } else {
        assert(is_last_named(records, kind, name, i));
    }
}

/// The paging information that came with one page of records.
#[derive(Clone, Copy, Debug, PartialEq, Eq)]
pub struct PageInfo {
    pub count: u32,
    pub page: u32,
    pub per_page: u32,
    pub total_count: u32,
    pub total_pages: u32,
}

/// What a page of records said about paging.
#[derive(Clone, Copy, Debug, PartialEq, Eq)]
pub enum PageReport {
    /// The page came without paging information.
    Absent,
    /// The page came with paging information that cannot be read.
    Malformed,
    /// The page came with this paging information.
    Present(PageInfo),
}

/// What to do once a page of records has been absorbed.
#[derive(Clone, Copy, Debug, PartialEq, Eq)]
pub enum PageStep {
    /// The listing is complete.
    Complete,
    /// The page with this number is to be asked for.
    Next(u32),
    /// The listing cannot go on.
    Failed(ZoneError),
}

/// What follows page number `page`, given what that page said about paging.
///
/// The listing ends with a page that says nothing about paging, or whose total
/// number of pages is the number of the page itself.
pub open spec fn after_page(page: u32, report: PageReport) -> PageStep {
    match report {
        PageReport::Absent => PageStep::Complete,
        PageReport::Malformed => PageStep::Failed(ZoneError::UnexpectedResponse),
        PageReport::Present(info) => if info.total_pages == page {
            PageStep::Complete
        } else if page == u32::MAX {
            PageStep::Failed(ZoneError::PageCounterOverflow)
        } else {
            PageStep::Next((page + 1) as u32)
        },
    }
}

/// Decides what follows page number `page`.
pub fn next_page(page: u32, report: PageReport) -> (step: PageStep)
    ensures
        step == after_page(page, report),
        step matches PageStep::Next(next) ==> next == page + 1,
{
    match report {
        PageReport::Absent => PageStep::Complete,
        PageReport::Malformed => PageStep::Failed(ZoneError::UnexpectedResponse),
        PageReport::Present(info) => {
            if info.total_pages == page {
                PageStep::Complete
            } else {
                match page.checked_add(1) {
                    Some(next) => PageStep::Next(next),
                    None => PageStep::Failed(ZoneError::PageCounterOverflow),
                }
            }
        },
    }
}

/// One page of a zone's records.
#[derive(Clone, Debug, PartialEq, Eq)]
pub struct RecordPage {
    /// The records on the page, in the provider's order.
    pub records: Vec<RemoteRecord>,
    /// What the provider said about paging.
    pub page_info: PageReport,
}

/// A [`RecordPage`] with its strings as sequences of characters.
pub struct RecordPageView {
    pub records: Seq<RemoteRecordView>,
    pub page_info: PageReport,
}

impl View for RecordPage {
    type V = RecordPageView;

    open spec fn view(&self) -> RecordPageView {
        RecordPageView { records: views(self.records@), page_info: self.page_info }
    }
}

} // verus!
