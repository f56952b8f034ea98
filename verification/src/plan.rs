//! The update planner: which remote records of a zone are to be rewritten.
//!
//! For every configured record, in the configured order, the planner looks the
//! record's name up in the zone's index. Where the record exists it plans an update,
//! where it does not it notes the record as missing and goes on.

use vstd::prelude::*;
use crate::address::{compose_address, host_address, AddressPair};
use crate::config::{RecordConfig, RecordConfigView, ZoneConfig};
use crate::error::saturated;
use crate::records::{RecordKind, RecordMaps, RecordMapsView};
use crate::views::{lemma_views_push, views};

verus! {

/// What an updated record is to hold.
#[derive(Clone, Copy, Debug, PartialEq, Eq)]
pub enum RecordContent {
    /// An IPv4 address.
    A(u32),
    /// An IPv6 address.
    AAAA(u128),
}

/// One update of one remote record.
#[derive(Clone, Debug, PartialEq, Eq)]
pub struct PlannedUpdate {
    /// The provider's identifier of the zone.
    pub zone_identifier: String,
    /// The provider's identifier of the record.
    pub identifier: String,
    /// The record's name.
    pub name: String,
    /// The configured time to live.
    pub ttl: Option<u32>,
    /// The configured proxy flag.
    pub proxied: Option<bool>,
    /// What the record is to hold.
    pub content: RecordContent,
}

/// A [`PlannedUpdate`] with its strings as sequences of characters.
pub struct PlannedUpdateView {
    pub zone_identifier: Seq<char>,
    pub identifier: Seq<char>,
    pub name: Seq<char>,
    pub ttl: Option<u32>,
    pub proxied: Option<bool>,
    pub content: RecordContent,
}

impl View for PlannedUpdate {
    type V = PlannedUpdateView;

    open spec fn view(&self) -> PlannedUpdateView {
        PlannedUpdateView {
            zone_identifier: self.zone_identifier@,
            identifier: self.identifier@,
            name: self.name@,
            ttl: self.ttl,
            proxied: self.proxied,
            content: self.content,
        }
    }
}

/// A configured record that the zone does not have.
#[derive(Clone, Debug, PartialEq, Eq)]
pub struct MissingRecord {
    /// The configured name.
    pub name: String,
    /// The type under which the name was looked for.
    pub kind: RecordKind,
}

/// A [`MissingRecord`] with its name as a sequence of characters.
pub struct MissingRecordView {
    pub name: Seq<char>,
    pub kind: RecordKind,
}

impl View for MissingRecord {
    type V = MissingRecordView;

    open spec fn view(&self) -> MissingRecordView {
        MissingRecordView { name: self.name@, kind: self.kind }
    }
}

/// What is to be done in one zone.
#[derive(Clone, Debug, PartialEq, Eq)]
pub struct ZonePlan {
    /// The updates to send, in the order they were planned.
    pub updates: Vec<PlannedUpdate>,
    /// The configured records that the zone does not have.
    pub missing: Vec<MissingRecord>,
    /// The number of missing records, held at the largest `u32`.
    pub errors: u32,
}

/// A [`ZonePlan`] with its strings as sequences of characters.
pub struct ZonePlanView {
    pub updates: Seq<PlannedUpdateView>,
    pub missing: Seq<MissingRecordView>,
    pub errors: u32,
}

impl View for ZonePlan {
    type V = ZonePlanView;

    open spec fn view(&self) -> ZonePlanView {
        ZonePlanView {
            updates: views(self.updates@),
            missing: views(self.missing@),
            errors: self.errors,
        }
    }
}

/// Whether `record` takes part in an A update: a new IPv4 address is there.
pub open spec fn wants_a(new: AddressPair) -> bool {
    new.ipv4 is Some
}

/// Whether `record` takes part in an AAAA update: a new prefix is there and the
/// record has a suffix to go with it.
pub open spec fn wants_aaaa(record: RecordConfigView, new: AddressPair) -> bool {
    new.ipv6_prefix is Some && record.eui64 is Some
}

/// The update of the record `identifier` for the configured `record`.
pub open spec fn update_of(
    record: RecordConfigView,
    zone: Seq<char>,
    identifier: Seq<char>,
    content: RecordContent,
) -> PlannedUpdateView {
    PlannedUpdateView {
        zone_identifier: zone,
        identifier,
        name: record.name,
        ttl: record.ttl,
        proxied: record.proxied,
        content,
    }
}

/// The updates planned for one configured record: its A update, then its AAAA
/// update, each only if it is wanted and the zone has the record.
pub open spec fn record_updates(
    record: RecordConfigView,
    zone: Seq<char>,
    new: AddressPair,
    index: RecordMapsView,
) -> Seq<PlannedUpdateView> {
    let a = if wants_a(new) && index.a.contains_key(record.name) {
        seq![update_of(record, zone, index.a[record.name], RecordContent::A(new.ipv4->0))]
    } else {
        Seq::empty()
    };
    let aaaa = if wants_aaaa(record, new) && index.aaaa.contains_key(record.name) {
        seq![
            update_of(
                record,
                zone,
                index.aaaa[record.name],
                RecordContent::AAAA(host_address(new.ipv6_prefix->0, record.eui64->0)),
            ),
        ]
    } else {
        Seq::empty()
    };
    a + aaaa
}

/// What one configured record is found to miss: its A record, then its AAAA
/// record, each only if an update of it is wanted and the zone does not have it.
pub open spec fn record_missing(record: RecordConfigView, new: AddressPair, index: RecordMapsView)
    -> Seq<MissingRecordView> {
    let a = if wants_a(new) && !index.a.contains_key(record.name) {
        seq![MissingRecordView { name: record.name, kind: RecordKind::A }]
    } else {
        Seq::empty()
    };
    let aaaa = if wants_aaaa(record, new) && !index.aaaa.contains_key(record.name) {
        seq![MissingRecordView { name: record.name, kind: RecordKind::AAAA }]
    } else {
        Seq::empty()
    };
    a + aaaa
}

/// The updates planned for `records`, record by record in their order.
pub open spec fn planned_updates(
    records: Seq<RecordConfigView>,
    zone: Seq<char>,
    new: AddressPair,
    index: RecordMapsView,
) -> Seq<PlannedUpdateView>
    decreases records.len(),
{
    if records.len() == 0 {
        Seq::empty()
    } else {
        planned_updates(records.drop_last(), zone, new, index) + record_updates(
            records.last(),
            zone,
            new,
            index,
        )
    }
}

/// What `records` are found to miss, record by record in their order.
pub open spec fn missing_records(
    records: Seq<RecordConfigView>,
    new: AddressPair,
    index: RecordMapsView,
) -> Seq<MissingRecordView>
    decreases records.len(),
{
    if records.len() == 0 {
        Seq::empty()
    } else {
        missing_records(records.drop_last(), new, index) + record_missing(
            records.last(),
            new,
            index,
        )
    }
}

/// The plan for a zone with the configured `records`.
pub open spec fn zone_plan(
    records: Seq<RecordConfigView>,
    zone: Seq<char>,
    new: AddressPair,
    index: RecordMapsView,
) -> ZonePlanView {
    let missing = missing_records(records, new, index);
    ZonePlanView {
        updates: planned_updates(records, zone, new, index),
        missing,
        errors: saturated(missing.len() as int),
    }
}

/// Plans the A update of one record, or notes the record as missing.
fn plan_a(
    record: &RecordConfig,
    zone_identifier: &str,
    content: u32,
    maps: &RecordMaps,
    plan: &mut ZonePlan,
)
    ensures
        maps@.a.contains_key(record@.name) ==> {
            &&& final(plan)@.updates == old(plan)@.updates.push(
                update_of(
                    record@,
                    zone_identifier@,
                    maps@.a[record@.name],
                    RecordContent::A(content),
                ),
            )
            &&& final(plan)@.missing == old(plan)@.missing
            &&& final(plan).errors == old(plan).errors
        },
        !maps@.a.contains_key(record@.name) ==> {
            &&& final(plan)@.updates == old(plan)@.updates
            &&& final(plan)@.missing == old(plan)@.missing.push(
                (MissingRecordView { name: record@.name, kind: RecordKind::A }),
            )
            &&& final(plan).errors == saturated(old(plan).errors + 1)
        },
{
    match maps.a_id(record.name.as_str()) {
        Some(identifier) => {
            let update = PlannedUpdate {
                zone_identifier: zone_identifier.to_owned(),
                identifier: identifier.clone(),
                name: record.name.clone(),
                ttl: record.ttl,
                proxied: record.proxied,
                content: RecordContent::A(content),
            };
            proof {
                lemma_views_push(plan.updates@, update);
            }
            plan.updates.push(update);
        },
        None => {
            let missing = MissingRecord { name: record.name.clone(), kind: RecordKind::A };
            proof {
                lemma_views_push(plan.missing@, missing);
            }
            plan.missing.push(missing);
            plan.errors = plan.errors.saturating_add(1);
        },
    }
}

/// Plans the AAAA update of one record, or notes the record as missing.
fn plan_aaaa(
    record: &RecordConfig,
    zone_identifier: &str,
    content: u128,
    maps: &RecordMaps,
    plan: &mut ZonePlan,
)
    ensures
        maps@.aaaa.contains_key(record@.name) ==> {
            &&& final(plan)@.updates == old(plan)@.updates.push(
                update_of(
                    record@,
                    zone_identifier@,
                    maps@.aaaa[record@.name],
                    RecordContent::AAAA(content),
                ),
            )
            &&& final(plan)@.missing == old(plan)@.missing
            &&& final(plan).errors == old(plan).errors
        },
        !maps@.aaaa.contains_key(record@.name) ==> {
            &&& final(plan)@.updates == old(plan)@.updates
            &&& final(plan)@.missing == old(plan)@.missing.push(
                (MissingRecordView { name: record@.name, kind: RecordKind::AAAA }),
            )
            &&& final(plan).errors == saturated(old(plan).errors + 1)
        },
{
    match maps.aaaa_id(record.name.as_str()) {
        Some(identifier) => {
            let update = PlannedUpdate {
                zone_identifier: zone_identifier.to_owned(),
                identifier: identifier.clone(),
                name: record.name.clone(),
                ttl: record.ttl,
                proxied: record.proxied,
                content: RecordContent::AAAA(content),
            };
            proof {
                lemma_views_push(plan.updates@, update);
            }
            plan.updates.push(update);
        },
        None => {
            let missing = MissingRecord { name: record.name.clone(), kind: RecordKind::AAAA };
            proof {
                lemma_views_push(plan.missing@, missing);
            }
            plan.missing.push(missing);
            plan.errors = plan.errors.saturating_add(1);
        },
    }
}

/// Plans the updates of one zone.
///
/// `zone_identifier` is the provider's identifier of the zone, `new` holds the
/// addresses that changed, and `maps` the zone's records as the provider listed
/// them. A record found in `maps` is updated whether or not it already holds the
/// new address.
pub fn plan_updates(
    config: &ZoneConfig,
    zone_identifier: &str,
    new: AddressPair,
    maps: &RecordMaps,
) -> (plan: ZonePlan)
    ensures
        plan@ == zone_plan(config@.records, zone_identifier@, new, maps@),
{
    let mut plan = ZonePlan { updates: Vec::new(), missing: Vec::new(), errors: 0 };
    let ghost records = config@.records;
    let ghost zone = zone_identifier@;
    let ghost index = maps@;
    proof {
        assert(records.take(0) =~= Seq::empty());
        assert(plan@.updates =~= Seq::empty());
        assert(plan@.missing =~= Seq::empty());
    }
    let mut i: usize = 0;
    while i < config.records.len()
        invariant
            i <= config.records.len(),
            records == config@.records,
            zone == zone_identifier@,
            index == maps@,
            plan@ == zone_plan(records.take(i as int), zone, new, index),
        decreases config.records.len() - i,
    {
        let record = &config.records[i];
        proof {
            assert(records.take(i + 1).drop_last() =~= records.take(i as int));
            assert(records.take(i + 1).last() == record@);
        }
        let ghost before = plan@;
        if let Some(content) = new.ipv4 {
            plan_a(record, zone_identifier, content, maps, &mut plan);
        }
        let ghost between = plan@;
        if let (Some(prefix), Some(suffix)) = (new.ipv6_prefix, record.eui64) {
            let content = compose_address(prefix, suffix);
            plan_aaaa(record, zone_identifier, content, maps, &mut plan);
        }
        proof {
            let a = record_updates(record@, zone, new, index);
            let m = record_missing(record@, new, index);
            assert(plan@.updates =~= before.updates + a);
            assert(plan@.missing =~= before.missing + m);
            assert(before.missing.len() <= between.missing.len() <= plan@.missing.len());
        }
        i += 1;
    }
    proof {
        assert(records.take(config.records.len() as int) =~= records);
    }
    plan
}

/// A zone without configured records has nothing planned and nothing missing.
pub proof fn lemma_no_records_no_plan(zone: Seq<char>, new: AddressPair, index: RecordMapsView)
    ensures
        zone_plan(Seq::empty(), zone, new, index) == (ZonePlanView {
            updates: Seq::empty(),
            missing: Seq::empty(),
            errors: 0,
        }),
{
}

/// Where no address changed, nothing is planned and nothing is missing, whatever
/// is configured and whatever the zone holds.
pub proof fn lemma_no_change_no_plan(
    records: Seq<RecordConfigView>,
    zone: Seq<char>,
    index: RecordMapsView,
)
    ensures
        zone_plan(records, zone, AddressPair { ipv4: None, ipv6_prefix: None }, index) == (
        ZonePlanView { updates: Seq::empty(), missing: Seq::empty(), errors: 0 }),
    decreases records.len(),
{
    let new = AddressPair { ipv4: None, ipv6_prefix: None };
    if records.len() > 0 {
        lemma_no_change_no_plan(records.drop_last(), zone, index);
        assert(record_updates(records.last(), zone, new, index) =~= Seq::empty());
        assert(record_missing(records.last(), new, index) =~= Seq::empty());
        assert(planned_updates(records, zone, new, index) =~= Seq::empty());
        assert(missing_records(records, new, index) =~= Seq::empty());
    }
}

/// Every configured record accounts for at most one A and one AAAA entry, each
/// either planned or missing: where both families changed and the record has a
/// suffix exactly two, where one of them applies exactly one, else none.
pub proof fn lemma_plan_accounts_for_every_record(
    records: Seq<RecordConfigView>,
    zone: Seq<char>,
    new: AddressPair,
    index: RecordMapsView,
)
    ensures
        planned_updates(records, zone, new, index).len() + missing_records(
            records,
            new,
            index,
        ).len() == wanted(records, new),
    decreases records.len(),
{
    if records.len() > 0 {
        lemma_plan_accounts_for_every_record(records.drop_last(), zone, new, index);
    }
}

/// The number of lookups that `records` call for: one per record where a new IPv4
/// address is there, and one more per record with a suffix where a new prefix is.
pub open spec fn wanted(records: Seq<RecordConfigView>, new: AddressPair) -> nat
    decreases records.len(),
{
    if records.len() == 0 {
        0
    } else {
        wanted(records.drop_last(), new) + (if wants_a(new) {
            1nat
        } else {
            0nat
        }) + (if wants_aaaa(records.last(), new) {
            1nat
        } else {
            0nat
        })
    }
}

/// A planned AAAA update holds the new prefix joined bit by bit with the record's
/// suffix; a planned A update holds the new IPv4 address. Time to live, proxy flag
/// and name are the configured ones.
pub proof fn lemma_record_updates_content(
    record: RecordConfigView,
    zone: Seq<char>,
    new: AddressPair,
    index: RecordMapsView,
)
    ensures
        forall|i: int|
            0 <= i < record_updates(record, zone, new, index).len() ==> {
                let update = #[trigger] record_updates(record, zone, new, index)[i];
                &&& update.name == record.name
                &&& update.ttl == record.ttl
                &&& update.proxied == record.proxied
                &&& update.zone_identifier == zone
                &&& match update.content {
                    RecordContent::A(address) => new.ipv4 == Some(address) && index.a.contains_key(
                        record.name,
                    ) && update.identifier == index.a[record.name],
                    RecordContent::AAAA(address) => {
                        &&& wants_aaaa(record, new)
                        &&& address == new.ipv6_prefix->0 | record.eui64->0
                        &&& index.aaaa.contains_key(record.name)
                        &&& update.identifier == index.aaaa[record.name]
                    },
                }
            },
{
}

/// Planning keeps the configured order: the plan for one list of records followed
/// by another is the plan for the first followed by the plan for the second.
pub proof fn lemma_plan_follows_the_records(
    first: Seq<RecordConfigView>,
    second: Seq<RecordConfigView>,
    zone: Seq<char>,
    new: AddressPair,
    index: RecordMapsView,
)
    ensures
        planned_updates(first + second, zone, new, index) == planned_updates(
            first,
            zone,
            new,
            index,
        ) + planned_updates(second, zone, new, index),
        missing_records(first + second, new, index) == missing_records(first, new, index)
            + missing_records(second, new, index),
    decreases second.len(),
{
    if second.len() == 0 {
        assert(first + second =~= first);
        assert(planned_updates(first, zone, new, index) + Seq::<PlannedUpdateView>::empty()
            =~= planned_updates(first, zone, new, index));
        assert(missing_records(first, new, index) + Seq::<MissingRecordView>::empty()
            =~= missing_records(first, new, index));
    } else {
        lemma_plan_follows_the_records(first, second.drop_last(), zone, new, index);
        assert((first + second).drop_last() =~= first + second.drop_last());
        assert((first + second).last() == second.last());
        let head = planned_updates(first, zone, new, index);
        let body = planned_updates(second.drop_last(), zone, new, index);
        let tail = record_updates(second.last(), zone, new, index);
        assert((head + body) + tail =~= head + (body + tail));
        let missing_head = missing_records(first, new, index);
        let missing_body = missing_records(second.drop_last(), new, index);
        let missing_tail = record_missing(second.last(), new, index);
        assert((missing_head + missing_body) + missing_tail =~= missing_head + (missing_body
            + missing_tail));
    }
}

/// Nothing is planned but what a configured record calls for, and nothing that a
/// configured record calls for is left out: an update is in the plan exactly if it
/// is among the updates of one of the records.
pub proof fn lemma_plan_is_what_the_records_call_for(
    records: Seq<RecordConfigView>,
    zone: Seq<char>,
    new: AddressPair,
    index: RecordMapsView,
    update: PlannedUpdateView,
)
    ensures
        planned_updates(records, zone, new, index).contains(update) <==> exists|k: int|
            0 <= k < records.len() && #[trigger] record_updates(
                records[k],
                zone,
                new,
                index,
            ).contains(update),
    decreases records.len(),
{
    let all = planned_updates(records, zone, new, index);
    if records.len() > 0 {
        let shorter = records.drop_last();
        let before = planned_updates(shorter, zone, new, index);
        let last = record_updates(records.last(), zone, new, index);
        lemma_plan_is_what_the_records_call_for(shorter, zone, new, index, update);
        if all.contains(update) {
            let i = choose|i: int| 0 <= i < all.len() && all[i] == update;
            if i < before.len() {
                assert(before[i] == update);
                assert(before.contains(update));
                let k = choose|k: int|
                    0 <= k < shorter.len() && #[trigger] record_updates(
                        shorter[k],
                        zone,
                        new,
                        index,
                    ).contains(update);
                assert(records[k] == shorter[k]);
            } else {
                assert(last[i - before.len()] == update);
                assert(record_updates(records[records.len() - 1], zone, new, index).contains(
                    update,
                ));
            }
        }
        if exists|k: int|
            0 <= k < records.len() && #[trigger] record_updates(
                records[k],
                zone,
                new,
                index,
            ).contains(update) {
            let k = choose|k: int|
                0 <= k < records.len() && #[trigger] record_updates(
                    records[k],
                    zone,
                    new,
                    index,
                ).contains(update);
            if k < shorter.len() {
                assert(records[k] == shorter[k]);
                assert(before.contains(update));
                let i = choose|i: int| 0 <= i < before.len() && before[i] == update;
                assert(all[i] == update);
            } else {
                let j = choose|j: int| 0 <= j < last.len() && last[j] == update;
                assert(all[before.len() + j] == update);
            }
        }
    }
}

} // verus!
