//! The update of one zone, step by step.
//!
//! A zone is updated in three rounds of requests: the zone's name is resolved to
//! the provider's identifier, the zone's records are listed page by page, and the
//! planned updates are sent. This module decides, after every answer, what is to be
//! asked next; the caller sends the requests and hands the answers back.

use vstd::prelude::*;
use crate::address::AddressPair;
use crate::config::{ZoneConfig, ZoneConfigView};
use crate::error::{saturated, ZoneError};
use crate::plan::{plan_updates, zone_plan, ZonePlan, ZonePlanView};
use crate::records::{
    after_page, next_page, PageStep, RecordMaps, RecordMapsView, RecordPage, RecordPageView,
};
use crate::views::views;

verus! {

/// A zone as the provider lists it.
#[derive(Clone, Debug, PartialEq, Eq)]
pub struct ZoneSummary {
    /// The identifier the provider gave the zone.
    pub id: String,
    /// The zone's name.
    pub name: String,
}

/// A [`ZoneSummary`] with its strings as sequences of characters.
pub struct ZoneSummaryView {
    pub id: Seq<char>,
    pub name: Seq<char>,
}

impl View for ZoneSummary {
    type V = ZoneSummaryView;

    open spec fn view(&self) -> ZoneSummaryView {
        ZoneSummaryView { id: self.id@, name: self.name@ }
    }
}

/// The identifier that a listing of matching zones resolves to: that of the one
/// zone listed. A listing of several zones is ambiguous, an empty one finds nothing.
pub open spec fn resolved(zones: Seq<ZoneSummaryView>) -> Result<Seq<char>, ZoneError> {
    if zones.len() > 1 {
        Err(ZoneError::AmbiguousZone)
    } else if zones.len() == 0 {
        Err(ZoneError::ZoneNotFound)
    } else {
        Ok(zones[0].id)
    }
}

/// Resolves the active zones that carry the configured name to one identifier.
pub fn zone_id(zones: &Vec<ZoneSummary>) -> (id: Result<String, ZoneError>)
    ensures
        id is Ok <==> zones.len() == 1,
        id matches Ok(found) ==> resolved(views(zones@)) == Ok::<Seq<char>, ZoneError>(found@),
        id matches Err(error) ==> resolved(views(zones@)) == Err::<Seq<char>, ZoneError>(error),
{
    if zones.len() > 1 {
        Err(ZoneError::AmbiguousZone)
    } else if zones.len() == 0 {
        Err(ZoneError::ZoneNotFound)
    } else {
        Ok(zones[0].id.clone())
    }
}

/// The number of failed operations among `outcomes`, where `true` is a success.
pub open spec fn failures(outcomes: Seq<bool>) -> nat
    decreases outcomes.len(),
{
    if outcomes.len() == 0 {
        0
    } else {
        failures(outcomes.drop_last()) + if outcomes.last() {
            0nat
        } else {
            1nat
        }
    }
}

/// Adds the failed operations among `outcomes` to `errors`, holding the sum at the
/// largest `u32`.
pub fn tally(errors: u32, outcomes: &Vec<bool>) -> (total: u32)
    ensures
        total == saturated(errors + failures(outcomes@)),
{
    let mut total: u32 = errors;
    let mut i: usize = 0;
    while i < outcomes.len()
        invariant
            i <= outcomes.len(),
            total == saturated(errors + failures(outcomes@.take(i as int))),
        decreases outcomes.len() - i,
    {
        proof {
            assert(outcomes@.take(i + 1).drop_last() =~= outcomes@.take(i as int));
        }
        if !outcomes[i] {
            total = total.saturating_add(1);
        }
        i += 1;
    }
    proof {
        assert(outcomes@.take(outcomes.len() as int) =~= outcomes@);
    }
    total
}

/// How a zone ends that counted `errors` failed operations.
pub open spec fn verdict(errors: u32) -> Result<(), ZoneError> {
    if errors > 0 {
        Err(ZoneError::UpdatesFailed(errors))
    } else {
        Ok(())
    }
}

/// Turns a count of failed operations into the zone's result.
pub fn zone_verdict(errors: u32) -> (result: Result<(), ZoneError>)
    ensures
        result == verdict(errors),
{
    if errors > 0 {
        Err(ZoneError::UpdatesFailed(errors))
    } else {
        Ok(())
    }
}

/// What the update of a zone is waiting for.
#[derive(Debug, PartialEq, Eq)]
pub enum ZoneState {
    /// The listing of the zones that carry the configured name.
    AwaitingZones,
    /// Page number `page` of the zone's records.
    AwaitingRecords { zone_identifier: String, page: u32, maps: RecordMaps },
    /// The outcomes of `dispatched` updates, `errors` records having been missing.
    AwaitingUpdates { dispatched: usize, errors: u32 },
    /// Nothing: the zone is done.
    Finished,
}

/// A [`ZoneState`] as a mathematical value.
pub enum ZoneStateView {
    AwaitingZones,
    AwaitingRecords { zone_identifier: Seq<char>, page: u32, maps: RecordMapsView },
    AwaitingUpdates { dispatched: nat, errors: u32 },
    Finished,
}

impl View for ZoneState {
    type V = ZoneStateView;

    open spec fn view(&self) -> ZoneStateView {
        match self {
            ZoneState::AwaitingZones => ZoneStateView::AwaitingZones,
            ZoneState::AwaitingRecords { zone_identifier, page, maps } => {
                ZoneStateView::AwaitingRecords {
                    zone_identifier: zone_identifier@,
                    page: *page,
                    maps: maps@,
                }
            },
            ZoneState::AwaitingUpdates { dispatched, errors } => ZoneStateView::AwaitingUpdates {
                dispatched: *dispatched as nat,
                errors: *errors,
            },
            ZoneState::Finished => ZoneStateView::Finished,
        }
    }
}

/// An answer from the provider.
#[derive(Clone, Debug, PartialEq, Eq)]
pub enum ZoneEvent {
    /// The active zones that carry the configured name.
    ZonesListed(Vec<ZoneSummary>),
    /// One page of the zone's records.
    RecordsListed(RecordPage),
    /// The outcome of every dispatched update, `true` for a success, after all of
    /// them have come back.
    UpdatesFinished(Vec<bool>),
    /// The listing that was asked for did not come back.
    RequestFailed,
}

/// A [`ZoneEvent`] as a mathematical value.
pub enum ZoneEventView {
    ZonesListed(Seq<ZoneSummaryView>),
    RecordsListed(RecordPageView),
    UpdatesFinished(Seq<bool>),
    RequestFailed,
}

impl View for ZoneEvent {
    type V = ZoneEventView;

    open spec fn view(&self) -> ZoneEventView {
        match self {
            ZoneEvent::ZonesListed(zones) => ZoneEventView::ZonesListed(views(zones@)),
            ZoneEvent::RecordsListed(page) => ZoneEventView::RecordsListed(page@),
            ZoneEvent::UpdatesFinished(outcomes) => ZoneEventView::UpdatesFinished(outcomes@),
            ZoneEvent::RequestFailed => ZoneEventView::RequestFailed,
        }
    }
}

/// Which zones a listing of zones asks for, by their status.
#[derive(Clone, Copy, Debug, PartialEq, Eq)]
pub enum ZoneStatus {
    /// Zones that are in service.
    Active,
    /// Zones whose activation is still under way.
    Pending,
}

/// The order in which a listing of records hands the records out.
#[derive(Clone, Copy, Debug, PartialEq, Eq)]
pub enum Direction {
    Ascending,
    Descending,
}

/// What the caller is to do next for a zone.
#[derive(Debug, PartialEq, Eq)]
pub enum ZoneAction {
    /// List the zones of status `status` whose name is exactly `name`.
    ListZones { name: String, status: ZoneStatus },
    /// List page number `page` of the zone's records, in the order `direction`.
    ListRecords { zone_identifier: String, page: u32, direction: Direction },
    /// Send every update of the plan, all at once, and wait for all of them.
    Dispatch(ZonePlan),
    /// Stop: the zone is done, with this result.
    Finish(Result<(), ZoneError>),
}

/// A [`ZoneAction`] as a mathematical value.
pub enum ZoneActionView {
    ListZones { name: Seq<char>, status: ZoneStatus },
    ListRecords { zone_identifier: Seq<char>, page: u32, direction: Direction },
    Dispatch(ZonePlanView),
    Finish(Result<(), ZoneError>),
}

impl View for ZoneAction {
    type V = ZoneActionView;

    open spec fn view(&self) -> ZoneActionView {
        match self {
            ZoneAction::ListZones { name, status } => ZoneActionView::ListZones {
                name: name@,
                status: *status,
            },
            ZoneAction::ListRecords { zone_identifier, page, direction } => {
                ZoneActionView::ListRecords {
                    zone_identifier: zone_identifier@,
                    page: *page,
                    direction: *direction,
                }
            },
            ZoneAction::Dispatch(plan) => ZoneActionView::Dispatch(plan@),
            ZoneAction::Finish(result) => ZoneActionView::Finish(*result),
        }
    }
}

impl ZoneActionView {
    /// Whether the action sends anything to the provider.
    pub open spec fn contacts_provider(self) -> bool {
        !(self is Finish)
    }

    /// Whether the action reads or writes records of the zone.
    pub open spec fn touches_records(self) -> bool {
        self is ListRecords || self is Dispatch
    }
}

/// The zone ends with `error`.
pub open spec fn zone_failed(error: ZoneError) -> (ZoneStateView, ZoneActionView) {
    (ZoneStateView::Finished, ZoneActionView::Finish(Err(error)))
}

/// The request for page number `page` of the records of the zone `zone_identifier`.
/// Records are always listed in ascending order.
pub open spec fn list_records(zone_identifier: Seq<char>, page: u32) -> ZoneActionView {
    ZoneActionView::ListRecords { zone_identifier, page, direction: Direction::Ascending }
}

/// How the update of a zone begins: a zone without configured records is done at
/// once and with success, any other zone has its name resolved among the active
/// zones.
pub open spec fn zone_start(config: ZoneConfigView) -> (ZoneStateView, ZoneActionView) {
    if config.records.len() == 0 {
        (ZoneStateView::Finished, ZoneActionView::Finish(Ok(())))
    } else {
        (
            ZoneStateView::AwaitingZones,
            ZoneActionView::ListZones { name: config.name, status: ZoneStatus::Active },
        )
    }
}

/// How the update of a zone goes on after an answer.
///
/// - The listing of zones resolves to an identifier, and the first page of records
///   is asked for; or it does not, and the zone fails.
/// - A page of records is entered into the index. If it was the last page, the
///   updates are planned over the full index and dispatched; else the next page is
///   asked for.
/// - The outcomes of all dispatched updates are counted together with the records
///   that were missing; the zone succeeds only if the count is zero.
/// - A listing that did not come back fails the zone, and so does any answer that
///   the zone was not waiting for.
pub open spec fn zone_next(
    config: ZoneConfigView,
    new: AddressPair,
    state: ZoneStateView,
    event: ZoneEventView,
) -> (ZoneStateView, ZoneActionView) {
    match state {
        ZoneStateView::AwaitingZones => match event {
            ZoneEventView::ZonesListed(zones) => match resolved(zones) {
                Ok(zone_identifier) => (
                    ZoneStateView::AwaitingRecords {
                        zone_identifier,
                        page: 1,
                        maps: RecordMapsView::empty(),
                    },
                    list_records(zone_identifier, 1),
                ),
                Err(error) => zone_failed(error),
            },
            ZoneEventView::RequestFailed => zone_failed(ZoneError::RemoteUnavailable),
            _ => zone_failed(ZoneError::OutOfTurn),
        },
        ZoneStateView::AwaitingRecords { zone_identifier, page, maps } => match event {
            ZoneEventView::RecordsListed(listed) => {
                let maps = maps.absorb(listed.records);
                match after_page(page, listed.page_info) {
                    PageStep::Complete => {
                        let plan = zone_plan(config.records, zone_identifier, new, maps);
                        (
                            ZoneStateView::AwaitingUpdates {
                                dispatched: plan.updates.len(),
                                errors: plan.errors,
                            },
                            ZoneActionView::Dispatch(plan),
                        )
                    },
                    PageStep::Next(next) => (
                        ZoneStateView::AwaitingRecords { zone_identifier, page: next, maps },
                        list_records(zone_identifier, next),
                    ),
                    PageStep::Failed(error) => zone_failed(error),
                }
            },
            ZoneEventView::RequestFailed => zone_failed(ZoneError::RemoteUnavailable),
            _ => zone_failed(ZoneError::OutOfTurn),
        },
        ZoneStateView::AwaitingUpdates { dispatched, errors } => match event {
            ZoneEventView::UpdatesFinished(outcomes) => if outcomes.len() == dispatched {
                (
                    ZoneStateView::Finished,
                    ZoneActionView::Finish(verdict(saturated(errors + failures(outcomes)))),
                )
            } else {
                zone_failed(ZoneError::OutOfTurn)
            },
            _ => zone_failed(ZoneError::OutOfTurn),
        },
        ZoneStateView::Finished => zone_failed(ZoneError::OutOfTurn),
    }
}

/// Begins the update of a zone.
pub fn begin_zone(config: &ZoneConfig) -> (step: (ZoneState, ZoneAction))
    ensures
        (step.0@, step.1@) == zone_start(config@),
{
    if config.records.len() == 0 {
        (ZoneState::Finished, ZoneAction::Finish(Ok(())))
    } else {
        (
            ZoneState::AwaitingZones,
            ZoneAction::ListZones { name: config.name.clone(), status: ZoneStatus::Active },
        )
    }
}

/// Ends the update of a zone with `error`.
fn fail_zone(error: ZoneError) -> (step: (ZoneState, ZoneAction))
    ensures
        (step.0@, step.1@) == zone_failed(error),
{
    (ZoneState::Finished, ZoneAction::Finish(Err(error)))
}

/// Goes on with the update of a zone after the answer `event`.
///
/// `new` holds the addresses that changed; `state` is what [`begin_zone`] or the
/// previous call returned.
pub fn update_zone(
    config: &ZoneConfig,
    new: AddressPair,
    state: ZoneState,
    event: ZoneEvent,
) -> (step: (ZoneState, ZoneAction))
    ensures
        (step.0@, step.1@) == zone_next(config@, new, state@, event@),
{
    match state {
        ZoneState::AwaitingZones => match event {
            ZoneEvent::ZonesListed(zones) => match zone_id(&zones) {
                Ok(zone_identifier) => {
                    let request = zone_identifier.clone();
                    (
                        ZoneState::AwaitingRecords {
                            zone_identifier,
                            page: 1,
                            maps: RecordMaps::new(),
                        },
                        ZoneAction::ListRecords {
                            zone_identifier: request,
                            page: 1,
                            direction: Direction::Ascending,
                        },
                    )
                },
                Err(error) => fail_zone(error),
            },
            ZoneEvent::RequestFailed => fail_zone(ZoneError::RemoteUnavailable),
            _ => fail_zone(ZoneError::OutOfTurn),
        },
        ZoneState::AwaitingRecords { zone_identifier, page, maps } => match event {
            ZoneEvent::RecordsListed(listed) => {
                let mut maps = maps;
                maps.absorb(&listed.records);
                match next_page(page, listed.page_info) {
                    PageStep::Complete => {
                        let plan = plan_updates(config, zone_identifier.as_str(), new, &maps);
                        (
                            ZoneState::AwaitingUpdates {
                                dispatched: plan.updates.len(),
                                errors: plan.errors,
                            },
                            ZoneAction::Dispatch(plan),
                        )
                    },
                    PageStep::Next(next) => {
                        let request = zone_identifier.clone();
                        (
                            ZoneState::AwaitingRecords { zone_identifier, page: next, maps },
                            ZoneAction::ListRecords {
                                zone_identifier: request,
                                page: next,
                                direction: Direction::Ascending,
                            },
                        )
                    },
                    PageStep::Failed(error) => fail_zone(error),
                }
            },
            ZoneEvent::RequestFailed => fail_zone(ZoneError::RemoteUnavailable),
            _ => fail_zone(ZoneError::OutOfTurn),
        },
        ZoneState::AwaitingUpdates { dispatched, errors } => match event {
            ZoneEvent::UpdatesFinished(outcomes) => {
                if outcomes.len() == dispatched {
                    let total = tally(errors, &outcomes);
                    (ZoneState::Finished, ZoneAction::Finish(zone_verdict(total)))
                } else {
                    fail_zone(ZoneError::OutOfTurn)
                }
            },
            _ => fail_zone(ZoneError::OutOfTurn),
        },
        ZoneState::Finished => fail_zone(ZoneError::OutOfTurn),
    }
}

/// Where the update of a zone stands after the answers `events`, and every action
/// it called for on the way: the first one before any answer, then one per answer.
pub open spec fn zone_trace(config: ZoneConfigView, new: AddressPair, events: Seq<ZoneEventView>)
    -> (ZoneStateView, Seq<ZoneActionView>)
    decreases events.len(),
{
    if events.len() == 0 {
        let (state, action) = zone_start(config);
        (state, seq![action])
    } else {
        let (before, actions) = zone_trace(config, new, events.drop_last());
        let (state, action) = zone_next(config, new, before, events.last());
        (state, actions.push(action))
    }
}

/// A trace holds one action more than there were answers, and its last action
/// stops the zone exactly if the zone is done.
pub proof fn lemma_zone_trace_shape(
    config: ZoneConfigView,
    new: AddressPair,
    events: Seq<ZoneEventView>,
)
    ensures
        zone_trace(config, new, events).1.len() == events.len() + 1,
        zone_trace(config, new, events).0 is Finished <==> zone_trace(
            config,
            new,
            events,
        ).1.last() is Finish,
        forall|n: int|
            0 <= n <= events.len() ==> #[trigger] zone_trace(config, new, events.take(n)).1
                == zone_trace(config, new, events).1.take(n + 1),
    decreases events.len(),
{
    let actions = zone_trace(config, new, events).1;
    if events.len() > 0 {
        let shorter = events.drop_last();
        lemma_zone_trace_shape(config, new, shorter);
        assert forall|n: int| 0 <= n <= events.len() implies #[trigger] zone_trace(
            config,
            new,
            events.take(n),
        ).1 == actions.take(n + 1) by {
            if n == events.len() {
                assert(events.take(n) =~= events);
                assert(actions.take(n + 1) =~= actions);
            } else {
                assert(events.take(n) =~= shorter.take(n));
                assert(actions.take(n + 1) =~= zone_trace(config, new, shorter).1.take(n + 1));
            }
        }
    } else {
        assert(events.take(0) =~= events);
        assert(actions.take(1) =~= actions);
    }
}

/// Once a zone is done it stays done: after an action that stops the zone, every
/// later action only stops it again, and nothing more is sent to the provider.
pub proof fn lemma_zone_stops_for_good(
    config: ZoneConfigView,
    new: AddressPair,
    events: Seq<ZoneEventView>,
    i: int,
    j: int,
)
    requires
        0 <= i <= j <= events.len(),
        zone_trace(config, new, events).1[i] is Finish,
    ensures
        zone_trace(config, new, events).1[j] is Finish,
        !zone_trace(config, new, events).1[j].contacts_provider(),
    decreases events.len(),
{
    lemma_zone_trace_shape(config, new, events);
    if j < events.len() {
        let shorter = events.drop_last();
        lemma_zone_trace_shape(config, new, shorter);
        assert(zone_trace(config, new, events).1.drop_last() =~= zone_trace(
            config,
            new,
            shorter,
        ).1);
        lemma_zone_stops_for_good(config, new, shorter, i, j);
    } else if i < j {
        let shorter = events.drop_last();
        lemma_zone_trace_shape(config, new, shorter);
        assert(zone_trace(config, new, events).1.drop_last() =~= zone_trace(
            config,
            new,
            shorter,
        ).1);
        lemma_zone_stops_for_good(config, new, shorter, i, j - 1);
    }
}

/// A zone without configured records succeeds at once, and whatever answers are
/// handed in afterwards, it never sends anything to the provider: no zone is looked
/// up, no record is listed, no update is dispatched.
pub proof fn lemma_empty_zone_contacts_nobody(
    config: ZoneConfigView,
    new: AddressPair,
    events: Seq<ZoneEventView>,
    i: int,
)
    requires
        config.records.len() == 0,
        0 <= i <= events.len(),
    ensures
        zone_start(config) == (ZoneStateView::Finished, ZoneActionView::Finish(Ok(()))),
        zone_trace(config, new, events).1[0] == ZoneActionView::Finish(Ok(())),
        !zone_trace(config, new, events).1[i].contacts_provider(),
{
    lemma_zone_trace_shape(config, new, events);
    assert(events.take(0) =~= Seq::<ZoneEventView>::empty());
    assert(zone_trace(config, new, events.take(0)).1 == zone_trace(config, new, events).1.take(1));
    assert(zone_trace(config, new, events).1.take(1)[0] == zone_trace(config, new, events).1[0]);
    lemma_zone_stops_for_good(config, new, events, 0, i);
}

/// A listing of two or more zones under the configured name fails the zone as
/// ambiguous.
pub proof fn lemma_ambiguous_zone_fails(
    config: ZoneConfigView,
    new: AddressPair,
    zones: Seq<ZoneSummaryView>,
)
    requires
        zones.len() >= 2,
    ensures
        zone_next(config, new, ZoneStateView::AwaitingZones, ZoneEventView::ZonesListed(zones))
            == zone_failed(ZoneError::AmbiguousZone),
{
}

/// Where the first answer lists two or more zones under the configured name, no
/// action of the zone, then or later, reads or writes a record.
pub proof fn lemma_ambiguous_zone_touches_no_record(
    config: ZoneConfigView,
    new: AddressPair,
    events: Seq<ZoneEventView>,
    i: int,
)
    requires
        events.len() > 0,
        events[0] is ZonesListed,
        events[0]->ZonesListed_0.len() >= 2,
        0 <= i <= events.len(),
    ensures
        !zone_trace(config, new, events).1[i].touches_records(),
        i >= 1 ==> zone_trace(config, new, events).1[i] is Finish,
        config.records.len() > 0 ==> zone_trace(config, new, events).1[1]
            == ZoneActionView::Finish(Err(ZoneError::AmbiguousZone)),
{
    lemma_zone_trace_shape(config, new, events);
    let actions = zone_trace(config, new, events).1;
    let none = events.take(0);
    let one = events.take(1);
    assert(none =~= Seq::<ZoneEventView>::empty());
    assert(one.drop_last() =~= none);
    assert(one.last() == events[0]);
    assert(zone_trace(config, new, none).1 == actions.take(1));
    assert(zone_trace(config, new, one).1 == actions.take(2));
    assert(actions.take(1)[0] == actions[0]);
    assert(actions.take(2)[1] == actions[1]);
    assert(zone_trace(config, new, one).1[1] == actions[1]);
    assert(actions[1] is Finish);
    assert(!actions[0].touches_records());
    if i >= 1 {
        lemma_zone_stops_for_good(config, new, events, 1, i);
    }
}

/// The number of failures is zero exactly if every operation succeeded, and never
/// more than the number of operations.
pub proof fn lemma_failures_bounds(outcomes: Seq<bool>)
    ensures
        failures(outcomes) <= outcomes.len(),
        failures(outcomes) == 0 <==> forall|i: int| 0 <= i < outcomes.len() ==> outcomes[i],
    decreases outcomes.len(),
{
    if outcomes.len() > 0 {
        let shorter = outcomes.drop_last();
        lemma_failures_bounds(shorter);
        if failures(outcomes) == 0 {
            assert forall|i: int| 0 <= i < outcomes.len() implies outcomes[i] by {
                if i < shorter.len() {
                    assert(shorter[i] == outcomes[i]);
                }
            }
        } else if outcomes.last() {
            let i = choose|i: int| 0 <= i < shorter.len() && !shorter[i];
            assert(!outcomes[i]);
        }
    }
}

/// Failures add up: counting two lists of outcomes apart and adding the counts is
/// counting the two lists as one.
pub proof fn lemma_failures_add_up(first: Seq<bool>, second: Seq<bool>)
    ensures
        failures(first + second) == failures(first) + failures(second),
    decreases second.len(),
{
    if second.len() == 0 {
        assert(first + second =~= first);
    } else {
        lemma_failures_add_up(first, second.drop_last());
        assert((first + second).drop_last() =~= first + second.drop_last());
        assert((first + second).last() == second.last());
    }
}

/// Once all dispatched updates have come back, the zone succeeds exactly if no
/// record was missing and no update failed; otherwise it fails with the number of
/// both together. Outcomes for fewer or more updates than were dispatched are not
/// accepted.
pub proof fn lemma_zone_counts_every_failure(
    config: ZoneConfigView,
    new: AddressPair,
    dispatched: nat,
    errors: u32,
    outcomes: Seq<bool>,
)
    ensures
        ({
            let step = zone_next(
                config,
                new,
                ZoneStateView::AwaitingUpdates { dispatched, errors },
                ZoneEventView::UpdatesFinished(outcomes),
            );
            let total = saturated(errors + failures(outcomes));
            &&& step.0 is Finished
            &&& outcomes.len() != dispatched ==> step.1 == ZoneActionView::Finish(
                Err(ZoneError::OutOfTurn),
            )
            &&& outcomes.len() == dispatched ==> {
                &&& step.1 == ZoneActionView::Finish(Ok(())) <==> errors == 0 && failures(outcomes)
                    == 0
                &&& errors > 0 || failures(outcomes) > 0 ==> total > 0 && step.1
                    == ZoneActionView::Finish(Err(ZoneError::UpdatesFailed(total)))
                &&& errors + failures(outcomes) < u32::MAX ==> total == errors + failures(outcomes)
            }
        }),
{
}

/// While records are being listed, a page that does not end the listing is
/// followed by the request for the page with the next number, under the same zone
/// identifier. Page numbers only grow, so a listing asks for each page number at
/// most once and ends after at most `u32::MAX` pages.
pub proof fn lemma_listing_advances(
    config: ZoneConfigView,
    new: AddressPair,
    zone_identifier: Seq<char>,
    page: u32,
    maps: RecordMapsView,
    event: ZoneEventView,
)
    ensures
        ({
            let step = zone_next(
                config,
                new,
                ZoneStateView::AwaitingRecords { zone_identifier, page, maps },
                event,
            );
            &&& step.1 matches ZoneActionView::ListRecords {
                zone_identifier: zone,
                page: next,
                direction,
            } ==> {
                &&& next == page + 1
                &&& zone == zone_identifier
                &&& direction == Direction::Ascending
                &&& event is RecordsListed
                &&& step.0 == (ZoneStateView::AwaitingRecords {
                    zone_identifier,
                    page: next,
                    maps: maps.absorb(event->RecordsListed_0.records),
                })
            }
            &&& !(step.1 is ListZones)
            &&& event matches ZoneEventView::RecordsListed(listed) ==> (listed.page_info is Absent
                ==> step.1 is Dispatch)
            &&& step.1 matches ZoneActionView::Dispatch(plan) ==> {
                &&& event is RecordsListed
                &&& plan == zone_plan(
                    config.records,
                    zone_identifier,
                    new,
                    maps.absorb(event->RecordsListed_0.records),
                )
            }
        }),
{
}

} // verus!
