//! One run of the updater, step by step.
//!
//! A run discovers the host's addresses, lets the change gate pick the ones that
//! changed, has every zone updated with them, and remembers them only if every zone
//! succeeded. This module decides what is to be done next; the caller discovers,
//! updates and stores.

use vstd::prelude::*;
use crate::address::AddressPair;
use crate::config::{Config, ConfigView, History};
use crate::error::{saturated, RunError, ZoneError};
use crate::gate::{change_gate, gate, Changes};
use crate::zone::{failures, zone_next, ZoneActionView, ZoneEventView, ZoneStateView};
use crate::config::ZoneConfigView;

verus! {

/// Where an address is to be discovered.
#[derive(Clone, Debug, PartialEq, Eq)]
pub enum AddressSource {
    /// On the network interface of this name.
    Interface(String),
    /// At the service of this address.
    Http(String),
    /// Nowhere: the address family is switched off.
    Disabled,
}

/// An [`AddressSource`] with its string as a sequence of characters.
pub enum AddressSourceView {
    Interface(Seq<char>),
    Http(Seq<char>),
    Disabled,
}

impl View for AddressSource {
    type V = AddressSourceView;

    open spec fn view(&self) -> AddressSourceView {
        match self {
            AddressSource::Interface(name) => AddressSourceView::Interface(name@),
            AddressSource::Http(url) => AddressSourceView::Http(url@),
            AddressSource::Disabled => AddressSourceView::Disabled,
        }
    }
}

/// The source that is configured: the interface where one is named, else the
/// service where one is named, else none.
pub open spec fn source_of(interface: Option<Seq<char>>, http: Option<Seq<char>>)
    -> AddressSourceView {
    match interface {
        Some(name) => AddressSourceView::Interface(name),
        None => match http {
            Some(url) => AddressSourceView::Http(url),
            None => AddressSourceView::Disabled,
        },
    }
}

/// Picks the configured source of an address.
pub fn address_source(interface: &Option<String>, http: &Option<String>) -> (source: AddressSource)
    ensures
        source@ == source_of(crate::config::text_of(*interface), crate::config::text_of(*http)),
{
    match interface {
        Some(name) => AddressSource::Interface(name.clone()),
        None => match http {
            Some(url) => AddressSource::Http(url.clone()),
            None => AddressSource::Disabled,
        },
    }
}

/// The number of zones among `results` that failed.
pub open spec fn failed_zones(results: Seq<Result<(), ZoneError>>) -> nat
    decreases results.len(),
{
    if results.len() == 0 {
        0
    } else {
        failed_zones(results.drop_last()) + if results.last() is Err {
            1nat
        } else {
            0nat
        }
    }
}

/// Counts the zones among `results` that failed, holding the count at the largest
/// `u32`.
pub fn count_failed_zones(results: &Vec<Result<(), ZoneError>>) -> (errors: u32)
    ensures
        errors == saturated(failed_zones(results@) as int),
{
    let mut errors: u32 = 0;
    let mut i: usize = 0;
    while i < results.len()
        invariant
            i <= results.len(),
            errors == saturated(failed_zones(results@.take(i as int)) as int),
        decreases results.len() - i,
    {
        proof {
            assert(results@.take(i + 1).drop_last() =~= results@.take(i as int));
        }
        if results[i].is_err() {
            errors = errors.saturating_add(1);
        }
        i += 1;
    }
    proof {
        assert(results@.take(results.len() as int) =~= results@);
    }
    errors
}

/// Why a run ends without having had anything to do.
#[derive(Clone, Copy, Debug, PartialEq, Eq)]
pub enum Rest {
    /// No zone is configured.
    NoZones,
    /// Both address families are switched off.
    Disabled,
    /// No observed address differs from the remembered one.
    Unchanged(Changes),
}

/// What a run is waiting for.
#[derive(Clone, Copy, Debug, PartialEq, Eq)]
pub enum RunState {
    /// The host's addresses.
    AwaitingAddresses,
    /// The results of `zones` zones, which are being updated to `new`.
    AwaitingZones { new: AddressPair, zones: usize },
    /// Nothing: the run is over.
    Finished,
}

/// A [`RunState`] as a mathematical value.
pub enum RunStateView {
    AwaitingAddresses,
    AwaitingZones { new: AddressPair, zones: nat },
    Finished,
}

impl View for RunState {
    type V = RunStateView;

    open spec fn view(&self) -> RunStateView {
        match self {
            RunState::AwaitingAddresses => RunStateView::AwaitingAddresses,
            RunState::AwaitingZones { new, zones } => RunStateView::AwaitingZones {
                new: *new,
                zones: *zones as nat,
            },
            RunState::Finished => RunStateView::Finished,
        }
    }
}

/// Something the caller has done for the run.
#[derive(Debug, PartialEq, Eq)]
pub enum RunEvent {
    /// The host's addresses, each absent where its family is switched off.
    Discovered(AddressPair),
    /// The result of every configured zone, in the configured order, after all of
    /// them have come to their end.
    ZonesFinished(Vec<Result<(), ZoneError>>),
}

/// A [`RunEvent`] as a mathematical value.
pub enum RunEventView {
    Discovered(AddressPair),
    ZonesFinished(Seq<Result<(), ZoneError>>),
}

impl View for RunEvent {
    type V = RunEventView;

    open spec fn view(&self) -> RunEventView {
        match self {
            RunEvent::Discovered(observed) => RunEventView::Discovered(*observed),
            RunEvent::ZonesFinished(results) => RunEventView::ZonesFinished(results@),
        }
    }
}

/// What the caller is to do next for the run.
#[derive(Clone, Debug, PartialEq, Eq)]
pub enum RunAction {
    /// Discover the host's addresses at these sources.
    Discover { ipv4: AddressSource, ipv6_prefix: AddressSource },
    /// Update every configured zone to `new`, all at once, and wait for all of them.
    UpdateZones { new: AddressPair, changes: Changes },
    /// Store this history, and end with success.
    Persist(History),
    /// End with success: there was nothing to do.
    Stop(Rest),
    /// End with this failure, and leave the stored history as it is.
    Fail(RunError),
}

/// A [`RunAction`] as a mathematical value.
pub enum RunActionView {
    Discover { ipv4: AddressSourceView, ipv6_prefix: AddressSourceView },
    UpdateZones { new: AddressPair, changes: Changes },
    Persist(History),
    Stop(Rest),
    Fail(RunError),
}

impl View for RunAction {
    type V = RunActionView;

    open spec fn view(&self) -> RunActionView {
        match self {
            RunAction::Discover { ipv4, ipv6_prefix } => RunActionView::Discover {
                ipv4: ipv4@,
                ipv6_prefix: ipv6_prefix@,
            },
            RunAction::UpdateZones { new, changes } => RunActionView::UpdateZones {
                new: *new,
                changes: *changes,
            },
            RunAction::Persist(history) => RunActionView::Persist(*history),
            RunAction::Stop(rest) => RunActionView::Stop(*rest),
            RunAction::Fail(error) => RunActionView::Fail(*error),
        }
    }
}

/// The run is over, having done `action` last.
pub open spec fn run_over(action: RunActionView) -> (RunStateView, RunActionView) {
    (RunStateView::Finished, action)
}

/// How a run begins: without zones, or with both address families switched off,
/// there is nothing to do; else the addresses are discovered.
pub open spec fn run_start(config: ConfigView) -> (RunStateView, RunActionView) {
    let ipv4 = source_of(config.a_interface, config.a_http);
    let ipv6_prefix = source_of(config.aaaa_interface, config.aaaa_http);
    if config.zones.len() == 0 {
        run_over(RunActionView::Stop(Rest::NoZones))
    } else if ipv4 is Disabled && ipv6_prefix is Disabled {
        run_over(RunActionView::Stop(Rest::Disabled))
    } else {
        (RunStateView::AwaitingAddresses, RunActionView::Discover { ipv4, ipv6_prefix })
    }
}

/// How a run goes on.
///
/// - The discovered addresses pass the change gate. If none is let through the run
///   rests; else every zone is updated to those that were.
/// - Once every zone has come to its end, the run fails with the number of zones
///   that failed, or, if none did, has the new addresses stored.
/// - Anything that the run was not waiting for fails it.
pub open spec fn run_next(config: ConfigView, state: RunStateView, event: RunEventView) -> (
    RunStateView,
    RunActionView,
) {
    match state {
        RunStateView::AwaitingAddresses => match event {
            RunEventView::Discovered(observed) => {
                let changes = gate(observed, config.history);
                let new = changes.applied();
                if observed.is_empty() {
                    run_over(RunActionView::Stop(Rest::Disabled))
                } else if new.is_empty() {
                    run_over(RunActionView::Stop(Rest::Unchanged(changes)))
                } else {
                    (
                        RunStateView::AwaitingZones { new, zones: config.zones.len() },
                        RunActionView::UpdateZones { new, changes },
                    )
                }
            },
            _ => run_over(RunActionView::Fail(RunError::OutOfTurn)),
        },
        RunStateView::AwaitingZones { new, zones } => match event {
            RunEventView::ZonesFinished(results) => if results.len() != zones {
                run_over(RunActionView::Fail(RunError::OutOfTurn))
            } else if failed_zones(results) > 0 {
                run_over(
                    RunActionView::Fail(
                        RunError::ZonesFailed(saturated(failed_zones(results) as int)),
                    ),
                )
            } else {
                run_over(RunActionView::Persist(History::of(new)))
            },
            _ => run_over(RunActionView::Fail(RunError::OutOfTurn)),
        },
        RunStateView::Finished => run_over(RunActionView::Fail(RunError::OutOfTurn)),
    }
}

/// Begins a run.
pub fn begin_run(config: &Config) -> (step: (RunState, RunAction))
    ensures
        (step.0@, step.1@) == run_start(config@),
{
    if config.zones.len() == 0 {
        return (RunState::Finished, RunAction::Stop(Rest::NoZones));
    }
    let ipv4 = address_source(&config.a_interface, &config.a_http);
    let ipv6_prefix = address_source(&config.aaaa_interface, &config.aaaa_http);
    let idle = match (&ipv4, &ipv6_prefix) {
        (AddressSource::Disabled, AddressSource::Disabled) => true,
        _ => false,
    };
    if idle {
        (RunState::Finished, RunAction::Stop(Rest::Disabled))
    } else {
        (RunState::AwaitingAddresses, RunAction::Discover { ipv4, ipv6_prefix })
    }
}

/// Goes on with a run after `event`.
pub fn advance_run(config: &Config, state: RunState, event: RunEvent) -> (step: (
    RunState,
    RunAction,
))
    ensures
        (step.0@, step.1@) == run_next(config@, state@, event@),
{
    match state {
        RunState::AwaitingAddresses => match event {
            RunEvent::Discovered(observed) => {
                let changes = change_gate(observed, config.history);
                let new = changes.applied();
                if observed.is_empty() {
                    (RunState::Finished, RunAction::Stop(Rest::Disabled))
                } else if new.is_empty() {
                    (RunState::Finished, RunAction::Stop(Rest::Unchanged(changes)))
                } else {
                    (
                        RunState::AwaitingZones { new, zones: config.zones.len() },
                        RunAction::UpdateZones { new, changes },
                    )
                }
            },
            _ => (RunState::Finished, RunAction::Fail(RunError::OutOfTurn)),
        },
        RunState::AwaitingZones { new, zones } => match event {
            RunEvent::ZonesFinished(results) => {
                if results.len() != zones {
                    (RunState::Finished, RunAction::Fail(RunError::OutOfTurn))
                } else {
                    let errors = count_failed_zones(&results);
                    if errors > 0 {
                        (RunState::Finished, RunAction::Fail(RunError::ZonesFailed(errors)))
                    } else {
                        (RunState::Finished, RunAction::Persist(History::remember(new)))
                    }
                }
            },
            _ => (RunState::Finished, RunAction::Fail(RunError::OutOfTurn)),
        },
        RunState::Finished => (RunState::Finished, RunAction::Fail(RunError::OutOfTurn)),
    }
}

/// Where a run stands after `events`, and every action it called for on the way:
/// the first one before any event, then one per event.
pub open spec fn run_trace(config: ConfigView, events: Seq<RunEventView>) -> (
    RunStateView,
    Seq<RunActionView>,
)
    decreases events.len(),
{
    if events.len() == 0 {
        let (state, action) = run_start(config);
        (state, seq![action])
    } else {
        let (before, actions) = run_trace(config, events.drop_last());
        let (state, action) = run_next(config, before, events.last());
        (state, actions.push(action))
    }
}

/// No zone failed exactly if every zone succeeded, and no more zones failed than
/// there are.
pub proof fn lemma_failed_zones_bounds(results: Seq<Result<(), ZoneError>>)
    ensures
        failed_zones(results) <= results.len(),
        failed_zones(results) == 0 <==> forall|i: int| 0 <= i < results.len() ==> results[i] is Ok,
    decreases results.len(),
{
    if results.len() > 0 {
        let shorter = results.drop_last();
        lemma_failed_zones_bounds(shorter);
        if failed_zones(results) == 0 {
            assert forall|i: int| 0 <= i < results.len() implies results[i] is Ok by {
                if i < shorter.len() {
                    assert(shorter[i] == results[i]);
                }
            }
        } else if results.last() is Ok {
            let i = choose|i: int| 0 <= i < shorter.len() && !(shorter[i] is Ok);
            assert(!(results[i] is Ok));
        }
    }
}

/// A host that observes exactly what it remembers has nothing to do: the run rests
/// without updating any zone and without storing anything.
pub proof fn lemma_unchanged_run_rests(config: ConfigView, observed: AddressPair)
    requires
        config.history == History::of(observed),
    ensures
        run_next(config, RunStateView::AwaitingAddresses, RunEventView::Discovered(observed)).0
            is Finished,
        run_next(config, RunStateView::AwaitingAddresses, RunEventView::Discovered(observed)).1
            is Stop,
{
}

/// The persistence gate. Once the zones have come to their end, the new addresses
/// are stored exactly if there is a result for every zone and every result is a
/// success, and what is stored then is exactly the new addresses. With one failed
/// zone the run fails instead, with the number of failed zones.
pub proof fn lemma_persist_needs_every_zone(
    config: ConfigView,
    new: AddressPair,
    zones: nat,
    results: Seq<Result<(), ZoneError>>,
)
    ensures
        ({
            let step = run_next(
                config,
                RunStateView::AwaitingZones { new, zones },
                RunEventView::ZonesFinished(results),
            );
            &&& step.0 is Finished
            &&& step.1 is Persist <==> results.len() == zones && forall|i: int|
                0 <= i < results.len() ==> results[i] is Ok
            &&& step.1 is Persist ==> step.1 == RunActionView::Persist(History::of(new))
            &&& results.len() == zones && failed_zones(results) > 0 ==> step.1
                == RunActionView::Fail(
                RunError::ZonesFailed(saturated(failed_zones(results) as int)),
            )
        }),
{
    lemma_failed_zones_bounds(results);
}

/// One failed update in one zone keeps the whole run from storing anything. If
/// among the outcomes of a zone's dispatched updates there is a failure, the zone
/// ends with a failure that counts it; and a run that holds this zone's result
/// among its zone results fails, however many other updates and zones succeeded.
pub proof fn lemma_failed_update_blocks_persist(
    config: ConfigView,
    zone: ZoneConfigView,
    new: AddressPair,
    dispatched: nat,
    errors: u32,
    outcomes: Seq<bool>,
    zones: nat,
    results: Seq<Result<(), ZoneError>>,
    k: int,
)
    requires
        outcomes.len() == dispatched,
        failures(outcomes) > 0,
        0 <= k < results.len(),
        zone_next(
            zone,
            new,
            ZoneStateView::AwaitingUpdates { dispatched, errors },
            ZoneEventView::UpdatesFinished(outcomes),
        ).1 == ZoneActionView::Finish(results[k]),
    ensures
        results[k] == Err::<(), ZoneError>(
            ZoneError::UpdatesFailed(saturated(errors + failures(outcomes))),
        ),
        errors == 0 && failures(outcomes) == 1 ==> results[k] == Err::<(), ZoneError>(
            ZoneError::UpdatesFailed(1),
        ),
        run_next(
            config,
            RunStateView::AwaitingZones { new, zones },
            RunEventView::ZonesFinished(results),
        ).1 is Fail,
{
    lemma_failed_zones_bounds(results);
}

/// Nothing is stored but at the very end of a complete run. An action that stores
/// a history is the third action of its run: the addresses were discovered first,
/// then every configured zone came to its end with success, and what is stored is
/// what the change gate let through of the discovered addresses.
pub proof fn lemma_persist_only_after_full_success(
    config: ConfigView,
    events: Seq<RunEventView>,
    i: int,
)
    requires
        0 <= i <= events.len(),
        run_trace(config, events).1[i] is Persist,
    ensures
        i == 2,
        events[0] is Discovered,
        events[1] is ZonesFinished,
        events[1]->ZonesFinished_0.len() == config.zones.len(),
        forall|k: int|
            0 <= k < events[1]->ZonesFinished_0.len() ==> (#[trigger] events[1]->ZonesFinished_0[k])
                is Ok,
        run_trace(config, events).1[i] == RunActionView::Persist(
            History::of(gate(events[0]->Discovered_0, config.history).applied()),
        ),
{
    lemma_run_trace_shape(config, events);
    let actions = run_trace(config, events).1;
    let at = |n: int| run_trace(config, events.take(n));
    assert(events.take(0) =~= Seq::<RunEventView>::empty());
    assert(at(0).1 == actions.take(1));
    assert(actions.take(1)[0] == actions[0]);
    assert(!(actions[0] is Persist));
    assert(i >= 1);
    let one = events.take(1);
    assert(one.drop_last() =~= events.take(0));
    assert(one.last() == events[0]);
    assert(at(1).1 == actions.take(2));
    assert(actions.take(2)[1] == actions[1]);
    assert(!(actions[1] is Persist));
    assert(i >= 2);
    let two = events.take(2);
    assert(two.drop_last() =~= one);
    assert(two.last() == events[1]);
    assert(at(2).1 == actions.take(3));
    assert(actions.take(3)[2] == actions[2]);
    assert(at(2).0 is Finished);
    if i > 2 {
        lemma_run_stays_over(config, events, 2, i);
    }
    assert(actions[2] is Persist);
    lemma_failed_zones_bounds(events[1]->ZonesFinished_0);
}

/// A trace holds one action more than there were events, and the trace of the
/// first events is the beginning of the trace of all.
pub proof fn lemma_run_trace_shape(config: ConfigView, events: Seq<RunEventView>)
    ensures
        run_trace(config, events).1.len() == events.len() + 1,
        forall|n: int|
            0 <= n <= events.len() ==> #[trigger] run_trace(config, events.take(n)).1 == run_trace(
                config,
                events,
            ).1.take(n + 1),
    decreases events.len(),
{
    let actions = run_trace(config, events).1;
    if events.len() > 0 {
        let shorter = events.drop_last();
        lemma_run_trace_shape(config, shorter);
        assert forall|n: int| 0 <= n <= events.len() implies #[trigger] run_trace(
            config,
            events.take(n),
        ).1 == actions.take(n + 1) by {
            if n == events.len() {
                assert(events.take(n) =~= events);
                assert(actions.take(n + 1) =~= actions);
            } else {
                assert(events.take(n) =~= shorter.take(n));
                assert(actions.take(n + 1) =~= run_trace(config, shorter).1.take(n + 1));
            }
        }
    } else {
        assert(events.take(0) =~= events);
        assert(actions.take(1) =~= actions);
    }
}

/// Once a run is over it stays over: whatever is handed in afterwards is answered
/// with a failure, and nothing is discovered, updated or stored any more.
pub proof fn lemma_run_stays_over(config: ConfigView, events: Seq<RunEventView>, n: int, i: int)
    requires
        0 <= n < i <= events.len(),
        run_trace(config, events.take(n)).0 is Finished,
    ensures
        run_trace(config, events.take(i)).0 is Finished,
        run_trace(config, events).1[i] == RunActionView::Fail(RunError::OutOfTurn),
    decreases i - n,
{
    lemma_run_trace_shape(config, events);
    let actions = run_trace(config, events).1;
    let upto = events.take(i);
    assert(upto.drop_last() =~= events.take(i - 1));
    assert(upto.last() == events[i - 1]);
    if n < i - 1 {
        lemma_run_stays_over(config, events, n, i - 1);
    }
    assert(run_trace(config, events.take(i - 1)).0 is Finished);
    assert(run_trace(config, upto).1 == actions.take(i + 1));
    assert(actions.take(i + 1)[i] == actions[i]);
    assert(run_trace(config, upto).1.last() == RunActionView::Fail(RunError::OutOfTurn));
}

/// No prefix with a host bit is ever stored: where the discovered pair is well
/// formed, so is every history that a run has stored.
pub proof fn lemma_stored_prefix_is_masked(config: ConfigView, events: Seq<RunEventView>, i: int)
    requires
        0 <= i <= events.len(),
        run_trace(config, events).1[i] is Persist,
        events[0] is Discovered ==> events[0]->Discovered_0.wf(),
    ensures
        ({
            let stored = run_trace(config, events).1[i]->Persist_0;
            AddressPair { ipv4: stored.ipv4, ipv6_prefix: stored.ipv6_prefix }.wf()
        }),
{
    lemma_persist_only_after_full_success(config, events, i);
}

} // verus!
