//! The change gate: which observed addresses differ from the remembered ones.

use vstd::prelude::*;
use crate::address::AddressPair;
use crate::config::History;

verus! {

/// How one observed address relates to the remembered one.
#[derive(Clone, Copy, Debug, PartialEq, Eq)]
pub enum Change<T> {
    /// The address family is switched off: nothing was observed.
    Disabled,
    /// The observed address is the remembered one.
    Unchanged,
    /// Nothing was remembered, so the observed address is published.
    Unknown { now: T },
    /// The observed address differs from the remembered one.
    Changed { from: T, to: T },
}

impl<T> Change<T> {
    /// The address to publish, if any.
    pub open spec fn applied_spec(self) -> Option<T> {
        match self {
            Change::Disabled => None,
            Change::Unchanged => None,
            Change::Unknown { now } => Some(now),
            Change::Changed { from, to } => Some(to),
        }
    }

    /// The address to publish, if any.
    #[verifier::when_used_as_spec(applied_spec)]
    pub fn applied(self) -> (address: Option<T>)
        ensures
            address == self.applied_spec(),
    {
        match self {
            Change::Disabled => None,
            Change::Unchanged => None,
            Change::Unknown { now } => Some(now),
            Change::Changed { from, to } => Some(to),
        }
    }
}

/// How `observed` relates to `previous`.
pub open spec fn change_of<T>(observed: Option<T>, previous: Option<T>) -> Change<T> {
    match (observed, previous) {
        (None, _) => Change::Disabled,
        (Some(now), None) => Change::Unknown { now },
        (Some(now), Some(before)) => if now == before {
            Change::Unchanged
        } else {
            Change::Changed { from: before, to: now }
        },
    }
}

/// The address to publish: the observed one, unless it is the remembered one.
pub open spec fn changed<T>(observed: Option<T>, previous: Option<T>) -> Option<T> {
    if observed == previous {
        None
    } else {
        observed
    }
}

/// How the observed IPv4 address relates to the remembered one.
pub fn ipv4_change(observed: Option<u32>, previous: Option<u32>) -> (change: Change<u32>)
    ensures
        change == change_of(observed, previous),
        change.applied() == changed(observed, previous),
{
    match (observed, previous) {
        (None, _) => Change::Disabled,
        (Some(now), None) => Change::Unknown { now },
        (Some(now), Some(before)) => if now == before {
            Change::Unchanged
        } else {
            Change::Changed { from: before, to: now }
        },
    }
}

/// How the observed IPv6 prefix relates to the remembered one.
pub fn ipv6_prefix_change(observed: Option<u128>, previous: Option<u128>) -> (change: Change<u128>)
    ensures
        change == change_of(observed, previous),
        change.applied() == changed(observed, previous),
{
    match (observed, previous) {
        (None, _) => Change::Disabled,
        (Some(now), None) => Change::Unknown { now },
        (Some(now), Some(before)) => if now == before {
            Change::Unchanged
        } else {
            Change::Changed { from: before, to: now }
        },
    }
}

/// What the comparison found for both address families.
#[derive(Clone, Copy, Debug, PartialEq, Eq)]
pub struct Changes {
    pub ipv4: Change<u32>,
    pub ipv6_prefix: Change<u128>,
}

impl Changes {
    /// The addresses to publish.
    pub open spec fn applied_spec(self) -> AddressPair {
        AddressPair { ipv4: self.ipv4.applied(), ipv6_prefix: self.ipv6_prefix.applied() }
    }

    /// The addresses to publish.
    #[verifier::when_used_as_spec(applied_spec)]
    pub fn applied(self) -> (pair: AddressPair)
        ensures
            pair == self.applied_spec(),
    {
        AddressPair { ipv4: self.ipv4.applied(), ipv6_prefix: self.ipv6_prefix.applied() }
    }
}

/// What comparing `observed` with `history` finds.
pub open spec fn gate(observed: AddressPair, history: History) -> Changes {
    Changes {
        ipv4: change_of(observed.ipv4, history.ipv4),
        ipv6_prefix: change_of(observed.ipv6_prefix, history.ipv6_prefix),
    }
}

/// Compares the observed addresses with the remembered ones, field by field.
///
/// A field of the applied pair is present exactly if the address was observed and
/// is not the remembered one.
pub fn change_gate(observed: AddressPair, history: History) -> (changes: Changes)
    ensures
        changes == gate(observed, history),
        changes.applied().ipv4 == changed(observed.ipv4, history.ipv4),
        changes.applied().ipv6_prefix == changed(observed.ipv6_prefix, history.ipv6_prefix),
        observed.wf() ==> changes.applied().wf(),
{
    Changes {
        ipv4: ipv4_change(observed.ipv4, history.ipv4),
        ipv6_prefix: ipv6_prefix_change(observed.ipv6_prefix, history.ipv6_prefix),
    }
}

/// Against a history that remembers exactly what is observed, nothing is let
/// through.
pub proof fn lemma_gate_idempotent(pair: AddressPair)
    ensures
        gate(pair, History::of(pair)).applied().is_empty(),
{
}

/// What is let through is what was observed, wherever anything is let
/// through; and once that has been remembered, the same observation passes no more.
pub proof fn lemma_gate_settles(observed: AddressPair, history: History)
    ensures
        ({
            let new = gate(observed, history).applied();
            &&& new.ipv4 is Some ==> new.ipv4 == observed.ipv4
            &&& new.ipv6_prefix is Some ==> new.ipv6_prefix == observed.ipv6_prefix
            &&& new == observed ==> gate(observed, History::of(new)).applied().is_empty()
        }),
{
}

} // verus!
