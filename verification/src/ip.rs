//! Picking the host's address out of what its network interfaces carry.

use itertools::Itertools;
use vstd::prelude::*;
use crate::address::{ipv6_prefix, is_prefix, lemma_prefix_idempotent, prefix_of};
use crate::error::DiscoveryError;
use crate::views::views;

verus! {

/// The address of one entry of an interface, as far as this crate tells
/// addresses apart.
#[derive(Clone, Copy, Debug, PartialEq, Eq)]
#[allow(inconsistent_fields)]
pub enum SocketAddress {
    /// An IPv4 address, and whether it is globally routable.
    V4 { address: u32, global: bool },
    /// An IPv6 address, and whether it is a global unicast address.
    V6 { address: u128, unicast_global: bool },
    /// An address of another family.
    Other,
}

/// One entry of the list of addresses that the host's interfaces carry.
#[derive(Clone, Debug, PartialEq, Eq)]
pub struct InterfaceAddress {
    /// The name of the interface.
    pub interface_name: String,
    /// The address of the entry, if it has one.
    pub address: Option<SocketAddress>,
}

/// An [`InterfaceAddress`] with its name as a sequence of characters.
pub struct InterfaceAddressView {
    pub interface_name: Seq<char>,
    pub address: Option<SocketAddress>,
}

impl View for InterfaceAddress {
    type V = InterfaceAddressView;

    open spec fn view(&self) -> InterfaceAddressView {
        InterfaceAddressView { interface_name: self.interface_name@, address: self.address }
    }
}

/// The address that was picked, and whether there was more than one to pick from.
#[derive(Clone, Copy, Debug, PartialEq, Eq)]
pub struct Choice<T> {
    /// The first of the addresses that qualify.
    pub address: T,
    /// Whether another, different address qualifies too.
    pub ambiguous: bool,
}

/// `items` without every item that occurred before, the others in their order.
pub open spec fn first_occurrences<T>(items: Seq<T>) -> Seq<T>
    decreases items.len(),
{
    if items.len() == 0 {
        Seq::empty()
    } else {
        let before = first_occurrences(items.drop_last());
        if items.drop_last().contains(items.last()) {
            before
        } else {
            before.push(items.last())
        }
    }
}

/// The integer types that stand for addresses: `u32` and `u128`, and no other.
/// Two values of such a type are equal, and hash alike, exactly if they are the
/// same number.
trait AddressBits: Copy + Eq + core::hash::Hash {}

impl AddressBits for u32 {}

impl AddressBits for u128 {}

/// `itertools::Itertools::unique`, collected into a vector: the addresses of
/// `items` in their order, each one only where it occurs first.
#[verifier::external_body]
fn unique<T: AddressBits>(items: Vec<T>) -> (kept: Vec<T>)
    ensures
        kept@ == first_occurrences(items@),
{
    items.into_iter().unique().collect()
}

/// The IPv4 address that `entry` offers for the interface `iface`: its address, if
/// the entry belongs to the interface and the address is a globally routable IPv4
/// address.
pub open spec fn ipv4_candidate(iface: Seq<char>, entry: InterfaceAddressView) -> Option<u32> {
    match entry.address {
        Some(SocketAddress::V4 { address, global }) => if entry.interface_name == iface && global {
            Some(address)
        } else {
            None
        },
        _ => None,
    }
}

/// The IPv6 prefix that `entry` offers for the interface `iface`: the prefix of its
/// address, if the entry belongs to the interface and the address is a global
/// unicast IPv6 address.
pub open spec fn ipv6_candidate(iface: Seq<char>, entry: InterfaceAddressView) -> Option<u128> {
    match entry.address {
        Some(SocketAddress::V6 { address, unicast_global }) => if entry.interface_name == iface
            && unicast_global {
            Some(prefix_of(address))
        } else {
            None
        },
        _ => None,
    }
}

/// What the entries offer, in their order, where `offer` says what one entry offers.
pub open spec fn candidates<T>(
    entries: Seq<InterfaceAddressView>,
    offer: spec_fn(InterfaceAddressView) -> Option<T>,
) -> Seq<T>
    decreases entries.len(),
{
    if entries.len() == 0 {
        Seq::empty()
    } else {
        let before = candidates(entries.drop_last(), offer);
        match offer(entries.last()) {
            Some(address) => before.push(address),
            None => before,
        }
    }
}

/// The IPv4 addresses that `entries` offer for the interface `iface`.
pub open spec fn ipv4_candidates(iface: Seq<char>, entries: Seq<InterfaceAddressView>) -> Seq<u32> {
    candidates(entries, |entry: InterfaceAddressView| ipv4_candidate(iface, entry))
}

/// The IPv6 prefixes that `entries` offer for the interface `iface`.
pub open spec fn ipv6_candidates(iface: Seq<char>, entries: Seq<InterfaceAddressView>) -> Seq<
    u128,
> {
    candidates(entries, |entry: InterfaceAddressView| ipv6_candidate(iface, entry))
}

/// The choice among `offered`: the first address, marked ambiguous if a different
/// one is offered too. Nothing can be chosen where nothing is offered.
pub open spec fn choice_of<T>(offered: Seq<T>) -> Option<Choice<T>> {
    if offered.len() == 0 {
        None
    } else {
        Some(
            Choice {
                address: offered[0],
                ambiguous: exists|i: int|
                    0 <= i < offered.len() && #[trigger] offered[i] != offered[0],
            },
        )
    }
}

/// What first occurrences are: no item twice, every item of the sequence and no
/// other, the first item in front; and there are two or more of them exactly if
/// some item differs from the first.
pub proof fn lemma_first_occurrences<T>(items: Seq<T>)
    ensures
        first_occurrences(items).no_duplicates(),
        forall|item: T| #[trigger]
            first_occurrences(items).contains(item) <==> items.contains(item),
        first_occurrences(items).len() <= items.len(),
        items.len() > 0 ==> first_occurrences(items).len() > 0 && first_occurrences(items)[0]
            == items[0],
        first_occurrences(items).len() > 1 <==> exists|i: int|
            0 <= i < items.len() && #[trigger] items[i] != items[0],
    decreases items.len(),
{
    let kept = first_occurrences(items);
    if items.len() > 0 {
        let shorter = items.drop_last();
        let last = items.last();
        let before = first_occurrences(shorter);
        lemma_first_occurrences(shorter);
        assert forall|item: T| #[trigger] kept.contains(item) <==> items.contains(item) by {
            if kept.contains(item) {
                if before.contains(item) {
                    assert(shorter.contains(item));
                    let i = choose|i: int| 0 <= i < shorter.len() && shorter[i] == item;
                    assert(items[i] == item);
                } else {
                    let i = choose|i: int| 0 <= i < kept.len() && kept[i] == item;
                    if i < before.len() {
                        assert(before[i] == item);
                    }
                    assert(items[items.len() - 1] == item);
                }
            }
            if items.contains(item) {
                let i = choose|i: int| 0 <= i < items.len() && items[i] == item;
                if i < shorter.len() {
                    assert(shorter[i] == item);
                    assert(before.contains(item));
                    let j = choose|j: int| 0 <= j < before.len() && before[j] == item;
                    assert(kept[j] == item);
                } else if shorter.contains(last) {
                    assert(before.contains(item));
                } else {
                    assert(kept[kept.len() - 1] == item);
                }
            }
        }
        if !shorter.contains(last) {
            assert(!before.contains(last));
            assert forall|a: int, b: int|
                0 <= a < kept.len() && 0 <= b < kept.len() && a != b implies kept[a]
                != kept[b] by {
                if a == before.len() {
                    assert(before.contains(before[b]));
                } else if b == before.len() {
                    assert(before.contains(before[a]));
                }
            }
        }
        if shorter.len() == 0 {
            assert(!shorter.contains(last));
            assert(kept =~= seq![last]);
        } else {
            assert(shorter[0] == items[0]);
            assert(kept[0] == before[0]);
        }
        if kept.len() > 1 {
            if before.len() > 1 {
                let i = choose|i: int|
                    0 <= i < shorter.len() && #[trigger] shorter[i] != shorter[0];
                assert(items[i] != items[0]);
            } else {
                assert(!shorter.contains(last));
                assert(shorter[0] == items[0]);
                assert(items[items.len() - 1] != items[0]);
            }
        }
        if exists|i: int| 0 <= i < items.len() && #[trigger] items[i] != items[0] {
            let i = choose|i: int| 0 <= i < items.len() && #[trigger] items[i] != items[0];
            assert(kept.contains(items[i]));
            assert(kept.contains(items[0]));
            let a = choose|a: int| 0 <= a < kept.len() && kept[a] == items[i];
            let b = choose|b: int| 0 <= b < kept.len() && kept[b] == items[0];
            assert(a != b);
        }
    }
}

/// Picks the first of `distinct`, the first occurrences of `offered`, and says
/// whether there is another address besides.
fn choose_first<T: AddressBits>(distinct: &Vec<T>, Ghost(offered): Ghost<Seq<T>>) -> (choice:
    Option<Choice<T>>)
    requires
        distinct@ == first_occurrences(offered),
    ensures
        choice == choice_of(offered),
{
    proof {
        lemma_first_occurrences(offered);
    }
    if distinct.len() == 0 {
        None
    } else {
        Some(Choice { address: distinct[0], ambiguous: distinct.len() > 1 })
    }
}

/// Picks the IPv4 address of the interface `iface` out of `entries`, the addresses
/// that the host's interfaces carry.
///
/// The address is that of the first entry which belongs to the interface and holds
/// a globally routable IPv4 address. The choice is marked ambiguous where a later
/// such entry holds a different address.
pub fn interface_ipv4(iface: &str, entries: &Vec<InterfaceAddress>) -> (found: Result<
    Choice<u32>,
    DiscoveryError,
>)
    ensures
        found is Ok <==> ipv4_candidates(iface@, views(entries@)).len() > 0,
        found matches Ok(choice) ==> Some(choice) == choice_of(
            ipv4_candidates(iface@, views(entries@)),
        ),
        found matches Err(error) ==> error == DiscoveryError::NoGlobalIpv4,
{
    let wanted: String = iface.to_owned();
    let ghost all = views(entries@);
    let ghost offer = |entry: InterfaceAddressView| ipv4_candidate(iface@, entry);
    let mut offered: Vec<u32> = Vec::new();
    let mut i: usize = 0;
    while i < entries.len()
        invariant
            i <= entries.len(),
            all == views(entries@),
            wanted@ == iface@,
            offer == |entry: InterfaceAddressView| ipv4_candidate(iface@, entry),
            offered@ == candidates(all.take(i as int), offer),
        decreases entries.len() - i,
    {
        let entry = &entries[i];
        proof {
            assert(all.take(i + 1).drop_last() =~= all.take(i as int));
            assert(all.take(i + 1).last() == entry@);
        }
        if entry.interface_name == wanted {
            match entry.address {
                Some(SocketAddress::V4 { address, global }) => {
                    if global {
                        offered.push(address);
                    }
                },
                _ => {},
            }
        }
        i += 1;
    }
    proof {
        assert(all.take(entries.len() as int) =~= all);
    }
    let ghost all_offered = offered@;
    let distinct = unique(offered);
    match choose_first(&distinct, Ghost(all_offered)) {
        Some(choice) => Ok(choice),
        None => Err(DiscoveryError::NoGlobalIpv4),
    }
}

/// Picks the IPv6 prefix of the interface `iface` out of `entries`, the addresses
/// that the host's interfaces carry.
///
/// The prefix is that of the first entry which belongs to the interface and holds
/// a global unicast IPv6 address. The choice is marked ambiguous where a later such
/// entry lies in a different network.
pub fn interface_ipv6_prefix(iface: &str, entries: &Vec<InterfaceAddress>) -> (found: Result<
    Choice<u128>,
    DiscoveryError,
>)
    ensures
        found is Ok <==> ipv6_candidates(iface@, views(entries@)).len() > 0,
        found matches Ok(choice) ==> Some(choice) == choice_of(
            ipv6_candidates(iface@, views(entries@)),
        ),
        found matches Ok(choice) ==> is_prefix(choice.address),
        found matches Err(error) ==> error == DiscoveryError::NoGlobalIpv6,
{
    let wanted: String = iface.to_owned();
    let ghost all = views(entries@);
    let ghost offer = |entry: InterfaceAddressView| ipv6_candidate(iface@, entry);
    let mut offered: Vec<u128> = Vec::new();
    let mut i: usize = 0;
    while i < entries.len()
        invariant
            i <= entries.len(),
            all == views(entries@),
            wanted@ == iface@,
            offer == |entry: InterfaceAddressView| ipv6_candidate(iface@, entry),
            offered@ == candidates(all.take(i as int), offer),
            forall|j: int| 0 <= j < offered.len() ==> is_prefix(#[trigger] offered[j]),
        decreases entries.len() - i,
    {
        let entry = &entries[i];
        proof {
            assert(all.take(i + 1).drop_last() =~= all.take(i as int));
            assert(all.take(i + 1).last() == entry@);
        }
        if entry.interface_name == wanted {
            match entry.address {
                Some(SocketAddress::V6 { address, unicast_global }) => {
                    if unicast_global {
                        offered.push(ipv6_prefix(address));
                    }
                },
                _ => {},
            }
        }
        i += 1;
    }
    proof {
        assert(all.take(entries.len() as int) =~= all);
    }
    let ghost all_offered = offered@;
    let distinct = unique(offered);
    match choose_first(&distinct, Ghost(all_offered)) {
        Some(choice) => Ok(choice),
        None => Err(DiscoveryError::NoGlobalIpv6),
    }
}

/// Every prefix that is offered is a prefix: none has a host bit set.
pub proof fn lemma_ipv6_candidates_are_prefixes(
    iface: Seq<char>,
    entries: Seq<InterfaceAddressView>,
    i: int,
)
    requires
        0 <= i < ipv6_candidates(iface, entries).len(),
    ensures
        is_prefix(ipv6_candidates(iface, entries)[i]),
    decreases entries.len(),
{
    let offer = |entry: InterfaceAddressView| ipv6_candidate(iface, entry);
    if entries.len() > 0 {
        let before = candidates(entries.drop_last(), offer);
        if i < before.len() {
            lemma_ipv6_candidates_are_prefixes(iface, entries.drop_last(), i);
        } else {
            let address = entries.last().address->0->V6_address;
            lemma_prefix_idempotent(address);
        }
    }
}

} // verus!
