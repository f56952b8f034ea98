//! IPv4 addresses and IPv6 prefixes as integers.
//!
//! An IPv4 address is the `u32` of its four octets in network order, an IPv6 address
//! the `u128` of its sixteen. A prefix is an IPv6 address whose lower 64 bits are zero.

use vstd::prelude::*;

verus! {

/// The bits of an IPv6 address that name its network.
pub const PREFIX_MASK: u128 = 0xFFFF_FFFF_FFFF_FFFF_0000_0000_0000_0000;

/// The bits of an IPv6 address that name the host inside its network.
pub const SUFFIX_MASK: u128 = 0x0000_0000_0000_0000_FFFF_FFFF_FFFF_FFFF;

/// The network prefix of `address`: its upper 64 bits, the rest cleared.
pub open spec fn prefix_of(address: u128) -> u128 {
    address & PREFIX_MASK
}

/// Whether `bits` is already a prefix, that is, has no host bit set.
pub open spec fn is_prefix(bits: u128) -> bool {
    bits & SUFFIX_MASK == 0
}

/// The address of the host `suffix` inside the network `prefix`.
pub open spec fn host_address(prefix: u128, suffix: u128) -> u128 {
    prefix | suffix
}

/// What a host observes of itself, or what it last published: an IPv4 address and
/// an IPv6 network prefix, either of which may be absent.
#[derive(Clone, Copy, Debug, PartialEq, Eq)]
pub struct AddressPair {
    pub ipv4: Option<u32>,
    pub ipv6_prefix: Option<u128>,
}

impl AddressPair {
    /// The prefix, where there is one, has no host bit set.
    pub open spec fn wf(self) -> bool {
        self.ipv6_prefix is Some ==> is_prefix(self.ipv6_prefix->0)
    }

    /// Neither field is present.
    pub open spec fn is_empty_spec(self) -> bool {
        self.ipv4 is None && self.ipv6_prefix is None
    }

    /// A pair from an IPv4 address and a full IPv6 address, the latter masked down
    /// to its prefix.
    pub fn new(ipv4: Option<u32>, ipv6: Option<u128>) -> (pair: AddressPair)
        ensures
            pair.wf(),
            pair.ipv4 == ipv4,
            ipv6 is None ==> pair.ipv6_prefix is None,
            ipv6 is Some ==> pair.ipv6_prefix == Some(prefix_of(ipv6->0)),
    {
        let ipv6_prefix: Option<u128> = match ipv6 {
            Some(address) => Some(ipv6_prefix(address)),
            None => None,
        };
        AddressPair { ipv4, ipv6_prefix }
    }

    /// Whether neither field is present.
    #[verifier::when_used_as_spec(is_empty_spec)]
    pub fn is_empty(self) -> (empty: bool)
        ensures
            empty == self.is_empty_spec(),
    {
        self.ipv4.is_none() && self.ipv6_prefix.is_none()
    }
}

/// Masks an IPv6 address down to its network prefix.
pub fn ipv6_prefix(address: u128) -> (prefix: u128)
    ensures
        prefix == prefix_of(address),
        is_prefix(prefix),
{
    let prefix: u128 = address & PREFIX_MASK;
    assert((address & 0xFFFF_FFFF_FFFF_FFFF_0000_0000_0000_0000u128)
        & 0x0000_0000_0000_0000_FFFF_FFFF_FFFF_FFFFu128 == 0) by (bit_vector);
    prefix
}

/// Joins a network prefix and a host suffix into one address.
pub fn compose_address(prefix: u128, suffix: u128) -> (address: u128)
    ensures
        address == host_address(prefix, suffix),
{
    prefix | suffix
}

/// Masking twice is masking once, and a prefix is its own prefix.
pub proof fn lemma_prefix_idempotent(address: u128)
    ensures
        is_prefix(prefix_of(address)),
        prefix_of(prefix_of(address)) == prefix_of(address),
        is_prefix(address) ==> prefix_of(address) == address,
{
    assert((address & 0xFFFF_FFFF_FFFF_FFFF_0000_0000_0000_0000u128)
        & 0x0000_0000_0000_0000_FFFF_FFFF_FFFF_FFFFu128 == 0) by (bit_vector);
    assert((address & 0xFFFF_FFFF_FFFF_FFFF_0000_0000_0000_0000u128)
        & 0xFFFF_FFFF_FFFF_FFFF_0000_0000_0000_0000u128
        == address & 0xFFFF_FFFF_FFFF_FFFF_0000_0000_0000_0000u128) by (bit_vector);
    assert(address & 0x0000_0000_0000_0000_FFFF_FFFF_FFFF_FFFFu128 == 0
        ==> address & 0xFFFF_FFFF_FFFF_FFFF_0000_0000_0000_0000u128 == address) by (bit_vector);
}

/// Two suffixes that agree on their network bits give composed addresses in the
/// same network, whatever their host bits are.
pub proof fn lemma_host_bits_leave_network(prefix: u128, suffix: u128, other: u128)
    requires
        suffix & PREFIX_MASK == other & PREFIX_MASK,
    ensures
        prefix_of(host_address(prefix, suffix)) == prefix_of(host_address(prefix, other)),
{
    assert(suffix & 0xFFFF_FFFF_FFFF_FFFF_0000_0000_0000_0000u128 == other
        & 0xFFFF_FFFF_FFFF_FFFF_0000_0000_0000_0000u128 ==> (prefix | suffix)
        & 0xFFFF_FFFF_FFFF_FFFF_0000_0000_0000_0000u128 == (prefix | other)
        & 0xFFFF_FFFF_FFFF_FFFF_0000_0000_0000_0000u128) by (bit_vector);
}

/// In a composed address the host half is the suffix's host half, whatever the
/// suffix holds elsewhere, and the network half is the prefix joined with whatever
/// network bits the suffix brought along.
pub proof fn lemma_host_address_halves(prefix: u128, suffix: u128)
    requires
        is_prefix(prefix),
    ensures
        host_address(prefix, suffix) & SUFFIX_MASK == suffix & SUFFIX_MASK,
        host_address(prefix, suffix) & PREFIX_MASK == prefix | (suffix & PREFIX_MASK),
        is_prefix(suffix & PREFIX_MASK),
        suffix & PREFIX_MASK == 0 ==> prefix_of(host_address(prefix, suffix)) == prefix,
{
    assert(prefix & 0x0000_0000_0000_0000_FFFF_FFFF_FFFF_FFFFu128 == 0 ==> (prefix | suffix)
        & 0x0000_0000_0000_0000_FFFF_FFFF_FFFF_FFFFu128 == suffix
        & 0x0000_0000_0000_0000_FFFF_FFFF_FFFF_FFFFu128) by (bit_vector);
    assert(prefix & 0x0000_0000_0000_0000_FFFF_FFFF_FFFF_FFFFu128 == 0 ==> (prefix | suffix)
        & 0xFFFF_FFFF_FFFF_FFFF_0000_0000_0000_0000u128 == prefix | (suffix
        & 0xFFFF_FFFF_FFFF_FFFF_0000_0000_0000_0000u128)) by (bit_vector);
    assert((suffix & 0xFFFF_FFFF_FFFF_FFFF_0000_0000_0000_0000u128)
        & 0x0000_0000_0000_0000_FFFF_FFFF_FFFF_FFFFu128 == 0) by (bit_vector);
    assert(prefix | 0u128 == prefix) by (bit_vector);
}

} // verus!
