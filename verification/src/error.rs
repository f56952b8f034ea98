//! The ways in which a zone, a run or address discovery can fail.

use vstd::prelude::*;

verus! {

/// Why the update of one zone failed.
#[derive(Clone, Copy, Debug, PartialEq, Eq)]
pub enum ZoneError {
    /// A request to the provider did not come back.
    RemoteUnavailable,
    /// More than one active zone carries the configured name.
    AmbiguousZone,
    /// No active zone carries the configured name.
    ZoneNotFound,
    /// A record listing came with paging information that cannot be read.
    UnexpectedResponse,
    /// The record listing went on past the last page number there is.
    PageCounterOverflow,
    /// So many records were missing remotely or could not be updated.
    UpdatesFailed(u32),
    /// An answer arrived that the zone was not waiting for.
    OutOfTurn,
}

/// Why a whole run failed.
#[derive(Clone, Copy, Debug, PartialEq, Eq)]
pub enum RunError {
    /// So many zones failed.
    ZonesFailed(u32),
    /// An answer arrived that the run was not waiting for.
    OutOfTurn,
}

/// Why no address could be read off a network interface.
#[derive(Clone, Copy, Debug, PartialEq, Eq)]
pub enum DiscoveryError {
    /// The interface has no globally routable IPv4 address.
    NoGlobalIpv4,
    /// The interface has no global unicast IPv6 address.
    NoGlobalIpv6,
}

/// `count`, held at the largest `u32` once it passes it.
pub open spec fn saturated(count: int) -> u32 {
    if count <= 0 {
        0u32
    } else if count >= u32::MAX as int {
        u32::MAX
    } else {
        count as u32
    }
}

} // verus!
