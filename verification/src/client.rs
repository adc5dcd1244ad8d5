//! Client identity: the network address a request arrived from, reduced to
//! the plain values the abuse tracker compares.

use vstd::prelude::*;

verus! {

/// The requester's network address, the key for abuse tracking.
///
/// A version 4 address is held as its four octets packed big-endian into a
/// `u32`; a version 6 address as its sixteen octets packed big-endian into a
/// `u128`. Equality is exact, and an address never equals one of the other
/// version.
#[derive(Clone, Copy, PartialEq, Eq, Hash, Debug, Structural)]
pub enum ClientId {
    /// An IPv4 address, octets packed big-endian.
    V4(u32),
    /// An IPv6 address, octets packed big-endian.
    V6(u128),
}

} // verus!
