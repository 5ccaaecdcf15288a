//! Controller addresses.
use vstd::prelude::*;

verus! {

/// A network address: an IPv4 address as its 32 bits, or an IPv6 address
/// as its 128 bits, most significant octet first.
#[derive(Clone, Copy, Debug, PartialEq, Eq, Hash, Structural)]
pub enum IpAddress {
    V4(u32),
    V6(u128),
}

/// A controller: its network address and the backplane slot of the module.
/// Two addresses name the same controller when both parts are equal.
#[derive(Clone, Copy, Debug, PartialEq, Eq, Hash, Structural)]
pub struct EipAddr {
    pub addr: IpAddress,
    pub slot: u8,
}

} // verus!
