//! IP addresses as plain integers.
use vstd::prelude::*;

verus! {

/// An IPv4 or IPv6 address; the integer holds the octets in network
/// (big-endian) order, as `u32::from(Ipv4Addr)` and `u128::from(Ipv6Addr)`.
#[derive(Debug, Clone, Copy, PartialEq, Eq, Hash, Structural)]
pub enum IpAddress {
    V4(u32),
    V6(u128),
}

impl IpAddress {
    /// The IPv4 address `a.b.c.d`.
    pub fn v4(a: u8, b: u8, c: u8, d: u8) -> (r: IpAddress)
        ensures
            r == IpAddress::V4((a * 0x1000000 + b * 0x10000 + c * 0x100 + d) as u32),
    {
        let value: u32 = (a as u32) * 0x1000000 + (b as u32) * 0x10000 + (c as u32) * 0x100 + (d as u32);
        IpAddress::V4(value)
    }

    pub fn is_ipv4(&self) -> (r: bool)
        ensures
            r == (*self is V4),
    {
        matches!(self, IpAddress::V4(_))
    }

    pub fn is_ipv6(&self) -> (r: bool)
        ensures
            r == (*self is V6),
    {
        matches!(self, IpAddress::V6(_))
    }
}

} // verus!
