//! Reading addresses out of the Windows socket-address layouts
//! (`SOCKADDR_INET`: a family, then an IPv4 or IPv6 address in network
//! order) and out of the byte fields of IP Helper rows.
use vstd::prelude::*;

use crate::net::IpAddress;

verus! {

/// `AF_INET` and `AF_INET6` as Windows numbers them.
pub const AF_INET: u16 = 2;

pub const AF_INET6: u16 = 23;

/// The bytes of a `SOCKADDR_INET`.
pub const SOCKADDR_INET_LEN: usize = 28;

/// The bytes of `s` read as one big-endian number.
pub open spec fn big_endian(s: Seq<u8>) -> nat
    decreases s.len(),
{
    if s.len() == 0 {
        0
    } else {
        big_endian(s.drop_last()) * 256 + s.last() as nat
    }
}

/// `256` to the power `n`.
pub open spec fn pow256(n: nat) -> nat
    decreases n,
{
    if n == 0 {
        1
    } else {
        256 * pow256((n - 1) as nat)
    }
}

proof fn lemma_big_endian_bound(s: Seq<u8>)
    ensures
        big_endian(s) < pow256(s.len()),
    decreases s.len(),
{
    if s.len() > 0 {
        lemma_big_endian_bound(s.drop_last());
        let a = big_endian(s.drop_last());
        let p = pow256((s.len() - 1) as nat);
        assert(a * 256 + 255 < p * 256) by (nonlinear_arith)
            requires
                a < p,
        ;
    }
}

/// The family a `SOCKADDR_INET` names (little-endian, as Windows lays it
/// out).
pub open spec fn family_of(b: Seq<u8>) -> nat {
    b[0] as nat + 256 * b[1] as nat
}

/// The address a `SOCKADDR_INET` holds: an IPv4 address in bytes 4 to 8,
/// an IPv6 address in bytes 8 to 24, or nothing for another family.
pub open spec fn spec_sockaddr_inet(b: Seq<u8>) -> Option<IpAddress> {
    if family_of(b) == AF_INET {
        Some(IpAddress::V4(big_endian(b.subrange(4, 8)) as u32))
    } else if family_of(b) == AF_INET6 {
        Some(IpAddress::V6(big_endian(b.subrange(8, 24)) as u128))
    } else {
        None
    }
}

/// The bytes `b[from..to]` as one big-endian number.
fn read_big_endian(b: &[u8], from: usize, to: usize) -> (r: u128)
    requires
        from <= to <= b@.len(),
        to - from <= 16,
    ensures
        r == big_endian(b@.subrange(from as int, to as int)),
{
    let mut acc: u128 = 0;
    let mut i: usize = from;
    while i < to
        invariant
            from <= i <= to <= b@.len(),
            to - from <= 16,
            acc == big_endian(b@.subrange(from as int, i as int)),
        decreases to - i,
    {
        proof {
            let t = b@.subrange(from as int, i + 1);
            assert(t.drop_last() =~= b@.subrange(from as int, i as int));
            lemma_big_endian_bound(b@.subrange(from as int, i as int));
            lemma_pow256_at_most_16((i - from) as nat);
        }
        acc = acc * 256 + (b[i] as u128);
        i = i + 1;
    }
    acc
}

proof fn lemma_pow256_at_most_16(n: nat)
    requires
        n < 16,
    ensures
        pow256(n) * 256 <= 0x1_0000_0000_0000_0000_0000_0000_0000_0000,
    decreases n,
{
    reveal_with_fuel(pow256, 17);
    assert(pow256(15) * 256 == 0x1_0000_0000_0000_0000_0000_0000_0000_0000);
    lemma_pow256_monotone(n, 15);
}

proof fn lemma_pow256_monotone(m: nat, n: nat)
    requires
        m <= n,
    ensures
        pow256(m) <= pow256(n),
    decreases n,
{
    if m < n {
        lemma_pow256_monotone(m, (n - 1) as nat);
    }
}

/// The address a `SOCKADDR_INET` buffer holds.
pub fn parse_sockaddr_inet(buffer: &[u8; 28]) -> (r: Option<IpAddress>)
    ensures
        r == spec_sockaddr_inet(buffer@),
{
    let b = buffer.as_slice();
    let family: u16 = (b[0] as u16) + 256 * (b[1] as u16);
    if family == AF_INET {
        proof {
            lemma_big_endian_bound(b@.subrange(4, 8));
            reveal_with_fuel(pow256, 5);
        }
        let v = read_big_endian(b, 4, 8);
        Some(IpAddress::V4(v as u32))
    } else if family == AF_INET6 {
        let v = read_big_endian(b, 8, 24);
        Some(IpAddress::V6(v))
    } else {
        None
    }
}

/// The destination prefix of a route row: its address and length.
pub fn parse_ip_prefix(prefix: &[u8; 28], prefix_length: u8) -> (r: Option<(IpAddress, u8)>)
    ensures
        r == match spec_sockaddr_inet(prefix@) {
            Some(a) => Some((a, prefix_length)),
            None => None,
        },
{
    match parse_sockaddr_inet(prefix) {
        Some(a) => Some((a, prefix_length)),
        None => None,
    }
}

/// An IPv6 address given as its sixteen bytes in network order.
pub fn ipv6_from_bytes(bytes: &[u8; 16]) -> (r: IpAddress)
    ensures
        r == IpAddress::V6(big_endian(bytes@) as u128),
{
    let b = bytes.as_slice();
    let v = read_big_endian(b, 0, 16);
    proof {
        assert(b@.subrange(0, 16) =~= b@);
    }
    IpAddress::V6(v)
}

} // verus!
