//! The WinDivert driver interface: layer and flag constants, the packet
//! address and its byte form, and filter validation.
//!
//! The address travels as an 80-byte context: the timestamp, the flag word
//! and a reserved word, little-endian as on the x86 and Arm targets that
//! WinDivert runs on, then the 64 layer-specific bytes.
use vstd::prelude::*;

use crate::text::{is_blank, str_contains_char, str_is_blank};

verus! {

pub const WINDIVERT_LAYER_NETWORK: u8 = 0;

pub const WINDIVERT_LAYER_NETWORK_FORWARD: u8 = 1;

pub const WINDIVERT_LAYER_FLOW: u8 = 2;

pub const WINDIVERT_LAYER_SOCKET: u8 = 3;

pub const WINDIVERT_LAYER_REFLECT: u8 = 4;

pub const WINDIVERT_FLAG_SNIFF: u64 = 0x0001;

pub const WINDIVERT_FLAG_DROP: u64 = 0x0002;

pub const WINDIVERT_FLAG_RECV_ONLY: u64 = 0x0004;

pub const WINDIVERT_FLAG_SEND_ONLY: u64 = 0x0008;

pub const WINDIVERT_FLAG_NO_INSTALL: u64 = 0x0010;

pub const WINDIVERT_FLAG_FRAGMENTS: u64 = 0x0020;

pub const WINDIVERT_PARAM_QUEUE_LENGTH: u32 = 0;

pub const WINDIVERT_PARAM_QUEUE_TIME: u32 = 1;

pub const WINDIVERT_PARAM_QUEUE_SIZE: u32 = 2;

/// The eight little-endian bytes of `x`.
pub open spec fn le8(x: u64) -> Seq<u8> {
    seq![
        x as u8,
        (x >> 8u64) as u8,
        (x >> 16u64) as u8,
        (x >> 24u64) as u8,
        (x >> 32u64) as u8,
        (x >> 40u64) as u8,
        (x >> 48u64) as u8,
        (x >> 56u64) as u8,
    ]
}

/// The four little-endian bytes of `x`.
pub open spec fn le4(x: u32) -> Seq<u8> {
    seq![x as u8, (x >> 8u32) as u8, (x >> 16u32) as u8, (x >> 24u32) as u8]
}

/// The `u64` with little-endian bytes `b0..b7`.
pub open spec fn u64_le(b0: u8, b1: u8, b2: u8, b3: u8, b4: u8, b5: u8, b6: u8, b7: u8) -> u64 {
    (b0 as u64) | ((b1 as u64) << 8u64) | ((b2 as u64) << 16u64) | ((b3 as u64) << 24u64) | ((
    b4 as u64) << 32u64) | ((b5 as u64) << 40u64) | ((b6 as u64) << 48u64) | ((b7 as u64)
        << 56u64)
}

/// The `u32` with little-endian bytes `b0..b3`.
pub open spec fn u32_le(b0: u8, b1: u8, b2: u8, b3: u8) -> u32 {
    (b0 as u32) | ((b1 as u32) << 8u32) | ((b2 as u32) << 16u32) | ((b3 as u32) << 24u32)
}

proof fn lemma_u64_le_of_le8(x: u64)
    ensures
        u64_le(
            x as u8,
            (x >> 8u64) as u8,
            (x >> 16u64) as u8,
            (x >> 24u64) as u8,
            (x >> 32u64) as u8,
            (x >> 40u64) as u8,
            (x >> 48u64) as u8,
            (x >> 56u64) as u8,
        ) == x,
{
    assert((x as u8 as u64) | (((x >> 8u64) as u8 as u64) << 8u64) | (((x >> 16u64) as u8 as u64)
        << 16u64) | (((x >> 24u64) as u8 as u64) << 24u64) | (((x >> 32u64) as u8 as u64)
        << 32u64) | (((x >> 40u64) as u8 as u64) << 40u64) | (((x >> 48u64) as u8 as u64)
        << 48u64) | (((x >> 56u64) as u8 as u64) << 56u64) == x) by (bit_vector);
}

proof fn lemma_le8_of_u64_le(b0: u8, b1: u8, b2: u8, b3: u8, b4: u8, b5: u8, b6: u8, b7: u8)
    ensures
        le8(u64_le(b0, b1, b2, b3, b4, b5, b6, b7)) == seq![b0, b1, b2, b3, b4, b5, b6, b7],
{
    let x = u64_le(b0, b1, b2, b3, b4, b5, b6, b7);
    assert(x as u8 == b0) by (bit_vector)
        requires
            x == (b0 as u64) | ((b1 as u64) << 8u64) | ((b2 as u64) << 16u64) | ((b3 as u64)
                << 24u64) | ((b4 as u64) << 32u64) | ((b5 as u64) << 40u64) | ((b6 as u64)
                << 48u64) | ((b7 as u64) << 56u64),
    ;
    assert((x >> 8u64) as u8 == b1) by (bit_vector)
        requires
            x == (b0 as u64) | ((b1 as u64) << 8u64) | ((b2 as u64) << 16u64) | ((b3 as u64)
                << 24u64) | ((b4 as u64) << 32u64) | ((b5 as u64) << 40u64) | ((b6 as u64)
                << 48u64) | ((b7 as u64) << 56u64),
    ;
    assert((x >> 16u64) as u8 == b2) by (bit_vector)
        requires
            x == (b0 as u64) | ((b1 as u64) << 8u64) | ((b2 as u64) << 16u64) | ((b3 as u64)
                << 24u64) | ((b4 as u64) << 32u64) | ((b5 as u64) << 40u64) | ((b6 as u64)
                << 48u64) | ((b7 as u64) << 56u64),
    ;
    assert((x >> 24u64) as u8 == b3) by (bit_vector)
        requires
            x == (b0 as u64) | ((b1 as u64) << 8u64) | ((b2 as u64) << 16u64) | ((b3 as u64)
                << 24u64) | ((b4 as u64) << 32u64) | ((b5 as u64) << 40u64) | ((b6 as u64)
                << 48u64) | ((b7 as u64) << 56u64),
    ;
    assert((x >> 32u64) as u8 == b4) by (bit_vector)
        requires
            x == (b0 as u64) | ((b1 as u64) << 8u64) | ((b2 as u64) << 16u64) | ((b3 as u64)
                << 24u64) | ((b4 as u64) << 32u64) | ((b5 as u64) << 40u64) | ((b6 as u64)
                << 48u64) | ((b7 as u64) << 56u64),
    ;
    assert((x >> 40u64) as u8 == b5) by (bit_vector)
        requires
            x == (b0 as u64) | ((b1 as u64) << 8u64) | ((b2 as u64) << 16u64) | ((b3 as u64)
                << 24u64) | ((b4 as u64) << 32u64) | ((b5 as u64) << 40u64) | ((b6 as u64)
                << 48u64) | ((b7 as u64) << 56u64),
    ;
    assert((x >> 48u64) as u8 == b6) by (bit_vector)
        requires
            x == (b0 as u64) | ((b1 as u64) << 8u64) | ((b2 as u64) << 16u64) | ((b3 as u64)
                << 24u64) | ((b4 as u64) << 32u64) | ((b5 as u64) << 40u64) | ((b6 as u64)
                << 48u64) | ((b7 as u64) << 56u64),
    ;
    assert((x >> 56u64) as u8 == b7) by (bit_vector)
        requires
            x == (b0 as u64) | ((b1 as u64) << 8u64) | ((b2 as u64) << 16u64) | ((b3 as u64)
                << 24u64) | ((b4 as u64) << 32u64) | ((b5 as u64) << 40u64) | ((b6 as u64)
                << 48u64) | ((b7 as u64) << 56u64),
    ;
    assert(le8(x) =~= seq![b0, b1, b2, b3, b4, b5, b6, b7]);
}

proof fn lemma_u32_le_of_le4(x: u32)
    ensures
        u32_le(x as u8, (x >> 8u32) as u8, (x >> 16u32) as u8, (x >> 24u32) as u8) == x,
{
    assert((x as u8 as u32) | (((x >> 8u32) as u8 as u32) << 8u32) | (((x >> 16u32) as u8 as u32)
        << 16u32) | (((x >> 24u32) as u8 as u32) << 24u32) == x) by (bit_vector);
}

proof fn lemma_le4_of_u32_le(b0: u8, b1: u8, b2: u8, b3: u8)
    ensures
        le4(u32_le(b0, b1, b2, b3)) == seq![b0, b1, b2, b3],
{
    let x = u32_le(b0, b1, b2, b3);
    assert(x as u8 == b0 && (x >> 8u32) as u8 == b1 && (x >> 16u32) as u8 == b2 && (x >> 24u32) as u8
        == b3) by (bit_vector)
        requires
            x == (b0 as u32) | ((b1 as u32) << 8u32) | ((b2 as u32) << 16u32) | ((b3 as u32)
                << 24u32),
    ;
    assert(le4(x) =~= seq![b0, b1, b2, b3]);
}

/// Where and how WinDivert saw a packet (`WINDIVERT_ADDRESS`).
#[derive(Debug, Clone, Copy, PartialEq, Eq)]
pub struct WinDivertAddress {
    pub timestamp: i64,
    pub flags_raw: u32,
    pub reserved2: u32,
    pub data: [u8; 64],
}

/// The 80-byte context form of an address.
pub open spec fn encode_address(a: WinDivertAddress) -> Seq<u8> {
    le8(a.timestamp as u64) + le4(a.flags_raw) + le4(a.reserved2) + a.data@
}

/// Bit `bit` of a flag word.
pub open spec fn flag_bit(flags: u32, bit: u32) -> bool {
    (flags >> bit) & 1u32 == 1u32
}

impl WinDivertAddress {
    pub const SERIALIZED_LEN: usize = 80;

    /// An all-zero address.
    pub fn zeroed() -> (r: Self)
        ensures
            r.timestamp == 0,
            r.flags_raw == 0,
            r.reserved2 == 0,
            forall|i: int| 0 <= i < 64 ==> r.data@[i] == 0,
    {
        WinDivertAddress { timestamp: 0, flags_raw: 0, reserved2: 0, data: [0u8; 64] }
    }

    /// The layer: the low byte of the flag word.
    pub fn layer(&self) -> (r: u8)
        ensures
            r == self.flags_raw as u8,
    {
        let f = self.flags_raw;
        assert((f & 0xffu32) as u8 == f as u8) by (bit_vector);
        (f & 0xff) as u8
    }

    pub fn is_outbound(&self) -> (r: bool)
        ensures
            r == flag_bit(self.flags_raw, 17),
    {
        (self.flags_raw >> 17u32) & 1 == 1
    }

    pub fn is_loopback(&self) -> (r: bool)
        ensures
            r == flag_bit(self.flags_raw, 18),
    {
        (self.flags_raw >> 18u32) & 1 == 1
    }

    pub fn is_impostor(&self) -> (r: bool)
        ensures
            r == flag_bit(self.flags_raw, 19),
    {
        (self.flags_raw >> 19u32) & 1 == 1
    }

    /// The interface index: the first four layer bytes, little-endian.
    pub fn interface_index(&self) -> (r: u32)
        ensures
            r == u32_le(self.data@[0], self.data@[1], self.data@[2], self.data@[3]),
    {
        (self.data[0] as u32) | ((self.data[1] as u32) << 8u32) | ((self.data[2] as u32) << 16u32)
            | ((self.data[3] as u32) << 24u32)
    }

    /// The 80-byte context form.
    pub fn to_bytes(&self) -> (r: [u8; 80])
        ensures
            r@ == encode_address(*self),
    {
        let mut bytes = [0u8; 80];
        let t = self.timestamp as u64;
        let f = self.flags_raw;
        let g = self.reserved2;
        bytes[0] = t as u8;
        bytes[1] = (t >> 8u64) as u8;
        bytes[2] = (t >> 16u64) as u8;
        bytes[3] = (t >> 24u64) as u8;
        bytes[4] = (t >> 32u64) as u8;
        bytes[5] = (t >> 40u64) as u8;
        bytes[6] = (t >> 48u64) as u8;
        bytes[7] = (t >> 56u64) as u8;
        bytes[8] = f as u8;
        bytes[9] = (f >> 8u32) as u8;
        bytes[10] = (f >> 16u32) as u8;
        bytes[11] = (f >> 24u32) as u8;
        bytes[12] = g as u8;
        bytes[13] = (g >> 8u32) as u8;
        bytes[14] = (g >> 16u32) as u8;
        bytes[15] = (g >> 24u32) as u8;
        assert(forall|j: int| 0 <= j < 8 ==> bytes@[j] == le8(t)[j]);
        assert(forall|j: int| 0 <= j < 4 ==> bytes@[8 + j] == le4(self.flags_raw)[j]);
        assert(forall|j: int| 0 <= j < 4 ==> bytes@[12 + j] == le4(self.reserved2)[j]);
        let mut k: usize = 0;
        while k < 64
            invariant
                k <= 64,
                t == self.timestamp as u64,
                forall|j: int| 0 <= j < 8 ==> bytes@[j] == le8(t)[j],
                forall|j: int| 0 <= j < 4 ==> bytes@[8 + j] == le4(self.flags_raw)[j],
                forall|j: int| 0 <= j < 4 ==> bytes@[12 + j] == le4(self.reserved2)[j],
                forall|j: int| 0 <= j < k ==> bytes@[16 + j] == self.data@[j],
            decreases 64 - k,
        {
            bytes[16 + k] = self.data[k];
            k = k + 1;
        }
        assert(bytes@ =~= encode_address(*self));
        bytes
    }

    /// The address with this context form; `None` unless exactly 80 bytes.
    pub fn from_bytes(bytes: &[u8]) -> (r: Option<Self>)
        ensures
            r is Some == (bytes@.len() == 80),
            r matches Some(a) ==> encode_address(a) == bytes@,
    {
        if bytes.len() != 80 {
            return None;
        }
        let t = (bytes[0] as u64) | ((bytes[1] as u64) << 8u64) | ((bytes[2] as u64) << 16u64) | ((
        bytes[3] as u64) << 24u64) | ((bytes[4] as u64) << 32u64) | ((bytes[5] as u64) << 40u64) | ((
        bytes[6] as u64) << 48u64) | ((bytes[7] as u64) << 56u64);
        let flags_raw = (bytes[8] as u32) | ((bytes[9] as u32) << 8u32) | ((bytes[10] as u32)
            << 16u32) | ((bytes[11] as u32) << 24u32);
        let reserved2 = (bytes[12] as u32) | ((bytes[13] as u32) << 8u32) | ((bytes[14] as u32)
            << 16u32) | ((bytes[15] as u32) << 24u32);
        let mut data = [0u8; 64];
        let mut k: usize = 0;
        while k < 64
            invariant
                k <= 64,
                bytes@.len() == 80,
                forall|j: int| 0 <= j < k ==> data@[j] == bytes@[16 + j],
            decreases 64 - k,
        {
            data[k] = bytes[16 + k];
            k = k + 1;
        }
        let timestamp = t as i64;
        let a = WinDivertAddress { timestamp, flags_raw, reserved2, data };
        proof {
            let b = bytes@;
            assert((t as i64) as u64 == t) by (bit_vector);
            lemma_le8_of_u64_le(b[0], b[1], b[2], b[3], b[4], b[5], b[6], b[7]);
            lemma_le4_of_u32_le(b[8], b[9], b[10], b[11]);
            lemma_le4_of_u32_le(b[12], b[13], b[14], b[15]);
            assert(encode_address(a) =~= b);
        }
        Some(a)
    }
}

/// An address is determined by its context form: decoding what
/// `to_bytes` produced gives the address back.
pub proof fn lemma_address_roundtrip(a: WinDivertAddress, b: WinDivertAddress)
    requires
        encode_address(a) == encode_address(b),
    ensures
        a == b,
{
    let ea = encode_address(a);
    let eb = encode_address(b);
    let ta = a.timestamp as u64;
    let tb = b.timestamp as u64;
    assert(ea.subrange(0, 8) =~= le8(ta));
    assert(eb.subrange(0, 8) =~= le8(tb));
    assert(ea.subrange(8, 12) =~= le4(a.flags_raw));
    assert(eb.subrange(8, 12) =~= le4(b.flags_raw));
    assert(ea.subrange(12, 16) =~= le4(a.reserved2));
    assert(eb.subrange(12, 16) =~= le4(b.reserved2));
    assert(ea.subrange(16, 80) =~= a.data@);
    assert(eb.subrange(16, 80) =~= b.data@);
    lemma_u64_le_of_le8(ta);
    lemma_u64_le_of_le8(tb);
    assert(le8(ta) == le8(tb));
    assert(le8(ta)[0] == le8(tb)[0] && le8(ta)[1] == le8(tb)[1] && le8(ta)[2] == le8(tb)[2]
        && le8(ta)[3] == le8(tb)[3] && le8(ta)[4] == le8(tb)[4] && le8(ta)[5] == le8(tb)[5]
        && le8(ta)[6] == le8(tb)[6] && le8(ta)[7] == le8(tb)[7]);
    assert(ta == tb);
    let sa = a.timestamp;
    let sb = b.timestamp;
    assert(sa as u64 == sb as u64 ==> sa == sb) by (bit_vector);
    lemma_u32_le_of_le4(a.flags_raw);
    lemma_u32_le_of_le4(b.flags_raw);
    assert(le4(a.flags_raw) == le4(b.flags_raw));
    assert(le4(a.flags_raw)[0] == le4(b.flags_raw)[0] && le4(a.flags_raw)[1] == le4(b.flags_raw)[1]
        && le4(a.flags_raw)[2] == le4(b.flags_raw)[2] && le4(a.flags_raw)[3] == le4(
        b.flags_raw,
    )[3]);
    lemma_u32_le_of_le4(a.reserved2);
    lemma_u32_le_of_le4(b.reserved2);
    assert(le4(a.reserved2) == le4(b.reserved2));
    assert(le4(a.reserved2)[0] == le4(b.reserved2)[0] && le4(a.reserved2)[1] == le4(b.reserved2)[1]
        && le4(a.reserved2)[2] == le4(b.reserved2)[2] && le4(a.reserved2)[3] == le4(
        b.reserved2,
    )[3]);
    assert(a.data@ == b.data@);
    assert forall|i: int| 0 <= i < 64 implies a.data@[i] == b.data@[i] by {}
    assert(a.data =~= b.data);
}

#[derive(Debug, Clone, Copy, PartialEq, Eq, Structural)]
pub enum FilterError {
    Empty,
    EmbeddedNul,
}

/// A filter the driver can take: not blank and without NUL characters.
pub fn validate_filter(filter: &str) -> (r: Result<(), FilterError>)
    ensures
        is_blank(filter@) ==> r == Err::<(), FilterError>(FilterError::Empty),
        !is_blank(filter@) && filter@.contains('\0') ==> r == Err::<(), FilterError>(
            FilterError::EmbeddedNul,
        ),
        r is Ok == (!is_blank(filter@) && !filter@.contains('\0')),
{
    if str_is_blank(filter) {
        Err(FilterError::Empty)
    } else if str_contains_char(filter, '\0') {
        Err(FilterError::EmbeddedNul)
    } else {
        Ok(())
    }
}

} // verus!
