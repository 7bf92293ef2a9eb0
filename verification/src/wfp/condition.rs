//! How a filter condition becomes a native WFP condition: which field it
//! names and which typed value it carries.
use vstd::prelude::*;

use crate::error::{EngineError, EngineErrorCode};
use crate::text::{chars_of, lower, lower_eq, trim, trim_str};
use crate::wfp::filter::{opt_bytes, WfpFilterCondition};
use crate::windivert::ffi::u32_le;

verus! {

/// The condition fields a filter can use (`FWPM_CONDITION_*`).
#[derive(Debug, Clone, Copy, PartialEq, Eq, Structural)]
pub enum ConditionField {
    Protocol,
    LocalPort,
    RemotePort,
    Direction,
    LocalAddress,
    RemoteAddress,
    LocalAddressV4,
    RemoteAddressV4,
    LocalAddressV6,
    RemoteAddressV6,
}

impl ConditionField {
    pub open spec fn is_address(self) -> bool {
        self is LocalAddress || self is RemoteAddress || self is LocalAddressV4
            || self is RemoteAddressV4 || self is LocalAddressV6 || self is RemoteAddressV6
    }
}

/// The field a condition name denotes, ignoring surrounding whitespace and
/// ASCII case; each field also has an `ip_`-prefixed spelling.
pub open spec fn spec_condition_field(name: Seq<char>) -> Option<ConditionField> {
    let n = lower(trim(name));
    if n == "protocol"@ || n == "ip_protocol"@ {
        Some(ConditionField::Protocol)
    } else if n == "local_port"@ || n == "ip_local_port"@ {
        Some(ConditionField::LocalPort)
    } else if n == "remote_port"@ || n == "ip_remote_port"@ {
        Some(ConditionField::RemotePort)
    } else if n == "direction"@ {
        Some(ConditionField::Direction)
    } else if n == "local_address"@ || n == "ip_local_address"@ {
        Some(ConditionField::LocalAddress)
    } else if n == "remote_address"@ || n == "ip_remote_address"@ {
        Some(ConditionField::RemoteAddress)
    } else if n == "local_address_v4"@ || n == "ip_local_address_v4"@ {
        Some(ConditionField::LocalAddressV4)
    } else if n == "remote_address_v4"@ || n == "ip_remote_address_v4"@ {
        Some(ConditionField::RemoteAddressV4)
    } else if n == "local_address_v6"@ || n == "ip_local_address_v6"@ {
        Some(ConditionField::LocalAddressV6)
    } else if n == "remote_address_v6"@ || n == "ip_remote_address_v6"@ {
        Some(ConditionField::RemoteAddressV6)
    } else {
        None
    }
}

/// The field `name` denotes.
pub fn condition_field(name: &str) -> (r: Option<ConditionField>)
    ensures
        r == spec_condition_field(name@),
{
    let t = trim_str(name);
    let c = chars_of(t.as_str());
    let s = c.as_slice();
    if lower_eq(s, "protocol") || lower_eq(s, "ip_protocol") {
        Some(ConditionField::Protocol)
    } else if lower_eq(s, "local_port") || lower_eq(s, "ip_local_port") {
        Some(ConditionField::LocalPort)
    } else if lower_eq(s, "remote_port") || lower_eq(s, "ip_remote_port") {
        Some(ConditionField::RemotePort)
    } else if lower_eq(s, "direction") {
        Some(ConditionField::Direction)
    } else if lower_eq(s, "local_address") || lower_eq(s, "ip_local_address") {
        Some(ConditionField::LocalAddress)
    } else if lower_eq(s, "remote_address") || lower_eq(s, "ip_remote_address") {
        Some(ConditionField::RemoteAddress)
    } else if lower_eq(s, "local_address_v4") || lower_eq(s, "ip_local_address_v4") {
        Some(ConditionField::LocalAddressV4)
    } else if lower_eq(s, "remote_address_v4") || lower_eq(s, "ip_remote_address_v4") {
        Some(ConditionField::RemoteAddressV4)
    } else if lower_eq(s, "local_address_v6") || lower_eq(s, "ip_local_address_v6") {
        Some(ConditionField::LocalAddressV6)
    } else if lower_eq(s, "remote_address_v6") || lower_eq(s, "ip_remote_address_v6") {
        Some(ConditionField::RemoteAddressV6)
    } else {
        None
    }
}

/// Number of leading one bits of a byte whose ones all come first.
pub open spec fn lead_ones(b: u8) -> Option<nat> {
    if b == 0x00 {
        Some(0)
    } else if b == 0x80 {
        Some(1)
    } else if b == 0xc0 {
        Some(2)
    } else if b == 0xe0 {
        Some(3)
    } else if b == 0xf0 {
        Some(4)
    } else if b == 0xf8 {
        Some(5)
    } else if b == 0xfc {
        Some(6)
    } else if b == 0xfe {
        Some(7)
    } else if b == 0xff {
        Some(8)
    } else {
        None
    }
}

/// The prefix length of a mask: its bits, most significant first, are a
/// run of ones followed only by zeros.
pub open spec fn spec_prefix(m: Seq<u8>) -> Option<nat>
    decreases m.len(),
{
    if m.len() == 0 {
        Some(0)
    } else if m[0] == 0xff {
        match spec_prefix(m.drop_first()) {
            Some(n) => Some(n + 8),
            None => None,
        }
    } else {
        match lead_ones(m[0]) {
            Some(k) => if forall|i: int| 1 <= i < m.len() ==> #[trigger] m[i] == 0 {
                Some(k)
            } else {
                None
            },
            None => None,
        }
    }
}

proof fn lemma_prefix_bound(m: Seq<u8>)
    ensures
        spec_prefix(m) matches Some(n) ==> n <= 8 * m.len(),
    decreases m.len(),
{
    if m.len() > 0 {
        lemma_prefix_bound(m.drop_first());
    }
}

fn byte_lead_ones(b: u8) -> (r: Option<u8>)
    ensures
        r matches Some(k) ==> lead_ones(b) == Some(k as nat),
        r is None ==> lead_ones(b) is None,
{
    match b {
        0x00 => Some(0),
        0x80 => Some(1),
        0xc0 => Some(2),
        0xe0 => Some(3),
        0xf0 => Some(4),
        0xf8 => Some(5),
        0xfc => Some(6),
        0xfe => Some(7),
        0xff => Some(8),
        _ => None,
    }
}

/// The prefix length of an address mask; `None` when the ones are not
/// contiguous from the top. A mask whose first 32 bytes are all ones has
/// more leading ones than a `u8` counts.
pub fn mask_prefix(m: &[u8]) -> (r: Option<u8>)
    requires
        !(32 <= m@.len() && forall|t: int| 0 <= t < 32 ==> m@[t] == 0xff),
    ensures
        r matches Some(n) ==> spec_prefix(m@) == Some(n as nat),
        r is None ==> spec_prefix(m@) is None,
{
    let mut i: usize = 0;
    let mut n: u8 = 0;
    proof {
        assert(m@.skip(0) =~= m@);
    }
    while i < m.len() && m[i] == 0xff
        invariant
            i <= m@.len(),
            !(32 <= m@.len() && forall|t: int| 0 <= t < 32 ==> m@[t] == 0xff),
            forall|t: int| 0 <= t < i ==> m@[t] == 0xff,
            i <= 31,
            n == 8 * i,
            spec_prefix(m@) == match spec_prefix(m@.skip(i as int)) {
                Some(k) => Some((k + 8 * i) as nat),
                None => None,
            },
        decreases m@.len() - i,
    {
        proof {
            let s = m@.skip(i as int);
            assert(s[0] == m@[i as int]);
            assert(s.drop_first() =~= m@.skip(i + 1));
            if i == 31 {
                assert(forall|t: int| 0 <= t < 32 ==> m@[t] == 0xff);
            }
        }
        n = n + 8;
        i = i + 1;
    }
    if i == m.len() {
        proof {
            assert(m@.skip(i as int).len() == 0);
        }
        return Some(n);
    }
    let ghost s = m@.skip(i as int);
    proof {
        assert(s[0] == m@[i as int]);
    }
    let k = match byte_lead_ones(m[i]) {
        Some(k) => k,
        None => {
            return None;
        },
    };
    let mut j: usize = i + 1;
    while j < m.len()
        invariant
            i < j <= m@.len(),
            s == m@.skip(i as int),
            s.len() > 0,
            s[0] == m@[i as int],
            m@[i as int] != 0xff,
            lead_ones(s[0]) == Some(k as nat),
            spec_prefix(m@) == match spec_prefix(s) {
                Some(p) => Some((p + 8 * i) as nat),
                None => None,
            },
            forall|t: int| i < t < j ==> #[trigger] m@[t] == 0,
        decreases m@.len() - j,
    {
        if m[j] != 0 {
            proof {
                assert(s[j - i] == m@[j as int]);
                assert(!(forall|t: int| 1 <= t < s.len() ==> #[trigger] s[t] == 0));
                assert(spec_prefix(s) is None);
            }
            return None;
        }
        j = j + 1;
    }
    proof {
        assert forall|t: int| 1 <= t < s.len() implies #[trigger] s[t] == 0 by {
            assert(s[t] == m@[i + t]);
        }
    }
    Some(n + k)
}

/// The typed value of a native condition.
#[derive(Debug, Clone, PartialEq, Eq)]
pub enum ConditionValue {
    Uint8(u8),
    Uint16(u16),
    Uint32(u32),
    V4AddrMask { addr: u32, mask: u32 },
    V6AddrMask { addr: Vec<u8>, prefix_length: u8 },
}

/// Whether a condition can take a native form: a known field, with one
/// byte for protocol or direction, two for a port, and four or sixteen for
/// an address, whose mask (if any) has the same length and, for sixteen
/// bytes, ones contiguous from the top.
pub open spec fn condition_accepted(c: WfpFilterCondition) -> bool {
    match spec_condition_field(c.field@) {
        None => false,
        Some(f) => if f is Protocol || f is Direction {
            c.value@.len() == 1
        } else if f is LocalPort || f is RemotePort {
            c.value@.len() == 2
        } else if c.value@.len() == 4 {
            match opt_bytes(c.mask) {
                Some(m) => m.len() == 4,
                None => true,
            }
        } else if c.value@.len() == 16 {
            match opt_bytes(c.mask) {
                Some(m) => m.len() == 16 && spec_prefix(m) is Some,
                None => true,
            }
        } else {
            false
        },
    }
}

/// The native form of a condition. Protocol and direction take one byte,
/// ports two (little-endian), addresses four (with a four-byte mask, by
/// default all ones) or sixteen (with a sixteen-byte prefix mask, by
/// default all ones). An unknown field or a value or mask of another
/// length is an invalid argument.
pub fn native_condition(c: &WfpFilterCondition) -> (r: Result<(ConditionField, ConditionValue), EngineError>)
    ensures
        r is Ok == condition_accepted(*c),
        spec_condition_field(c.field@) is None ==> r is Err,
        r matches Err(e) ==> e.code == EngineErrorCode::InvalidArgument,
        r matches Ok((f, v)) ==> {
            &&& spec_condition_field(c.field@) == Some(f)
            &&& (f is Protocol ==> c.value@.len() == 1 && v == ConditionValue::Uint8(c.value@[0]))
            &&& (f is Direction ==> c.value@.len() == 1 && v == ConditionValue::Uint32(
                c.value@[0] as u32,
            ))
            &&& (f is LocalPort || f is RemotePort ==> c.value@.len() == 2 && v
                == ConditionValue::Uint16(((c.value@[0] as u16) | ((c.value@[1] as u16) << 8u16)) as u16))
            &&& (f.is_address() && c.value@.len() == 4 ==> (v matches ConditionValue::V4AddrMask {
                addr,
                mask,
            } && addr == u32_le(c.value@[0], c.value@[1], c.value@[2], c.value@[3]) && match opt_bytes(c.mask) {
                Some(m) => m.len() == 4 && mask == u32_le(m[0], m[1], m[2], m[3]),
                None => mask == 0xffff_ffffu32,
            }))
            &&& (f.is_address() && c.value@.len() == 16 ==> (v matches ConditionValue::V6AddrMask {
                addr,
                prefix_length,
            } && addr@ == c.value@ && match opt_bytes(c.mask) {
                Some(m) => m.len() == 16 && spec_prefix(m) == Some(prefix_length as nat),
                None => prefix_length == 128,
            }))
            &&& (f.is_address() ==> c.value@.len() == 4 || c.value@.len() == 16)
        },
{
    let field = match condition_field(c.field.as_str()) {
        Some(f) => f,
        None => {
            return Err(
                EngineError::with_message(
                    EngineErrorCode::InvalidArgument,
                    "unsupported WFP filter condition",
                ),
            );
        },
    };
    match field {
        ConditionField::Protocol => {
            if c.value.len() != 1 {
                return Err(EngineError::invalid_argument());
            }
            Ok((field, ConditionValue::Uint8(c.value[0])))
        },
        ConditionField::LocalPort | ConditionField::RemotePort => {
            if c.value.len() != 2 {
                return Err(EngineError::invalid_argument());
            }
            let port = (c.value[0] as u16) | ((c.value[1] as u16) << 8u16);
            Ok((field, ConditionValue::Uint16(port)))
        },
        ConditionField::Direction => {
            if c.value.len() != 1 {
                return Err(EngineError::invalid_argument());
            }
            Ok((field, ConditionValue::Uint32(c.value[0] as u32)))
        },
        _ => {
            if c.value.len() == 4 {
                let mask: u32 = match &c.mask {
                    Some(m) => {
                        if m.len() != 4 {
                            return Err(EngineError::invalid_argument());
                        }
                        (m[0] as u32) | ((m[1] as u32) << 8u32) | ((m[2] as u32) << 16u32) | ((
                        m[3] as u32) << 24u32)
                    },
                    None => 0xffff_ffff,
                };
                let addr = (c.value[0] as u32) | ((c.value[1] as u32) << 8u32) | ((c.value[2] as u32)
                    << 16u32) | ((c.value[3] as u32) << 24u32);
                Ok((field, ConditionValue::V4AddrMask { addr, mask }))
            } else if c.value.len() == 16 {
                let prefix_length: u8 = match &c.mask {
                    Some(m) => {
                        if m.len() != 16 {
                            return Err(EngineError::invalid_argument());
                        }
                        match mask_prefix(m.as_slice()) {
                            Some(p) => p,
                            None => {
                                return Err(EngineError::invalid_argument());
                            },
                        }
                    },
                    None => 128,
                };
                let mut addr: Vec<u8> = Vec::new();
                addr.extend_from_slice(c.value.as_slice());
                Ok((field, ConditionValue::V6AddrMask { addr, prefix_length }))
            } else {
                Err(EngineError::invalid_argument())
            }
        },
    }
}

} // verus!
