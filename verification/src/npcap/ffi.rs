//! The Npcap (libpcap) values the backend exchanges with the driver: the
//! packet header, flags and status codes, and their validation.
use vstd::prelude::*;

verus! {

/// The per-packet header `pcap_next_ex` hands back.
#[derive(Debug, Clone, Copy)]
pub struct PcapPkthdr {
    pub ts_sec: i64,
    pub ts_usec: i64,
    pub caplen: u32,
    pub len: u32,
}

pub const PCAP_ERRBUF_SIZE: usize = 256;

pub const PCAP_IF_LOOPBACK: u32 = 0x0000_0001;

pub const PCAP_IF_UP: u32 = 0x0000_0002;

pub const PCAP_IF_RUNNING: u32 = 0x0000_0004;

pub const PCAP_IF_WIRELESS: u32 = 0x0000_0008;

pub const PCAP_D_INOUT: i32 = 0;

pub const PCAP_D_IN: i32 = 1;

pub const PCAP_D_OUT: i32 = 2;

pub const PCAP_NETMASK_UNKNOWN: u32 = 0xffff_ffff;

pub const PCAP_NEXT_EX_ERROR: i32 = -1;

pub const PCAP_NEXT_EX_PACKET: i32 = 1;

pub const PCAP_NEXT_EX_TIMEOUT: i32 = 0;

pub const PCAP_NEXT_EX_EOF: i32 = -2;

/// Which traffic a capture handle sees.
#[derive(Debug, Clone, Copy, PartialEq, Eq, Structural)]
pub enum PcapDirection {
    InOut,
    In,
    Out,
}

impl PcapDirection {
    pub open spec fn spec_raw(self) -> i32 {
        match self {
            PcapDirection::InOut => PCAP_D_INOUT,
            PcapDirection::In => PCAP_D_IN,
            PcapDirection::Out => PCAP_D_OUT,
        }
    }

    /// The value `pcap_setdirection` takes.
    pub fn as_raw(self) -> (r: i32)
        ensures
            r == self.spec_raw(),
    {
        match self {
            PcapDirection::InOut => PCAP_D_INOUT,
            PcapDirection::In => PCAP_D_IN,
            PcapDirection::Out => PCAP_D_OUT,
        }
    }
}

#[derive(Debug, Clone, Copy, PartialEq, Eq, Structural)]
pub enum PcapOpenError {
    InvalidDevice,
    OpenFailed,
}

#[derive(Debug, Clone, Copy, PartialEq, Eq, Structural)]
pub enum PcapSendError {
    InvalidHandle,
    PacketTooLarge,
    SendFailed,
}

/// Outcome of one `pcap_next_ex` call.
#[derive(Debug, Clone, Copy, PartialEq, Eq, Structural)]
pub enum PcapReceiveStatus {
    Packet,
    Timeout,
    EndOfCapture,
    Error,
}

impl PcapReceiveStatus {
    pub open spec fn spec_from_raw(value: i32) -> PcapReceiveStatus {
        if value == PCAP_NEXT_EX_PACKET {
            PcapReceiveStatus::Packet
        } else if value == PCAP_NEXT_EX_TIMEOUT {
            PcapReceiveStatus::Timeout
        } else if value == PCAP_NEXT_EX_EOF {
            PcapReceiveStatus::EndOfCapture
        } else {
            PcapReceiveStatus::Error
        }
    }

    /// Classifies a `pcap_next_ex` return value; unknown values are errors.
    pub fn from_raw(value: i32) -> (r: Self)
        ensures
            r == Self::spec_from_raw(value),
    {
        if value == PCAP_NEXT_EX_PACKET {
            PcapReceiveStatus::Packet
        } else if value == PCAP_NEXT_EX_TIMEOUT {
            PcapReceiveStatus::Timeout
        } else if value == PCAP_NEXT_EX_EOF {
            PcapReceiveStatus::EndOfCapture
        } else {
            PcapReceiveStatus::Error
        }
    }

    pub fn is_packet(self) -> (r: bool)
        ensures
            r == (self is Packet),
    {
        matches!(self, PcapReceiveStatus::Packet)
    }

    pub fn is_timeout(self) -> (r: bool)
        ensures
            r == (self is Timeout),
    {
        matches!(self, PcapReceiveStatus::Timeout)
    }

    /// The capture cannot go on.
    pub fn is_terminal(self) -> (r: bool)
        ensures
            r == (self is EndOfCapture || self is Error),
    {
        matches!(self, PcapReceiveStatus::EndOfCapture | PcapReceiveStatus::Error)
    }
}

/// A packet length as `pcap_sendpacket` takes it: positive and within
/// `c_int`.
pub fn validate_packet_length(length: usize) -> (r: Result<i32, PcapSendError>)
    ensures
        length == 0 ==> r == Err::<i32, PcapSendError>(PcapSendError::SendFailed),
        length > i32::MAX ==> r == Err::<i32, PcapSendError>(PcapSendError::PacketTooLarge),
        0 < length <= i32::MAX ==> r == Ok::<i32, PcapSendError>(length as i32),
{
    if length == 0 {
        return Err(PcapSendError::SendFailed);
    }
    if length > 2147483647usize {
        return Err(PcapSendError::PacketTooLarge);
    }
    Ok(length as i32)
}

/// The captured and original lengths of a header: both positive, the
/// captured part no longer than the packet.
pub fn validate_packet_header(header: &PcapPkthdr) -> (r: Result<(usize, usize), PcapReceiveStatus>)
    ensures
        r is Ok == (header.caplen > 0 && header.len > 0 && header.caplen <= header.len),
        r matches Ok((c, o)) ==> c == header.caplen && o == header.len,
        r matches Err(e) ==> e == PcapReceiveStatus::Error,
{
    let captured_length = header.caplen as usize;
    let original_length = header.len as usize;
    if captured_length == 0 {
        return Err(PcapReceiveStatus::Error);
    }
    if original_length == 0 {
        return Err(PcapReceiveStatus::Error);
    }
    if captured_length > original_length {
        return Err(PcapReceiveStatus::Error);
    }
    Ok((captured_length, original_length))
}

/// The time of a header as seconds and microseconds since the Unix
/// epoch; `None` for negative fields or microseconds beyond `u32`.
pub open spec fn spec_pcap_timestamp(header: PcapPkthdr) -> Option<(u64, u32)> {
    if header.ts_sec < 0 || header.ts_usec < 0 || header.ts_usec > u32::MAX {
        None
    } else {
        Some((header.ts_sec as u64, header.ts_usec as u32))
    }
}

/// The header's time since the Unix epoch, as seconds and microseconds.
pub fn pcap_timestamp(header: &PcapPkthdr) -> (r: Option<(u64, u32)>)
    ensures
        r == spec_pcap_timestamp(*header),
{
    if header.ts_sec < 0 || header.ts_usec < 0 {
        return None;
    }
    if header.ts_usec > 4294967295i64 {
        return None;
    }
    Some((header.ts_sec as u64, header.ts_usec as u32))
}

} // verus!
