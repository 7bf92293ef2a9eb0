//! Capture sessions: configuration, lifecycle, the packets a session
//! accepts and its counters.
//!
//! The native handle belongs to the caller. A session decides: which
//! parameters open the handle, what an outcome of `pcap_next_ex` means,
//! and which packets it records.
use vstd::prelude::*;

use std::time::SystemTime;

use crate::clock::system_now;
use crate::npcap::ffi::{
    pcap_timestamp, spec_pcap_timestamp, validate_packet_header, PcapDirection, PcapPkthdr,
    PcapReceiveStatus,
};
use crate::text::{str_is_blank, trim};

verus! {

/// Which traffic a capture sees.
#[derive(Debug, Clone, Copy, PartialEq, Eq, Structural)]
pub enum CaptureDirection {
    Inbound,
    Outbound,
    InboundAndOutbound,
}

impl Default for CaptureDirection {
    fn default() -> (r: Self)
        ensures
            r == CaptureDirection::InboundAndOutbound,
    {
        CaptureDirection::InboundAndOutbound
    }
}

impl CaptureDirection {
    pub open spec fn spec_pcap_direction(self) -> PcapDirection {
        match self {
            CaptureDirection::Inbound => PcapDirection::In,
            CaptureDirection::Outbound => PcapDirection::Out,
            CaptureDirection::InboundAndOutbound => PcapDirection::InOut,
        }
    }

    fn as_pcap_direction(self) -> (r: PcapDirection)
        ensures
            r == self.spec_pcap_direction(),
    {
        match self {
            CaptureDirection::Inbound => PcapDirection::In,
            CaptureDirection::Outbound => PcapDirection::Out,
            CaptureDirection::InboundAndOutbound => PcapDirection::InOut,
        }
    }
}

#[derive(Debug, Clone, Copy, PartialEq, Eq, Structural)]
pub enum CaptureState {
    Stopped,
    Starting,
    Running,
    Failed,
}

/// One captured frame: the captured bytes, when and where it was seen,
/// and the length it had on the wire.
#[derive(Debug, PartialEq, Eq)]
pub struct CapturedPacket {
    pub data: Vec<u8>,
    pub timestamp: SystemTime,
    pub interface_index: u32,
    pub original_length: usize,
}

impl Clone for CapturedPacket {
    fn clone(&self) -> (r: Self)
        ensures
            r.data@ == self.data@,
            r.timestamp == self.timestamp,
            r.interface_index == self.interface_index,
            r.original_length == self.original_length,
    {
        CapturedPacket {
            data: self.data.clone(),
            timestamp: self.timestamp,
            interface_index: self.interface_index,
            original_length: self.original_length,
        }
    }
}

impl CapturedPacket {
    /// A whole frame seen now; `None` when empty or on interface 0.
    pub fn new(data: Vec<u8>, interface_index: u32) -> (r: Option<Self>)
        ensures
            r is Some == (data@.len() > 0 && interface_index != 0),
            r matches Some(p) ==> p.data@ == data@ && p.interface_index == interface_index
                && p.original_length == data@.len(),
    {
        if data.len() == 0 || interface_index == 0 {
            return None;
        }
        let original_length = data.len();
        Some(CapturedPacket { data, timestamp: system_now(), interface_index, original_length })
    }

    /// A possibly truncated frame seen now; `None` when empty, on interface
    /// 0, or when the original length is below the captured one.
    pub fn with_original_length(data: Vec<u8>, interface_index: u32, original_length: usize) -> (r:
        Option<Self>)
        ensures
            r is Some == (data@.len() > 0 && interface_index != 0 && original_length
                >= data@.len()),
            r matches Some(p) ==> p.data@ == data@ && p.interface_index == interface_index
                && p.original_length == original_length,
    {
        if data.len() == 0 || interface_index == 0 || original_length < data.len() {
            return None;
        }
        Some(CapturedPacket { data, timestamp: system_now(), interface_index, original_length })
    }

    /// A frame with the driver's timestamp, under the same checks as
    /// `with_original_length`.
    pub fn from_pcap(
        data: Vec<u8>,
        interface_index: u32,
        original_length: usize,
        timestamp: SystemTime,
    ) -> (r: Option<Self>)
        ensures
            r is Some == (data@.len() > 0 && interface_index != 0 && original_length
                >= data@.len()),
            r matches Some(p) ==> p.data@ == data@ && p.interface_index == interface_index
                && p.original_length == original_length && p.timestamp == timestamp,
    {
        if data.len() == 0 || interface_index == 0 || original_length < data.len() {
            return None;
        }
        Some(CapturedPacket { data, timestamp, interface_index, original_length })
    }

    pub fn len(&self) -> (r: usize)
        ensures
            r == self.data@.len(),
    {
        self.data.len()
    }

    pub fn is_empty(&self) -> (r: bool)
        ensures
            r == (self.data@.len() == 0),
    {
        self.data.len() == 0
    }
}

/// How a session captures.
#[derive(Debug, Clone, PartialEq, Eq)]
pub struct CaptureConfig {
    pub interface_index: u32,
    pub snaplen: usize,
    pub promiscuous: bool,
    pub direction: CaptureDirection,
    pub timeout_ms: i32,
}

impl CaptureConfig {
    pub open spec fn spec_valid(self) -> bool {
        self.interface_index != 0 && 0 < self.snaplen <= 65535 && self.timeout_ms >= 0
    }

    /// Full frames, promiscuous, both directions, one-second timeout;
    /// `None` on interface 0.
    pub fn new(interface_index: u32) -> (r: Option<Self>)
        ensures
            r is Some == (interface_index != 0),
            r matches Some(c) ==> c.interface_index == interface_index && c.snaplen == 65535
                && c.promiscuous && c.direction == CaptureDirection::InboundAndOutbound
                && c.timeout_ms == 1000 && c.spec_valid(),
    {
        if interface_index == 0 {
            return None;
        }
        Some(
            CaptureConfig {
                interface_index,
                snaplen: 65535,
                promiscuous: true,
                direction: CaptureDirection::InboundAndOutbound,
                timeout_ms: 1000,
            },
        )
    }

    /// A known interface, a snapshot length in `1..=65535` and a
    /// non-negative timeout.
    pub fn validate(&self) -> (r: bool)
        ensures
            r == self.spec_valid(),
    {
        self.interface_index != 0 && self.snaplen > 0 && self.snaplen <= 65535 && self.timeout_ms
            >= 0
    }
}

#[derive(Debug, Clone, Copy, PartialEq, Eq, Structural)]
pub enum CaptureError {
    InvalidConfiguration,
    AlreadyRunning,
    NotRunning,
    InterfaceUnavailable,
    ReceiveFailed,
    InvalidPacket,
}

/// The arguments of `pcap_open_live` and `pcap_setdirection` for a
/// configuration.
#[derive(Debug, Clone, Copy, PartialEq, Eq, Structural)]
pub struct OpenParameters {
    pub snaplen: i32,
    pub promiscuous: i32,
    pub timeout_ms: i32,
    pub direction: i32,
}

/// The native open arguments: the snapshot length as a positive `c_int`,
/// promiscuous mode as 1 or 0, the timeout and the direction code.
pub fn open_parameters(config: &CaptureConfig) -> (r: Result<OpenParameters, CaptureError>)
    ensures
        r is Ok == (0 < config.snaplen <= i32::MAX),
        r matches Err(e) ==> e == CaptureError::InvalidConfiguration,
        r matches Ok(p) ==> {
            &&& p.snaplen == config.snaplen
            &&& p.promiscuous == (if config.promiscuous { 1i32 } else { 0i32 })
            &&& p.timeout_ms == config.timeout_ms
            &&& p.direction == config.direction.spec_pcap_direction().spec_raw()
        },
{
    if config.snaplen > 2147483647usize {
        return Err(CaptureError::InvalidConfiguration);
    }
    let snaplen = config.snaplen as i32;
    if snaplen <= 0 {
        return Err(CaptureError::InvalidConfiguration);
    }
    Ok(
        OpenParameters {
            snaplen,
            promiscuous: if config.promiscuous {
                1
            } else {
                0
            },
            timeout_ms: config.timeout_ms,
            direction: config.direction.as_pcap_direction().as_raw(),
        },
    )
}

/// What opening the device means: no handle from `pcap_open_live`, or a
/// direction `pcap_setdirection` refused (nonzero status), leaves the
/// interface unavailable.
pub fn native_open_outcome(opened: bool, direction_status: i32) -> (r: Result<(), CaptureError>)
    ensures
        r is Ok == (opened && direction_status == 0),
        r matches Err(e) ==> e == CaptureError::InterfaceUnavailable,
{
    if !opened || direction_status != 0 {
        return Err(CaptureError::InterfaceUnavailable);
    }
    Ok(())
}

/// What to do with the outcome of one `pcap_next_ex` call.
#[derive(Debug, PartialEq, Eq)]
pub enum ReceiveStep {
    /// The read timed out: nothing to copy.
    Idle,
    /// Copy `captured` bytes of a frame of `original` bytes seen `secs`
    /// seconds and `micros` microseconds after the Unix epoch, then hand
    /// them, with that time, to `finish_receive`.
    Copy { captured: usize, original: usize, secs: u64, micros: u32 },
}

/// A capture session on one interface.
#[derive(Debug)]
pub struct CaptureSession {
    config: CaptureConfig,
    state: CaptureState,
    packets_received: u64,
    bytes_received: u64,
}

/// `x + y`, saturating at `u64::MAX`.
pub open spec fn sat_add(x: u64, y: int) -> u64 {
    if x + y > u64::MAX {
        u64::MAX
    } else {
        (x + y) as u64
    }
}

impl CaptureSession {
    #[verifier::type_invariant]
    closed spec fn inv(self) -> bool {
        self.config.spec_valid()
    }

    pub closed spec fn spec_config(self) -> CaptureConfig {
        self.config
    }

    pub closed spec fn spec_state(self) -> CaptureState {
        self.state
    }

    pub closed spec fn spec_packets(self) -> u64 {
        self.packets_received
    }

    pub closed spec fn spec_bytes(self) -> u64 {
        self.bytes_received
    }

    /// The counters and configuration are those of `other`.
    pub open spec fn same_counters(self, other: Self) -> bool {
        &&& self.spec_config() == other.spec_config()
        &&& self.spec_packets() == other.spec_packets()
        &&& self.spec_bytes() == other.spec_bytes()
    }

    /// A stopped session with zero counters; an invalid configuration is
    /// refused.
    pub fn new(config: CaptureConfig) -> (r: Result<Self, CaptureError>)
        ensures
            r is Ok == config.spec_valid(),
            r matches Err(e) ==> e == CaptureError::InvalidConfiguration,
            r matches Ok(s) ==> s.spec_config() == config && s.spec_state() == CaptureState::Stopped
                && s.spec_packets() == 0 && s.spec_bytes() == 0,
    {
        if !config.validate() {
            return Err(CaptureError::InvalidConfiguration);
        }
        Ok(CaptureSession { config, state: CaptureState::Stopped, packets_received: 0, bytes_received: 0 })
    }

    /// Checks a start request and moves to `Starting`. A running session
    /// refuses; a blank device name fails the session.
    pub fn begin_start(&mut self, device_name: &str) -> (r: Result<(), CaptureError>)
        ensures
            final(self).same_counters(*old(self)),
            old(self).spec_state() == CaptureState::Running ==> r == Err::<(), CaptureError>(
                CaptureError::AlreadyRunning,
            ) && final(self).spec_state() == CaptureState::Running,
            old(self).spec_state() != CaptureState::Running && trim(device_name@).len() == 0 ==> r
                == Err::<(), CaptureError>(CaptureError::InterfaceUnavailable) && final(self).spec_state() == CaptureState::Failed,
            old(self).spec_state() != CaptureState::Running && trim(device_name@).len() > 0 ==> r
                == Ok::<(), CaptureError>(()) && final(self).spec_state() == CaptureState::Starting,
    {
        proof {
            use_type_invariant(&*self);
        }
        if self.state == CaptureState::Running {
            return Err(CaptureError::AlreadyRunning);
        }
        if !self.config.validate() {
            self.state = CaptureState::Failed;
            return Err(CaptureError::InvalidConfiguration);
        }
        if str_is_blank(device_name) {
            self.state = CaptureState::Failed;
            return Err(CaptureError::InterfaceUnavailable);
        }
        self.state = CaptureState::Starting;
        Ok(())
    }

    /// Records how opening the native handle went: running on success,
    /// failed with the error otherwise.
    pub fn complete_start(&mut self, opened: Result<(), CaptureError>) -> (r: Result<(), CaptureError>)
        ensures
            final(self).same_counters(*old(self)),
            r == opened,
            final(self).spec_state() == (if opened is Ok {
                CaptureState::Running
            } else {
                CaptureState::Failed
            }),
    {
        proof {
            use_type_invariant(&*self);
        }
        if opened.is_ok() {
            self.state = CaptureState::Running;
        } else {
            self.state = CaptureState::Failed;
        }
        opened
    }

    /// Starts capturing on `device_name` (no native handle is involved).
    pub fn start(&mut self, device_name: &str) -> (r: Result<(), CaptureError>)
        ensures
            final(self).same_counters(*old(self)),
            old(self).spec_state() == CaptureState::Running ==> r == Err::<(), CaptureError>(
                CaptureError::AlreadyRunning,
            ) && final(self).spec_state() == CaptureState::Running,
            old(self).spec_state() != CaptureState::Running && trim(device_name@).len() == 0 ==> r
                == Err::<(), CaptureError>(CaptureError::InterfaceUnavailable) && final(self).spec_state() == CaptureState::Failed,
            old(self).spec_state() != CaptureState::Running && trim(device_name@).len() > 0 ==> r
                == Ok::<(), CaptureError>(()) && final(self).spec_state() == CaptureState::Running,
    {
        self.begin_start(device_name)?;
        self.complete_start(Ok(()))
    }

    /// Stops a running session (the caller closes the native handle).
    pub fn stop(&mut self) -> (r: Result<(), CaptureError>)
        ensures
            final(self).same_counters(*old(self)),
            r is Ok == (old(self).spec_state() == CaptureState::Running),
            r matches Err(e) ==> e == CaptureError::NotRunning && final(self).spec_state() == old(self).spec_state(),
            r is Ok ==> final(self).spec_state() == CaptureState::Stopped,
    {
        proof {
            use_type_invariant(&*self);
        }
        if self.state != CaptureState::Running {
            return Err(CaptureError::NotRunning);
        }
        self.state = CaptureState::Stopped;
        Ok(())
    }

    /// Without a native handle there is never a packet to read.
    pub fn receive_packet(&mut self) -> (r: Result<Option<CapturedPacket>, CaptureError>)
        ensures
            *final(self) == *old(self),
            old(self).spec_state() != CaptureState::Running ==> (r matches Err(e) && e
                == CaptureError::NotRunning),
            old(self).spec_state() == CaptureState::Running ==> (r matches Ok(p) && p is None),
    {
        if !self.is_running() {
            return Err(CaptureError::NotRunning);
        }
        Ok(None)
    }

    /// Decides on the outcome of one `pcap_next_ex` call: its status, the
    /// header it returned (if any) and whether it returned data. A timeout
    /// is idle; the end of the capture, an error, or a packet without
    /// header or data fails the session; an inconsistent header, a frame
    /// beyond the snapshot length or a timestamp out of range is an
    /// invalid packet; any other packet is to be copied, with its lengths
    /// and time as the header gives them.
    pub fn begin_receive(&mut self, status: i32, header: Option<PcapPkthdr>, data_present: bool) -> (r:
        Result<ReceiveStep, CaptureError>)
        ensures
            final(self).same_counters(*old(self)),
            old(self).spec_state() != CaptureState::Running ==> r == Err::<ReceiveStep, CaptureError>(
                CaptureError::NotRunning,
            ) && final(self).spec_state() == old(self).spec_state(),
            old(self).spec_state() == CaptureState::Running ==> {
                let st = PcapReceiveStatus::spec_from_raw(status);
                &&& st is Timeout ==> r == Ok::<ReceiveStep, CaptureError>(ReceiveStep::Idle)
                    && final(self).spec_state() == CaptureState::Running
                &&& (st is EndOfCapture || st is Error || (st is Packet && (header is None
                    || !data_present))) ==> r == Err::<ReceiveStep, CaptureError>(
                    CaptureError::ReceiveFailed,
                ) && final(self).spec_state() == CaptureState::Failed
                &&& st is Packet && header is Some && data_present ==> {
                    let h = header->Some_0;
                    let valid = h.caplen > 0 && h.len > 0 && h.caplen <= h.len && h.caplen
                        <= old(self).spec_config().snaplen;
                    &&& final(self).spec_state() == CaptureState::Running
                    &&& !(valid && spec_pcap_timestamp(h) is Some) ==> r
                        == Err::<ReceiveStep, CaptureError>(CaptureError::InvalidPacket)
                    &&& valid && spec_pcap_timestamp(h) is Some ==> r == Ok::<ReceiveStep, CaptureError>(
                        ReceiveStep::Copy {
                            captured: h.caplen as usize,
                            original: h.len as usize,
                            secs: spec_pcap_timestamp(h)->Some_0.0,
                            micros: spec_pcap_timestamp(h)->Some_0.1,
                        },
                    )
                }
            },
    {
        proof {
            use_type_invariant(&*self);
        }
        if !self.is_running() {
            return Err(CaptureError::NotRunning);
        }
        match PcapReceiveStatus::from_raw(status) {
            PcapReceiveStatus::Packet => {
                let h = match header {
                    Some(h) => h,
                    None => {
                        self.state = CaptureState::Failed;
                        return Err(CaptureError::ReceiveFailed);
                    },
                };
                if !data_present {
                    self.state = CaptureState::Failed;
                    return Err(CaptureError::ReceiveFailed);
                }
                let (captured, original) = match validate_packet_header(&h) {
                    Ok(lengths) => lengths,
                    Err(_) => {
                        return Err(CaptureError::InvalidPacket);
                    },
                };
                if captured > self.config.snaplen {
                    return Err(CaptureError::InvalidPacket);
                }
                match pcap_timestamp(&h) {
                    Some((secs, micros)) => Ok(ReceiveStep::Copy { captured, original, secs, micros }),
                    None => Err(CaptureError::InvalidPacket),
                }
            },
            PcapReceiveStatus::Timeout => Ok(ReceiveStep::Idle),
            PcapReceiveStatus::EndOfCapture | PcapReceiveStatus::Error => {
                self.state = CaptureState::Failed;
                Err(CaptureError::ReceiveFailed)
            },
        }
    }

    /// Turns the copied bytes of a frame into a packet of this session's
    /// interface and records it. `timestamp` is the frame's time as the
    /// clock gives it for the step's seconds and microseconds; `None`, a
    /// time the clock cannot hold, makes the frame an invalid packet.
    pub fn finish_receive(&mut self, data: Vec<u8>, original_length: usize, timestamp: Option<SystemTime>) -> (r:
        Result<Option<CapturedPacket>, CaptureError>)
        ensures
            final(self).spec_config() == old(self).spec_config(),
            final(self).spec_state() == old(self).spec_state(),
            !(timestamp is Some && data@.len() > 0 && original_length >= data@.len()) ==> r == Err::<
                Option<CapturedPacket>,
                CaptureError,
            >(CaptureError::InvalidPacket),
            r is Ok ==> final(self).spec_packets() == sat_add(old(self).spec_packets(), 1)
                && final(self).spec_bytes() == sat_add(old(self).spec_bytes(), data@.len() as int),
            r is Err ==> final(self).spec_packets() == old(self).spec_packets() && final(self).spec_bytes() == old(self).spec_bytes(),
            r is Ok == (timestamp is Some && data@.len() > 0 && original_length >= data@.len()
                && old(self).spec_state() == CaptureState::Running && data@.len() <= old(self).spec_config().snaplen),
            r matches Ok(p) ==> p matches Some(pkt) && pkt.data@ == data@ && pkt.interface_index
                == old(self).spec_config().interface_index && pkt.original_length == original_length
                && pkt.timestamp == timestamp->Some_0,
    {
        proof {
            use_type_invariant(&*self);
        }
        let timestamp = match timestamp {
            Some(t) => t,
            None => {
                return Err(CaptureError::InvalidPacket);
            },
        };
        let packet = match CapturedPacket::from_pcap(
            data,
            self.config.interface_index,
            original_length,
            timestamp,
        ) {
            Some(p) => p,
            None => {
                return Err(CaptureError::InvalidPacket);
            },
        };
        self.record_packet(&packet)?;
        Ok(Some(packet))
    }

    pub fn state(&self) -> (r: CaptureState)
        ensures
            r == self.spec_state(),
    {
        self.state
    }

    pub fn is_running(&self) -> (r: bool)
        ensures
            r == (self.spec_state() == CaptureState::Running),
    {
        self.state == CaptureState::Running
    }

    pub fn config(&self) -> (r: &CaptureConfig)
        ensures
            *r == self.spec_config(),
            r.spec_valid(),
    {
        proof {
            use_type_invariant(self);
        }
        &self.config
    }

    pub fn packets_received(&self) -> (r: u64)
        ensures
            r == self.spec_packets(),
    {
        self.packets_received
    }

    pub fn bytes_received(&self) -> (r: u64)
        ensures
            r == self.spec_bytes(),
    {
        self.bytes_received
    }

    /// Counts a packet of a running session: one more packet and its
    /// length in bytes (both saturating). The packet must be non-empty,
    /// of this interface, within its original length and the snapshot
    /// length.
    pub fn record_packet(&mut self, packet: &CapturedPacket) -> (r: Result<(), CaptureError>)
        ensures
            final(self).spec_config() == old(self).spec_config(),
            final(self).spec_state() == old(self).spec_state(),
            old(self).spec_state() != CaptureState::Running ==> r == Err::<(), CaptureError>(
                CaptureError::NotRunning,
            ),
            old(self).spec_state() == CaptureState::Running && !(packet.data@.len() > 0
                && packet.interface_index == old(self).spec_config().interface_index
                && packet.original_length >= packet.data@.len() && packet.data@.len() <= old(self).spec_config().snaplen) ==> r == Err::<(), CaptureError>(CaptureError::InvalidPacket),
            r is Ok == (old(self).spec_state() == CaptureState::Running && packet.data@.len() > 0
                && packet.interface_index == old(self).spec_config().interface_index
                && packet.original_length >= packet.data@.len() && packet.data@.len() <= old(self).spec_config().snaplen),
            r is Ok ==> final(self).spec_packets() == sat_add(old(self).spec_packets(), 1)
                && final(self).spec_bytes() == sat_add(old(self).spec_bytes(), packet.data@.len() as int),
            r is Err ==> final(self).spec_packets() == old(self).spec_packets() && final(self).spec_bytes() == old(self).spec_bytes(),
    {
        proof {
            use_type_invariant(&*self);
        }
        if !self.is_running() {
            return Err(CaptureError::NotRunning);
        }
        if packet.is_empty() || packet.interface_index != self.config.interface_index
            || packet.original_length < packet.len() || packet.len() > self.config.snaplen {
            return Err(CaptureError::InvalidPacket);
        }
        self.packets_received = self.packets_received.saturating_add(1);
        self.bytes_received = self.bytes_received.saturating_add(packet.len() as u64);
        Ok(())
    }

    pub fn reset_statistics(&mut self)
        ensures
            final(self).spec_config() == old(self).spec_config(),
            final(self).spec_state() == old(self).spec_state(),
            final(self).spec_packets() == 0,
            final(self).spec_bytes() == 0,
    {
        proof {
            use_type_invariant(&*self);
        }
        self.packets_received = 0;
        self.bytes_received = 0;
    }
}

} // verus!
