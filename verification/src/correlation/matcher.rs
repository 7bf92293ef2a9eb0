//! The flow an observation belongs to, from the headers a parser found in
//! it.
use crate::net::IpAddress;
use vstd::prelude::*;

verus! {

/// The transport protocol a parser recognised.
#[derive(Debug, Clone, Copy, PartialEq, Eq, Structural)]
pub enum TransportKind {
    Tcp,
    Udp,
    Icmp,
    Icmpv6,
    Unknown,
}

/// The protocol of a flow.
#[derive(Debug, Clone, Copy, PartialEq, Eq, Structural)]
pub enum FlowProtocol {
    Tcp,
    Udp,
    Icmp,
    IcmpV6,
}

/// What a parser found in a captured packet, each field `None` where the
/// packet did not carry it.
#[derive(Debug, Clone, Copy, PartialEq, Eq, Structural)]
pub struct ParsedHeaders {
    pub source_ip: Option<IpAddress>,
    pub destination_ip: Option<IpAddress>,
    pub transport: TransportKind,
    pub source_port: Option<u16>,
    pub destination_port: Option<u16>,
}

/// The five values that name a flow.
#[derive(Debug, Clone, Copy, PartialEq, Eq, Structural)]
pub struct FlowKey {
    pub src_ip: IpAddress,
    pub dst_ip: IpAddress,
    pub src_port: u16,
    pub dst_port: u16,
    pub protocol: FlowProtocol,
}

/// The flow key of a packet with these headers: both addresses must be
/// known; TCP and UDP need both ports, ICMP flows have ports 0, and an
/// unknown transport gives no flow.
pub open spec fn spec_flow_key(p: ParsedHeaders) -> Option<FlowKey> {
    match (p.source_ip, p.destination_ip) {
        (Some(s), Some(d)) => match p.transport {
            TransportKind::Tcp | TransportKind::Udp => match (p.source_port, p.destination_port) {
                (Some(sp), Some(dp)) => Some(
                    FlowKey {
                        src_ip: s,
                        dst_ip: d,
                        src_port: sp,
                        dst_port: dp,
                        protocol: if p.transport == TransportKind::Tcp {
                            FlowProtocol::Tcp
                        } else {
                            FlowProtocol::Udp
                        },
                    },
                ),
                _ => None,
            },
            TransportKind::Icmp => Some(
                FlowKey { src_ip: s, dst_ip: d, src_port: 0, dst_port: 0, protocol: FlowProtocol::Icmp },
            ),
            TransportKind::Icmpv6 => Some(
                FlowKey {
                    src_ip: s,
                    dst_ip: d,
                    src_port: 0,
                    dst_port: 0,
                    protocol: FlowProtocol::IcmpV6,
                },
            ),
            TransportKind::Unknown => None,
        },
        _ => None,
    }
}

/// Maps parsed packets to the flows they belong to.
#[derive(Debug, Clone, Copy, Default)]
pub struct ObservationMatcher;

impl ObservationMatcher {
    /// The flow key of a packet with these headers, or `None` where the
    /// headers do not name a flow. A missing port is never taken as 0.
    pub fn to_flow_key(parsed: &ParsedHeaders) -> (r: Option<FlowKey>)
        ensures
            r == spec_flow_key(*parsed),
    {
        let src_ip = match parsed.source_ip {
            Some(a) => a,
            None => {
                return None;
            },
        };
        let dst_ip = match parsed.destination_ip {
            Some(a) => a,
            None => {
                return None;
            },
        };
        let (protocol, src_port, dst_port): (FlowProtocol, u16, u16) = match parsed.transport {
            TransportKind::Tcp | TransportKind::Udp => {
                let sp: u16 = match parsed.source_port {
                    Some(p) => p,
                    None => {
                        return None;
                    },
                };
                let dp: u16 = match parsed.destination_port {
                    Some(p) => p,
                    None => {
                        return None;
                    },
                };
                let protocol = match parsed.transport {
                    TransportKind::Tcp => FlowProtocol::Tcp,
                    _ => FlowProtocol::Udp,
                };
                (protocol, sp, dp)
            },
            TransportKind::Icmp => (FlowProtocol::Icmp, 0u16, 0u16),
            TransportKind::Icmpv6 => (FlowProtocol::IcmpV6, 0u16, 0u16),
            TransportKind::Unknown => {
                return None;
            },
        };
        Some(FlowKey { src_ip, dst_ip, src_port, dst_port, protocol })
    }
}

} // verus!
