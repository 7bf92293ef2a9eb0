//! Per-packet metadata a WFP callout reports.
use vstd::prelude::*;

use crate::error::{EngineError, EngineErrorCode};

verus! {

#[derive(Debug, Clone, Copy, PartialEq, Eq, Structural)]
pub enum WfpIpVersion {
    Unknown,
    V4,
    V6,
}

impl WfpIpVersion {
    /// The version with wire value 0, 4 or 6.
    pub fn try_from(value: u8) -> (r: Result<Self, EngineError>)
        ensures
            r is Ok == (value == 0 || value == 4 || value == 6),
            value == 0 ==> r == Ok::<Self, EngineError>(WfpIpVersion::Unknown),
            value == 4 ==> r == Ok::<Self, EngineError>(WfpIpVersion::V4),
            value == 6 ==> r == Ok::<Self, EngineError>(WfpIpVersion::V6),
            r matches Err(e) ==> e.code == EngineErrorCode::InvalidArgument,
    {
        match value {
            0 => Ok(WfpIpVersion::Unknown),
            4 => Ok(WfpIpVersion::V4),
            6 => Ok(WfpIpVersion::V6),
            _ => Err(EngineError::invalid_argument()),
        }
    }
}

#[derive(Debug, Clone, Copy, PartialEq, Eq, Structural)]
pub enum WfpDirection {
    Unknown,
    Inbound,
    Outbound,
}

impl WfpDirection {
    /// The direction with wire value 0, 1 or 2.
    pub fn try_from(value: u8) -> (r: Result<Self, EngineError>)
        ensures
            r is Ok == (value <= 2),
            value == 0 ==> r == Ok::<Self, EngineError>(WfpDirection::Unknown),
            value == 1 ==> r == Ok::<Self, EngineError>(WfpDirection::Inbound),
            value == 2 ==> r == Ok::<Self, EngineError>(WfpDirection::Outbound),
            r matches Err(e) ==> e.code == EngineErrorCode::InvalidArgument,
    {
        match value {
            0 => Ok(WfpDirection::Unknown),
            1 => Ok(WfpDirection::Inbound),
            2 => Ok(WfpDirection::Outbound),
            _ => Err(EngineError::invalid_argument()),
        }
    }
}

/// What a callout knows about one packet.
#[derive(Debug, Clone, PartialEq, Eq)]
pub struct WfpMetadata {
    pub layer_id: u16,
    pub callout_id: u64,
    pub filter_id: Option<u64>,
    pub flow_id: Option<u64>,
    pub process_id: Option<u32>,
    pub thread_id: Option<u32>,
    pub application_id: Vec<u8>,
    pub ip_version: WfpIpVersion,
    pub direction: WfpDirection,
    pub interface_index: Option<u32>,
    pub sub_interface_index: Option<u32>,
    pub compartment_id: Option<u32>,
    pub transport_protocol: Option<u8>,
    pub local_address: Option<Vec<u8>>,
    pub remote_address: Option<Vec<u8>>,
    pub local_port: Option<u16>,
    pub remote_port: Option<u16>,
}

impl Default for WfpMetadata {
    fn default() -> (r: Self)
        ensures
            r.layer_id == 0 && r.callout_id == 0 && r.filter_id is None && r.flow_id is None
                && r.process_id is None && r.thread_id is None && r.application_id@.len() == 0
                && r.ip_version == WfpIpVersion::Unknown && r.direction == WfpDirection::Unknown
                && r.interface_index is None && r.sub_interface_index is None && r.compartment_id
                is None && r.transport_protocol is None && r.local_address is None
                && r.remote_address is None && r.local_port is None && r.remote_port is None,
    {
        Self::new(0, 0)
    }
}

impl WfpMetadata {
    /// Metadata of a layer and callout with nothing else known.
    pub fn new(layer_id: u16, callout_id: u64) -> (r: Self)
        ensures
            r.layer_id == layer_id && r.callout_id == callout_id && r.filter_id is None
                && r.flow_id is None && r.process_id is None && r.thread_id is None
                && r.application_id@.len() == 0 && r.ip_version == WfpIpVersion::Unknown
                && r.direction == WfpDirection::Unknown && r.interface_index is None
                && r.sub_interface_index is None && r.compartment_id is None && r.transport_protocol
                is None && r.local_address is None && r.remote_address is None && r.local_port
                is None && r.remote_port is None,
    {
        WfpMetadata {
            layer_id,
            callout_id,
            filter_id: None,
            flow_id: None,
            process_id: None,
            thread_id: None,
            application_id: Vec::new(),
            ip_version: WfpIpVersion::Unknown,
            direction: WfpDirection::Unknown,
            interface_index: None,
            sub_interface_index: None,
            compartment_id: None,
            transport_protocol: None,
            local_address: None,
            remote_address: None,
            local_port: None,
            remote_port: None,
        }
    }

    pub fn set_filter_id(&mut self, filter_id: Option<u64>)
        ensures
            *final(self) == (WfpMetadata { filter_id, ..*old(self) }),
    {
        self.filter_id = filter_id;
    }

    pub fn set_flow_id(&mut self, flow_id: Option<u64>)
        ensures
            *final(self) == (WfpMetadata { flow_id, ..*old(self) }),
    {
        self.flow_id = flow_id;
    }

    pub fn set_process(&mut self, process_id: Option<u32>, thread_id: Option<u32>)
        ensures
            *final(self) == (WfpMetadata { process_id, thread_id, ..*old(self) }),
    {
        self.process_id = process_id;
        self.thread_id = thread_id;
    }

    pub fn set_application_id(&mut self, application_id: Vec<u8>)
        ensures
            *final(self) == (WfpMetadata { application_id, ..*old(self) }),
    {
        self.application_id = application_id;
    }

    pub fn set_ip_version(&mut self, version: WfpIpVersion)
        ensures
            *final(self) == (WfpMetadata { ip_version: version, ..*old(self) }),
    {
        self.ip_version = version;
    }

    pub fn set_direction(&mut self, direction: WfpDirection)
        ensures
            *final(self) == (WfpMetadata { direction, ..*old(self) }),
    {
        self.direction = direction;
    }

    pub fn set_interface(&mut self, interface_index: Option<u32>, sub_interface_index: Option<u32>)
        ensures
            *final(self) == (WfpMetadata { interface_index, sub_interface_index, ..*old(self) }),
    {
        self.interface_index = interface_index;
        self.sub_interface_index = sub_interface_index;
    }

    pub fn set_compartment(&mut self, compartment_id: Option<u32>)
        ensures
            *final(self) == (WfpMetadata { compartment_id, ..*old(self) }),
    {
        self.compartment_id = compartment_id;
    }

    pub fn set_transport(&mut self, protocol: Option<u8>, local_port: Option<u16>, remote_port: Option<u16>)
        ensures
            *final(self) == (WfpMetadata {
                transport_protocol: protocol,
                local_port,
                remote_port,
                ..*old(self)
            }),
    {
        self.transport_protocol = protocol;
        self.local_port = local_port;
        self.remote_port = remote_port;
    }

    /// Sets both addresses, which must be of one family (4 or 16 bytes);
    /// the IP version follows them.
    pub fn set_addresses(&mut self, local: Vec<u8>, remote: Vec<u8>) -> (r: Result<(), EngineError>)
        ensures
            r is Ok == ((local@.len() == 4 || local@.len() == 16) && local@.len() == remote@.len()),
            r matches Err(e) ==> e.code == EngineErrorCode::InvalidArgument && *final(self) == *old(self),
            r is Ok ==> *final(self) == (WfpMetadata {
                local_address: Some(local),
                remote_address: Some(remote),
                ip_version: if local@.len() == 4 {
                    WfpIpVersion::V4
                } else {
                    WfpIpVersion::V6
                },
                ..*old(self)
            }),
    {
        if local.len() != 4 && local.len() != 16 {
            return Err(EngineError::invalid_argument());
        }
        if remote.len() != 4 && remote.len() != 16 {
            return Err(EngineError::invalid_argument());
        }
        if local.len() != remote.len() {
            return Err(EngineError::invalid_argument());
        }
        let version = if local.len() == 4 {
            WfpIpVersion::V4
        } else {
            WfpIpVersion::V6
        };
        self.local_address = Some(local);
        self.remote_address = Some(remote);
        self.ip_version = version;
        Ok(())
    }

    pub fn has_flow_context(&self) -> (r: bool)
        ensures
            r == (self.flow_id is Some),
    {
        self.flow_id.is_some()
    }

    pub fn has_process_context(&self) -> (r: bool)
        ensures
            r == (self.process_id is Some),
    {
        self.process_id.is_some()
    }

    pub fn has_interface_context(&self) -> (r: bool)
        ensures
            r == (self.interface_index is Some),
    {
        self.interface_index.is_some()
    }

    pub fn has_transport_context(&self) -> (r: bool)
        ensures
            r == (self.transport_protocol is Some),
    {
        self.transport_protocol.is_some()
    }

    pub fn is_ipv4(&self) -> (r: bool)
        ensures
            r == (self.ip_version == WfpIpVersion::V4),
    {
        self.ip_version == WfpIpVersion::V4
    }

    pub fn is_ipv6(&self) -> (r: bool)
        ensures
            r == (self.ip_version == WfpIpVersion::V6),
    {
        self.ip_version == WfpIpVersion::V6
    }

    pub fn is_inbound(&self) -> (r: bool)
        ensures
            r == (self.direction == WfpDirection::Inbound),
    {
        self.direction == WfpDirection::Inbound
    }

    pub fn is_outbound(&self) -> (r: bool)
        ensures
            r == (self.direction == WfpDirection::Outbound),
    {
        self.direction == WfpDirection::Outbound
    }

    /// IP protocol 6.
    pub fn is_tcp(&self) -> (r: bool)
        ensures
            r == (self.transport_protocol == Some(6u8)),
    {
        self.transport_protocol == Some(6u8)
    }

    /// IP protocol 17.
    pub fn is_udp(&self) -> (r: bool)
        ensures
            r == (self.transport_protocol == Some(17u8)),
    {
        self.transport_protocol == Some(17u8)
    }

    /// IP protocol 1 over IPv4.
    pub fn is_icmp(&self) -> (r: bool)
        ensures
            r == (self.transport_protocol == Some(1u8) && self.ip_version == WfpIpVersion::V4),
    {
        self.transport_protocol == Some(1u8) && self.is_ipv4()
    }

    /// IP protocol 58 over IPv6.
    pub fn is_icmpv6(&self) -> (r: bool)
        ensures
            r == (self.transport_protocol == Some(58u8) && self.ip_version == WfpIpVersion::V6),
    {
        self.transport_protocol == Some(58u8) && self.is_ipv6()
    }

    /// Forgets the flow, filter, process and thread of the packet.
    pub fn clear_runtime_context(&mut self)
        ensures
            *final(self) == (WfpMetadata {
                flow_id: None,
                filter_id: None,
                process_id: None,
                thread_id: None,
                ..*old(self)
            }),
    {
        self.flow_id = None;
        self.filter_id = None;
        self.process_id = None;
        self.thread_id = None;
    }
}

} // verus!
