//! Metadata of captured packets and of the adapters they came from.
use vstd::prelude::*;

use crate::net::IpAddress;
use crate::text::{is_blank, str_is_blank};

verus! {

#[derive(Debug, Clone, Copy, PartialEq, Eq, Structural)]
pub enum PacketDirection {
    Inbound,
    Outbound,
    Unknown,
}

/// The link layer of a capture (`pcap_datalink`).
#[derive(Debug, Clone, Copy, PartialEq, Eq, Structural)]
pub enum LinkType {
    Ethernet,
    Raw,
    Loopback,
    Unknown(u32),
}

impl LinkType {
    pub open spec fn spec_from_datalink(value: u32) -> LinkType {
        if value == 1 {
            LinkType::Ethernet
        } else if value == 101 {
            LinkType::Raw
        } else if value == 0 {
            LinkType::Loopback
        } else {
            LinkType::Unknown(value)
        }
    }

    /// `DLT_EN10MB` (1), `DLT_RAW` (101) and `DLT_NULL` (0) are known;
    /// any other value is kept as unknown.
    pub fn from_datalink(value: u32) -> (r: Self)
        ensures
            r == Self::spec_from_datalink(value),
    {
        match value {
            1 => LinkType::Ethernet,
            101 => LinkType::Raw,
            0 => LinkType::Loopback,
            other => LinkType::Unknown(other),
        }
    }
}

/// What is known about one captured packet.
#[derive(Debug, Clone, Copy, PartialEq, Eq, Structural)]
pub struct PacketMetadata {
    pub interface_index: u32,
    pub direction: PacketDirection,
    pub link_type: LinkType,
    pub captured_length: usize,
    pub original_length: usize,
    pub timestamp_seconds: i64,
    pub timestamp_microseconds: i64,
    pub source_ip: Option<IpAddress>,
    pub destination_ip: Option<IpAddress>,
}

impl PacketMetadata {
    /// Metadata with unknown direction, link type, time and endpoints;
    /// `None` on interface 0 or for lengths that are zero or where the
    /// captured part exceeds the packet.
    pub fn new(interface_index: u32, captured_length: usize, original_length: usize) -> (r: Option<
        Self,
    >)
        ensures
            r is Some == (interface_index != 0 && captured_length > 0 && original_length > 0
                && captured_length <= original_length),
            r matches Some(m) ==> m == (PacketMetadata {
                interface_index,
                direction: PacketDirection::Unknown,
                link_type: LinkType::Unknown(0),
                captured_length,
                original_length,
                timestamp_seconds: 0,
                timestamp_microseconds: 0,
                source_ip: None,
                destination_ip: None,
            }),
    {
        if interface_index == 0 {
            return None;
        }
        if captured_length == 0 || original_length == 0 || captured_length > original_length {
            return None;
        }
        Some(
            PacketMetadata {
                interface_index,
                direction: PacketDirection::Unknown,
                link_type: LinkType::Unknown(0),
                captured_length,
                original_length,
                timestamp_seconds: 0,
                timestamp_microseconds: 0,
                source_ip: None,
                destination_ip: None,
            },
        )
    }

    pub fn set_timestamp(&mut self, seconds: i64, microseconds: i64)
        ensures
            *final(self) == (PacketMetadata {
                timestamp_seconds: seconds,
                timestamp_microseconds: microseconds,
                ..*old(self)
            }),
    {
        self.timestamp_seconds = seconds;
        self.timestamp_microseconds = microseconds;
    }

    pub fn set_direction(&mut self, direction: PacketDirection)
        ensures
            *final(self) == (PacketMetadata { direction, ..*old(self) }),
    {
        self.direction = direction;
    }

    pub fn set_link_type(&mut self, link_type: LinkType)
        ensures
            *final(self) == (PacketMetadata { link_type, ..*old(self) }),
    {
        self.link_type = link_type;
    }

    pub fn set_endpoints(&mut self, source: IpAddress, destination: IpAddress)
        ensures
            *final(self) == (PacketMetadata {
                source_ip: Some(source),
                destination_ip: Some(destination),
                ..*old(self)
            }),
    {
        self.source_ip = Some(source);
        self.destination_ip = Some(destination);
    }

    /// Less was captured than the packet held.
    pub fn is_truncated(&self) -> (r: bool)
        ensures
            r == (self.captured_length < self.original_length),
    {
        self.captured_length < self.original_length
    }
}

/// What is known about one adapter.
#[derive(Debug, Clone, PartialEq, Eq)]
pub struct AdapterMetadata {
    pub interface_index: u32,
    pub name: String,
    pub description: Option<String>,
    pub mac_address: Option<[u8; 6]>,
    pub link_type: LinkType,
    pub mtu: Option<u32>,
}

impl AdapterMetadata {
    /// An Ethernet adapter with nothing else known; `None` on interface 0
    /// or for a blank name.
    pub fn new(interface_index: u32, name: &str) -> (r: Option<Self>)
        ensures
            r is Some == (interface_index != 0 && !is_blank(name@)),
            r matches Some(a) ==> a.interface_index == interface_index && a.name@ == name@
                && a.description is None && a.mac_address is None && a.link_type
                == LinkType::Ethernet && a.mtu is None,
    {
        if interface_index == 0 {
            return None;
        }
        if str_is_blank(name) {
            return None;
        }
        Some(
            AdapterMetadata {
                interface_index,
                name: name.to_owned(),
                description: None,
                mac_address: None,
                link_type: LinkType::Ethernet,
                mtu: None,
            },
        )
    }

    pub fn set_mac(&mut self, mac: [u8; 6])
        ensures
            final(self).mac_address == Some(mac),
            final(self).interface_index == old(self).interface_index,
            final(self).name == old(self).name,
            final(self).description == old(self).description,
            final(self).link_type == old(self).link_type,
            final(self).mtu == old(self).mtu,
    {
        self.mac_address = Some(mac);
    }

    /// Sets a positive MTU; 0 leaves it unchanged.
    pub fn set_mtu(&mut self, mtu: u32)
        ensures
            final(self).mtu == (if mtu > 0 {
                Some(mtu)
            } else {
                old(self).mtu
            }),
            final(self).interface_index == old(self).interface_index,
            final(self).name == old(self).name,
            final(self).description == old(self).description,
            final(self).link_type == old(self).link_type,
            final(self).mac_address == old(self).mac_address,
    {
        if mtu > 0 {
            self.mtu = Some(mtu);
        }
    }

    pub fn has_mac(&self) -> (r: bool)
        ensures
            r == (self.mac_address is Some),
    {
        self.mac_address.is_some()
    }
}

/// Some adapter entry is of interface `index`; then there is a first one.
pub open spec fn has_adapter_slot(a: Seq<AdapterMetadata>, index: u32) -> bool {
    exists|i: int|
        0 <= i < a.len() && (#[trigger] a[i]).interface_index == index && forall|j: int|
            0 <= j < i ==> (#[trigger] a[j]).interface_index != index
}

/// The first adapter entry of interface `index`.
pub open spec fn adapter_slot(a: Seq<AdapterMetadata>, index: u32) -> int {
    choose|i: int|
        0 <= i < a.len() && (#[trigger] a[i]).interface_index == index && forall|j: int|
            0 <= j < i ==> (#[trigger] a[j]).interface_index != index
}

/// Packet metadata in arrival order, and one adapter entry per interface.
#[derive(Debug, Default)]
pub struct MetadataTable {
    packets: Vec<PacketMetadata>,
    adapters: Vec<AdapterMetadata>,
}

impl MetadataTable {
    pub closed spec fn packets_view(self) -> Seq<PacketMetadata> {
        self.packets@
    }

    pub closed spec fn adapters_view(self) -> Seq<AdapterMetadata> {
        self.adapters@
    }

    pub fn new() -> (r: Self)
        ensures
            r.packets_view().len() == 0,
            r.adapters_view().len() == 0,
    {
        MetadataTable { packets: Vec::new(), adapters: Vec::new() }
    }

    pub fn add_packet(&mut self, metadata: PacketMetadata)
        ensures
            final(self).packets_view() == old(self).packets_view().push(metadata),
            final(self).adapters_view() == old(self).adapters_view(),
    {
        self.packets.push(metadata);
    }

    /// Replaces the first entry of the same interface, or appends.
    pub fn add_adapter(&mut self, metadata: AdapterMetadata)
        ensures
            final(self).packets_view() == old(self).packets_view(),
            ({
                let a = old(self).adapters_view();
                if has_adapter_slot(a, metadata.interface_index) {
                    final(self).adapters_view() == a.update(
                        adapter_slot(a, metadata.interface_index),
                        metadata,
                    )
                } else {
                    final(self).adapters_view() == a.push(metadata)
                }
            }),
    {
        let ghost a = self.adapters@;
        let mut i: usize = 0;
        while i < self.adapters.len()
            invariant
                i <= self.adapters@.len(),
                self.adapters@ == a,
                a == old(self).adapters@,
                self.packets@ == old(self).packets@,
                forall|j: int| 0 <= j < i ==> (#[trigger] a[j]).interface_index
                    != metadata.interface_index,
            decreases self.adapters@.len() - i,
        {
            if self.adapters[i].interface_index == metadata.interface_index {
                proof {
                    let k = adapter_slot(a, metadata.interface_index);
                    assert(0 <= i < a.len() && a[i as int].interface_index == metadata.interface_index
                        && forall|j: int|
                        0 <= j < i ==> (#[trigger] a[j]).interface_index
                            != metadata.interface_index);
                    assert(has_adapter_slot(a, metadata.interface_index));
                    if k < i {
                        assert(a[k].interface_index != metadata.interface_index);
                    } else if k > i {
                        assert(a[i as int].interface_index != metadata.interface_index);
                    }
                    assert(adapter_slot(a, metadata.interface_index) == i);
                }
                self.adapters.set(i, metadata);
                return;
            }
            i = i + 1;
        }
        self.adapters.push(metadata);
    }

    pub fn packet_metadata(&self) -> (r: &[PacketMetadata])
        ensures
            r@ == self.packets_view(),
    {
        self.packets.as_slice()
    }

    pub fn adapters(&self) -> (r: &[AdapterMetadata])
        ensures
            r@ == self.adapters_view(),
    {
        self.adapters.as_slice()
    }

    pub fn clear_packets(&mut self)
        ensures
            final(self).packets_view().len() == 0,
            final(self).adapters_view() == old(self).adapters_view(),
    {
        self.packets = Vec::new();
    }

    pub fn clear_adapters(&mut self)
        ensures
            final(self).adapters_view().len() == 0,
            final(self).packets_view() == old(self).packets_view(),
    {
        self.adapters = Vec::new();
    }

    pub fn clear(&mut self)
        ensures
            final(self).packets_view().len() == 0,
            final(self).adapters_view().len() == 0,
    {
        self.packets = Vec::new();
        self.adapters = Vec::new();
    }

    pub fn packet_count(&self) -> (r: usize)
        ensures
            r == self.packets_view().len(),
    {
        self.packets.len()
    }

    pub fn adapter_count(&self) -> (r: usize)
        ensures
            r == self.adapters_view().len(),
    {
        self.adapters.len()
    }
}

} // verus!
