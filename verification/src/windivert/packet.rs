//! A packet held by the WinDivert backend, with what the driver reported.
use vstd::prelude::*;

use crate::windivert::handle::WinDivertError;

verus! {

/// The largest packet the backend handles.
const MAX_PACKET_SIZE: usize = 65535;

#[derive(Debug, Clone, Copy, PartialEq, Eq, Structural)]
pub enum PacketDirection {
    Inbound,
    Outbound,
    Unknown,
}

/// Packet bytes with their timestamp, direction and interfaces.
#[derive(Debug, Clone, PartialEq, Eq)]
pub struct WinDivertPacket {
    data: Vec<u8>,
    timestamp_ns: u64,
    direction: PacketDirection,
    interface_index: u32,
    sub_interface_index: u32,
}

/// Why `data` cannot be a packet: empty, or beyond the size limit.
pub open spec fn packet_data_error(data: Seq<u8>) -> Option<WinDivertError> {
    if data.len() == 0 {
        Some(WinDivertError::InvalidPacket)
    } else if data.len() > 65535 {
        Some(WinDivertError::PacketTooLarge)
    } else {
        None
    }
}

/// A copy of `data`.
pub fn copy_bytes(data: &[u8]) -> (r: Vec<u8>)
    ensures
        r@ == data@,
{
    let mut v: Vec<u8> = Vec::new();
    v.extend_from_slice(data);
    v
}

impl WinDivertPacket {
    pub closed spec fn spec_data(self) -> Seq<u8> {
        self.data@
    }

    pub closed spec fn spec_timestamp_ns(self) -> u64 {
        self.timestamp_ns
    }

    pub closed spec fn spec_direction(self) -> PacketDirection {
        self.direction
    }

    pub closed spec fn spec_interface_index(self) -> u32 {
        self.interface_index
    }

    pub closed spec fn spec_sub_interface_index(self) -> u32 {
        self.sub_interface_index
    }

    /// A packet of `data` with no timestamp, unknown direction and
    /// interfaces 0; empty or oversized data is refused.
    pub fn new(data: Vec<u8>) -> (r: Result<Self, WinDivertError>)
        ensures
            packet_data_error(data@) matches Some(e) ==> r == Err::<Self, WinDivertError>(e),
            packet_data_error(data@) is None ==> r is Ok,
            r matches Ok(p) ==> p.spec_data() == data@ && p.spec_timestamp_ns() == 0
                && p.spec_direction() == PacketDirection::Unknown && p.spec_interface_index() == 0
                && p.spec_sub_interface_index() == 0,
    {
        if data.len() == 0 {
            return Err(WinDivertError::InvalidPacket);
        }
        if data.len() > MAX_PACKET_SIZE {
            return Err(WinDivertError::PacketTooLarge);
        }
        Ok(
            WinDivertPacket {
                data,
                timestamp_ns: 0,
                direction: PacketDirection::Unknown,
                interface_index: 0,
                sub_interface_index: 0,
            },
        )
    }

    /// `new` on a copy of `data`.
    pub fn from_slice(data: &[u8]) -> (r: Result<Self, WinDivertError>)
        ensures
            packet_data_error(data@) matches Some(e) ==> r == Err::<Self, WinDivertError>(e),
            packet_data_error(data@) is None ==> r is Ok,
            r matches Ok(p) ==> p.spec_data() == data@ && p.spec_timestamp_ns() == 0
                && p.spec_direction() == PacketDirection::Unknown && p.spec_interface_index() == 0
                && p.spec_sub_interface_index() == 0,
    {
        Self::new(copy_bytes(data))
    }

    pub fn data(&self) -> (r: &[u8])
        ensures
            r@ == self.spec_data(),
    {
        self.data.as_slice()
    }

    /// The bytes, for changing them in place.
    pub fn data_mut(&mut self) -> (r: &mut [u8])
        ensures
            r@ == old(self).spec_data(),
            final(self).spec_data() == final(r)@,
            final(self).spec_timestamp_ns() == old(self).spec_timestamp_ns(),
            final(self).spec_direction() == old(self).spec_direction(),
            final(self).spec_interface_index() == old(self).spec_interface_index(),
            final(self).spec_sub_interface_index() == old(self).spec_sub_interface_index(),
    {
        self.data.as_mut_slice()
    }

    pub fn into_data(self) -> (r: Vec<u8>)
        ensures
            r@ == self.spec_data(),
    {
        self.data
    }

    pub fn len(&self) -> (r: usize)
        ensures
            r == self.spec_data().len(),
    {
        self.data.len()
    }

    pub fn is_empty(&self) -> (r: bool)
        ensures
            r == (self.spec_data().len() == 0),
    {
        self.data.len() == 0
    }

    pub fn timestamp_ns(&self) -> (r: u64)
        ensures
            r == self.spec_timestamp_ns(),
    {
        self.timestamp_ns
    }

    pub fn set_timestamp_ns(&mut self, timestamp_ns: u64)
        ensures
            final(self).spec_timestamp_ns() == timestamp_ns,
            final(self).spec_data() == old(self).spec_data(),
            final(self).spec_direction() == old(self).spec_direction(),
            final(self).spec_interface_index() == old(self).spec_interface_index(),
            final(self).spec_sub_interface_index() == old(self).spec_sub_interface_index(),
    {
        self.timestamp_ns = timestamp_ns;
    }

    pub fn direction(&self) -> (r: PacketDirection)
        ensures
            r == self.spec_direction(),
    {
        self.direction
    }

    pub fn set_direction(&mut self, direction: PacketDirection)
        ensures
            final(self).spec_direction() == direction,
            final(self).spec_data() == old(self).spec_data(),
            final(self).spec_timestamp_ns() == old(self).spec_timestamp_ns(),
            final(self).spec_interface_index() == old(self).spec_interface_index(),
            final(self).spec_sub_interface_index() == old(self).spec_sub_interface_index(),
    {
        self.direction = direction;
    }

    pub fn interface_index(&self) -> (r: u32)
        ensures
            r == self.spec_interface_index(),
    {
        self.interface_index
    }

    pub fn set_interface_index(&mut self, index: u32)
        ensures
            final(self).spec_interface_index() == index,
            final(self).spec_data() == old(self).spec_data(),
            final(self).spec_timestamp_ns() == old(self).spec_timestamp_ns(),
            final(self).spec_direction() == old(self).spec_direction(),
            final(self).spec_sub_interface_index() == old(self).spec_sub_interface_index(),
    {
        self.interface_index = index;
    }

    pub fn sub_interface_index(&self) -> (r: u32)
        ensures
            r == self.spec_sub_interface_index(),
    {
        self.sub_interface_index
    }

    pub fn set_sub_interface_index(&mut self, index: u32)
        ensures
            final(self).spec_sub_interface_index() == index,
            final(self).spec_data() == old(self).spec_data(),
            final(self).spec_timestamp_ns() == old(self).spec_timestamp_ns(),
            final(self).spec_direction() == old(self).spec_direction(),
            final(self).spec_interface_index() == old(self).spec_interface_index(),
    {
        self.sub_interface_index = index;
    }

    /// Replaces the bytes; empty or oversized data is refused and changes
    /// nothing.
    pub fn replace_data(&mut self, data: Vec<u8>) -> (r: Result<(), WinDivertError>)
        ensures
            packet_data_error(data@) matches Some(e) ==> r == Err::<(), WinDivertError>(e)
                && final(self).spec_data() == old(self).spec_data(),
            packet_data_error(data@) is None ==> r is Ok && final(self).spec_data() == data@,
            final(self).spec_timestamp_ns() == old(self).spec_timestamp_ns(),
            final(self).spec_direction() == old(self).spec_direction(),
            final(self).spec_interface_index() == old(self).spec_interface_index(),
            final(self).spec_sub_interface_index() == old(self).spec_sub_interface_index(),
    {
        if data.len() == 0 {
            return Err(WinDivertError::InvalidPacket);
        }
        if data.len() > MAX_PACKET_SIZE {
            return Err(WinDivertError::PacketTooLarge);
        }
        self.data = data;
        Ok(())
    }
}

} // verus!
