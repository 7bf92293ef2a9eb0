//! Receiving, passing, dropping and reinjecting intercepted packets.
//!
//! The native driver calls belong to the caller; these functions check the
//! handle and the packet and decide what each native outcome means.
use vstd::prelude::*;

use crate::windivert::ffi::{flag_bit, u32_le, WinDivertAddress};
use crate::windivert::handle::{WinDivertError, WinDivertHandle, WinDivertHandleState};

verus! {

pub const MAX_PACKET_SIZE: usize = 65535;

#[derive(Debug, Clone, Copy, PartialEq, Eq, Structural)]
pub enum PacketDirection {
    Inbound,
    Outbound,
}

/// A packet diverted by the driver, with the address it came with.
#[derive(Debug, Clone, PartialEq, Eq)]
pub struct InterceptedPacket {
    pub data: Vec<u8>,
    pub direction: PacketDirection,
    pub interface_index: u32,
    pub loopback: bool,
    pub impostor: bool,
    /// The address the driver delivered the packet with.
    pub address: WinDivertAddress,
}

impl InterceptedPacket {
    pub open spec fn spec_address(self) -> WinDivertAddress {
        self.address
    }

    /// The packet as the driver delivered it: direction, interface,
    /// loopback and impostor flags are read from the address.
    pub fn from_native(data: Vec<u8>, address: WinDivertAddress) -> (r: Self)
        ensures
            r.data@ == data@,
            r.direction == (if flag_bit(address.flags_raw, 17) {
                PacketDirection::Outbound
            } else {
                PacketDirection::Inbound
            }),
            r.interface_index == u32_le(
                address.data@[0],
                address.data@[1],
                address.data@[2],
                address.data@[3],
            ),
            r.loopback == flag_bit(address.flags_raw, 18),
            r.impostor == flag_bit(address.flags_raw, 19),
            r.spec_address() == address,
    {
        InterceptedPacket {
            data,
            direction: if address.is_outbound() {
                PacketDirection::Outbound
            } else {
                PacketDirection::Inbound
            },
            interface_index: address.interface_index(),
            loopback: address.is_loopback(),
            impostor: address.is_impostor(),
            address,
        }
    }

    pub fn address(&self) -> (r: WinDivertAddress)
        ensures
            r == self.spec_address(),
    {
        self.address
    }
}

/// Receives a packet on an open handle. Without the native driver
/// nothing can be received.
pub fn recv_packet(handle: &WinDivertHandle) -> (r: Result<InterceptedPacket, WinDivertError>)
    ensures
        handle.spec_state() != WinDivertHandleState::Open ==> r == Err::<
            InterceptedPacket,
            WinDivertError,
        >(WinDivertError::InvalidOperation),
        handle.spec_state() == WinDivertHandleState::Open ==> r == Err::<
            InterceptedPacket,
            WinDivertError,
        >(WinDivertError::RecvFailed),
{
    handle.require_open()?;
    Err(WinDivertError::RecvFailed)
}

/// What a `WinDivertRecv` outcome means: a failed call, an empty packet, a
/// length beyond the buffer, or the first `received` bytes of the buffer
/// as a packet with its address.
pub fn accept_received(ok: i32, received: u32, buffer: Vec<u8>, address: WinDivertAddress) -> (r:
    Result<InterceptedPacket, WinDivertError>)
    ensures
        ok == 0 ==> r == Err::<InterceptedPacket, WinDivertError>(WinDivertError::RecvFailed),
        ok != 0 && received == 0 ==> r == Err::<InterceptedPacket, WinDivertError>(
            WinDivertError::InvalidPacket,
        ),
        ok != 0 && received > buffer@.len() ==> r == Err::<InterceptedPacket, WinDivertError>(
            WinDivertError::PacketTooLarge,
        ),
        r is Ok == (ok != 0 && 0 < received <= buffer@.len()),
        r matches Ok(p) ==> p.data@ == buffer@.subrange(0, received as int) && p.spec_address()
            == address,
{
    if ok == 0 {
        return Err(WinDivertError::RecvFailed);
    }
    let received = received as usize;
    if received == 0 {
        return Err(WinDivertError::InvalidPacket);
    }
    if received > buffer.len() {
        return Err(WinDivertError::PacketTooLarge);
    }
    let mut buffer = buffer;
    buffer.truncate(received);
    Ok(InterceptedPacket::from_native(buffer, address))
}

/// Sends the packet on unchanged.
pub fn pass(handle: &WinDivertHandle, packet: &InterceptedPacket) -> (r: Result<(), WinDivertError>)
    ensures
        r == reinject_decision(handle.spec_state(), packet.data@.len()),
{
    reinject(handle, packet.data.as_slice(), &packet.address)
}

/// Drops the packet: it is simply not sent on.
pub fn drop_packet(packet: InterceptedPacket) {
}

/// The checks before a reinjection: an open handle, then a payload that is
/// neither empty nor beyond the size limit.
pub open spec fn reinject_check(state: WinDivertHandleState, len: nat) -> Result<(), WinDivertError> {
    if state != WinDivertHandleState::Open {
        Err(WinDivertError::InvalidOperation)
    } else if len == 0 {
        Err(WinDivertError::InvalidOperation)
    } else if len > 65535 {
        Err(WinDivertError::PacketTooLarge)
    } else {
        Ok(())
    }
}

/// A reinjection without the native driver: the checks, then the checksum
/// helper's failure.
pub open spec fn reinject_decision(state: WinDivertHandleState, len: nat) -> Result<(), WinDivertError> {
    match reinject_check(state, len) {
        Err(e) => Err(e),
        Ok(()) => Err(WinDivertError::InvalidPacket),
    }
}

/// The checks before a reinjection.
pub fn reinject_checks(handle: &WinDivertHandle, data: &[u8]) -> (r: Result<(), WinDivertError>)
    ensures
        r == reinject_check(handle.spec_state(), data@.len()),
{
    handle.require_open()?;
    if data.len() == 0 {
        return Err(WinDivertError::InvalidOperation);
    }
    if data.len() > MAX_PACKET_SIZE {
        return Err(WinDivertError::PacketTooLarge);
    }
    Ok(())
}

/// What the native outcomes of a reinjection mean: a failed checksum
/// computation, a failed send, or a send of fewer bytes than the packet.
pub fn reinject_outcome(checksum_ok: i32, send_ok: i32, sent: u32, len: usize) -> (r: Result<
    (),
    WinDivertError,
>)
    ensures
        checksum_ok == 0 ==> r == Err::<(), WinDivertError>(WinDivertError::InvalidPacket),
        checksum_ok != 0 && (send_ok == 0 || sent != len) ==> r == Err::<(), WinDivertError>(
            WinDivertError::SendFailed,
        ),
        r is Ok == (checksum_ok != 0 && send_ok != 0 && sent == len),
{
    if checksum_ok == 0 {
        return Err(WinDivertError::InvalidPacket);
    }
    if send_ok == 0 {
        return Err(WinDivertError::SendFailed);
    }
    if sent as usize != len {
        return Err(WinDivertError::SendFailed);
    }
    Ok(())
}

/// Reinjects `data` with `address`. Without the native driver the
/// checksum helper fails once the checks pass.
pub fn reinject(handle: &WinDivertHandle, data: &[u8], address: &WinDivertAddress) -> (r: Result<
    (),
    WinDivertError,
>)
    ensures
        r == reinject_decision(handle.spec_state(), data@.len()),
{
    reinject_checks(handle, data)?;
    reinject_outcome(0, 0, 0, data.len())
}

} // verus!
