//! The WinDivert backend as the engine drives it.
use vstd::prelude::*;

use crate::windivert::actions::{
    drop_packet, pass, recv_packet, reinject, reinject_decision, InterceptedPacket,
};
use crate::windivert::capture::{spec_layer_kind, CaptureConfig};
use crate::windivert::ffi::WinDivertAddress;
use crate::windivert::handle::{
    validate_filter_ok, WinDivertConfig, WinDivertError, WinDivertHandle, WinDivertHandleState,
};

verus! {

pub const WINDIVERT_BACKEND_NAME: &'static str = "windivert";

pub const WINDIVERT_BACKEND_VERSION: &'static str = "0.1.0";

/// One WinDivert handle driven as a backend.
#[derive(Debug)]
pub struct WinDivertBackend {
    handle: WinDivertHandle,
}

impl WinDivertBackend {
    pub closed spec fn spec_handle(self) -> WinDivertHandle {
        self.handle
    }

    pub fn new(config: WinDivertConfig) -> (r: Self)
        ensures
            r.spec_handle().spec_state() == WinDivertHandleState::Closed,
            r.spec_handle().spec_config() == config,
    {
        WinDivertBackend { handle: WinDivertHandle::new(config) }
    }

    /// A backend for a textual capture configuration.
    pub fn from_capture_config(config: CaptureConfig) -> (r: Result<Self, WinDivertError>)
        ensures
            spec_layer_kind(config.layer@) is None ==> r is Err && r->Err_0
                == WinDivertError::InvalidOperation,
            r is Ok == (spec_layer_kind(config.layer@) is Some && validate_filter_ok(
                config.filter@,
            )),
            r matches Ok(b) ==> b.spec_handle().spec_state() == WinDivertHandleState::Closed,
    {
        let handle_config = config.into_handle_config()?;
        Ok(Self::new(handle_config))
    }

    /// Opens the handle (see `WinDivertHandle::open`).
    pub fn start(&mut self) -> (r: Result<(), WinDivertError>)
        ensures
            r is Err,
            !old(self).spec_handle().spec_state().spec_can_open() ==> r == Err::<(), WinDivertError>(
                WinDivertError::InvalidOperation,
            ),
    {
        self.handle.open()
    }

    /// Closes the handle (see `WinDivertHandle::close`).
    pub fn stop(&mut self) -> (r: Result<(), WinDivertError>)
        ensures
            r is Ok == (old(self).spec_handle().spec_state() == WinDivertHandleState::Closed || old(self).spec_handle().spec_state().spec_can_close()),
            r is Ok ==> final(self).spec_handle().spec_state() == WinDivertHandleState::Closed,
    {
        self.handle.close()
    }

    pub fn is_running(&self) -> (r: bool)
        ensures
            r == (self.spec_handle().spec_state() == WinDivertHandleState::Open),
    {
        self.handle.is_open()
    }

    pub fn state(&self) -> (r: WinDivertHandleState)
        ensures
            r == self.spec_handle().spec_state(),
    {
        self.handle.state()
    }

    pub fn recv(&self) -> (r: Result<InterceptedPacket, WinDivertError>)
        ensures
            r is Err,
            self.spec_handle().spec_state() != WinDivertHandleState::Open ==> r == Err::<
                InterceptedPacket,
                WinDivertError,
            >(WinDivertError::InvalidOperation),
    {
        recv_packet(&self.handle)
    }

    pub fn pass(&self, packet: &InterceptedPacket) -> (r: Result<(), WinDivertError>)
        ensures
            r == reinject_decision(self.spec_handle().spec_state(), packet.data@.len()),
    {
        pass(&self.handle, packet)
    }

    pub fn drop(&self, packet: InterceptedPacket) {
        drop_packet(packet)
    }

    /// Reinjects with an address given in its 80-byte context form; any
    /// other length is an invalid operation.
    pub fn reinject_with_context(&self, data: &[u8], context: &[u8]) -> (r: Result<(), WinDivertError>)
        ensures
            context@.len() != 80 ==> r == Err::<(), WinDivertError>(WinDivertError::InvalidOperation),
            context@.len() == 80 ==> r == reinject_decision(
                self.spec_handle().spec_state(),
                data@.len(),
            ),
    {
        let address = match WinDivertAddress::from_bytes(context) {
            Some(a) => a,
            None => {
                return Err(WinDivertError::InvalidOperation);
            },
        };
        reinject(&self.handle, data, &address)
    }

    pub fn reinject(&self, data: &[u8], address: &WinDivertAddress) -> (r: Result<(), WinDivertError>)
        ensures
            r == reinject_decision(self.spec_handle().spec_state(), data@.len()),
    {
        reinject(&self.handle, data, address)
    }

    /// Sets the driver's queue length; without the native driver the
    /// parameter cannot be set.
    pub fn set_queue_length(&mut self, packets: u64) -> (r: Result<(), WinDivertError>)
        ensures
            final(self).spec_handle() == old(self).spec_handle(),
            old(self).spec_handle().spec_state() != WinDivertHandleState::Open ==> r == Err::<
                (),
                WinDivertError,
            >(WinDivertError::InvalidOperation),
            old(self).spec_handle().spec_state() == WinDivertHandleState::Open ==> r == Err::<
                (),
                WinDivertError,
            >(WinDivertError::QueueError),
    {
        self.handle.set_queue_length(packets)
    }
}

} // verus!
