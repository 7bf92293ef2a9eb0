//! The WinDivert handle: configuration and lifecycle.
//!
//! The native handle itself belongs to the caller; the handle here decides
//! which transitions are allowed and what a native outcome means.
use vstd::prelude::*;

use crate::text::str_contains_char;
use crate::windivert::ffi::{
    validate_filter, WINDIVERT_FLAG_SEND_ONLY, WINDIVERT_FLAG_SNIFF, WINDIVERT_LAYER_FLOW,
    WINDIVERT_LAYER_NETWORK, WINDIVERT_LAYER_NETWORK_FORWARD, WINDIVERT_LAYER_REFLECT,
    WINDIVERT_LAYER_SOCKET,
};

verus! {

#[derive(Debug, Clone, Copy, PartialEq, Eq, Structural)]
pub enum WinDivertLayer {
    Network,
    NetworkForward,
    Flow,
    Socket,
    Reflect,
}

impl WinDivertLayer {
    pub open spec fn spec_raw(self) -> u8 {
        match self {
            WinDivertLayer::Network => WINDIVERT_LAYER_NETWORK,
            WinDivertLayer::NetworkForward => WINDIVERT_LAYER_NETWORK_FORWARD,
            WinDivertLayer::Flow => WINDIVERT_LAYER_FLOW,
            WinDivertLayer::Socket => WINDIVERT_LAYER_SOCKET,
            WinDivertLayer::Reflect => WINDIVERT_LAYER_REFLECT,
        }
    }

    /// The layer code `WinDivertOpen` takes.
    pub fn as_raw(self) -> (r: u8)
        ensures
            r == self.spec_raw(),
    {
        match self {
            WinDivertLayer::Network => WINDIVERT_LAYER_NETWORK,
            WinDivertLayer::NetworkForward => WINDIVERT_LAYER_NETWORK_FORWARD,
            WinDivertLayer::Flow => WINDIVERT_LAYER_FLOW,
            WinDivertLayer::Socket => WINDIVERT_LAYER_SOCKET,
            WinDivertLayer::Reflect => WINDIVERT_LAYER_REFLECT,
        }
    }
}

#[derive(Debug, Clone, Copy, PartialEq, Eq, Structural)]
pub enum WinDivertError {
    InitFailed,
    OpenFailed,
    FilterFailed,
    RecvFailed,
    SendFailed,
    CloseFailed,
    InvalidOperation,
    QueueError,
    InvalidPacket,
    PacketTooLarge,
    QueueFull,
    QueueEmpty,
}

/// How to open a handle.
#[derive(Debug, Clone, PartialEq, Eq)]
pub struct WinDivertConfig {
    pub filter: String,
    pub layer: WinDivertLayer,
    pub priority: i16,
    pub sniff_only: bool,
    pub send_only: bool,
}

impl WinDivertConfig {
    /// A configuration with priority 0 and no flags; a filter the driver
    /// cannot take is refused.
    pub fn new(filter: &str, layer: WinDivertLayer) -> (r: Result<Self, WinDivertError>)
        ensures
            r is Ok == (validate_filter_ok(filter@)),
            r matches Err(e) ==> e == WinDivertError::FilterFailed,
            r matches Ok(c) ==> c.filter@ == filter@ && c.layer == layer && c.priority == 0
                && !c.sniff_only && !c.send_only,
    {
        match validate_filter(filter) {
            Ok(()) => Ok(
                WinDivertConfig {
                    filter: filter.to_owned(),
                    layer,
                    priority: 0,
                    sniff_only: false,
                    send_only: false,
                },
            ),
            Err(_) => Err(WinDivertError::FilterFailed),
        }
    }

    pub open spec fn spec_raw_flags(self) -> u64 {
        (if self.sniff_only {
            WINDIVERT_FLAG_SNIFF
        } else {
            0u64
        }) | (if self.send_only {
            WINDIVERT_FLAG_SEND_ONLY
        } else {
            0u64
        })
    }

    /// The flag word `WinDivertOpen` takes.
    pub fn raw_flags(&self) -> (r: u64)
        ensures
            r == self.spec_raw_flags(),
    {
        let a: u64 = if self.sniff_only {
            WINDIVERT_FLAG_SNIFF
        } else {
            0
        };
        let b: u64 = if self.send_only {
            WINDIVERT_FLAG_SEND_ONLY
        } else {
            0
        };
        a | b
    }
}

/// The filters `validate_filter` accepts.
pub open spec fn validate_filter_ok(filter: Seq<char>) -> bool {
    !crate::text::is_blank(filter) && !filter.contains('\0')
}

#[derive(Debug, Clone, Copy, PartialEq, Eq, Structural)]
pub enum WinDivertHandleState {
    Closed,
    Opening,
    Open,
    Closing,
    Failed,
}

impl WinDivertHandleState {
    pub open spec fn spec_can_open(self) -> bool {
        self is Closed || self is Failed
    }

    pub open spec fn spec_can_close(self) -> bool {
        self is Open || self is Failed
    }

    pub fn can_open(self) -> (r: bool)
        ensures
            r == self.spec_can_open(),
    {
        matches!(self, WinDivertHandleState::Closed | WinDivertHandleState::Failed)
    }

    pub fn can_close(self) -> (r: bool)
        ensures
            r == self.spec_can_close(),
    {
        matches!(self, WinDivertHandleState::Open | WinDivertHandleState::Failed)
    }
}

/// A WinDivert handle's configuration and lifecycle.
#[derive(Debug)]
pub struct WinDivertHandle {
    config: WinDivertConfig,
    state: WinDivertHandleState,
}

impl WinDivertHandle {
    pub closed spec fn spec_state(self) -> WinDivertHandleState {
        self.state
    }

    pub closed spec fn spec_config(self) -> WinDivertConfig {
        self.config
    }

    pub fn new(config: WinDivertConfig) -> (r: Self)
        ensures
            r.spec_state() == WinDivertHandleState::Closed,
            r.spec_config() == config,
    {
        WinDivertHandle { config, state: WinDivertHandleState::Closed }
    }

    pub fn state(&self) -> (r: WinDivertHandleState)
        ensures
            r == self.spec_state(),
    {
        self.state
    }

    pub fn is_open(&self) -> (r: bool)
        ensures
            r == (self.spec_state() == WinDivertHandleState::Open),
    {
        self.state == WinDivertHandleState::Open
    }

    pub fn config(&self) -> (r: &WinDivertConfig)
        ensures
            *r == self.spec_config(),
    {
        &self.config
    }

    /// Checks an open request and moves to `Opening`. Only a closed or
    /// failed handle may open; a filter with a NUL character cannot be
    /// handed to the driver.
    pub fn begin_open(&mut self) -> (r: Result<(), WinDivertError>)
        ensures
            final(self).spec_config() == old(self).spec_config(),
            !old(self).spec_state().spec_can_open() ==> r == Err::<(), WinDivertError>(
                WinDivertError::InvalidOperation,
            ) && final(self).spec_state() == old(self).spec_state(),
            old(self).spec_state().spec_can_open() ==> final(self).spec_state()
                == WinDivertHandleState::Opening,
            old(self).spec_state().spec_can_open() && old(self).spec_config().filter@.contains('\0')
                ==> r == Err::<(), WinDivertError>(WinDivertError::FilterFailed),
            old(self).spec_state().spec_can_open() && !old(self).spec_config().filter@.contains(
                '\0',
            ) ==> r is Ok,
    {
        if !self.state.can_open() {
            return Err(WinDivertError::InvalidOperation);
        }
        self.state = WinDivertHandleState::Opening;
        if str_contains_char(self.config.filter.as_str(), '\0') {
            return Err(WinDivertError::FilterFailed);
        }
        Ok(())
    }

    /// Records whether the driver opened the handle.
    pub fn complete_open(&mut self, opened: bool) -> (r: Result<(), WinDivertError>)
        ensures
            final(self).spec_config() == old(self).spec_config(),
            opened ==> r is Ok && final(self).spec_state() == WinDivertHandleState::Open,
            !opened ==> r == Err::<(), WinDivertError>(WinDivertError::OpenFailed) && final(self).spec_state() == WinDivertHandleState::Failed,
    {
        if opened {
            self.state = WinDivertHandleState::Open;
            Ok(())
        } else {
            self.state = WinDivertHandleState::Failed;
            Err(WinDivertError::OpenFailed)
        }
    }

    /// Opens the handle. Without the native driver nothing can open, so an
    /// allowed request ends `Failed` with `OpenFailed`.
    pub fn open(&mut self) -> (r: Result<(), WinDivertError>)
        ensures
            final(self).spec_config() == old(self).spec_config(),
            r is Err,
            !old(self).spec_state().spec_can_open() ==> r == Err::<(), WinDivertError>(
                WinDivertError::InvalidOperation,
            ) && final(self).spec_state() == old(self).spec_state(),
            old(self).spec_state().spec_can_open() && old(self).spec_config().filter@.contains('\0')
                ==> r == Err::<(), WinDivertError>(WinDivertError::FilterFailed) && final(self).spec_state() == WinDivertHandleState::Opening,
            old(self).spec_state().spec_can_open() && !old(self).spec_config().filter@.contains(
                '\0',
            ) ==> r == Err::<(), WinDivertError>(WinDivertError::OpenFailed) && final(self).spec_state() == WinDivertHandleState::Failed,
    {
        match self.begin_open() {
            Ok(()) => {},
            Err(e) => {
                return Err(e);
            },
        }
        self.complete_open(false)
    }

    /// Checks a close request: a closed handle needs nothing (`Ok(false)`);
    /// an open or failed one moves to `Closing` and needs the native close
    /// (`Ok(true)`); any other state refuses.
    pub fn begin_close(&mut self) -> (r: Result<bool, WinDivertError>)
        ensures
            final(self).spec_config() == old(self).spec_config(),
            old(self).spec_state() == WinDivertHandleState::Closed ==> r == Ok::<
                bool,
                WinDivertError,
            >(false) && final(self).spec_state() == WinDivertHandleState::Closed,
            old(self).spec_state().spec_can_close() ==> r == Ok::<bool, WinDivertError>(true)
                && final(self).spec_state() == WinDivertHandleState::Closing,
            !old(self).spec_state().spec_can_close() && old(self).spec_state()
                != WinDivertHandleState::Closed ==> r == Err::<bool, WinDivertError>(
                WinDivertError::InvalidOperation,
            ) && final(self).spec_state() == old(self).spec_state(),
    {
        if self.state == WinDivertHandleState::Closed {
            return Ok(false);
        }
        if !self.state.can_close() {
            return Err(WinDivertError::InvalidOperation);
        }
        self.state = WinDivertHandleState::Closing;
        Ok(true)
    }

    /// Records whether the driver closed the handle.
    pub fn complete_close(&mut self, closed: bool) -> (r: Result<(), WinDivertError>)
        ensures
            final(self).spec_config() == old(self).spec_config(),
            closed ==> r is Ok && final(self).spec_state() == WinDivertHandleState::Closed,
            !closed ==> r == Err::<(), WinDivertError>(WinDivertError::CloseFailed) && final(self).spec_state() == WinDivertHandleState::Failed,
    {
        if closed {
            self.state = WinDivertHandleState::Closed;
            Ok(())
        } else {
            self.state = WinDivertHandleState::Failed;
            Err(WinDivertError::CloseFailed)
        }
    }

    /// Closes the handle; with no native handle to release it ends
    /// `Closed`.
    pub fn close(&mut self) -> (r: Result<(), WinDivertError>)
        ensures
            final(self).spec_config() == old(self).spec_config(),
            r is Ok == (old(self).spec_state() == WinDivertHandleState::Closed || old(self).spec_state().spec_can_close()),
            r is Ok ==> final(self).spec_state() == WinDivertHandleState::Closed,
            r is Err ==> r == Err::<(), WinDivertError>(WinDivertError::InvalidOperation) && final(self).spec_state() == old(self).spec_state(),
    {
        match self.begin_close() {
            Ok(true) => self.complete_close(true),
            Ok(false) => Ok(()),
            Err(e) => Err(e),
        }
    }

    /// `Ok` exactly when the handle is open.
    pub fn require_open(&self) -> (r: Result<(), WinDivertError>)
        ensures
            r is Ok == (self.spec_state() == WinDivertHandleState::Open),
            r is Err ==> r == Err::<(), WinDivertError>(WinDivertError::InvalidOperation),
    {
        if !self.is_open() {
            return Err(WinDivertError::InvalidOperation);
        }
        Ok(())
    }

    /// Sets the driver's queue length; without the native driver the
    /// parameter cannot be set.
    pub fn set_queue_length(&mut self, packets: u64) -> (r: Result<(), WinDivertError>)
        ensures
            *final(self) == *old(self),
            old(self).spec_state() != WinDivertHandleState::Open ==> r == Err::<(), WinDivertError>(
                WinDivertError::InvalidOperation,
            ),
            old(self).spec_state() == WinDivertHandleState::Open ==> r == Err::<(), WinDivertError>(
                WinDivertError::QueueError,
            ),
    {
        self.require_open()?;
        queue_length_result(0)
    }
}

/// The outcome of `WinDivertSetParam`: zero is failure.
pub fn queue_length_result(status: i32) -> (r: Result<(), WinDivertError>)
    ensures
        status == 0 ==> r == Err::<(), WinDivertError>(WinDivertError::QueueError),
        status != 0 ==> r is Ok,
{
    if status == 0 {
        return Err(WinDivertError::QueueError);
    }
    Ok(())
}

} // verus!
