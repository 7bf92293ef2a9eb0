//! The WFP engine session: lifecycle of the engine handle and its sublayer.
//!
//! Opening and closing the native session is the caller's work; the engine
//! here decides which transitions are allowed and records their outcome.
use vstd::prelude::*;

use crate::error::{EngineError, EngineErrorCode};
use crate::text::{owned, push_str};

verus! {

#[derive(Debug, Clone, Copy, PartialEq, Eq, Structural)]
pub enum WfpEngineState {
    Closed,
    Opening,
    Open,
    Degraded,
    Closing,
    Failed,
}

/// The transition matrix of the engine; staying put is always allowed.
pub open spec fn engine_step(from: WfpEngineState, to: WfpEngineState) -> bool {
    ||| from == to
    ||| (from is Closed && to is Opening)
    ||| (from is Opening && (to is Open || to is Failed || to is Closing))
    ||| (from is Open && (to is Degraded || to is Closing || to is Failed))
    ||| (from is Degraded && (to is Open || to is Closing || to is Failed))
    ||| (from is Closing && (to is Closed || to is Failed))
    ||| (from is Failed && (to is Opening || to is Closing))
}

impl WfpEngineState {
    pub open spec fn spec_is_open(self) -> bool {
        self is Open || self is Degraded
    }

    pub open spec fn spec_can_open(self) -> bool {
        self is Closed || self is Failed
    }

    pub open spec fn spec_can_close(self) -> bool {
        self is Open || self is Degraded || self is Failed
    }

    /// The session can take requests (possibly degraded).
    pub fn is_open(self) -> (r: bool)
        ensures
            r == self.spec_is_open(),
    {
        matches!(self, WfpEngineState::Open | WfpEngineState::Degraded)
    }

    pub fn is_terminal(self) -> (r: bool)
        ensures
            r == (self is Closed || self is Failed),
    {
        matches!(self, WfpEngineState::Closed | WfpEngineState::Failed)
    }

    pub fn can_open(self) -> (r: bool)
        ensures
            r == self.spec_can_open(),
    {
        matches!(self, WfpEngineState::Closed | WfpEngineState::Failed)
    }

    pub fn can_close(self) -> (r: bool)
        ensures
            r == self.spec_can_close(),
    {
        matches!(self, WfpEngineState::Open | WfpEngineState::Degraded | WfpEngineState::Failed)
    }

    pub fn can_transition_to(self, next: Self) -> (r: bool)
        ensures
            r == engine_step(self, next),
    {
        if self == next {
            return true;
        }
        match (self, next) {
            (WfpEngineState::Closed, WfpEngineState::Opening) => true,
            (WfpEngineState::Opening, WfpEngineState::Open) => true,
            (WfpEngineState::Opening, WfpEngineState::Failed) => true,
            (WfpEngineState::Opening, WfpEngineState::Closing) => true,
            (WfpEngineState::Open, WfpEngineState::Degraded) => true,
            (WfpEngineState::Open, WfpEngineState::Closing) => true,
            (WfpEngineState::Open, WfpEngineState::Failed) => true,
            (WfpEngineState::Degraded, WfpEngineState::Open) => true,
            (WfpEngineState::Degraded, WfpEngineState::Closing) => true,
            (WfpEngineState::Degraded, WfpEngineState::Failed) => true,
            (WfpEngineState::Closing, WfpEngineState::Closed) => true,
            (WfpEngineState::Closing, WfpEngineState::Failed) => true,
            (WfpEngineState::Failed, WfpEngineState::Opening) => true,
            (WfpEngineState::Failed, WfpEngineState::Closing) => true,
            _ => false,
        }
    }
}

/// An error of the WFP backend with `code`.
pub open spec fn wfp_error(e: EngineError, code: EngineErrorCode) -> bool {
    e.code == code && e.backend is Some && e.backend->Some_0@ == "wfp"@
}

/// What `FwpmEngineOpen0` returning `status` and `handle` means: a
/// failed status fails initialization (with the status as native code),
/// a null handle is an invalid handle, and otherwise the session is open.
pub fn native_open_outcome(status: u32, handle: usize) -> (r: Result<usize, EngineError>)
    ensures
        status != 0 ==> r is Err && wfp_error(r->Err_0, EngineErrorCode::BackendInitializationFailed)
            && r->Err_0.native_code == Some(status as i32),
        status == 0 && handle == 0 ==> r is Err && wfp_error(r->Err_0, EngineErrorCode::InvalidHandle),
        status == 0 && handle != 0 ==> r == Ok::<usize, EngineError>(handle),
{
    if status != 0 {
        return Err(EngineError::backend_native(EngineErrorCode::BackendInitializationFailed, "wfp", status as i32));
    }
    if handle == 0 {
        return Err(EngineError::backend(EngineErrorCode::InvalidHandle, "wfp"));
    }
    Ok(handle)
}

/// What `FwpmEngineOpen0` returning `status` and `handle` means for a
/// filter table: a failed status or a null handle both fail
/// initialization, with the status as native code.
pub fn table_open_outcome(status: u32, handle: usize) -> (r: Result<usize, EngineError>)
    ensures
        status != 0 || handle == 0 ==> r is Err && wfp_error(r->Err_0, EngineErrorCode::BackendInitializationFailed)
            && r->Err_0.native_code == Some(status as i32),
        status == 0 && handle != 0 ==> r == Ok::<usize, EngineError>(handle),
{
    if status != 0 || handle == 0 {
        return Err(EngineError::backend_native(EngineErrorCode::BackendInitializationFailed, "wfp", status as i32));
    }
    Ok(handle)
}

/// What closing session `handle` with `FwpmEngineClose0` returning
/// `status` means: session 0 is an invalid handle (nothing is closed), a
/// failed status fails shutdown, and otherwise the session is closed.
pub fn native_close_outcome(handle: usize, status: u32) -> (r: Result<(), EngineError>)
    ensures
        handle == 0 ==> r is Err && wfp_error(r->Err_0, EngineErrorCode::InvalidHandle),
        handle != 0 && status != 0 ==> r is Err && wfp_error(r->Err_0, EngineErrorCode::BackendShutdownFailed)
            && r->Err_0.native_code == Some(status as i32),
        handle != 0 && status == 0 ==> r is Ok,
{
    if handle == 0 {
        return Err(EngineError::backend(EngineErrorCode::InvalidHandle, "wfp"));
    }
    if status != 0 {
        return Err(EngineError::backend_native(EngineErrorCode::BackendShutdownFailed, "wfp", status as i32));
    }
    Ok(())
}

/// What `FwpmFilterAdd0` returning `status` with the kernel id `id` means:
/// a failed status fails the start (with the status as native code).
pub fn filter_add_outcome(status: u32, id: u64) -> (r: Result<u64, EngineError>)
    ensures
        status != 0 ==> r is Err && wfp_error(r->Err_0, EngineErrorCode::BackendStartFailed)
            && r->Err_0.native_code == Some(status as i32),
        status == 0 ==> r == Ok::<u64, EngineError>(id),
{
    if status != 0 {
        return Err(EngineError::backend_native(EngineErrorCode::BackendStartFailed, "wfp", status as i32));
    }
    Ok(id)
}

/// The error an open reports when installing the sublayer failed with
/// `error`: an initialization failure that carries its message.
pub fn sublayer_install_failure(error: &EngineError) -> (r: EngineError)
    ensures
        r.code == EngineErrorCode::BackendInitializationFailed,
        r.backend is None,
        r.native_code is None,
        r.message@ == "WFP sublayer install failed: "@ + error.message@,
{
    let mut message = owned("WFP sublayer install failed: ");
    push_str(&mut message, error.message.as_str());
    EngineError { code: EngineErrorCode::BackendInitializationFailed, backend: None, native_code: None, message }
}

/// The error a close reports when removing the sublayer failed with
/// `error`: a shutdown failure that carries its message.
pub fn sublayer_removal_failure(error: &EngineError) -> (r: EngineError)
    ensures
        r.code == EngineErrorCode::BackendShutdownFailed,
        r.backend is None,
        r.native_code is None,
        r.message@ == "WFP sublayer removal failed: "@ + error.message@,
{
    let mut message = owned("WFP sublayer removal failed: ");
    push_str(&mut message, error.message.as_str());
    EngineError { code: EngineErrorCode::BackendShutdownFailed, backend: None, native_code: None, message }
}

/// The error a close reports: the failed sublayer removal first, else the
/// failed session close, else none.
pub fn first_close_error(removal: Result<(), EngineError>, close: Result<(), EngineError>) -> (r: Option<
    EngineError,
>)
    ensures
        removal matches Err(e) ==> r matches Some(f) && f.code == EngineErrorCode::BackendShutdownFailed
            && f.message@ == "WFP sublayer removal failed: "@ + e.message@,
        removal is Ok ==> r == match close {
            Err(e) => Some(e),
            Ok(()) => None::<EngineError>,
        },
{
    match removal {
        Err(e) => Some(sublayer_removal_failure(&e)),
        Ok(()) => match close {
            Err(e) => Some(e),
            Ok(()) => None,
        },
    }
}

/// The WFP engine session.
#[derive(Debug)]
pub struct WfpEngine {
    state: WfpEngineState,
    native_handle: Option<usize>,
    sublayer_installed: bool,
}

impl Default for WfpEngine {
    fn default() -> (r: Self)
        ensures
            r.spec_state() == WfpEngineState::Closed,
            r.spec_handle() is None,
            !r.spec_sublayer(),
    {
        Self::new()
    }
}

impl WfpEngine {
    pub closed spec fn spec_state(self) -> WfpEngineState {
        self.state
    }

    pub closed spec fn spec_handle(self) -> Option<usize> {
        self.native_handle
    }

    pub closed spec fn spec_sublayer(self) -> bool {
        self.sublayer_installed
    }

    pub fn new() -> (r: Self)
        ensures
            r.spec_state() == WfpEngineState::Closed,
            r.spec_handle() is None,
            !r.spec_sublayer(),
    {
        WfpEngine { state: WfpEngineState::Closed, native_handle: None, sublayer_installed: false }
    }

    pub fn state(&self) -> (r: WfpEngineState)
        ensures
            r == self.spec_state(),
    {
        self.state
    }

    pub fn is_open(&self) -> (r: bool)
        ensures
            r == self.spec_state().spec_is_open(),
    {
        self.state.is_open()
    }

    pub fn native_handle(&self) -> (r: Option<usize>)
        ensures
            r == self.spec_handle(),
    {
        self.native_handle
    }

    pub fn sublayer_installed(&self) -> (r: bool)
        ensures
            r == self.spec_sublayer(),
    {
        self.sublayer_installed
    }

    fn transition(&mut self, next: WfpEngineState) -> (r: Result<(), EngineError>)
        ensures
            final(self).spec_handle() == old(self).spec_handle(),
            final(self).spec_sublayer() == old(self).spec_sublayer(),
            r is Ok == engine_step(old(self).spec_state(), next),
            r is Ok ==> final(self).spec_state() == next,
            r is Err ==> final(self).spec_state() == old(self).spec_state(),
            r matches Err(e) ==> wfp_error(e, EngineErrorCode::InvalidStateTransition),
    {
        if !self.state.can_transition_to(next) {
            return Err(EngineError::backend(EngineErrorCode::InvalidStateTransition, "wfp"));
        }
        self.state = next;
        Ok(())
    }

    /// Checks an open request and moves to `Opening`; only a closed or
    /// failed session may open.
    pub fn begin_open(&mut self) -> (r: Result<(), EngineError>)
        ensures
            final(self).spec_handle() == old(self).spec_handle(),
            final(self).spec_sublayer() == old(self).spec_sublayer(),
            r is Ok == old(self).spec_state().spec_can_open(),
            r is Ok ==> final(self).spec_state() == WfpEngineState::Opening,
            r matches Err(e) ==> wfp_error(e, EngineErrorCode::BackendAlreadyRunning) && final(self).spec_state() == old(self).spec_state(),
    {
        if !self.state.can_open() {
            return Err(EngineError::backend(EngineErrorCode::BackendAlreadyRunning, "wfp"));
        }
        self.transition(WfpEngineState::Opening)
    }

    /// Records a native session opened with its sublayer installed.
    pub fn opened(&mut self, handle: usize) -> (r: Result<(), EngineError>)
        ensures
            final(self).spec_handle() == Some(handle),
            final(self).spec_sublayer(),
            r is Ok == engine_step(old(self).spec_state(), WfpEngineState::Open),
            r is Ok ==> final(self).spec_state() == WfpEngineState::Open,
            r is Err ==> final(self).spec_state() == old(self).spec_state(),
    {
        self.native_handle = Some(handle);
        self.sublayer_installed = true;
        self.transition(WfpEngineState::Open)
    }

    /// Records a failed open: no session, failed, and the error.
    pub fn open_failed(&mut self, error: EngineError) -> (r: Result<(), EngineError>)
        ensures
            final(self).spec_handle() is None,
            !final(self).spec_sublayer(),
            final(self).spec_state() == WfpEngineState::Failed,
            r == Err::<(), EngineError>(error),
    {
        self.native_handle = None;
        self.sublayer_installed = false;
        self.state = WfpEngineState::Failed;
        Err(error)
    }

    /// Opens the session. Without the native platform the backend is
    /// unavailable: an allowed request ends `Failed`.
    pub fn open(&mut self) -> (r: Result<(), EngineError>)
        ensures
            r is Err,
            !old(self).spec_state().spec_can_open() ==> final(self).spec_state() == old(self).spec_state() && wfp_error(r->Err_0, EngineErrorCode::BackendAlreadyRunning),
            old(self).spec_state().spec_can_open() ==> final(self).spec_state()
                == WfpEngineState::Failed && final(self).spec_handle() is None && !final(self).spec_sublayer() && wfp_error(r->Err_0, EngineErrorCode::BackendUnavailable),
    {
        self.begin_open()?;
        self.open_failed(EngineError::backend(EngineErrorCode::BackendUnavailable, "wfp"))
    }

    /// Checks a close request: a closed session needs nothing (`Ok(false)`);
    /// an open, degraded or failed one moves to `Closing` (`Ok(true)`).
    pub fn begin_close(&mut self) -> (r: Result<bool, EngineError>)
        ensures
            final(self).spec_handle() == old(self).spec_handle(),
            final(self).spec_sublayer() == old(self).spec_sublayer(),
            old(self).spec_state() is Closed ==> r == Ok::<bool, EngineError>(false) && final(self).spec_state() == old(self).spec_state(),
            old(self).spec_state().spec_can_close() ==> r == Ok::<bool, EngineError>(true) && final(self).spec_state() == WfpEngineState::Closing,
            !(old(self).spec_state() is Closed) && !old(self).spec_state().spec_can_close() ==> r
                is Err && wfp_error(r->Err_0, EngineErrorCode::InvalidStateTransition) && final(self).spec_state() == old(self).spec_state(),
    {
        if self.state == WfpEngineState::Closed {
            return Ok(false);
        }
        if !self.state.can_close() {
            return Err(EngineError::backend(EngineErrorCode::InvalidStateTransition, "wfp"));
        }
        self.transition(WfpEngineState::Closing)?;
        Ok(true)
    }

    /// Records how releasing the session went: the first error of removing
    /// the sublayer and closing the session, if any, fails the engine.
    pub fn closed(&mut self, first_error: Option<EngineError>) -> (r: Result<(), EngineError>)
        ensures
            final(self).spec_handle() is None,
            !final(self).spec_sublayer(),
            first_error matches Some(e) ==> r == Err::<(), EngineError>(e) && final(self).spec_state() == WfpEngineState::Failed,
            first_error is None ==> (r is Ok == engine_step(
                old(self).spec_state(),
                WfpEngineState::Closed,
            )),
            first_error is None && r is Ok ==> final(self).spec_state() == WfpEngineState::Closed,
    {
        self.native_handle = None;
        self.sublayer_installed = false;
        match first_error {
            Some(e) => {
                self.state = WfpEngineState::Failed;
                Err(e)
            },
            None => self.transition(WfpEngineState::Closed),
        }
    }

    /// Closes the session; with no native session to release it ends
    /// `Closed`.
    pub fn close(&mut self) -> (r: Result<(), EngineError>)
        ensures
            r is Ok == (old(self).spec_state() is Closed || old(self).spec_state().spec_can_close()),
            r is Ok ==> final(self).spec_state() == WfpEngineState::Closed,
            r is Err ==> wfp_error(r->Err_0, EngineErrorCode::InvalidStateTransition) && final(self).spec_state() == old(self).spec_state(),
    {
        match self.begin_close() {
            Ok(true) => self.closed(None),
            Ok(false) => {
                self.native_handle = None;
                self.sublayer_installed = false;
                Ok(())
            },
            Err(e) => Err(e),
        }
    }

    pub fn mark_degraded(&mut self) -> (r: Result<(), EngineError>)
        ensures
            final(self).spec_handle() == old(self).spec_handle(),
            r is Ok == engine_step(old(self).spec_state(), WfpEngineState::Degraded),
            r is Ok ==> final(self).spec_state() == WfpEngineState::Degraded,
            r is Err ==> final(self).spec_state() == old(self).spec_state(),
    {
        self.transition(WfpEngineState::Degraded)
    }

    pub fn mark_recovered(&mut self) -> (r: Result<(), EngineError>)
        ensures
            final(self).spec_handle() == old(self).spec_handle(),
            r is Ok == engine_step(old(self).spec_state(), WfpEngineState::Open),
            r is Ok ==> final(self).spec_state() == WfpEngineState::Open,
            r is Err ==> final(self).spec_state() == old(self).spec_state(),
    {
        self.transition(WfpEngineState::Open)
    }

    pub fn mark_failed(&mut self)
        ensures
            final(self).spec_state() == WfpEngineState::Failed,
            final(self).spec_handle() is None,
            !final(self).spec_sublayer(),
    {
        self.native_handle = None;
        self.sublayer_installed = false;
        self.state = WfpEngineState::Failed;
    }

    /// The native session of an open engine.
    pub fn require_open(&self) -> (r: Result<usize, EngineError>)
        ensures
            !self.spec_state().spec_is_open() ==> r is Err && wfp_error(
                r->Err_0,
                EngineErrorCode::BackendNotRunning,
            ),
            self.spec_state().spec_is_open() && self.spec_handle() is None ==> r is Err && wfp_error(
                r->Err_0,
                EngineErrorCode::InvalidHandle,
            ),
            r is Ok == (self.spec_state().spec_is_open() && self.spec_handle() is Some),
            r matches Ok(h) ==> self.spec_handle() == Some(h),
    {
        if !self.state.is_open() {
            return Err(EngineError::backend(EngineErrorCode::BackendNotRunning, "wfp"));
        }
        match self.native_handle {
            Some(h) => Ok(h),
            None => Err(EngineError::backend(EngineErrorCode::InvalidHandle, "wfp")),
        }
    }
}

} // verus!
