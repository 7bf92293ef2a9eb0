//! The engine-wide error value shared by the backend manager and the WFP
//! backend.
use vstd::prelude::*;

verus! {

/// Classified failure reasons reported to the Engine.
#[derive(Debug, Clone, Copy, PartialEq, Eq, Structural)]
pub enum EngineErrorCode {
    InvalidArgument,
    InternalError,
    BackendAlreadyRegistered,
    BackendNotFound,
    ConcurrentOperation,
    BackendAlreadyRunning,
    BackendNotRunning,
    BackendStartFailed,
    BackendInitializationFailed,
    BackendShutdownFailed,
    BackendUnavailable,
    InvalidHandle,
    InvalidStateTransition,
    ResourceExhausted,
    IntegerOverflow,
    AlreadyInitialized,
    NotInitialized,
}

/// An engine error: a code, the backend it concerns (if any), the native
/// status that caused it (if any) and a human-readable message.
#[derive(Debug, Clone)]
pub struct EngineError {
    pub code: EngineErrorCode,
    pub backend: Option<String>,
    pub native_code: Option<i32>,
    pub message: String,
}

impl EngineError {
    /// An error carrying only its code.
    pub fn from_code(code: EngineErrorCode) -> (r: Self)
        ensures
            r.code == code,
            r.backend.is_none(),
            r.native_code.is_none(),
    {
        EngineError { code, backend: None, native_code: None, message: String::new() }
    }

    pub fn invalid_argument() -> (r: Self)
        ensures
            r.code == EngineErrorCode::InvalidArgument,
            r.native_code.is_none(),
    {
        Self::from_code(EngineErrorCode::InvalidArgument)
    }

    pub fn invalid_state_transition() -> (r: Self)
        ensures
            r.code == EngineErrorCode::InvalidStateTransition,
            r.native_code.is_none(),
    {
        Self::from_code(EngineErrorCode::InvalidStateTransition)
    }

    pub fn integer_overflow() -> (r: Self)
        ensures
            r.code == EngineErrorCode::IntegerOverflow,
            r.native_code.is_none(),
    {
        Self::from_code(EngineErrorCode::IntegerOverflow)
    }

    pub fn resource_exhausted() -> (r: Self)
        ensures
            r.code == EngineErrorCode::ResourceExhausted,
            r.native_code.is_none(),
    {
        Self::from_code(EngineErrorCode::ResourceExhausted)
    }

    pub fn already_initialized() -> (r: Self)
        ensures
            r.code == EngineErrorCode::AlreadyInitialized,
            r.native_code.is_none(),
    {
        Self::from_code(EngineErrorCode::AlreadyInitialized)
    }

    pub fn not_initialized() -> (r: Self)
        ensures
            r.code == EngineErrorCode::NotInitialized,
            r.native_code.is_none(),
    {
        Self::from_code(EngineErrorCode::NotInitialized)
    }

    /// An error attributed to the backend `backend`.
    pub fn backend(code: EngineErrorCode, backend: &str) -> (r: Self)
        ensures
            r.code == code,
            r.backend.is_some() && r.backend.unwrap()@ == backend@,
            r.native_code.is_none(),
    {
        EngineError {
            code,
            backend: Some(backend.to_owned()),
            native_code: None,
            message: String::new(),
        }
    }

    /// An error attributed to `backend` and caused by a native status.
    pub fn backend_native(code: EngineErrorCode, backend: &str, native: i32) -> (r: Self)
        ensures
            r.code == code,
            r.backend.is_some() && r.backend.unwrap()@ == backend@,
            r.native_code == Some(native),
    {
        EngineError {
            code,
            backend: Some(backend.to_owned()),
            native_code: Some(native),
            message: String::new(),
        }
    }

    /// An error with an explanatory message.
    pub fn with_message(code: EngineErrorCode, message: &str) -> (r: Self)
        ensures
            r.code == code,
            r.message@ == message@,
            r.native_code.is_none(),
    {
        EngineError { code, backend: None, native_code: None, message: message.to_owned() }
    }

    pub fn code(&self) -> (r: EngineErrorCode)
        ensures
            r == self.code,
    {
        self.code
    }

    pub fn native_code(&self) -> (r: Option<i32>)
        ensures
            r == self.native_code,
    {
        self.native_code
    }

    pub fn message(&self) -> (r: &str)
        ensures
            r@ == self.message@,
    {
        self.message.as_str()
    }
}

} // verus!
