//! Per-backend lifecycle, descriptors and runtime state.
use vstd::prelude::*;

use crate::error::{EngineError, EngineErrorCode};
use crate::manager::capabilities::{BackendCapability, CapabilitySet};
use crate::text::{trim, trim_str};

verus! {

/// Runtime lifecycle of one backend. Health is kept separately.
#[derive(Debug, Clone, Copy, PartialEq, Eq, Hash, Structural)]
pub enum BackendLifecycle {
    Disabled,
    Starting,
    Running,
    Degraded,
    Failed,
    Stopping,
    Stopped,
}

/// The valid lifecycle transition matrix; staying put is always valid.
pub open spec fn lifecycle_step(from: BackendLifecycle, to: BackendLifecycle) -> bool {
    ||| from == to
    ||| (from == BackendLifecycle::Disabled && to == BackendLifecycle::Starting)
    ||| (from == BackendLifecycle::Starting && (to == BackendLifecycle::Running || to
        == BackendLifecycle::Degraded || to == BackendLifecycle::Failed || to
        == BackendLifecycle::Stopping))
    ||| (from == BackendLifecycle::Running && (to == BackendLifecycle::Degraded || to
        == BackendLifecycle::Stopping || to == BackendLifecycle::Failed))
    ||| (from == BackendLifecycle::Degraded && (to == BackendLifecycle::Running || to
        == BackendLifecycle::Stopping || to == BackendLifecycle::Failed))
    ||| (from == BackendLifecycle::Stopping && (to == BackendLifecycle::Stopped || to
        == BackendLifecycle::Failed))
    ||| (from == BackendLifecycle::Failed && (to == BackendLifecycle::Starting || to
        == BackendLifecycle::Stopped))
    ||| (from == BackendLifecycle::Stopped && (to == BackendLifecycle::Starting || to
        == BackendLifecycle::Disabled))
}

impl BackendLifecycle {
    pub open spec fn spec_is_active(self) -> bool {
        self == Self::Starting || self == Self::Running || self == Self::Degraded || self
            == Self::Stopping
    }

    pub open spec fn spec_can_start(self) -> bool {
        self == Self::Disabled || self == Self::Stopped || self == Self::Failed
    }

    pub open spec fn spec_can_stop(self) -> bool {
        self == Self::Starting || self == Self::Running || self == Self::Degraded
    }

    /// Operational or transitioning.
    pub fn is_active(self) -> (r: bool)
        ensures
            r == self.spec_is_active(),
    {
        matches!(self, Self::Starting | Self::Running | Self::Degraded | Self::Stopping)
    }

    pub fn is_running(self) -> (r: bool)
        ensures
            r == (self == Self::Running),
    {
        matches!(self, Self::Running)
    }

    pub fn is_failed(self) -> (r: bool)
        ensures
            r == (self == Self::Failed),
    {
        matches!(self, Self::Failed)
    }

    /// Not expected to perform work. `Failed` is not terminal: a failed
    /// backend may be restarted.
    pub fn is_terminal(self) -> (r: bool)
        ensures
            r == (self == Self::Stopped || self == Self::Disabled),
    {
        matches!(self, Self::Stopped | Self::Disabled)
    }

    /// Whether a start/restart operation may begin.
    pub fn can_start(self) -> (r: bool)
        ensures
            r == self.spec_can_start(),
    {
        matches!(self, Self::Disabled | Self::Stopped | Self::Failed)
    }

    /// Whether a stop operation may begin.
    pub fn can_stop(self) -> (r: bool)
        ensures
            r == self.spec_can_stop(),
    {
        matches!(self, Self::Starting | Self::Running | Self::Degraded)
    }

    /// Valid lifecycle transition matrix.
    pub fn can_transition_to(self, next: Self) -> (r: bool)
        ensures
            r == lifecycle_step(self, next),
    {
        if self == next {
            return true;
        }
        match (self, next) {
            (Self::Disabled, Self::Starting) => true,
            (Self::Starting, Self::Running) => true,
            (Self::Starting, Self::Degraded) => true,
            (Self::Starting, Self::Failed) => true,
            (Self::Starting, Self::Stopping) => true,
            (Self::Running, Self::Degraded) => true,
            (Self::Running, Self::Stopping) => true,
            (Self::Running, Self::Failed) => true,
            (Self::Degraded, Self::Running) => true,
            (Self::Degraded, Self::Stopping) => true,
            (Self::Degraded, Self::Failed) => true,
            (Self::Stopping, Self::Stopped) => true,
            (Self::Stopping, Self::Failed) => true,
            (Self::Failed, Self::Starting) => true,
            (Self::Failed, Self::Stopped) => true,
            (Self::Stopped, Self::Starting) => true,
            (Self::Stopped, Self::Disabled) => true,
            _ => false,
        }
    }

    /// `Ok` exactly on a valid transition; otherwise an
    /// `InvalidStateTransition` error.
    pub fn validate_transition(self, next: Self) -> (r: Result<(), EngineError>)
        ensures
            r.is_ok() == lifecycle_step(self, next),
            r matches Err(e) ==> e.code == EngineErrorCode::InvalidStateTransition,
    {
        if self.can_transition_to(next) {
            Ok(())
        } else {
            Err(EngineError::invalid_state_transition())
        }
    }
}

/// Role/preference of a backend; a selection hint only.
#[derive(Debug, Clone, Copy, PartialEq, Eq, Hash, Structural)]
pub enum BackendRole {
    Primary,
    Supplementary,
}

impl Default for BackendRole {
    fn default() -> (r: Self)
        ensures
            r == BackendRole::Supplementary,
    {
        Self::Supplementary
    }
}

/// Static descriptor for one backend: identity and declared
/// capabilities.
#[derive(Debug, PartialEq, Eq)]
pub struct BackendDescriptor {
    pub name: String,
    pub version: String,
    pub description: String,
    pub capabilities: CapabilitySet,
    pub required: bool,
    pub role: BackendRole,
}

impl Clone for BackendDescriptor {
    fn clone(&self) -> (r: Self)
        ensures
            r.agrees_with(*self),
    {
        BackendDescriptor {
            name: self.name.clone(),
            version: self.version.clone(),
            description: self.description.clone(),
            capabilities: self.capabilities.clone(),
            required: self.required,
            role: self.role,
        }
    }
}

impl BackendDescriptor {
    /// Same texts, capabilities, flag and role.
    pub open spec fn agrees_with(self, other: Self) -> bool {
        &&& self.name@ == other.name@
        &&& self.version@ == other.version@
        &&& self.description@ == other.description@
        &&& self.capabilities@ == other.capabilities@
        &&& self.required == other.required
        &&& self.role == other.role
    }

    /// A descriptor with trimmed texts, not required, `Supplementary`.
    pub fn new(name: &str, version: &str, description: &str, capabilities: CapabilitySet) -> (r:
        Self)
        ensures
            r.name@ == trim(name@),
            r.version@ == trim(version@),
            r.description@ == trim(description@),
            r.capabilities@ == capabilities@,
            !r.required,
            r.role == BackendRole::Supplementary,
    {
        BackendDescriptor {
            name: trim_str(name),
            version: trim_str(version),
            description: trim_str(description),
            capabilities,
            required: false,
            role: BackendRole::Supplementary,
        }
    }

    pub fn required(self, required: bool) -> (r: Self)
        ensures
            r.required == required,
            r.name == self.name,
            r.version == self.version,
            r.description == self.description,
            r.capabilities == self.capabilities,
            r.role == self.role,
    {
        let mut s = self;
        s.required = required;
        s
    }

    pub fn role(self, role: BackendRole) -> (r: Self)
        ensures
            r.role == role,
            r.name == self.name,
            r.version == self.version,
            r.description == self.description,
            r.capabilities == self.capabilities,
            r.required == self.required,
    {
        let mut s = self;
        s.role = role;
        s
    }

    pub fn primary(self) -> (r: Self)
        ensures
            r.role == BackendRole::Primary,
            r.name == self.name,
            r.version == self.version,
            r.description == self.description,
            r.capabilities == self.capabilities,
            r.required == self.required,
    {
        self.role(BackendRole::Primary)
    }

    /// Static declaration of a capability.
    pub fn supports(&self, capability: BackendCapability) -> (r: bool)
        ensures
            r == self.capabilities@.contains(capability),
    {
        self.capabilities.contains(capability)
    }
}

/// Runtime state owned by the backend manager: descriptor, lifecycle and
/// error accounting.
#[derive(Debug, PartialEq, Eq)]
pub struct BackendRuntimeState {
    pub descriptor: BackendDescriptor,
    pub lifecycle: BackendLifecycle,
    pub error_count: u64,
    pub last_native_error: Option<i32>,
}

impl Clone for BackendRuntimeState {
    fn clone(&self) -> (r: Self)
        ensures
            r.agrees_with(*self),
    {
        BackendRuntimeState {
            descriptor: self.descriptor.clone(),
            lifecycle: self.lifecycle,
            error_count: self.error_count,
            last_native_error: self.last_native_error,
        }
    }
}

impl BackendRuntimeState {
    /// Agreeing descriptors and equal lifecycle and error accounting.
    pub open spec fn agrees_with(self, other: Self) -> bool {
        &&& self.descriptor.agrees_with(other.descriptor)
        &&& self.lifecycle == other.lifecycle
        &&& self.error_count == other.error_count
        &&& self.last_native_error == other.last_native_error
    }

    pub open spec fn spec_is_lifecycle_available(self) -> bool {
        self.lifecycle == BackendLifecycle::Running || self.lifecycle == BackendLifecycle::Degraded
    }

    /// A stopped backend with no recorded errors.
    pub fn new(descriptor: BackendDescriptor) -> (r: Self)
        ensures
            r.descriptor == descriptor,
            r.lifecycle == BackendLifecycle::Stopped,
            r.error_count == 0,
            r.last_native_error.is_none(),
    {
        BackendRuntimeState {
            descriptor,
            lifecycle: BackendLifecycle::Stopped,
            error_count: 0,
            last_native_error: None,
        }
    }

    /// Lifecycle validation and state change only; no native work.
    pub fn transition(&mut self, next: BackendLifecycle) -> (r: Result<(), EngineError>)
        ensures
            r.is_ok() == lifecycle_step(old(self).lifecycle, next),
            r.is_ok() ==> final(self).lifecycle == next,
            r.is_err() ==> final(self).lifecycle == old(self).lifecycle,
            r matches Err(e) ==> e.code == EngineErrorCode::InvalidStateTransition,
            final(self).descriptor == old(self).descriptor,
            final(self).error_count == old(self).error_count,
            final(self).last_native_error == old(self).last_native_error,
    {
        self.lifecycle.validate_transition(next)?;
        self.lifecycle = next;
        Ok(())
    }

    /// Counts one error (saturating) and remembers its native code.
    pub fn record_error(&mut self, native_error: Option<i32>)
        ensures
            final(self).error_count == (if old(self).error_count == u64::MAX {
                u64::MAX as int
            } else {
                old(self).error_count + 1
            }),
            final(self).last_native_error == native_error,
            final(self).descriptor == old(self).descriptor,
            final(self).lifecycle == old(self).lifecycle,
    {
        self.error_count = self.error_count.saturating_add(1);
        self.last_native_error = native_error;
    }

    pub fn clear_errors(&mut self)
        ensures
            final(self).error_count == 0,
            final(self).last_native_error.is_none(),
            final(self).descriptor == old(self).descriptor,
            final(self).lifecycle == old(self).lifecycle,
    {
        self.error_count = 0;
        self.last_native_error = None;
    }

    /// Lifecycle permits normal use (`Running` or `Degraded`).
    pub fn is_lifecycle_available(&self) -> (r: bool)
        ensures
            r == self.spec_is_lifecycle_available(),
    {
        matches!(self.lifecycle, BackendLifecycle::Running | BackendLifecycle::Degraded)
    }

    /// Same as `is_lifecycle_available`.
    pub fn is_available(&self) -> (r: bool)
        ensures
            r == self.spec_is_lifecycle_available(),
    {
        self.is_lifecycle_available()
    }

    pub fn supports(&self, capability: BackendCapability) -> (r: bool)
        ensures
            r == self.descriptor.capabilities@.contains(capability),
    {
        self.descriptor.supports(capability)
    }

    pub fn capabilities(&self) -> (r: &CapabilitySet)
        ensures
            r == &self.descriptor.capabilities,
    {
        &self.descriptor.capabilities
    }
}

} // verus!
