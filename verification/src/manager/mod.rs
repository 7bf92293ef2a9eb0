//! Backend registration, lifecycle, health, capability inventory, failover
//! coordination, complementarity and selection.
pub mod capabilities;
pub mod backend;
pub mod health;
pub mod registry;
pub mod failover;
pub mod manager;
pub mod selection;
pub mod complementarity;

pub use backend::{BackendDescriptor, BackendLifecycle, BackendRole, BackendRuntimeState};
pub use capabilities::{
    check_requirements, BackendCapability, CapabilityCheck, CapabilityRequirement, CapabilitySet,
};
pub use complementarity::{
    capability_status, select_with_fallback, CapabilityCoverage, CapabilityFallbackMatrix,
    CapabilityStatus,
};
pub use failover::{FailoverBackend, FailoverError, FailoverManager, FailoverState};
pub use health::{BackendHealth, HealthMonitor};
pub use manager::{BackendManager, BackendManagerStats, FailoverPolicy};
pub use registry::CapabilityRegistry;
pub use selection::{
    find_capable_requirements, find_healthy_capable_requirements, select_backend_for_requirements,
    select_healthy_backend_for_failover,
};
