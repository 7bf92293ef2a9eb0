use network_engine::error::EngineErrorCode;
use network_engine::manager::{
    BackendCapability, BackendDescriptor, BackendLifecycle, BackendRole, BackendRuntimeState,
    CapabilitySet,
};

fn descriptor() -> BackendDescriptor {
    BackendDescriptor::new(
        "test",
        "1.0.0",
        "test backend",
        CapabilitySet::from(&[
            BackendCapability::Capture,
            BackendCapability::Inspection,
            BackendCapability::Ipv4,
        ]),
    )
}

#[test]
fn lifecycle_start_transition() {
    let mut state = BackendRuntimeState::new(descriptor());
    assert_eq!(state.lifecycle, BackendLifecycle::Stopped);
    state.transition(BackendLifecycle::Starting).unwrap();
    state.transition(BackendLifecycle::Running).unwrap();
    assert!(state.is_lifecycle_available());
}

#[test]
fn lifecycle_degraded_transition() {
    let mut state = BackendRuntimeState::new(descriptor());
    state.transition(BackendLifecycle::Starting).unwrap();
    state.transition(BackendLifecycle::Running).unwrap();
    state.transition(BackendLifecycle::Degraded).unwrap();
    assert!(state.is_lifecycle_available());
    assert!(!state.lifecycle.is_failed());
}

#[test]
fn failed_is_recoverable() {
    let mut state = BackendRuntimeState::new(descriptor());
    state.transition(BackendLifecycle::Starting).unwrap();
    state.transition(BackendLifecycle::Failed).unwrap();
    assert!(state.lifecycle.can_start());
    state.transition(BackendLifecycle::Starting).unwrap();
    assert_eq!(state.lifecycle, BackendLifecycle::Starting);
}

#[test]
fn backend_invalid_transition_is_rejected() {
    let mut state = BackendRuntimeState::new(descriptor());
    let result = state.transition(BackendLifecycle::Stopping);
    assert!(result.is_err());
    assert_eq!(state.lifecycle, BackendLifecycle::Stopped);
}

#[test]
fn invalid_transition_reports_its_code() {
    let result = BackendLifecycle::Stopped.validate_transition(BackendLifecycle::Running);
    assert_eq!(result.unwrap_err().code(), EngineErrorCode::InvalidStateTransition);
    assert!(BackendLifecycle::Stopped.validate_transition(BackendLifecycle::Starting).is_ok());
}

#[test]
fn stopping_failure_is_allowed() {
    assert!(BackendLifecycle::Stopping.can_transition_to(BackendLifecycle::Failed));
}

#[test]
fn failed_is_not_terminal() {
    assert!(!BackendLifecycle::Failed.is_terminal());
    assert!(BackendLifecycle::Stopped.is_terminal());
}

#[test]
fn capabilities_are_deduplicated() {
    let capabilities = CapabilitySet::from(&[
        BackendCapability::Capture,
        BackendCapability::Capture,
        BackendCapability::Ipv4,
    ]);
    assert_eq!(capabilities.len(), 2);
    assert!(capabilities.contains(BackendCapability::Capture));
    assert!(capabilities.contains(BackendCapability::Ipv4));
}

#[test]
fn capability_insert_and_remove() {
    let mut capabilities = CapabilitySet::new();
    assert!(capabilities.insert(BackendCapability::Capture));
    assert!(capabilities.contains(BackendCapability::Capture));
    assert!(capabilities.remove(BackendCapability::Capture));
    assert!(!capabilities.contains(BackendCapability::Capture));
}

#[test]
fn descriptor_supports_capability() {
    let descriptor = descriptor();
    assert!(descriptor.supports(BackendCapability::Capture));
    assert!(!descriptor.supports(BackendCapability::Reinjection));
}

#[test]
fn runtime_error_tracking() {
    let mut state = BackendRuntimeState::new(descriptor());
    state.record_error(Some(123));
    assert_eq!(state.error_count, 1);
    assert_eq!(state.last_native_error, Some(123));
    state.clear_errors();
    assert_eq!(state.error_count, 0);
    assert_eq!(state.last_native_error, None);
}

#[test]
fn required_descriptor() {
    let descriptor = descriptor().required(true);
    assert!(descriptor.required);
}

#[test]
fn descriptor_defaults_to_supplementary_role() {
    assert_eq!(descriptor().role, BackendRole::Supplementary);
}

#[test]
fn descriptor_can_be_marked_primary() {
    let descriptor = descriptor().primary();
    assert_eq!(descriptor.role, BackendRole::Primary);
}

#[test]
fn lifecycle_helpers_are_consistent() {
    assert!(BackendLifecycle::Running.is_active());
    assert!(BackendLifecycle::Running.is_running());
    assert!(BackendLifecycle::Degraded.is_active());
    assert!(BackendLifecycle::Failed.is_failed());
    assert!(BackendLifecycle::Failed.can_start());
    assert!(BackendLifecycle::Running.can_stop());
}

#[test]
fn cloned_descriptor_agrees() {
    let d = descriptor().primary().required(true);
    let c = d.clone();
    assert_eq!(c, d);
    assert_eq!(c.capabilities.to_vec(), d.capabilities.to_vec());
}
