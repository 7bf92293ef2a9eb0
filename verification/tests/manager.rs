use network_engine::error::EngineErrorCode;
use network_engine::manager::{
    capability_status, find_capable_requirements, find_healthy_capable_requirements,
    select_backend_for_requirements, select_healthy_backend_for_failover, select_with_fallback,
    BackendCapability, BackendDescriptor, BackendHealth, BackendLifecycle, BackendManager,
    BackendRole, CapabilityFallbackMatrix, CapabilityRequirement, CapabilitySet, CapabilityStatus,
    FailoverPolicy,
};

fn descriptor(name: &str, capabilities: &[BackendCapability]) -> BackendDescriptor {
    BackendDescriptor::new(name, "1.0.0", "test backend", CapabilitySet::from(capabilities))
}

fn running(manager: &mut BackendManager, name: &str) {
    manager.start(name).unwrap();
    manager.mark_running(name).unwrap();
}

#[test]
fn registers_backend() {
    let mut manager = BackendManager::new();
    manager.register(descriptor("test", &[BackendCapability::Capture])).unwrap();
    assert!(manager.contains("test"));
    assert_eq!(manager.count(), 1);
}

#[test]
fn duplicate_registration_fails() {
    let mut manager = BackendManager::new();
    manager.register(descriptor("test", &[])).unwrap();
    let result = manager.register(descriptor("test", &[]));
    assert!(result.is_err());
    assert_eq!(result.unwrap_err().code(), EngineErrorCode::BackendAlreadyRegistered);
}

#[test]
fn capabilities_are_backend_specific() {
    let mut manager = BackendManager::new();
    manager.register(descriptor("capture", &[BackendCapability::Capture])).unwrap();
    manager.register(descriptor("filter", &[BackendCapability::Filtering])).unwrap();
    assert!(manager.supports("capture", BackendCapability::Capture).unwrap());
    assert!(!manager.supports("capture", BackendCapability::Filtering).unwrap());
    assert!(manager.supports("filter", BackendCapability::Filtering).unwrap());
}

#[test]
fn lifecycle_is_managed() {
    let mut manager = BackendManager::new();
    manager.register(descriptor("test", &[])).unwrap();
    manager.start("test").unwrap();
    assert_eq!(manager.runtime_state("test").unwrap().lifecycle, BackendLifecycle::Starting);
    manager.mark_running("test").unwrap();
    assert_eq!(manager.runtime_state("test").unwrap().lifecycle, BackendLifecycle::Running);
}

#[test]
fn start_running_fails() {
    let mut manager = BackendManager::new();
    manager.register(descriptor("test", &[])).unwrap();
    running(&mut manager, "test");
    let result = manager.start("test");
    assert_eq!(result.unwrap_err().code(), EngineErrorCode::BackendAlreadyRunning);
}

#[test]
fn capable_backend_search_is_deterministic() {
    let mut manager = BackendManager::new();
    manager.register(descriptor("z-capture", &[BackendCapability::Capture])).unwrap();
    manager.register(descriptor("a-capture", &[BackendCapability::Capture])).unwrap();
    running(&mut manager, "z-capture");
    running(&mut manager, "a-capture");
    assert_eq!(
        manager.find_capable(BackendCapability::Capture),
        vec!["a-capture".to_string(), "z-capture".to_string()]
    );
}

#[test]
fn unavailable_backend_is_not_selected() {
    let mut manager = BackendManager::new();
    manager.register(descriptor("capture", &[BackendCapability::Capture])).unwrap();
    assert!(manager.find_capable(BackendCapability::Capture).is_empty());
}

#[test]
fn failure_marks_backend_failed() {
    let mut manager = BackendManager::new();
    manager.register(descriptor("test", &[])).unwrap();
    running(&mut manager, "test");
    manager.record_failure("test", Some(42)).unwrap();
    manager.record_failure("test", Some(42)).unwrap();
    manager.record_failure("test", Some(42)).unwrap();
    let runtime = manager.runtime_state("test").unwrap();
    assert_eq!(runtime.lifecycle, BackendLifecycle::Failed);
    assert_eq!(runtime.error_count, 3);
    assert_eq!(runtime.last_native_error, Some(42));
}

#[test]
fn statistics_are_correct() {
    let mut manager = BackendManager::new();
    manager.register(descriptor("a", &[])).unwrap();
    manager.register(descriptor("b", &[])).unwrap();
    manager.register(descriptor("c", &[])).unwrap();
    running(&mut manager, "a");
    running(&mut manager, "b");
    manager.record_failure("b", None).unwrap();
    manager.record_failure("b", None).unwrap();
    let stats = manager.stats();
    assert_eq!(stats.registered, 3);
    assert_eq!(stats.running, 1);
    assert_eq!(stats.degraded, 1);
    assert_eq!(stats.stopped, 1);
    assert_eq!(stats.available(), 2);
}

#[test]
fn unregister_stopped_backend() {
    let mut manager = BackendManager::new();
    manager.register(descriptor("test", &[])).unwrap();
    manager.unregister("test").unwrap();
    assert!(!manager.contains("test"));
}

#[test]
fn cannot_unregister_active_backend() {
    let mut manager = BackendManager::new();
    manager.register(descriptor("test", &[])).unwrap();
    running(&mut manager, "test");
    assert_eq!(manager.unregister("test").unwrap_err().code(), EngineErrorCode::ConcurrentOperation);
}

#[test]
fn unknown_backend_is_not_found() {
    let mut manager = BackendManager::new();
    assert_eq!(manager.start("missing").unwrap_err().code(), EngineErrorCode::BackendNotFound);
    assert_eq!(manager.unregister("missing").unwrap_err().code(), EngineErrorCode::BackendNotFound);
    assert_eq!(manager.health("missing").unwrap_err().code(), EngineErrorCode::BackendNotFound);
}

#[test]
fn failover_policy_can_change() {
    let mut manager = BackendManager::new();
    manager.set_failover_policy(FailoverPolicy::NoFailover).unwrap();
    assert_eq!(manager.failover_policy().unwrap(), FailoverPolicy::NoFailover);
}

#[test]
fn descriptors_are_available_and_sorted() {
    let mut manager = BackendManager::new();
    manager.register(descriptor("z-test", &[BackendCapability::Capture])).unwrap();
    manager.register(descriptor("a-test", &[BackendCapability::Capture])).unwrap();
    let descriptors = manager.descriptors();
    assert_eq!(descriptors.len(), 2);
    assert_eq!(descriptors[0].name, "a-test");
    assert_eq!(descriptors[1].name, "z-test");
}

#[test]
fn non_overlapping_backends_can_both_run() {
    let mut manager = BackendManager::new();
    manager.register(descriptor("wfp", &[BackendCapability::Filtering])).unwrap();
    manager.register(descriptor("npcap", &[BackendCapability::L2Capture])).unwrap();
    running(&mut manager, "wfp");
    manager.start("npcap").unwrap();
    assert!(manager.mark_running("npcap").is_ok());
}

#[test]
fn capability_overlap_does_not_imply_conflict() {
    let mut manager = BackendManager::new();
    manager.register(descriptor("wfp", &[BackendCapability::Filtering]).primary()).unwrap();
    manager
        .register(descriptor("windivert", &[BackendCapability::Filtering, BackendCapability::Reinjection]))
        .unwrap();
    running(&mut manager, "wfp");
    manager.start("windivert").unwrap();
    assert!(manager.mark_running("windivert").is_ok());
}

#[test]
fn activation_conflict_requires_scope_aware_engine_logic() {
    let mut manager = BackendManager::new();
    manager.register(descriptor("wfp", &[BackendCapability::Filtering]).primary()).unwrap();
    manager.register(descriptor("windivert", &[BackendCapability::Filtering])).unwrap();
    running(&mut manager, "wfp");
    assert!(manager.check_activation_conflict("windivert").unwrap().is_none());
}

#[test]
fn stopping_backend_does_not_affect_other_backend() {
    let mut manager = BackendManager::new();
    manager.register(descriptor("wfp", &[BackendCapability::Filtering])).unwrap();
    manager.register(descriptor("windivert", &[BackendCapability::Filtering])).unwrap();
    running(&mut manager, "wfp");
    running(&mut manager, "windivert");
    manager.stop("wfp").unwrap();
    manager.mark_stopped("wfp").unwrap();
    assert_eq!(manager.runtime_state("wfp").unwrap().lifecycle, BackendLifecycle::Stopped);
    assert_eq!(manager.runtime_state("windivert").unwrap().lifecycle, BackendLifecycle::Running);
}

#[test]
fn prefer_healthy_selects_healthy_backend() {
    let mut manager = BackendManager::new();
    manager.register(descriptor("degraded", &[BackendCapability::Capture])).unwrap();
    manager.register(descriptor("healthy", &[BackendCapability::Capture])).unwrap();
    running(&mut manager, "degraded");
    manager.record_failure("degraded", None).unwrap();
    manager.record_failure("degraded", None).unwrap();
    running(&mut manager, "healthy");
    manager.set_failover_policy(FailoverPolicy::PreferHealthy).unwrap();
    assert_eq!(manager.select_backend(BackendCapability::Capture), Some("healthy".to_string()));
}

#[test]
fn round_robin_rotates_candidates() {
    let mut manager = BackendManager::new();
    manager.register(descriptor("a", &[BackendCapability::Capture])).unwrap();
    manager.register(descriptor("b", &[BackendCapability::Capture])).unwrap();
    running(&mut manager, "a");
    running(&mut manager, "b");
    manager.set_failover_policy(FailoverPolicy::RoundRobin).unwrap();
    assert_eq!(manager.select_backend(BackendCapability::Capture), Some("a".to_string()));
    assert_eq!(manager.select_backend(BackendCapability::Capture), Some("b".to_string()));
    assert_eq!(manager.select_backend(BackendCapability::Capture), Some("a".to_string()));
}

#[test]
fn missing_backend_conflict_check_fails() {
    let manager = BackendManager::new();
    assert_eq!(
        manager.check_activation_conflict("missing").unwrap_err().code(),
        EngineErrorCode::BackendNotFound
    );
}

#[test]
fn record_success_restores_degraded_backend_to_running() {
    let mut manager = BackendManager::new();
    manager.register(descriptor("degraded", &[BackendCapability::Capture])).unwrap();
    running(&mut manager, "degraded");
    manager.record_failure("degraded", None).unwrap();
    manager.record_failure("degraded", None).unwrap();
    assert_eq!(manager.runtime_state("degraded").unwrap().lifecycle, BackendLifecycle::Degraded);
    manager.record_success("degraded").unwrap();
    assert_eq!(manager.runtime_state("degraded").unwrap().lifecycle, BackendLifecycle::Running);
}

#[test]
fn select_with_fallback_returns_available_for_primary() {
    let mut manager = BackendManager::new();
    manager.register(descriptor("npcap", &[BackendCapability::Capture])).unwrap();
    running(&mut manager, "npcap");
    let coverage = manager.select_with_fallback(BackendCapability::Capture);
    assert_eq!(coverage.status, CapabilityStatus::Available);
    assert_eq!(coverage.active.as_deref(), Some("npcap"));
}

#[test]
fn capability_status_helper_matches_coverage() {
    let manager = BackendManager::new();
    assert_eq!(manager.capability_status(BackendCapability::Capture), CapabilityStatus::Unavailable);
}

#[test]
fn no_failover_policy_picks_first_candidate() {
    let mut manager = BackendManager::new();
    manager.register(descriptor("b", &[BackendCapability::Capture])).unwrap();
    manager.register(descriptor("a", &[BackendCapability::Capture])).unwrap();
    running(&mut manager, "a");
    running(&mut manager, "b");
    manager.set_failover_policy(FailoverPolicy::NoFailover).unwrap();
    assert_eq!(manager.select_backend(BackendCapability::Capture), Some("a".to_string()));
    assert_eq!(manager.select_backend(BackendCapability::Capture), Some("a".to_string()));
}

#[test]
fn new_backend_health_is_unknown() {
    let mut manager = BackendManager::new();
    manager.register(descriptor("x", &[])).unwrap();
    assert_eq!(manager.health("x").unwrap(), BackendHealth::Unknown);
}

// Complementarity.

#[test]
fn primary_backend_yields_available() {
    let mut manager = BackendManager::new();
    manager.register(descriptor("npcap", &[BackendCapability::Capture])).unwrap();
    running(&mut manager, "npcap");
    let coverage = select_with_fallback(&manager, BackendCapability::Capture);
    assert_eq!(coverage.status, CapabilityStatus::Available);
    assert_eq!(coverage.active.as_deref(), Some("npcap"));
}

#[test]
fn fallback_backend_yields_degraded() {
    let mut manager = BackendManager::new();
    manager.register(descriptor("windivert", &[BackendCapability::Capture])).unwrap();
    running(&mut manager, "windivert");
    let coverage = select_with_fallback(&manager, BackendCapability::Capture);
    assert_eq!(coverage.status, CapabilityStatus::Degraded);
    assert_eq!(coverage.active.as_deref(), Some("windivert"));
}

#[test]
fn missing_backend_yields_unavailable() {
    let manager = BackendManager::new();
    let coverage = select_with_fallback(&manager, BackendCapability::Capture);
    assert_eq!(coverage.status, CapabilityStatus::Unavailable);
    assert!(coverage.primary.is_empty());
    assert!(coverage.fallbacks.is_empty());
}

#[test]
fn declared_but_not_running_yields_lost() {
    let mut manager = BackendManager::new();
    manager.register(descriptor("npcap", &[BackendCapability::Capture])).unwrap();
    let coverage = select_with_fallback(&manager, BackendCapability::Capture);
    assert_eq!(coverage.status, CapabilityStatus::Lost);
    assert_eq!(capability_status(&manager, BackendCapability::Capture), CapabilityStatus::Lost);
}

#[test]
fn engine_owned_capability_has_no_primary() {
    assert!(CapabilityFallbackMatrix::primary(BackendCapability::Forwarding).is_empty());
    assert!(CapabilityFallbackMatrix::primary(BackendCapability::NatState).is_empty());
}

#[test]
fn matrix_fallback_rules_are_stable() {
    assert_eq!(CapabilityFallbackMatrix::primary(BackendCapability::Capture), vec!["npcap"]);
    assert_eq!(CapabilityFallbackMatrix::fallbacks(BackendCapability::Capture), vec!["windivert"]);
    assert_eq!(CapabilityFallbackMatrix::primary(BackendCapability::Filtering), vec!["windivert"]);
    assert_eq!(CapabilityFallbackMatrix::fallbacks(BackendCapability::Filtering), vec!["wfp"]);
    assert!(!CapabilityFallbackMatrix::has_fallback(BackendCapability::Modification));
}

// Selection over requirement sets.

#[test]
fn requires_all_required_capabilities() {
    let mut manager = BackendManager::new();
    manager.register(descriptor("capture-only", &[BackendCapability::Capture])).unwrap();
    manager
        .register(descriptor("capture-filter", &[BackendCapability::Capture, BackendCapability::Filtering]))
        .unwrap();
    running(&mut manager, "capture-only");
    running(&mut manager, "capture-filter");
    let requirements = [
        CapabilityRequirement::required(BackendCapability::Capture),
        CapabilityRequirement::required(BackendCapability::Filtering),
    ];
    assert_eq!(find_capable_requirements(&manager, &requirements), vec!["capture-filter".to_string()]);
}

#[test]
fn optional_capability_does_not_reject_candidate() {
    let mut manager = BackendManager::new();
    manager.register(descriptor("capture", &[BackendCapability::Capture])).unwrap();
    running(&mut manager, "capture");
    let requirements = [
        CapabilityRequirement::required(BackendCapability::Capture),
        CapabilityRequirement::optional(BackendCapability::Filtering),
    ];
    assert_eq!(find_capable_requirements(&manager, &requirements), vec!["capture".to_string()]);
}

#[test]
fn unavailable_and_failed_backends_are_rejected() {
    let mut manager = BackendManager::new();
    manager.register(descriptor("stopped", &[BackendCapability::Capture])).unwrap();
    manager.register(descriptor("running", &[BackendCapability::Capture])).unwrap();
    running(&mut manager, "running");
    let requirements = [CapabilityRequirement::required(BackendCapability::Capture)];
    assert_eq!(find_capable_requirements(&manager, &requirements), vec!["running".to_string()]);
}

#[test]
fn primary_is_preferred() {
    let mut manager = BackendManager::new();
    manager
        .register(descriptor("supplementary", &[BackendCapability::Capture]).role(BackendRole::Supplementary))
        .unwrap();
    manager
        .register(descriptor("primary", &[BackendCapability::Capture]).role(BackendRole::Primary))
        .unwrap();
    running(&mut manager, "supplementary");
    running(&mut manager, "primary");
    manager.set_failover_policy(FailoverPolicy::PreferPrimary).unwrap();
    let requirements = [CapabilityRequirement::required(BackendCapability::Capture)];
    assert_eq!(
        select_backend_for_requirements(&mut manager, &requirements),
        Some("primary".to_string())
    );
}

#[test]
fn failover_excludes_failed_backend_and_requires_healthy_candidate() {
    let mut manager = BackendManager::new();
    manager.register(descriptor("failed", &[BackendCapability::Capture])).unwrap();
    manager.register(descriptor("healthy", &[BackendCapability::Capture])).unwrap();
    running(&mut manager, "failed");
    running(&mut manager, "healthy");
    manager.set_lifecycle("failed", BackendLifecycle::Failed).unwrap();
    manager.record_success("healthy").unwrap();
    assert_eq!(
        select_healthy_backend_for_failover(&mut manager, BackendCapability::Capture, "failed"),
        Some("healthy".to_string())
    );
}

#[test]
fn failover_does_not_select_degraded_candidate() {
    let mut manager = BackendManager::new();
    manager.register(descriptor("degraded", &[BackendCapability::Capture])).unwrap();
    running(&mut manager, "degraded");
    manager.set_lifecycle("degraded", BackendLifecycle::Degraded).unwrap();
    assert_eq!(
        select_healthy_backend_for_failover(&mut manager, BackendCapability::Capture, "other"),
        None
    );
}

#[test]
fn disabled_failover_policy_returns_no_failover_candidate() {
    let mut manager = BackendManager::new();
    manager.register(descriptor("healthy", &[BackendCapability::Capture])).unwrap();
    running(&mut manager, "healthy");
    manager.set_failover_policy(FailoverPolicy::NoFailover).unwrap();
    assert_eq!(
        select_healthy_backend_for_failover(&mut manager, BackendCapability::Capture, "failed"),
        None
    );
}

#[test]
fn healthy_requirement_search_skips_degraded_health() {
    let mut manager = BackendManager::new();
    manager.register(descriptor("fresh", &[BackendCapability::Capture])).unwrap();
    manager.register(descriptor("hurt", &[BackendCapability::Capture])).unwrap();
    running(&mut manager, "fresh");
    running(&mut manager, "hurt");
    manager.record_failure("hurt", None).unwrap();
    let requirements = [CapabilityRequirement::required(BackendCapability::Capture)];
    assert_eq!(find_capable_requirements(&manager, &requirements).len(), 2);
    assert_eq!(
        find_healthy_capable_requirements(&manager, &requirements),
        vec!["fresh".to_string()]
    );
}
