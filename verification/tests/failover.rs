use network_engine::manager::{
    BackendCapability, FailoverBackend, FailoverError, FailoverManager, FailoverState,
};

fn capable(name: &str, priority: u32, capability: BackendCapability) -> FailoverBackend {
    let mut backend = FailoverBackend::new(name, priority).unwrap();
    backend.add_capability(capability);
    backend
}

#[test]
fn creates_backend() {
    let backend = FailoverBackend::new("npcap", 10);
    assert!(backend.is_some());
    assert_eq!(backend.unwrap().name, "npcap");
}

#[test]
fn trims_backend_name() {
    let backend = FailoverBackend::new("  npcap  ", 10).unwrap();
    assert_eq!(backend.name, "npcap");
}

#[test]
fn rejects_empty_backend_name() {
    assert!(FailoverBackend::new("", 1).is_none());
    assert!(FailoverBackend::new("   ", 1).is_none());
}

#[test]
fn backend_capability_can_be_added() {
    let mut backend = FailoverBackend::new("npcap", 10).unwrap();
    backend.add_capability(BackendCapability::Capture);
    assert!(backend.supports(BackendCapability::Capture));
}

#[test]
fn duplicate_capabilities_are_ignored() {
    let mut backend = FailoverBackend::new("npcap", 10).unwrap();
    backend.add_capability(BackendCapability::Capture);
    backend.add_capability(BackendCapability::Capture);
    assert_eq!(backend.capabilities().len(), 1);
}

#[test]
fn manager_registers_backend() {
    let mut manager = FailoverManager::new();
    manager.register(FailoverBackend::new("npcap", 10).unwrap()).unwrap();
    assert_eq!(manager.len(), 1);
    assert_eq!(manager.state(), FailoverState::Ready);
}

#[test]
fn duplicate_backend_is_rejected() {
    let mut manager = FailoverManager::new();
    manager.register(FailoverBackend::new("npcap", 10).unwrap()).unwrap();
    assert_eq!(
        manager.register(FailoverBackend::new("npcap", 20).unwrap()),
        Err(FailoverError::InvalidBackend)
    );
}

#[test]
fn select_uses_priority() {
    let mut manager = FailoverManager::new();
    manager.register(capable("slow", 20, BackendCapability::Capture)).unwrap();
    manager.register(capable("fast", 10, BackendCapability::Capture)).unwrap();
    let selected = manager.select(BackendCapability::Capture).unwrap();
    assert_eq!(selected.name, "fast");
}

#[test]
fn equal_priority_is_deterministic() {
    let mut manager = FailoverManager::new();
    manager.register(capable("z-backend", 10, BackendCapability::Capture)).unwrap();
    manager.register(capable("a-backend", 10, BackendCapability::Capture)).unwrap();
    let selected = manager.select(BackendCapability::Capture).unwrap();
    assert_eq!(selected.name, "a-backend");
}

#[test]
fn activate_best_sets_active_backend() {
    let mut manager = FailoverManager::new();
    manager.register(capable("npcap", 10, BackendCapability::Capture)).unwrap();
    let name = manager.activate_best(BackendCapability::Capture).unwrap();
    assert_eq!(name, "npcap");
    assert_eq!(manager.active_backend(), Some("npcap"));
    assert_eq!(manager.state(), FailoverState::Active);
}

#[test]
fn activating_same_backend_is_rejected() {
    let mut manager = FailoverManager::new();
    manager.register(capable("npcap", 1, BackendCapability::Capture)).unwrap();
    manager.activate_best(BackendCapability::Capture).unwrap();
    assert_eq!(
        manager.activate_best(BackendCapability::Capture),
        Err(FailoverError::AlreadyActive)
    );
}

#[test]
fn deactivate_clears_active_selection() {
    let mut manager = FailoverManager::new();
    manager.register(capable("npcap", 1, BackendCapability::Capture)).unwrap();
    manager.activate_best(BackendCapability::Capture).unwrap();
    manager.deactivate();
    assert_eq!(manager.active_backend(), None);
    assert_eq!(manager.state(), FailoverState::Ready);
}

#[test]
fn capability_unavailable_is_distinct() {
    let mut manager = FailoverManager::new();
    manager.register(FailoverBackend::new("npcap", 1).unwrap()).unwrap();
    assert_eq!(
        manager.select(BackendCapability::Filtering),
        Err(FailoverError::CapabilityUnavailable)
    );
}

#[test]
fn unregister_removes_candidate() {
    let mut manager = FailoverManager::new();
    manager.register(FailoverBackend::new("npcap", 1).unwrap()).unwrap();
    manager.unregister("npcap").unwrap();
    assert!(manager.is_empty());
    assert_eq!(manager.active_backend(), None);
}

#[test]
fn unregistering_active_backend_clears_selection() {
    let mut manager = FailoverManager::new();
    manager.register(capable("npcap", 1, BackendCapability::Capture)).unwrap();
    manager.register(capable("wfp", 2, BackendCapability::Capture)).unwrap();
    manager.activate_best(BackendCapability::Capture).unwrap();
    manager.unregister("npcap").unwrap();
    assert_eq!(manager.active_backend(), None);
    assert_eq!(manager.activate_best(BackendCapability::Capture).unwrap(), "wfp");
}

#[test]
fn clear_removes_all_backends() {
    let mut manager = FailoverManager::new();
    manager.register(FailoverBackend::new("npcap", 1).unwrap()).unwrap();
    manager.clear();
    assert!(manager.is_empty());
    assert_eq!(manager.active_backend(), None);
    assert_eq!(manager.state(), FailoverState::Ready);
}

#[test]
fn failed_coordinator_can_become_ready_after_registration() {
    let mut manager = FailoverManager::new();
    manager.mark_failed();
    assert_eq!(manager.state(), FailoverState::Failed);
    manager.register(FailoverBackend::new("npcap", 1).unwrap()).unwrap();
    assert_eq!(manager.state(), FailoverState::Ready);
}

#[test]
fn disabled_coordinator_cannot_activate() {
    let mut manager = FailoverManager::new();
    manager.register(capable("npcap", 1, BackendCapability::Capture)).unwrap();
    manager.disable();
    assert_eq!(
        manager.activate_best(BackendCapability::Capture),
        Err(FailoverError::InvalidState)
    );
}

#[test]
fn failover_capability_overlap_is_allowed() {
    let mut manager = FailoverManager::new();
    manager.register(capable("wfp", 10, BackendCapability::Filtering)).unwrap();
    manager.register(capable("windivert", 20, BackendCapability::Filtering)).unwrap();
    assert_eq!(manager.candidates(BackendCapability::Filtering).len(), 2);
}

#[test]
fn names_are_deterministic() {
    let mut manager = FailoverManager::new();
    manager.register(FailoverBackend::new("z", 1).unwrap()).unwrap();
    manager.register(FailoverBackend::new("a", 2).unwrap()).unwrap();
    assert_eq!(manager.names(), vec!["a".to_string(), "z".to_string()]);
}

#[test]
fn candidates_are_in_preference_order() {
    let mut manager = FailoverManager::new();
    manager.register(capable("c", 5, BackendCapability::Capture)).unwrap();
    manager.register(capable("b", 1, BackendCapability::Capture)).unwrap();
    manager.register(capable("a", 5, BackendCapability::Capture)).unwrap();
    let names: Vec<&str> = manager
        .candidates(BackendCapability::Capture)
        .iter()
        .map(|b| b.name.as_str())
        .collect();
    assert_eq!(names, vec!["b", "a", "c"]);
}
