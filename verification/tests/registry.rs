use network_engine::manager::{BackendCapability, CapabilityRegistry};

fn snapshot_entry<'a>(
    snapshot: &'a [(String, Vec<BackendCapability>)],
    name: &str,
) -> &'a Vec<BackendCapability> {
    &snapshot.iter().find(|(n, _)| n == name).expect("backend in snapshot").1
}

#[test]
fn registers_and_queries_capabilities() {
    let mut registry = CapabilityRegistry::new();
    assert!(registry.register_backend(
        "windivert",
        &[BackendCapability::Capture, BackendCapability::Interception, BackendCapability::Ipv4],
    ));
    assert!(registry.contains_backend("windivert"));
    assert!(registry.supports("windivert", BackendCapability::Interception));
    assert!(!registry.supports("windivert", BackendCapability::L2Capture));
}

#[test]
fn duplicate_capabilities_are_deduplicated() {
    let mut registry = CapabilityRegistry::new();
    assert!(registry.register_backend(
        "test",
        &[BackendCapability::Capture, BackendCapability::Capture, BackendCapability::Ipv4],
    ));
    assert_eq!(registry.capability_count("test"), 2);
}

#[test]
fn backend_lookup_is_sorted() {
    let mut registry = CapabilityRegistry::new();
    assert!(registry.register_backend(
        "test",
        &[BackendCapability::Ipv4, BackendCapability::Capture, BackendCapability::Udp],
    ));
    assert_eq!(
        registry.capabilities("test"),
        vec![BackendCapability::Capture, BackendCapability::Ipv4, BackendCapability::Udp]
    );
}

#[test]
fn finds_backends_by_capability() {
    let mut registry = CapabilityRegistry::new();
    assert!(registry.register_backend("wfp", &[BackendCapability::Filtering]));
    assert!(registry.register_backend(
        "windivert",
        &[BackendCapability::Filtering, BackendCapability::Interception],
    ));
    assert!(registry.register_backend("npcap", &[BackendCapability::L2Capture]));
    assert_eq!(
        registry.backends_with(BackendCapability::Filtering),
        vec!["windivert".to_string(), "wfp".to_string()]
    );
}

#[test]
fn unregister_removes_backend() {
    let mut registry = CapabilityRegistry::new();
    assert!(registry.register_backend("test", &[BackendCapability::Capture]));
    assert!(registry.unregister_backend("test"));
    assert!(!registry.contains_backend("test"));
    assert!(!registry.unregister_backend("test"));
}

#[test]
fn unknown_backend_returns_empty() {
    let registry = CapabilityRegistry::new();
    assert!(registry.capabilities("missing").is_empty());
    assert_eq!(registry.capability_count("missing"), 0);
    assert!(!registry.supports("missing", BackendCapability::Capture));
}

#[test]
fn snapshot_contains_all_backends() {
    let mut registry = CapabilityRegistry::new();
    assert!(registry.register_backend("wfp", &[BackendCapability::Filtering]));
    assert!(registry.register_backend("npcap", &[BackendCapability::L2Capture]));
    let snapshot = registry.snapshot();
    assert_eq!(snapshot.len(), 2);
    assert_eq!(*snapshot_entry(&snapshot, "wfp"), vec![BackendCapability::Filtering]);
    assert_eq!(*snapshot_entry(&snapshot, "npcap"), vec![BackendCapability::L2Capture]);
}

#[test]
fn snapshot_is_in_name_order() {
    let mut registry = CapabilityRegistry::new();
    assert!(registry.register_backend("wfp", &[BackendCapability::Filtering]));
    assert!(registry.register_backend("npcap", &[BackendCapability::L2Capture]));
    let names: Vec<String> = registry.snapshot().into_iter().map(|(n, _)| n).collect();
    assert_eq!(names, vec!["npcap".to_string(), "wfp".to_string()]);
}

#[test]
fn clear_removes_everything() {
    let mut registry = CapabilityRegistry::new();
    assert!(registry.register_backend("wfp", &[BackendCapability::Filtering]));
    assert!(registry.register_backend("npcap", &[BackendCapability::L2Capture]));
    registry.clear();
    assert_eq!(registry.backend_count(), 0);
    assert!(registry.backend_names().is_empty());
    assert!(registry.snapshot().is_empty());
}

#[test]
fn empty_backend_name_is_rejected() {
    let mut registry = CapabilityRegistry::new();
    assert!(!registry.register_backend("   ", &[BackendCapability::Capture]));
    assert_eq!(registry.backend_count(), 0);
}

#[test]
fn backend_names_are_normalized() {
    let mut registry = CapabilityRegistry::new();
    assert!(registry.register_backend("  windivert  ", &[BackendCapability::Capture]));
    assert!(registry.contains_backend("windivert"));
    assert!(!registry.contains_backend("  "));
    assert_eq!(registry.backend_names(), vec!["windivert".to_string()]);
}

#[test]
fn duplicate_registration_replaces_stale_capabilities() {
    let mut registry = CapabilityRegistry::new();
    assert!(registry.register_backend(
        "wfp",
        &[BackendCapability::Filtering, BackendCapability::Interception],
    ));
    assert!(registry.register_backend("wfp", &[BackendCapability::Capture]));
    assert_eq!(registry.capabilities("wfp"), vec![BackendCapability::Capture]);
    assert!(!registry.supports("wfp", BackendCapability::Filtering));
}

#[test]
fn registry_capability_overlap_is_allowed() {
    let mut registry = CapabilityRegistry::new();
    assert!(registry.register_backend(
        "wfp",
        &[BackendCapability::Filtering, BackendCapability::Interception],
    ));
    assert!(registry.register_backend(
        "windivert",
        &[BackendCapability::Filtering, BackendCapability::Interception],
    ));
    assert_eq!(
        registry.backends_with(BackendCapability::Filtering),
        vec!["windivert".to_string(), "wfp".to_string()]
    );
}

#[test]
fn empty_capability_set_still_registers_backend() {
    let mut registry = CapabilityRegistry::new();
    assert!(registry.register_backend("test", &[]));
    assert!(registry.contains_backend("test"));
    assert_eq!(registry.capability_count("test"), 0);
    assert_eq!(registry.backend_names(), vec!["test".to_string()]);
}

#[test]
fn backends_with_lists_names_from_last_to_first() {
    let mut registry = CapabilityRegistry::new();
    for name in ["b", "c", "a"] {
        assert!(registry.register_backend(name, &[BackendCapability::Tcp]));
    }
    assert!(registry.register_backend("d", &[BackendCapability::Udp]));
    assert_eq!(
        registry.backends_with(BackendCapability::Tcp),
        vec!["c".to_string(), "b".to_string(), "a".to_string()]
    );
}
