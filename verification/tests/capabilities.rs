use network_engine::manager::{
    check_requirements, BackendCapability, CapabilityRequirement, CapabilitySet,
};

#[test]
fn creates_empty_capability_set() {
    let set = CapabilitySet::new();
    assert!(set.is_empty());
    assert_eq!(set.len(), 0);
}

#[test]
fn inserts_capability() {
    let mut set = CapabilitySet::new();
    assert!(set.insert(BackendCapability::Capture));
    assert!(set.contains(BackendCapability::Capture));
    assert_eq!(set.len(), 1);
}

#[test]
fn duplicate_capability_is_not_inserted_twice() {
    let mut set = CapabilitySet::new();
    assert!(set.insert(BackendCapability::Capture));
    assert!(!set.insert(BackendCapability::Capture));
    assert_eq!(set.len(), 1);
}

#[test]
fn removes_capability() {
    let mut set = CapabilitySet::new();
    set.insert(BackendCapability::Capture);
    assert!(set.remove(BackendCapability::Capture));
    assert!(!set.contains(BackendCapability::Capture));
}

#[test]
fn removing_absent_capability_reports_false() {
    let mut set = CapabilitySet::from(&[BackendCapability::Tcp]);
    assert!(!set.remove(BackendCapability::Udp));
    assert_eq!(set.to_vec(), vec![BackendCapability::Tcp]);
}

#[test]
fn supports_all_capabilities() {
    let set = CapabilitySet::from(&[BackendCapability::Capture, BackendCapability::Reinjection]);
    assert!(set.supports_all(&[BackendCapability::Capture, BackendCapability::Reinjection]));
}

#[test]
fn supports_any_capability() {
    let set = CapabilitySet::from(&[BackendCapability::Capture]);
    assert!(set.supports_any(&[BackendCapability::Reinjection, BackendCapability::Capture]));
}

#[test]
fn empty_lists_are_all_but_not_any() {
    let set = CapabilitySet::from(&[BackendCapability::Capture]);
    assert!(set.supports_all(&[]));
    assert!(!set.supports_any(&[]));
}

#[test]
fn check_requirements_detects_missing_required() {
    let available = CapabilitySet::from(&[BackendCapability::Capture]);
    let requirements = [
        CapabilityRequirement::required(BackendCapability::Capture),
        CapabilityRequirement::required(BackendCapability::Reinjection),
    ];
    let result = check_requirements(&available, &requirements);
    assert!(!result.supported);
    assert_eq!(result.missing_required, vec![BackendCapability::Reinjection]);
}

#[test]
fn optional_capability_does_not_fail_check() {
    let available = CapabilitySet::from(&[BackendCapability::Capture]);
    let requirements = [
        CapabilityRequirement::required(BackendCapability::Capture),
        CapabilityRequirement::optional(BackendCapability::Diagnostics),
    ];
    let result = check_requirements(&available, &requirements);
    assert!(result.is_satisfied());
    assert_eq!(result.missing_optional, vec![BackendCapability::Diagnostics]);
    assert!(result.has_optional_degradation());
}

#[test]
fn missing_capabilities_are_reported_in_abi_order() {
    let available = CapabilitySet::new();
    let requirements = [
        CapabilityRequirement::required(BackendCapability::Udp),
        CapabilityRequirement::required(BackendCapability::Capture),
        CapabilityRequirement::required(BackendCapability::Ipv4),
    ];
    let result = check_requirements(&available, &requirements);
    assert_eq!(
        result.missing_required,
        vec![BackendCapability::Capture, BackendCapability::Ipv4, BackendCapability::Udp]
    );
}

#[test]
fn capability_names_are_stable() {
    assert_eq!(BackendCapability::Capture.as_str(), "capture");
    assert_eq!(BackendCapability::L2Capture.as_str(), "l2_capture");
    assert_eq!(BackendCapability::RouteInfo.as_str(), "route_info");
    assert_eq!(BackendCapability::Reinjection.as_str(), "reinjection");
    assert_eq!(BackendCapability::Forwarding.as_str(), "forwarding");
    assert_eq!(BackendCapability::NatState.as_str(), "nat_state");
}

#[test]
fn capability_categories_are_correct() {
    assert!(BackendCapability::Capture.is_observation());
    assert!(BackendCapability::Modification.is_action());
    assert!(BackendCapability::Tcp.is_protocol());
    assert!(BackendCapability::RouteInfo.is_network_state());
    assert!(BackendCapability::Telemetry.is_diagnostic());
    assert!(BackendCapability::Forwarding.is_engine_forwarding());
    assert!(BackendCapability::NatState.is_engine_nat_state());
}

#[test]
fn capability_vector_is_deterministic() {
    let set = CapabilitySet::from(&[
        BackendCapability::Udp,
        BackendCapability::Capture,
        BackendCapability::Ipv4,
        BackendCapability::Drop,
    ]);
    assert_eq!(
        set.to_vec(),
        vec![
            BackendCapability::Capture,
            BackendCapability::Ipv4,
            BackendCapability::Udp,
            BackendCapability::Drop,
        ]
    );
}

#[test]
fn empty_requirements_are_satisfied() {
    let set = CapabilitySet::new();
    let result = check_requirements(&set, &[]);
    assert!(result.supported);
    assert!(result.missing_required.is_empty());
    assert!(result.missing_optional.is_empty());
}

#[test]
fn forward_and_nat_round_trip_from_u16() {
    assert_eq!(BackendCapability::from_u16(90), Some(BackendCapability::Forwarding));
    assert_eq!(BackendCapability::from_u16(91), Some(BackendCapability::NatState));
}

#[test]
fn unknown_abi_value_is_none() {
    assert_eq!(BackendCapability::from_u16(65535), None);
}

#[test]
fn all_known_is_deterministic_and_complete() {
    let all = BackendCapability::all_known();
    assert!(!all.is_empty());
    for capability in all.iter() {
        assert_eq!(BackendCapability::from_u16(capability.sort_key()), Some(*capability));
    }
    let mut keys: Vec<u16> = all.iter().map(|c| c.sort_key()).collect();
    keys.sort();
    keys.dedup();
    assert_eq!(keys.len(), all.len());
}
