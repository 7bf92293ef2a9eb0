use network_engine::contracts::known::{
    all_known_descriptors, descriptor_for, etw_descriptor, iphelper_descriptor, npcap_descriptor,
    wfp_descriptor, windivert_descriptor,
};
use network_engine::contracts::BackendKind;
use network_engine::manager::BackendCapability;
use network_engine::wfp::{WFP_BACKEND_NAME, WFP_BACKEND_VERSION};
use network_engine::windivert::{WINDIVERT_BACKEND_NAME, WINDIVERT_BACKEND_VERSION};

#[test]
fn all_kinds_have_unique_names() {
    let mut names: Vec<&str> = BackendKind::all().iter().map(|k| k.name()).collect();
    names.sort();
    names.dedup();
    assert_eq!(names.len(), BackendKind::all().len());
}

#[test]
fn from_name_round_trips() {
    for kind in BackendKind::all().iter() {
        assert_eq!(BackendKind::from_name(kind.name()), Some(*kind));
    }
}

#[test]
fn unknown_name_returns_none() {
    assert_eq!(BackendKind::from_name("unknown"), None);
}

#[test]
fn all_kinds_have_descriptors() {
    for kind in BackendKind::all().iter() {
        let descriptor = descriptor_for(*kind);
        assert_eq!(descriptor.name, kind.name());
    }
}

#[test]
fn all_known_descriptors_is_deterministic() {
    let a = all_known_descriptors();
    let b = all_known_descriptors();
    assert_eq!(a.len(), b.len());
    for (x, y) in a.iter().zip(b.iter()) {
        assert_eq!(x.name, y.name);
        assert_eq!(x.version, y.version);
    }
}

#[test]
fn windivert_uses_backend_constants() {
    let descriptor = windivert_descriptor();
    assert_eq!(descriptor.name, WINDIVERT_BACKEND_NAME);
    assert_eq!(descriptor.version, WINDIVERT_BACKEND_VERSION);
}

#[test]
fn wfp_uses_backend_constants() {
    let descriptor = wfp_descriptor();
    assert_eq!(descriptor.name, WFP_BACKEND_NAME);
    assert_eq!(descriptor.version, WFP_BACKEND_VERSION);
}

#[test]
fn npcap_declares_l2_capture() {
    let descriptor = npcap_descriptor();
    assert!(descriptor.supports(BackendCapability::L2Capture));
    assert!(descriptor.supports(BackendCapability::Capture));
    assert!(!descriptor.supports(BackendCapability::Modification));
}

#[test]
fn windivert_declares_ip_and_actions() {
    let descriptor = windivert_descriptor();
    assert!(descriptor.supports(BackendCapability::Ipv4));
    assert!(descriptor.supports(BackendCapability::Tcp));
    assert!(descriptor.supports(BackendCapability::Modification));
    assert!(descriptor.supports(BackendCapability::Pass));
    assert!(descriptor.supports(BackendCapability::Drop));
    assert!(descriptor.supports(BackendCapability::Reinjection));
}

#[test]
fn wfp_declares_filtering() {
    let descriptor = wfp_descriptor();
    assert!(descriptor.supports(BackendCapability::Filtering));
    assert!(descriptor.supports(BackendCapability::WfpFilters));
}

#[test]
fn iphelper_declares_network_state() {
    let descriptor = iphelper_descriptor();
    assert!(descriptor.supports(BackendCapability::RouteInfo));
    assert!(descriptor.supports(BackendCapability::NeighborInfo));
    assert!(descriptor.supports(BackendCapability::InterfaceInfo));
}

#[test]
fn etw_declares_diagnostics() {
    let descriptor = etw_descriptor();
    assert!(descriptor.supports(BackendCapability::Diagnostics));
    assert!(descriptor.supports(BackendCapability::Telemetry));
}

#[test]
fn descriptors_follow_kind_order() {
    let all = all_known_descriptors();
    let names: Vec<&str> = all.iter().map(|d| d.name.as_str()).collect();
    assert_eq!(names, vec!["npcap", "windivert", "wfp", "iphelper", "etw"]);
}
