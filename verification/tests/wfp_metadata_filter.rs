use network_engine::wfp::condition::{condition_field, mask_prefix, native_condition, ConditionField, ConditionValue};
use network_engine::wfp::layer_keys::{resolve, WfpLayerKey};
use network_engine::wfp::metadata::{WfpDirection, WfpIpVersion};
use network_engine::wfp::WfpMetadata;
use network_engine::wfp::WfpFilterCondition;

#[test]
fn creates_empty_metadata() {
    let metadata = WfpMetadata::new(10, 20);
    assert_eq!(metadata.layer_id, 10);
    assert_eq!(metadata.callout_id, 20);
    assert_eq!(metadata.ip_version, WfpIpVersion::Unknown);
}

#[test]
fn sets_flow_and_process_context() {
    let mut metadata = WfpMetadata::default();
    metadata.set_flow_id(Some(100));
    metadata.set_process(Some(200), Some(300));
    assert!(metadata.has_flow_context());
    assert!(metadata.has_process_context());
    assert_eq!(metadata.flow_id, Some(100));
    assert_eq!(metadata.process_id, Some(200));
    assert_eq!(metadata.thread_id, Some(300));
}

#[test]
fn sets_ipv4_addresses() {
    let mut metadata = WfpMetadata::default();
    metadata.set_addresses(vec![192, 168, 1, 10], vec![8, 8, 8, 8]).unwrap();
    assert!(metadata.is_ipv4());
    assert!(!metadata.is_ipv6());
    assert_eq!(metadata.local_address, Some(vec![192, 168, 1, 10]));
}

#[test]
fn sets_ipv6_addresses() {
    let mut metadata = WfpMetadata::default();
    metadata.set_addresses(vec![0; 16], vec![1; 16]).unwrap();
    assert!(metadata.is_ipv6());
}

#[test]
fn rejects_invalid_address_length() {
    let mut metadata = WfpMetadata::default();
    assert!(metadata.set_addresses(vec![1, 2, 3], vec![4, 5, 6]).is_err());
}

#[test]
fn rejects_mixed_address_families() {
    let mut metadata = WfpMetadata::default();
    assert!(metadata.set_addresses(vec![192, 168, 1, 1], vec![0; 16]).is_err());
}

#[test]
fn transport_helpers_work() {
    let mut metadata = WfpMetadata::default();
    metadata.set_ip_version(WfpIpVersion::V4);
    metadata.set_transport(Some(6), Some(1234), Some(443));
    assert!(metadata.has_transport_context());
    assert!(metadata.is_tcp());
    assert!(!metadata.is_udp());
    assert!(metadata.is_icmp() == false);
    assert_eq!(metadata.local_port, Some(1234));
    assert_eq!(metadata.remote_port, Some(443));
}

#[test]
fn direction_helpers_work() {
    let mut metadata = WfpMetadata::default();
    metadata.set_direction(WfpDirection::Inbound);
    assert!(metadata.is_inbound());
    assert!(!metadata.is_outbound());
    metadata.set_direction(WfpDirection::Outbound);
    assert!(metadata.is_outbound());
}

#[test]
fn clears_runtime_context() {
    let mut metadata = WfpMetadata::default();
    metadata.set_flow_id(Some(1));
    metadata.set_filter_id(Some(2));
    metadata.set_process(Some(3), Some(4));
    metadata.clear_runtime_context();
    assert_eq!(metadata.flow_id, None);
    assert_eq!(metadata.filter_id, None);
    assert_eq!(metadata.process_id, None);
    assert_eq!(metadata.thread_id, None);
}

#[test]
fn known_layers_resolve_without_placeholders() {
    assert!(resolve("ale_auth_connect_v4").is_some());
    assert!(resolve("outbound_transport_v4").is_some());
    assert_eq!(resolve("  ALE-AUTH-CONNECT-V6 "), Some(WfpLayerKey::AleAuthConnectV6));
}

#[test]
fn unknown_layer_is_rejected() {
    assert!(resolve("not-a-real-wfp-layer").is_none());
}

#[test]
fn condition_fields_accept_both_spellings() {
    assert_eq!(condition_field(" IP_Protocol "), Some(ConditionField::Protocol));
    assert_eq!(condition_field("remote_address_v6"), Some(ConditionField::RemoteAddressV6));
    assert_eq!(condition_field("colour"), None);
}

#[test]
fn mask_prefix_counts_leading_ones() {
    assert_eq!(mask_prefix(&[0xff, 0xff, 0xf0, 0x00]), Some(20));
    assert_eq!(mask_prefix(&[0xff; 16]), Some(128));
    assert_eq!(mask_prefix(&[0x00; 16]), Some(0));
    assert_eq!(mask_prefix(&[0xff, 0x0f]), None);
    assert_eq!(mask_prefix(&[0xf0, 0x01]), None);
}

#[test]
fn native_conditions_carry_typed_values() {
    let port = WfpFilterCondition::new("local_port", vec![0xbb, 0x01]).unwrap();
    assert_eq!(native_condition(&port).unwrap().1, ConditionValue::Uint16(443));
    let v4 = WfpFilterCondition::new("remote_address", vec![10, 0, 0, 1]).unwrap();
    match native_condition(&v4).unwrap().1 {
        ConditionValue::V4AddrMask { addr, mask } => {
            assert_eq!(addr, u32::from_le_bytes([10, 0, 0, 1]));
            assert_eq!(mask, 0xffff_ffff);
        }
        other => panic!("unexpected {:?}", other),
    }
    let v6 = WfpFilterCondition::new("local_address_v6", vec![0; 16])
        .unwrap()
        .with_mask([vec![0xff; 8], vec![0; 8]].concat())
        .unwrap();
    match native_condition(&v6).unwrap().1 {
        ConditionValue::V6AddrMask { prefix_length, .. } => assert_eq!(prefix_length, 64),
        other => panic!("unexpected {:?}", other),
    }
    let bad = WfpFilterCondition::new("protocol", vec![6, 0]).unwrap();
    assert!(native_condition(&bad).is_err());
    let unknown = WfpFilterCondition::new("colour", vec![1]).unwrap();
    assert!(native_condition(&unknown).is_err());
}
