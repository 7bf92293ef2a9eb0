use network_engine::windivert::ffi::{validate_filter, FilterError, WinDivertAddress};
use network_engine::windivert::{
    drop_packet, pass, recv_packet, reinject, CaptureConfig, InterceptedPacket, PacketDirection,
    WinDivertConfig, WinDivertError, WinDivertHandle, WinDivertHandleState, WinDivertLayer,
};

fn closed_handle() -> WinDivertHandle {
    WinDivertHandle::new(WinDivertConfig::new("true", WinDivertLayer::Network).unwrap())
}

#[test]
fn recv_requires_open_handle() {
    let handle = closed_handle();
    assert_eq!(recv_packet(&handle), Err(WinDivertError::InvalidOperation));
}

#[test]
fn reinject_rejects_empty_payload() {
    let handle = closed_handle();
    let addr = WinDivertAddress::zeroed();
    assert_eq!(reinject(&handle, &[], &addr), Err(WinDivertError::InvalidOperation));
}

#[test]
fn reinject_requires_open_handle_for_nonempty_payload() {
    let handle = closed_handle();
    let addr = WinDivertAddress::zeroed();
    assert_eq!(reinject(&handle, &[1, 2, 3], &addr), Err(WinDivertError::InvalidOperation));
}

#[test]
fn pass_requires_open_handle() {
    let handle = closed_handle();
    let packet = InterceptedPacket::from_native(vec![1], WinDivertAddress::zeroed());
    assert_eq!(pass(&handle, &packet), Err(WinDivertError::InvalidOperation));
}

#[test]
fn drop_packet_accepts_ownership_without_panicking() {
    let addr = WinDivertAddress::zeroed();
    let packet = InterceptedPacket::from_native(vec![1, 2, 3], addr);
    drop_packet(packet);
}

#[test]
fn packet_direction_reflects_address_flags() {
    let mut addr = WinDivertAddress::zeroed();
    addr.flags_raw = 1 << 17;
    let packet = InterceptedPacket::from_native(vec![9], addr);
    assert_eq!(packet.direction, PacketDirection::Outbound);
    let inbound = InterceptedPacket::from_native(vec![9], WinDivertAddress::zeroed());
    assert_eq!(inbound.direction, PacketDirection::Inbound);
}

#[test]
fn maps_network_layer_to_handle_config() {
    let config = CaptureConfig::new("tcp").with_priority(10).into_handle_config().unwrap();
    assert_eq!(config.layer, WinDivertLayer::Network);
    assert_eq!(config.priority, 10);
    assert_eq!(config.filter, "tcp");
}

#[test]
fn rejects_unknown_layer() {
    let config = CaptureConfig::new("true").with_layer("unknown");
    assert!(!config.is_valid());
    assert_eq!(config.layer_kind(), None);
    assert!(matches!(config.into_handle_config(), Err(WinDivertError::InvalidOperation)));
}

#[test]
fn layer_names_have_several_spellings() {
    assert_eq!(
        CaptureConfig::new("true").with_layer(" Network_Forward ").layer_kind(),
        Some(WinDivertLayer::NetworkForward)
    );
    assert_eq!(CaptureConfig::new("true").with_layer("  ").layer, "network");
    assert_eq!(CaptureConfig::default().filter, "true");
}

#[test]
fn rejects_empty_filter() {
    assert_eq!(validate_filter(""), Err(FilterError::Empty));
    assert_eq!(validate_filter("   "), Err(FilterError::Empty));
}

#[test]
fn rejects_filter_with_embedded_nul() {
    assert_eq!(validate_filter("true\0"), Err(FilterError::EmbeddedNul));
}

#[test]
fn accepts_reasonable_filter() {
    assert!(validate_filter("outbound and tcp").is_ok());
}

#[test]
fn address_layout_has_expected_size() {
    assert_eq!(std::mem::size_of::<WinDivertAddress>(), 80);
    assert_eq!(WinDivertAddress::SERIALIZED_LEN, 80);
}

#[test]
fn address_roundtrip_preserves_all_fields() {
    let mut a = WinDivertAddress::zeroed();
    a.timestamp = -123;
    a.flags_raw = 1 << 17;
    a.reserved2 = 55;
    a.data[0..4].copy_from_slice(&7u32.to_le_bytes());
    a.data[63] = 0xaa;
    let encoded = a.to_bytes();
    let decoded = WinDivertAddress::from_bytes(&encoded).unwrap();
    assert_eq!(decoded, a);
}

#[test]
fn address_encoding_is_little_endian() {
    let mut a = WinDivertAddress::zeroed();
    a.timestamp = 0x0102;
    a.flags_raw = 0x0304;
    let bytes = a.to_bytes();
    assert_eq!(&bytes[0..2], &[0x02, 0x01]);
    assert_eq!(&bytes[8..10], &[0x04, 0x03]);
}

#[test]
fn rejects_wrong_context_size() {
    assert!(WinDivertAddress::from_bytes(&[0; 79]).is_none());
    assert!(WinDivertAddress::from_bytes(&[0; 81]).is_none());
}

#[test]
fn address_decodes_flags() {
    let mut a = WinDivertAddress::zeroed();
    a.flags_raw = 1 << 17;
    assert!(a.is_outbound());
    assert!(!a.is_loopback());
    assert_eq!(a.layer(), 0);
}

#[test]
fn address_reads_interface_index() {
    let mut a = WinDivertAddress::zeroed();
    a.data[0..4].copy_from_slice(&7u32.to_le_bytes());
    assert_eq!(a.interface_index(), 7);
}

#[test]
fn handle_open_fails_without_driver() {
    let mut handle = closed_handle();
    assert!(handle.open().is_err());
    assert_ne!(handle.state(), WinDivertHandleState::Open);
    assert!(handle.require_open().is_err());
}
