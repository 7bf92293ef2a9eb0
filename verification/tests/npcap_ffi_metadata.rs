use network_engine::net::IpAddress;
use network_engine::npcap::ffi::{
    pcap_timestamp, validate_packet_header, validate_packet_length, PcapDirection,
    PcapPkthdr, PcapReceiveStatus, PcapSendError, PCAP_D_IN, PCAP_D_INOUT, PCAP_D_OUT,
    PCAP_IF_LOOPBACK, PCAP_IF_RUNNING, PCAP_IF_UP, PCAP_NEXT_EX_EOF, PCAP_NEXT_EX_ERROR,
    PCAP_NEXT_EX_PACKET, PCAP_NEXT_EX_TIMEOUT,
};
use network_engine::npcap::{AdapterMetadata, LinkType, MetadataTable, PacketMetadata};

#[test]
fn direction_values_are_correct() {
    assert_eq!(PcapDirection::InOut.as_raw(), PCAP_D_INOUT);
    assert_eq!(PcapDirection::In.as_raw(), PCAP_D_IN);
    assert_eq!(PcapDirection::Out.as_raw(), PCAP_D_OUT);
}

#[test]
fn validates_packet_length() {
    assert_eq!(validate_packet_length(100).unwrap(), 100);
}

#[test]
fn ffi_rejects_empty_packet() {
    assert_eq!(validate_packet_length(0), Err(PcapSendError::SendFailed));
}

#[test]
fn rejects_packet_larger_than_c_int() {
    let result = validate_packet_length(i32::MAX as usize + 1);
    assert_eq!(result, Err(PcapSendError::PacketTooLarge));
    assert_eq!(validate_packet_length(i32::MAX as usize), Ok(i32::MAX));
}

#[test]
fn interface_flags_are_defined() {
    assert_ne!(PCAP_IF_UP, 0);
    assert_ne!(PCAP_IF_RUNNING, 0);
    assert_ne!(PCAP_IF_LOOPBACK, 0);
}

#[test]
fn receive_status_values_are_correct() {
    assert_eq!(PcapReceiveStatus::from_raw(PCAP_NEXT_EX_PACKET), PcapReceiveStatus::Packet);
    assert_eq!(PcapReceiveStatus::from_raw(PCAP_NEXT_EX_TIMEOUT), PcapReceiveStatus::Timeout);
    assert_eq!(PcapReceiveStatus::from_raw(PCAP_NEXT_EX_EOF), PcapReceiveStatus::EndOfCapture);
    assert_eq!(PcapReceiveStatus::from_raw(PCAP_NEXT_EX_ERROR), PcapReceiveStatus::Error);
}

#[test]
fn validates_valid_packet_header() {
    let header = PcapPkthdr { ts_sec: 1_000, ts_usec: 500, caplen: 128, len: 256 };
    assert_eq!(validate_packet_header(&header), Ok((128, 256)));
}

#[test]
fn rejects_zero_capture_length() {
    let header = PcapPkthdr { ts_sec: 1_000, ts_usec: 500, caplen: 0, len: 256 };
    assert_eq!(validate_packet_header(&header), Err(PcapReceiveStatus::Error));
}

#[test]
fn rejects_capture_length_larger_than_original_length() {
    let header = PcapPkthdr { ts_sec: 1_000, ts_usec: 500, caplen: 512, len: 256 };
    assert_eq!(validate_packet_header(&header), Err(PcapReceiveStatus::Error));
}

#[test]
fn converts_valid_pcap_timestamp() {
    let header = PcapPkthdr { ts_sec: 1, ts_usec: 500_000, caplen: 64, len: 64 };
    let (secs, micros) = pcap_timestamp(&header).expect("timestamp should be valid");
    assert_eq!(
        std::time::Duration::from_secs(secs) + std::time::Duration::from_micros(micros as u64),
        std::time::Duration::from_micros(1_500_000)
    );
}

#[test]
fn rejects_invalid_pcap_timestamp() {
    let header = PcapPkthdr { ts_sec: -1, ts_usec: 0, caplen: 64, len: 64 };
    assert!(pcap_timestamp(&header).is_none());
    let header = PcapPkthdr { ts_sec: 1, ts_usec: -5, caplen: 64, len: 64 };
    assert!(pcap_timestamp(&header).is_none());
}

#[test]
fn creates_packet_metadata() {
    let metadata = PacketMetadata::new(1, 100, 100);
    assert!(metadata.is_some());
}

#[test]
fn rejects_invalid_packet_lengths() {
    assert!(PacketMetadata::new(1, 101, 100).is_none());
    assert!(PacketMetadata::new(0, 10, 10).is_none());
    assert!(PacketMetadata::new(1, 0, 10).is_none());
}

#[test]
fn detects_truncated_packet() {
    let metadata = PacketMetadata::new(1, 64, 128).unwrap();
    assert!(metadata.is_truncated());
    assert_eq!(metadata.captured_length as f64 / metadata.original_length as f64, 0.5);
}

#[test]
fn stores_packet_endpoints() {
    let mut metadata = PacketMetadata::new(1, 100, 100).unwrap();
    let source = IpAddress::v4(192, 168, 1, 10);
    let destination = IpAddress::v4(8, 8, 8, 8);
    metadata.set_endpoints(source, destination);
    assert_eq!(metadata.source_ip, Some(source));
    assert_eq!(metadata.destination_ip, Some(destination));
    assert_eq!(source, IpAddress::V4(0xc0a8_010a));
}

#[test]
fn link_type_mapping_works() {
    assert_eq!(LinkType::from_datalink(1), LinkType::Ethernet);
    assert_eq!(LinkType::from_datalink(101), LinkType::Raw);
    assert_eq!(LinkType::from_datalink(0), LinkType::Loopback);
    assert_eq!(LinkType::from_datalink(7), LinkType::Unknown(7));
}

#[test]
fn creates_adapter_metadata() {
    let adapter = AdapterMetadata::new(1, "Ethernet");
    assert!(adapter.is_some());
    assert!(AdapterMetadata::new(0, "Ethernet").is_none());
    assert!(AdapterMetadata::new(1, " ").is_none());
}

#[test]
fn adapter_can_store_mac() {
    let mut adapter = AdapterMetadata::new(1, "Ethernet").unwrap();
    adapter.set_mac([0x00, 0x11, 0x22, 0x33, 0x44, 0x55]);
    assert!(adapter.has_mac());
}

#[test]
fn zero_mtu_is_ignored() {
    let mut adapter = AdapterMetadata::new(1, "Ethernet").unwrap();
    adapter.set_mtu(0);
    assert_eq!(adapter.mtu, None);
    adapter.set_mtu(1500);
    assert_eq!(adapter.mtu, Some(1500));
}

#[test]
fn metadata_table_stores_packets() {
    let mut table = MetadataTable::new();
    table.add_packet(PacketMetadata::new(1, 100, 100).unwrap());
    assert_eq!(table.packet_count(), 1);
}

#[test]
fn metadata_table_updates_adapter() {
    let mut table = MetadataTable::new();
    table.add_adapter(AdapterMetadata::new(1, "Ethernet").unwrap());
    table.add_adapter(AdapterMetadata::new(1, "Updated Ethernet").unwrap());
    assert_eq!(table.adapter_count(), 1);
    assert_eq!(table.adapters()[0].name, "Updated Ethernet");
}

#[test]
fn timestamp_keeps_seconds_and_microseconds_apart() {
    let header = PcapPkthdr { ts_sec: 7, ts_usec: 3, caplen: 1, len: 1 };
    assert_eq!(pcap_timestamp(&header), Some((7, 3)));
    let header = PcapPkthdr { ts_sec: 7, ts_usec: 4_294_967_296, caplen: 1, len: 1 };
    assert_eq!(pcap_timestamp(&header), None);
}
