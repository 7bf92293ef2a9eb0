use network_engine::net::IpAddress;
use network_engine::npcap::{
    AdapterAddress, AdapterInfo, AdapterState, AdapterTable, AdapterTableError, AdapterType,
    CaptureConfig, CapturedPacket, NpcapBackend, NpcapBackendState, NpcapError,
};

const LOOPBACK_V4: IpAddress = IpAddress::V4(0x7f00_0001);
const LOOPBACK_V6: IpAddress = IpAddress::V6(1);

#[test]
fn creates_adapter() {
    let adapter = AdapterInfo::new(1, "Ethernet").unwrap();
    assert_eq!(adapter.index, 1);
    assert_eq!(adapter.name, "Ethernet");
    assert_eq!(adapter.adapter_type, AdapterType::Unknown);
    assert_eq!(adapter.state, AdapterState::Unknown);
    assert!(adapter.has_interface_index());
}

#[test]
fn creates_npcap_adapter_without_fake_index() {
    let adapter = AdapterInfo::from_npcap(r"\Device\NPF_{TEST}").unwrap();
    assert_eq!(adapter.index, 0);
    assert!(!adapter.has_interface_index());
    assert_eq!(adapter.npcap_name(), r"\Device\NPF_{TEST}");
}

#[test]
fn resolves_npcap_adapter_index() {
    let mut adapter = AdapterInfo::from_npcap(r"\Device\NPF_{TEST}").unwrap();
    assert!(adapter.set_interface_index(7));
    assert_eq!(adapter.index, 7);
    assert!(adapter.has_interface_index());
    assert!(!adapter.set_interface_index(0));
    assert_eq!(adapter.index, 7);
}

#[test]
fn rejects_zero_index() {
    assert!(AdapterInfo::new(0, "Ethernet").is_none());
}

#[test]
fn rejects_empty_name() {
    assert!(AdapterInfo::new(1, "   ").is_none());
}

#[test]
fn accepts_ipv4_address() {
    let address = AdapterAddress::new(IpAddress::v4(192, 168, 1, 10), 24).unwrap();
    assert!(address.is_ipv4());
    assert!(!address.is_ipv6());
}

#[test]
fn accepts_ipv6_address() {
    let address = AdapterAddress::new(LOOPBACK_V6, 128).unwrap();
    assert!(!address.is_ipv4());
    assert!(address.is_ipv6());
}

#[test]
fn rejects_invalid_ipv4_prefix() {
    assert!(AdapterAddress::new(LOOPBACK_V4, 33).is_none());
}

#[test]
fn rejects_invalid_ipv6_prefix() {
    assert!(AdapterAddress::new(LOOPBACK_V6, 129).is_none());
}

#[test]
fn deduplicates_addresses() {
    let address = AdapterAddress::new(LOOPBACK_V4, 8).unwrap();
    let mut adapter = AdapterInfo::new(1, "Loopback").unwrap();
    adapter.add_address(address.clone());
    adapter.add_address(address);
    assert_eq!(adapter.addresses.len(), 1);
}

#[test]
fn detects_ipv4_support() {
    let address = AdapterAddress::new(LOOPBACK_V4, 8).unwrap();
    let mut adapter = AdapterInfo::new(1, "Loopback").unwrap();
    adapter.add_address(address);
    assert!(adapter.supports_ipv4());
    assert!(!adapter.supports_ipv6());
}

#[test]
fn detects_ipv6_support() {
    let address = AdapterAddress::new(LOOPBACK_V6, 128).unwrap();
    let mut adapter = AdapterInfo::new(1, "Loopback").unwrap();
    adapter.add_address(address);
    assert!(!adapter.supports_ipv4());
    assert!(adapter.supports_ipv6());
}

#[test]
fn adapter_setters_and_predicates() {
    let mut adapter = AdapterInfo::new(3, "wlan").unwrap();
    adapter.set_type(AdapterType::Wifi);
    adapter.set_state(AdapterState::Down);
    adapter.set_mtu(1500);
    adapter.set_description("Wireless");
    adapter.set_mac([1, 2, 3, 4, 5, 6]);
    assert!(adapter.is_wireless());
    assert!(!adapter.is_loopback());
    assert!(!adapter.is_tunnel());
    assert!(adapter.is_down());
    assert!(!adapter.is_up());
    assert!(adapter.has_mac());
    assert_eq!(adapter.mtu, 1500);
    assert_eq!(adapter.description, "Wireless");
    assert_eq!(adapter.address_count(), 0);
}

#[test]
fn adapter_table_insert_and_get() {
    let mut table = AdapterTable::new();
    table.insert(AdapterInfo::new(2, "Ethernet").unwrap()).unwrap();
    let adapter = table.get(2).unwrap();
    assert_eq!(adapter.name, "Ethernet");
}

#[test]
fn adapter_table_updates_existing_index() {
    let mut table = AdapterTable::new();
    table.insert(AdapterInfo::new(1, "old").unwrap()).unwrap();
    table.insert(AdapterInfo::new(1, "new").unwrap()).unwrap();
    assert_eq!(table.len(), 1);
    assert_eq!(table.get(1).unwrap().name, "new");
}

#[test]
fn adapter_table_remove() {
    let mut table = AdapterTable::new();
    table.insert(AdapterInfo::new(1, "Ethernet").unwrap()).unwrap();
    let removed = table.remove(1).unwrap();
    assert_eq!(removed.name, "Ethernet");
    assert!(table.is_empty());
}

#[test]
fn adapter_table_lookup_errors() {
    let mut table = AdapterTable::new();
    assert_eq!(table.get(0).unwrap_err(), AdapterTableError::InvalidAdapterIndex);
    assert_eq!(table.get(4).unwrap_err(), AdapterTableError::AdapterNotFound);
    assert_eq!(table.remove(4).unwrap_err(), AdapterTableError::AdapterNotFound);
}

#[test]
fn adapter_table_rejects_zero_index() {
    let mut table = AdapterTable::new();
    let adapter = AdapterInfo {
        index: 0,
        name: "invalid".to_string(),
        description: String::new(),
        adapter_type: AdapterType::Unknown,
        state: AdapterState::Unknown,
        mac_address: None,
        mtu: 0,
        addresses: Vec::new(),
    };
    assert_eq!(table.insert(adapter), Err(AdapterTableError::InvalidAdapterIndex));
}

#[test]
fn adapter_table_is_sorted_by_interface_index() {
    let mut table = AdapterTable::new();
    table.insert(AdapterInfo::new(10, "ten").unwrap()).unwrap();
    table.insert(AdapterInfo::new(2, "two").unwrap()).unwrap();
    assert_eq!(table.all()[0].index, 2);
    assert_eq!(table.all()[1].index, 10);
}

#[test]
fn adapter_table_keeps_order_through_updates() {
    let mut table = AdapterTable::new();
    for index in [5u32, 1, 9, 3, 7, 3, 1] {
        table.insert(AdapterInfo::new(index, "x").unwrap()).unwrap();
    }
    let indices: Vec<u32> = table.all().iter().map(|a| a.index).collect();
    assert_eq!(indices, vec![1, 3, 5, 7, 9]);
    table.remove(5).unwrap();
    let indices: Vec<u32> = table.all().iter().map(|a| a.index).collect();
    assert_eq!(indices, vec![1, 3, 7, 9]);
}

#[test]
fn finds_adapter_by_native_name() {
    let mut table = AdapterTable::new();
    table.insert(AdapterInfo::new(7, r"\Device\NPF_{TEST}").unwrap()).unwrap();
    assert!(table.find_by_name(r"\Device\NPF_{TEST}").is_some());
    assert!(table.find_by_npcap_name(r"\Device\NPF_{TEST}").is_some());
    assert!(table.find_by_name("other").is_none());
}

#[test]
fn finds_up_adapters() {
    let mut table = AdapterTable::new();
    let mut up = AdapterInfo::new(1, "up").unwrap();
    up.set_state(AdapterState::Up);
    let down = AdapterInfo::new(2, "down").unwrap();
    table.insert(up).unwrap();
    table.insert(down).unwrap();
    let result: Vec<u32> = table.find_up().into_iter().map(|adapter| adapter.index).collect();
    assert_eq!(result, vec![1]);
}

#[test]
fn finds_resolved_adapters() {
    let mut table = AdapterTable::new();
    table.insert(AdapterInfo::new(1, "resolved").unwrap()).unwrap();
    let resolved: Vec<u32> = table.find_resolved().into_iter().map(|adapter| adapter.index).collect();
    assert_eq!(resolved, vec![1]);
}

#[test]
fn finds_adapters_by_address_family() {
    let mut table = AdapterTable::new();
    let mut v4 = AdapterInfo::new(1, "v4").unwrap();
    v4.add_address(AdapterAddress::new(LOOPBACK_V4, 8).unwrap());
    let mut v6 = AdapterInfo::new(2, "v6").unwrap();
    v6.add_address(AdapterAddress::new(LOOPBACK_V6, 128).unwrap());
    table.insert(v4).unwrap();
    table.insert(v6).unwrap();
    let a: Vec<u32> = table.find_ipv4().into_iter().map(|x| x.index).collect();
    let b: Vec<u32> = table.find_ipv6().into_iter().map(|x| x.index).collect();
    assert_eq!(a, vec![1]);
    assert_eq!(b, vec![2]);
}

// The backend that owns adapters and capture sessions.

#[test]
fn lib_backend_starts() {
    let mut backend = NpcapBackend::new();
    assert_eq!(backend.state(), NpcapBackendState::Stopped);
    backend.start().unwrap();
    assert!(backend.is_running());
}

#[test]
fn lib_backend_cannot_start_twice() {
    let mut backend = NpcapBackend::new();
    backend.start().unwrap();
    assert_eq!(backend.start(), Err(NpcapError::AlreadyRunning));
}

#[test]
fn lib_backend_stops() {
    let mut backend = NpcapBackend::new();
    backend.start().unwrap();
    backend.stop().unwrap();
    assert_eq!(backend.state(), NpcapBackendState::Stopped);
}

#[test]
fn capture_requires_running_backend() {
    let mut backend = NpcapBackend::new();
    let config = CaptureConfig::new(1).unwrap();
    assert_eq!(backend.create_capture(config), Err(NpcapError::NotRunning));
}

#[test]
fn backend_can_create_capture() {
    let mut backend = NpcapBackend::new();
    backend.start().unwrap();
    let config = CaptureConfig::new(1).unwrap();
    let capture = backend.create_capture(config).unwrap();
    assert_eq!(capture, 0);
    assert_eq!(backend.captures().len(), 1);
}

#[test]
fn capture_can_be_started() {
    let mut backend = NpcapBackend::new();
    backend.start().unwrap();
    backend.adapters_mut().insert(AdapterInfo::new(1, "test-device").unwrap()).unwrap();
    let config = CaptureConfig::new(1).unwrap();
    let capture = backend.create_capture(config).unwrap();
    backend.start_capture(capture).unwrap();
    assert!(backend.captures()[capture].is_running());
}

#[test]
fn stopping_backend_stops_captures() {
    let mut backend = NpcapBackend::new();
    backend.start().unwrap();
    backend.adapters_mut().insert(AdapterInfo::new(1, "test-device").unwrap()).unwrap();
    let capture = backend.create_capture(CaptureConfig::new(1).unwrap()).unwrap();
    backend.start_capture(capture).unwrap();
    backend.stop().unwrap();
    assert!(!backend.captures()[capture].is_running());
    assert_eq!(backend.stop(), Err(NpcapError::NotRunning));
}

#[test]
fn start_capture_requires_known_adapter() {
    let mut backend = NpcapBackend::new();
    backend.start().unwrap();
    let config = CaptureConfig::new(1).unwrap();
    let capture = backend.create_capture(config).unwrap();
    assert_eq!(backend.start_capture(capture), Err(NpcapError::DeviceUnavailable));
}

#[test]
fn invalid_capture_id_is_rejected() {
    let mut backend = NpcapBackend::new();
    backend.start().unwrap();
    assert_eq!(backend.start_capture(999), Err(NpcapError::InvalidCaptureId));
    assert_eq!(backend.stop_capture(999), Err(NpcapError::InvalidCaptureId));
}

#[test]
fn receive_packet_requires_running_backend() {
    let mut backend = NpcapBackend::new();
    assert_eq!(backend.receive_packet(0), Err(NpcapError::NotRunning));
}

#[test]
fn receive_on_idle_capture_fails_and_running_capture_times_out() {
    let mut backend = NpcapBackend::new();
    backend.start().unwrap();
    backend.adapters_mut().insert(AdapterInfo::new(1, "dev").unwrap()).unwrap();
    let capture = backend.create_capture(CaptureConfig::new(1).unwrap()).unwrap();
    assert_eq!(backend.receive_packet(capture), Err(NpcapError::CaptureFailed));
    backend.start_capture(capture).unwrap();
    assert_eq!(backend.receive_packet(capture), Ok(None));
    backend.stop_capture(capture).unwrap();
    assert_eq!(backend.stop_capture(capture), Err(NpcapError::CaptureFailed));
}

#[test]
fn clear_runtime_state_works() {
    let mut backend = NpcapBackend::new();
    backend.start().unwrap();
    let config = CaptureConfig::new(1).unwrap();
    backend.create_capture(config).unwrap();
    backend.clear_runtime_state();
    assert_eq!(backend.captures().len(), 0);
    assert_eq!(backend.devices().len(), 0);
    assert_eq!(backend.adapters().len(), 0);
}

#[test]
fn backend_can_degrade() {
    let mut backend = NpcapBackend::new();
    backend.start().unwrap();
    backend.degrade();
    assert_eq!(backend.state(), NpcapBackendState::Degraded);
    backend.fail();
    assert_eq!(backend.state(), NpcapBackendState::Failed);
}

#[test]
fn receive_observation_requires_valid_capture() {
    let mut backend = NpcapBackend::new();
    backend.start().unwrap();
    assert_eq!(backend.receive_observation(999), Err(NpcapError::InvalidCaptureId));
}

#[test]
fn observation_id_starts_at_one() {
    let backend = NpcapBackend::new();
    assert_eq!(backend.next_observation_id(), 1);
}

fn received(data: Vec<u8>, interface_index: u32) -> CapturedPacket {
    CapturedPacket {
        data,
        timestamp: std::time::SystemTime::UNIX_EPOCH,
        interface_index,
        original_length: 60,
    }
}

#[test]
fn observations_name_their_interface_and_count_up() {
    let mut backend = NpcapBackend::new();
    backend.adapters_mut().insert(AdapterInfo::new(3, "Ethernet").unwrap()).unwrap();
    let first = backend.observe_packet(received(vec![1, 2, 3], 3)).unwrap();
    assert_eq!(first.observation_id, 1);
    assert_eq!(first.interface_identity, "Ethernet");
    assert_eq!(first.interface_index, 3);
    assert_eq!(first.original_length, 60);
    assert_eq!(first.data, vec![1, 2, 3]);
    let second = backend.observe_packet(received(vec![9], 42)).unwrap();
    assert_eq!(second.observation_id, 2);
    assert_eq!(second.interface_identity, "npcap:42");
    let third = backend.observe_packet(received(vec![9], 0)).unwrap();
    assert_eq!(third.interface_identity, "npcap:0");
    assert_eq!(backend.next_observation_id(), 4);
}

#[test]
fn empty_packet_gives_no_observation() {
    let mut backend = NpcapBackend::new();
    assert_eq!(
        backend.observe_packet(received(Vec::new(), 1)),
        Err(NpcapError::ObservationCreationFailed)
    );
    assert_eq!(backend.next_observation_id(), 1);
}

#[test]
fn timeout_is_no_observation() {
    let mut backend = NpcapBackend::new();
    assert_eq!(backend.receive_observation(0), Err(NpcapError::NotRunning));
    backend.start().unwrap();
    let capture = backend.create_capture(CaptureConfig::new(1).unwrap()).unwrap();
    assert_eq!(backend.receive_observation(capture), Err(NpcapError::CaptureFailed));
    assert_eq!(backend.next_observation_id(), 1);
}

#[test]
fn clearing_restarts_observation_ids() {
    let mut backend = NpcapBackend::new();
    backend.observe_packet(received(vec![1], 7)).unwrap();
    assert_eq!(backend.next_observation_id(), 2);
    backend.clear_runtime_state();
    assert_eq!(backend.next_observation_id(), 1);
}
