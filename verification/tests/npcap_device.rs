use network_engine::npcap::device::device_from_entry;
use network_engine::npcap::ffi::{PCAP_IF_LOOPBACK, PCAP_IF_UP};
use network_engine::npcap::{normalize_device_name, DeviceError, DeviceManager, DeviceState, NpcapDevice};

const NAME: &str = r"\Device\NPF_{TEST}";

#[test]
fn creates_device() {
    let device = NpcapDevice::new(NAME);
    assert!(device.is_some());
}

#[test]
fn rejects_empty_device_name() {
    let device = NpcapDevice::new("   ");
    assert!(device.is_none());
}

#[test]
fn device_can_store_interface_index() {
    let mut device = NpcapDevice::new(NAME).unwrap();
    device.set_interface_index(5);
    assert_eq!(device.interface_index, Some(5));
}

#[test]
fn zero_interface_index_becomes_none() {
    let mut device = NpcapDevice::new(NAME).unwrap();
    device.set_interface_index(0);
    assert_eq!(device.interface_index, None);
}

#[test]
fn device_state_changes() {
    let mut device = NpcapDevice::new(NAME).unwrap();
    device.mark_available();
    assert!(device.is_available());
    device.mark_open();
    assert!(device.is_open());
    device.mark_closed();
    assert_eq!(device.state, DeviceState::Closed);
}

#[test]
fn manager_adds_device() {
    let mut manager = DeviceManager::new();
    manager.add(NpcapDevice::new(NAME).unwrap()).unwrap();
    assert_eq!(manager.len(), 1);
}

#[test]
fn manager_does_not_duplicate_device() {
    let mut manager = DeviceManager::new();
    let device = NpcapDevice::new(NAME).unwrap();
    manager.add(device.clone()).unwrap();
    manager.add(device).unwrap();
    assert_eq!(manager.len(), 1);
}

#[test]
fn manager_opens_device() {
    let mut manager = DeviceManager::new();
    manager.add(NpcapDevice::new(NAME).unwrap()).unwrap();
    manager.open(NAME).unwrap();
    assert!(manager.get(NAME).unwrap().is_open());
}

#[test]
fn manager_rejects_second_open() {
    let mut manager = DeviceManager::new();
    manager.add(NpcapDevice::new(NAME).unwrap()).unwrap();
    manager.open(NAME).unwrap();
    assert_eq!(manager.open(NAME), Err(DeviceError::DeviceAlreadyOpen));
}

#[test]
fn manager_closes_device() {
    let mut manager = DeviceManager::new();
    manager.add(NpcapDevice::new(NAME).unwrap()).unwrap();
    manager.open(NAME).unwrap();
    manager.close(NAME).unwrap();
    assert_eq!(manager.get(NAME).unwrap().state, DeviceState::Closed);
}

#[test]
fn manager_removes_device() {
    let mut manager = DeviceManager::new();
    manager.add(NpcapDevice::new(NAME).unwrap()).unwrap();
    manager.remove(NAME).unwrap();
    assert!(manager.is_empty());
}

#[test]
fn unknown_device_is_not_found() {
    let mut manager = DeviceManager::new();
    assert_eq!(manager.open("missing").unwrap_err(), DeviceError::DeviceNotFound);
    assert_eq!(manager.get("  ").unwrap_err(), DeviceError::InvalidDeviceName);
}

#[test]
fn normalizes_os_string() {
    let value = normalize_device_name(" Ethernet ");
    assert_eq!(value, Some("Ethernet".to_string()));
    assert_eq!(normalize_device_name("   "), None);
}

#[test]
fn failed_enumeration_leaves_devices() {
    let mut manager = DeviceManager::new();
    manager.add(NpcapDevice::new(NAME).unwrap()).unwrap();
    assert_eq!(manager.refresh(), Err(DeviceError::DeviceEnumerationFailed));
    assert_eq!(manager.len(), 1);
}

#[test]
fn device_entries_are_normalized() {
    let d = device_from_entry(Some("  eth0 "), Some("  "), PCAP_IF_UP).unwrap();
    assert_eq!(d.name, "eth0");
    assert_eq!(d.description, None);
    assert_eq!(d.state, DeviceState::Available);
    let d = device_from_entry(Some("lo"), Some(" Loopback "), PCAP_IF_LOOPBACK).unwrap();
    assert_eq!(d.description.as_deref(), Some("Loopback"));
    assert_eq!(d.state, DeviceState::Closed);
    assert!(device_from_entry(None, None, 0).is_none());
}

#[test]
fn enumeration_needs_a_list_with_devices() {
    let device = NpcapDevice::new(NAME).unwrap();
    assert_eq!(DeviceManager::enumeration_outcome(-1, true, vec![]), Err(DeviceError::DeviceEnumerationFailed));
    assert_eq!(DeviceManager::enumeration_outcome(0, false, vec![]), Err(DeviceError::DeviceEnumerationFailed));
    assert_eq!(DeviceManager::enumeration_outcome(0, true, vec![]), Err(DeviceError::DeviceEnumerationFailed));
    let listed = DeviceManager::enumeration_outcome(0, true, vec![device]).unwrap();
    assert_eq!(listed.len(), 1);
    assert_eq!(listed[0].name, NAME);
}

#[test]
fn refresh_stops_at_a_blank_device() {
    let mut manager = DeviceManager::new();
    let first = NpcapDevice::new(NAME).unwrap();
    let mut blank = NpcapDevice::new("other").unwrap();
    blank.name = String::from("  ");
    let later = NpcapDevice::new("later").unwrap();
    assert_eq!(manager.refresh_with(Ok(vec![first, blank, later])), Err(DeviceError::InvalidDeviceName));
    assert_eq!(manager.len(), 1);
    assert!(manager.get("later").is_err());
}

#[test]
fn refresh_skips_repeated_names() {
    let mut manager = DeviceManager::new();
    let a = NpcapDevice::new(NAME).unwrap();
    let b = NpcapDevice::new(NAME).unwrap();
    assert!(manager.refresh_with(Ok(vec![a, b])).is_ok());
    assert_eq!(manager.len(), 1);
}
