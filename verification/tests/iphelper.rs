use network_engine::iphelper::{connections, interfaces, neighbors, routes};
use network_engine::iphelper::connections::connection_from_row;
use network_engine::iphelper::sockaddr::parse_sockaddr_inet;
use network_engine::iphelper::{
    ConnectionInfo, ConnectionKey, ConnectionProtocol, ConnectionState, ConnectionTable,
    ConnectionTableError, InterfaceAddress, InterfaceInfo, InterfaceQueryError, InterfaceTable,
    IpHelperBackend, IpHelperError, IpHelperSnapshot, NeighborInfo, NeighborState, NeighborTable,
    NeighborTableError, RouteInfo, RouteTable, RouteTableError,
};
use network_engine::net::IpAddress;
use network_engine::iphelper::interfaces::adapter_display_name;
use network_engine::iphelper::interfaces::mac_from_physical;
use network_engine::iphelper::interfaces::interface_from_adapter;
use network_engine::iphelper::{InterfaceOperationalState, InterfaceType};

fn v4(a: u8, b: u8, c: u8, d: u8) -> IpAddress {
    IpAddress::v4(a, b, c, d)
}

fn interface() -> InterfaceInfo {
    InterfaceInfo::new(1, "Ethernet").unwrap()
}

fn neighbor_address() -> IpAddress {
    v4(192, 168, 1, 10)
}

fn local_address() -> IpAddress {
    v4(192, 168, 1, 10)
}

fn remote_address() -> IpAddress {
    v4(8, 8, 8, 8)
}

fn connection_key() -> ConnectionKey {
    ConnectionKey::new(ConnectionProtocol::Tcp, local_address(), 50000, Some(remote_address()), Some(443))
        .unwrap()
}

// Routes

#[test]
fn creates_ipv4_route() {
    let route = RouteInfo::new(v4(192, 168, 1, 0), 24, Some(v4(192, 168, 1, 1)), 1, 10);
    assert!(route.is_some());
}

#[test]
fn invalid_prefix_is_rejected() {
    let route = RouteInfo::new(v4(192, 168, 1, 0), 33, None, 1, 10);
    assert!(route.is_none());
}

#[test]
fn route_matches_ipv4_destination() {
    let route = RouteInfo::new(v4(192, 168, 1, 0), 24, None, 1, 10).unwrap();
    assert!(route.matches(v4(192, 168, 1, 50)));
    assert!(!route.matches(v4(192, 168, 2, 50)));
}

#[test]
fn route_matches_ipv6_destination() {
    // 2001:db8::/32
    let route = RouteInfo::new(IpAddress::V6(0x2001_0db8_0000_0000_0000_0000_0000_0000), 32, None, 1, 10).unwrap();
    // 2001:db8:1::10 and 2001:dead::10
    assert!(route.matches(IpAddress::V6(0x2001_0db8_0001_0000_0000_0000_0000_0010)));
    assert!(!route.matches(IpAddress::V6(0x2001_dead_0000_0000_0000_0000_0000_0010)));
}

#[test]
fn lookup_uses_longest_prefix() {
    let mut table = RouteTable::new();
    table.insert(RouteInfo::new(v4(10, 0, 0, 0), 8, None, 1, 1).unwrap()).unwrap();
    table.insert(RouteInfo::new(v4(10, 1, 0, 0), 16, None, 2, 100).unwrap()).unwrap();
    let route = table.lookup(v4(10, 1, 2, 3)).unwrap();
    assert_eq!(route.interface_index, 2);
}

#[test]
fn lookup_uses_lowest_metric_when_prefix_is_equal() {
    let mut table = RouteTable::new();
    table.insert(RouteInfo::new(v4(10, 0, 0, 0), 8, None, 1, 50).unwrap()).unwrap();
    table.insert(RouteInfo::new(v4(10, 0, 0, 0), 8, None, 2, 10).unwrap()).unwrap();
    let route = table.lookup(v4(10, 5, 1, 2)).unwrap();
    assert_eq!(route.interface_index, 2);
}

#[test]
fn missing_route_returns_error() {
    let table = RouteTable::new();
    assert_eq!(table.lookup(v4(8, 8, 8, 8)), Err(RouteTableError::RouteNotFound));
}

#[test]
fn route_can_be_removed() {
    let mut table = RouteTable::new();
    let route = RouteInfo::new(v4(192, 168, 1, 0), 24, None, 1, 10).unwrap();
    table.insert(route).unwrap();
    let removed = table.remove(v4(192, 168, 1, 0), 24, 1);
    assert!(removed.is_ok());
    assert!(table.is_empty());
}

#[test]
fn route_of_the_other_family_never_matches() {
    let route = RouteInfo::new(v4(0, 0, 0, 0), 0, None, 1, 10).unwrap();
    assert!(route.matches(v4(1, 2, 3, 4)));
    assert!(!route.matches(IpAddress::V6(1)));
}

#[test]
fn lookup_tie_goes_to_the_later_route() {
    let mut table = RouteTable::new();
    table.insert(RouteInfo::new(v4(10, 0, 0, 0), 8, None, 1, 10).unwrap()).unwrap();
    table.insert(RouteInfo::new(v4(10, 0, 0, 0), 8, None, 2, 10).unwrap()).unwrap();
    assert_eq!(table.lookup(v4(10, 9, 9, 9)).unwrap().interface_index, 2);
}

#[test]
fn reinserting_a_route_replaces_it() {
    let mut table = RouteTable::new();
    table.insert(RouteInfo::new(v4(10, 0, 0, 0), 8, None, 1, 10).unwrap()).unwrap();
    table.insert(RouteInfo::new(v4(10, 0, 0, 0), 8, None, 1, 99).unwrap()).unwrap();
    assert_eq!(table.len(), 1);
    assert_eq!(table.lookup(v4(10, 1, 1, 1)).unwrap().metric, 99);
}

#[test]
fn removing_a_missing_route_fails() {
    let mut table = RouteTable::new();
    assert_eq!(table.remove(v4(10, 0, 0, 0), 8, 1), Err(RouteTableError::RouteNotFound));
}

#[test]
fn route_refresh_stops_at_a_refused_route() {
    let mut table = RouteTable::new();
    let good = RouteInfo::new(v4(10, 0, 0, 0), 8, None, 1, 10).unwrap();
    let mut bad = RouteInfo::new(v4(11, 0, 0, 0), 8, None, 1, 10).unwrap();
    bad.interface_index = 0;
    let later = RouteInfo::new(v4(12, 0, 0, 0), 8, None, 1, 10).unwrap();
    assert_eq!(table.refresh_from(vec![good, bad, later]), Err(RouteTableError::InvalidInterface));
    assert_eq!(table.len(), 1);
    assert!(table.lookup(v4(12, 0, 0, 1)).is_err());
}

// Interfaces

#[test]
fn interface_address_validates_prefix() {
    let address = InterfaceAddress::new(v4(192, 168, 1, 10), 24);
    assert!(address.is_some());
    let invalid = InterfaceAddress::new(v4(192, 168, 1, 10), 33);
    assert!(invalid.is_none());
}

#[test]
fn interface_requires_valid_index() {
    assert!(InterfaceInfo::new(0, "Ethernet").is_none());
}

#[test]
fn interface_requires_name() {
    assert!(InterfaceInfo::new(1, "   ").is_none());
}

#[test]
fn address_can_be_added() {
    let mut info = interface();
    let address = InterfaceAddress::new(v4(192, 168, 1, 10), 24).unwrap();
    info.add_address(address.clone());
    info.add_address(address);
    assert_eq!(info.addresses.len(), 1);
    assert!(info.has_address_family_v4());
}

#[test]
fn table_inserts_and_finds_interface() {
    let mut table = InterfaceTable::new();
    table.insert(interface()).unwrap();
    let found = table.get(1).unwrap();
    assert_eq!(found.name, "Ethernet");
}

#[test]
fn duplicate_index_updates_interface() {
    let mut table = InterfaceTable::new();
    table.insert(interface()).unwrap();
    let mut updated = InterfaceInfo::new(1, "Updated Ethernet").unwrap();
    updated.mtu = 1500;
    table.insert(updated).unwrap();
    assert_eq!(table.len(), 1);
    assert_eq!(table.get(1).unwrap().name, "Updated Ethernet");
    assert_eq!(table.get(1).unwrap().mtu, 1500);
}

#[test]
fn table_removes_interface() {
    let mut table = InterfaceTable::new();
    table.insert(interface()).unwrap();
    let removed = table.remove(1).unwrap();
    assert_eq!(removed.index, 1);
    assert!(table.is_empty());
}

#[test]
fn missing_interface_returns_error() {
    let table = InterfaceTable::new();
    assert_eq!(table.get(1), Err(InterfaceQueryError::InterfaceNotFound));
}

#[test]
fn interface_index_zero_is_refused() {
    let table = InterfaceTable::new();
    assert_eq!(table.get(0), Err(InterfaceQueryError::InvalidInterfaceIndex));
}

#[test]
fn interface_without_addresses_has_no_family() {
    let mut info = interface();
    assert!(!info.has_address_family_v4());
    assert!(!info.has_address_family_v6());
    info.add_address(InterfaceAddress::new(IpAddress::V6(1), 128).unwrap());
    assert!(info.has_address_family_v6());
    assert!(!info.has_address_family_v4());
}

#[test]
fn interface_refresh_replaces_the_table() {
    let mut table = InterfaceTable::new();
    table.insert(InterfaceInfo::new(7, "Old").unwrap()).unwrap();
    let fetched = vec![interface(), InterfaceInfo::new(2, "Wi-Fi").unwrap()];
    assert!(table.refresh_from(fetched).is_ok());
    assert_eq!(table.len(), 2);
    assert!(table.get(7).is_err());
    assert_eq!(table.get(2).unwrap().name, "Wi-Fi");
}

#[test]
fn interface_refresh_stops_at_index_zero() {
    let mut table = InterfaceTable::new();
    let mut bad = InterfaceInfo::new(3, "Bad").unwrap();
    bad.index = 0;
    let fetched = vec![interface(), bad, InterfaceInfo::new(2, "Wi-Fi").unwrap()];
    assert_eq!(table.refresh_from(fetched), Err(InterfaceQueryError::InvalidInterfaceIndex));
    assert_eq!(table.len(), 1);
    assert!(table.get(2).is_err());
}

// Neighbors

#[test]
fn creates_neighbor() {
    let neighbor = NeighborInfo::new(
        neighbor_address(),
        1,
        Some([0x00, 0x11, 0x22, 0x33, 0x44, 0x55]),
        NeighborState::Reachable,
    );
    assert!(neighbor.is_some());
}

#[test]
fn invalid_interface_is_rejected() {
    let neighbor = NeighborInfo::new(neighbor_address(), 0, None, NeighborState::Unknown);
    assert!(neighbor.is_none());
}

#[test]
fn insert_and_get_neighbor() {
    let mut table = NeighborTable::new();
    let neighbor = NeighborInfo::new(
        neighbor_address(),
        1,
        Some([0x00, 0x11, 0x22, 0x33, 0x44, 0x55]),
        NeighborState::Reachable,
    )
    .unwrap();
    table.insert(neighbor).unwrap();
    let found = table.get(neighbor_address(), 1).unwrap();
    assert_eq!(found.interface_index(), 1);
    assert!(found.has_mac());
}

#[test]
fn resolve_returns_mac() {
    let mut table = NeighborTable::new();
    let mac = [0xaa, 0xbb, 0xcc, 0xdd, 0xee, 0xff];
    table
        .insert(NeighborInfo::new(neighbor_address(), 2, Some(mac), NeighborState::Reachable).unwrap())
        .unwrap();
    assert_eq!(table.resolve(neighbor_address(), 2).unwrap(), mac);
}

#[test]
fn stale_neighbor_with_mac_is_usable() {
    let neighbor =
        NeighborInfo::new(neighbor_address(), 1, Some([0, 1, 2, 3, 4, 5]), NeighborState::Stale).unwrap();
    assert!(neighbor.is_usable());
}

#[test]
fn incomplete_neighbor_is_not_usable() {
    let neighbor = NeighborInfo::new(neighbor_address(), 1, None, NeighborState::Incomplete).unwrap();
    assert!(!neighbor.is_usable());
}

#[test]
fn state_can_be_updated() {
    let mut table = NeighborTable::new();
    table
        .insert(NeighborInfo::new(neighbor_address(), 1, None, NeighborState::Incomplete).unwrap())
        .unwrap();
    table.update_state(neighbor_address(), 1, NeighborState::Reachable).unwrap();
    assert_eq!(table.get(neighbor_address(), 1).unwrap().state, NeighborState::Reachable);
}

#[test]
fn mac_can_be_updated() {
    let mut table = NeighborTable::new();
    table.insert(NeighborInfo::new(neighbor_address(), 1, None, NeighborState::Stale).unwrap()).unwrap();
    let mac = [1, 2, 3, 4, 5, 6];
    table.update_mac(neighbor_address(), 1, mac).unwrap();
    assert_eq!(table.get(neighbor_address(), 1).unwrap().mac_address, Some(mac));
}

#[test]
fn remove_neighbor() {
    let mut table = NeighborTable::new();
    table.insert(NeighborInfo::new(neighbor_address(), 1, None, NeighborState::Unknown).unwrap()).unwrap();
    let removed = table.remove(neighbor_address(), 1);
    assert!(removed.is_ok());
    assert!(table.is_empty());
}

#[test]
fn missing_neighbor_returns_error() {
    let table = NeighborTable::new();
    assert_eq!(table.get(neighbor_address(), 1).unwrap_err(), NeighborTableError::NeighborNotFound);
}

#[test]
fn resolving_a_neighbor_without_mac_fails() {
    let mut table = NeighborTable::new();
    table.insert(NeighborInfo::new(neighbor_address(), 1, None, NeighborState::Reachable).unwrap()).unwrap();
    assert!(table.resolve(neighbor_address(), 1).is_err());
    assert!(table.resolve(neighbor_address(), 2).is_err());
}

#[test]
fn neighbor_refresh_keeps_only_reported_entries() {
    let mut table = NeighborTable::new();
    table.insert(NeighborInfo::new(v4(10, 0, 0, 1), 1, None, NeighborState::Stale).unwrap()).unwrap();
    table.insert(NeighborInfo::new(v4(10, 0, 0, 2), 1, None, NeighborState::Stale).unwrap()).unwrap();
    let fetched = vec![NeighborInfo::new(v4(10, 0, 0, 2), 1, Some([9; 6]), NeighborState::Reachable).unwrap()];
    assert!(table.refresh_from(fetched).is_ok());
    assert_eq!(table.len(), 1);
    assert!(table.get(v4(10, 0, 0, 1), 1).is_err());
    assert_eq!(table.resolve(v4(10, 0, 0, 2), 1).unwrap(), [9; 6]);
}

// Connections

#[test]
fn creates_connection_key() {
    let key = connection_key();
    assert_eq!(key.local_port, 50000);
    assert_eq!(key.remote_port, Some(443));
}

#[test]
fn mismatched_remote_endpoint_is_rejected() {
    let key = ConnectionKey::new(ConnectionProtocol::Tcp, local_address(), 50000, Some(remote_address()), None);
    assert!(key.is_none());
}

#[test]
fn inserts_and_gets_connection() {
    let mut table = ConnectionTable::new();
    let key = connection_key();
    table.insert(ConnectionInfo::new(key.clone(), ConnectionState::Established)).unwrap();
    let connection = table.get(&key).unwrap();
    assert_eq!(connection.state, ConnectionState::Established);
}

#[test]
fn updates_connection_state() {
    let mut table = ConnectionTable::new();
    let key = connection_key();
    table.insert(ConnectionInfo::new(key.clone(), ConnectionState::SynSent)).unwrap();
    table.update_state(&key, ConnectionState::Established).unwrap();
    assert_eq!(table.get(&key).unwrap().state, ConnectionState::Established);
}

#[test]
fn active_connections_are_filtered() {
    let mut table = ConnectionTable::new();
    let key1 = connection_key();
    let key2 =
        ConnectionKey::new(ConnectionProtocol::Tcp, local_address(), 50001, Some(remote_address()), Some(80))
            .unwrap();
    table.insert(ConnectionInfo::new(key1, ConnectionState::Established)).unwrap();
    table.insert(ConnectionInfo::new(key2, ConnectionState::Closed)).unwrap();
    assert_eq!(table.active().len(), 1);
}

#[test]
fn process_information_can_be_attached() {
    let key = connection_key();
    let mut connection = ConnectionInfo::new(key, ConnectionState::Established);
    connection.set_process_id(1234);
    connection.set_owner_module("example.exe");
    assert_eq!(connection.process_id, Some(1234));
    assert_eq!(connection.owner_module.as_deref(), Some("example.exe"));
}

#[test]
fn invalid_local_port_is_rejected() {
    let key = ConnectionKey::new(ConnectionProtocol::Tcp, local_address(), 0, None, None).unwrap();
    let mut table = ConnectionTable::new();
    let result = table.insert(ConnectionInfo::new(key, ConnectionState::Listen));
    assert_eq!(result, Err(ConnectionTableError::InvalidPort));
}

#[test]
fn removes_connection() {
    let mut table = ConnectionTable::new();
    let key = connection_key();
    table.insert(ConnectionInfo::new(key.clone(), ConnectionState::Established)).unwrap();
    let removed = table.remove(&key);
    assert!(removed.is_ok());
    assert!(table.is_empty());
}

#[test]
fn missing_connection_returns_error() {
    let table = ConnectionTable::new();
    let key = connection_key();
    assert_eq!(table.get(&key).unwrap_err(), ConnectionTableError::ConnectionNotFound);
}

#[test]
fn connection_row_ports_are_read_in_network_order() {
    // 50000 is 0xC350 and 443 is 0x01BB; a row holds them byte-swapped.
    let c = connection_from_row(
        ConnectionProtocol::Tcp,
        ConnectionState::Established,
        local_address(),
        0x50C3,
        remote_address(),
        0xBB01,
        4242,
    )
    .unwrap();
    assert_eq!(c.key.local_port, 50000);
    assert_eq!(c.key.remote_port, Some(443));
    assert_eq!(c.key.remote_address, Some(remote_address()));
    assert_eq!(c.process_id, Some(4242));
}

#[test]
fn listening_row_has_no_remote_endpoint() {
    let c = connection_from_row(
        ConnectionProtocol::Tcp,
        ConnectionState::Listen,
        local_address(),
        0x5000,
        IpAddress::V4(0),
        0,
        1,
    )
    .unwrap();
    assert_eq!(c.key.local_port, 80);
    assert_eq!(c.key.remote_address, None);
    assert_eq!(c.key.remote_port, None);
}

#[test]
fn half_remote_row_is_refused() {
    let c = connection_from_row(
        ConnectionProtocol::Udp,
        ConnectionState::Established,
        local_address(),
        0x5000,
        remote_address(),
        0,
        1,
    );
    assert!(c.is_none());
}

#[test]
fn connection_refresh_stops_at_a_portless_entry() {
    let mut table = ConnectionTable::new();
    let good = ConnectionInfo::new(connection_key(), ConnectionState::Established);
    let portless = ConnectionInfo::new(
        ConnectionKey::new(ConnectionProtocol::Tcp, local_address(), 0, None, None).unwrap(),
        ConnectionState::Listen,
    );
    assert_eq!(table.refresh_from(vec![good, portless]), Err(ConnectionTableError::InvalidPort));
    assert_eq!(table.len(), 1);
}

#[test]
fn connection_refresh_drops_unreported_connections() {
    let mut table = ConnectionTable::new();
    let old_key =
        ConnectionKey::new(ConnectionProtocol::Tcp, local_address(), 50001, Some(remote_address()), Some(80))
            .unwrap();
    table.insert(ConnectionInfo::new(old_key, ConnectionState::Established)).unwrap();
    assert!(table.refresh_from(vec![ConnectionInfo::new(connection_key(), ConnectionState::SynSent)]).is_ok());
    assert_eq!(table.len(), 1);
    assert!(table.get(&old_key).is_err());
    assert_eq!(table.get(&connection_key()).unwrap().state, ConnectionState::SynSent);
}

// Socket addresses

#[test]
fn sockaddr_reads_ipv4() {
    let mut b = [0u8; 28];
    b[0] = 2;
    b[4] = 192;
    b[5] = 168;
    b[6] = 1;
    b[7] = 10;
    assert_eq!(parse_sockaddr_inet(&b), Some(v4(192, 168, 1, 10)));
}

#[test]
fn sockaddr_reads_ipv6() {
    let mut b = [0u8; 28];
    b[0] = 23;
    b[8] = 0x20;
    b[9] = 0x01;
    b[10] = 0x0d;
    b[11] = 0xb8;
    b[23] = 0x01;
    assert_eq!(parse_sockaddr_inet(&b), Some(IpAddress::V6(0x2001_0db8_0000_0000_0000_0000_0000_0001)));
}

#[test]
fn sockaddr_of_another_family_is_nothing() {
    let mut b = [0u8; 28];
    b[0] = 17;
    assert_eq!(parse_sockaddr_inet(&b), None);
}

// Backend

fn full_snapshot() -> IpHelperSnapshot {
    IpHelperSnapshot {
        interfaces: Some(vec![interface()]),
        routes: Some(vec![RouteInfo::new(v4(10, 0, 0, 0), 8, None, 1, 1).unwrap()]),
        neighbors: Some(vec![NeighborInfo::new(neighbor_address(), 1, None, NeighborState::Stale).unwrap()]),
        connections: Some(vec![ConnectionInfo::new(connection_key(), ConnectionState::Established)]),
    }
}

fn empty_snapshot() -> IpHelperSnapshot {
    IpHelperSnapshot { interfaces: Some(vec![]), routes: Some(vec![]), neighbors: Some(vec![]), connections: Some(vec![]) }
}

#[test]
fn iphelper_backend_starts() {
    let mut backend = IpHelperBackend::new();
    assert!(!backend.is_running());
    backend.start(empty_snapshot()).unwrap();
    assert!(backend.is_running());
}

#[test]
fn iphelper_backend_cannot_start_twice() {
    let mut backend = IpHelperBackend::new();
    backend.start(empty_snapshot()).unwrap();
    assert_eq!(backend.start(empty_snapshot()), Err(IpHelperError::AlreadyRunning));
}

#[test]
fn iphelper_backend_stops() {
    let mut backend = IpHelperBackend::new();
    backend.start(empty_snapshot()).unwrap();
    backend.stop().unwrap();
    assert!(!backend.is_running());
}

#[test]
fn backend_cannot_stop_when_not_running() {
    let mut backend = IpHelperBackend::new();
    assert_eq!(backend.stop(), Err(IpHelperError::NotRunning));
}

#[test]
fn backend_exposes_all_tables() {
    let backend = IpHelperBackend::new();
    assert!(backend.interface_table().is_ok());
    assert!(backend.route_table().is_ok());
    assert!(backend.neighbor_table().is_ok());
    assert!(backend.connection_table().is_ok());
}

#[test]
fn backend_can_clear_state() {
    let mut backend = IpHelperBackend::new();
    backend.clear_state().unwrap();
    assert_eq!(backend.interface_table().unwrap().len(), 0);
    assert_eq!(backend.route_table().unwrap().len(), 0);
    assert_eq!(backend.neighbor_table().unwrap().len(), 0);
    assert_eq!(backend.connection_table().unwrap().len(), 0);
}

#[test]
fn started_backend_holds_the_snapshot() {
    let mut backend = IpHelperBackend::new();
    backend.start(full_snapshot()).unwrap();
    assert_eq!(backend.interfaces().len(), 1);
    assert_eq!(backend.routes().len(), 1);
    assert_eq!(backend.neighbors().len(), 1);
    assert_eq!(backend.connections().len(), 1);
    backend.clear_state().unwrap();
    assert!(backend.interfaces().is_empty());
    assert!(backend.connections().is_empty());
    assert!(backend.is_running());
}

#[test]
fn failed_query_leaves_the_backend_stopped() {
    let mut backend = IpHelperBackend::new();
    let mut snapshot = full_snapshot();
    snapshot.routes = None;
    assert_eq!(backend.start(snapshot), Err(IpHelperError::QueryFailed));
    assert!(!backend.is_running());
    assert_eq!(backend.interfaces().len(), 1);
    assert_eq!(backend.routes().len(), 0);
    assert_eq!(backend.neighbors().len(), 0);
}

#[test]
fn refused_entry_fails_the_refresh() {
    let mut backend = IpHelperBackend::new();
    backend.start(empty_snapshot()).unwrap();
    let mut snapshot = full_snapshot();
    let mut bad = InterfaceInfo::new(5, "Bad").unwrap();
    bad.index = 0;
    snapshot.interfaces = Some(vec![bad]);
    assert_eq!(backend.refresh_all(snapshot), Err(IpHelperError::QueryFailed));
    assert!(backend.is_running());
    assert_eq!(backend.routes().len(), 0);
}

#[test]
fn stopped_backend_refuses_to_refresh() {
    let mut backend = IpHelperBackend::new();
    assert_eq!(backend.refresh_all(full_snapshot()), Err(IpHelperError::NotRunning));
    assert_eq!(backend.interfaces().len(), 0);
}

#[test]
fn running_backend_refreshes_all_tables() {
    let mut backend = IpHelperBackend::default();
    backend.start(empty_snapshot()).unwrap();
    assert!(backend.refresh_all(full_snapshot()).is_ok());
    assert_eq!(backend.routes().lookup(v4(10, 2, 3, 4)).unwrap().interface_index, 1);
    assert_eq!(backend.connections().len(), 1);
}

// Adapter entries

#[test]
fn adapter_name_prefers_the_friendly_name() {
    assert_eq!(adapter_display_name(Some(Some("Wi-Fi")), Some("{GUID}")), "Wi-Fi");
    assert_eq!(adapter_display_name(Some(None), Some("{GUID}")), "Unknown");
    assert_eq!(adapter_display_name(None, Some("{GUID}")), "{GUID}");
    assert_eq!(adapter_display_name(None, None), "Unknown");
}

#[test]
fn mac_needs_six_bytes() {
    let physical = [1, 2, 3, 4, 5, 6, 7, 8];
    assert_eq!(mac_from_physical(&physical, 6), Some([1, 2, 3, 4, 5, 6]));
    assert_eq!(mac_from_physical(&physical, 8), Some([1, 2, 3, 4, 5, 6]));
    assert_eq!(mac_from_physical(&physical, 5), None);
}

#[test]
fn adapter_entry_becomes_an_interface() {
    let addresses = [(v4(192, 168, 1, 10), 24), (v4(192, 168, 1, 10), 40), (v4(192, 168, 1, 10), 24), (IpAddress::V6(1), 64)];
    let info = interface_from_adapter(7, "Ethernet", "Intel", 1500, 1, 6, Some([9; 6]), &addresses).unwrap();
    assert_eq!(info.index, 7);
    assert_eq!(info.name, "Ethernet");
    assert_eq!(info.description, "Intel");
    assert_eq!(info.mtu, 1500);
    assert_eq!(info.operational_state, InterfaceOperationalState::Up);
    assert_eq!(info.interface_type, InterfaceType::Ethernet);
    assert_eq!(info.mac_address, Some([9; 6]));
    assert_eq!(info.addresses.len(), 2);
    assert!(info.has_address_family_v4());
    assert!(info.has_address_family_v6());
    assert!(interface_from_adapter(0, "Ethernet", "", 0, 0, 0, None, &[]).is_none());
    assert!(interface_from_adapter(3, " ", "", 0, 0, 0, None, &[]).is_none());
    let other = interface_from_adapter(3, "tun0", "", 0, 2, 131, None, &[]).unwrap();
    assert_eq!(other.operational_state, InterfaceOperationalState::Down);
    assert_eq!(other.interface_type, InterfaceType::Tunnel);
}

#[test]
fn failed_queries_report_their_status() {
    assert_eq!(connections::fetch_failure(122), ConnectionTableError::SystemError(122));
    assert_eq!(interfaces::fetch_failure(232), InterfaceQueryError::SystemError(232));
    assert_eq!(neighbors::fetch_failure(87), NeighborTableError::SystemError(87));
    assert_eq!(routes::fetch_failure(1168), RouteTableError::SystemError(1168));
    assert_eq!(routes::fetch_failure(0x8007_0005), RouteTableError::SystemError(-2147024891));
}

#[test]
fn old_connections_are_dropped_by_age() {
    let mut table = ConnectionTable::new();
    let ports = [50001u16, 50002, 50003];
    for port in ports {
        let key = ConnectionKey::new(ConnectionProtocol::Tcp, local_address(), port, Some(remote_address()), Some(443))
            .unwrap();
        table.insert(ConnectionInfo::new(key, ConnectionState::Established)).unwrap();
    }
    assert_eq!(table.remove_older_than(&[5, 20, 10], 10), 1);
    assert_eq!(table.len(), 2);
    assert_eq!(table.all()[0].key.local_port, 50001);
    assert_eq!(table.all()[1].key.local_port, 50003);
    assert_eq!(table.remove_expired(std::time::Duration::from_secs(3600)), 0);
    assert_eq!(table.len(), 2);
}

#[test]
fn old_neighbors_are_dropped_by_age() {
    let mut table = NeighborTable::new();
    table.insert(NeighborInfo::new(v4(10, 0, 0, 1), 1, None, NeighborState::Reachable).unwrap()).unwrap();
    table.insert(NeighborInfo::new(v4(10, 0, 0, 2), 1, None, NeighborState::Reachable).unwrap()).unwrap();
    assert_eq!(table.remove_older_than(&[7, 7], 7), 0);
    assert_eq!(table.remove_older_than(&[8, 3], 7), 1);
    assert_eq!(table.len(), 1);
    assert_eq!(table.remove_expired(std::time::Duration::from_secs(3600)), 0);
    assert_eq!(table.len(), 1);
}
