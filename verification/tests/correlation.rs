use network_engine::correlation::{
    DedupFilter, FlowProtocol, ObservationIdentity, ObservationMatcher, ParsedHeaders, TransportKind,
};
use network_engine::net::IpAddress;

#[test]
fn duplicate_ids_are_rejected_within_window() {
    let mut filter = DedupFilter::new(2);
    assert!(!filter.is_duplicate(1));
    assert!(filter.is_duplicate(1));
    assert_eq!(filter.len(), 1);
}

#[test]
fn oldest_id_expires_without_clearing_newer_ids() {
    let mut filter = DedupFilter::new(2);
    assert!(!filter.is_duplicate(1));
    assert!(!filter.is_duplicate(2));
    assert!(!filter.is_duplicate(3));
    assert_eq!(filter.len(), 2);
    assert!(!filter.is_duplicate(1));
    assert!(filter.is_duplicate(2));
    assert!(filter.is_duplicate(3));
}

#[test]
fn zero_capacity_disables_deduplication() {
    let mut filter = DedupFilter::new(0);
    assert!(!filter.is_duplicate(1));
    assert!(!filter.is_duplicate(1));
    assert_eq!(filter.len(), 0);
}

#[test]
fn clear_resets_both_membership_and_order() {
    let mut filter = DedupFilter::new(2);
    assert!(!filter.is_duplicate(1));
    assert!(!filter.is_duplicate(2));
    filter.clear();
    assert!(filter.is_empty());
    assert!(!filter.is_duplicate(1));
}

#[test]
fn window_never_exceeds_capacity() {
    let mut filter = DedupFilter::new(3);
    for id in 0..100u64 {
        assert!(!filter.is_duplicate(id));
        assert!(filter.len() <= 3);
        assert!(filter.is_duplicate(id));
    }
    assert_eq!(filter.len(), 3);
}

#[test]
fn default_filter_remembers_many_ids() {
    let mut filter = DedupFilter::default();
    for id in 0..8192u64 {
        assert!(!filter.is_duplicate(id));
    }
    assert!(filter.is_duplicate(0));
    assert!(!filter.is_duplicate(8192));
    assert!(!filter.is_duplicate(0));
}

#[test]
fn identities_compare_by_fields() {
    let a = ObservationIdentity { id: 1, source_hash: 7 };
    let b = ObservationIdentity { id: 1, source_hash: 7 };
    let c = ObservationIdentity { id: 2, source_hash: 7 };
    assert_eq!(a, b);
    assert_ne!(a, c);
}

#[test]
fn oldest_arrival_leaves_a_full_window() {
    let mut filter = DedupFilter::new(2);
    assert!(!filter.is_duplicate(5));
    assert!(!filter.is_duplicate(6));
    assert!(!filter.is_duplicate(3));
    assert_eq!(filter.len(), 2);
    assert!(filter.is_duplicate(6));
    assert!(filter.is_duplicate(3));
    assert!(!filter.is_duplicate(5));
    assert!(filter.is_duplicate(6));
    assert!(filter.is_duplicate(3));
}

#[test]
fn aged_out_id_is_not_taken_in_again() {
    let mut filter = DedupFilter::new(3);
    for id in [10u64, 20, 30, 40] {
        assert!(!filter.is_duplicate(id));
    }
    assert!(!filter.is_duplicate(10));
    assert_eq!(filter.len(), 3);
    assert!(filter.is_duplicate(20));
    assert!(!filter.is_duplicate(5));
    assert!(!filter.is_duplicate(20));
    assert!(filter.is_duplicate(5));
    assert!(filter.is_duplicate(40));
    filter.clear();
    assert!(!filter.is_duplicate(10));
    assert!(filter.is_duplicate(10));
}

fn headers(transport: TransportKind, sp: Option<u16>, dp: Option<u16>) -> ParsedHeaders {
    ParsedHeaders {
        source_ip: Some(IpAddress::v4(10, 0, 0, 1)),
        destination_ip: Some(IpAddress::v4(10, 0, 0, 2)),
        transport,
        source_port: sp,
        destination_port: dp,
    }
}

#[test]
fn tcp_headers_give_a_tcp_flow() {
    let key = ObservationMatcher::to_flow_key(&headers(TransportKind::Tcp, Some(5000), Some(443))).unwrap();
    assert_eq!(key.protocol, FlowProtocol::Tcp);
    assert_eq!(key.src_port, 5000);
    assert_eq!(key.dst_port, 443);
    assert_eq!(key.src_ip, IpAddress::v4(10, 0, 0, 1));
    assert_eq!(key.dst_ip, IpAddress::v4(10, 0, 0, 2));
}

#[test]
fn udp_without_a_port_gives_no_flow() {
    assert!(ObservationMatcher::to_flow_key(&headers(TransportKind::Udp, Some(53), None)).is_none());
    let key = ObservationMatcher::to_flow_key(&headers(TransportKind::Udp, Some(53), Some(53))).unwrap();
    assert_eq!(key.protocol, FlowProtocol::Udp);
}

#[test]
fn icmp_flows_have_port_zero() {
    let key = ObservationMatcher::to_flow_key(&headers(TransportKind::Icmp, None, None)).unwrap();
    assert_eq!((key.protocol, key.src_port, key.dst_port), (FlowProtocol::Icmp, 0, 0));
    let key = ObservationMatcher::to_flow_key(&headers(TransportKind::Icmpv6, Some(7), Some(9))).unwrap();
    assert_eq!((key.protocol, key.src_port, key.dst_port), (FlowProtocol::IcmpV6, 0, 0));
}

#[test]
fn unknown_transport_gives_no_flow() {
    assert!(ObservationMatcher::to_flow_key(&headers(TransportKind::Unknown, Some(1), Some(2))).is_none());
}

#[test]
fn missing_address_gives_no_flow() {
    let mut h = headers(TransportKind::Tcp, Some(1), Some(2));
    h.destination_ip = None;
    assert!(ObservationMatcher::to_flow_key(&h).is_none());
}
