use voidwarp_core::crypto::DeviceIdentity;
use voidwarp_core::discovery::{build_hello_packet, parse_hello_packet, IpAddress};
use voidwarp_core::engine::Engine;
use voidwarp_core::hostview::{host_addresses, ipv4_text};
use voidwarp_core::peers::{device_id_from_fullname, DiscoveryError, DiscoveryManager};

fn names(m: &DiscoveryManager) -> Vec<(String, String)> {
    let mut v: Vec<(String, String)> =
        m.get_peers().into_iter().map(|p| (p.device_id, p.device_name)).collect();
    v.sort();
    v
}

#[test]
fn test_discovery_manager_creation() {
    let manager = DiscoveryManager::new("me");
    assert!(!manager.is_fallback());
    assert!(manager.get_peers().is_empty());
}

#[test]
fn hello_round_trip() {
    let pkt = build_hello_packet("00000000deadbeef", "Laptop", 42424);
    assert_eq!(&pkt[..6], &[0x56, 0x57, 0x03, 0xa5, 0xb8, 16]);
    let h = parse_hello_packet(&pkt).unwrap();
    assert_eq!(h.device_id, "00000000deadbeef");
    assert_eq!(h.device_name, "Laptop");
    assert_eq!(h.port, 42424);
}

#[test]
fn truncated_hello_is_discarded_without_change() {
    let pkt = build_hello_packet("peer-1", "Phone", 1000);
    let mut m = DiscoveryManager::new("me");
    for cut in 0..pkt.len() {
        assert!(parse_hello_packet(&pkt[..cut]).is_none());
        assert!(!m.on_hello(&pkt[..cut], IpAddress::V4([192, 168, 1, 5])));
    }
    assert!(m.get_peers().is_empty());
    let mut wrong = pkt.clone();
    wrong[2] = 0x01;
    assert!(parse_hello_packet(&wrong).is_none());
}

#[test]
fn hello_dedup_keeps_latest_name() {
    let mut m = DiscoveryManager::new("me");
    assert!(m.on_hello(&build_hello_packet("peer-1", "Old name", 1000), IpAddress::V4([10, 0, 0, 2])));
    assert!(m.on_hello(&build_hello_packet("peer-1", "New name", 1001), IpAddress::V4([10, 0, 0, 3])));
    let peers = m.get_peers();
    assert_eq!(peers.len(), 1);
    assert_eq!(peers[0].device_name, "New name");
    assert_eq!(peers[0].port, 1001);
    assert_eq!(peers[0].addresses.len(), 1);
    assert!(matches!(peers[0].addresses[0], IpAddress::V4([10, 0, 0, 3])));
}

#[test]
fn own_beacons_and_services_are_skipped() {
    let mut m = DiscoveryManager::new("me");
    m.register_service("me").unwrap();
    assert!(!m.on_hello(&build_hello_packet("me", "Myself", 1), IpAddress::V4([10, 0, 0, 9])));
    assert!(m
        .on_service_resolved(Some("me".to_string()), None, "me._voidwarp._udp.local.".to_string(), vec![], 1)
        .is_none());
    assert!(m.get_peers().is_empty());
    assert!(m.on_hello(&build_hello_packet("other", "Other", 1), IpAddress::V4([10, 0, 0, 9])));
    assert_eq!(names(&m), vec![("other".to_string(), "Other".to_string())]);
}

#[test]
fn mdns_events_update_the_table() {
    let mut m = DiscoveryManager::new("me");
    let found = m
        .on_service_resolved(
            Some("abc".to_string()),
            None,
            "abc._voidwarp._udp.local.".to_string(),
            vec![IpAddress::V4([192, 168, 0, 7]), IpAddress::V6([0xfe, 0x80, 0, 0, 0, 0, 0, 0, 0, 0, 0, 0, 0, 0, 0, 1])],
            5000,
        )
        .unwrap();
    assert_eq!(found.device_name, "abc._voidwarp._udp.local.");
    assert_eq!(found.addresses.len(), 2);
    m.add_manual_peer("usb".to_string(), "Cable".to_string(), IpAddress::V4([127, 0, 0, 1]), 42424);
    assert_eq!(names(&m).len(), 2);
    assert_eq!(m.on_service_removed("abc._voidwarp._udp.local."), "abc");
    assert_eq!(names(&m), vec![("usb".to_string(), "Cable".to_string())]);
    assert_eq!(device_id_from_fullname("nodots"), "nodots");
    assert_eq!(device_id_from_fullname(".lead"), "");
}

#[test]
fn fallback_manager_cannot_register() {
    let mut m = DiscoveryManager::new_fallback("me");
    assert!(m.is_fallback());
    assert_eq!(m.register_service("me"), Err(DiscoveryError::DaemonUnavailable));
    assert!(m.unregister().is_none());
    m.add_manual_peer("p".to_string(), "P".to_string(), IpAddress::V4([10, 1, 1, 1]), 7);
    assert_eq!(m.get_peers().len(), 1);
}

#[test]
fn unregister_names_the_service() {
    let mut m = DiscoveryManager::new("me");
    m.register_service("0123456789abcdef").unwrap();
    assert_eq!(m.service_fullname().unwrap(), "0123456789abcdef._voidwarp._udp.local.");
    assert_eq!(m.unregister().unwrap(), "0123456789abcdef._voidwarp._udp.local.");
    assert!(m.unregister().is_none());
}

#[test]
fn start_discovery_twice_is_like_once() {
    let mut e = Engine::new(DeviceIdentity::from_stamp("Desk", 7));
    e.start_discovery(true, true);
    e.start_discovery(true, true);
    let d = e.discovery().unwrap();
    assert!(!d.is_fallback());
    assert_eq!(d.our_id().unwrap(), "0000000000000007");
    assert!(d.get_peers().is_empty());
    e.start_discovery(false, true);
    assert!(!e.discovery().unwrap().is_fallback());
    assert!(e.discovery().unwrap().our_id().is_some());
    assert!(e.stop_discovery().is_some());
    assert!(e.discovery().is_none());
}

#[test]
fn host_addresses_filter_and_order() {
    let addrs = vec![
        IpAddress::V4([10, 0, 0, 10]),
        IpAddress::V4([127, 0, 0, 1]),
        IpAddress::V4([192, 168, 1, 20]),
        IpAddress::V6([0; 16]),
        IpAddress::V4([169, 254, 3, 4]),
        IpAddress::V4([10, 0, 0, 2]),
        IpAddress::V4([192, 168, 1, 3]),
    ];
    assert_eq!(host_addresses(&addrs), "192.168.1.20,192.168.1.3,10.0.0.10,10.0.0.2");
    assert_eq!(host_addresses(&vec![]), "");
    assert_eq!(ipv4_text([0, 9, 10, 255]), "0.9.10.255");
}

#[test]
fn own_id_never_listed() {
    let mut m = DiscoveryManager::new_fallback("me");
    m.add_manual_peer("me".to_string(), "Self".to_string(), IpAddress::V4([10, 0, 0, 1]), 1);
    assert!(!m.on_hello(&build_hello_packet("me", "Myself", 1), IpAddress::V4([10, 0, 0, 9])));
    assert!(m.on_service_resolved(Some("me".to_string()), None, "me.x".to_string(), vec![], 1).is_none());
    assert!(m.get_peers().is_empty());
    m.add_manual_peer("other".to_string(), "O".to_string(), IpAddress::V4([10, 0, 0, 1]), 1);
    assert_eq!(m.get_peers().len(), 1);
}

#[test]
fn second_start_keeps_peers_and_upgrades() {
    let mut e = Engine::new(DeviceIdentity::from_stamp("Desk", 7));
    e.start_discovery(false, false);
    let mut d = e.take_discovery().unwrap();
    d.add_manual_peer("p".to_string(), "P".to_string(), IpAddress::V4([10, 0, 0, 5]), 9);
    e.put_discovery(d);
    e.start_discovery(true, true);
    let d = e.discovery().unwrap();
    assert!(!d.is_fallback());
    assert_eq!(d.our_id().unwrap(), "0000000000000007");
    assert_eq!(d.get_peers().len(), 1);
}
