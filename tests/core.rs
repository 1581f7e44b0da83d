use std::str::FromStr;
use voidwarp_core::checksum::{calculate_chunk_checksum, calculate_chunk_checksum_raw, to_hex, verify_file_checksum};
use voidwarp_core::crypto::{DeviceIdentity, PairingCode, SessionKey};
use voidwarp_core::heartbeat::{
    create_ping_packet, create_pong_packet, is_heartbeat, ping_packet_at, HeartbeatManager,
    HEARTBEAT_MAGIC_0, HEARTBEAT_MAGIC_1, PACKET_PING, PACKET_PONG,
};
use voidwarp_core::sender::{SourceScan, TcpFileSender};

#[test]
fn it_works() {
    assert_eq!(2 + 2, 4);
}

#[test]
fn test_ping_packet() {
    let ping = create_ping_packet();
    assert_eq!(ping[0], HEARTBEAT_MAGIC_0);
    assert_eq!(ping[1], HEARTBEAT_MAGIC_1);
    assert_eq!(ping[2], PACKET_PING);
}

#[test]
fn crypto_test_pairing_code() {
    let code = PairingCode::generate();
    assert_eq!(code.raw().len(), 6);

    let display = code.display();
    assert!(display.contains('-'));

    let parsed = PairingCode::from_str("123456").unwrap();
    assert_eq!(parsed.raw(), "123456");

    assert!(PairingCode::from_str("12345").is_err());
    assert!(PairingCode::from_str("12345a").is_err());
}

#[test]
fn test_session_key_derivation() {
    let code = PairingCode::from_str("123456").unwrap();
    let salt = b"test_salt";

    let key1 = SessionKey::derive(&code, salt);
    let key2 = SessionKey::derive(&code, salt);

    assert_eq!(key1.as_bytes(), key2.as_bytes());

    let key3 = SessionKey::derive(&code, b"different_salt");
    assert_ne!(key1.as_bytes(), key3.as_bytes());
}

#[test]
fn ffi_test_pairing_code() {
    let code = PairingCode::generate().display();
    assert!(!code.is_empty());
    assert!(code.contains('-'));
}

#[test]
fn test_chunk_checksum() {
    let data = b"Hello, VoidWarp!";
    let checksum = calculate_chunk_checksum(data);
    assert!(!checksum.is_empty());
    assert_eq!(checksum.len(), 32);
}

#[test]
fn test_verify_checksum() {
    let checksum = calculate_chunk_checksum(b"Verify me");
    assert!(verify_file_checksum(&checksum, &checksum));
    assert!(!verify_file_checksum(&checksum, "wrong_hash"));
}

#[test]
fn test_sender_creation() {
    let content = b"Test content for sender";
    let scan = SourceScan::File { size: content.len() as u64, checksum: calculate_chunk_checksum(content) };
    let sender = TcpFileSender::new("/tmp/sender_test.txt", scan).unwrap();
    assert!(sender.file_size() > 0);
    assert!(!sender.checksum().is_empty());
}

#[test]
fn test_heartbeat_creation() {
    let hb = HeartbeatManager::new();
    assert!(!hb.is_running());
}

#[test]
fn md5_known_vectors() {
    assert_eq!(calculate_chunk_checksum(b""), "d41d8cd98f00b204e9800998ecf8427e");
    assert_eq!(calculate_chunk_checksum(b"abc"), "900150983cd24fb0d6963f7d28e17f72");
    let raw = calculate_chunk_checksum_raw(b"abc");
    assert_eq!(raw[0], 0x90);
    assert_eq!(raw[15], 0x72);
}

#[test]
fn hex_is_lowercase_two_digits_per_byte() {
    assert_eq!(to_hex(&[0x00, 0x0f, 0xa0, 0xff]), "000fa0ff");
    assert_eq!(to_hex(&[]), "");
}

#[test]
fn checksum_compare_ignores_case() {
    assert!(verify_file_checksum("ABCdef", "abcDEF"));
    assert!(!verify_file_checksum("abc", "abcd"));
    assert!(!verify_file_checksum("abc", "abd"));
}

#[test]
fn pairing_code_from_seed() {
    let c = PairingCode::from_seed(1234567);
    assert_eq!(c.raw(), "234567");
    assert_eq!(c.display(), "234-567");
    let z = PairingCode::from_seed(42);
    assert_eq!(z.raw(), "000042");
    assert_eq!(z.display(), "000-042");
}

#[test]
fn pairing_code_rejects_non_ascii_digits() {
    assert!(PairingCode::parse("１２３４５６").is_none());
    assert!(PairingCode::parse("1234567").is_none());
    assert!(PairingCode::parse("000000").is_some());
}

#[test]
fn device_identity_hex_id() {
    let id = DeviceIdentity::from_stamp("Desk", 0xabcd);
    assert_eq!(id.device_id, "000000000000abcd");
    assert_eq!(id.device_name, "Desk");
    let big = DeviceIdentity::from_stamp("Desk", 0x1_0000_0000_0000_0000);
    assert_eq!(big.device_id, "10000000000000000");
    let now = DeviceIdentity::generate("Test Device");
    assert_eq!(now.device_id.len(), 16);
    assert_eq!(now.device_name, "Test Device");
}

#[test]
fn heartbeat_packets() {
    let ping = ping_packet_at(0x0102030405060708);
    assert_eq!(ping, [0x56, 0x57, 0x01, 1, 2, 3, 4, 5, 6, 7, 8]);
    let pong = create_pong_packet(&ping[3..11]);
    assert_eq!(pong, [0x56, 0x57, 0x02, 1, 2, 3, 4, 5, 6, 7, 8]);
    assert!(is_heartbeat(&pong, PACKET_PONG));
    assert!(!is_heartbeat(&pong, PACKET_PING));
    assert!(!is_heartbeat(&pong[..10], PACKET_PONG));
}

#[test]
fn heartbeat_liveness() {
    let mut hb = HeartbeatManager::new();
    assert!(!hb.is_peer_alive(1000));
    hb.set_interval(100);
    assert!(hb.start(1000));
    assert!(!hb.start(2000));
    assert!(hb.is_peer_alive(1299));
    assert!(!hb.is_peer_alive(1300));
    hb.on_pong(1250);
    assert_eq!(hb.time_since_last_pong(1300), 50);
    assert_eq!(hb.time_since_last_pong(1200), 0);
    hb.stop();
    assert!(!hb.is_running());
}
