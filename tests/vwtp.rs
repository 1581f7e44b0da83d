use bytes::{Bytes, BytesMut};
use voidwarp_core::connection::{Connection, ConnectionState, TransportConfig};
use voidwarp_core::discovery::{IpAddress, SocketAddress};
use voidwarp_core::vwtp::{Header, Packet, PacketError, PacketType, HEADER_SIZE};

#[test]
fn test_encode_decode_data() {
    let header = Header {
        packet_type: PacketType::Data,
        key_phase: true,
        connection_id: 0x1234567890ABCDEF,
        packet_number: 1,
    };
    let payload = Bytes::from_static(b"Hello VoidWarp");
    let packet = Packet { header: header.clone(), payload: payload.clone() };

    let mut buf = BytesMut::new();
    packet.encode(&mut buf);

    assert_eq!(buf.len(), HEADER_SIZE + payload.len());

    let decoded = Packet::decode(buf.freeze()).expect("Decode failed");
    assert_eq!(decoded, packet);
    assert_eq!(decoded.header.packet_type, PacketType::Data);
    assert!(decoded.header.key_phase);
}

#[test]
fn vwtp_header_layout_and_errors() {
    let header = Header { packet_type: PacketType::Ack, key_phase: false, connection_id: 0x0102, packet_number: 3 };
    let mut buf = BytesMut::new();
    header.encode(&mut buf);
    assert_eq!(&buf[..], &[0x03, 0x02, 0x01, 0, 0, 0, 0, 0, 0, 3, 0, 0, 0, 0, 0, 0, 0]);
    let mut short = Bytes::from_static(&[0x02, 0, 0]);
    assert_eq!(Header::decode(&mut short), Err(PacketError::Incomplete));
    let mut bad = Bytes::from(vec![0x1f; 17]);
    assert_eq!(Header::decode(&mut bad), Err(PacketError::InvalidType(0x1f)));
    assert_eq!(PacketType::from_byte(0x15), PacketType::Close);
    assert_eq!(PacketType::from_byte(0x06), PacketType::Unknown);
}

#[test]
fn test_connection_lifecycle() {
    let addr = SocketAddress { ip: IpAddress::V4([127, 0, 0, 1]), port: 8080 };
    let mut conn = Connection::new(12345, addr, 0);

    assert_eq!(conn.state, ConnectionState::Idle);
    assert_eq!(conn.alloc_pkt_num(), 0);
    assert_eq!(conn.alloc_pkt_num(), 1);

    conn.record_sent(0, vec![1, 2, 3], 10);
    assert!(conn.pending_acks.contains_key(&0));

    conn.acknowledge(0, 90);
    assert!(!conn.pending_acks.contains_key(&0));
    assert_eq!(conn.highest_acked, 0);
    assert_eq!(conn.rtt_ms, (100 * 7 + 80) / 8);
}

#[test]
fn connection_retransmission() {
    let addr = SocketAddress { ip: IpAddress::V4([10, 0, 0, 1]), port: 9 };
    let mut conn = Connection::new(1, addr, 0);
    conn.record_sent(5, vec![9], 0);
    conn.record_sent(6, vec![8], 100);
    let mut overdue = conn.get_retransmit_candidates(151);
    overdue.sort();
    assert_eq!(overdue, vec![5]);
    assert!(conn.is_overdue(5, 151));
    assert!(!conn.is_overdue(6, 151));
    assert_eq!(conn.mark_retransmit(5, 200), Some(vec![9]));
    assert_eq!(conn.pending_acks[&5].retries, 1);
    assert_eq!(conn.mark_retransmit(7, 200), None);
    assert!(!conn.is_timed_out(30_100));
    assert!(conn.is_timed_out(30_101));
    let c = TransportConfig::default();
    assert_eq!((c.max_retries, c.max_connections), (5, 100));
}
