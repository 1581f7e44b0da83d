//! Peer discovery state: the UDP Hello beacon format, the table of known peers, and the
//! decisions taken on mDNS and beacon events. Sockets and the mDNS daemon live with the host.
use vstd::prelude::*;
use vstd::utf8::encode_utf8;
use crate::protocol::clamp;
use crate::text::{decode_string, decoded, lemma_utf8_round_trip, utf8_bytes};
use crate::wire::{be16, get_be16, lemma_be16_round_trip, push_be16, push_range, read_be16};

verus! {

/// mDNS service type under which devices advertise.
pub const SERVICE_TYPE: &'static str = "_voidwarp._udp.local.";

/// First byte of a beacon ("V").
pub const BEACON_MAGIC_0: u8 = 0x56;

/// Second byte of a beacon ("W").
pub const BEACON_MAGIC_1: u8 = 0x57;

/// Packet type of a Hello beacon.
pub const PACKET_TYPE_HELLO: u8 = 0x03;

/// An IP address as plain bytes.
#[derive(Clone, Copy, Debug)]
pub enum IpAddress {
    V4([u8; 4]),
    V6([u8; 16]),
}

/// An IP address and a port.
#[derive(Clone, Copy, Debug)]
pub struct SocketAddress {
    pub ip: IpAddress,
    pub port: u16,
}

/// A Hello beacon read from the network.
#[derive(Debug)]
pub struct HelloPeer {
    pub device_id: String,
    pub device_name: String,
    pub port: u16,
}

/// Content of a Hello beacon.
pub struct HelloView {
    pub device_id: Seq<char>,
    pub device_name: Seq<char>,
    pub port: u16,
}

impl View for HelloPeer {
    type V = HelloView;

    open spec fn view(&self) -> HelloView {
        HelloView { device_id: self.device_id@, device_name: self.device_name@, port: self.port }
    }
}

/// Wire form of a Hello beacon: `magic | type | port | id_len | id | name_len | name`, each
/// string clamped to 255 bytes.
pub open spec fn hello_bytes(device_id: Seq<char>, device_name: Seq<char>, port: u16) -> Seq<u8> {
    let i = clamp(encode_utf8(device_id), 255);
    let n = clamp(encode_utf8(device_name), 255);
    seq![BEACON_MAGIC_0, BEACON_MAGIC_1, PACKET_TYPE_HELLO] + be16(port) + seq![i.len() as u8] + i
        + seq![n.len() as u8] + n
}

/// What a listener makes of a datagram: `None` unless it is a whole Hello beacon.
pub open spec fn parse_hello(b: Seq<u8>) -> Option<HelloView> {
    if b.len() < 6 {
        None
    } else if b[0] != BEACON_MAGIC_0 || b[1] != BEACON_MAGIC_1 || b[2] != PACKET_TYPE_HELLO {
        None
    } else {
        let id_end = 6 + b[5] as int;
        if b.len() < id_end + 1 {
            None
        } else {
            let name_end = id_end + 1 + b[id_end] as int;
            if b.len() < name_end {
                None
            } else {
                Some(
                    HelloView {
                        device_id: decoded(b.subrange(6, id_end)),
                        device_name: decoded(b.subrange(id_end + 1, name_end)),
                        port: read_be16(b, 3),
                    },
                )
            }
        }
    }
}

fn push_clamped_255(out: &mut Vec<u8>, b: &Vec<u8>) -> (n: u8)
    ensures
        n as int == clamp(b@, 255).len(),
        final(out)@ == old(out)@ + clamp(b@, 255),
{
    let n: usize = if b.len() <= 255 {
        b.len()
    } else {
        255
    };
    push_range(out, b.as_slice(), 0, n);
    assert(b@.subrange(0, n as int) =~= clamp(b@, 255));
    n as u8
}

/// Builds the Hello beacon that advertises this device.
pub fn build_hello_packet(device_id: &str, device_name: &str, port: u16) -> (r: Vec<u8>)
    ensures
        r@ == hello_bytes(device_id@, device_name@, port),
{
    let id = utf8_bytes(device_id);
    let name = utf8_bytes(device_name);
    let mut out: Vec<u8> = Vec::new();
    out.push(BEACON_MAGIC_0);
    out.push(BEACON_MAGIC_1);
    out.push(PACKET_TYPE_HELLO);
    push_be16(&mut out, port);
    let id_len: u8 = if id.len() <= 255 {
        id.len() as u8
    } else {
        255
    };
    out.push(id_len);
    push_clamped_255(&mut out, &id);
    let name_len: u8 = if name.len() <= 255 {
        name.len() as u8
    } else {
        255
    };
    out.push(name_len);
    push_clamped_255(&mut out, &name);
    assert(out@ =~= hello_bytes(device_id@, device_name@, port));
    out
}

/// Reads a datagram; `None` if it is not a whole Hello beacon.
pub fn parse_hello_packet(buf: &[u8]) -> (r: Option<HelloPeer>)
    ensures
        r is Some <==> parse_hello(buf@) is Some,
        r matches Some(h) ==> parse_hello(buf@) == Some(h@),
{
    if buf.len() < 6 {
        return None;
    }
    if buf[0] != BEACON_MAGIC_0 || buf[1] != BEACON_MAGIC_1 || buf[2] != PACKET_TYPE_HELLO {
        return None;
    }
    let port = get_be16(buf, 3);
    let id_end = 6 + buf[5] as usize;
    if buf.len() < id_end + 1 {
        return None;
    }
    let name_end = id_end + 1 + buf[id_end] as usize;
    if buf.len() < name_end {
        return None;
    }
    let id_bytes = crate::wire::copy_range(buf, 6, id_end);
    let name_bytes = crate::wire::copy_range(buf, id_end + 1, name_end);
    let h = HelloPeer {
        device_id: decode_string(id_bytes.as_slice()),
        device_name: decode_string(name_bytes.as_slice()),
        port,
    };
    assert(h@ == parse_hello(buf@).unwrap());
    Some(h)
}

/// A beacon built for an id and a name of at most 255 bytes each reads back as the same id,
/// name and port.
pub proof fn lemma_hello_round_trip(device_id: Seq<char>, device_name: Seq<char>, port: u16)
    requires
        encode_utf8(device_id).len() <= 255,
        encode_utf8(device_name).len() <= 255,
    ensures
        parse_hello(hello_bytes(device_id, device_name, port)) == Some(
            HelloView { device_id, device_name, port },
        ),
{
    let i = encode_utf8(device_id);
    let n = encode_utf8(device_name);
    let b = hello_bytes(device_id, device_name, port);
    assert(clamp(i, 255) == i);
    assert(clamp(n, 255) == n);
    let id_end: int = 6 + i.len() as int;
    assert(b[5] as int == i.len());
    assert(b[id_end] as int == n.len());
    assert(b.subrange(6, id_end) =~= i);
    assert(b.subrange(id_end + 1, id_end + 1 + n.len()) =~= n);
    assert(b.subrange(3, 5) =~= be16(port));
    lemma_be16_round_trip(port);
    assert(read_be16(b, 3) == read_be16(be16(port), 0));
    lemma_utf8_round_trip(device_id);
    lemma_utf8_round_trip(device_name);
}

/// A beacon cut short inside its name, or before its name length, is not read.
pub proof fn lemma_truncated_hello_rejected(b: Seq<u8>)
    requires
        b.len() >= 6,
        b.len() < 7 + b[5] || b.len() < 7 + b[5] + b[6 + b[5] as int],
    ensures
        parse_hello(b) is None,
{
}

} // verus!
