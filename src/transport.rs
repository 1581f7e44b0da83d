//! Framing of the keep-alive TCP service: `magic | type | payload_len | payload`, integers
//! little-endian. Sockets and threads live with the host.
use vstd::prelude::*;
use crate::wire::{get_le32, le32, push_le32, push_range, read_le32};

verus! {

/// Magic number that opens every packet.
pub const MAGIC: u32 = 0xDEADBEEF;

/// Length of a packet header.
pub const HEADER_LEN: usize = 9;

/// Largest payload accepted: 64 MiB.
pub const MAX_PAYLOAD_LEN: u32 = 67108864;

/// Kind of a keep-alive packet.
#[derive(Clone, Copy, Debug, PartialEq, Eq, Structural)]
pub enum PacketType {
    Ping,
    Pong,
    Offer,
    Accept,
    Reject,
    Data,
    Ack,
}

/// Wire code of a packet type.
pub open spec fn type_code(t: PacketType) -> u8 {
    match t {
        PacketType::Ping => 1,
        PacketType::Pong => 2,
        PacketType::Offer => 3,
        PacketType::Accept => 4,
        PacketType::Reject => 5,
        PacketType::Data => 6,
        PacketType::Ack => 7,
    }
}

impl PacketType {
    /// The packet type with wire code `value`, if any.
    pub fn from_u8(value: u8) -> (r: Option<PacketType>)
        ensures
            r is Some <==> 1 <= value <= 7,
            r matches Some(t) ==> type_code(t) == value,
    {
        match value {
            1 => Some(PacketType::Ping),
            2 => Some(PacketType::Pong),
            3 => Some(PacketType::Offer),
            4 => Some(PacketType::Accept),
            5 => Some(PacketType::Reject),
            6 => Some(PacketType::Data),
            7 => Some(PacketType::Ack),
            _ => None,
        }
    }

    /// The wire code.
    pub fn code(&self) -> (r: u8)
        ensures
            r == type_code(*self),
    {
        match self {
            PacketType::Ping => 1,
            PacketType::Pong => 2,
            PacketType::Offer => 3,
            PacketType::Accept => 4,
            PacketType::Reject => 5,
            PacketType::Data => 6,
            PacketType::Ack => 7,
        }
    }
}

#[derive(Clone, Copy, Debug, PartialEq, Eq, Structural)]
pub struct PacketHeader {
    pub packet_type: PacketType,
    pub payload_len: u32,
}

#[derive(Debug)]
pub struct Packet {
    pub header: PacketHeader,
    pub payload: Vec<u8>,
}

/// Why a header was refused.
#[derive(Clone, Copy, Debug, PartialEq, Eq, Structural)]
pub enum PacketError {
    Incomplete,
    InvalidMagic,
    InvalidType(u8),
    PayloadTooLarge(u32),
}

/// The wire form of a packet.
pub open spec fn packet_bytes(h: PacketHeader, payload: Seq<u8>) -> Seq<u8> {
    le32(MAGIC) + seq![type_code(h.packet_type)] + le32(h.payload_len) + payload
}

impl Packet {
    /// A packet of type `t` with no payload.
    pub fn empty(t: PacketType) -> (r: Packet)
        ensures
            r.header.packet_type == t,
            r.header.payload_len == 0,
            r.payload@ == Seq::<u8>::empty(),
    {
        Packet { header: PacketHeader { packet_type: t, payload_len: 0 }, payload: Vec::new() }
    }

    /// The wire form of the packet.
    pub fn encode(&self) -> (r: Vec<u8>)
        ensures
            r@ == packet_bytes(self.header, self.payload@),
    {
        let mut out: Vec<u8> = Vec::new();
        push_le32(&mut out, MAGIC);
        out.push(self.header.packet_type.code());
        push_le32(&mut out, self.header.payload_len);
        push_range(&mut out, self.payload.as_slice(), 0, self.payload.len());
        assert(self.payload@.subrange(0, self.payload@.len() as int) =~= self.payload@);
        assert(out@ =~= packet_bytes(self.header, self.payload@));
        out
    }
}

/// Reads a packet header: the magic must match, the type be known, the payload within 64 MiB.
pub fn decode_header(b: &[u8]) -> (r: Result<PacketHeader, PacketError>)
    ensures
        b@.len() < HEADER_LEN ==> r == Err::<PacketHeader, PacketError>(PacketError::Incomplete),
        b@.len() >= HEADER_LEN && read_le32(b@, 0) != MAGIC ==> r == Err::<PacketHeader, PacketError>(
            PacketError::InvalidMagic,
        ),
        b@.len() >= HEADER_LEN && read_le32(b@, 0) == MAGIC && !(1 <= b@[4] <= 7) ==> r == Err::<
            PacketHeader,
            PacketError,
        >(PacketError::InvalidType(b@[4])),
        b@.len() >= HEADER_LEN && read_le32(b@, 0) == MAGIC && 1 <= b@[4] <= 7 && read_le32(b@, 5)
            > MAX_PAYLOAD_LEN ==> r == Err::<PacketHeader, PacketError>(
            PacketError::PayloadTooLarge(read_le32(b@, 5)),
        ),
        r matches Ok(h) ==> b@.len() >= HEADER_LEN && read_le32(b@, 0) == MAGIC && type_code(
            h.packet_type,
        ) == b@[4] && h.payload_len == read_le32(b@, 5) && h.payload_len <= MAX_PAYLOAD_LEN,
        b@.len() >= HEADER_LEN && read_le32(b@, 0) == MAGIC && 1 <= b@[4] <= 7 && read_le32(b@, 5)
            <= MAX_PAYLOAD_LEN ==> r is Ok,
{
    if b.len() < HEADER_LEN {
        return Err(PacketError::Incomplete);
    }
    if get_le32(b, 0) != MAGIC {
        return Err(PacketError::InvalidMagic);
    }
    let t = match PacketType::from_u8(b[4]) {
        Some(t) => t,
        None => {
            return Err(PacketError::InvalidType(b[4]));
        },
    };
    let len = get_le32(b, 5);
    if len > MAX_PAYLOAD_LEN {
        return Err(PacketError::PayloadTooLarge(len));
    }
    Ok(PacketHeader { packet_type: t, payload_len: len })
}

/// Whether a keep-alive reply confirms a ping.
pub fn is_pong(h: &PacketHeader) -> (r: bool)
    ensures
        r == (h.packet_type == PacketType::Pong),
{
    h.packet_type == PacketType::Pong
}

} // verus!
