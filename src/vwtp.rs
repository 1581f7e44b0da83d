//! Packet format of the experimental reliable-UDP transport: a header of flags, connection id
//! and packet number (little-endian), then the payload. Buffers are those of the `bytes` crate.
use vstd::prelude::*;
use bytes::{Buf, BufMut, Bytes, BytesMut};
use crate::wire::{le64, lemma_le64_round_trip, read_le64};

verus! {

#[verifier::external_type_specification]
#[verifier::external_body]
pub struct ExBytes(Bytes);

#[verifier::external_type_specification]
#[verifier::external_body]
pub struct ExBytesMut(BytesMut);

/// The bytes a `Bytes` holds.
pub uninterp spec fn bytes_view(b: Bytes) -> Seq<u8>;

/// The bytes a `BytesMut` holds.
pub uninterp spec fn bytes_mut_view(b: BytesMut) -> Seq<u8>;

/// Largest length of a `BytesMut` (an allocation is at most `isize::MAX` bytes).
pub open spec fn max_buffer_len() -> int {
    0x7fff_ffff_ffff_ffff
}

/// Relies on `BytesMut::new`: an empty buffer.
#[verifier::external_body]
fn new_buffer() -> (r: BytesMut)
    ensures
        bytes_mut_view(r) == Seq::<u8>::empty(),
{
    BytesMut::new()
}

/// Relies on `BufMut::put_u8` for `BytesMut`: appends the byte.
#[verifier::external_body]
fn put_u8(buf: &mut BytesMut, n: u8)
    requires
        bytes_mut_view(*old(buf)).len() + 1 <= max_buffer_len(),
    ensures
        bytes_mut_view(*final(buf)) == bytes_mut_view(*old(buf)).push(n),
{
    buf.put_u8(n)
}

/// Relies on `BufMut::put_u64_le` for `BytesMut`: appends the 8 little-endian bytes.
#[verifier::external_body]
fn put_u64_le(buf: &mut BytesMut, n: u64)
    requires
        bytes_mut_view(*old(buf)).len() + 8 <= max_buffer_len(),
    ensures
        bytes_mut_view(*final(buf)) == bytes_mut_view(*old(buf)) + le64(n),
{
    buf.put_u64_le(n)
}

/// Relies on `BufMut::put` for `BytesMut` with a `Bytes` source: appends its bytes.
#[verifier::external_body]
fn put_bytes(buf: &mut BytesMut, src: Bytes)
    requires
        bytes_mut_view(*old(buf)).len() + bytes_view(src).len() <= max_buffer_len(),
    ensures
        bytes_mut_view(*final(buf)) == bytes_mut_view(*old(buf)) + bytes_view(src),
{
    buf.put(src)
}

/// Relies on `Clone` for `Bytes`: the copy holds the same bytes.
pub assume_specification[ <Bytes as Clone>::clone ](b: &Bytes) -> (r: Bytes)
    ensures
        bytes_view(r) == bytes_view(*b),
;

/// Relies on `Buf::remaining` for `Bytes`: the number of bytes left.
#[verifier::external_body]
fn remaining(b: &Bytes) -> (r: usize)
    ensures
        r == bytes_view(*b).len(),
{
    b.remaining()
}

/// Relies on `Buf::get_u8` for `Bytes`: takes the first byte.
#[verifier::external_body]
fn get_u8(b: &mut Bytes) -> (r: u8)
    requires
        bytes_view(*old(b)).len() >= 1,
    ensures
        r == bytes_view(*old(b))[0],
        bytes_view(*final(b)) == bytes_view(*old(b)).skip(1),
{
    b.get_u8()
}

/// Relies on `Buf::get_u64_le` for `Bytes`: takes the first 8 bytes, little-endian.
#[verifier::external_body]
fn get_u64_le(b: &mut Bytes) -> (r: u64)
    requires
        bytes_view(*old(b)).len() >= 8,
    ensures
        r == read_le64(bytes_view(*old(b)), 0),
        bytes_view(*final(b)) == bytes_view(*old(b)).skip(8),
{
    b.get_u64_le()
}

/// Packet type (low four bits of the flags).
#[derive(Debug, Clone, Copy, PartialEq, Eq, Structural)]
pub enum PacketType {
    Initial,
    Handshake,
    Data,
    Ack,
    KeepAlive,
    Close,
    Unknown,
}

/// Wire code of a packet type.
pub open spec fn type_code(t: PacketType) -> u8 {
    match t {
        PacketType::Initial => 0x00,
        PacketType::Handshake => 0x01,
        PacketType::Data => 0x02,
        PacketType::Ack => 0x03,
        PacketType::KeepAlive => 0x04,
        PacketType::Close => 0x05,
        PacketType::Unknown => 0xFF,
    }
}

/// The packet type that the low four bits of `byte` name.
pub open spec fn type_of(byte: u8) -> PacketType {
    let c = byte & 0x0Fu8;
    if c == 0 {
        PacketType::Initial
    } else if c == 1 {
        PacketType::Handshake
    } else if c == 2 {
        PacketType::Data
    } else if c == 3 {
        PacketType::Ack
    } else if c == 4 {
        PacketType::KeepAlive
    } else if c == 5 {
        PacketType::Close
    } else {
        PacketType::Unknown
    }
}

impl PacketType {
    /// The packet type of a flags byte.
    pub fn from_byte(byte: u8) -> (r: PacketType)
        ensures
            r == type_of(byte),
    {
        match byte & 0x0F {
            0x00 => PacketType::Initial,
            0x01 => PacketType::Handshake,
            0x02 => PacketType::Data,
            0x03 => PacketType::Ack,
            0x04 => PacketType::KeepAlive,
            0x05 => PacketType::Close,
            _ => PacketType::Unknown,
        }
    }

    pub fn code(&self) -> (r: u8)
        ensures
            r == type_code(*self),
    {
        match self {
            PacketType::Initial => 0x00,
            PacketType::Handshake => 0x01,
            PacketType::Data => 0x02,
            PacketType::Ack => 0x03,
            PacketType::KeepAlive => 0x04,
            PacketType::Close => 0x05,
            PacketType::Unknown => 0xFF,
        }
    }
}

/// Header: flags (type, and bit 4 for the key phase), connection id, packet number.
#[derive(Debug, Clone, Copy, PartialEq, Eq, Structural)]
pub struct Header {
    pub packet_type: PacketType,
    pub key_phase: bool,
    pub connection_id: u64,
    pub packet_number: u64,
}

/// Length of a header.
pub const HEADER_SIZE: usize = 17;

/// Flags byte of a header.
pub open spec fn flags_of(h: Header) -> u8 {
    if h.key_phase {
        type_code(h.packet_type) | 0x10u8
    } else {
        type_code(h.packet_type)
    }
}

/// Wire form of a header.
pub open spec fn header_bytes(h: Header) -> Seq<u8> {
    seq![flags_of(h)] + le64(h.connection_id) + le64(h.packet_number)
}

/// Why a packet could not be read.
#[derive(Debug, Clone, Copy, PartialEq, Eq, Structural)]
pub enum PacketError {
    /// Fewer bytes than a header.
    Incomplete,
    /// The flags name no packet type.
    InvalidType(u8),
}

/// What a reader makes of bytes: the header, or why not.
pub open spec fn parse_header(b: Seq<u8>) -> Result<Header, PacketError> {
    if b.len() < HEADER_SIZE {
        Err(PacketError::Incomplete)
    } else if type_of(b[0]) == PacketType::Unknown {
        Err(PacketError::InvalidType(b[0]))
    } else {
        Ok(
            Header {
                packet_type: type_of(b[0]),
                key_phase: b[0] & 0x10u8 != 0,
                connection_id: read_le64(b, 1),
                packet_number: read_le64(b, 9),
            },
        )
    }
}

impl Header {
    /// Appends the header.
    pub fn encode(&self, buf: &mut BytesMut)
        requires
            bytes_mut_view(*old(buf)).len() + HEADER_SIZE <= max_buffer_len(),
        ensures
            bytes_mut_view(*final(buf)) == bytes_mut_view(*old(buf)) + header_bytes(*self),
    {
        let mut flags = self.packet_type.code();
        if self.key_phase {
            flags = flags | 0x10;
        }
        put_u8(buf, flags);
        put_u64_le(buf, self.connection_id);
        put_u64_le(buf, self.packet_number);
        assert(bytes_mut_view(*buf) =~= bytes_mut_view(*old(buf)) + header_bytes(*self));
    }

    /// Takes a header from the front of `buf`.
    pub fn decode(buf: &mut Bytes) -> (r: Result<Header, PacketError>)
        ensures
            r == parse_header(bytes_view(*old(buf))),
            r is Ok ==> bytes_view(*final(buf)) == bytes_view(*old(buf)).skip(HEADER_SIZE as int),
    {
        if remaining(buf) < HEADER_SIZE {
            return Err(PacketError::Incomplete);
        }
        let ghost b0 = bytes_view(*buf);
        let flags = get_u8(buf);
        let packet_type = PacketType::from_byte(flags);
        if packet_type == PacketType::Unknown {
            return Err(PacketError::InvalidType(flags));
        }
        let key_phase = (flags & 0x10) != 0;
        let ghost b1 = bytes_view(*buf);
        let connection_id = get_u64_le(buf);
        proof {
            assert(b1.subrange(0, 8) =~= b0.subrange(1, 9));
            assert(read_le64(b1, 0) == read_le64(b0, 1));
        }
        let ghost b2 = bytes_view(*buf);
        let packet_number = get_u64_le(buf);
        proof {
            assert(read_le64(b2, 0) == read_le64(b0, 9));
            assert(bytes_view(*buf) =~= b0.skip(HEADER_SIZE as int));
        }
        Ok(Header { packet_type, key_phase, connection_id, packet_number })
    }
}

/// A header read back holds what was written, for every known packet type.
pub proof fn lemma_header_round_trip(h: Header)
    requires
        h.packet_type != PacketType::Unknown,
    ensures
        parse_header(header_bytes(h)) == Ok::<Header, PacketError>(h),
{
    let b = header_bytes(h);
    let c = type_code(h.packet_type);
    assert(c <= 5);
    assert((c | 0x10u8) & 0x0Fu8 == c && (c | 0x10u8) & 0x10u8 != 0 && c & 0x0Fu8 == c && c & 0x10u8
        == 0) by (bit_vector)
        requires
            c <= 5,
    ;
    lemma_le64_round_trip(h.connection_id);
    lemma_le64_round_trip(h.packet_number);
    assert(b.subrange(1, 9) =~= le64(h.connection_id));
    assert(b.subrange(9, 17) =~= le64(h.packet_number));
    assert(read_le64(b, 1) == read_le64(le64(h.connection_id), 0));
    assert(read_le64(b, 9) == read_le64(le64(h.packet_number), 0));
}

/// A header and its payload.
#[derive(Debug, Clone, PartialEq, Eq)]
pub struct Packet {
    pub header: Header,
    pub payload: Bytes,
}

impl Packet {
    /// Appends the packet: header, then payload.
    pub fn encode(&self, buf: &mut BytesMut)
        requires
            bytes_mut_view(*old(buf)).len() + HEADER_SIZE + bytes_view(self.payload).len() <= max_buffer_len(),
        ensures
            bytes_mut_view(*final(buf)) == bytes_mut_view(*old(buf)) + header_bytes(self.header)
                + bytes_view(self.payload),
    {
        self.header.encode(buf);
        put_bytes(buf, self.payload.clone());
    }

    /// The packet in a new buffer; `None` when header and payload together exceed what one
    /// buffer can hold.
    pub fn to_bytes(&self) -> (r: Option<BytesMut>)
        ensures
            r is Some <==> HEADER_SIZE + bytes_view(self.payload).len() <= max_buffer_len(),
            r matches Some(b) ==> bytes_mut_view(b) == header_bytes(self.header) + bytes_view(self.payload),
    {
        let n = remaining(&self.payload);
        if n as u64 > 0x7fff_ffff_ffff_ffffu64 - HEADER_SIZE as u64 {
            return None;
        }
        let mut buf = new_buffer();
        self.encode(&mut buf);
        assert(bytes_mut_view(buf) =~= header_bytes(self.header) + bytes_view(self.payload));
        Some(buf)
    }

    /// Reads a packet: a header, and the remaining bytes as payload.
    pub fn decode(buf: Bytes) -> (r: Result<Packet, PacketError>)
        ensures
            parse_header(bytes_view(buf)) is Ok <==> r is Ok,
            r matches Err(e) ==> parse_header(bytes_view(buf)) == Err::<Header, PacketError>(e),
            r matches Ok(p) ==> parse_header(bytes_view(buf)) == Ok::<Header, PacketError>(p.header)
                && bytes_view(p.payload) == bytes_view(buf).skip(HEADER_SIZE as int),
    {
        let mut buf = buf;
        let header = match Header::decode(&mut buf) {
            Ok(h) => h,
            Err(e) => {
                return Err(e);
            },
        };
        Ok(Packet { header, payload: buf })
    }
}

} // verus!
