//! Byte-exact encoders and decoders for the transfer stream: the handshake, chunk frames,
//! chunk acknowledgements and the folder manifest frame.
use vstd::prelude::*;
use vstd::utf8::encode_utf8;
use crate::checksum::{calculate_chunk_checksum_raw, md5_of};
use crate::text::{decode_string, decoded, lemma_utf8_round_trip, utf8_bytes};
use crate::wire::{
    be16, be32, be64, get_be16, get_be32, get_be64, lemma_be16_round_trip, lemma_be32_round_trip,
    lemma_be64_round_trip, push_be16, push_be32, push_be64, push_range, read_be16, read_be32,
    read_be64,
};

verus! {

/// Version byte that opens every handshake.
pub const PROTOCOL_VERSION: u8 = 1;

/// What a transfer carries.
#[derive(Clone, Copy, Debug, PartialEq, Eq, Structural)]
pub enum TransferType {
    SingleFile,
    Folder,
}

/// Wire byte of a transfer type.
pub open spec fn transfer_type_byte(t: TransferType) -> u8 {
    match t {
        TransferType::SingleFile => 0,
        TransferType::Folder => 1,
    }
}

/// Offer sent by the sender before any data.
#[derive(Clone, Debug)]
pub struct HandshakeRequest {
    pub version: u8,
    pub sender_name: String,
    pub file_name: String,
    pub file_size: u64,
    pub chunk_size: u32,
    pub file_checksum: String,
    pub transfer_type: TransferType,
}

/// The content of a handshake, with its strings as characters.
pub struct HandshakeView {
    pub version: u8,
    pub sender_name: Seq<char>,
    pub file_name: Seq<char>,
    pub file_size: u64,
    pub chunk_size: u32,
    pub file_checksum: Seq<char>,
    pub transfer_type: TransferType,
}

impl View for HandshakeRequest {
    type V = HandshakeView;

    open spec fn view(&self) -> HandshakeView {
        HandshakeView {
            version: self.version,
            sender_name: self.sender_name@,
            file_name: self.file_name@,
            file_size: self.file_size,
            chunk_size: self.chunk_size,
            file_checksum: self.file_checksum@,
            transfer_type: self.transfer_type,
        }
    }
}

/// Why bytes do not hold a handshake.
#[derive(Clone, Copy, Debug, PartialEq, Eq, Structural)]
pub enum HandshakeError {
    /// More bytes are needed.
    Incomplete,
    /// The first byte is not the supported version.
    VersionMismatch(u8),
    /// The last byte names no transfer type.
    UnknownTransferType(u8),
}

/// The first `max` bytes of `b`, or all of them.
pub open spec fn clamp(b: Seq<u8>, max: nat) -> Seq<u8> {
    if b.len() <= max {
        b
    } else {
        b.subrange(0, max as int)
    }
}

/// The wire form of a handshake: string lengths are clamped to 255 / 65535 / 255 bytes.
pub open spec fn handshake_bytes(h: HandshakeView) -> Seq<u8> {
    let s = clamp(encode_utf8(h.sender_name), 255);
    let f = clamp(encode_utf8(h.file_name), 65535);
    let c = clamp(encode_utf8(h.file_checksum), 255);
    seq![h.version, s.len() as u8] + s + be16(f.len() as u16) + f + be64(h.file_size) + be32(
        h.chunk_size,
    ) + seq![c.len() as u8] + c + seq![transfer_type_byte(h.transfer_type)]
}

/// What a reader makes of the start of `b`: the handshake and the number of bytes it spans.
pub open spec fn parse_handshake(b: Seq<u8>) -> Result<(HandshakeView, int), HandshakeError> {
    if b.len() < 1 {
        Err(HandshakeError::Incomplete)
    } else if b[0] != PROTOCOL_VERSION {
        Err(HandshakeError::VersionMismatch(b[0]))
    } else if b.len() < 2 {
        Err(HandshakeError::Incomplete)
    } else {
        let sl = b[1] as int;
        if b.len() < 4 + sl {
            Err(HandshakeError::Incomplete)
        } else {
            let fl = read_be16(b, 2 + sl) as int;
            let p = 4 + sl + fl;
            if b.len() < p + 13 {
                Err(HandshakeError::Incomplete)
            } else {
                let cl = b[p + 12] as int;
                if b.len() < p + 14 + cl {
                    Err(HandshakeError::Incomplete)
                } else {
                    let t = b[p + 13 + cl];
                    if t > 1 {
                        Err(HandshakeError::UnknownTransferType(t))
                    } else {
                        Ok(
                            (
                                HandshakeView {
                                    version: b[0],
                                    sender_name: decoded(b.subrange(2, 2 + sl)),
                                    file_name: decoded(b.subrange(4 + sl, p)),
                                    file_size: read_be64(b, p),
                                    chunk_size: read_be32(b, p + 8),
                                    file_checksum: decoded(b.subrange(p + 13, p + 13 + cl)),
                                    transfer_type: if t == 0 {
                                        TransferType::SingleFile
                                    } else {
                                        TransferType::Folder
                                    },
                                },
                                p + 14 + cl,
                            ),
                        )
                    }
                }
            }
        }
    }
}

/// The strings fit their length fields.
pub open spec fn fits_wire(h: HandshakeView) -> bool {
    &&& encode_utf8(h.sender_name).len() <= 255
    &&& encode_utf8(h.file_name).len() <= 65535
    &&& encode_utf8(h.file_checksum).len() <= 255
}

fn push_clamped(out: &mut Vec<u8>, b: &Vec<u8>, max: usize) -> (n: usize)
    ensures
        n == clamp(b@, max as nat).len(),
        final(out)@ == old(out)@ + clamp(b@, max as nat),
{
    let n = if b.len() <= max {
        b.len()
    } else {
        max
    };
    push_range(out, b.as_slice(), 0, n);
    assert(b@.subrange(0, n as int) =~= clamp(b@, max as nat));
    n
}

impl HandshakeRequest {
    pub fn new(
        sender_name: &str,
        file_name: &str,
        file_size: u64,
        chunk_size: u32,
        file_checksum: &str,
        transfer_type: TransferType,
    ) -> (r: Self)
        ensures
            r.version == PROTOCOL_VERSION,
            r.sender_name@ == sender_name@,
            r.file_name@ == file_name@,
            r.file_size == file_size,
            r.chunk_size == chunk_size,
            r.file_checksum@ == file_checksum@,
            r.transfer_type == transfer_type,
    {
        HandshakeRequest {
            version: PROTOCOL_VERSION,
            sender_name: sender_name.to_owned(),
            file_name: file_name.to_owned(),
            file_size,
            chunk_size,
            file_checksum: file_checksum.to_owned(),
            transfer_type,
        }
    }

    /// Appends the wire form of the handshake.
    #[verifier::rlimit(50)]
    pub fn write_to(&self, out: &mut Vec<u8>)
        ensures
            final(out)@ == old(out)@ + handshake_bytes(self@),
    {
        let sender = utf8_bytes(self.sender_name.as_str());
        let fname = utf8_bytes(self.file_name.as_str());
        let check = utf8_bytes(self.file_checksum.as_str());
        let ghost s = clamp(sender@, 255);
        let ghost f = clamp(fname@, 65535);
        let ghost c = clamp(check@, 255);
        out.push(self.version);
        let sl: u8 = if sender.len() <= 255 {
            sender.len() as u8
        } else {
            255
        };
        out.push(sl);
        push_clamped(out, &sender, 255);
        let fl: u16 = if fname.len() <= 65535 {
            fname.len() as u16
        } else {
            65535
        };
        push_be16(out, fl);
        push_clamped(out, &fname, 65535);
        push_be64(out, self.file_size);
        push_be32(out, self.chunk_size);
        let cl: u8 = if check.len() <= 255 {
            check.len() as u8
        } else {
            255
        };
        out.push(cl);
        push_clamped(out, &check, 255);
        let t: u8 = match self.transfer_type {
            TransferType::SingleFile => 0,
            TransferType::Folder => 1,
        };
        out.push(t);
        assert(final(out)@ =~= old(out)@ + handshake_bytes(self@));
    }

    /// The wire form of the handshake.
    pub fn to_bytes(&self) -> (r: Vec<u8>)
        ensures
            r@ == handshake_bytes(self@),
    {
        let mut out: Vec<u8> = Vec::new();
        self.write_to(&mut out);
        assert(out@ =~= handshake_bytes(self@));
        out
    }

    /// Reads a handshake from the start of `buf`; on success also returns how many bytes it spans.
    pub fn read_from(buf: &[u8]) -> (r: Result<(HandshakeRequest, usize), HandshakeError>)
        ensures
            parse_handshake(buf@) is Ok <==> r is Ok,
            r matches Ok((h, n)) ==> parse_handshake(buf@) == Ok::<(HandshakeView, int), HandshakeError>(
                (h@, n as int),
            ),
            r matches Err(e) ==> parse_handshake(buf@) == Err::<(HandshakeView, int), HandshakeError>(e),
    {
        let len = buf.len();
        if len < 1 {
            return Err(HandshakeError::Incomplete);
        }
        let version = buf[0];
        if version != PROTOCOL_VERSION {
            return Err(HandshakeError::VersionMismatch(version));
        }
        if len < 2 {
            return Err(HandshakeError::Incomplete);
        }
        let sl = buf[1] as usize;
        if len < 4 + sl {
            return Err(HandshakeError::Incomplete);
        }
        let fl = get_be16(buf, 2 + sl) as usize;
        let p = 4 + sl + fl;
        if len < p + 13 {
            return Err(HandshakeError::Incomplete);
        }
        let cl = buf[p + 12] as usize;
        if len < p + 14 + cl {
            return Err(HandshakeError::Incomplete);
        }
        let t = buf[p + 13 + cl];
        if t > 1 {
            return Err(HandshakeError::UnknownTransferType(t));
        }
        let sender_bytes = crate::wire::copy_range(buf, 2, 2 + sl);
        let fname_bytes = crate::wire::copy_range(buf, 4 + sl, p);
        let check_bytes = crate::wire::copy_range(buf, p + 13, p + 13 + cl);
        let h = HandshakeRequest {
            version,
            sender_name: decode_string(sender_bytes.as_slice()),
            file_name: decode_string(fname_bytes.as_slice()),
            file_size: get_be64(buf, p),
            chunk_size: get_be32(buf, p + 8),
            file_checksum: decode_string(check_bytes.as_slice()),
            transfer_type: if t == 0 {
                TransferType::SingleFile
            } else {
                TransferType::Folder
            },
        };
        let n = p + 14 + cl;
        assert(h@ == parse_handshake(buf@).unwrap().0);
        Ok((h, n))
    }
}

/// Encoding a handshake whose version is the supported one and whose strings fit their length
/// fields, then decoding the bytes, gives back the same handshake and consumes all of its bytes;
/// bytes that follow are left alone.
pub proof fn lemma_handshake_round_trip(h: HandshakeView, rest: Seq<u8>)
    requires
        h.version == PROTOCOL_VERSION,
        fits_wire(h),
    ensures
        parse_handshake(handshake_bytes(h) + rest) == Ok::<(HandshakeView, int), HandshakeError>(
            (h, handshake_bytes(h).len() as int),
        ),
{
    let s = encode_utf8(h.sender_name);
    let f = encode_utf8(h.file_name);
    let c = encode_utf8(h.file_checksum);
    let w = handshake_bytes(h);
    let b = w + rest;
    let sl = s.len() as int;
    let fl = f.len() as int;
    let cl = c.len() as int;
    let p = 4 + sl + fl;
    assert(clamp(s, 255) == s);
    assert(clamp(f, 65535) == f);
    assert(clamp(c, 255) == c);
    assert(w.len() == p + 14 + cl);
    lemma_be16_round_trip(fl as u16);
    lemma_be32_round_trip(h.chunk_size);
    lemma_be64_round_trip(h.file_size);
    assert(b[1] as int == sl);
    assert(b.subrange(2 + sl, 4 + sl) =~= be16(fl as u16));
    assert(read_be16(b, 2 + sl) == read_be16(be16(fl as u16), 0));
    assert(b.subrange(p, p + 8) =~= be64(h.file_size));
    assert(read_be64(b, p) == read_be64(be64(h.file_size), 0));
    assert(b.subrange(p + 8, p + 12) =~= be32(h.chunk_size));
    assert(read_be32(b, p + 8) == read_be32(be32(h.chunk_size), 0));
    assert(b[p + 12] as int == cl);
    assert(b.subrange(2, 2 + sl) =~= s);
    assert(b.subrange(4 + sl, p) =~= f);
    assert(b.subrange(p + 13, p + 13 + cl) =~= c);
    lemma_utf8_round_trip(h.sender_name);
    lemma_utf8_round_trip(h.file_name);
    lemma_utf8_round_trip(h.file_checksum);
    let t = b[p + 13 + cl];
    assert(t == transfer_type_byte(h.transfer_type));
    let v = parse_handshake(b).unwrap().0;
    assert(v.transfer_type == h.transfer_type);
    assert(v == h);
}

/// A handshake whose first byte is not the supported version is refused.
pub proof fn lemma_handshake_version_checked(b: Seq<u8>)
    requires
        b.len() >= 1,
        b[0] != PROTOCOL_VERSION,
    ensures
        parse_handshake(b) == Err::<(HandshakeView, int), HandshakeError>(
            HandshakeError::VersionMismatch(b[0]),
        ),
{
}

/// Length of the header that opens a chunk frame: index (8) and data length (4).
pub const CHUNK_HEADER_LEN: usize = 12;

/// Length of the MD5 digest that closes a chunk frame.
pub const DIGEST_LEN: usize = 16;

/// Length of a chunk acknowledgement: index (8) and status (1).
pub const ACK_LEN: usize = 9;

/// Acknowledgement status of a chunk whose digest matched.
pub const ACK_OK: u8 = 0;

/// Acknowledgement status of a chunk whose digest did not match.
pub const ACK_CHECKSUM_MISMATCH: u8 = 1;

/// The wire form of a chunk frame: `index | len | data | digest`.
pub open spec fn chunk_frame_bytes(index: u64, data: Seq<u8>, digest: Seq<u8>) -> Seq<u8> {
    be64(index) + be32(data.len() as u32) + data + digest
}

/// The start of a chunk frame.
#[derive(Clone, Copy, Debug, PartialEq, Eq, Structural)]
pub struct ChunkHeader {
    pub index: u64,
    pub len: u32,
}

/// A whole chunk frame read back: index, data and the digest that came with it.
pub open spec fn parse_chunk_frame(b: Seq<u8>) -> Option<(u64, Seq<u8>, Seq<u8>)> {
    if b.len() < 12 {
        None
    } else {
        let n = read_be32(b, 8) as int;
        if b.len() < 12 + n + 16 {
            None
        } else {
            Some((read_be64(b, 0), b.subrange(12, 12 + n), b.subrange(12 + n, 28 + n)))
        }
    }
}

/// Status that a receiver answers for a chunk with the digest that came with it.
pub open spec fn chunk_status(data: Seq<u8>, digest: Seq<u8>) -> u8 {
    if md5_of(data) == digest {
        ACK_OK
    } else {
        ACK_CHECKSUM_MISMATCH
    }
}

/// The wire form of an acknowledgement.
pub open spec fn ack_bytes(index: u64, status: u8) -> Seq<u8> {
    be64(index) + seq![status]
}

/// A chunk frame for `data`, with its MD5 digest.
pub fn encode_chunk_frame(index: u64, data: &[u8]) -> (r: Vec<u8>)
    requires
        data@.len() <= u32::MAX,
    ensures
        r@ == chunk_frame_bytes(index, data@, md5_of(data@)),
{
    let digest = calculate_chunk_checksum_raw(data);
    let mut out: Vec<u8> = Vec::new();
    push_be64(&mut out, index);
    push_be32(&mut out, data.len() as u32);
    push_range(&mut out, data, 0, data.len());
    push_range(&mut out, &digest, 0, 16);
    assert(data@.subrange(0, data@.len() as int) =~= data@);
    assert(digest@.subrange(0, 16) =~= digest@);
    assert(out@ =~= chunk_frame_bytes(index, data@, md5_of(data@)));
    out
}

/// Reads the 12-byte header of a chunk frame.
pub fn decode_chunk_header(b: &[u8]) -> (r: Option<ChunkHeader>)
    ensures
        r is Some <==> b@.len() >= CHUNK_HEADER_LEN,
        r matches Some(h) ==> h.index == read_be64(b@, 0) && h.len == read_be32(b@, 8),
{
    if b.len() < CHUNK_HEADER_LEN {
        None
    } else {
        Some(ChunkHeader { index: get_be64(b, 0), len: get_be32(b, 8) })
    }
}

/// Status for a received chunk: ok when the MD5 of `data` equals `digest`.
pub fn verify_chunk(data: &[u8], digest: &[u8]) -> (status: u8)
    ensures
        status == chunk_status(data@, digest@),
{
    let actual = calculate_chunk_checksum_raw(data);
    if digest.len() != 16 {
        return ACK_CHECKSUM_MISMATCH;
    }
    let mut i: usize = 0;
    while i < 16
        invariant
            i <= 16,
            digest@.len() == 16,
            actual@.len() == 16,
            actual@ == md5_of(data@),
            forall|j: int| 0 <= j < i ==> actual@[j] == digest@[j],
        decreases 16 - i,
    {
        if actual[i] != digest[i] {
            assert(actual@[i as int] != digest@[i as int]);
            return ACK_CHECKSUM_MISMATCH;
        }
        i += 1;
    }
    assert(actual@ =~= digest@);
    ACK_OK
}

/// The acknowledgement of chunk `index`.
pub fn encode_ack(index: u64, status: u8) -> (r: Vec<u8>)
    ensures
        r@ == ack_bytes(index, status),
{
    let mut out: Vec<u8> = Vec::new();
    push_be64(&mut out, index);
    out.push(status);
    assert(out@ =~= ack_bytes(index, status));
    out
}

/// Reads an acknowledgement: index and status.
pub fn decode_ack(b: &[u8]) -> (r: Option<(u64, u8)>)
    ensures
        r is Some <==> b@.len() >= ACK_LEN,
        r matches Some((i, s)) ==> i == read_be64(b@, 0) && s == b@[8],
{
    if b.len() < ACK_LEN {
        None
    } else {
        Some((get_be64(b, 0), b[8]))
    }
}

/// A chunk frame read back holds the index, data and digest it was written with; the
/// receiver's status for it is ok.
pub proof fn lemma_chunk_frame_round_trip(index: u64, data: Seq<u8>)
    requires
        data.len() <= u32::MAX,
        md5_of(data).len() == 16,
    ensures
        parse_chunk_frame(chunk_frame_bytes(index, data, md5_of(data))) == Some(
            (index, data, md5_of(data)),
        ),
        chunk_status(data, md5_of(data)) == ACK_OK,
{
    let b = chunk_frame_bytes(index, data, md5_of(data));
    lemma_be64_round_trip(index);
    lemma_be32_round_trip(data.len() as u32);
    assert(b.subrange(0, 8) =~= be64(index));
    assert(read_be64(b, 0) == read_be64(be64(index), 0));
    assert(b.subrange(8, 12) =~= be32(data.len() as u32));
    assert(read_be32(b, 8) == read_be32(be32(data.len() as u32), 0));
    let n = data.len() as int;
    assert(b.subrange(12, 12 + n) =~= data);
    assert(b.subrange(12 + n, 28 + n) =~= md5_of(data));
}

/// An acknowledgement read back holds the index and status it was written with.
pub proof fn lemma_ack_round_trip(index: u64, status: u8)
    ensures
        read_be64(ack_bytes(index, status), 0) == index,
        ack_bytes(index, status)[8] == status,
        ack_bytes(index, status).len() == ACK_LEN,
{
    let b = ack_bytes(index, status);
    lemma_be64_round_trip(index);
    assert(b.subrange(0, 8) =~= be64(index));
    assert(read_be64(b, 0) == read_be64(be64(index), 0));
}

/// One file of a folder transfer.
#[derive(Clone, Debug)]
pub struct ManifestItem {
    /// Relative path with `/` separators.
    pub path: String,
    pub size: u64,
    /// Lowercase-hex MD5 of the file.
    pub hash: String,
}

/// The files of a folder transfer, in the order their bytes follow on the wire.
#[derive(Clone, Debug)]
pub struct TransferManifest {
    pub items: Vec<ManifestItem>,
    pub total_size: u64,
}

/// Largest manifest a receiver accepts: 100 MiB.
pub const MAX_MANIFEST_LEN: u32 = 104857600;

/// The manifest frame at the start of a folder stream: `len | json`.
pub open spec fn manifest_frame_bytes(json: Seq<u8>) -> Seq<u8> {
    be32(json.len() as u32) + json
}

/// Frames the manifest JSON.
pub fn frame_manifest(json: &[u8]) -> (r: Vec<u8>)
    requires
        json@.len() <= u32::MAX,
    ensures
        r@ == manifest_frame_bytes(json@),
        r@.len() == 4 + json@.len(),
{
    let mut out: Vec<u8> = Vec::new();
    push_be32(&mut out, json.len() as u32);
    push_range(&mut out, json, 0, json.len());
    assert(json@.subrange(0, json@.len() as int) =~= json@);
    out
}

/// Sum of sizes.
pub open spec fn sum_sizes(s: Seq<u64>) -> int
    decreases s.len(),
{
    if s.len() == 0 {
        0
    } else {
        sum_sizes(s.drop_last()) + s.last()
    }
}

pub proof fn lemma_sum_sizes_nonneg(s: Seq<u64>)
    ensures
        sum_sizes(s) >= 0,
    decreases s.len(),
{
    if s.len() > 0 {
        lemma_sum_sizes_nonneg(s.drop_last());
    }
}

/// Sum of `sizes`, or `None` where it does not fit in a `u64`.
pub fn total_of(sizes: &[u64]) -> (r: Option<u64>)
    ensures
        r is Some <==> sum_sizes(sizes@) <= u64::MAX,
        r matches Some(t) ==> t == sum_sizes(sizes@),
{
    let mut total: u64 = 0;
    let mut i: usize = 0;
    while i < sizes.len()
        invariant
            i <= sizes@.len(),
            total == sum_sizes(sizes@.subrange(0, i as int)),
        decreases sizes@.len() - i,
    {
        assert(sizes@.subrange(0, i + 1).drop_last() =~= sizes@.subrange(0, i as int));
        if total > u64::MAX - sizes[i] {
            proof {
                lemma_sum_prefix_monotone(sizes@, i + 1);
            }
            return None;
        }
        total = total + sizes[i];
        i += 1;
    }
    assert(sizes@.subrange(0, i as int) =~= sizes@);
    Some(total)
}

pub proof fn lemma_sum_prefix_monotone(s: Seq<u64>, k: int)
    requires
        0 <= k <= s.len(),
    ensures
        sum_sizes(s.subrange(0, k)) <= sum_sizes(s),
    decreases s.len() - k,
{
    if k < s.len() {
        lemma_sum_prefix_monotone(s, k + 1);
        assert(s.subrange(0, k + 1).drop_last() =~= s.subrange(0, k));
    } else {
        assert(s.subrange(0, k) =~= s);
    }
}

/// Stream length of a folder transfer: the 4-byte frame header, the manifest JSON, then every
/// file's bytes.
pub open spec fn folder_stream_len(manifest_len: int, sizes: Seq<u64>) -> int {
    4 + manifest_len + sum_sizes(sizes)
}

/// Stream length of a folder transfer, or `None` where it does not fit in a `u64`.
pub fn folder_transfer_size(manifest_len: usize, sizes: &[u64]) -> (r: Option<u64>)
    ensures
        r is Some <==> folder_stream_len(manifest_len as int, sizes@) <= u64::MAX,
        r matches Some(t) ==> t == folder_stream_len(manifest_len as int, sizes@),
{
    proof {
        lemma_sum_sizes_nonneg(sizes@);
    }
    match total_of(sizes) {
        None => None,
        Some(t) => {
            if manifest_len as u64 > u64::MAX - 4 || t > u64::MAX - 4 - manifest_len as u64 {
                None
            } else {
                Some(4 + manifest_len as u64 + t)
            }
        },
    }
}

} // verus!
