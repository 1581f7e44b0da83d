//! MD5 digests of byte slices, in raw and lowercase-hex form.
use vstd::prelude::*;
use crate::text::{all_ascii, ascii_chars, ascii_string};
use vstd::utf8::encode_utf8;

verus! {

/// The 16-byte MD5 digest of `data`.
pub uninterp spec fn md5_of(data: Seq<u8>) -> Seq<u8>;

/// Relies on `md5::compute`: the 16 bytes of the MD5 digest of `data`.
#[verifier::external_body]
fn md5_digest(data: &[u8]) -> (r: [u8; 16])
    ensures
        r@ == md5_of(data@),
{
    md5::compute(data).0
}

/// ASCII code of the lowercase hex digit for `n < 16`.
pub open spec fn hex_digit(n: u8) -> u8 {
    if n < 10 {
        (48 + n) as u8
    } else {
        (87 + n) as u8
    }
}

/// Lowercase hex bytes of `b`, two digits per byte, high nibble first.
pub open spec fn hex_bytes(b: Seq<u8>) -> Seq<u8> {
    Seq::new(
        2 * b.len(),
        |i: int|
            if i % 2 == 0 {
                hex_digit(b[i / 2] / 16)
            } else {
                hex_digit(b[i / 2] % 16)
            },
    )
}

/// Lowercase hex text of `b`.
pub open spec fn hex_of(b: Seq<u8>) -> Seq<char> {
    ascii_chars(hex_bytes(b))
}

/// ASCII lowercase of one byte.
pub open spec fn ascii_lower(c: u8) -> u8 {
    if 65 <= c <= 90 {
        (c + 32) as u8
    } else {
        c
    }
}

/// Equal up to ASCII case.
pub open spec fn eq_ignore_case(a: Seq<u8>, b: Seq<u8>) -> bool {
    a.len() == b.len() && forall|i: int| 0 <= i < a.len() ==> ascii_lower(#[trigger] a[i]) == ascii_lower(b[i])
}

/// ASCII code of the lowercase hex digit for `n < 16`.
pub fn hex_digit_of(n: u8) -> (r: u8)
    requires
        n < 16,
    ensures
        r == hex_digit(n),
        r < 128,
{
    if n < 10 {
        48 + n
    } else {
        87 + n
    }
}

/// Lowercase hex text of `b`.
pub fn to_hex(b: &[u8]) -> (r: String)
    requires
        b@.len() < 0x4000_0000,
    ensures
        r@ == hex_of(b@),
{
    let mut out: Vec<u8> = Vec::new();
    let mut i: usize = 0;
    while i < b.len()
        invariant
            i <= b@.len() < 0x4000_0000,
            out@ == hex_bytes(b@).subrange(0, 2 * i as int),
        decreases b@.len() - i,
    {
        out.push(hex_digit_of(b[i] / 16));
        out.push(hex_digit_of(b[i] % 16));
        i += 1;
        assert(out@ =~= hex_bytes(b@).subrange(0, 2 * i as int));
    }
    assert(out@ =~= hex_bytes(b@));
    assert(all_ascii(out@));
    ascii_string(out.as_slice())
}

/// Raw 16-byte MD5 of a chunk.
pub fn calculate_chunk_checksum_raw(data: &[u8]) -> (r: [u8; 16])
    ensures
        r@ == md5_of(data@),
{
    md5_digest(data)
}

/// Lowercase-hex MD5 of a chunk (32 characters).
pub fn calculate_chunk_checksum(data: &[u8]) -> (r: String)
    ensures
        r@ == hex_of(md5_of(data@)),
        r@.len() == 32,
{
    let d = md5_digest(data);
    to_hex(&d)
}

fn lower_byte(c: u8) -> (r: u8)
    ensures
        r == ascii_lower(c),
{
    if 65 <= c && c <= 90 {
        c + 32
    } else {
        c
    }
}

/// Compares a computed hex checksum with an expected one, ignoring ASCII case.
pub fn verify_file_checksum(actual: &str, expected: &str) -> (r: bool)
    ensures
        r == eq_ignore_case(encode_utf8(actual@), encode_utf8(expected@)),
{
    let a = actual.as_bytes();
    let b = expected.as_bytes();
    if a.len() != b.len() {
        return false;
    }
    let mut i: usize = 0;
    while i < a.len()
        invariant
            a@.len() == b@.len(),
            i <= a@.len(),
            a@ == encode_utf8(actual@),
            b@ == encode_utf8(expected@),
            forall|j: int| 0 <= j < i ==> ascii_lower(#[trigger] a@[j]) == ascii_lower(b@[j]),
        decreases a@.len() - i,
    {
        if lower_byte(a[i]) != lower_byte(b[i]) {
            return false;
        }
        i += 1;
    }
    true
}

/// Different byte strings have different hex text.
pub proof fn lemma_hex_injective(a: Seq<u8>, b: Seq<u8>)
    requires
        hex_of(a) == hex_of(b),
    ensures
        a == b,
{
    assert forall|k: int| 0 <= k < hex_bytes(a).len() implies #[trigger] hex_bytes(a)[k] < 128 by {
        assert(a[k / 2] / 16 < 16 && a[k / 2] % 16 < 16);
    }
    assert forall|k: int| 0 <= k < hex_bytes(b).len() implies #[trigger] hex_bytes(b)[k] < 128 by {
        assert(b[k / 2] / 16 < 16 && b[k / 2] % 16 < 16);
    }
    crate::text::lemma_ascii_utf8(hex_bytes(a));
    crate::text::lemma_ascii_utf8(hex_bytes(b));
    assert(hex_bytes(a) == hex_bytes(b));
    assert(hex_bytes(a).len() == 2 * a.len());
    assert(a.len() == b.len());
    assert forall|i: int| 0 <= i < a.len() implies a[i] == b[i] by {
        assert(hex_bytes(a)[2 * i] == hex_bytes(b)[2 * i]);
        assert(hex_bytes(a)[2 * i + 1] == hex_bytes(b)[2 * i + 1]);
        assert((2 * i) / 2 == i && (2 * i) % 2 == 0 && (2 * i + 1) / 2 == i && (2 * i + 1) % 2 == 1);
        let x = a[i];
        let y = b[i];
        assert(hex_digit(x / 16) == hex_digit(y / 16));
        assert(hex_digit(x % 16) == hex_digit(y % 16));
        assert(x / 16 == y / 16);
        assert(x % 16 == y % 16);
        assert(x == 16 * (x / 16) + x % 16);
        assert(y == 16 * (y / 16) + y % 16);
    }
    assert(a =~= b);
}

} // verus!
