//! Pairing codes, session keys and device identities.
use vstd::prelude::*;
use vstd::array::ArrayAdditionalExecFns;
use std::hash::{Hash, Hasher};
use vstd::utf8::encode_utf8;
use crate::text::{all_ascii, ascii_chars, ascii_string, lemma_ascii_utf8, utf8_bytes};

verus! {

broadcast use vstd::utf8::group_utf8_lib;

/// Errors of the pairing layer.
#[derive(Clone, Copy, Debug, PartialEq, Eq, Structural)]
pub enum CryptoError {
    KeyGenFailed,
    EncryptionFailed,
    DecryptionFailed,
    InvalidKeyLength,
}

impl CryptoError {
    /// A description of the error.
    pub fn message(&self) -> (r: &'static str) {
        match self {
            CryptoError::KeyGenFailed => "Key generation failed",
            CryptoError::EncryptionFailed => "Encryption failed",
            CryptoError::DecryptionFailed => "Decryption failed",
            CryptoError::InvalidKeyLength => "Invalid key length",
        }
    }
}

/// Nanoseconds since the Unix epoch on the system clock (0 if the clock is before it).
#[verifier::external_body]
fn unix_nanos() -> (r: u128) {
    std::time::SystemTime::now().duration_since(std::time::UNIX_EPOCH).unwrap_or_default().as_nanos()
}

/// ASCII decimal digit.
pub open spec fn is_digit(b: u8) -> bool {
    48 <= b <= 57
}

/// Six ASCII decimal digits.
pub open spec fn is_code(b: Seq<u8>) -> bool {
    b.len() == 6 && forall|i: int| 0 <= i < 6 ==> is_digit(#[trigger] b[i])
}

/// The six zero-padded decimal digits of `n < 1_000_000`.
pub open spec fn six_digits(n: int) -> Seq<u8> {
    Seq::new(6, |i: int| (48 + (n / pow10(5 - i)) % 10) as u8)
}

pub open spec fn pow10(e: int) -> int
    decreases e,
{
    if e <= 0 {
        1
    } else {
        10 * pow10(e - 1)
    }
}

pub proof fn lemma_pow10_pos(e: int)
    ensures
        pow10(e) >= 1,
    decreases e,
{
    if e > 0 {
        lemma_pow10_pos(e - 1);
    }
}

/// A six-digit pairing code.
#[derive(Debug, Clone)]
pub struct PairingCode {
    code: String,
}

impl PairingCode {
    /// The code's characters.
    pub closed spec fn spec_code(&self) -> Seq<char> {
        self.code@
    }

    pub open spec fn wf(&self) -> bool {
        is_code(encode_utf8(self.spec_code()))
    }

    /// The code made of the last six decimal digits of `seed`.
    pub fn from_seed(seed: u128) -> (r: PairingCode)
        ensures
            r.wf(),
            encode_utf8(r.spec_code()) == six_digits(seed as int % 1000000),
    {
        let n = (seed % 1000000) as u32;
        let mut digits: Vec<u8> = Vec::new();
        let mut div: u32 = 100000;
        let mut i: usize = 0;
        proof {
            reveal_with_fuel(pow10, 6);
        }
        while i < 6
            invariant
                i <= 6,
                div >= 1,
                n < 1000000,
                n == seed as int % 1000000,
                div as int == pow10(5 - i as int),
                digits@ == six_digits(n as int).subrange(0, i as int),
            decreases 6 - i,
        {
            let d = ((n / div) % 10) as u8;
            digits.push(48 + d);
            proof {
                assert(digits@ =~= six_digits(n as int).subrange(0, i + 1));
            }
            if i < 5 {
                proof {
                    assert(pow10(5 - i as int) == 10 * pow10(5 - (i + 1) as int));
                    lemma_pow10_pos(5 - (i + 1) as int);
                }
                div = div / 10;
            }
            i += 1;
        }
        assert(digits@ =~= six_digits(n as int));
        assert(all_ascii(digits@));
        proof {
            lemma_ascii_utf8(digits@);
        }
        let code = ascii_string(digits.as_slice());
        PairingCode { code }
    }

    /// A code derived from the system clock; any six digits may come out.
    pub fn generate() -> (r: PairingCode)
        ensures
            r.wf(),
    {
        PairingCode::from_seed(unix_nanos())
    }

    /// A code entered by the user: exactly six ASCII digits.
    pub fn parse(s: &str) -> (r: Option<PairingCode>)
        ensures
            r is Some <==> is_code(encode_utf8(s@)),
            r matches Some(c) ==> c.wf() && c.spec_code() == s@,
    {
        let b = utf8_bytes(s);
        if b.len() != 6 {
            return None;
        }
        let mut i: usize = 0;
        while i < 6
            invariant
                i <= 6,
                b@.len() == 6,
                b@ == encode_utf8(s@),
                forall|j: int| 0 <= j < i ==> is_digit(#[trigger] b@[j]),
            decreases 6 - i,
        {
            if b[i] < 48 || b[i] > 57 {
                assert(!is_digit(b@[i as int]));
                return None;
            }
            i += 1;
        }
        Some(PairingCode { code: s.to_owned() })
    }

    /// The code as shown to the user: `123-456`.
    pub fn display(&self) -> (r: String)
        requires
            self.wf(),
        ensures
            r@ == self.spec_code().take(3) + "-"@ + self.spec_code().skip(3),
    {
        let b = utf8_bytes(self.code.as_str());
        let mut out: Vec<u8> = Vec::new();
        out.push(b[0]);
        out.push(b[1]);
        out.push(b[2]);
        out.push(45);
        out.push(b[3]);
        out.push(b[4]);
        out.push(b[5]);
        assert(all_ascii(out@));
        proof {
            lemma_ascii_utf8(b@);
            reveal_strlit("-");
            assert(self.spec_code() == ascii_chars(b@));
        }
        let r = ascii_string(out.as_slice());
        assert(r@ =~= self.spec_code().take(3) + "-"@ + self.spec_code().skip(3));
        r
    }

    /// The code's digits.
    pub fn raw(&self) -> (r: &str)
        ensures
            r@ == self.spec_code(),
    {
        self.code.as_str()
    }
}

impl std::str::FromStr for PairingCode {
    type Err = CryptoError;

    fn from_str(s: &str) -> Result<Self, Self::Err> {
        match PairingCode::parse(s) {
            Some(c) => Ok(c),
            None => Err(CryptoError::KeyGenFailed),
        }
    }
}

/// The hash that `DefaultHasher::new` gives for a code, a salt and a byte index.
pub uninterp spec fn pairing_hash(code: Seq<char>, salt: Seq<u8>, index: u64) -> u64;

/// Relies on `std::hash::DefaultHasher` (`new`, then `hash` of the code, the salt and the
/// index, then `finish`): every hasher made by `new` hashes alike, so the result depends on
/// the inputs alone.
#[verifier::external_body]
fn default_hash(code: &str, salt: &[u8], index: u64) -> (r: u64)
    ensures
        r == pairing_hash(code@, salt@, index),
{
    let mut hasher = std::hash::DefaultHasher::new();
    code.hash(&mut hasher);
    salt.hash(&mut hasher);
    index.hash(&mut hasher);
    hasher.finish()
}

/// A 32-byte session key.
#[derive(Debug)]
pub struct SessionKey {
    key: [u8; 32],
}

impl SessionKey {
    pub closed spec fn spec_key(&self) -> Seq<u8> {
        self.key@
    }

    /// Derives a key from a pairing code and a salt: byte `i` is the low byte of the hash of
    /// the code, the salt and `i`.
    pub fn derive(pairing_code: &PairingCode, salt: &[u8]) -> (r: SessionKey)
        ensures
            r.spec_key().len() == 32,
            forall|i: int| 0 <= i < 32 ==> #[trigger] r.spec_key()[i] == (pairing_hash(
                pairing_code.spec_code(),
                salt@,
                i as u64,
            ) & 0xff) as u8,
    {
        let mut key = [0u8; 32];
        let mut i: usize = 0;
        while i < 32
            invariant
                i <= 32,
                key@.len() == 32,
                forall|j: int| 0 <= j < i ==> #[trigger] key@[j] == (pairing_hash(
                    pairing_code.spec_code(),
                    salt@,
                    j as u64,
                ) & 0xff) as u8,
            decreases 32 - i,
        {
            let h = default_hash(pairing_code.raw(), salt, i as u64);
            key.set(i, (h & 0xff) as u8);
            i += 1;
        }
        SessionKey { key }
    }

    /// The key bytes.
    pub fn as_bytes(&self) -> (r: &[u8; 32])
        ensures
            r@ == self.spec_key(),
    {
        &self.key
    }
}

/// Lowercase hex digits of `n`, at least `width` of them (zero-padded on the left).
pub open spec fn hex_padded(n: nat, width: nat) -> Seq<u8>
    decreases n + width,
{
    if width == 0 && n == 0 {
        Seq::empty()
    } else {
        let w: nat = if width > 0 { (width - 1) as nat } else { 0 };
        hex_padded(n / 16, w).push(crate::checksum::hex_digit((n % 16) as u8))
    }
}

/// This device's identity.
#[derive(Debug, Clone)]
pub struct DeviceIdentity {
    pub device_id: String,
    pub device_name: String,
}

impl DeviceIdentity {
    /// The identity of a device named `name` whose id is the lowercase hex of `stamp`, padded
    /// to sixteen digits.
    pub fn from_stamp(name: &str, stamp: u128) -> (r: DeviceIdentity)
        ensures
            r.device_name@ == name@,
            r.device_id@ == ascii_chars(hex_padded(stamp as nat, 16)),
    {
        let mut digits: Vec<u8> = Vec::new();
        let mut n = stamp;
        let mut width: usize = 16;
        while width > 0 || n > 0
            invariant
                width <= 16,
                hex_padded(stamp as nat, 16) == hex_padded(n as nat, width as nat) + digits@,
                all_ascii(digits@),
            decreases n, width,
        {
            let d = crate::checksum::hex_digit_of((n % 16) as u8);
            let ghost old_digits = digits@;
            let ghost w: nat = if width > 0 { (width - 1) as nat } else { 0 };
            proof {
                assert(hex_padded(n as nat, width as nat) == hex_padded((n / 16) as nat, w).push(d));
            }
            digits.insert(0, d);
            proof {
                assert(digits@ =~= seq![d] + old_digits);
                assert(hex_padded((n / 16) as nat, w).push(d) + old_digits =~= hex_padded(
                    (n / 16) as nat,
                    w,
                ) + digits@);
            }
            n = n / 16;
            if width > 0 {
                width = width - 1;
            }
        }
        assert(hex_padded(0, 0) =~= Seq::<u8>::empty());
        assert(digits@ =~= hex_padded(stamp as nat, 16));
        DeviceIdentity { device_id: ascii_string(digits.as_slice()), device_name: name.to_owned() }
    }

    /// A new identity named `name`, with an id taken from the system clock: at least sixteen
    /// lowercase hex digits (exactly sixteen until the clock passes 2^64 ns).
    pub fn generate(name: &str) -> (r: DeviceIdentity)
        ensures
            r.device_name@ == name@,
            r.device_id@.len() >= 16,
            exists|b: Seq<u8>|
                #![trigger ascii_chars(b)]
                r.device_id@ == ascii_chars(b) && b.len() >= 16 && forall|i: int|
                    0 <= i < b.len() ==> is_lower_hex(#[trigger] b[i]),
    {
        let stamp = unix_nanos();
        proof {
            lemma_hex_padded_len(stamp as nat, 16);
            lemma_hex_padded_digits(stamp as nat, 16);
        }
        DeviceIdentity::from_stamp(name, stamp)
    }
}

/// ASCII code of a lowercase hex digit.
pub open spec fn is_lower_hex(b: u8) -> bool {
    (48 <= b <= 57) || (97 <= b <= 102)
}

pub proof fn lemma_hex_padded_digits(n: nat, width: nat)
    ensures
        forall|i: int| 0 <= i < hex_padded(n, width).len() ==> is_lower_hex(#[trigger] hex_padded(n, width)[i]),
    decreases n + width,
{
    if !(width == 0 && n == 0) {
        let w: nat = if width > 0 { (width - 1) as nat } else { 0 };
        lemma_hex_padded_digits(n / 16, w);
        let d = (n % 16) as u8;
        assert(is_lower_hex(crate::checksum::hex_digit(d)));
        assert forall|i: int| 0 <= i < hex_padded(n, width).len() implies is_lower_hex(#[trigger] hex_padded(n, width)[i]) by {
            if i < hex_padded(n / 16, w).len() {
                assert(hex_padded(n, width)[i] == hex_padded(n / 16, w)[i]);
            }
        }
    }
}

pub proof fn lemma_hex_padded_len(n: nat, width: nat)
    ensures
        hex_padded(n, width).len() >= width,
    decreases n + width,
{
    if !(width == 0 && n == 0) {
        let w: nat = if width > 0 { (width - 1) as nat } else { 0 };
        lemma_hex_padded_len(n / 16, w);
    }
}

} // verus!
