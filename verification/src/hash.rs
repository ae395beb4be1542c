//! SHA-256 forensic hashes: computation, chaining and the lowercase hex form.
//!
//! SHA-256 itself is computed by the `sha2` crate and the hex text by the
//! `hex` crate; what those crates return is stated by the trusted items below.

use vstd::prelude::*;
use vstd::string::*;
use vstd::utf8::{encode_utf8, is_ascii_chars, is_ascii_chars_encode_utf8};
use sha2::Digest;
use crate::error::{OracleError, OracleResult};
use crate::text::{concat, decimal, decimal_string};

verus! {

broadcast use vstd::string::group_string_axioms;

// ── Specifications ───────────────────────────────────────────────────────────

/// The SHA-256 digest of `data`.
pub uninterp spec fn sha256_of(data: Seq<u8>) -> Seq<u8>;

/// The lowercase hexadecimal digit for `n` (`0 <= n < 16`).
pub open spec fn hex_digit(n: int) -> char {
    if n < 10 {
        ((48 + n) as u32) as char
    } else {
        ((87 + n) as u32) as char
    }
}

/// The lowercase hexadecimal text of `b`: two digits per byte, high nibble first.
pub open spec fn hex_lower(b: Seq<u8>) -> Seq<char> {
    Seq::new(
        2 * b.len(),
        |i: int|
            if i % 2 == 0 {
                hex_digit(b[i / 2] as int / 16)
            } else {
                hex_digit(b[i / 2] as int % 16)
            },
    )
}

/// `c` is an ASCII hexadecimal digit, in either case.
pub open spec fn is_hex_byte(c: u8) -> bool {
    (48 <= c && c <= 57) || (65 <= c && c <= 70) || (97 <= c && c <= 102)
}

/// The value of the hexadecimal digit `c`.
pub open spec fn hex_value(c: u8) -> int {
    if 48 <= c && c <= 57 {
        c - 48
    } else if 65 <= c && c <= 70 {
        c - 55
    } else {
        c - 87
    }
}

/// `d` is an even number of hexadecimal digits.
pub open spec fn is_hex_text(d: Seq<u8>) -> bool {
    d.len() % 2 == 0 && forall|i: int| 0 <= i < d.len() ==> is_hex_byte(#[trigger] d[i])
}

/// The bytes that the hexadecimal digits `d` denote, two digits per byte.
pub open spec fn hex_decoded(d: Seq<u8>) -> Seq<u8> {
    Seq::new(d.len() / 2, |i: int| (hex_value(d[2 * i]) * 16 + hex_value(d[2 * i + 1])) as u8)
}

/// The concatenation of all `parts`, in order.
pub open spec fn joined(parts: Seq<Seq<u8>>) -> Seq<u8>
    decreases parts.len(),
{
    if parts.len() == 0 {
        Seq::empty()
    } else {
        joined(parts.drop_last()) + parts.last()
    }
}

/// Thirty-two zero bytes: the genesis hash.
pub open spec fn genesis_bytes() -> Seq<u8> {
    Seq::new(32, |i: int| 0u8)
}

// ── Outside types and calls ──────────────────────────────────────────────────

/// The error type of `hex::decode`.
#[verifier::external_type_specification]
#[verifier::external_body]
pub struct ExFromHexError(hex::FromHexError);

/// Calls `sha2::Sha256::digest`. The result is named `sha256_of` of the input
/// bytes: SHA-256 depends on the bytes alone. Nothing else is stated of it.
#[verifier::external_body]
fn sha256_digest(data: &[u8]) -> (r: [u8; 32])
    ensures
        r@ == sha256_of(data@),
{
    sha2::Sha256::digest(data).into()
}

/// Calls `hex::encode`, which writes each byte as two lowercase hexadecimal
/// digits, high nibble first (the table `0123456789abcdef` in the crate).
#[verifier::external_body]
fn hex_encode(data: &[u8]) -> (r: String)
    ensures
        r@ == hex_lower(data@),
{
    hex::encode(data)
}

/// Calls `hex::decode`, which fails on an odd length or on a byte that is not
/// a hexadecimal digit of either case, and otherwise combines each pair of
/// digits into a byte, high nibble first. Which error it returns is not stated.
#[verifier::external_body]
fn hex_decode(data: &[u8]) -> (r: Result<Vec<u8>, hex::FromHexError>)
    ensures
        r is Ok <==> is_hex_text(data@),
        r matches Ok(v) ==> v@ == hex_decoded(data@),
{
    hex::decode(data)
}

// ── ForensicHash ─────────────────────────────────────────────────────────────

/// A SHA-256 hash value: 32 raw bytes.
#[derive(Debug, Clone, PartialEq, Eq)]
pub struct ForensicHash {
    bytes: [u8; 32],
}

/// The reason text of a hash that decodes to the wrong number of bytes.
pub open spec fn wrong_length_reason(n: nat) -> Seq<char> {
    "Hash must be 32 bytes, got "@ + decimal(n)
}

impl ForensicHash {
    /// The 32 bytes of the hash.
    pub closed spec fn value(&self) -> Seq<u8> {
        self.bytes@
    }

    /// Every hash has exactly 32 bytes.
    pub proof fn lemma_len(&self)
        ensures
            self.value().len() == 32,
    {
    }

    /// The genesis hash (all zeros): the predecessor of the first chain entry.
    pub fn genesis() -> (h: ForensicHash)
        ensures
            h.value() == genesis_bytes(),
    {
        let h = ForensicHash { bytes: [0u8; 32] };
        assert(h.bytes@ =~= genesis_bytes());
        h
    }

    /// The SHA-256 hash of `data`.
    pub fn from_bytes(data: &[u8]) -> (h: ForensicHash)
        ensures
            h.value() == sha256_of(data@),
    {
        ForensicHash { bytes: sha256_digest(data) }
    }

    /// The SHA-256 hash of all `parts` concatenated in order.
    pub fn from_chain(parts: &[&[u8]]) -> (h: ForensicHash)
        ensures
            h.value() == sha256_of(joined(parts@.map_values(|p: &[u8]| p@))),
    {
        let ghost views = parts@.map_values(|p: &[u8]| p@);
        let mut all: Vec<u8> = Vec::new();
        let mut i: usize = 0;
        while i < parts.len()
            invariant
                0 <= i <= parts.len(),
                views == parts@.map_values(|p: &[u8]| p@),
                all@ == joined(views.take(i as int)),
            decreases parts.len() - i,
        {
            let part = parts[i];
            let ghost before = all@;
            let mut k: usize = 0;
            while k < part.len()
                invariant
                    0 <= k <= part.len(),
                    all@ == before + part@.take(k as int),
                decreases part.len() - k,
            {
                all.push(part[k]);
                assert(part@.take(k + 1) == part@.take(k as int).push(part@[k as int]));
                k = k + 1;
            }
            assert(part@.take(part.len() as int) == part@);
            assert(views.take(i + 1).drop_last() == views.take(i as int));
            assert(views[i as int] == part@);
            i = i + 1;
        }
        assert(views.take(parts.len() as int) == views);
        ForensicHash { bytes: sha256_digest(all.as_slice()) }
    }

    /// The hash as 64 lowercase hexadecimal digits.
    pub fn to_hex(&self) -> (s: String)
        ensures
            s@ == hex_lower(self.value()),
    {
        hex_encode(&self.bytes)
    }

    /// Parses the hexadecimal text of a hash (either case).
    ///
    /// Fails with `SerializationError` if `s` is not an even number of
    /// hexadecimal digits, or if it does not denote exactly 32 bytes.
    pub fn from_hex(s: &str) -> (r: OracleResult<ForensicHash>)
        ensures
            r is Ok <==> is_hex_text(s.spec_bytes()) && s.spec_bytes().len() == 64,
            r matches Ok(h) ==> h.value() == hex_decoded(s.spec_bytes()),
            !is_hex_text(s.spec_bytes()) ==> r matches Err(OracleError::SerializationError { .. }),
            is_hex_text(s.spec_bytes()) && s.spec_bytes().len() != 64 ==> (r matches Err(
                OracleError::SerializationError { reason },
            ) && reason@ == wrong_length_reason(s.spec_bytes().len() / 2)),
    {
        let data = s.as_bytes();
        match hex_decode(data) {
            Err(e) => {
                let msg = e.to_string();
                let reason = concat("Invalid hex hash string: ", msg.as_str());
                Err(OracleError::SerializationError { reason })
            },
            Ok(decoded) => {
                if decoded.len() != 32 {
                    let n = decimal_string(decoded.len() as u64);
                    let reason = concat("Hash must be 32 bytes, got ", n.as_str());
                    return Err(OracleError::SerializationError { reason });
                }
                let mut bytes = [0u8; 32];
                let mut i: usize = 0;
                while i < 32
                    invariant
                        0 <= i <= 32,
                        decoded@.len() == 32,
                        forall|k: int| 0 <= k < i ==> bytes@[k] == decoded@[k],
                    decreases 32 - i,
                {
                    bytes.set(i, decoded[i]);
                    i = i + 1;
                }
                assert(bytes@ =~= decoded@);
                Ok(ForensicHash { bytes })
            },
        }
    }

    /// The raw 32 bytes of the hash.
    pub fn as_bytes(&self) -> (b: &[u8; 32])
        ensures
            b@ == self.value(),
    {
        &self.bytes
    }

    /// Whether this is the genesis (all-zero) hash.
    pub fn is_genesis(&self) -> (r: bool)
        ensures
            r == (self.value() == genesis_bytes()),
    {
        let mut i: usize = 0;
        while i < 32
            invariant
                0 <= i <= 32,
                forall|k: int| 0 <= k < i ==> self.bytes@[k] == 0,
            decreases 32 - i,
        {
            if self.bytes[i] != 0 {
                assert(self.bytes@[i as int] != genesis_bytes()[i as int]);
                return false;
            }
            i = i + 1;
        }
        assert(self.bytes@ =~= genesis_bytes());
        true
    }

    /// Whether two hashes are equal.
    pub fn same_as(&self, other: &ForensicHash) -> (r: bool)
        ensures
            r == (self.value() == other.value()),
    {
        let mut i: usize = 0;
        while i < 32
            invariant
                0 <= i <= 32,
                forall|k: int| 0 <= k < i ==> self.bytes@[k] == other.bytes@[k],
            decreases 32 - i,
        {
            if self.bytes[i] != other.bytes[i] {
                return false;
            }
            i = i + 1;
        }
        assert(self.bytes@ =~= other.bytes@);
        true
    }
}

/// The lowercase hex text of any bytes is ASCII: its UTF-8 bytes are an
/// even number of hexadecimal digits, two per byte, and they decode back to
/// the bytes.
pub proof fn lemma_hex_lower_decodes(b: Seq<u8>)
    ensures
        is_hex_text(encode_utf8(hex_lower(b))),
        encode_utf8(hex_lower(b)).len() == 2 * b.len(),
        hex_decoded(encode_utf8(hex_lower(b))) == b,
{
    let cs = hex_lower(b);
    assert forall|i: int| 0 <= i < cs.len() implies '\0' <= #[trigger] cs[i] <= '\u{7f}' by {
        let n = if i % 2 == 0 { b[i / 2] as int / 16 } else { b[i / 2] as int % 16 };
        assert(0 <= n < 16);
    }
    assert(is_ascii_chars(cs));
    is_ascii_chars_encode_utf8(cs);
    let d = encode_utf8(cs);
    assert forall|i: int| 0 <= i < d.len() implies is_hex_byte(#[trigger] d[i]) by {
        let n = if i % 2 == 0 { b[i / 2] as int / 16 } else { b[i / 2] as int % 16 };
        assert(0 <= n < 16);
        assert(d[i] == cs[i] as u8);
    }
    assert forall|i: int| 0 <= i < b.len() implies #[trigger] hex_decoded(d)[i] == b[i] by {
        let hi = b[i] as int / 16;
        let lo = b[i] as int % 16;
        assert(d[2 * i] == cs[2 * i] as u8);
        assert(d[2 * i + 1] == cs[2 * i + 1] as u8);
        assert((2 * i) / 2 == i);
        assert((2 * i + 1) / 2 == i);
        assert(hex_value(d[2 * i]) == hi);
        assert(hex_value(d[2 * i + 1]) == lo);
    }
    assert(hex_decoded(d) =~= b);
}

/// Parsing the hexadecimal text of a hash gives back the same 32 bytes: for
/// every hash `h`, `from_hex(&h.to_hex())` succeeds with a hash equal to `h`.
pub proof fn law_hex_roundtrip(h: ForensicHash, s: &str)
    requires
        s@ == hex_lower(h.value()),
    ensures
        is_hex_text(s.spec_bytes()),
        s.spec_bytes().len() == 64,
        hex_decoded(s.spec_bytes()) == h.value(),
{
    lemma_hex_lower_decodes(h.value());
}

} // verus!
