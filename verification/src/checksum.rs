//! The payload's hex dump and its checksum: the SHA-256 of the hex dump,
//! written in hex.
use vstd::prelude::*;

use sha2::{Digest, Sha256};

use crate::numbers;

verus! {

/// The lowercase hex digits of the bytes, two per byte, high digit first.
pub open spec fn hex_lower(b: Seq<u8>) -> Seq<char>
    decreases b.len(),
{
    if b.len() == 0 {
        Seq::empty()
    } else {
        hex_lower(b.drop_last()) + numbers::byte_hex(b.last())
    }
}

/// The bytes of an ASCII text.
pub open spec fn ascii_bytes(s: Seq<char>) -> Seq<u8> {
    s.map_values(|c: char| (c as u32) as u8)
}

/// The SHA-256 digest of the bytes.
pub uninterp spec fn sha256_digest(data: Seq<u8>) -> Seq<u8>;

/// `hex::encode`: each byte as two lowercase hex digits, high digit first
/// (the crate reads the digits from its table `0123456789abcdef`).
#[verifier::external_body]
fn hex_encode_bytes(data: &[u8]) -> (r: String)
    ensures
        r@ == hex_lower(data@),
{
    hex::encode(data)
}

/// `Sha256::new`, `update` and `finalize` from the `sha2` crate: the digest
/// of the bytes, 32 bytes long. What the digest is, is left to its name.
#[verifier::external_body]
fn sha256(data: &[u8]) -> (r: Vec<u8>)
    ensures
        r@ == sha256_digest(data@),
        r@.len() == 32,
{
    let mut hasher = Sha256::new();
    hasher.update(data);
    hasher.finalize().to_vec()
}

/// The bytes of a hex text (its characters are ASCII).
fn ascii_bytes_of(s: &[char]) -> (r: Vec<u8>)
    ensures
        r@ == ascii_bytes(s@),
{
    let mut r: Vec<u8> = Vec::new();
    let mut i: usize = 0;
    while i < s.len()
        invariant
            i <= s@.len(),
            r@ == ascii_bytes(s@.take(i as int)),
        decreases s@.len() - i,
    {
        r.push((s[i] as u32) as u8);
        assert(ascii_bytes(s@.take(i + 1)) =~= ascii_bytes(s@.take(i as int)).push(
            (s@[i as int] as u32) as u8,
        ));
        i = i + 1;
    }
    assert(s@.take(i as int) =~= s@);
    r
}

/// The payload as text: each byte as two lowercase hex digits.
pub fn hex_dump(payload: &[u8]) -> (r: String)
    ensures
        r@ == hex_lower(payload@),
{
    hex_encode_bytes(payload)
}

/// The payload's checksum: the SHA-256 of its hex dump, written in hex.
pub fn payload_checksum(payload: &[u8]) -> (r: String)
    ensures
        r@ == hex_lower(sha256_digest(ascii_bytes(hex_lower(payload@)))),
        r@.len() == 64,
{
    let dump = hex_encode_bytes(payload);
    let chars = crate::text::chars_of(dump.as_str());
    let bytes = ascii_bytes_of(chars.as_slice());
    let digest = sha256(bytes.as_slice());
    proof {
        lemma_hex_lower_len(digest@);
    }
    hex_encode_bytes(digest.as_slice())
}

/// The checksum of the raw payload: the SHA-256 of its bytes, written in hex.
pub fn raw_checksum(payload: &[u8]) -> (r: String)
    ensures
        r@ == hex_lower(sha256_digest(payload@)),
        r@.len() == 64,
{
    let digest = sha256(payload);
    proof {
        lemma_hex_lower_len(digest@);
    }
    hex_encode_bytes(digest.as_slice())
}

/// Two hex digits per byte.
pub proof fn lemma_hex_lower_len(b: Seq<u8>)
    ensures
        hex_lower(b).len() == 2 * b.len(),
    decreases b.len(),
{
    if b.len() > 0 {
        lemma_hex_lower_len(b.drop_last());
        crate::encoder::lemma_byte_hex_roundtrip(b.last());
    }
}

/// The name of the DuckyScript version the payload needs.
pub fn version_label(ds3: bool) -> (r: &'static str)
    ensures
        r@ == (if ds3 {
            "DuckyScript 3.0"@
        } else {
            "DuckyScript 1.0"@
        }),
{
    if ds3 {
        "DuckyScript 3.0"
    } else {
        "DuckyScript 1.0"
    }
}

} // verus!
