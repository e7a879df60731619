//! The privacy hash of torrent identifiers and the proof-of-work captcha.
//! BTN is never told a raw info-hash: it gets `SHA-256(lower(hash) + salt)`,
//! the salt being the CRC-32 of the lower-cased hash as little-endian hex.

use vstd::prelude::*;
use vstd::utf8::encode_utf8;
use sha2::{Digest, Sha256};
use crate::text::{lowercase, string_from_chars, to_lowercase};

verus! {

/// One byte's worth of CRC-32 (IEEE 802.3, reflected, polynomial `0xEDB88320`) steps.
pub open spec fn crc_rounds(crc: u32, k: nat) -> u32
    decreases k,
{
    if k == 0 {
        crc
    } else {
        let c = crc_rounds(crc, (k - 1) as nat);
        if c & 1 == 1 {
            (c >> 1u32) ^ 0xEDB8_8320u32
        } else {
            c >> 1u32
        }
    }
}

/// The CRC register after the bytes `s`, from `crc`.
pub open spec fn crc_update(crc: u32, s: Seq<u8>) -> u32
    decreases s.len(),
{
    if s.len() == 0 {
        crc
    } else {
        crc_rounds(crc_update(crc, s.drop_last()) ^ (s.last() as u32), 8)
    }
}

/// CRC-32 (IEEE) of a byte string.
pub open spec fn crc32_spec(s: Seq<u8>) -> u32 {
    !crc_update(!0u32, s)
}

/// CRC-32 (IEEE 802.3) of `bytes`.
pub fn crc32(bytes: &[u8]) -> (r: u32)
    ensures
        r == crc32_spec(bytes@),
{
    let mut crc: u32 = !0u32;
    let mut i: usize = 0;
    while i < bytes.len()
        invariant
            i <= bytes@.len(),
            crc == crc_update(!0u32, bytes@.subrange(0, i as int)),
        decreases bytes@.len() - i,
    {
        let ghost pre = bytes@.subrange(0, i as int);
        let ghost post = bytes@.subrange(0, i as int + 1);
        assert(post.drop_last() =~= pre);
        assert(post.last() == bytes@[i as int]);
        let start = crc ^ (bytes[i] as u32);
        crc = start;
        let mut k: u32 = 0;
        while k < 8
            invariant
                k <= 8,
                crc == crc_rounds(start, k as nat),
            decreases 8 - k,
        {
            if crc & 1 == 1 {
                crc = (crc >> 1u32) ^ 0xEDB8_8320u32;
            } else {
                crc = crc >> 1u32;
            }
            k += 1;
        }
        i += 1;
    }
    assert(bytes@.subrange(0, i as int) =~= bytes@);
    !crc
}

/// The SHA-256 digest of a byte string.
pub uninterp spec fn sha256_digest(data: Seq<u8>) -> Seq<u8>;

/// `sha2::Sha256::digest`: the 32-byte SHA-256 digest of `data`.
#[verifier::external_body]
fn sha256(data: &[u8]) -> (r: Vec<u8>)
    ensures
        r@ == sha256_digest(data@),
        r@.len() == 32,
{
    Sha256::digest(data).to_vec()
}

/// A lower-case hex digit as an ASCII byte.
pub open spec fn hex_byte(d: u8) -> u8 {
    if d < 10 {
        (48 + d) as u8
    } else {
        (87 + d) as u8
    }
}

/// A lower-case hex digit as a character.
pub open spec fn hex_digit(d: u8) -> char {
    hex_byte(d) as char
}

/// Two lower-case hex digits per byte.
pub open spec fn hex_of_bytes(s: Seq<u8>) -> Seq<char>
    decreases s.len(),
{
    if s.len() == 0 {
        Seq::empty()
    } else {
        hex_of_bytes(s.drop_last()) + seq![hex_digit(s.last() / 16), hex_digit(s.last() % 16)]
    }
}

/// A character of lower-case hexadecimal.
pub open spec fn is_lower_hex(c: char) -> bool {
    ('0' <= c && c <= '9') || ('a' <= c && c <= 'f')
}

/// The hex text of `s` has two characters per byte, all lower-case hex digits.
pub proof fn lemma_hex_is_lowercase(s: Seq<u8>)
    ensures
        hex_of_bytes(s).len() == 2 * s.len(),
        forall|i: int| 0 <= i < hex_of_bytes(s).len() ==> is_lower_hex(#[trigger] hex_of_bytes(s)[i]),
    decreases s.len(),
{
    if s.len() > 0 {
        lemma_hex_is_lowercase(s.drop_last());
        let b = s.last();
        let p = hex_of_bytes(s.drop_last());
        let h = hex_of_bytes(s);
        assert(h == p + seq![hex_digit(b / 16), hex_digit(b % 16)]);
        assert(is_lower_hex(hex_digit(b / 16)) && is_lower_hex(hex_digit(b % 16)));
        assert forall|i: int| 0 <= i < h.len() implies is_lower_hex(#[trigger] h[i]) by {
            if i < p.len() {
                assert(h[i] == p[i]);
            }
        }
    }
}

/// The four bytes of `x`, least significant first.
pub open spec fn le_bytes(x: u32) -> Seq<u8> {
    seq![(x & 0xff) as u8, ((x >> 8u32) & 0xff) as u8, ((x >> 16u32) & 0xff) as u8, ((x >> 24u32) & 0xff) as u8]
}

/// The salt of a lower-cased info-hash: its CRC-32 as little-endian hex, in ASCII bytes.
pub open spec fn salt_bytes(crc: u32) -> Seq<u8> {
    hex_of_bytes(le_bytes(crc)).map_values(|c: char| c as u8)
}

/// The hex digit of `d < 16`.
fn hex_char(d: u8) -> (c: char)
    requires
        d < 16,
    ensures
        c == hex_digit(d),
        c as u8 == hex_byte(d),
{
    if d < 10 {
        (48 + d) as char
    } else {
        (87 + d) as char
    }
}

/// The hex text of `bytes`.
pub(crate) fn hex_text(bytes: &Vec<u8>) -> (r: Vec<char>)
    ensures
        r@ == hex_of_bytes(bytes@),
{
    let mut out: Vec<char> = Vec::new();
    let mut i: usize = 0;
    while i < bytes.len()
        invariant
            i <= bytes@.len(),
            out@ == hex_of_bytes(bytes@.subrange(0, i as int)),
        decreases bytes@.len() - i,
    {
        let ghost pre = bytes@.subrange(0, i as int);
        let ghost post = bytes@.subrange(0, i as int + 1);
        assert(post.drop_last() =~= pre);
        let b = bytes[i];
        out.push(hex_char(b / 16));
        out.push(hex_char(b % 16));
        i += 1;
        assert(out@ =~= hex_of_bytes(post));
    }
    assert(bytes@.subrange(0, i as int) =~= bytes@);
    out
}

/// The privacy identifier of a torrent: the hex SHA-256 of the lower-cased
/// info-hash followed by its salt.
pub fn hashed_identifier(info_hash: &str) -> (r: String)
    ensures
        r@ == identifier_spec(info_hash@),
{
    let lower = to_lowercase(info_hash);
    let lb = lower.as_str().as_bytes();
    let crc = crc32(lb);
    let mut le: Vec<u8> = Vec::new();
    le.push((crc & 0xff) as u8);
    le.push(((crc >> 8u32) & 0xff) as u8);
    le.push(((crc >> 16u32) & 0xff) as u8);
    le.push(((crc >> 24u32) & 0xff) as u8);
    assert(le@ =~= le_bytes(crc));
    let salt = hex_text(&le);
    let mut data: Vec<u8> = Vec::new();
    let mut i: usize = 0;
    while i < lb.len()
        invariant
            i <= lb@.len(),
            data@ == lb@.subrange(0, i as int),
        decreases lb@.len() - i,
    {
        data.push(lb[i]);
        i += 1;
        assert(data@ =~= lb@.subrange(0, i as int));
    }
    assert(lb@.subrange(0, i as int) =~= lb@);
    let ghost base = data@;
    let mut j: usize = 0;
    while j < salt.len()
        invariant
            j <= salt@.len(),
            salt@ == hex_of_bytes(le_bytes(crc)),
            data@ == base + salt@.subrange(0, j as int).map_values(|c: char| c as u8),
        decreases salt@.len() - j,
    {
        data.push(salt[j] as u8);
        j += 1;
        assert(data@ =~= base + salt@.subrange(0, j as int).map_values(|c: char| c as u8));
    }
    assert(salt@.subrange(0, j as int) =~= salt@);
    let digest = sha256(data.as_slice());
    string_from_chars(&hex_text(&digest))
}


/// The identifier of a torrent ignores the case of its info-hash: hashes that
/// lower-case alike get the same identifier.
pub open spec fn identifier_spec(info_hash: Seq<char>) -> Seq<char> {
    let lower = encode_utf8(lowercase(info_hash));
    hex_of_bytes(sha256_digest(lower + salt_bytes(crc32_spec(lower))))
}

/// Hashes that lower-case alike get the same identifier, and every identifier
/// is lower-case hexadecimal, two characters per digest byte.
pub proof fn lemma_identifier_case_insensitive(a: Seq<char>, b: Seq<char>)
    requires
        lowercase(a) == lowercase(b),
    ensures
        identifier_spec(a) == identifier_spec(b),
        forall|i: int| 0 <= i < identifier_spec(a).len() ==> is_lower_hex(#[trigger] identifier_spec(a)[i]),
{
    let lower = encode_utf8(lowercase(a));
    lemma_hex_is_lowercase(sha256_digest(lower + salt_bytes(crc32_spec(lower))));
}
} // verus!
