//! The proof-of-work captcha: find a nonce whose SHA-256 together with the
//! challenge starts with the requested number of zero bits.

use vstd::prelude::*;
use vstd::arithmetic::power2::pow2;
use sha2::Digest;
use crate::btn::hash::sha256_digest;

verus! {

/// A captcha challenge: its id, the challenge bytes in base64, and the difficulty.
#[derive(Debug, Clone)]
pub struct PowChallenge {
    pub id: String,
    pub challenge_base64: String,
    pub difficulty_bits: u32,
}

/// `hash` starts with `bits` zero bits: the first `bits / 8` bytes are zero
/// and, when bits remain, the next byte is below `2^(8 - bits % 8)`.
pub open spec fn leading_zero_bits(hash: Seq<u8>, bits: nat) -> bool {
    let full = bits / 8;
    let rem = bits % 8;
    &&& full <= hash.len()
    &&& forall|i: int| 0 <= i < full ==> hash[i] == 0
    &&& rem > 0 ==> full < hash.len() && (hash[full as int] as nat) < pow2((8 - rem) as nat)
}

proof fn lemma_mask_below(b: u8, rem: u32)
    requires
        0 < rem < 8,
    ensures
        (b & (0xffu8 << ((8 - rem) as u8))) == 0 <==> (b as nat) < pow2((8 - rem) as nat),
{
    vstd::arithmetic::power2::lemma2_to64();
    let s = (8 - rem) as u8;
    assert((b & (0xffu8 << s)) == 0 <==> b < (1u32 << (s as u32)) as u8) by (bit_vector)
        requires 1 <= s <= 7;
    assert((1u32 << (s as u32)) as nat == pow2(s as nat)) by {
        assert(1u32 << 1u32 == 2) by (bit_vector);
        assert(1u32 << 2u32 == 4) by (bit_vector);
        assert(1u32 << 3u32 == 8) by (bit_vector);
        assert(1u32 << 4u32 == 16) by (bit_vector);
        assert(1u32 << 5u32 == 32) by (bit_vector);
        assert(1u32 << 6u32 == 64) by (bit_vector);
        assert(1u32 << 7u32 == 128) by (bit_vector);
    }
}

/// Whether `hash` starts with `bits` zero bits.
pub fn has_leading_zero_bits(hash: &[u8], bits: u32) -> (b: bool)
    ensures
        b == leading_zero_bits(hash@, bits as nat),
{
    let full = (bits / 8) as usize;
    let rem = bits % 8;
    if full > hash.len() {
        return false;
    }
    let mut i: usize = 0;
    while i < full
        invariant
            full <= hash@.len(),
            full == bits / 8,
            i <= full,
            forall|k: int| 0 <= k < i ==> hash@[k] == 0,
        decreases full - i,
    {
        if hash[i] != 0 {
            return false;
        }
        i += 1;
    }
    if rem > 0 {
        if full >= hash.len() {
            return false;
        }
        let mask = 0xffu8 << ((8 - rem) as u8);
        proof {
            lemma_mask_below(hash@[full as int], rem);
        }
        if hash[full] & mask != 0 {
            return false;
        }
    }
    true
}

/// The eight bytes of `n`, most significant first.
pub open spec fn be_bytes(n: u64) -> Seq<u8> {
    seq![
        (n >> 56u64) as u8,
        (n >> 48u64) as u8,
        (n >> 40u64) as u8,
        (n >> 32u64) as u8,
        (n >> 24u64) as u8,
        (n >> 16u64) as u8,
        (n >> 8u64) as u8,
        n as u8,
    ]
}

/// The nonce `n` solves the challenge.
pub open spec fn solves(challenge: Seq<u8>, difficulty_bits: u32, n: u64) -> bool {
    leading_zero_bits(sha256_digest(challenge + be_bytes(n)), difficulty_bits as nat)
}

/// `sha2::Sha256` over the challenge followed by the nonce bytes.
#[verifier::external_body]
fn sha256_pair(a: &[u8], b: &[u8; 8]) -> (r: Vec<u8>)
    ensures
        r@ == sha256_digest(a@ + b@),
{
    let mut h = sha2::Sha256::new();
    h.update(a);
    h.update(b);
    h.finalize().to_vec()
}

/// Solves a captcha: the smallest nonce below `2^32` (as eight big-endian
/// bytes) whose hash has the required leading zero bits, or `None`.
pub fn solve(challenge: &[u8], difficulty_bits: u32) -> (r: Option<[u8; 8]>)
    ensures
        match r {
            Some(bytes) => exists|n: u64| n < 0x1_0000_0000 && bytes@ == be_bytes(n) && solves(challenge@, difficulty_bits, n)
                && forall|m: u64| m < n ==> !solves(challenge@, difficulty_bits, m),
            None => forall|m: u64| m < 0x1_0000_0000 ==> !solves(challenge@, difficulty_bits, m),
        },
{
    let mut nonce: u64 = 0;
    while nonce < 0x1_0000_0000
        invariant
            nonce <= 0x1_0000_0000,
            forall|m: u64| m < nonce ==> !solves(challenge@, difficulty_bits, m),
        decreases 0x1_0000_0000 - nonce,
    {
        let bytes: [u8; 8] = [
            (nonce >> 56u64) as u8,
            (nonce >> 48u64) as u8,
            (nonce >> 40u64) as u8,
            (nonce >> 32u64) as u8,
            (nonce >> 24u64) as u8,
            (nonce >> 16u64) as u8,
            (nonce >> 8u64) as u8,
            nonce as u8,
        ];
        assert(bytes@ =~= be_bytes(nonce));
        let h = sha256_pair(challenge, &bytes);
        if has_leading_zero_bits(h.as_slice(), difficulty_bits) {
            return Some(bytes);
        }
        nonce += 1;
    }
    None
}

} // verus!
