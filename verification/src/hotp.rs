//! The keyed hash over the counter, its dynamic truncation to 31 bits, and the
//! reduction of the truncated value to a number of decimal digits.

use hmac::{Hmac, Mac};
use sha1::Sha1;
use vstd::arithmetic::div_mod::lemma_small_mod;
use vstd::arithmetic::power::{lemma_pow0, lemma_pow_increases, pow};
use vstd::prelude::*;

verus! {

/// The HMAC-SHA-1 digest of `message` under `key`.
pub uninterp spec fn hmac_sha1(key: Seq<u8>, message: Seq<u8>) -> Seq<u8>;

/// Computes HMAC-SHA-1 with the `hmac` and `sha-1` crates: `Hmac::<Sha1>::new_varkey`
/// on the key, `input` on the message, then `result().code()`. The contract names
/// the 20-byte digest; `new_varkey` of `Hmac` accepts a key of any length.
#[verifier::external_body]
fn hmac_sha1_digest(key: &[u8], message: &[u8]) -> (digest: [u8; 20])
    ensures
        digest@ == hmac_sha1(key@, message@),
{
    let mut mac = Hmac::<Sha1>::new_varkey(key).expect("HMAC can take key of any size");
    mac.input(message);
    mac.result().code().into()
}

/// Where the four truncated bytes start: the low four bits of the last byte
/// of the digest.
pub open spec fn truncation_offset(digest: Seq<u8>) -> int {
    digest[19] as int % 16
}

/// The four bytes of `digest` from `truncation_offset` on, read big-endian
/// with the top bit of the first one cleared.
pub open spec fn dynamic_truncation(digest: Seq<u8>) -> int {
    let offset = truncation_offset(digest);
    (digest[offset] as int % 128) * 0x100_0000 + digest[offset + 1] as int * 0x1_0000 + digest[offset
        + 2] as int * 0x100 + digest[offset + 3] as int
}

/// The truncated value reduced to `digits` decimal digits.
pub open spec fn hotp_value(truncated: int, digits: nat) -> int {
    truncated % pow(10, digits)
}

/// For every digest the offset leaves room for four bytes within the first
/// nineteen, and the truncated value fits in 31 bits.
pub proof fn lemma_truncation_bounds(digest: Seq<u8>)
    ensures
        0 <= truncation_offset(digest) <= 15,
        0 <= dynamic_truncation(digest) < 0x8000_0000,
{
}

/// Dynamic truncation of a 20-byte digest.
pub fn truncate(digest: &[u8; 20]) -> (truncated: u32)
    ensures
        truncated == dynamic_truncation(digest@),
        truncated < 0x8000_0000,
{
    let last: u8 = digest[19];
    let nibble: u8 = last & 0xf;
    assert(nibble == last % 16) by (bit_vector)
        requires
            nibble == last & 0xf,
    ;
    let offset: usize = nibble as usize;
    let first: u8 = digest[offset];
    let high: u8 = first & 0x7f;
    assert(high == first % 128) by (bit_vector)
        requires
            high == first & 0x7f,
    ;
    let b0: u32 = high as u32;
    let b1: u32 = digest[offset + 1] as u32;
    let b2: u32 = digest[offset + 2] as u32;
    let b3: u32 = digest[offset + 3] as u32;
    let truncated: u32 = b0 << 24 | b1 << 16 | b2 << 8 | b3;
    assert(truncated == b0 * 0x100_0000 + b1 * 0x1_0000 + b2 * 0x100 + b3) by (bit_vector)
        requires
            b0 < 128,
            b1 < 256,
            b2 < 256,
            b3 < 256,
            truncated == b0 << 24 | b1 << 16 | b2 << 8 | b3,
    ;
    truncated
}

/// The 31-bit truncated HMAC-SHA-1 of `counter` under `secret`.
pub fn create_hash(secret: Vec<u8>, counter: [u8; 8]) -> (truncated: u32)
    ensures
        truncated == dynamic_truncation(hmac_sha1(secret@, counter@)),
        truncated < 0x8000_0000,
{
    let digest = hmac_sha1_digest(secret.as_slice(), counter.as_slice());
    truncate(&digest)
}

/// `value` modulo `10^digits`, for any number of digits.
pub fn reduce(value: u32, digits: u32) -> (reduced: u32)
    ensures
        reduced == hotp_value(value as int, digits as nat),
{
    proof {
        lemma_pow0(10);
        reveal_with_fuel(pow, 11);
        assert(pow(10, 9) == 1_000_000_000);
        assert(pow(10, 10) == 10_000_000_000);
    }
    if digits >= 10 {
        proof {
            lemma_pow_increases(10, 10, digits as nat);
            lemma_small_mod(value as nat, pow(10, digits as nat) as nat);
        }
        return value;
    }
    let mut modulus: u32 = 1;
    let mut i: u32 = 0;
    while i < digits
        invariant
            i <= digits <= 9,
            modulus == pow(10, i as nat),
            pow(10, 9) == 1_000_000_000,
        decreases digits - i,
    {
        proof {
            lemma_pow_increases(10, (i + 1) as nat, 9);
            assert(pow(10, (i + 1) as nat) == 10 * pow(10, i as nat)) by {
                reveal(pow);
            }
        }
        modulus = modulus * 10;
        i = i + 1;
    }
    value % modulus
}

/// The HOTP value of `counter` under `secret`, to `digits` decimal digits.
pub fn hotp_code(secret: Vec<u8>, counter: [u8; 8], digits: u32) -> (value: u32)
    ensures
        value == hotp_value(dynamic_truncation(hmac_sha1(secret@, counter@)), digits as nat),
{
    let truncated = create_hash(secret, counter);
    reduce(truncated, digits)
}

} // verus!
