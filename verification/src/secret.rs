//! The shared secret in its textual form: unpadded base 32 over the RFC 4648
//! alphabet, and the generation of fresh secrets.

use rand::Rng;
use vstd::prelude::*;
use vstd::string::is_ascii_spec_bytes;

verus! {

/// Why a text is not the encoding of a secret.
#[derive(Debug, Clone, Copy, PartialEq, Eq, Structural)]
pub enum DecodeError {
    /// A character is none of `A` to `Z` and `2` to `7`.
    InvalidCharacter,
    /// The characters are valid, but no byte sequence encodes to that many.
    InvalidLength,
}

/// The unpadded RFC 4648 base-32 encoding of `data`.
pub uninterp spec fn base32_encoding(data: Seq<u8>) -> Seq<char>;

/// What the base-32 decoder makes of `text`, if anything.
pub uninterp spec fn base32_decoding(text: Seq<char>) -> Option<Seq<u8>>;

/// Whether `c` belongs to the RFC 4648 base-32 alphabet.
pub open spec fn in_alphabet(c: char) -> bool {
    ('A' <= c <= 'Z') || ('2' <= c <= '7')
}

/// Whether every character of `text` belongs to the alphabet.
pub open spec fn all_in_alphabet(text: Seq<char>) -> bool {
    forall|i: int| 0 <= i < text.len() ==> in_alphabet(#[trigger] text[i])
}

/// Number of characters that encode `n` bytes: five bits each, rounded up.
pub open spec fn encoded_len(n: nat) -> nat {
    (8 * n + 4) / 5
}

/// Number of whole bytes that `n` characters hold.
pub open spec fn decoded_len(n: nat) -> nat {
    5 * n / 8
}

/// Whether some byte sequence encodes to `n` characters: a final group of
/// 1, 3 or 6 characters holds no whole number of bytes.
pub open spec fn valid_text_len(n: nat) -> bool {
    n % 8 != 1 && n % 8 != 3 && n % 8 != 6
}

/// Whether `text` is accepted as an encoded secret and decodes to `secret`.
pub open spec fn decodes_to(text: Seq<char>, secret: Seq<u8>) -> bool {
    &&& all_in_alphabet(text)
    &&& valid_text_len(text.len())
    &&& base32_decoding(text) == Some(secret)
}

/// The length of an encoding is always a valid text length.
pub proof fn lemma_encoded_len_valid(n: nat)
    ensures
        valid_text_len(encoded_len(n)),
        decoded_len(encoded_len(n)) == n,
{
    let q = n / 5;
    let r = n % 5;
    assert(n == 5 * q + r);
    assert(encoded_len(n) == 8 * q + (8 * r + 4) / 5);
}

/// Encodes with `base32::encode` under `Alphabet::RFC4648 { padding: false }`.
/// The contract names the text and states three things that the crate's source
/// shows: it has a character for every five bits, rounded up; every character
/// comes from the RFC 4648 table; and `base32::decode` turns it back into
/// `data`. The bound keeps the crate's buffer within what a `Vec` can hold.
#[verifier::external_body]
fn base32_encode(data: &[u8]) -> (text: String)
    requires
        (data@.len() + 3) / 4 * 5 <= isize::MAX,
    ensures
        text@ == base32_encoding(data@),
        text@.len() == encoded_len(data@.len()),
        all_in_alphabet(text@),
        base32_decoding(text@) == Some(data@),
{
    base32::encode(base32::Alphabet::RFC4648 { padding: false }, data)
}

/// Decodes with `base32::decode` under `Alphabet::RFC4648 { padding: false }`.
/// The contract names the outcome and states what the crate's source shows of
/// a text over the alphabet: it is decoded, to five eighths as many bytes,
/// rounded down. The bound keeps that product within `usize`.
#[verifier::external_body]
fn base32_decode(text: &str) -> (bytes: Option<Vec<u8>>)
    requires
        text@.len() * 5 <= usize::MAX,
    ensures
        match bytes {
            Some(b) => base32_decoding(text@) == Some(b@),
            None => base32_decoding(text@) is None,
        },
        all_in_alphabet(text@) ==> bytes is Some && bytes.unwrap()@.len() == decoded_len(
            text@.len(),
        ),
{
    base32::decode(base32::Alphabet::RFC4648 { padding: false }, text)
}

/// Draws 20 bytes with `rand::thread_rng().gen()`. Nothing is claimed of them.
#[verifier::external_body]
fn random_bytes() -> (bytes: [u8; 20]) {
    rand::thread_rng().gen::<[u8; 20]>()
}

/// The textual form of `secret`. Decoding it gives `secret` back.
///
/// The secret must be short enough for its encoding to fit in memory.
pub fn encode(secret: &[u8]) -> (text: String)
    requires
        (secret@.len() + 3) / 4 * 5 <= isize::MAX,
    ensures
        text@ == base32_encoding(secret@),
        text@.len() == encoded_len(secret@.len()),
        decodes_to(text@, secret@),
{
    proof {
        lemma_encoded_len_valid(secret@.len());
    }
    base32_encode(secret)
}

/// The secret that `text` encodes.
///
/// Fails with `InvalidCharacter` exactly when some character is outside the
/// alphabet, and with `InvalidLength` exactly when all characters are valid
/// but their number is not that of any encoding. Every other text is decoded;
/// in particular the encoding of a secret gives that secret.
///
/// The length of `text`, times five, must fit in `usize`.
pub fn decode(text: &str) -> (outcome: Result<Vec<u8>, DecodeError>)
    requires
        text@.len() * 5 <= usize::MAX,
    ensures
        match outcome {
            Ok(secret) => decodes_to(text@, secret@) && secret@.len() == decoded_len(
                text@.len(),
            ),
            Err(DecodeError::InvalidCharacter) => !all_in_alphabet(text@),
            Err(DecodeError::InvalidLength) => all_in_alphabet(text@) && !valid_text_len(
                text@.len(),
            ),
        },
        forall|secret: Seq<u8>| #[trigger]
            decodes_to(text@, secret) ==> (outcome matches Ok(bytes) && bytes@ == secret),
{
    broadcast use is_ascii_spec_bytes;

    if !text.is_ascii() {
        return Err(DecodeError::InvalidCharacter);
    }
    let bytes = text.as_bytes();
    let n = bytes.len();
    let mut i: usize = 0;
    while i < n
        invariant
            i <= n == text@.len(),
            vstd::string::is_ascii(text),
            bytes@ == Seq::new(text@.len(), |k: int| text@[k] as u8),
            forall|j: int| 0 <= j < i ==> in_alphabet(#[trigger] text@[j]),
        decreases n - i,
    {
        let b = bytes[i];
        assert(b == text@[i as int] as u8);
        let upper = 65 <= b && b <= 90;
        let digit = 50 <= b && b <= 55;
        if !(upper || digit) {
            assert(!in_alphabet(text@[i as int]));
            return Err(DecodeError::InvalidCharacter);
        }
        i = i + 1;
    }
    let tail = n % 8;
    if tail == 1 || tail == 3 || tail == 6 {
        return Err(DecodeError::InvalidLength);
    }
    match base32_decode(text) {
        Some(secret) => Ok(secret),
        None => Err(DecodeError::InvalidCharacter),
    }
}

/// A fresh secret in textual form: 20 random bytes, encoded.
pub fn generate_secret() -> (text: String)
    ensures
        text@.len() == 32,
        exists|secret: Seq<u8>| secret.len() == 20 && #[trigger] decodes_to(text@, secret),
{
    let bytes = random_bytes();
    let text = encode(bytes.as_slice());
    assert(decodes_to(text@, bytes@));
    text
}

} // verus!
