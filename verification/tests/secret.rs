use totp::{decode, encode, generate_secret, DecodeError};

#[test]
fn test_generate_secret() {
    let secret: String = generate_secret();
    assert_eq!(secret.len(), 32);
}

#[test]
fn generated_secret_decodes_to_twenty_bytes() {
    for _ in 0..50 {
        let text = generate_secret();
        assert_eq!(text.len(), 32);
        assert!(text.chars().all(|c| c.is_ascii_uppercase() || ('2'..='7').contains(&c)));
        let secret = decode(&text).unwrap();
        assert_eq!(secret.len(), 20);
        assert_eq!(encode(&secret), text);
    }
}

#[test]
fn generated_secrets_differ() {
    assert_ne!(generate_secret(), generate_secret());
}

#[test]
fn decode_known_secret() {
    assert_eq!(
        decode("GYVPZJQQ4VBK7K64AILB2NF3BZAG7CLL"),
        Ok(vec![
            54, 42, 252, 166, 16, 229, 66, 175, 171, 220, 2, 22, 29, 52, 187, 14, 64, 111, 137,
            107
        ])
    );
}

#[test]
fn encode_reference_vectors() {
    assert_eq!(encode(b""), "");
    assert_eq!(encode(b"f"), "MY");
    assert_eq!(encode(b"fo"), "MZXQ");
    assert_eq!(encode(b"foo"), "MZXW6");
    assert_eq!(encode(b"foob"), "MZXW6YQ");
    assert_eq!(encode(b"fooba"), "MZXW6YTB");
    assert_eq!(encode(b"foobar"), "MZXW6YTBOI");
}

#[test]
fn decode_reference_vectors() {
    assert_eq!(decode(""), Ok(Vec::new()));
    assert_eq!(decode("MY"), Ok(b"f".to_vec()));
    assert_eq!(decode("MZXQ"), Ok(b"fo".to_vec()));
    assert_eq!(decode("MZXW6"), Ok(b"foo".to_vec()));
    assert_eq!(decode("MZXW6YQ"), Ok(b"foob".to_vec()));
    assert_eq!(decode("MZXW6YTB"), Ok(b"fooba".to_vec()));
    assert_eq!(decode("MZXW6YTBOI"), Ok(b"foobar".to_vec()));
}

#[test]
fn encode_has_no_padding() {
    for len in 0..40usize {
        let text = encode(&vec![0xa5; len]);
        assert!(!text.contains('='));
        assert_eq!(text.len(), (8 * len + 4) / 5);
    }
}

#[test]
fn decode_inverts_encode() {
    let mut seed: u32 = 2024;
    for len in 0..70usize {
        let mut secret = Vec::new();
        for _ in 0..len {
            seed = seed.wrapping_mul(1664525).wrapping_add(1013904223);
            secret.push((seed >> 24) as u8);
        }
        assert_eq!(decode(&encode(&secret)), Ok(secret));
    }
}

#[test]
fn decode_rejects_characters_outside_alphabet() {
    assert_eq!(decode("GYVPZJQQ4VBK7K64AILB2NF3BZAG7CL1"), Err(DecodeError::InvalidCharacter));
    assert_eq!(decode("MZXW6YT0"), Err(DecodeError::InvalidCharacter));
    assert_eq!(decode("MZXW6YT8"), Err(DecodeError::InvalidCharacter));
    assert_eq!(decode("MZXW 6YTB"), Err(DecodeError::InvalidCharacter));
    assert_eq!(decode(","), Err(DecodeError::InvalidCharacter));
    assert_eq!(decode("MZXW6YT\u{e9}"), Err(DecodeError::InvalidCharacter));
    assert_eq!(decode("@Z"), Err(DecodeError::InvalidCharacter));
    assert_eq!(decode("[Z"), Err(DecodeError::InvalidCharacter));
}

#[test]
fn decode_rejects_lower_case() {
    assert_eq!(decode("mzxw6ytb"), Err(DecodeError::InvalidCharacter));
    assert_eq!(decode("MZXW6YTb"), Err(DecodeError::InvalidCharacter));
}

#[test]
fn decode_rejects_padding() {
    assert_eq!(decode("MY======"), Err(DecodeError::InvalidCharacter));
    assert_eq!(decode("MZXW6YQ="), Err(DecodeError::InvalidCharacter));
}

#[test]
fn decode_rejects_impossible_lengths() {
    assert_eq!(decode("M"), Err(DecodeError::InvalidLength));
    assert_eq!(decode("MZX"), Err(DecodeError::InvalidLength));
    assert_eq!(decode("MZXW6Y"), Err(DecodeError::InvalidLength));
    assert_eq!(decode("MZXW6YTBO"), Err(DecodeError::InvalidLength));
    assert_eq!(decode("MZXW6YTBOIA"), Err(DecodeError::InvalidLength));
}

#[test]
fn decode_reports_character_before_length() {
    assert_eq!(decode("1"), Err(DecodeError::InvalidCharacter));
    assert_eq!(decode("M1X"), Err(DecodeError::InvalidCharacter));
}

#[test]
fn decode_accepts_every_possible_length() {
    for len in [0usize, 2, 4, 5, 7, 8, 10, 12, 13, 15, 16] {
        let text = "A".repeat(len);
        assert_eq!(decode(&text), Ok(vec![0; len * 5 / 8]));
    }
}
