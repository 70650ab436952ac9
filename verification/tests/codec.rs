use sha2::Digest;

use tezos_auth::codec::{b58_decode_with_prefix_check, b58_encode_with_prefix};
use tezos_auth::errors::AppError;

fn roundtrip(payload: &[u8], prefix: &[u8]) {
    let s = b58_encode_with_prefix(payload, prefix);
    let back = b58_decode_with_prefix_check(s.as_str(), prefix).expect("roundtrip must decode");
    assert_eq!(back.as_slice(), payload);
}

#[test]
fn b58check_roundtrip_various_payloads() {
    roundtrip(&[], &[6, 161, 159]);
    roundtrip(&[0u8; 20], &[6, 161, 159]);
    roundtrip(&[255u8; 20], &[6, 161, 161]);
    roundtrip(&[1, 2, 3, 4, 5], &[6, 161, 164]);
    roundtrip(&[0u8; 32], &[13, 15, 37, 217]);
    roundtrip(&[7u8; 64], &[9, 245, 205, 134, 18]);
    roundtrip(&[0, 0, 0, 9], &[3, 254, 226, 86]);
}

#[test]
fn b58check_encode_matches_reference_construction() {
    // Recompute the encoding with the underlying crates directly.
    let payload = [42u8; 20];
    let prefix = [6u8, 161, 159];
    let mut data = Vec::new();
    data.extend_from_slice(&prefix);
    data.extend_from_slice(&payload);
    let h1 = sha2::Sha256::digest(&data);
    let h2 = sha2::Sha256::digest(h1);
    data.extend_from_slice(&h2[0..4]);
    let expected = bs58::encode(data).into_string();
    let got = b58_encode_with_prefix(&payload, &prefix);
    assert_eq!(got, expected);
}

#[test]
fn b58check_tamper_detection_every_byte() {
    let payload = [9u8, 1, 2, 3, 4, 5, 6, 7, 8, 0, 11, 12, 13, 14, 15, 16, 17, 18, 19, 20];
    let prefix = [6u8, 161, 159];
    let s = b58_encode_with_prefix(&payload, &prefix);
    let bytes = s.as_bytes();
    for i in 0..bytes.len() {
        let mut corrupted = bytes.to_vec();
        // Swap the character for a different one from the base-58 alphabet.
        corrupted[i] = if corrupted[i] == b'2' { b'3' } else { b'2' };
        if corrupted == bytes {
            continue;
        }
        let text = String::from_utf8(corrupted).unwrap();
        assert!(
            b58_decode_with_prefix_check(text.as_str(), &prefix).is_err(),
            "tampered byte {} was accepted",
            i
        );
    }
}

#[test]
fn b58check_rejects_wrong_prefix() {
    let payload = [1u8; 20];
    let tz1 = [6u8, 161, 159];
    let tz2 = [6u8, 161, 161];
    let s = b58_encode_with_prefix(&payload, &tz1);
    assert!(b58_decode_with_prefix_check(s.as_str(), &tz2).is_err());
    assert!(b58_decode_with_prefix_check(s.as_str(), &tz1).is_ok());
}

#[test]
fn b58check_rejects_invalid_character() {
    // '0', 'O', 'I' and 'l' are not in the base-58 alphabet.
    let r = b58_decode_with_prefix_check("tz10OIl", &[6, 161, 159]);
    match r {
        Err(AppError::ValidationError(_)) => {}
        _ => panic!("expected a validation error"),
    }
}

#[test]
fn b58check_rejects_too_short() {
    // "2g" decodes to a single byte, far below prefix + checksum.
    let r = b58_decode_with_prefix_check("2g", &[6, 161, 159]);
    match r {
        Err(AppError::ValidationError(_)) => {}
        _ => panic!("expected a validation error"),
    }
}

#[test]
fn b58check_rejects_corrupted_checksum() {
    let payload = [5u8; 20];
    let prefix = [6u8, 161, 159];
    let mut data = Vec::new();
    data.extend_from_slice(&prefix);
    data.extend_from_slice(&payload);
    let h1 = sha2::Sha256::digest(&data);
    let h2 = sha2::Sha256::digest(h1);
    data.extend_from_slice(&h2[0..4]);
    let last = data.len() - 1;
    data[last] ^= 0xFF;
    let text = bs58::encode(data).into_string();
    let r = b58_decode_with_prefix_check(text.as_str(), &prefix);
    match r {
        Err(AppError::ValidationError(_)) => {}
        _ => panic!("expected a checksum failure"),
    }
}

#[test]
fn b58check_known_bitcoin_style_vector() {
    // The all-zero payload under prefix 0x00 is the classic
    // 1111111111111111111114oLvT2 address.
    let s = b58_encode_with_prefix(&[0u8; 20], &[0u8]);
    assert_eq!(s, "1111111111111111111114oLvT2");
    let back = b58_decode_with_prefix_check("1111111111111111111114oLvT2", &[0u8]).unwrap();
    assert_eq!(back, vec![0u8; 20]);
}
