use blake2::Digest;
use ed25519_dalek::Signer;
use k256::ecdsa::signature::Signer as K256Signer;
use p256::ecdsa::signature::Signer as P256Signer;

use tezos_auth::codec::b58_encode_with_prefix;
use tezos_auth::errors::AppError;
use tezos_auth::keys::{blake2b_256, TezosCryptoPublicKey};
use tezos_auth::micheline::pack_micheline_string;

const ED25519_PK_PREFIX: [u8; 4] = [13, 15, 37, 217];
const SECP256K1_PK_PREFIX: [u8; 4] = [3, 254, 226, 86];
const P256_PK_PREFIX: [u8; 4] = [3, 178, 139, 127];
const ED25519_SIG_PREFIX: [u8; 5] = [9, 245, 205, 134, 18];
const SECP256K1_SIG_PREFIX: [u8; 5] = [13, 115, 101, 19, 63];
const P256_SIG_PREFIX: [u8; 4] = [54, 240, 44, 52];
const TZ1_PREFIX: [u8; 3] = [6, 161, 159];
const TZ2_PREFIX: [u8; 3] = [6, 161, 161];
const TZ3_PREFIX: [u8; 3] = [6, 161, 164];

fn ed25519_fixture() -> (ed25519_dalek::SigningKey, String) {
    let seed = [7u8; 32];
    let sk = ed25519_dalek::SigningKey::from_bytes(&seed);
    let pk_bytes = sk.verifying_key().to_bytes();
    let encoded = b58_encode_with_prefix(&pk_bytes, &ED25519_PK_PREFIX);
    (sk, encoded)
}

#[test]
fn ed25519_key_parses_and_has_tz1_address() {
    let (sk, encoded) = ed25519_fixture();
    let key = TezosCryptoPublicKey::from_base58check(encoded.as_str()).unwrap();
    assert!(matches!(key, TezosCryptoPublicKey::Ed25519(_)));
    let address = key.public_key_hash_b58check().unwrap();
    assert!(address.starts_with("tz1"));
    // The address is the tz1 rendering of the 20-byte BLAKE2b key hash.
    let mut hasher = blake2::Blake2b::<blake2::digest::consts::U20>::new();
    hasher.update(sk.verifying_key().to_bytes());
    let pkh = hasher.finalize();
    let expected = b58_encode_with_prefix(pkh.as_slice(), &TZ1_PREFIX);
    assert_eq!(address, expected);
}

#[test]
fn address_derivation_is_deterministic() {
    let (_, encoded) = ed25519_fixture();
    let key = TezosCryptoPublicKey::from_base58check(encoded.as_str()).unwrap();
    let a1 = key.public_key_hash_b58check().unwrap();
    let a2 = key.public_key_hash_b58check().unwrap();
    assert_eq!(a1, a2);
}

#[test]
fn known_vector_ed25519_verifies_and_flipped_bit_fails() {
    // A fixed seed, challenge and signature: the triple must verify, and
    // any single flipped bit of the signature must not.
    let (sk, encoded) = ed25519_fixture();
    let key = TezosCryptoPublicKey::from_base58check(encoded.as_str()).unwrap();
    let challenge = "Sign this message to log in as admin: 00000000-0000-0000-0000-000000000000";
    let packed = pack_micheline_string(challenge).unwrap();
    let digest = blake2b_256(&packed);
    let signature = sk.sign(&digest);
    let sig_b58 = b58_encode_with_prefix(&signature.to_bytes(), &ED25519_SIG_PREFIX);
    assert_eq!(key.verify_signature(sig_b58.as_str(), &digest).unwrap(), true);

    for byte in 0..64 {
        let mut bad = signature.to_bytes();
        bad[byte] ^= 0x01;
        let bad_b58 = b58_encode_with_prefix(&bad, &ED25519_SIG_PREFIX);
        match key.verify_signature(bad_b58.as_str(), &digest) {
            Ok(v) => assert!(!v, "flipped bit in byte {} still verified", byte),
            Err(_) => {}
        }
    }
}

#[test]
fn secp256k1_key_parses_verifies_and_has_tz2_address() {
    let sk = k256::ecdsa::SigningKey::from_slice(&[11u8; 32]).unwrap();
    let vk = sk.verifying_key();
    let pk_bytes = vk.to_sec1_point(true);
    let encoded = b58_encode_with_prefix(pk_bytes.as_bytes(), &SECP256K1_PK_PREFIX);
    let key = TezosCryptoPublicKey::from_base58check(encoded.as_str()).unwrap();
    assert!(matches!(key, TezosCryptoPublicKey::Secp256k1(_)));
    let address = key.public_key_hash_b58check().unwrap();
    assert!(address.starts_with("tz2"));

    let packed = pack_micheline_string("hello secp").unwrap();
    let digest = blake2b_256(&packed);
    let signature: k256::ecdsa::Signature = sk.sign(&digest);
    let sig_b58 = b58_encode_with_prefix(&signature.to_bytes(), &SECP256K1_SIG_PREFIX);
    assert_eq!(key.verify_signature(sig_b58.as_str(), &digest).unwrap(), true);

    let other = blake2b_256(b"some other message");
    assert_eq!(key.verify_signature(sig_b58.as_str(), &other).unwrap(), false);
}

#[test]
fn p256_key_parses_verifies_and_has_tz3_address() {
    let sk = p256::ecdsa::SigningKey::from_slice(&[13u8; 32]).unwrap();
    let vk = sk.verifying_key();
    let pk_bytes = vk.to_sec1_point(true);
    let encoded = b58_encode_with_prefix(pk_bytes.as_bytes(), &P256_PK_PREFIX);
    let key = TezosCryptoPublicKey::from_base58check(encoded.as_str()).unwrap();
    assert!(matches!(key, TezosCryptoPublicKey::P256(_)));
    let address = key.public_key_hash_b58check().unwrap();
    assert!(address.starts_with("tz3"));

    let packed = pack_micheline_string("hello p256").unwrap();
    let digest = blake2b_256(&packed);
    let signature: p256::ecdsa::Signature = sk.sign(&digest);
    let sig_b58 = b58_encode_with_prefix(&signature.to_bytes(), &P256_SIG_PREFIX);
    assert_eq!(key.verify_signature(sig_b58.as_str(), &digest).unwrap(), true);
}

#[test]
fn cross_curve_keys_are_rejected_by_other_parsers() {
    // A key encoded under one curve's byte prefix does not parse when its
    // text is steered at another curve, whichever way it is presented.
    let (_, ed_encoded) = ed25519_fixture();
    // Present the same 32 raw bytes under the other curves' byte prefixes:
    // the text then carries their marker, and parsing must fail (wrong
    // length or not a point), never silently yield a key of another curve.
    let seed = [7u8; 32];
    let sk = ed25519_dalek::SigningKey::from_bytes(&seed);
    let raw = sk.verifying_key().to_bytes();
    let as_sppk = b58_encode_with_prefix(&raw, &SECP256K1_PK_PREFIX);
    let as_p2pk = b58_encode_with_prefix(&raw, &P256_PK_PREFIX);
    if as_sppk.starts_with("sppk") {
        assert!(TezosCryptoPublicKey::from_base58check(as_sppk.as_str()).is_err());
    }
    if as_p2pk.starts_with("p2pk") {
        assert!(TezosCryptoPublicKey::from_base58check(as_p2pk.as_str()).is_err());
    }
    // And an ed25519 key string is never parsed as another curve.
    let key = TezosCryptoPublicKey::from_base58check(ed_encoded.as_str()).unwrap();
    assert!(matches!(key, TezosCryptoPublicKey::Ed25519(_)));
}

#[test]
fn cross_curve_signature_is_rejected() {
    // A signature encoded under the secp256k1 prefix must be rejected when
    // verifying against an Edwards-curve key.
    let (sk, encoded) = ed25519_fixture();
    let key = TezosCryptoPublicKey::from_base58check(encoded.as_str()).unwrap();
    let packed = pack_micheline_string("cross curve").unwrap();
    let digest = blake2b_256(&packed);
    let signature = sk.sign(&digest);
    let sig_wrong_prefix = b58_encode_with_prefix(&signature.to_bytes(), &SECP256K1_SIG_PREFIX);
    assert!(key.verify_signature(sig_wrong_prefix.as_str(), &digest).is_err());
}

#[test]
fn addresses_differ_across_curves_for_identical_raw_bytes() {
    // Raw key bytes that are valid on both ECDSA curves must still derive
    // different addresses, because the address prefixes differ.
    let sk_k = k256::ecdsa::SigningKey::from_slice(&[17u8; 32]).unwrap();
    let raw = sk_k.verifying_key().to_sec1_point(true);
    let raw_bytes = raw.as_bytes().to_vec();
    let k1 = TezosCryptoPublicKey::Secp256k1(raw_bytes.clone());
    let k2 = TezosCryptoPublicKey::P256(raw_bytes);
    let a1 = k1.public_key_hash_b58check().unwrap();
    let a2 = k2.public_key_hash_b58check().unwrap();
    assert_ne!(a1, a2);
}

#[test]
fn unsupported_prefix_is_rejected() {
    let r = TezosCryptoPublicKey::from_base58check("xxpk123");
    match r {
        Err(AppError::ValidationError(_)) => {}
        _ => panic!("expected a validation error"),
    }
}

#[test]
fn wrong_length_key_is_rejected() {
    // 31 bytes under the edpk prefix: decodes but has the wrong raw length.
    let short = b58_encode_with_prefix(&[1u8; 31], &ED25519_PK_PREFIX);
    if short.starts_with("edpk") {
        let r = TezosCryptoPublicKey::from_base58check(short.as_str());
        match r {
            Err(AppError::ValidationError(_)) => {}
            _ => panic!("expected a validation error"),
        }
    }
}

#[test]
fn wrong_length_signature_is_rejected() {
    let (sk, encoded) = ed25519_fixture();
    let key = TezosCryptoPublicKey::from_base58check(encoded.as_str()).unwrap();
    let packed = pack_micheline_string("short sig").unwrap();
    let digest = blake2b_256(&packed);
    let signature = sk.sign(&digest);
    let short = &signature.to_bytes()[0..63];
    let sig_b58 = b58_encode_with_prefix(short, &ED25519_SIG_PREFIX);
    match key.verify_signature(sig_b58.as_str(), &digest) {
        Err(AppError::ValidationError(_)) => {}
        _ => panic!("expected a validation error"),
    }
}

#[test]
fn blake2b_256_matches_reference_digest() {
    let mut hasher = blake2::Blake2b::<blake2::digest::consts::U32>::new();
    hasher.update(b"abc");
    let expected = hasher.finalize().to_vec();
    assert_eq!(blake2b_256(b"abc"), expected);
    assert_eq!(blake2b_256(b"abc").len(), 32);
    assert_ne!(blake2b_256(b"abc"), blake2b_256(b"abd"));
}

#[test]
fn point_validation_agrees_with_ed25519_library() {
    // Whatever 32 bytes the curve library rejects, the parser rejects too.
    let mut found = false;
    for b in 0u16..=255 {
        let mut raw = [0u8; 32];
        raw[0] = b as u8;
        let lib_ok = ed25519_dalek::VerifyingKey::from_bytes(&raw).is_ok();
        let encoded = b58_encode_with_prefix(&raw, &ED25519_PK_PREFIX);
        if !encoded.starts_with("edpk") {
            continue;
        }
        let parsed = TezosCryptoPublicKey::from_base58check(encoded.as_str());
        assert_eq!(parsed.is_ok(), lib_ok, "disagreement on leading byte {}", b);
        if !lib_ok {
            found = true;
        }
    }
    assert!(found, "expected at least one rejected candidate");
}

#[test]
fn point_validation_agrees_with_secp256k1_library() {
    // An invalid SEC1 tag makes both the curve library and the parser
    // reject the bytes.
    let mut raw = [2u8; 33];
    raw[0] = 0x07;
    assert!(k256::ecdsa::VerifyingKey::from_sec1_bytes(&raw).is_err());
    let bad = b58_encode_with_prefix(&raw, &SECP256K1_PK_PREFIX);
    if bad.starts_with("sppk") {
        assert!(TezosCryptoPublicKey::from_base58check(bad.as_str()).is_err());
    }
}

#[test]
fn zero_scalars_signature_is_rejected() {
    // r = s = 0 is not a well-formed ECDSA scalar pair.
    let sk = k256::ecdsa::SigningKey::from_slice(&[19u8; 32]).unwrap();
    let raw = sk.verifying_key().to_sec1_point(true);
    let encoded = b58_encode_with_prefix(raw.as_bytes(), &SECP256K1_PK_PREFIX);
    let key = TezosCryptoPublicKey::from_base58check(encoded.as_str()).unwrap();
    let digest = blake2b_256(b"zero scalars");
    let sig_b58 = b58_encode_with_prefix(&[0u8; 64], &SECP256K1_SIG_PREFIX);
    match key.verify_signature(sig_b58.as_str(), &digest) {
        Err(AppError::ValidationError(_)) => {}
        _ => panic!("expected a validation error"),
    }
}
