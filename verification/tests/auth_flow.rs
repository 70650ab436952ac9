use ed25519_dalek::Signer;

use tezos_auth::auth_handler::{
    auth_status, debug_auth_status, get_tezos_challenge, tezos_login, TezosLoginPayload,
};
use tezos_auth::auth_middleware::{extract_admin_auth, require_auth_allows};
use tezos_auth::codec::b58_encode_with_prefix;
use tezos_auth::config::AuthConfig;
use tezos_auth::errors::AppError;
use tezos_auth::hexstr::hex_decode;
use tezos_auth::keys::{blake2b_256, TezosCryptoPublicKey};

const ED25519_PK_PREFIX: [u8; 4] = [13, 15, 37, 217];
const ED25519_SIG_PREFIX: [u8; 5] = [9, 245, 205, 134, 18];

struct Fixture {
    signing_key: ed25519_dalek::SigningKey,
    public_key: String,
    address: String,
}

fn fixture() -> Fixture {
    let seed = [21u8; 32];
    let signing_key = ed25519_dalek::SigningKey::from_bytes(&seed);
    let pk_bytes = signing_key.verifying_key().to_bytes();
    let public_key = b58_encode_with_prefix(&pk_bytes, &ED25519_PK_PREFIX);
    let key = TezosCryptoPublicKey::from_base58check(public_key.as_str()).unwrap();
    let address = key.public_key_hash_b58check().unwrap();
    Fixture { signing_key, public_key, address }
}

fn config_with(addresses: Vec<String>) -> AuthConfig {
    AuthConfig {
        enable_tezos_auth: true,
        admin_tezos_addresses: addresses,
        dev_mode: false,
        cookie_hmac_key: [33u8; 32],
    }
}

fn sign_challenge(f: &Fixture, packed_hex: &str) -> String {
    let packed = hex_decode(packed_hex).unwrap();
    let digest = blake2b_256(&packed);
    let signature = f.signing_key.sign(&digest);
    b58_encode_with_prefix(&signature.to_bytes(), &ED25519_SIG_PREFIX)
}

#[test]
fn end_to_end_login_and_status() {
    let f = fixture();
    let auth = config_with(vec![f.address.clone()]);

    let challenge = get_tezos_challenge().unwrap();
    assert!(challenge.challenge.starts_with("Sign this message to log in as admin: "));
    // 38 bytes of fixed text plus a 36-character nonce.
    assert_eq!(challenge.challenge.len(), 74);
    let signature = sign_challenge(&f, challenge.packed_bytes_hex.as_str());

    let payload = TezosLoginPayload {
        pkh: f.address.clone(),
        public_key: f.public_key.clone(),
        signature,
        challenge: challenge.challenge.clone(),
    };
    let cookie = tezos_login(&auth, &payload).expect("login must succeed");

    let status = auth_status(&auth, Some(cookie.as_str()));
    assert!(status.authenticated);
    assert_eq!(status.is_admin_address, Some(true));
    assert!(!status.dev_mode);

    // Remove the address from the allowlist: the same cookie no longer
    // authenticates.
    let revoked = config_with(vec!["tz1somebodyelse".to_string()]);
    let mut revoked = revoked;
    revoked.cookie_hmac_key = auth.cookie_hmac_key;
    let status_after = auth_status(&revoked, Some(cookie.as_str()));
    assert!(!status_after.authenticated);
    assert_eq!(status_after.is_admin_address, None);
}

#[test]
fn login_rejects_wrong_claimed_address() {
    let f = fixture();
    let auth = config_with(vec![f.address.clone()]);
    let challenge = get_tezos_challenge().unwrap();
    let signature = sign_challenge(&f, challenge.packed_bytes_hex.as_str());
    let payload = TezosLoginPayload {
        pkh: "tz1ZZZZZZZZZZZZZZZZZZZZZZZZZZZZZZZZ".to_string(),
        public_key: f.public_key.clone(),
        signature,
        challenge: challenge.challenge.clone(),
    };
    match tezos_login(&auth, &payload) {
        Err(AppError::ValidationError(_)) => {}
        _ => panic!("expected a validation error"),
    }
}

#[test]
fn login_rejects_bad_signature_as_unauthorized() {
    let f = fixture();
    let auth = config_with(vec![f.address.clone()]);
    let challenge = get_tezos_challenge().unwrap();
    // Sign a different message than the challenge.
    let other = blake2b_256(b"something else entirely");
    let signature = f.signing_key.sign(&other);
    let sig_b58 = b58_encode_with_prefix(&signature.to_bytes(), &ED25519_SIG_PREFIX);
    let payload = TezosLoginPayload {
        pkh: f.address.clone(),
        public_key: f.public_key.clone(),
        signature: sig_b58,
        challenge: challenge.challenge.clone(),
    };
    match tezos_login(&auth, &payload) {
        Err(AppError::Unauthorized) => {}
        _ => panic!("expected unauthorized"),
    }
}

#[test]
fn login_rejects_non_admin_address_as_unauthorized() {
    let f = fixture();
    let auth = config_with(vec!["tz1somebodyelse".to_string()]);
    let challenge = get_tezos_challenge().unwrap();
    let signature = sign_challenge(&f, challenge.packed_bytes_hex.as_str());
    let payload = TezosLoginPayload {
        pkh: f.address.clone(),
        public_key: f.public_key.clone(),
        signature,
        challenge: challenge.challenge.clone(),
    };
    match tezos_login(&auth, &payload) {
        Err(AppError::Unauthorized) => {}
        _ => panic!("expected unauthorized"),
    }
}

#[test]
fn login_rejects_malformed_key() {
    let f = fixture();
    let auth = config_with(vec![f.address.clone()]);
    let payload = TezosLoginPayload {
        pkh: f.address.clone(),
        public_key: "edpk-not-base58-0OIl".to_string(),
        signature: "whatever".to_string(),
        challenge: "whatever".to_string(),
    };
    match tezos_login(&auth, &payload) {
        Err(AppError::ValidationError(_)) => {}
        _ => panic!("expected a validation error"),
    }
}

#[test]
fn capability_extraction_paths() {
    let f = fixture();
    let auth = config_with(vec![f.address.clone()]);
    let challenge = get_tezos_challenge().unwrap();
    let signature = sign_challenge(&f, challenge.packed_bytes_hex.as_str());
    let payload = TezosLoginPayload {
        pkh: f.address.clone(),
        public_key: f.public_key.clone(),
        signature,
        challenge: challenge.challenge.clone(),
    };
    let cookie = tezos_login(&auth, &payload).unwrap();

    // Valid cookie: an address-bound capability.
    let cap = extract_admin_auth(&auth, Some(cookie.as_str()));
    assert!(cap.is_admin());
    assert!(!cap.is_dev_admin);
    assert_eq!(cap.tezos_admin_address.as_deref(), Some(f.address.as_str()));

    // No cookie, no bypass: the public capability.
    let cap = extract_admin_auth(&auth, None);
    assert!(!cap.is_admin());

    // No cookie, bypass on: a dev capability with no bound address.
    let mut dev = config_with(vec![f.address.clone()]);
    dev.dev_mode = true;
    let cap = extract_admin_auth(&dev, None);
    assert!(cap.is_admin());
    assert!(cap.is_dev_admin);
    assert!(cap.tezos_admin_address.is_none());

    // Feature disabled: public, whatever else holds.
    let mut off = config_with(vec![f.address.clone()]);
    off.enable_tezos_auth = false;
    off.dev_mode = true;
    let cap = extract_admin_auth(&off, None);
    assert!(!cap.is_admin());

    // The route decision mirrors the same logic.
    assert!(require_auth_allows(&off, None));
    assert!(!require_auth_allows(&auth, None));
    assert!(require_auth_allows(&auth, Some(cookie.as_str())));
    assert!(require_auth_allows(&dev, None));
    assert!(!require_auth_allows(&auth, Some("garbage")));
}

#[test]
fn debug_status_reports_session_state() {
    let f = fixture();
    let auth = config_with(vec![f.address.clone()]);
    let challenge = get_tezos_challenge().unwrap();
    let signature = sign_challenge(&f, challenge.packed_bytes_hex.as_str());
    let payload = TezosLoginPayload {
        pkh: f.address.clone(),
        public_key: f.public_key.clone(),
        signature,
        challenge: challenge.challenge.clone(),
    };
    let cookie = tezos_login(&auth, &payload).unwrap();

    let d = debug_auth_status(&auth, Some(cookie.as_str()));
    assert!(d.has_cookie);
    assert!(d.cookie_valid);
    assert_eq!(d.session_address.as_deref(), Some(f.address.as_str()));
    assert!(d.is_admin_address);
    assert_eq!(d.admin_addresses, vec![f.address.clone()]);

    let d = debug_auth_status(&auth, None);
    assert!(!d.has_cookie);
    assert!(!d.cookie_valid);
    assert!(d.session_address.is_none());
    assert!(!d.is_admin_address);

    let d = debug_auth_status(&auth, Some("garbage"));
    assert!(d.has_cookie);
    assert!(!d.cookie_valid);
}

#[test]
fn challenge_packed_hex_matches_challenge() {
    let resp = get_tezos_challenge().unwrap();
    let packed = hex_decode(resp.packed_bytes_hex.as_str()).unwrap();
    let expected_len = resp.challenge.len() as u32;
    assert_eq!(packed[0], 0x05);
    assert_eq!(packed[1], 0x01);
    assert_eq!(&packed[2..6], expected_len.to_be_bytes().as_slice());
    assert_eq!(&packed[6..], resp.challenge.as_bytes());
}
