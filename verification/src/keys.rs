use vstd::prelude::*;
use vstd::string::StringSliceAdditionalSpecFns;
use vstd::utf8::encode_utf8;

use crate::codec::{b58check_of, b58_decode_with_prefix_check, b58_encode_with_prefix, base58_of, sha256d_check};
use crate::errors::AppError;

use blake2::Digest;
use ed25519_dalek::Verifier;

verus! {

// --- Curve and address prefix constants ---
//
// These byte prefixes sit in front of the raw material before base-58-check
// encoding, so that the rendered text starts with a recognizable marker
// (edpk/sppk/p2pk for keys, edsig/spsig/p2sig for signatures, tz1/tz2/tz3
// for addresses).

pub open spec fn spec_ed25519_pk_prefix() -> Seq<u8> {
    seq![13u8, 15u8, 37u8, 217u8]
}

pub open spec fn spec_secp256k1_pk_prefix() -> Seq<u8> {
    seq![3u8, 254u8, 226u8, 86u8]
}

pub open spec fn spec_p256_pk_prefix() -> Seq<u8> {
    seq![3u8, 178u8, 139u8, 127u8]
}

pub open spec fn spec_ed25519_sig_prefix() -> Seq<u8> {
    seq![9u8, 245u8, 205u8, 134u8, 18u8]
}

pub open spec fn spec_secp256k1_sig_prefix() -> Seq<u8> {
    seq![13u8, 115u8, 101u8, 19u8, 63u8]
}

pub open spec fn spec_p256_sig_prefix() -> Seq<u8> {
    seq![54u8, 240u8, 44u8, 52u8]
}

pub open spec fn spec_tz1_prefix() -> Seq<u8> {
    seq![6u8, 161u8, 159u8]
}

pub open spec fn spec_tz2_prefix() -> Seq<u8> {
    seq![6u8, 161u8, 161u8]
}

pub open spec fn spec_tz3_prefix() -> Seq<u8> {
    seq![6u8, 161u8, 164u8]
}

fn ed25519_pk_prefix() -> (r: Vec<u8>)
    ensures
        r@ == spec_ed25519_pk_prefix(),
{
    let r = vec![13u8, 15u8, 37u8, 217u8];
    proof {
        assert(r@ =~= spec_ed25519_pk_prefix());
    }
    r
}

fn secp256k1_pk_prefix() -> (r: Vec<u8>)
    ensures
        r@ == spec_secp256k1_pk_prefix(),
{
    let r = vec![3u8, 254u8, 226u8, 86u8];
    proof {
        assert(r@ =~= spec_secp256k1_pk_prefix());
    }
    r
}

fn p256_pk_prefix() -> (r: Vec<u8>)
    ensures
        r@ == spec_p256_pk_prefix(),
{
    let r = vec![3u8, 178u8, 139u8, 127u8];
    proof {
        assert(r@ =~= spec_p256_pk_prefix());
    }
    r
}

fn ed25519_sig_prefix() -> (r: Vec<u8>)
    ensures
        r@ == spec_ed25519_sig_prefix(),
{
    let r = vec![9u8, 245u8, 205u8, 134u8, 18u8];
    proof {
        assert(r@ =~= spec_ed25519_sig_prefix());
    }
    r
}

fn secp256k1_sig_prefix() -> (r: Vec<u8>)
    ensures
        r@ == spec_secp256k1_sig_prefix(),
{
    let r = vec![13u8, 115u8, 101u8, 19u8, 63u8];
    proof {
        assert(r@ =~= spec_secp256k1_sig_prefix());
    }
    r
}

fn p256_sig_prefix() -> (r: Vec<u8>)
    ensures
        r@ == spec_p256_sig_prefix(),
{
    let r = vec![54u8, 240u8, 44u8, 52u8];
    proof {
        assert(r@ =~= spec_p256_sig_prefix());
    }
    r
}

fn tz1_prefix() -> (r: Vec<u8>)
    ensures
        r@ == spec_tz1_prefix(),
{
    let r = vec![6u8, 161u8, 159u8];
    proof {
        assert(r@ =~= spec_tz1_prefix());
    }
    r
}

fn tz2_prefix() -> (r: Vec<u8>)
    ensures
        r@ == spec_tz2_prefix(),
{
    let r = vec![6u8, 161u8, 161u8];
    proof {
        assert(r@ =~= spec_tz2_prefix());
    }
    r
}

fn tz3_prefix() -> (r: Vec<u8>)
    ensures
        r@ == spec_tz3_prefix(),
{
    let r = vec![6u8, 161u8, 164u8];
    proof {
        assert(r@ =~= spec_tz3_prefix());
    }
    r
}

/// The human-readable text markers the parser dispatches on.
pub open spec fn spec_edpk_text() -> Seq<u8> {
    seq![101u8, 100u8, 112u8, 107u8]  // "edpk"
}

pub open spec fn spec_sppk_text() -> Seq<u8> {
    seq![115u8, 112u8, 112u8, 107u8]  // "sppk"
}

pub open spec fn spec_p2pk_text() -> Seq<u8> {
    seq![112u8, 50u8, 112u8, 107u8]  // "p2pk"
}

pub open spec fn starts_with_bytes(s: Seq<u8>, p: Seq<u8>) -> bool {
    s.len() >= p.len() && s.take(p.len() as int) == p
}

/// Whether `s` begins with the four ASCII bytes `p0 p1 p2 p3`.
fn has_prefix4(s: &[u8], p0: u8, p1: u8, p2: u8, p3: u8) -> (r: bool)
    ensures
        r == starts_with_bytes(s@, seq![p0, p1, p2, p3]),
{
    let ghost p = seq![p0, p1, p2, p3];
    if s.len() >= 4 && s[0] == p0 && s[1] == p1 && s[2] == p2 && s[3] == p3 {
        proof {
            assert(s@.take(4) =~= p);
        }
        true
    } else {
        proof {
            if s@.len() >= 4 && s@.take(4) == p {
                assert(s@.take(4)[0] == p0 && s@.take(4)[1] == p1 && s@.take(4)[2] == p2
                    && s@.take(4)[3] == p3);
            }
        }
        false
    }
}

// --- Hashing and curve primitives relied on from outside crates ---

/// The 20-byte BLAKE2b digest of a byte sequence (the public-key hash).
pub uninterp spec fn blake2b20_of(data: Seq<u8>) -> Seq<u8>;

/// The 32-byte BLAKE2b digest of a byte sequence (the signed-message hash).
pub uninterp spec fn blake2b32_of(data: Seq<u8>) -> Seq<u8>;

/// Relies on blake2::Blake2b with 20-byte output: a digest that depends on
/// the input alone.
#[verifier::external_body]
fn blake2b_160(data: &[u8]) -> (r: Vec<u8>)
    ensures
        r@ == blake2b20_of(data@),
        r@.len() == 20,
{
    let mut hasher = blake2::Blake2b::<blake2::digest::consts::U20>::new();
    hasher.update(data);
    hasher.finalize().to_vec()
}

/// Relies on blake2::Blake2b with 32-byte output: a digest that depends on
/// the input alone.
#[verifier::external_body]
pub fn blake2b_256(data: &[u8]) -> (r: Vec<u8>)
    ensures
        r@ == blake2b32_of(data@),
        r@.len() == 32,
{
    let mut hasher = blake2::Blake2b::<blake2::digest::consts::U32>::new();
    hasher.update(data);
    hasher.finalize().to_vec()
}

/// Whether 32 bytes are a well-formed Edwards-curve verifying key.
pub uninterp spec fn ed25519_key_ok(pk: Seq<u8>) -> bool;

/// Whether an Edwards-curve signature verifies a message under a key.
pub uninterp spec fn ed25519_verifies(pk: Seq<u8>, msg: Seq<u8>, sig: Seq<u8>) -> bool;

/// Relies on ed25519_dalek::VerifyingKey::from_bytes: accepts exactly the
/// well-formed 32-byte point encodings, a property of the bytes alone.
#[verifier::external_body]
fn ed25519_key_check(pk: &[u8]) -> (r: bool)
    requires
        pk@.len() == 32,
    ensures
        r == ed25519_key_ok(pk@),
{
    let arr: &[u8; 32] = pk.try_into().unwrap();
    ed25519_dalek::VerifyingKey::from_bytes(arr).is_ok()
}

/// Relies on ed25519_dalek::VerifyingKey::verify (and Signature::from_bytes,
/// which accepts any 64 bytes): a deterministic function of key, message and
/// signature.
#[verifier::external_body]
fn ed25519_verify_check(pk: &[u8], msg: &[u8], sig: &[u8]) -> (r: bool)
    requires
        pk@.len() == 32,
        ed25519_key_ok(pk@),
        sig@.len() == 64,
    ensures
        r == ed25519_verifies(pk@, msg@, sig@),
{
    let pk_arr: &[u8; 32] = pk.try_into().unwrap();
    let sig_arr: &[u8; 64] = sig.try_into().unwrap();
    let vk = ed25519_dalek::VerifyingKey::from_bytes(pk_arr).unwrap();
    let signature = ed25519_dalek::Signature::from_bytes(sig_arr);
    vk.verify(msg, &signature).is_ok()
}

/// Whether bytes are a well-formed SEC1 point on the secp256k1 curve.
pub uninterp spec fn secp256k1_key_ok(pk: Seq<u8>) -> bool;

/// Whether 64 bytes are a well-formed secp256k1 scalar pair (r, s).
pub uninterp spec fn secp256k1_sig_ok(sig: Seq<u8>) -> bool;

/// Whether a secp256k1 ECDSA signature verifies a message under a key.
pub uninterp spec fn secp256k1_verifies(pk: Seq<u8>, msg: Seq<u8>, sig: Seq<u8>) -> bool;

/// Relies on k256::ecdsa::VerifyingKey::from_sec1_bytes: accepts exactly the
/// well-formed SEC1 encodings of curve points, a property of the bytes alone.
#[verifier::external_body]
fn secp256k1_key_check(pk: &[u8]) -> (r: bool)
    ensures
        r == secp256k1_key_ok(pk@),
{
    k256::ecdsa::VerifyingKey::from_sec1_bytes(pk).is_ok()
}

/// Relies on k256::ecdsa::Signature::from_slice (accepts exactly well-formed
/// scalar pairs) and VerifyingKey::verify: both deterministic in their
/// byte inputs.
#[verifier::external_body]
fn secp256k1_verify_check(pk: &[u8], msg: &[u8], sig: &[u8]) -> (r: Option<bool>)
    requires
        secp256k1_key_ok(pk@),
    ensures
        r is None <==> !secp256k1_sig_ok(sig@),
        r matches Some(b) ==> b == secp256k1_verifies(pk@, msg@, sig@),
{
    let signature = match k256::ecdsa::Signature::from_slice(sig) {
        Ok(s) => s,
        Err(_) => {
            return None;
        },
    };
    let vk = k256::ecdsa::VerifyingKey::from_sec1_bytes(pk).unwrap();
    Some(vk.verify(msg, &signature).is_ok())
}

/// Whether bytes are a well-formed SEC1 point on the P-256 curve.
pub uninterp spec fn p256_key_ok(pk: Seq<u8>) -> bool;

/// Whether 64 bytes are a well-formed P-256 scalar pair (r, s).
pub uninterp spec fn p256_sig_ok(sig: Seq<u8>) -> bool;

/// Whether a P-256 ECDSA signature verifies a message under a key.
pub uninterp spec fn p256_verifies(pk: Seq<u8>, msg: Seq<u8>, sig: Seq<u8>) -> bool;

/// Relies on p256::ecdsa::VerifyingKey::from_sec1_bytes: accepts exactly the
/// well-formed SEC1 encodings of curve points, a property of the bytes alone.
#[verifier::external_body]
fn p256_key_check(pk: &[u8]) -> (r: bool)
    ensures
        r == p256_key_ok(pk@),
{
    p256::ecdsa::VerifyingKey::from_sec1_bytes(pk).is_ok()
}

/// Relies on p256::ecdsa::Signature::from_slice (accepts exactly well-formed
/// scalar pairs) and VerifyingKey::verify: both deterministic in their
/// byte inputs.
#[verifier::external_body]
fn p256_verify_check(pk: &[u8], msg: &[u8], sig: &[u8]) -> (r: Option<bool>)
    requires
        p256_key_ok(pk@),
    ensures
        r is None <==> !p256_sig_ok(sig@),
        r matches Some(b) ==> b == p256_verifies(pk@, msg@, sig@),
{
    let signature = match p256::ecdsa::Signature::from_slice(sig) {
        Ok(s) => s,
        Err(_) => {
            return None;
        },
    };
    let vk = p256::ecdsa::VerifyingKey::from_sec1_bytes(pk).unwrap();
    Some(vk.verify(msg, &signature).is_ok())
}

// --- The public-key model ---

/// A parsed wallet public key: one variant per supported curve, each holding
/// the raw key material recovered from its base-58-check text form.
pub enum TezosCryptoPublicKey {
    Ed25519(Vec<u8>),
    Secp256k1(Vec<u8>),
    P256(Vec<u8>),
}

impl TezosCryptoPublicKey {
    /// The raw key bytes the address is derived from.
    pub open spec fn spec_raw_bytes(self) -> Seq<u8> {
        match self {
            TezosCryptoPublicKey::Ed25519(b) => b@,
            TezosCryptoPublicKey::Secp256k1(b) => b@,
            TezosCryptoPublicKey::P256(b) => b@,
        }
    }

    /// Well-formedness: the raw material has the curve's fixed length and the
    /// curve library accepts the point.
    pub open spec fn wf(self) -> bool {
        match self {
            TezosCryptoPublicKey::Ed25519(b) => b@.len() == 32 && ed25519_key_ok(b@),
            TezosCryptoPublicKey::Secp256k1(b) => b@.len() == 33 && secp256k1_key_ok(b@),
            TezosCryptoPublicKey::P256(b) => b@.len() == 33 && p256_key_ok(b@),
        }
    }

    /// The byte prefix under which this curve's public keys are encoded.
    pub open spec fn spec_pk_prefix(self) -> Seq<u8> {
        match self {
            TezosCryptoPublicKey::Ed25519(_) => spec_ed25519_pk_prefix(),
            TezosCryptoPublicKey::Secp256k1(_) => spec_secp256k1_pk_prefix(),
            TezosCryptoPublicKey::P256(_) => spec_p256_pk_prefix(),
        }
    }

    /// The byte prefix under which this curve's signatures are encoded.
    pub open spec fn spec_sig_prefix(self) -> Seq<u8> {
        match self {
            TezosCryptoPublicKey::Ed25519(_) => spec_ed25519_sig_prefix(),
            TezosCryptoPublicKey::Secp256k1(_) => spec_secp256k1_sig_prefix(),
            TezosCryptoPublicKey::P256(_) => spec_p256_sig_prefix(),
        }
    }

    /// The byte prefix under which this curve's addresses are encoded.
    pub open spec fn spec_address_prefix(self) -> Seq<u8> {
        match self {
            TezosCryptoPublicKey::Ed25519(_) => spec_tz1_prefix(),
            TezosCryptoPublicKey::Secp256k1(_) => spec_tz2_prefix(),
            TezosCryptoPublicKey::P256(_) => spec_tz3_prefix(),
        }
    }

    /// Whether 64 raw signature bytes are well-formed for this curve.
    pub open spec fn spec_sig_scalars_ok(self, sig: Seq<u8>) -> bool {
        match self {
            TezosCryptoPublicKey::Ed25519(_) => true,
            TezosCryptoPublicKey::Secp256k1(_) => secp256k1_sig_ok(sig),
            TezosCryptoPublicKey::P256(_) => p256_sig_ok(sig),
        }
    }

    /// Whether raw signature bytes verify a message hash under this key.
    pub open spec fn spec_verifies(self, msg: Seq<u8>, sig: Seq<u8>) -> bool {
        match self {
            TezosCryptoPublicKey::Ed25519(b) => ed25519_verifies(b@, msg, sig),
            TezosCryptoPublicKey::Secp256k1(b) => secp256k1_verifies(b@, msg, sig),
            TezosCryptoPublicKey::P256(b) => p256_verifies(b@, msg, sig),
        }
    }

    /// The address text (as bytes) this key derives: the base-58-check
    /// rendering of the 20-byte BLAKE2b hash of the raw key bytes, under the
    /// curve's address prefix.
    pub open spec fn spec_address(self) -> Seq<u8> {
        b58check_of(self.spec_address_prefix(), blake2b20_of(self.spec_raw_bytes()))
    }

    /// Parse a public key from its prefixed base-58-check text form.
    ///
    /// The curve is selected once, from the human-readable marker; the body
    /// of the text must then decode under that curve's byte prefix, have the
    /// curve's raw length, and name a point the curve library accepts. Each
    /// failure is a `ValidationError`.
    pub fn from_base58check(key_str: &str) -> (r: Result<TezosCryptoPublicKey, AppError>)
        ensures
            r matches Ok(k) ==> k.wf(),
            r matches Ok(k) ==> (k is Ed25519 <==> starts_with_bytes(
                key_str.spec_bytes(),
                spec_edpk_text(),
            )),
            r matches Ok(k) ==> (k is Secp256k1 <==> starts_with_bytes(
                key_str.spec_bytes(),
                spec_sppk_text(),
            )),
            r matches Ok(k) ==> (k is P256 <==> starts_with_bytes(
                key_str.spec_bytes(),
                spec_p2pk_text(),
            )),
            r matches Ok(k) ==> key_str.spec_bytes() == b58check_of(
                k.spec_pk_prefix(),
                k.spec_raw_bytes(),
            ),
            starts_with_bytes(key_str.spec_bytes(), spec_edpk_text()) ==> forall|q: Seq<u8>|
                (key_str.spec_bytes() == b58check_of(spec_ed25519_pk_prefix(), q) && q.len() == 32
                    && ed25519_key_ok(q)) ==> (r matches Ok(k) && k is Ed25519
                    && k.spec_raw_bytes() == q),
            starts_with_bytes(key_str.spec_bytes(), spec_sppk_text()) ==> forall|q: Seq<u8>|
                (key_str.spec_bytes() == b58check_of(spec_secp256k1_pk_prefix(), q) && q.len()
                    == 33 && secp256k1_key_ok(q)) ==> (r matches Ok(k) && k is Secp256k1
                    && k.spec_raw_bytes() == q),
            starts_with_bytes(key_str.spec_bytes(), spec_p2pk_text()) ==> forall|q: Seq<u8>|
                (key_str.spec_bytes() == b58check_of(spec_p256_pk_prefix(), q) && q.len() == 33
                    && p256_key_ok(q)) ==> (r matches Ok(k) && k is P256 && k.spec_raw_bytes()
                    == q),
            !starts_with_bytes(key_str.spec_bytes(), spec_edpk_text()) && !starts_with_bytes(
                key_str.spec_bytes(),
                spec_sppk_text(),
            ) && !starts_with_bytes(key_str.spec_bytes(), spec_p2pk_text()) ==> r is Err,
            r matches Err(e) ==> e is ValidationError,
    {
        let s = key_str.as_bytes();
        if has_prefix4(s, 101, 100, 112, 107) {
            let prefix = ed25519_pk_prefix();
            let raw_pk = b58_decode_with_prefix_check(key_str, prefix.as_slice())?;
            if raw_pk.len() != 32 {
                return Err(
                    AppError::ValidationError("Invalid Ed25519 public key length".to_owned()),
                );
            }
            if !ed25519_key_check(raw_pk.as_slice()) {
                return Err(AppError::ValidationError("Invalid Ed25519 public key".to_owned()));
            }
            Ok(TezosCryptoPublicKey::Ed25519(raw_pk))
        } else if has_prefix4(s, 115, 112, 112, 107) {
            let prefix = secp256k1_pk_prefix();
            let raw_pk = b58_decode_with_prefix_check(key_str, prefix.as_slice())?;
            if raw_pk.len() != 33 {
                return Err(
                    AppError::ValidationError("Invalid Secp256k1 public key length".to_owned()),
                );
            }
            if !secp256k1_key_check(raw_pk.as_slice()) {
                return Err(AppError::ValidationError("Secp256k1 PK decode error".to_owned()));
            }
            Ok(TezosCryptoPublicKey::Secp256k1(raw_pk))
        } else if has_prefix4(s, 112, 50, 112, 107) {
            let prefix = p256_pk_prefix();
            let raw_pk = b58_decode_with_prefix_check(key_str, prefix.as_slice())?;
            if raw_pk.len() != 33 {
                return Err(AppError::ValidationError("Invalid P256 public key length".to_owned()));
            }
            if !p256_key_check(raw_pk.as_slice()) {
                return Err(AppError::ValidationError("P256 PK decode error".to_owned()));
            }
            Ok(TezosCryptoPublicKey::P256(raw_pk))
        } else {
            Err(AppError::ValidationError("Unsupported public key prefix".to_owned()))
        }
    }

    /// Decode a prefixed base-58-check signature for this key's curve and
    /// verify it against a message hash.
    ///
    /// `Ok(b)` exactly when the signature text decodes under this curve's
    /// signature prefix to 64 well-formed raw bytes; `b` is then the curve
    /// library's verdict on those bytes. A malformed signature is a
    /// `ValidationError`; no other error arises for a well-formed key.
    pub fn verify_signature(&self, signature_b58: &str, message_hash: &[u8]) -> (r: Result<
        bool,
        AppError,
    >)
        requires
            self.wf(),
        ensures
            forall|q: Seq<u8>|
                (signature_b58.spec_bytes() == b58check_of(self.spec_sig_prefix(), q) && q.len()
                    == 64 && self.spec_sig_scalars_ok(q)) ==> (r matches Ok(b) && b
                    == self.spec_verifies(message_hash@, q)),
            r matches Ok(b) ==> exists|q: Seq<u8>|
                signature_b58.spec_bytes() == b58check_of(self.spec_sig_prefix(), q) && q.len()
                    == 64 && self.spec_sig_scalars_ok(q) && b == self.spec_verifies(
                    message_hash@,
                    q,
                ),
            r matches Err(e) ==> e is ValidationError,
    {
        match self {
            TezosCryptoPublicKey::Ed25519(pk) => {
                let prefix = ed25519_sig_prefix();
                let sig_bytes = b58_decode_with_prefix_check(signature_b58, prefix.as_slice())?;
                if sig_bytes.len() != 64 {
                    return Err(
                        AppError::ValidationError("Invalid Ed25519 signature length".to_owned()),
                    );
                }
                Ok(ed25519_verify_check(pk.as_slice(), message_hash, sig_bytes.as_slice()))
            },
            TezosCryptoPublicKey::Secp256k1(pk) => {
                let prefix = secp256k1_sig_prefix();
                let sig_bytes = b58_decode_with_prefix_check(signature_b58, prefix.as_slice())?;
                if sig_bytes.len() != 64 {
                    return Err(
                        AppError::ValidationError("Invalid Secp256k1 signature length".to_owned()),
                    );
                }
                match secp256k1_verify_check(pk.as_slice(), message_hash, sig_bytes.as_slice()) {
                    Some(b) => Ok(b),
                    None => Err(
                        AppError::ValidationError("Secp256k1 sig decode error".to_owned()),
                    ),
                }
            },
            TezosCryptoPublicKey::P256(pk) => {
                let prefix = p256_sig_prefix();
                let sig_bytes = b58_decode_with_prefix_check(signature_b58, prefix.as_slice())?;
                if sig_bytes.len() != 64 {
                    return Err(
                        AppError::ValidationError("Invalid P256 signature length".to_owned()),
                    );
                }
                match p256_verify_check(pk.as_slice(), message_hash, sig_bytes.as_slice()) {
                    Some(b) => Ok(b),
                    None => Err(AppError::ValidationError("P256 sig decode error".to_owned())),
                }
            },
        }
    }

    /// Derive the canonical address text for this key: base-58-check of the
    /// 20-byte BLAKE2b hash of the raw key bytes under the curve's address
    /// prefix. Deterministic, and the result pins the curve down: no text
    /// rendered under another three-byte prefix can collide with it.
    pub fn public_key_hash_b58check(&self) -> (r: Result<String, AppError>)
        ensures
            r matches Ok(a) && encode_utf8(a@) == self.spec_address(),
            r matches Ok(a) ==> forall|pre2: Seq<u8>, pay2: Seq<u8>|
                (encode_utf8(a@) == b58check_of(pre2, pay2) && pre2.len() == 3) ==> pre2
                    == self.spec_address_prefix(),
    {
        let raw: &Vec<u8> = match self {
            TezosCryptoPublicKey::Ed25519(b) => b,
            TezosCryptoPublicKey::Secp256k1(b) => b,
            TezosCryptoPublicKey::P256(b) => b,
        };
        let pkh = blake2b_160(raw.as_slice());
        let prefix = match self {
            TezosCryptoPublicKey::Ed25519(_) => tz1_prefix(),
            TezosCryptoPublicKey::Secp256k1(_) => tz2_prefix(),
            TezosCryptoPublicKey::P256(_) => tz3_prefix(),
        };
        let addr = b58_encode_with_prefix(pkh.as_slice(), prefix.as_slice());
        proof {
            assert forall|pre2: Seq<u8>, pay2: Seq<u8>|
                (encode_utf8(addr@) == b58check_of(pre2, pay2) && pre2.len() == 3) implies pre2
                == self.spec_address_prefix() by {
                let w2 = pre2 + pay2 + sha256d_check(pre2 + pay2);
                assert(base58_of(w2) == encode_utf8(addr@));
                assert(w2 == self.spec_address_prefix() + blake2b20_of(self.spec_raw_bytes())
                    + sha256d_check(
                    self.spec_address_prefix() + blake2b20_of(self.spec_raw_bytes()),
                ));
                assert(pre2 =~= w2.take(3));
                assert(self.spec_address_prefix() =~= w2.take(3));
            }
        }
        Ok(addr)
    }
}

} // verus!
