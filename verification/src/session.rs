use vstd::prelude::*;
use vstd::string::StringSliceAdditionalSpecFns;
use vstd::utf8::{encode_utf8, valid_utf8};

use crate::auth::TezosAdminSession;
use crate::bytes::{rfind_byte, subvec};
use crate::session_json::{parse_session, spec_parse_session};
use crate::strutil::{ascii_to_string, utf8_to_string};

use base64::Engine;
use hmac::{KeyInit, Mac};

verus! {

/// The standard-alphabet, padded base64 rendering of a byte sequence, as
/// computed by the base64 crate (one ASCII byte per output character).
pub uninterp spec fn b64_of(data: Seq<u8>) -> Seq<u8>;

/// The 32-byte HMAC-SHA-256 tag of a message under a key.
pub uninterp spec fn hmac_sha256_of(key: Seq<u8>, msg: Seq<u8>) -> Seq<u8>;

/// Relies on base64's STANDARD engine encode: a bijective rendering into
/// the 64-letter alphabet plus `=` padding; never emits a dot.
#[verifier::external_body]
fn b64_encode(data: &[u8]) -> (r: Vec<u8>)
    ensures
        r@ == b64_of(data@),
        forall|i: int| 0 <= i < r@.len() ==> r@[i] < 0x80 && r@[i] != 0x2E,
        forall|w: Seq<u8>| b64_of(w) == r@ ==> w == data@,
{
    base64::engine::general_purpose::STANDARD.encode(data).into_bytes()
}

/// Relies on base64's STANDARD engine decode, which requires canonical
/// padding and zero trailing bits: it inverts the encode exactly, and fails
/// exactly when no byte string renders to the input.
#[verifier::external_body]
fn b64_decode(data: &[u8]) -> (r: Option<Vec<u8>>)
    ensures
        r matches Some(v) ==> b64_of(v@) == data@,
        r matches Some(v) ==> forall|w: Seq<u8>| b64_of(w) == data@ ==> w == v@,
        r is None ==> forall|w: Seq<u8>| b64_of(w) != data@,
{
    base64::engine::general_purpose::STANDARD.decode(data).ok()
}

/// Relies on hmac::Hmac<sha2::Sha256>: a 32-byte tag that depends on key and
/// message alone (any key length is accepted).
#[verifier::external_body]
fn hmac_sha256(key: &[u8; 32], msg: &[u8]) -> (r: Vec<u8>)
    ensures
        r@ == hmac_sha256_of(key@, msg@),
        r@.len() == 32,
{
    let mut mac = <hmac::Hmac<sha2::Sha256> as KeyInit>::new_from_slice(key.as_slice()).unwrap();
    mac.update(msg);
    mac.finalize().into_bytes().to_vec()
}

/// Relies on hmac's verify_slice: a constant-time comparison of the given
/// tag against the tag of the message under the key, true exactly on
/// equality.
#[verifier::external_body]
fn hmac_sha256_verify(key: &[u8; 32], msg: &[u8], tag: &[u8]) -> (r: bool)
    ensures
        r == (tag@ == hmac_sha256_of(key@, msg@)),
{
    let mut mac = <hmac::Hmac<sha2::Sha256> as KeyInit>::new_from_slice(key.as_slice()).unwrap();
    mac.update(msg);
    mac.verify_slice(tag).is_ok()
}

/// The signed token carried by the cookie: base64 of the payload, a dot,
/// then base64 of the payload's HMAC tag (the tag is taken over the base64
/// text, not the raw payload).
pub open spec fn token_bytes(json: Seq<u8>, key: Seq<u8>) -> Seq<u8> {
    b64_of(json) + seq![0x2Eu8] + b64_of(hmac_sha256_of(key, b64_of(json)))
}

/// When a cookie text stands for the session payload `json` under `key`:
/// either it splits at its last dot into the payload's base64 and a valid
/// tag's base64, or — the legacy, unsigned form — it has no dot and is the
/// payload's base64 outright.
pub open spec fn spec_accepts(c: Seq<u8>, key: Seq<u8>, json: Seq<u8>) -> bool {
    (exists|d: int|
        0 <= d < c.len() && c[d] == 0x2E && (forall|j: int| d < j < c.len() ==> c[j] != 0x2E)
            && c.take(d) == b64_of(json) && c.skip(d + 1) == b64_of(
            hmac_sha256_of(key, b64_of(json)),
        )) || ((forall|i: int| 0 <= i < c.len() ==> c[i] != 0x2E) && c == b64_of(json))
}

/// Sign a session payload given as raw bytes; the cookie value is
/// `base64(json).base64(tag)`.
pub fn sign_token(json_bytes: &[u8], hmac_key: &[u8; 32]) -> (r: String)
    ensures
        encode_utf8(r@) == token_bytes(json_bytes@, hmac_key@),
        spec_accepts(encode_utf8(r@), hmac_key@, json_bytes@),
{
    let ghost json = json_bytes@;
    let data = b64_encode(json_bytes);
    let tag = hmac_sha256(hmac_key, data.as_slice());
    let mut tag_b64 = b64_encode(tag.as_slice());
    let ghost d = data@.len() as int;
    let mut token = data;
    token.push(0x2E);
    token.append(&mut tag_b64);
    proof {
        assert(token@ =~= token_bytes(json, hmac_key@));
    }
    let out = ascii_to_string(token);
    proof {
        let c = encode_utf8(out@);
        assert(c.take(d) =~= b64_of(json));
        assert(c.skip(d + 1) =~= b64_of(hmac_sha256_of(hmac_key@, b64_of(json))));
        assert(0 <= d < c.len() && c[d] == 0x2E && (forall|j: int|
            d < j < c.len() ==> c[j] != 0x2E) && c.take(d) == b64_of(json) && c.skip(d + 1)
            == b64_of(hmac_sha256_of(hmac_key@, b64_of(json))));
    }
    out
}

/// Sign session data given as text and return the cookie value,
/// `base64(json).base64(tag)`.
pub fn sign_session_cookie(session_json: &str, hmac_key: &[u8; 32]) -> (r: String)
    ensures
        encode_utf8(r@) == token_bytes(session_json.spec_bytes(), hmac_key@),
        spec_accepts(encode_utf8(r@), hmac_key@, session_json.spec_bytes()),
{
    sign_token(session_json.as_bytes(), hmac_key)
}

/// Verify and decode a signed session cookie.
///
/// The token is accepted exactly when it stands for a session payload under
/// the key (`spec_accepts`, covering both the signed and the legacy unsigned
/// form), that payload parses under the session grammar, and the address is
/// valid UTF-8; the returned session then holds exactly that address.
pub fn verify_session_cookie(cookie_value: &str, hmac_key: &[u8; 32]) -> (r: Option<
    TezosAdminSession,
>)
    ensures
        forall|json: Seq<u8>|
            #![trigger spec_accepts(cookie_value.spec_bytes(), hmac_key@, json)]
            spec_accepts(cookie_value.spec_bytes(), hmac_key@, json) ==> (spec_parse_session(json)
                matches Some(a) ==> (valid_utf8(a) ==> (r matches Some(s) && encode_utf8(
                s.address@,
            ) == a))),
        r matches Some(s) ==> exists|json: Seq<u8>|
            spec_accepts(cookie_value.spec_bytes(), hmac_key@, json) && #[trigger] spec_parse_session(
                json,
            ) == Some(encode_utf8(s.address@)),
{
    let bytes = cookie_value.as_bytes();
    let ghost c = cookie_value.spec_bytes();
    match rfind_byte(bytes, 0x2E) {
        Some(dot) => {
            let n = bytes.len();
            assert(dot < n);
            let data = subvec(bytes, 0, dot);
            let sig = subvec(bytes, dot + 1, n);
            proof {
                assert(data@ =~= c.take(dot as int));
                assert(sig@ =~= c.skip(dot + 1));
            }
            let ghost gd = dot as int;
            let sig_bytes = match b64_decode(sig.as_slice()) {
                Some(v) => v,
                None => {
                    proof {
                        lemma_no_signed_witness(c, hmac_key@, gd);
                    }
                    return None;
                },
            };
            if !hmac_sha256_verify(hmac_key, data.as_slice(), sig_bytes.as_slice()) {
                proof {
                    lemma_no_signed_witness(c, hmac_key@, gd);
                }
                return None;
            }
            let json_bytes = match b64_decode(data.as_slice()) {
                Some(v) => v,
                None => {
                    proof {
                        lemma_no_signed_witness(c, hmac_key@, gd);
                    }
                    return None;
                },
            };
            let content = match parse_session(json_bytes.as_slice()) {
                Some(v) => v,
                None => {
                    proof {
                        lemma_no_signed_witness(c, hmac_key@, gd);
                    }
                    return None;
                },
            };
            match utf8_to_string(content) {
                Some(address) => Some(TezosAdminSession { address }),
                None => {
                    proof {
                        lemma_no_signed_witness(c, hmac_key@, gd);
                    }
                    None
                },
            }
        },
        None => {
            proof {
                lemma_no_dot_witness(c, hmac_key@);
            }
            let json_bytes = match b64_decode(bytes) {
                Some(v) => v,
                None => {
                    return None;
                },
            };
            let content = match parse_session(json_bytes.as_slice()) {
                Some(v) => v,
                None => {
                    return None;
                },
            };
            match utf8_to_string(content) {
                Some(address) => Some(TezosAdminSession { address }),
                None => None,
            }
        },
    }
}

/// In a text without any dot, any accepted session payload must come
/// through the legacy branch: the text is the payload's base64 outright.
proof fn lemma_no_dot_witness(c: Seq<u8>, key: Seq<u8>)
    requires
        forall|i: int| 0 <= i < c.len() ==> c[i] != 0x2E,
    ensures
        forall|json: Seq<u8>| #[trigger] spec_accepts(c, key, json) ==> c == b64_of(json),
{
    assert forall|json: Seq<u8>| #[trigger] spec_accepts(c, key, json) implies c == b64_of(
        json,
    ) by {
        if !((forall|i: int| 0 <= i < c.len() ==> c[i] != 0x2E) && c == b64_of(json)) {
            let d2 = choose|d2: int|
                0 <= d2 < c.len() && c[d2] == 0x2E && (forall|j: int|
                    d2 < j < c.len() ==> c[j] != 0x2E) && c.take(d2) == b64_of(json) && c.skip(
                    d2 + 1,
                ) == b64_of(hmac_sha256_of(key, b64_of(json)));
            assert(c[d2] != 0x2E);
        }
    }
}

/// In a text whose last dot sits at `d`, any accepted session payload must
/// come through the signed branch split exactly at `d`.
proof fn lemma_no_signed_witness(c: Seq<u8>, key: Seq<u8>, d: int)
    requires
        0 <= d < c.len(),
        c[d] == 0x2E,
        forall|j: int| d < j < c.len() ==> c[j] != 0x2E,
    ensures
        forall|json: Seq<u8>|
            #[trigger] spec_accepts(c, key, json) ==> (c.take(d) == b64_of(json) && c.skip(d + 1)
                == b64_of(hmac_sha256_of(key, b64_of(json)))),
{
    assert forall|json: Seq<u8>| #[trigger] spec_accepts(c, key, json) implies (c.take(d)
        == b64_of(json) && c.skip(d + 1) == b64_of(hmac_sha256_of(key, b64_of(json)))) by {
        if (forall|i: int| 0 <= i < c.len() ==> c[i] != 0x2E) && c == b64_of(json) {
            assert(c[d] != 0x2E);
        } else {
            let d2 = choose|d2: int|
                0 <= d2 < c.len() && c[d2] == 0x2E && (forall|j: int|
                    d2 < j < c.len() ==> c[j] != 0x2E) && c.take(d2) == b64_of(json) && c.skip(
                    d2 + 1,
                ) == b64_of(hmac_sha256_of(key, b64_of(json)));
            if d2 < d {
                assert(c[d] != 0x2E);
            }
            if d2 > d {
                assert(c[d2] != 0x2E);
            }
            assert(d2 == d);
        }
    }
}

} // verus!
