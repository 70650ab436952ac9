use vstd::prelude::*;
use vstd::string::StringSliceAdditionalSpecFns;
use vstd::utf8::encode_utf8;

use crate::codec::b58check_of;
use crate::config::{spec_in_list, AuthConfig};
use crate::errors::AppError;
use crate::hexstr::{hex_encode, hex_of};
use crate::keys::{
    blake2b32_of, blake2b_256, spec_edpk_text, spec_p2pk_text, spec_sppk_text,
    starts_with_bytes, TezosCryptoPublicKey,
};
use crate::micheline::{micheline_packed_of, pack_micheline_string};
use crate::auth_middleware::{spec_cookie_yields, spec_valid_admin};
use crate::session::{sign_token, spec_accepts, token_bytes, verify_session_cookie};
use crate::session_json::spec_parse_session;
use crate::session_json::{render_session, session_json_of};
use crate::strutil::utf8_to_string;

verus! {

/// A challenge and the hex of its packed form, as returned to the client.
pub struct ChallengeResponse {
    pub challenge: String,
    pub packed_bytes_hex: String,
}

/// The same pair as carried in a request or response body.
pub struct ChallengePayload {
    pub challenge: String,
    pub packed_bytes_hex: String,
}

/// A login submission: the claimed address, the encoded public key, the
/// encoded signature, and the challenge text that was signed.
pub struct TezosLoginPayload {
    pub pkh: String,
    pub public_key: String,
    pub signature: String,
    pub challenge: String,
}

/// Relies on uuid::Uuid::new_v4 rendered by Display: 36 ASCII characters
/// (hyphenated hex); the value drawn is random and nothing more is assumed
/// of it.
#[verifier::external_body]
fn new_uuid_string() -> (r: String)
    ensures
        r@.len() == 36,
        vstd::utf8::is_ascii_chars(r@),
{
    uuid::Uuid::new_v4().to_string()
}

/// When parsing `pk_s` as a public key can yield `k`: the text carries the
/// marker of `k`'s curve and is the base-58-check rendering of `k`'s
/// well-formed raw material under that curve's key prefix.
pub open spec fn spec_key_matches(pk_s: Seq<u8>, k: TezosCryptoPublicKey) -> bool {
    &&& k.wf()
    &&& pk_s == b58check_of(k.spec_pk_prefix(), k.spec_raw_bytes())
    &&& (k is Ed25519 ==> starts_with_bytes(pk_s, spec_edpk_text()))
    &&& (k is Secp256k1 ==> starts_with_bytes(pk_s, spec_sppk_text()))
    &&& (k is P256 ==> starts_with_bytes(pk_s, spec_p2pk_text()))
}

/// When `sig_s` is a well-formed encoded signature for `k`'s curve with raw
/// bytes `q`.
pub open spec fn spec_sig_matches(k: TezosCryptoPublicKey, sig_s: Seq<u8>, q: Seq<u8>) -> bool {
    sig_s == b58check_of(k.spec_sig_prefix(), q) && q.len() == 64 && k.spec_sig_scalars_ok(q)
}

/// The submitted key parses and its derived address is the claimed one.
pub open spec fn spec_login_addr_ok(pk_s: Seq<u8>, pkh: Seq<char>) -> bool {
    exists|k: TezosCryptoPublicKey|
        #[trigger] spec_key_matches(pk_s, k) && encode_utf8(pkh) == k.spec_address()
}

/// On top of the address check, the signature text decodes for the key's
/// curve.
pub open spec fn spec_login_sig_decodes(pk_s: Seq<u8>, pkh: Seq<char>, sig_s: Seq<u8>) -> bool {
    exists|k: TezosCryptoPublicKey, q: Seq<u8>|
        #[trigger] spec_key_matches(pk_s, k) && encode_utf8(pkh) == k.spec_address()
            && #[trigger] spec_sig_matches(k, sig_s, q)
}

/// On top of that, the signature cryptographically verifies the packed,
/// hashed challenge.
pub open spec fn spec_login_verified(
    pk_s: Seq<u8>,
    pkh: Seq<char>,
    sig_s: Seq<u8>,
    chal: Seq<u8>,
) -> bool {
    exists|k: TezosCryptoPublicKey, q: Seq<u8>|
        #[trigger] spec_key_matches(pk_s, k) && encode_utf8(pkh) == k.spec_address()
            && #[trigger] spec_sig_matches(k, sig_s, q) && k.spec_verifies(
            blake2b32_of(micheline_packed_of(chal)),
            q,
        )
}

/// Issue a fresh login challenge: an unguessable text, together with the
/// hex rendering of the packed bytes a wallet will sign over.
///
/// The challenge is the fixed 38-character invitation followed by the
/// 36-character nonce; the nonce itself is random and nothing is promised
/// of its value.
pub fn get_tezos_challenge() -> (r: Result<ChallengeResponse, AppError>)
    ensures
        r is Ok,
        r matches Ok(resp) ==> encode_utf8(resp.packed_bytes_hex@) == hex_of(
            micheline_packed_of(encode_utf8(resp.challenge@)),
        ),
        r matches Ok(resp) ==> resp.challenge@.len() == 74 && resp.challenge@.subrange(0, 38)
            == "Sign this message to log in as admin: "@ && vstd::utf8::is_ascii_chars(
            resp.challenge@,
        ),
{
    let nonce = new_uuid_string();
    let prefix = "Sign this message to log in as admin: ";
    let mut combined: Vec<u8> = Vec::new();
    combined.extend_from_slice(prefix.as_bytes());
    combined.extend_from_slice(nonce.as_str().as_bytes());
    proof {
        assert(combined@ =~= prefix.spec_bytes() + encode_utf8(nonce@));
        vstd::utf8::encode_utf8_valid_utf8(prefix@);
        vstd::utf8::encode_utf8_valid_utf8(nonce@);
        vstd::utf8::valid_utf8_concat(prefix.spec_bytes(), encode_utf8(nonce@));
        reveal_strlit("Sign this message to log in as admin: ");
        assert(prefix@.len() == 38);
        assert(vstd::utf8::is_ascii_chars(prefix@));
        vstd::utf8::is_ascii_chars_encode_utf8(prefix@);
        vstd::utf8::is_ascii_chars_encode_utf8(nonce@);
        assert(combined@.len() == 74);
    }
    let ghost cb = combined@;
    proof {
        vstd::utf8::is_ascii_chars_nat_bound(prefix@);
        vstd::utf8::is_ascii_chars_nat_bound(nonce@);
        assert forall|j: int| 0 <= j < cb.len() implies cb[j] < 0x80 by {
            if j < 38 {
                assert(cb[j] == prefix.spec_bytes()[j]);
                assert(prefix.spec_bytes()[j] == prefix@[j] as u8);
            } else {
                assert(cb[j] == encode_utf8(nonce@)[j - 38]);
                assert(encode_utf8(nonce@)[j - 38] == nonce@[j - 38] as u8);
            }
        }
    }
    let challenge = match utf8_to_string(combined) {
        Some(c) => c,
        None => {
            proof {
                assert(false);
            }
            return Err(AppError::Internal("Challenge text was not UTF-8".to_owned()));
        },
    };
    proof {
        crate::strutil::lemma_ascii_valid_utf8(cb);
        vstd::utf8::encode_utf8_decode_utf8(challenge@);
        assert(challenge@ == crate::strutil::ascii_chars_of(cb));
        assert(challenge@.len() == 74);
        assert forall|j: int| 0 <= j < 38 implies challenge@[j] == prefix@[j] by {
            assert(challenge@[j] == cb[j] as char);
            assert(cb[j] == prefix@[j] as u8);
        }
        assert(challenge@.subrange(0, 38) =~= "Sign this message to log in as admin: "@);
        assert(vstd::utf8::is_ascii_chars(challenge@)) by {
            assert forall|i: int| 0 <= i < challenge@.len() implies '\0' <= #[trigger] challenge@[i]
                <= '\u{7f}' by {
                assert(challenge@[i] == cb[i] as char);
                assert(cb[i] < 0x80);
            }
        }
    }
    let packed = match pack_micheline_string(challenge.as_str()) {
        Ok(v) => v,
        Err(_) => {
            proof {
                assert(false);
            }
            return Err(AppError::ValidationError("Challenge too long to pack".to_owned()));
        },
    };
    let packed_bytes_hex = hex_encode(packed.as_slice());
    Ok(ChallengeResponse { challenge, packed_bytes_hex })
}

/// Verify a signed challenge and mint the session cookie value.
///
/// The whole chain is pinned down: the key must parse, derive exactly the
/// claimed address, the signature must decode for that curve and verify the
/// BLAKE2b hash of the packed challenge, and the address must be on the
/// allowlist; only then is the cookie minted, and it is exactly the signed
/// token of the canonical session document for that address. Malformed
/// input is a `ValidationError`; a failed verification or a missing
/// allowlist entry is `Unauthorized`, indistinguishably.
pub fn tezos_login(auth: &AuthConfig, payload: &TezosLoginPayload) -> (r: Result<String, AppError>)
    ensures
        r is Ok <==> (spec_login_addr_ok(encode_utf8(payload.public_key@), payload.pkh@)
            && encode_utf8(payload.challenge@).len() <= u32::MAX && spec_login_verified(
            encode_utf8(payload.public_key@),
            payload.pkh@,
            encode_utf8(payload.signature@),
            encode_utf8(payload.challenge@),
        ) && spec_in_list(auth.admin_tezos_addresses@, payload.pkh@)),
        r matches Ok(cookie) ==> encode_utf8(cookie@) == token_bytes(
            session_json_of(encode_utf8(payload.pkh@)),
            auth.cookie_hmac_key@,
        ) && spec_accepts(
            encode_utf8(cookie@),
            auth.cookie_hmac_key@,
            session_json_of(encode_utf8(payload.pkh@)),
        ),
        r matches Err(e) ==> (e is Unauthorized <==> (spec_login_addr_ok(
            encode_utf8(payload.public_key@),
            payload.pkh@,
        ) && encode_utf8(payload.challenge@).len() <= u32::MAX && spec_login_sig_decodes(
            encode_utf8(payload.public_key@),
            payload.pkh@,
            encode_utf8(payload.signature@),
        ))),
        r matches Err(e) ==> e is Unauthorized || e is ValidationError,
{
    let ghost pk_s = encode_utf8(payload.public_key@);
    let ghost sig_s = encode_utf8(payload.signature@);
    let ghost chal_s = encode_utf8(payload.challenge@);
    let public_key = match TezosCryptoPublicKey::from_base58check(payload.public_key.as_str()) {
        Ok(k) => k,
        Err(e) => {
            proof {
                assert forall|k: TezosCryptoPublicKey| !spec_key_matches(pk_s, k) by {
                    if spec_key_matches(pk_s, k) {
                    }
                }
            }
            return Err(e);
        },
    };
    proof {
        assert(spec_key_matches(pk_s, public_key));
        assert forall|k: TezosCryptoPublicKey| #[trigger] spec_key_matches(pk_s, k)
            implies k.spec_address() == public_key.spec_address() && k.spec_sig_prefix()
            == public_key.spec_sig_prefix() && k.spec_raw_bytes() == public_key.spec_raw_bytes()
            && (k is Ed25519 <==> public_key is Ed25519) && (k is Secp256k1
            <==> public_key is Secp256k1) by {
            lemma_markers_exclusive(pk_s);
        }
    }
    let derived_pkh = match public_key.public_key_hash_b58check() {
        Ok(a) => a,
        Err(_) => {
            proof {
                assert(false);
            }
            return Err(AppError::Internal("Address derivation failed".to_owned()));
        },
    };
    if !derived_pkh.eq(&payload.pkh) {
        proof {
            vstd::utf8::encode_utf8_decode_utf8(derived_pkh@);
            vstd::utf8::encode_utf8_decode_utf8(payload.pkh@);
        }
        return Err(
            AppError::ValidationError(
                "Public key hash does not match the provided public key.".to_owned(),
            ),
        );
    }
    let packed_challenge = match pack_micheline_string(payload.challenge.as_str()) {
        Ok(v) => v,
        Err(e) => {
            return Err(e);
        },
    };
    let message_hash = blake2b_256(packed_challenge.as_slice());
    match public_key.verify_signature(payload.signature.as_str(), message_hash.as_slice()) {
        Ok(true) => {
            proof {
                let q = choose|q: Seq<u8>|
                    sig_s == b58check_of(public_key.spec_sig_prefix(), q) && q.len() == 64
                        && public_key.spec_sig_scalars_ok(q) && true == public_key.spec_verifies(
                        blake2b32_of(micheline_packed_of(chal_s)),
                        q,
                    );
                assert(spec_sig_matches(public_key, sig_s, q));
            }
        },
        Ok(false) => {
            proof {
                assert forall|k: TezosCryptoPublicKey, q: Seq<u8>|
                    !(spec_key_matches(pk_s, k) && encode_utf8(payload.pkh@) == k.spec_address()
                        && spec_sig_matches(k, sig_s, q) && k.spec_verifies(
                        blake2b32_of(micheline_packed_of(chal_s)),
                        q,
                    )) by {
                    if spec_key_matches(pk_s, k) && spec_sig_matches(k, sig_s, q) {
                        assert(sig_s == b58check_of(public_key.spec_sig_prefix(), q));
                    }
                }
                let q0 = choose|q: Seq<u8>|
                    sig_s == b58check_of(public_key.spec_sig_prefix(), q) && q.len() == 64
                        && public_key.spec_sig_scalars_ok(q) && false == public_key.spec_verifies(
                        blake2b32_of(micheline_packed_of(chal_s)),
                        q,
                    );
                assert(spec_sig_matches(public_key, sig_s, q0));
            }
            return Err(AppError::Unauthorized);
        },
        Err(e) => {
            proof {
                assert forall|k: TezosCryptoPublicKey, q: Seq<u8>|
                    !(spec_key_matches(pk_s, k) && spec_sig_matches(k, sig_s, q)) by {
                    if spec_key_matches(pk_s, k) && spec_sig_matches(k, sig_s, q) {
                        assert(sig_s == b58check_of(public_key.spec_sig_prefix(), q));
                    }
                }
            }
            return Err(e);
        },
    }
    if !auth.is_admin_address(&payload.pkh) {
        return Err(AppError::Unauthorized);
    }
    let session_json = render_session(payload.pkh.as_str().as_bytes());
    let cookie = sign_token(session_json.as_slice(), &auth.cookie_hmac_key);
    Ok(cookie)
}

/// What the status endpoint reports: whether the request is authenticated,
/// whether the development bypass is on, and — only when a valid admin
/// session came with the request — the admin-address flag.
pub struct AuthStatus {
    pub authenticated: bool,
    pub dev_mode: bool,
    pub is_admin_address: Option<bool>,
}

/// Report the authentication status for a request carrying an optional
/// session cookie. Authenticated exactly when the cookie stands for an
/// allowlisted session or the development bypass is on.
pub fn auth_status(auth: &AuthConfig, cookie: Option<&str>) -> (r: AuthStatus)
    ensures
        r.dev_mode == auth.dev_mode,
        cookie is None ==> r.authenticated == auth.dev_mode && r.is_admin_address is None,
        cookie matches Some(c) ==> {
            let ok = spec_valid_admin(
                c.spec_bytes(),
                auth.cookie_hmac_key@,
                auth.admin_tezos_addresses@,
            );
            &&& r.authenticated == (ok || auth.dev_mode)
            &&& r.is_admin_address == (if ok {
                Some(true)
            } else {
                None::<bool>
            })
        },
{
    let mut authenticated = false;
    let mut is_admin_address: Option<bool> = None;
    if let Some(c) = cookie {
        if let Some(session) = verify_session_cookie(c, &auth.cookie_hmac_key) {
            if auth.is_admin_address(&session.address) {
                proof {
                    assert(spec_cookie_yields(
                        c.spec_bytes(),
                        auth.cookie_hmac_key@,
                        session.address@,
                    ));
                }
                authenticated = true;
                is_admin_address = Some(true);
            } else {
                proof {
                    lemma_no_other_admin(auth, c, &session);
                }
            }
        } else {
            proof {
                lemma_no_valid_session(auth, c);
            }
        }
    }
    if auth.dev_mode {
        authenticated = true;
    }
    AuthStatus { authenticated, dev_mode: auth.dev_mode, is_admin_address }
}

/// Everything the debug endpoint reports about the request's session state.
pub struct DebugAuthStatus {
    pub dev_mode: bool,
    pub has_cookie: bool,
    pub cookie_valid: bool,
    pub session_address: Option<String>,
    pub is_admin_address: bool,
    pub admin_addresses: Vec<String>,
}

/// Report the full session state of a request, for development diagnosis:
/// whether a cookie came, whether it verifies, the address it is bound to,
/// whether that address is allowlisted, and the configured allowlist.
pub fn debug_auth_status(auth: &AuthConfig, cookie: Option<&str>) -> (r: DebugAuthStatus)
    ensures
        r.dev_mode == auth.dev_mode,
        r.has_cookie == (cookie is Some),
        cookie is None ==> !r.cookie_valid && r.session_address is None && !r.is_admin_address,
        cookie matches Some(c) ==> {
            &&& r.cookie_valid == exists|a: Seq<char>|
                #[trigger] spec_cookie_yields(c.spec_bytes(), auth.cookie_hmac_key@, a)
            &&& r.cookie_valid == (r.session_address is Some)
            &&& (r.session_address matches Some(s) ==> spec_cookie_yields(
                c.spec_bytes(),
                auth.cookie_hmac_key@,
                s@,
            ))
            &&& r.is_admin_address == spec_valid_admin(
                c.spec_bytes(),
                auth.cookie_hmac_key@,
                auth.admin_tezos_addresses@,
            )
        },
        r.admin_addresses@.len() == auth.admin_tezos_addresses@.len(),
        forall|i: int|
            0 <= i < r.admin_addresses@.len() ==> #[trigger] r.admin_addresses@[i]@
                == auth.admin_tezos_addresses@[i]@,
{
    let admin_addresses = copy_addresses(&auth.admin_tezos_addresses);
    let mut has_cookie = false;
    let mut cookie_valid = false;
    let mut session_address: Option<String> = None;
    let mut is_admin = false;
    if let Some(c) = cookie {
        has_cookie = true;
        if let Some(session) = verify_session_cookie(c, &auth.cookie_hmac_key) {
            cookie_valid = true;
            proof {
                assert(spec_cookie_yields(
                    c.spec_bytes(),
                    auth.cookie_hmac_key@,
                    session.address@,
                ));
            }
            if auth.is_admin_address(&session.address) {
                is_admin = true;
            } else {
                proof {
                    lemma_no_other_admin(auth, c, &session);
                }
            }
            session_address = Some(session.address);
        } else {
            proof {
                lemma_no_valid_session(auth, c);
            }
        }
    }
    DebugAuthStatus {
        dev_mode: auth.dev_mode,
        has_cookie,
        cookie_valid,
        session_address,
        is_admin_address: is_admin,
        admin_addresses,
    }
}

/// Clone a list of addresses.
fn copy_addresses(list: &Vec<String>) -> (r: Vec<String>)
    ensures
        r@.len() == list@.len(),
        forall|i: int| 0 <= i < r@.len() ==> #[trigger] r@[i]@ == list@[i]@,
{
    let n = list.len();
    let mut out: Vec<String> = Vec::new();
    let mut i: usize = 0;
    while i < n
        invariant
            n == list@.len(),
            i <= n,
            out@.len() == i,
            forall|j: int| 0 <= j < i ==> #[trigger] out@[j]@ == list@[j]@,
        decreases n - i,
    {
        out.push(list[i].clone());
        i = i + 1;
    }
    out
}

/// A cookie the verifier rejects stands for no session at all.
proof fn lemma_no_valid_session(auth: &AuthConfig, c: &str)
    requires
        forall|json: Seq<u8>|
            #![trigger spec_accepts(c.spec_bytes(), auth.cookie_hmac_key@, json)]
            spec_accepts(c.spec_bytes(), auth.cookie_hmac_key@, json) ==> (spec_parse_session(json)
                matches Some(a) ==> !vstd::utf8::valid_utf8(a)),
    ensures
        forall|a: Seq<char>|
            !spec_cookie_yields(c.spec_bytes(), auth.cookie_hmac_key@, a),
        !spec_valid_admin(c.spec_bytes(), auth.cookie_hmac_key@, auth.admin_tezos_addresses@),
{
    assert forall|a: Seq<char>|
        !spec_cookie_yields(c.spec_bytes(), auth.cookie_hmac_key@, a) by {
        if spec_cookie_yields(c.spec_bytes(), auth.cookie_hmac_key@, a) {
            vstd::utf8::encode_utf8_valid_utf8(a);
        }
    }
}

/// When the verifier returned a session whose address is off the list, no
/// allowlisted session hides behind the same cookie.
proof fn lemma_no_other_admin(auth: &AuthConfig, c: &str, session: &crate::auth::TezosAdminSession)
    requires
        forall|json: Seq<u8>|
            #![trigger spec_accepts(c.spec_bytes(), auth.cookie_hmac_key@, json)]
            spec_accepts(c.spec_bytes(), auth.cookie_hmac_key@, json) ==> (spec_parse_session(json)
                matches Some(a) ==> (vstd::utf8::valid_utf8(a) ==> encode_utf8(session.address@)
                == a)),
        !spec_in_list(auth.admin_tezos_addresses@, session.address@),
    ensures
        !spec_valid_admin(c.spec_bytes(), auth.cookie_hmac_key@, auth.admin_tezos_addresses@),
{
    if spec_valid_admin(c.spec_bytes(), auth.cookie_hmac_key@, auth.admin_tezos_addresses@) {
        let addr = choose|addr: Seq<char>|
            #[trigger] spec_cookie_yields(c.spec_bytes(), auth.cookie_hmac_key@, addr)
                && spec_in_list(auth.admin_tezos_addresses@, addr);
        vstd::utf8::encode_utf8_valid_utf8(addr);
        vstd::utf8::encode_utf8_decode_utf8(addr);
        vstd::utf8::encode_utf8_decode_utf8(session.address@);
    }
}

/// The three curve markers are mutually exclusive: a text can start with at
/// most one of them.
proof fn lemma_markers_exclusive(s: Seq<u8>)
    ensures
        !(starts_with_bytes(s, spec_edpk_text()) && starts_with_bytes(s, spec_sppk_text())),
        !(starts_with_bytes(s, spec_edpk_text()) && starts_with_bytes(s, spec_p2pk_text())),
        !(starts_with_bytes(s, spec_sppk_text()) && starts_with_bytes(s, spec_p2pk_text())),
{
    if starts_with_bytes(s, spec_edpk_text()) && starts_with_bytes(s, spec_sppk_text()) {
        assert(s.take(4)[0] == 101u8 && s.take(4)[0] == 115u8);
    }
    if starts_with_bytes(s, spec_edpk_text()) && starts_with_bytes(s, spec_p2pk_text()) {
        assert(s.take(4)[0] == 101u8 && s.take(4)[0] == 112u8);
    }
    if starts_with_bytes(s, spec_sppk_text()) && starts_with_bytes(s, spec_p2pk_text()) {
        assert(s.take(4)[0] == 115u8 && s.take(4)[0] == 112u8);
    }
}

} // verus!
