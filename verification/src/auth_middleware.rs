use vstd::prelude::*;
use vstd::string::StringSliceAdditionalSpecFns;
use vstd::utf8::encode_utf8;

use crate::auth::AdminAuth;
use crate::config::{spec_in_list, AuthConfig};
use crate::session::{spec_accepts, verify_session_cookie};
use crate::session_json::spec_parse_session;

verus! {

/// When a cookie text stands, under the key, for a session bound to the
/// given address.
pub open spec fn spec_cookie_yields(c: Seq<u8>, key: Seq<u8>, addr: Seq<char>) -> bool {
    exists|json: Seq<u8>|
        #[trigger] spec_accepts(c, key, json) && spec_parse_session(json) == Some(
            encode_utf8(addr),
        )
}

/// When a cookie text stands for a session whose address is still on the
/// allowlist.
pub open spec fn spec_valid_admin(c: Seq<u8>, key: Seq<u8>, list: Seq<String>) -> bool {
    exists|addr: Seq<char>| #[trigger] spec_cookie_yields(c, key, addr) && spec_in_list(list, addr)
}

/// The session bound to a cookie, when the cookie verifies and its address
/// is still on the allowlist.
fn admin_session_of_cookie(auth: &AuthConfig, c: &str) -> (r: Option<crate::auth::TezosAdminSession>)
    ensures
        r matches Some(s) ==> spec_cookie_yields(c.spec_bytes(), auth.cookie_hmac_key@, s.address@)
            && spec_in_list(auth.admin_tezos_addresses@, s.address@),
        r is Some <==> spec_valid_admin(
            c.spec_bytes(),
            auth.cookie_hmac_key@,
            auth.admin_tezos_addresses@,
        ),
{
    match verify_session_cookie(c, &auth.cookie_hmac_key) {
        Some(session) => {
            if auth.is_admin_address(&session.address) {
                proof {
                    assert(spec_cookie_yields(
                        c.spec_bytes(),
                        auth.cookie_hmac_key@,
                        session.address@,
                    ));
                }
                Some(session)
            } else {
                proof {
                    lemma_yields_unique(auth, c, &session);
                }
                None
            }
        },
        None => {
            proof {
                assert forall|addr: Seq<char>|
                    !spec_cookie_yields(c.spec_bytes(), auth.cookie_hmac_key@, addr) by {
                    if spec_cookie_yields(c.spec_bytes(), auth.cookie_hmac_key@, addr) {
                        vstd::utf8::encode_utf8_valid_utf8(addr);
                    }
                }
            }
            None
        },
    }
}

/// Every address a cookie stands for is the one the verifier returned.
proof fn lemma_yields_unique(auth: &AuthConfig, c: &str, session: &crate::auth::TezosAdminSession)
    requires
        forall|json: Seq<u8>|
            #![trigger spec_accepts(c.spec_bytes(), auth.cookie_hmac_key@, json)]
            spec_accepts(c.spec_bytes(), auth.cookie_hmac_key@, json) ==> (spec_parse_session(json)
                matches Some(a) ==> (vstd::utf8::valid_utf8(a) ==> encode_utf8(session.address@)
                == a)),
    ensures
        forall|addr: Seq<char>|
            #[trigger] spec_cookie_yields(c.spec_bytes(), auth.cookie_hmac_key@, addr) ==> addr
                == session.address@,
{
    assert forall|addr: Seq<char>|
        #[trigger] spec_cookie_yields(c.spec_bytes(), auth.cookie_hmac_key@, addr)
        implies addr == session.address@ by {
        vstd::utf8::encode_utf8_valid_utf8(addr);
        vstd::utf8::encode_utf8_decode_utf8(addr);
        vstd::utf8::encode_utf8_decode_utf8(session.address@);
    }
}

/// Build the per-request capability from the configuration and the session
/// cookie, if one came with the request.
///
/// With the feature disabled the public capability is returned outright.
/// Otherwise a cookie standing for an allowlisted session yields an
/// address-bound capability; failing that, the development bypass yields a
/// bypass capability; failing that, the public one.
pub fn extract_admin_auth(auth: &AuthConfig, cookie: Option<&str>) -> (r: AdminAuth)
    ensures
        !auth.enable_tezos_auth ==> !r.is_dev_admin && r.tezos_admin_address is None,
        auth.enable_tezos_auth && cookie is None ==> r.is_dev_admin == auth.dev_mode
            && r.tezos_admin_address is None,
        auth.enable_tezos_auth ==> (cookie matches Some(c) ==> {
            let ok = spec_valid_admin(
                c.spec_bytes(),
                auth.cookie_hmac_key@,
                auth.admin_tezos_addresses@,
            );
            &&& ok ==> !r.is_dev_admin && (r.tezos_admin_address matches Some(a)
                && spec_cookie_yields(c.spec_bytes(), auth.cookie_hmac_key@, a@) && spec_in_list(
                auth.admin_tezos_addresses@,
                a@,
            ))
            &&& !ok ==> r.is_dev_admin == auth.dev_mode && r.tezos_admin_address is None
        }),
{
    if !auth.enable_tezos_auth {
        return AdminAuth::public();
    }
    if let Some(c) = cookie {
        if let Some(session) = admin_session_of_cookie(auth, c) {
            return AdminAuth { is_dev_admin: false, tezos_admin_address: Some(session.address) };
        }
    }
    if auth.dev_mode {
        return AdminAuth { is_dev_admin: true, tezos_admin_address: None };
    }
    AdminAuth::public()
}

/// The access decision for protected route groups: allow when the feature
/// is off, when the cookie stands for an allowlisted session, or when the
/// development bypass is on; otherwise the request is to be redirected.
pub fn require_auth_allows(auth: &AuthConfig, cookie: Option<&str>) -> (r: bool)
    ensures
        !auth.enable_tezos_auth ==> r,
        auth.enable_tezos_auth && cookie is None ==> r == auth.dev_mode,
        auth.enable_tezos_auth ==> (cookie matches Some(c) ==> r == (spec_valid_admin(
            c.spec_bytes(),
            auth.cookie_hmac_key@,
            auth.admin_tezos_addresses@,
        ) || auth.dev_mode)),
{
    if !auth.enable_tezos_auth {
        return true;
    }
    if let Some(c) = cookie {
        if admin_session_of_cookie(auth, c).is_some() {
            return true;
        }
    }
    auth.dev_mode
}

} // verus!
