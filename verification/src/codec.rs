use vstd::prelude::*;
use vstd::string::StringSliceAdditionalSpecFns;
use vstd::utf8::encode_utf8;

use crate::bytes::{bytes_eq, subvec};
use crate::errors::AppError;
use crate::strutil::ascii_to_string;

use sha2::Digest;

verus! {

/// The SHA-256 digest of a byte sequence, as computed by the sha2 crate.
pub uninterp spec fn sha256_of(data: Seq<u8>) -> Seq<u8>;

/// The Bitcoin-alphabet base-58 rendering of a byte sequence, as computed by
/// the bs58 crate (one ASCII byte per output character).
pub uninterp spec fn base58_of(data: Seq<u8>) -> Seq<u8>;

/// Relies on sha2::Sha256: a 32-byte digest that depends on the input alone.
#[verifier::external_body]
fn sha256(data: &[u8]) -> (r: Vec<u8>)
    ensures
        r@ == sha256_of(data@),
        r@.len() == 32,
{
    let mut hasher = sha2::Sha256::new();
    hasher.update(data);
    hasher.finalize().to_vec()
}

/// Relies on bs58::encode with the default (Bitcoin) alphabet: a bijective
/// rendering of byte strings into ASCII base-58 digits.
#[verifier::external_body]
fn base58_encode(data: &[u8]) -> (r: Vec<u8>)
    ensures
        r@ == base58_of(data@),
        forall|i: int| 0 <= i < r@.len() ==> r@[i] < 0x80,
        forall|w: Seq<u8>| base58_of(w) == r@ ==> w == data@,
{
    bs58::encode(data).into_vec()
}

/// Relies on bs58::decode with the default (Bitcoin) alphabet: inverts
/// bs58::encode, and fails exactly when no byte string renders to the input.
#[verifier::external_body]
fn base58_decode(data: &[u8]) -> (r: Option<Vec<u8>>)
    ensures
        r matches Some(v) ==> base58_of(v@) == data@,
        r matches Some(v) ==> forall|w: Seq<u8>| base58_of(w) == data@ ==> w == v@,
        r is None ==> forall|w: Seq<u8>| base58_of(w) != data@,
{
    match bs58::decode(data).into_vec() {
        Ok(v) => Some(v),
        Err(_) => None,
    }
}

/// The four-byte double-SHA-256 checksum appended before base-58 encoding.
pub open spec fn sha256d_check(data: Seq<u8>) -> Seq<u8> {
    Seq::new(4, |i: int| sha256_of(sha256_of(data))[i])
}

/// The full base-58-check rendering of a payload under a byte prefix: the
/// base-58 digits of prefix, payload and checksum.
pub open spec fn b58check_of(prefix: Seq<u8>, payload: Seq<u8>) -> Seq<u8> {
    base58_of(prefix + payload + sha256d_check(prefix + payload))
}

/// Encode `payload` under `prefix` with a double-SHA-256 checksum, in base-58.
pub fn b58_encode_with_prefix(payload: &[u8], prefix: &[u8]) -> (r: String)
    ensures
        encode_utf8(r@) == b58check_of(prefix@, payload@),
        forall|w: Seq<u8>| base58_of(w) == encode_utf8(r@)
            ==> w == prefix@ + payload@ + sha256d_check(prefix@ + payload@),
{
    let mut data: Vec<u8> = Vec::new();
    data.extend_from_slice(prefix);
    data.extend_from_slice(payload);
    let ghost body = prefix@ + payload@;
    assert(data@ == body);
    let h1 = sha256(data.as_slice());
    let h2 = sha256(h1.as_slice());
    let check = subvec(h2.as_slice(), 0, 4);
    proof {
        assert(check@ =~= sha256d_check(body));
    }
    data.extend_from_slice(check.as_slice());
    assert(data@ == body + sha256d_check(body));
    let enc = base58_encode(data.as_slice());
    ascii_to_string(enc)
}

/// Decode a base-58-check string, requiring `expected_prefix` at the front
/// and a valid double-SHA-256 checksum at the back; return the payload
/// between them.
///
/// The contract pins the codec down: a string is accepted exactly when it is
/// the base-58-check rendering of some payload under `expected_prefix`, and
/// then that payload is returned. In particular decoding inverts
/// `b58_encode_with_prefix`, and a string encoded under any other,
/// incompatible prefix is rejected.
pub fn b58_decode_with_prefix_check(encoded: &str, expected_prefix: &[u8]) -> (r: Result<
    Vec<u8>,
    AppError,
>)
    ensures
        r matches Ok(p) ==> encoded.spec_bytes() == b58check_of(expected_prefix@, p@),
        forall|q: Seq<u8>|
            encoded.spec_bytes() == b58check_of(expected_prefix@, q)
                ==> (r matches Ok(p) && p@ == q),
        r matches Ok(p) ==> forall|pre2: Seq<u8>, q: Seq<u8>|
            encoded.spec_bytes() == b58check_of(pre2, q)
                ==> pre2 + q + sha256d_check(pre2 + q)
                    == expected_prefix@ + p@ + sha256d_check(expected_prefix@ + p@),
        r matches Err(e) ==> e is ValidationError,
{
    let data = encoded.as_bytes();
    let ghost s = encoded.spec_bytes();
    let decoded = match base58_decode(data) {
        Some(v) => v,
        None => {
            proof {
                assert forall|q: Seq<u8>| s != b58check_of(expected_prefix@, q) by {
                    let w = expected_prefix@ + q + sha256d_check(expected_prefix@ + q);
                    assert(base58_of(w) != data@);
                }
            }
            return Err(AppError::ValidationError("Base58 decode error".to_owned()));
        },
    };
    let ghost dec = decoded@;
    let plen = expected_prefix.len();
    let total = decoded.len();
    if total < 4 || total - 4 < plen {
        proof {
            assert forall|q: Seq<u8>| s != b58check_of(expected_prefix@, q) by {
                let w = expected_prefix@ + q + sha256d_check(expected_prefix@ + q);
                if base58_of(w) == data@ {
                    assert(w == dec);
                    assert(w.len() == plen + q.len() + 4);
                }
            }
        }
        return Err(AppError::ValidationError("Invalid Base58Check data: too short".to_owned()));
    }
    let body_end = total - 4;
    let received_prefix = subvec(decoded.as_slice(), 0, plen);
    if !bytes_eq(received_prefix.as_slice(), expected_prefix) {
        proof {
            assert forall|q: Seq<u8>| s != b58check_of(expected_prefix@, q) by {
                let w = expected_prefix@ + q + sha256d_check(expected_prefix@ + q);
                if base58_of(w) == data@ {
                    assert(w == dec);
                    assert(w.subrange(0, plen as int) =~= expected_prefix@);
                }
            }
        }
        return Err(AppError::ValidationError("Base58Check prefix mismatch".to_owned()));
    }
    let payload = subvec(decoded.as_slice(), plen, body_end);
    let hash_input = subvec(decoded.as_slice(), 0, body_end);
    proof {
        assert(hash_input@ =~= expected_prefix@ + payload@);
    }
    let h1 = sha256(hash_input.as_slice());
    let h2 = sha256(h1.as_slice());
    let expected_checksum = subvec(h2.as_slice(), 0, 4);
    let received_checksum = subvec(decoded.as_slice(), body_end, total);
    proof {
        assert(expected_checksum@ =~= sha256d_check(expected_prefix@ + payload@));
    }
    if !bytes_eq(expected_checksum.as_slice(), received_checksum.as_slice()) {
        proof {
            assert forall|q: Seq<u8>| s != b58check_of(expected_prefix@, q) by {
                let w = expected_prefix@ + q + sha256d_check(expected_prefix@ + q);
                if base58_of(w) == data@ {
                    assert(w == dec);
                    assert(q.len() == dec.len() - plen - 4);
                    assert(q =~= payload@) by {
                        assert forall|j: int| 0 <= j < q.len() implies q[j] == payload@[j] by {
                            assert(w[plen + j] == q[j]);
                        }
                    }
                    assert(w.subrange(body_end as int, total as int)
                        =~= sha256d_check(expected_prefix@ + q));
                    assert(received_checksum@ =~= sha256d_check(expected_prefix@ + payload@));
                }
            }
        }
        return Err(AppError::ValidationError("Base58Check checksum mismatch".to_owned()));
    }
    proof {
        assert(dec =~= expected_prefix@ + payload@ + sha256d_check(expected_prefix@ + payload@));
        assert(s == b58check_of(expected_prefix@, payload@));
        assert forall|pre2: Seq<u8>, q: Seq<u8>| s == b58check_of(pre2, q)
            implies pre2 + q + sha256d_check(pre2 + q)
                == expected_prefix@ + payload@ + sha256d_check(expected_prefix@ + payload@) by {
            let w = pre2 + q + sha256d_check(pre2 + q);
            assert(base58_of(w) == data@);
            assert(w == dec);
        }
        assert forall|q: Seq<u8>| s == b58check_of(expected_prefix@, q) implies q == payload@ by {
            let w = expected_prefix@ + q + sha256d_check(expected_prefix@ + q);
            assert(base58_of(w) == data@);
            assert(w == dec);
            assert(q.len() == payload@.len());
            assert(q =~= payload@) by {
                assert forall|j: int| 0 <= j < q.len() implies q[j] == payload@[j] by {
                    assert(w[plen + j] == q[j]);
                    assert(dec[plen + j] == payload@[j]);
                }
            }
        }
    }
    Ok(payload)
}

} // verus!
