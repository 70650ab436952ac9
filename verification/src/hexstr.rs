use vstd::prelude::*;
use vstd::string::StringSliceAdditionalSpecFns;
use vstd::utf8::encode_utf8;

use crate::strutil::ascii_to_string;

verus! {

/// The ASCII byte of a single lower-case hex digit (value below 16).
pub open spec fn hex_digit(n: u8) -> u8 {
    if n < 10 {
        (48 + n) as u8
    } else {
        (87 + n) as u8
    }
}

/// The lower-case hex rendering of a byte sequence, two ASCII bytes per byte.
pub open spec fn hex_of(bytes: Seq<u8>) -> Seq<u8> {
    Seq::new(
        2 * bytes.len(),
        |i: int|
            if i % 2 == 0 {
                hex_digit(bytes[i / 2] >> 4)
            } else {
                hex_digit(bytes[i / 2] & 0xf)
            },
    )
}

/// Render bytes as a lower-case hex string.
pub fn hex_encode(bytes: &[u8]) -> (r: String)
    ensures
        encode_utf8(r@) == hex_of(bytes@),
        r@.len() == 2 * bytes@.len(),
{
    let n = bytes.len();
    let mut out: Vec<u8> = Vec::new();
    let mut i: usize = 0;
    while i < n
        invariant
            n == bytes@.len(),
            i <= n,
            out@.len() == 2 * i,
            forall|j: int| 0 <= j < 2 * i ==> out@[j] == hex_of(bytes@)[j],
        decreases n - i,
    {
        let b = bytes[i];
        let hi = b >> 4;
        let lo = b & 0xf;
        proof {
            assert(b >> 4 < 16 && b & 0xf < 16) by (bit_vector);
        }
        if hi < 10 {
            out.push(48 + hi);
        } else {
            out.push(87 + hi);
        }
        if lo < 10 {
            out.push(48 + lo);
        } else {
            out.push(87 + lo);
        }
        i = i + 1;
    }
    proof {
        assert(out@ =~= hex_of(bytes@));
        assert(forall|b: u8| b >> 4 < 16 && b & 0xf < 16) by (bit_vector);
        assert forall|j: int| 0 <= j < out@.len() implies out@[j] < 0x80 by {
            assert(hex_of(bytes@)[j] < 0x80);
        }
    }
    ascii_to_string(out)
}

/// The numeric value of an ASCII hex digit byte, accepting both cases.
pub open spec fn hex_val(b: u8) -> u8 {
    if 48 <= b <= 57 {
        (b - 48) as u8
    } else if 97 <= b <= 102 {
        (b - 87) as u8
    } else {
        (b - 55) as u8
    }
}

/// Whether a byte is an ASCII hex digit, in either case.
pub open spec fn is_hex_digit(b: u8) -> bool {
    (48 <= b <= 57) || (97 <= b <= 102) || (65 <= b <= 70)
}

/// Whether a byte sequence is a well-formed hex rendering: even length, hex
/// digits throughout.
pub open spec fn hex_text_valid(s: Seq<u8>) -> bool {
    s.len() % 2 == 0 && forall|i: int| 0 <= i < s.len() ==> is_hex_digit(#[trigger] s[i])
}

/// The bytes a well-formed hex rendering stands for.
pub open spec fn hex_decoded(s: Seq<u8>) -> Seq<u8> {
    Seq::new(s.len() / 2, |i: int| (16 * hex_val(s[2 * i]) + hex_val(s[2 * i + 1])) as u8)
}

/// Parse a hex string into bytes; `None` exactly on odd length or a
/// non-hex-digit character.
pub fn hex_decode(text: &str) -> (r: Option<Vec<u8>>)
    ensures
        r is Some <==> hex_text_valid(text.spec_bytes()),
        r matches Some(v) ==> v@ == hex_decoded(text.spec_bytes()),
{
    let s = text.as_bytes();
    let n = s.len();
    if n % 2 != 0 {
        return None;
    }
    let mut out: Vec<u8> = Vec::new();
    let mut i: usize = 0;
    while i < n
        invariant
            s@ == text.spec_bytes(),
            n == s@.len(),
            n % 2 == 0,
            i <= n,
            i % 2 == 0,
            out@.len() == i / 2,
            forall|j: int| 0 <= j < i ==> is_hex_digit(#[trigger] s@[j]),
            forall|j: int| 0 <= j < i / 2 ==> out@[j] == hex_decoded(s@)[j],
        decreases n - i,
    {
        let hi = s[i];
        let lo = s[i + 1];
        let hv: u8 = if 48 <= hi && hi <= 57 {
            hi - 48
        } else if 97 <= hi && hi <= 102 {
            hi - 87
        } else if 65 <= hi && hi <= 70 {
            hi - 55
        } else {
            proof {
                assert(!is_hex_digit(s@[i as int]));
            }
            return None;
        };
        let lv: u8 = if 48 <= lo && lo <= 57 {
            lo - 48
        } else if 97 <= lo && lo <= 102 {
            lo - 87
        } else if 65 <= lo && lo <= 70 {
            lo - 55
        } else {
            proof {
                assert(!is_hex_digit(s@[i + 1]));
            }
            return None;
        };
        out.push(16 * hv + lv);
        i = i + 2;
    }
    Some(out)
}

} // verus!
