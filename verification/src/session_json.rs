use vstd::prelude::*;

use vstd::utf8::encode_scalar;

use crate::hexstr::{hex_digit, hex_val, is_hex_digit};

verus! {

// The session payload is a single-member JSON object, {"address": <string>}.
// Rendering and parsing are written out here so the whole grammar is
// verified: the renderer emits the canonical form, and the parser accepts
// it back (with JSON whitespace, the solidus escape, and basic-plane
// \uXXXX escapes also tolerated; surrogate pairs are not part of the
// grammar).

/// JSON whitespace.
pub open spec fn is_json_ws(b: u8) -> bool {
    b == 0x20 || b == 0x09 || b == 0x0A || b == 0x0D
}

/// How one byte of string content is escaped in the canonical rendering:
/// quote and backslash by their two-byte escapes, control bytes by their
/// short escapes where JSON has one and by \u00XX otherwise, everything
/// else as itself.
pub open spec fn esc_byte(b: u8) -> Seq<u8> {
    if b == 0x22 {
        seq![0x5Cu8, 0x22u8]
    } else if b == 0x5C {
        seq![0x5Cu8, 0x5Cu8]
    } else if b == 0x08 {
        seq![0x5Cu8, 0x62u8]
    } else if b == 0x09 {
        seq![0x5Cu8, 0x74u8]
    } else if b == 0x0A {
        seq![0x5Cu8, 0x6Eu8]
    } else if b == 0x0C {
        seq![0x5Cu8, 0x66u8]
    } else if b == 0x0D {
        seq![0x5Cu8, 0x72u8]
    } else if b < 0x20 {
        seq![0x5Cu8, 0x75u8, 0x30u8, 0x30u8, hex_digit(b >> 4), hex_digit(b & 0xf)]
    } else {
        seq![b]
    }
}

/// The canonical escaping of a whole byte string.
pub open spec fn esc(bytes: Seq<u8>) -> Seq<u8>
    decreases bytes.len(),
{
    if bytes.len() == 0 {
        Seq::empty()
    } else {
        esc_byte(bytes.first()) + esc(bytes.drop_first())
    }
}

pub proof fn lemma_esc_append(a: Seq<u8>, b: Seq<u8>)
    ensures
        esc(a + b) == esc(a) + esc(b),
    decreases a.len(),
{
    if a.len() == 0 {
        assert(a + b =~= b);
        assert(esc(a) + esc(b) =~= esc(b));
    } else {
        lemma_esc_append(a.drop_first(), b);
        assert((a + b).drop_first() =~= a.drop_first() + b);
        assert((a + b).first() == a.first());
        assert(esc_byte(a.first()) + (esc(a.drop_first()) + esc(b)) =~= (esc_byte(a.first())
            + esc(a.drop_first())) + esc(b));
    }
}

/// The 12 bytes `{"address":"` that open the canonical rendering.
pub open spec fn session_json_head() -> Seq<u8> {
    seq![0x7Bu8, 0x22u8, 0x61u8, 0x64u8, 0x64u8, 0x72u8, 0x65u8, 0x73u8, 0x73u8, 0x22u8, 0x3Au8, 0x22u8]
}

/// The canonical rendering of a session holding the given address bytes.
pub open spec fn session_json_of(addr: Seq<u8>) -> Seq<u8> {
    session_json_head() + esc(addr) + seq![0x22u8, 0x7Du8]
}

/// Render the session JSON for an address, in canonical form.
pub fn render_session(addr: &[u8]) -> (r: Vec<u8>)
    ensures
        r@ == session_json_of(addr@),
{
    let mut out: Vec<u8> = Vec::new();
    out.push(0x7B);
    out.push(0x22);
    out.push(0x61);
    out.push(0x64);
    out.push(0x64);
    out.push(0x72);
    out.push(0x65);
    out.push(0x73);
    out.push(0x73);
    out.push(0x22);
    out.push(0x3A);
    out.push(0x22);
    proof {
        assert(out@ =~= session_json_head());
    }
    let n = addr.len();
    let mut i: usize = 0;
    while i < n
        invariant
            n == addr@.len(),
            i <= n,
            out@ == session_json_head() + esc(addr@.take(i as int)),
        decreases n - i,
    {
        let b = addr[i];
        if b == 0x22 {
            out.push(0x5C);
            out.push(0x22);
        } else if b == 0x5C {
            out.push(0x5C);
            out.push(0x5C);
        } else if b == 0x08 {
            out.push(0x5C);
            out.push(0x62);
        } else if b == 0x09 {
            out.push(0x5C);
            out.push(0x74);
        } else if b == 0x0A {
            out.push(0x5C);
            out.push(0x6E);
        } else if b == 0x0C {
            out.push(0x5C);
            out.push(0x66);
        } else if b == 0x0D {
            out.push(0x5C);
            out.push(0x72);
        } else if b < 0x20 {
            out.push(0x5C);
            out.push(0x75);
            out.push(0x30);
            out.push(0x30);
            let hi = b >> 4;
            let lo = b & 0xf;
            proof {
                assert(b >> 4 < 16 && b & 0xf < 16) by (bit_vector);
            }
            if hi < 10 {
                out.push(48 + hi);
            } else {
                out.push(87 + hi);
            }
            if lo < 10 {
                out.push(48 + lo);
            } else {
                out.push(87 + lo);
            }
        } else {
            out.push(b);
        }
        proof {
            lemma_esc_append(addr@.take(i as int), seq![addr@[i as int]]);
            assert(addr@.take(i + 1) =~= addr@.take(i as int) + seq![addr@[i as int]]);
            assert(seq![addr@[i as int]].drop_first() =~= Seq::<u8>::empty());
            assert(esc(Seq::<u8>::empty()) =~= Seq::<u8>::empty());
            assert(esc(seq![addr@[i as int]]) =~= esc_byte(addr@[i as int]));
            assert(out@ =~= session_json_head() + esc(addr@.take(i + 1)));
        }
        i = i + 1;
    }
    out.push(0x22);
    out.push(0x7D);
    proof {
        assert(addr@.take(n as int) =~= addr@);
        assert(out@ =~= session_json_of(addr@));
    }
    out
}

// --- Parsing ---

/// The index of the first non-whitespace byte at or after `i`.
pub open spec fn spec_skip_ws(s: Seq<u8>, i: int) -> int
    decreases s.len() - i,
    when 0 <= i <= s.len()
{
    if i < s.len() && is_json_ws(s[i]) {
        spec_skip_ws(s, i + 1)
    } else {
        i
    }
}

/// The byte a short escape stands for, if the code is a valid one.
pub open spec fn esc_code(e: u8) -> Option<u8> {
    if e == 0x22 {
        Some(0x22u8)
    } else if e == 0x5C {
        Some(0x5Cu8)
    } else if e == 0x2F {
        Some(0x2Fu8)
    } else if e == 0x62 {
        Some(0x08u8)
    } else if e == 0x66 {
        Some(0x0Cu8)
    } else if e == 0x6E {
        Some(0x0Au8)
    } else if e == 0x72 {
        Some(0x0Du8)
    } else if e == 0x74 {
        Some(0x09u8)
    } else {
        None
    }
}

/// Parse JSON string content starting right after the opening quote at
/// `i - 1`: the unescaped bytes and the index just past the closing quote.
/// Raw control bytes, bad escapes and surrogate \uXXXX escapes are
/// rejected; other \uXXXX escapes contribute the scalar's UTF-8 bytes.
pub open spec fn spec_parse_string(s: Seq<u8>, i: int) -> Option<(Seq<u8>, int)>
    decreases s.len() - i,
    when 0 <= i
{
    if i >= s.len() {
        None
    } else if s[i] == 0x22 {
        Some((Seq::empty(), i + 1))
    } else if s[i] == 0x5C {
        if i + 2 > s.len() {
            None
        } else if s[i + 1] == 0x75 {
            if i + 6 <= s.len() && is_hex_digit(s[i + 2]) && is_hex_digit(s[i + 3]) && is_hex_digit(
                s[i + 4],
            ) && is_hex_digit(s[i + 5]) {
                let cp = 4096 * (hex_val(s[i + 2]) as int) + 256 * (hex_val(s[i + 3]) as int) + 16
                    * (hex_val(s[i + 4]) as int) + (hex_val(s[i + 5]) as int);
                if 0xD800 <= cp <= 0xDFFF {
                    None
                } else {
                    match spec_parse_string(s, i + 6) {
                        Some(t) => Some((encode_scalar(cp as u32) + t.0, t.1)),
                        None => None,
                    }
                }
            } else {
                None
            }
        } else {
            match esc_code(s[i + 1]) {
                Some(b) => match spec_parse_string(s, i + 2) {
                    Some(t) => Some((seq![b] + t.0, t.1)),
                    None => None,
                },
                None => None,
            }
        }
    } else if s[i] < 0x20 {
        None
    } else {
        match spec_parse_string(s, i + 1) {
            Some(t) => Some((seq![s[i]] + t.0, t.1)),
            None => None,
        }
    }
}

/// The nine bytes of the quoted member name, `"address"`.
pub open spec fn spec_session_key() -> Seq<u8> {
    seq![0x22u8, 0x61u8, 0x64u8, 0x64u8, 0x72u8, 0x65u8, 0x73u8, 0x73u8, 0x22u8]
}

/// Parse a whole session document: one object whose single member is
/// `"address"` with a string value, with JSON whitespace allowed around the
/// tokens. The result is the unescaped address bytes.
pub open spec fn spec_parse_session(s: Seq<u8>) -> Option<Seq<u8>> {
    let i0 = spec_skip_ws(s, 0);
    if i0 < s.len() && s[i0] == 0x7B {
        let i1 = spec_skip_ws(s, i0 + 1);
        if i1 + 9 <= s.len() && s.subrange(i1, i1 + 9) == spec_session_key() {
            let i2 = spec_skip_ws(s, i1 + 9);
            if i2 < s.len() && s[i2] == 0x3A {
                let i3 = spec_skip_ws(s, i2 + 1);
                if i3 < s.len() && s[i3] == 0x22 {
                    match spec_parse_string(s, i3 + 1) {
                        Some(t) => {
                            let i4 = spec_skip_ws(s, t.1);
                            if i4 < s.len() && s[i4] == 0x7D {
                                if spec_skip_ws(s, i4 + 1) == s.len() {
                                    Some(t.0)
                                } else {
                                    None
                                }
                            } else {
                                None
                            }
                        },
                        None => None,
                    }
                } else {
                    None
                }
            } else {
                None
            }
        } else {
            None
        }
    } else {
        None
    }
}

/// The index of the first non-whitespace byte at or after `start`.
fn skip_ws(s: &[u8], start: usize) -> (r: usize)
    requires
        start <= s@.len(),
    ensures
        r == spec_skip_ws(s@, start as int),
        start <= r <= s@.len(),
{
    let mut i = start;
    while i < s.len() && (s[i] == 0x20 || s[i] == 0x09 || s[i] == 0x0A || s[i] == 0x0D)
        invariant
            start <= i <= s@.len(),
            spec_skip_ws(s@, start as int) == spec_skip_ws(s@, i as int),
        decreases s@.len() - i,
    {
        i = i + 1;
    }
    i
}

/// The result of prefixing already-read content onto a partial string parse.
pub open spec fn prepend_content(p: Seq<u8>, o: Option<(Seq<u8>, int)>) -> Option<(Seq<u8>, int)> {
    match o {
        Some(t) => Some((p + t.0, t.1)),
        None => None,
    }
}

/// Scan JSON string content starting right after the opening quote.
fn scan_string(s: &[u8], start: usize) -> (r: Option<(Vec<u8>, usize)>)
    requires
        start <= s@.len(),
    ensures
        r matches Some(t) ==> spec_parse_string(s@, start as int) == Some((t.0@, t.1 as int))
            && start < t.1 <= s@.len(),
        r is None ==> spec_parse_string(s@, start as int) is None,
{
    let mut out: Vec<u8> = Vec::new();
    let mut i = start;
    loop
        invariant
            start <= i <= s@.len(),
            spec_parse_string(s@, start as int) == prepend_content(
                out@,
                spec_parse_string(s@, i as int),
            ),
        decreases s@.len() - i,
    {
        if i >= s.len() {
            return None;
        }
        let b = s[i];
        if b == 0x22 {
            proof {
                assert(spec_parse_string(s@, i as int) == Some((Seq::<u8>::empty(), i + 1)));
                assert(out@ + Seq::<u8>::empty() =~= out@);
            }
            return Some((out, i + 1));
        } else if b == 0x5C {
            if i + 1 >= s.len() {
                return None;
            }
            let e = s[i + 1];
            if e == 0x75 {
                if s.len() - i < 6 {
                    return None;
                }
                let d2 = s[i + 2];
                let d3 = s[i + 3];
                let d4 = s[i + 4];
                let d5 = s[i + 5];
                let h2 = match hex_val_exec(d2) {
                    Some(v) => v,
                    None => {
                        return None;
                    },
                };
                let h3 = match hex_val_exec(d3) {
                    Some(v) => v,
                    None => {
                        return None;
                    },
                };
                let h4 = match hex_val_exec(d4) {
                    Some(v) => v,
                    None => {
                        return None;
                    },
                };
                let h5 = match hex_val_exec(d5) {
                    Some(v) => v,
                    None => {
                        return None;
                    },
                };
                let cp: u32 = 4096 * (h2 as u32) + 256 * (h3 as u32) + 16 * (h4 as u32) + (
                h5 as u32);
                if 0xD800 <= cp && cp <= 0xDFFF {
                    return None;
                }
                let ghost old_out = out@;
                let ghost e = encode_scalar(cp);
                if cp < 0x80 {
                    out.push((cp & 0x7F) as u8);
                } else if cp < 0x800 {
                    out.push(0xC0 | (((cp >> 6) & 0x1F) as u8));
                    out.push(0x80 | ((cp & 0x3F) as u8));
                } else {
                    out.push(0xE0 | (((cp >> 12) & 0x0F) as u8));
                    out.push(0x80 | (((cp >> 6) & 0x3F) as u8));
                    out.push(0x80 | ((cp & 0x3F) as u8));
                }
                proof {
                    assert(out@ =~= old_out + e);
                    let o = spec_parse_string(s@, i + 6);
                    let cps = 4096 * (hex_val(s@[i + 2]) as int) + 256 * (hex_val(
                        s@[i + 3],
                    ) as int) + 16 * (hex_val(s@[i + 4]) as int) + (hex_val(s@[i + 5]) as int);
                    assert(cp == cps as u32);
                    assert(encode_scalar(cps as u32) == e);
                    assert(spec_parse_string(s@, i as int) == prepend_content(e, o));
                    if o is Some {
                        assert(old_out + (e + o->Some_0.0) =~= (old_out + e) + o->Some_0.0);
                    }
                }
                i = i + 6;
            } else {
                let decoded: u8 = if e == 0x22 {
                    0x22
                } else if e == 0x5C {
                    0x5C
                } else if e == 0x2F {
                    0x2F
                } else if e == 0x62 {
                    0x08
                } else if e == 0x66 {
                    0x0C
                } else if e == 0x6E {
                    0x0A
                } else if e == 0x72 {
                    0x0D
                } else if e == 0x74 {
                    0x09
                } else {
                    return None;
                };
                let ghost old_out = out@;
                out.push(decoded);
                proof {
                    let o = spec_parse_string(s@, i + 2);
                    assert(spec_parse_string(s@, i as int) == prepend_content(seq![decoded], o));
                    if o is Some {
                        assert(old_out + (seq![decoded] + o->Some_0.0) =~= (old_out + seq![decoded])
                            + o->Some_0.0);
                    }
                }
                i = i + 2;
            }
        } else if b < 0x20 {
            return None;
        } else {
            let ghost old_out = out@;
            out.push(b);
            proof {
                let o = spec_parse_string(s@, i + 1);
                assert(spec_parse_string(s@, i as int) == prepend_content(seq![b], o));
                if o is Some {
                    assert(old_out + (seq![b] + o->Some_0.0) =~= (old_out + seq![b]) + o->Some_0.0);
                }
            }
            i = i + 1;
        }
    }
}

/// The numeric value of an ASCII hex digit byte, if it is one.
fn hex_val_exec(b: u8) -> (r: Option<u8>)
    ensures
        r is Some <==> is_hex_digit(b),
        r matches Some(v) ==> v == hex_val(b),
{
    if 48 <= b && b <= 57 {
        Some(b - 48)
    } else if 97 <= b && b <= 102 {
        Some(b - 87)
    } else if 65 <= b && b <= 70 {
        Some(b - 55)
    } else {
        None
    }
}

/// Parse the session document; `Some` exactly where the grammar accepts, and
/// then the unescaped address bytes.
pub fn parse_session(s: &[u8]) -> (r: Option<Vec<u8>>)
    ensures
        r matches Some(v) ==> spec_parse_session(s@) == Some(v@),
        r is None ==> spec_parse_session(s@) is None,
{
    let i0 = skip_ws(s, 0);
    if !(i0 < s.len() && s[i0] == 0x7B) {
        return None;
    }
    let i1 = skip_ws(s, i0 + 1);
    if s.len() - i1 < 9 {
        return None;
    }
    if !(s[i1] == 0x22 && s[i1 + 1] == 0x61 && s[i1 + 2] == 0x64 && s[i1 + 3] == 0x64 && s[i1 + 4]
        == 0x72 && s[i1 + 5] == 0x65 && s[i1 + 6] == 0x73 && s[i1 + 7] == 0x73 && s[i1 + 8]
        == 0x22) {
        proof {
            let sub = s@.subrange(i1 as int, i1 + 9);
            if sub == spec_session_key() {
                assert(sub[0] == 0x22 && sub[1] == 0x61 && sub[2] == 0x64 && sub[3] == 0x64
                    && sub[4] == 0x72 && sub[5] == 0x65 && sub[6] == 0x73 && sub[7] == 0x73
                    && sub[8] == 0x22);
            }
        }
        return None;
    }
    proof {
        assert(s@.subrange(i1 as int, i1 + 9) =~= spec_session_key());
    }
    let i2 = skip_ws(s, i1 + 9);
    if !(i2 < s.len() && s[i2] == 0x3A) {
        return None;
    }
    let i3 = skip_ws(s, i2 + 1);
    if !(i3 < s.len() && s[i3] == 0x22) {
        return None;
    }
    match scan_string(s, i3 + 1) {
        None => None,
        Some((content, j)) => {
            let i4 = skip_ws(s, j);
            if !(i4 < s.len() && s[i4] == 0x7D) {
                return None;
            }
            let i5 = skip_ws(s, i4 + 1);
            if i5 != s.len() {
                return None;
            }
            Some(content)
        },
    }
}

// --- The renderer/parser round trip ---

proof fn lemma_parse_esc(s: Seq<u8>, i: int, a: Seq<u8>)
    requires
        0 <= i,
        i + esc(a).len() + 1 <= s.len(),
        s.subrange(i, i + esc(a).len()) == esc(a),
        s[i + esc(a).len()] == 0x22,
    ensures
        spec_parse_string(s, i) == Some((a, i + esc(a).len() + 1)),
    decreases a.len(),
{
    if a.len() == 0 {
        assert(esc(a).len() == 0);
        assert(s[i] == 0x22);
        assert(spec_parse_string(s, i) == Some((Seq::<u8>::empty(), i + 1)));
        assert(a =~= Seq::<u8>::empty());
    } else {
        let b = a.first();
        let rest = a.drop_first();
        let eb = esc_byte(b);
        let k = eb.len() as int;
        assert(esc(a) == eb + esc(rest));
        assert forall|j: int| 0 <= j < k implies s[i + j] == eb[j] by {
            assert(s.subrange(i, i + esc(a).len())[j] == s[i + j]);
            assert((eb + esc(rest))[j] == eb[j]);
        }
        assert(s.subrange(i + k, i + k + esc(rest).len()) =~= esc(rest)) by {
            assert forall|j: int| 0 <= j < esc(rest).len() implies s.subrange(
                i + k,
                i + k + esc(rest).len(),
            )[j] == esc(rest)[j] by {
                assert(s.subrange(i, i + esc(a).len())[k + j] == s[i + k + j]);
                assert((eb + esc(rest))[k + j] == esc(rest)[j]);
            }
        }
        lemma_parse_esc(s, i + k, rest);
        assert(seq![b] + rest =~= a);
        if b == 0x22 || b == 0x5C || b == 0x08 || b == 0x09 || b == 0x0A || b == 0x0C || b
            == 0x0D {
            assert(s[i] == 0x5C);
            assert(esc_code(s[i + 1]) == Some(b));
            assert(spec_parse_string(s, i) == Some((seq![b] + rest, i + esc(a).len() + 1)));
        } else if b < 0x20 {
            let hi = b >> 4;
            let lo = b & 0xf;
            assert(b >> 4 < 16 && b & 0xf < 16 && 16 * (b >> 4) + (b & 0xf) == b) by (bit_vector);
            assert(s[i] == 0x5C && s[i + 1] == 0x75 && s[i + 2] == 0x30 && s[i + 3] == 0x30);
            assert(s[i + 4] == hex_digit(hi) && s[i + 5] == hex_digit(lo));
            assert(is_hex_digit(hex_digit(hi)) && hex_val(hex_digit(hi)) == hi);
            assert(is_hex_digit(hex_digit(lo)) && hex_val(hex_digit(lo)) == lo);
            assert(is_hex_digit(0x30u8) && hex_val(0x30u8) == 0);
            let cp = 4096 * (hex_val(s[i + 2]) as int) + 256 * (hex_val(s[i + 3]) as int) + 16 * (
            hex_val(s[i + 4]) as int) + (hex_val(s[i + 5]) as int);
            assert(cp == b);
            assert(!(0xD800 <= cp <= 0xDFFF));
            let bb = b;
            assert(((bb as u32) & 0x7F) as u8 == bb) by (bit_vector)
                requires
                    bb < 0x20,
            ;
            assert(encode_scalar(cp as u32) =~= seq![b]);
            assert(spec_parse_string(s, i) == Some(
                (encode_scalar(cp as u32) + rest, i + esc(a).len() + 1),
            ));
            assert(encode_scalar(cp as u32) + rest =~= seq![b] + rest);
        } else {
            assert(s[i] == b);
            assert(b != 0x22 && b != 0x5C && b >= 0x20);
            assert(spec_parse_string(s, i) == Some((seq![b] + rest, i + esc(a).len() + 1)));
        }
    }
}

/// The session grammar round trip: parsing the canonical rendering of any
/// address recovers exactly that address.
pub proof fn lemma_session_json_roundtrip(addr: Seq<u8>)
    ensures
        spec_parse_session(session_json_of(addr)) == Some(addr),
{
    let s = session_json_of(addr);
    let e = esc(addr).len() as int;
    assert(s.len() == 14 + e);
    assert forall|j: int| 0 <= j < 12 implies s[j] == session_json_head()[j] by {}
    assert(spec_skip_ws(s, 0) == 0);
    assert(s[0] == 0x7B);
    assert(spec_skip_ws(s, 1) == 1);
    assert(s.subrange(1, 10) =~= spec_session_key());
    assert(spec_skip_ws(s, 10) == 10);
    assert(s[10] == 0x3A);
    assert(spec_skip_ws(s, 11) == 11);
    assert(s[11] == 0x22);
    assert(s.subrange(12, 12 + e) =~= esc(addr));
    assert(s[12 + e] == 0x22);
    lemma_parse_esc(s, 12, addr);
    assert(spec_parse_string(s, 12) == Some((addr, 13 + e)));
    assert(s[13 + e] == 0x7D);
    assert(spec_skip_ws(s, 13 + e) == 13 + e);
    assert(spec_skip_ws(s, 14 + e) == s.len());
}

} // verus!
