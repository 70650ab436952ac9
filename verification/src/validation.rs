use vstd::prelude::*;
use vstd::string::StringSliceAdditionalSpecFns;
use vstd::utf8::encode_utf8;

use crate::config::{MAX_SEARCH_QUERY_LENGTH, MAX_SYMBOL_LENGTH};
use crate::errors::InternalError;
use crate::strutil::{chars_to_string, lemma_encode_utf8_append, lemma_encode_utf8_len_ge, str_chars_vec};

verus! {

/// A byte allowed in a stock symbol: ASCII alphanumeric, dot or hyphen.
pub open spec fn is_symbol_byte(b: u8) -> bool {
    (48 <= b <= 57) || (65 <= b <= 90) || (97 <= b <= 122) || b == 46 || b == 45
}

/// A well-formed symbol: nonempty, at most the limit, allowed bytes only.
pub open spec fn spec_symbol_valid(s: Seq<u8>) -> bool {
    0 < s.len() <= MAX_SYMBOL_LENGTH && forall|i: int|
        0 <= i < s.len() ==> is_symbol_byte(#[trigger] s[i])
}

/// Validate a stock symbol; `Ok` exactly on a well-formed one.
pub fn validate_symbol(symbol: &str) -> (r: Result<(), InternalError>)
    ensures
        r is Ok <==> spec_symbol_valid(symbol.spec_bytes()),
        r matches Err(e) ==> e is InvalidInput,
{
    let s = symbol.as_bytes();
    let n = s.len();
    if n == 0 {
        return Err(InternalError::InvalidInput { message: "Symbol cannot be empty".to_owned() });
    }
    if n > MAX_SYMBOL_LENGTH {
        return Err(
            InternalError::InvalidInput {
                message: "Symbol too long (max 20 characters)".to_owned(),
            },
        );
    }
    let mut i: usize = 0;
    while i < n
        invariant
            s@ == symbol.spec_bytes(),
            n == s@.len(),
            i <= n,
            forall|j: int| 0 <= j < i ==> is_symbol_byte(#[trigger] s@[j]),
        decreases n - i,
    {
        let b = s[i];
        let ok = (48 <= b && b <= 57) || (65 <= b && b <= 90) || (97 <= b && b <= 122) || b == 46
            || b == 45;
        if !ok {
            proof {
                assert(!is_symbol_byte(s@[i as int]));
            }
            return Err(
                InternalError::InvalidInput {
                    message:
                        "Symbol contains invalid characters. Only alphanumeric, dots, and hyphens are allowed".to_owned(),
                },
            );
        }
        i = i + 1;
    }
    Ok(())
}

/// Whether a character is alphanumeric, in the Unicode classes std's
/// char::is_alphanumeric uses; a function of the character alone.
pub uninterp spec fn char_is_alphanumeric(c: char) -> bool;

/// Whether a character is whitespace, in the Unicode class std's
/// char::is_whitespace uses; a function of the character alone.
pub uninterp spec fn char_is_whitespace(c: char) -> bool;

/// Relies on char::is_alphanumeric: the Unicode alphabetic and numeric
/// classes, fixed by the character alone.
pub assume_specification[ char::is_alphanumeric ](c: char) -> (r: bool)
    ensures
        r == char_is_alphanumeric(c),
;

/// Relies on char::is_whitespace: the Unicode White_Space class, fixed by
/// the character alone.
pub assume_specification[ char::is_whitespace ](c: char) -> (r: bool)
    ensures
        r == char_is_whitespace(c),
;

/// The character sequence with leading whitespace removed.
pub open spec fn spec_trim_front(s: Seq<char>) -> Seq<char>
    decreases s.len(),
{
    if s.len() > 0 && char_is_whitespace(s.first()) {
        spec_trim_front(s.drop_first())
    } else {
        s
    }
}

/// The character sequence with trailing whitespace removed.
pub open spec fn spec_trim_back(s: Seq<char>) -> Seq<char>
    decreases s.len(),
{
    if s.len() > 0 && char_is_whitespace(s.last()) {
        spec_trim_back(s.drop_last())
    } else {
        s
    }
}

/// The character sequence with whitespace removed from both ends, as
/// str::trim removes it.
pub open spec fn spec_trim(s: Seq<char>) -> Seq<char> {
    spec_trim_back(spec_trim_front(s))
}

/// A character kept by the query sanitizer: alphanumeric or whitespace (in
/// the Unicode classes), dot, hyphen, comma or ampersand.
pub open spec fn is_query_char(c: char) -> bool {
    char_is_alphanumeric(c) || char_is_whitespace(c) || c == '.' || c == '-' || c == ',' || c == '&'
}

/// The query with every character outside the kept set removed.
pub open spec fn spec_sanitize(s: Seq<char>) -> Seq<char>
    decreases s.len(),
{
    if s.len() == 0 {
        Seq::empty()
    } else {
        (if is_query_char(s.first()) {
            seq![s.first()]
        } else {
            Seq::empty()
        }) + spec_sanitize(s.drop_first())
    }
}

proof fn lemma_sanitize_append(a: Seq<char>, b: Seq<char>)
    ensures
        spec_sanitize(a + b) == spec_sanitize(a) + spec_sanitize(b),
    decreases a.len(),
{
    if a.len() == 0 {
        assert(a + b =~= b);
        assert(spec_sanitize(a) + spec_sanitize(b) =~= spec_sanitize(b));
    } else {
        lemma_sanitize_append(a.drop_first(), b);
        assert((a + b).drop_first() =~= a.drop_first() + b);
        assert((a + b).first() == a.first());
        let h = if is_query_char(a.first()) {
            seq![a.first()]
        } else {
            Seq::<char>::empty()
        };
        assert(h + (spec_sanitize(a.drop_first()) + spec_sanitize(b)) =~= (h + spec_sanitize(
            a.drop_first(),
        )) + spec_sanitize(b));
    }
}

/// The sanitized query, cut to the length limit (counted in characters, as
/// the sanitizer takes them).
pub open spec fn spec_sanitized_query(s: Seq<char>) -> Seq<char> {
    let t = spec_sanitize(spec_trim(s));
    if t.len() > MAX_SEARCH_QUERY_LENGTH {
        t.take(MAX_SEARCH_QUERY_LENGTH as int)
    } else {
        t
    }
}

/// The UTF-8 width of one character, computed from its scalar value.
fn char_width(c: char) -> (r: usize)
    ensures
        r == vstd::utf8::encode_scalar(c as u32).len(),
        1 <= r <= 4,
{
    proof {
        vstd::utf8::char_is_scalar(c);
    }
    let u = c as u32;
    if u < 0x80 {
        1
    } else if u < 0x800 {
        2
    } else if u < 0x10000 {
        3
    } else {
        4
    }
}

/// Validate and sanitize a search query: trim whitespace, bound the
/// trimmed text's byte length, keep only the sanctioned characters, cut to
/// the first hundred of them, and reject if nothing remains.
pub fn validate_search_query(query: &str) -> (r: Result<String, InternalError>)
    ensures
        r is Ok <==> (spec_trim(query@).len() > 0 && encode_utf8(spec_trim(query@)).len()
            <= MAX_SEARCH_QUERY_LENGTH && spec_sanitize(spec_trim(query@)).len() > 0),
        r matches Ok(q) ==> q@ == spec_sanitized_query(query@),
        r matches Err(e) ==> e is InvalidInput,
{
    let chars = str_chars_vec(query);
    let n = chars.len();
    proof {
        assert(chars@.skip(0) =~= chars@);
    }
    let mut lo: usize = 0;
    while lo < n && chars[lo].is_whitespace()
        invariant
            chars@ == query@,
            n == chars@.len(),
            lo <= n,
            spec_trim_front(query@) == spec_trim_front(chars@.skip(lo as int)),
        decreases n - lo,
    {
        proof {
            assert(chars@.skip(lo as int).drop_first() =~= chars@.skip(lo + 1));
        }
        lo = lo + 1;
    }
    proof {
        if lo < n {
            assert(spec_trim_front(query@) == chars@.skip(lo as int));
        } else {
            assert(chars@.skip(lo as int) =~= Seq::<char>::empty());
            assert(spec_trim_front(query@) =~= chars@.skip(lo as int));
        }
    }
    let ghost front = chars@.skip(lo as int);
    let mut hi: usize = n;
    while hi > lo && chars[hi - 1].is_whitespace()
        invariant
            chars@ == query@,
            n == chars@.len(),
            lo <= hi <= n,
            front == chars@.skip(lo as int),
            spec_trim_back(front) == spec_trim_back(chars@.subrange(lo as int, hi as int)),
        decreases hi,
    {
        proof {
            assert(chars@.subrange(lo as int, hi as int).drop_last() =~= chars@.subrange(
                lo as int,
                hi - 1,
            ));
            assert(chars@.subrange(lo as int, hi as int).last() == chars@[hi - 1]);
        }
        hi = hi - 1;
    }
    proof {
        assert(front =~= chars@.subrange(lo as int, n as int));
        if hi > lo {
            assert(spec_trim_back(chars@.subrange(lo as int, hi as int)) == chars@.subrange(
                lo as int,
                hi as int,
            ));
        } else {
            assert(chars@.subrange(lo as int, hi as int) =~= Seq::<char>::empty());
            assert(spec_trim_back(chars@.subrange(lo as int, hi as int)) =~= chars@.subrange(
                lo as int,
                hi as int,
            ));
        }
        assert(spec_trim(query@) == chars@.subrange(lo as int, hi as int));
    }
    let ghost trimmed = chars@.subrange(lo as int, hi as int);
    if hi == lo {
        return Err(
            InternalError::InvalidInput { message: "Search query cannot be empty".to_owned() },
        );
    }
    if hi - lo > MAX_SEARCH_QUERY_LENGTH {
        proof {
            lemma_encode_utf8_len_ge(trimmed);
        }
        return Err(
            InternalError::InvalidInput {
                message: "Search query too long (max 100 characters)".to_owned(),
            },
        );
    }
    let mut byte_len: usize = 0;
    let mut j: usize = lo;
    proof {
        assert(chars@.subrange(lo as int, lo as int) =~= Seq::<char>::empty());
    }
    while j < hi
        invariant
            chars@ == query@,
            n == chars@.len(),
            lo <= j <= hi <= n,
            hi - lo <= MAX_SEARCH_QUERY_LENGTH,
            trimmed == chars@.subrange(lo as int, hi as int),
            byte_len == encode_utf8(chars@.subrange(lo as int, j as int)).len(),
            byte_len <= 4 * (j - lo),
        decreases hi - j,
    {
        let w = char_width(chars[j]);
        proof {
            lemma_encode_utf8_append(chars@.subrange(lo as int, j as int), seq![chars@[j as int]]);
            assert(chars@.subrange(lo as int, j + 1) =~= chars@.subrange(lo as int, j as int)
                + seq![chars@[j as int]]);
            assert(seq![chars@[j as int]].drop_first() =~= Seq::<char>::empty());
            assert(encode_utf8(Seq::<char>::empty()) =~= Seq::<u8>::empty());
            assert(encode_utf8(seq![chars@[j as int]]) =~= vstd::utf8::encode_scalar(
                chars@[j as int] as u32,
            ));
        }
        byte_len = byte_len + w;
        j = j + 1;
    }
    if byte_len > MAX_SEARCH_QUERY_LENGTH {
        return Err(
            InternalError::InvalidInput {
                message: "Search query too long (max 100 characters)".to_owned(),
            },
        );
    }
    let mut out: Vec<char> = Vec::new();
    let mut j: usize = lo;
    while j < hi
        invariant
            chars@ == query@,
            n == chars@.len(),
            lo <= j <= hi <= n,
            trimmed == chars@.subrange(lo as int, hi as int),
            out@ == spec_sanitize(chars@.subrange(lo as int, j as int)),
        decreases hi - j,
    {
        let c = chars[j];
        let keep = c.is_alphanumeric() || c.is_whitespace() || c == '.' || c == '-' || c == ','
            || c == '&';
        if keep {
            out.push(c);
        }
        proof {
            lemma_sanitize_append(chars@.subrange(lo as int, j as int), seq![chars@[j as int]]);
            assert(chars@.subrange(lo as int, j + 1) =~= chars@.subrange(lo as int, j as int)
                + seq![chars@[j as int]]);
            assert(seq![chars@[j as int]].drop_first() =~= Seq::<char>::empty());
            assert(spec_sanitize(Seq::<char>::empty()) =~= Seq::<char>::empty());
            if keep {
                assert(spec_sanitize(seq![chars@[j as int]]) =~= seq![chars@[j as int]]);
            } else {
                assert(spec_sanitize(seq![chars@[j as int]]) =~= Seq::<char>::empty());
                assert(out@ + Seq::<char>::empty() =~= out@);
            }
        }
        j = j + 1;
    }
    if out.len() == 0 {
        return Err(
            InternalError::InvalidInput {
                message: "Search query contains only invalid characters".to_owned(),
            },
        );
    }
    out.truncate(MAX_SEARCH_QUERY_LENGTH);
    proof {
        assert(out@ == spec_sanitized_query(query@));
    }
    Ok(chars_to_string(&out))
}

/// The limit actually used: the given one, or the default, clamped to
/// `[1, max]`.
pub open spec fn spec_limit(limit: Option<i32>, max: i32, default: i32) -> i32 {
    let v = match limit {
        Some(v) => v,
        None => default,
    };
    if v < 1 {
        1
    } else if v > max {
        max
    } else {
        v
    }
}

/// Clamp an optional limit parameter into `[1, max]`, defaulting it first.
pub fn validate_limit(limit: Option<i32>, max: i32, default: i32) -> (r: i32)
    requires
        max >= 1,
    ensures
        r == spec_limit(limit, max, default),
{
    let v = match limit {
        Some(v) => v,
        None => default,
    };
    if v < 1 {
        1
    } else if v > max {
        max
    } else {
        v
    }
}

/// Check an optional date range, each bound in whole seconds of the epoch:
/// the start must not lie after the end, and the range must not exceed ten
/// years (3650 whole days).
pub fn validate_date_range(start_secs: Option<i64>, end_secs: Option<i64>) -> (r: Result<
    (),
    InternalError,
>)
    ensures
        start_secs matches Some(s) ==> (end_secs matches Some(e) ==> (r is Ok <==> (s <= e && (e
            - s) / 86400 <= 3650))),
        (start_secs is None || end_secs is None) ==> r is Ok,
        r matches Err(err) ==> err is InvalidInput,
{
    if let (Some(s), Some(e)) = (start_secs, end_secs) {
        if s > e {
            return Err(
                InternalError::InvalidInput {
                    message: "Start date must be before end date".to_owned(),
                },
            );
        }
        let diff: i128 = e as i128 - s as i128;
        if diff / 86400 > 3650 {
            return Err(
                InternalError::InvalidInput {
                    message: "Date range cannot exceed 10 years".to_owned(),
                },
            );
        }
    }
    Ok(())
}

} // verus!
