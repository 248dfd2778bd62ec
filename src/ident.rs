//! Identifier heuristics: UUID-shaped tokens, vendor codes and display names.
use vstd::prelude::*;

use crate::chars::{chars_of, string_of};
use crate::text::{before, before_char, is_alnum_char, is_ascii_alnum, is_hex_char, is_hex_digit, ascii_upper, trim, trim_chars, upper_char};

verus! {

pub open spec fn is_dash_pos(i: int) -> bool {
    i == 8 || i == 13 || i == 18 || i == 23
}

/// 32 hex digits, or 36 characters with dashes at 8, 13, 18 and 23 and hex digits elsewhere.
pub open spec fn uuid_shape(s: Seq<char>) -> bool {
    (s.len() == 32 && forall|i: int| 0 <= i < 32 ==> is_hex_digit(#[trigger] s[i])) || (s.len()
        == 36 && forall|i: int|
        0 <= i < 36 ==> if is_dash_pos(i) {
            #[trigger] s[i] == '-'
        } else {
            is_hex_digit(s[i])
        })
}

/// A value that looks like a UUID: trimmed, non-empty, and UUID-shaped before any `|`.
pub open spec fn uuidish(v: Seq<char>) -> bool {
    let s = trim(v);
    s.len() > 0 && uuid_shape(before(s, '|'))
}

/// A trimmed value that is UUID-shaped as a whole.
pub open spec fn hex_uuid(v: Seq<char>) -> bool {
    uuid_shape(trim(v))
}

/// Number of leading characters of `s` equal to `c`.
pub open spec fn leading_run(s: Seq<char>, c: char) -> nat
    decreases s.len(),
{
    if s.len() > 0 && s[0] == c {
        1 + leading_run(s.drop_first(), c)
    } else {
        0
    }
}

/// Number of trailing characters of `s` equal to `c`.
pub open spec fn trailing_run(s: Seq<char>, c: char) -> nat
    decreases s.len(),
{
    if s.len() > 0 && s.last() == c {
        1 + trailing_run(s.drop_last(), c)
    } else {
        0
    }
}

/// `s` without the copies of `c` at either end.
pub open spec fn strip_char(s: Seq<char>, c: char) -> Seq<char> {
    let t = s.skip(leading_run(s, c) as int);
    t.take(t.len() - trailing_run(t, c))
}

/// Number of leading ASCII letters and digits of `s`.
pub open spec fn alnum_run(s: Seq<char>) -> nat
    decreases s.len(),
{
    if s.len() > 0 && is_ascii_alnum(s[0]) {
        1 + alnum_run(s.drop_first())
    } else {
        0
    }
}

/// The token that identifier normalization looks at: trimmed, and stripped of
/// double and then single quotes.
pub open spec fn bare_token(v: Seq<char>) -> Seq<char> {
    trim(strip_char(strip_char(trim(v), '"'), '\''))
}

/// Normalized identifier: a UUID-shaped token unchanged; otherwise, for a token
/// that starts with `c` or `C`, its leading ASCII letters and digits in upper
/// case, when there are at most 20 of them; otherwise none.
pub open spec fn normalized_id(v: Seq<char>) -> Option<Seq<char>> {
    let t = bare_token(v);
    if t.len() == 0 {
        None
    } else if uuid_shape(t) {
        Some(t)
    } else if (t[0] == 'c' || t[0] == 'C') && alnum_run(t) <= 20 {
        Some(t.take(alnum_run(t) as int).map_values(|c: char| ascii_upper(c)))
    } else {
        None
    }
}

pub open spec fn char_utf8_len(c: char) -> nat {
    let u = c as u32;
    if u < 0x80 {
        1
    } else if u < 0x800 {
        2
    } else if u < 0x10000 {
        3
    } else {
        4
    }
}

/// Length of `s` in UTF-8 bytes.
pub open spec fn utf8_len(s: Seq<char>) -> nat
    decreases s.len(),
{
    if s.len() == 0 {
        0
    } else {
        utf8_len(s.drop_last()) + char_utf8_len(s.last())
    }
}

/// The display name chosen for a component.
pub open spec fn display_name(
    raw: Option<Seq<char>>,
    fallback: Seq<char>,
    hint: Option<Seq<char>>,
) -> Seq<char> {
    let candidate = trim(
        match raw {
            Some(r) => r,
            None => Seq::empty(),
        },
    );
    if candidate.len() == 0 || uuidish(candidate) || utf8_len(candidate) > 100 {
        match hint {
            Some(p) => if trim(p).len() > 0 && !uuidish(trim(p)) {
                trim(p)
            } else {
                fallback
            },
            None => fallback,
        }
    } else {
        candidate
    }
}

pub open spec fn footprint_safe_char(c: char) -> char {
    if c == ' ' || c == '/' || c == '(' || c == ')' {
        '_'
    } else {
        c
    }
}

/// A footprint title with spaces, slashes and parentheses replaced by `_`.
pub open spec fn sanitized_name(s: Seq<char>) -> Seq<char> {
    s.map_values(|c: char| footprint_safe_char(c))
}

fn uuid_shape_chars(s: &Vec<char>) -> (r: bool)
    ensures
        r == uuid_shape(s@),
{
    if s.len() == 32 {
        let mut i: usize = 0;
        while i < 32
            invariant
                0 <= i <= 32,
                s@.len() == 32,
                forall|j: int| 0 <= j < i ==> is_hex_digit(#[trigger] s@[j]),
            decreases 32 - i,
        {
            if !is_hex_char(s[i]) {
                return false;
            }
            i = i + 1;
        }
        true
    } else if s.len() == 36 {
        let mut i: usize = 0;
        while i < 36
            invariant
                0 <= i <= 36,
                s@.len() == 36,
                forall|j: int|
                    0 <= j < i ==> if is_dash_pos(j) {
                        #[trigger] s@[j] == '-'
                    } else {
                        is_hex_digit(s@[j])
                    },
            decreases 36 - i,
        {
            let ok = if i == 8 || i == 13 || i == 18 || i == 23 {
                s[i] == '-'
            } else {
                is_hex_char(s[i])
            };
            if !ok {
                assert(!(if is_dash_pos(i as int) {
                    s@[i as int] == '-'
                } else {
                    is_hex_digit(s@[i as int])
                }));
                return false;
            }
            i = i + 1;
        }
        true
    } else {
        false
    }
}

/// The part of a `|`-delimited value before its first `|`.
pub fn uuid_first_part(value: &str) -> (r: String)
    ensures
        r@ == before(value@, '|'),
{
    let v = chars_of(value);
    let b = before_char(&v, '|');
    string_of(&b)
}

/// The trimmed part before the first `|`, or none when that is empty.
pub fn split_uuid_first(value: Option<&str>) -> (r: Option<String>)
    ensures
        match value {
            Some(v) => if trim(before(v@, '|')).len() > 0 {
                r matches Some(s) && s@ == trim(before(v@, '|'))
            } else {
                r is None
            },
            None => r is None,
        },
{
    match value {
        Some(v) => {
            let c = chars_of(v);
            let b = before_char(&c, '|');
            let t = trim_chars(&b);
            if t.len() == 0 {
                None
            } else {
                Some(string_of(&t))
            }
        },
        None => None,
    }
}

fn uuidish_chars(v: &Vec<char>) -> (r: bool)
    ensures
        r == uuidish(v@),
{
    let s = trim_chars(v);
    if s.len() == 0 {
        return false;
    }
    let first = before_char(&s, '|');
    uuid_shape_chars(&first)
}

/// Whether a value looks like a UUID (see `uuidish`).
pub fn looks_like_uuidish(value: &str) -> (r: bool)
    ensures
        r == uuidish(value@),
{
    let v = chars_of(value);
    uuidish_chars(&v)
}

/// Whether a trimmed value is UUID-shaped as a whole.
pub fn looks_like_hex_uuid(value: &str) -> (r: bool)
    ensures
        r == hex_uuid(value@),
{
    let v = chars_of(value);
    let s = trim_chars(&v);
    uuid_shape_chars(&s)
}

proof fn lemma_leading_run(s: Seq<char>, c: char, k: int)
    requires
        0 <= k <= s.len(),
        forall|j: int| 0 <= j < k ==> #[trigger] s[j] == c,
        k == s.len() || s[k] != c,
    ensures
        leading_run(s, c) == k,
    decreases k,
{
    if k > 0 {
        let t = s.drop_first();
        assert forall|j: int| 0 <= j < k - 1 implies #[trigger] t[j] == c by {
            assert(t[j] == s[j + 1]);
        }
        lemma_leading_run(t, c, k - 1);
    }
}

proof fn lemma_trailing_run(s: Seq<char>, c: char, k: int)
    requires
        0 <= k <= s.len(),
        forall|j: int| s.len() - k <= j < s.len() ==> #[trigger] s[j] == c,
        k == s.len() || s[s.len() - k - 1] != c,
    ensures
        trailing_run(s, c) == k,
    decreases k,
{
    if k > 0 {
        let t = s.drop_last();
        assert forall|j: int| t.len() - (k - 1) <= j < t.len() implies #[trigger] t[j] == c by {
            assert(t[j] == s[j]);
        }
        lemma_trailing_run(t, c, k - 1);
    }
}

fn strip_chars(s: &Vec<char>, c: char) -> (r: Vec<char>)
    ensures
        r@ == strip_char(s@, c),
{
    let len = s.len();
    let mut i: usize = 0;
    while i < len && s[i] == c
        invariant
            0 <= i <= len,
            len == s@.len(),
            forall|j: int| 0 <= j < i ==> #[trigger] s@[j] == c,
        decreases len - i,
    {
        i = i + 1;
    }
    proof {
        lemma_leading_run(s@, c, i as int);
    }
    let ghost t = s@.skip(i as int);
    let mut e: usize = len;
    while e > i && s[e - 1] == c
        invariant
            i <= e <= len,
            len == s@.len(),
            t == s@.skip(i as int),
            forall|j: int| e <= j < len ==> #[trigger] s@[j] == c,
        decreases e,
    {
        e = e - 1;
    }
    proof {
        assert forall|j: int| t.len() - (len - e) <= j < t.len() implies #[trigger] t[j] == c by {
            assert(t[j] == s@[j + i]);
        }
        if e > i {
            assert(t[t.len() - (len - e) - 1] == s@[e - 1]);
        }
        lemma_trailing_run(t, c, (len - e) as int);
    }
    let mut r: Vec<char> = Vec::new();
    let mut k: usize = i;
    while k < e
        invariant
            i <= k <= e <= len,
            len == s@.len(),
            r@ == s@.subrange(i as int, k as int),
        decreases e - k,
    {
        r.push(s[k]);
        assert(r@ =~= s@.subrange(i as int, k + 1));
        k = k + 1;
    }
    assert(r@ =~= strip_char(s@, c));
    r
}

proof fn lemma_alnum_run(s: Seq<char>, k: int)
    requires
        0 <= k <= s.len(),
        forall|j: int| 0 <= j < k ==> is_ascii_alnum(#[trigger] s[j]),
        k == s.len() || !is_ascii_alnum(s[k]),
    ensures
        alnum_run(s) == k,
    decreases k,
{
    if k > 0 {
        let t = s.drop_first();
        assert forall|j: int| 0 <= j < k - 1 implies is_ascii_alnum(#[trigger] t[j]) by {
            assert(t[j] == s[j + 1]);
        }
        lemma_alnum_run(t, k - 1);
    }
}

/// Normalizes a component identifier (see `normalized_id`).
pub fn normalize_component_token(value: &str) -> (r: Option<String>)
    ensures
        match normalized_id(value@) {
            Some(t) => r matches Some(s) && s@ == t,
            None => r is None,
        },
{
    let v = chars_of(value);
    let a = trim_chars(&v);
    let b = strip_chars(&a, '"');
    let c = strip_chars(&b, '\'');
    let t = trim_chars(&c);
    if t.len() == 0 {
        return None;
    }
    if uuid_shape_chars(&t) {
        return Some(string_of(&t));
    }
    if t[0] != 'c' && t[0] != 'C' {
        return None;
    }
    let mut code: Vec<char> = Vec::new();
    let mut i: usize = 0;
    while i < t.len() && is_alnum_char(t[i])
        invariant
            0 <= i <= t@.len(),
            i <= 20,
            t@ == bare_token(value@),
            t@.len() > 0,
            t@[0] == 'c' || t@[0] == 'C',
            !uuid_shape(t@),
            forall|j: int| 0 <= j < i ==> is_ascii_alnum(#[trigger] t@[j]),
            code@ == t@.take(i as int).map_values(|c: char| ascii_upper(c)),
        decreases t@.len() - i,
    {
        if i >= 20 {
            proof {
                assert(is_ascii_alnum(t@[i as int]));
                lemma_alnum_prefix_at_least(t@, i + 1);
            }
            return None;
        }
        code.push(upper_char(t[i]));
        assert(code@ =~= t@.take(i + 1).map_values(|c: char| ascii_upper(c)));
        i = i + 1;
    }
    proof {
        lemma_alnum_run(t@, i as int);
    }
    Some(string_of(&code))
}

proof fn lemma_alnum_prefix_at_least(s: Seq<char>, k: int)
    requires
        0 <= k <= s.len(),
        forall|j: int| 0 <= j < k ==> is_ascii_alnum(#[trigger] s[j]),
    ensures
        alnum_run(s) >= k,
    decreases k,
{
    if k > 0 {
        let t = s.drop_first();
        assert forall|j: int| 0 <= j < k - 1 implies is_ascii_alnum(#[trigger] t[j]) by {
            assert(t[j] == s[j + 1]);
        }
        lemma_alnum_prefix_at_least(t, k - 1);
    }
}

fn utf8_len_chars(s: &Vec<char>) -> (r: usize)
    requires
        s@.len() < 1_000_000_000,
    ensures
        r == utf8_len(s@),
        r <= 4 * s@.len(),
{
    let mut n: usize = 0;
    let mut i: usize = 0;
    while i < s.len()
        invariant
            0 <= i <= s@.len() < 1_000_000_000,
            n == utf8_len(s@.take(i as int)),
            n <= 4 * i,
        decreases s@.len() - i,
    {
        let u = s[i] as u32;
        let w: usize = if u < 0x80 {
            1
        } else if u < 0x800 {
            2
        } else if u < 0x10000 {
            3
        } else {
            4
        };
        assert(s@.take(i + 1).drop_last() =~= s@.take(i as int));
        n = n + w;
        i = i + 1;
    }
    assert(s@.take(i as int) =~= s@);
    n
}

fn display_too_long(s: &Vec<char>) -> (r: bool)
    ensures
        r == (utf8_len(s@) > 100),
{
    if s.len() > 100 {
        proof {
            lemma_utf8_len_at_least(s@);
        }
        return true;
    }
    utf8_len_chars(s) > 100
}

proof fn lemma_utf8_len_at_least(s: Seq<char>)
    ensures
        utf8_len(s) >= s.len(),
    decreases s.len(),
{
    if s.len() > 0 {
        lemma_utf8_len_at_least(s.drop_last());
    }
}

/// Chooses the display name of a component: the trimmed raw name, unless it is
/// empty, UUID-like or longer than 100 bytes; then a readable package hint;
/// else the fallback identifier.
pub fn normalize_display_name(
    raw: Option<String>,
    fallback_id: &str,
    package_hint: Option<&str>,
) -> (r: String)
    ensures
        r@ == display_name(
            match raw {
                Some(s) => Some(s@),
                None => None,
            },
            fallback_id@,
            match package_hint {
                Some(p) => Some(p@),
                None => None,
            },
        ),
{
    let raw_chars = match &raw {
        Some(s) => chars_of(s.as_str()),
        None => Vec::new(),
    };
    let candidate = trim_chars(&raw_chars);
    proof {
        if raw is None {
            assert(raw_chars@ =~= Seq::<char>::empty());
        }
    }
    if candidate.len() == 0 || uuidish_chars(&candidate) || display_too_long(&candidate) {
        if let Some(pkg) = package_hint {
            let pc = chars_of(pkg);
            let p = trim_chars(&pc);
            if p.len() > 0 && !uuidish_chars(&p) {
                return string_of(&p);
            }
        }
        return fallback_id.to_string();
    }
    string_of(&candidate)
}

/// Replaces spaces, slashes and parentheses of a footprint title with `_`.
pub fn sanitize_footprint_name(title: &str) -> (r: String)
    ensures
        r@ == sanitized_name(title@),
{
    let s = chars_of(title);
    let mut out: Vec<char> = Vec::new();
    let mut i: usize = 0;
    while i < s.len()
        invariant
            0 <= i <= s@.len(),
            out@ == s@.take(i as int).map_values(|c: char| footprint_safe_char(c)),
        decreases s@.len() - i,
    {
        let c = s[i];
        let d = if c == ' ' || c == '/' || c == '(' || c == ')' {
            '_'
        } else {
            c
        };
        out.push(d);
        assert(out@ =~= s@.take(i + 1).map_values(|c: char| footprint_safe_char(c)));
        i = i + 1;
    }
    assert(s@.take(i as int) =~= s@);
    string_of(&out)
}

proof fn lemma_alnum_run_prefix(s: Seq<char>, i: int)
    requires
        0 <= i < alnum_run(s),
    ensures
        i < s.len(),
        is_ascii_alnum(s[i]),
    decreases s.len(),
{
    if i > 0 {
        lemma_alnum_run_prefix(s.drop_first(), i - 1);
    }
}

proof fn lemma_alnum_run_le(s: Seq<char>)
    ensures
        alnum_run(s) <= s.len(),
    decreases s.len(),
{
    if s.len() > 0 {
        lemma_alnum_run_le(s.drop_first());
    }
}

/// `C` followed by digits and upper-case ASCII letters, 20 characters at most.
pub open spec fn vendor_code_form(t: Seq<char>) -> bool {
    &&& 0 < t.len() <= 20
    &&& t[0] == 'C'
    &&& forall|i: int|
        0 <= i < t.len() ==> {
            let u = (#[trigger] t[i]) as u32;
            (0x30 <= u <= 0x39) || (0x41 <= u <= 0x5A)
        }
}

/// A normalized identifier that is not UUID-shaped is a vendor code: it starts
/// with `C`, holds only digits and upper-case ASCII letters, and has at most 20
/// characters; a token whose code part is longer normalizes to nothing.
pub proof fn lemma_vendor_codes_are_normal(v: Seq<char>)
    ensures
        normalized_id(v) is Some && !uuid_shape(normalized_id(v).unwrap()) ==> vendor_code_form(
            normalized_id(v).unwrap(),
        ),
        ({
            let b = bare_token(v);
            b.len() > 0 && !uuid_shape(b) && (b[0] == 'c' || b[0] == 'C') && alnum_run(b) > 20
        }) ==> normalized_id(v) is None,
{
    let b = bare_token(v);
    if normalized_id(v) is Some && !uuid_shape(normalized_id(v).unwrap()) {
        let t = normalized_id(v).unwrap();
        assert(!uuid_shape(b));
        let n = alnum_run(b);
        lemma_alnum_run_le(b);
        assert(is_ascii_alnum(b[0]));
        lemma_alnum_prefix_at_least(b, 1);
        assert(t == b.take(n as int).map_values(|c: char| ascii_upper(c)));
        assert(t.len() == n);
        assert forall|i: int| 0 <= i < t.len() implies {
            let u = (#[trigger] t[i]) as u32;
            (0x30 <= u <= 0x39) || (0x41 <= u <= 0x5A)
        } by {
            lemma_alnum_run_prefix(b, i);
            assert(t[i] == ascii_upper(b[i]));
        }
        lemma_alnum_run_prefix(b, 0);
        assert(t[0] == ascii_upper(b[0]));
    }
}

} // verus!
