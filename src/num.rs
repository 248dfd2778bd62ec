//! Fixed-point numbers of the shape language and their millimetre rendering.
//!
//! A source value is held as an integer count of ten-thousandths of a source
//! unit; a millimetre value as an integer count of nanometres.
use vstd::prelude::*;

use crate::chars::{chars_of, string_of};

verus! {

/// Ten-thousandths in one source unit.
pub const UNIT_SCALE: i64 = 10000;

/// Largest magnitude, in ten-thousandths, that a parsed number may have.
pub const MAX_MAGNITUDE: i64 = 1_000_000_000_000;

/// Largest magnitude, in ten-thousandths, accepted by the unit conversions.
pub const MAX_CONVERTIBLE: i64 = 10_000_000_000_000;

/// Largest magnitude, in nanometres, of a converted value.
pub const MAX_NM: i64 = 260_000_000_000_000;

/// Saturation point of the integer part while scanning digits.
const INT_PART_CAP: u64 = 100_000_001;

pub open spec fn is_digit(c: char) -> bool {
    c == '0' || c == '1' || c == '2' || c == '3' || c == '4' || c == '5' || c == '6' || c == '7'
        || c == '8' || c == '9'
}

pub open spec fn digit_val(c: char) -> int {
    if c == '1' {
        1
    } else if c == '2' {
        2
    } else if c == '3' {
        3
    } else if c == '4' {
        4
    } else if c == '5' {
        5
    } else if c == '6' {
        6
    } else if c == '7' {
        7
    } else if c == '8' {
        8
    } else if c == '9' {
        9
    } else {
        0
    }
}

pub open spec fn digit_char(d: int) -> char {
    if d == 1 {
        '1'
    } else if d == 2 {
        '2'
    } else if d == 3 {
        '3'
    } else if d == 4 {
        '4'
    } else if d == 5 {
        '5'
    } else if d == 6 {
        '6'
    } else if d == 7 {
        '7'
    } else if d == 8 {
        '8'
    } else if d == 9 {
        '9'
    } else {
        '0'
    }
}

pub open spec fn all_digits(s: Seq<char>) -> bool {
    forall|i: int| 0 <= i < s.len() ==> is_digit(#[trigger] s[i])
}

/// The value of a run of decimal digits.
pub open spec fn digits_value(s: Seq<char>) -> int
    decreases s.len(),
{
    if s.len() == 0 {
        0
    } else {
        digits_value(s.drop_last()) * 10 + digit_val(s.last())
    }
}

/// Length of the longest prefix of `s` made of digits.
pub open spec fn leading_digits(s: Seq<char>) -> nat
    decreases s.len(),
{
    if s.len() > 0 && is_digit(s[0]) {
        1 + leading_digits(s.drop_first())
    } else {
        0
    }
}

/// The first `q` digits of `m`, padded with zeros past its end, as an integer.
pub open spec fn padded_value(m: Seq<char>, q: int) -> int
    decreases q,
{
    if q <= 0 {
        0
    } else {
        padded_value(m, q - 1) * 10 + (if q - 1 < m.len() {
            digit_val(m[q - 1])
        } else {
            0
        })
    }
}

/// One when the digit of `m` at `q` (zero outside `m`) is 5 or more: rounding half up.
pub open spec fn round_up(m: Seq<char>, q: int) -> int {
    if 0 <= q < m.len() && digit_val(m[q]) >= 5 {
        1
    } else {
        0
    }
}

/// The exponent after the digits: none written is zero; else `e` or `E`, an
/// optional sign and decimal digits, of magnitude at most 400.
pub open spec fn exponent_of(tail: Seq<char>) -> Option<int> {
    if tail.len() == 0 {
        Some(0)
    } else if tail[0] == 'e' || tail[0] == 'E' {
        let t = tail.drop_first();
        let d = if t.len() > 0 && (t[0] == '-' || t[0] == '+') {
            t.drop_first()
        } else {
            t
        };
        if d.len() > 0 && all_digits(d) && digits_value(d) <= 400 {
            Some(
                if t.len() > 0 && t[0] == '-' {
                    -digits_value(d)
                } else {
                    digits_value(d)
                },
            )
        } else {
            None
        }
    } else {
        None
    }
}

pub open spec fn has_sign(s: Seq<char>) -> bool {
    s.len() > 0 && (s[0] == '-' || s[0] == '+')
}

pub open spec fn unsigned_body(s: Seq<char>) -> Seq<char> {
    if has_sign(s) {
        s.drop_first()
    } else {
        s
    }
}

/// A number of the shape language: an optional sign, decimal digits, an
/// optional fraction after a point, with at least one digit in all, and an
/// optional exponent. Its value is in ten-thousandths, rounded half up at the
/// fourth decimal. A number whose magnitude passes `MAX_MAGNITUDE` is not accepted.
pub open spec fn decimal_value(s: Seq<char>) -> Option<int> {
    let body = unsigned_body(s);
    let n = leading_digits(body);
    let rest = body.skip(n as int);
    let after = if rest.len() > 0 && rest[0] == '.' {
        rest.drop_first()
    } else {
        rest
    };
    let f = leading_digits(after);
    let m = body.take(n as int) + after.take(f as int);
    match exponent_of(after.skip(f as int)) {
        None => None,
        Some(e) => {
            let q = n + e + 4;
            let magnitude = padded_value(m, q) + round_up(m, q);
            if n + f > 0 && magnitude <= MAX_MAGNITUDE {
                Some(
                    if s.len() > 0 && s[0] == '-' {
                        -magnitude
                    } else {
                        magnitude
                    },
                )
            } else {
                None
            }
        },
    }
}

/// An integer of the shape language: a number without a fraction part or
/// exponent, in whole units.
pub open spec fn integer_value(s: Seq<char>) -> Option<int> {
    if !s.contains('.') && !s.contains('e') && !s.contains('E') && decimal_value(s) is Some {
        let d = decimal_value(s).unwrap();
        Some(
            if d < 0 {
                -(abs(d) / 10000)
            } else {
                d / 10000
            },
        )
    } else {
        None
    }
}

fn digit_of(c: char) -> (r: Option<u64>)
    ensures
        r is Some <==> is_digit(c),
        r is Some ==> r.unwrap() == digit_val(c),
{
    if c == '0' {
        Some(0)
    } else if c == '1' {
        Some(1)
    } else if c == '2' {
        Some(2)
    } else if c == '3' {
        Some(3)
    } else if c == '4' {
        Some(4)
    } else if c == '5' {
        Some(5)
    } else if c == '6' {
        Some(6)
    } else if c == '7' {
        Some(7)
    } else if c == '8' {
        Some(8)
    } else if c == '9' {
        Some(9)
    } else {
        None
    }
}

proof fn lemma_leading_digits(s: Seq<char>, k: int)
    requires
        0 <= k <= s.len(),
        all_digits(s.take(k)),
        k == s.len() || !is_digit(s[k]),
    ensures
        leading_digits(s) == k,
    decreases k,
{
    if k > 0 {
        assert(is_digit(s.take(k)[0]));
        let t = s.drop_first();
        assert forall|i: int| 0 <= i < k - 1 implies is_digit(#[trigger] t.take(k - 1)[i]) by {
            assert(t.take(k - 1)[i] == s.take(k)[i + 1]);
        }
        if k < s.len() {
            assert(t[k - 1] == s[k]);
        }
        lemma_leading_digits(t, k - 1);
    }
}

proof fn lemma_digits_value_nonneg(s: Seq<char>)
    ensures
        digits_value(s) >= 0,
    decreases s.len(),
{
    if s.len() > 0 {
        lemma_digits_value_nonneg(s.drop_last());
    }
}

proof fn lemma_padded_value_nonneg(m: Seq<char>, q: int)
    ensures
        padded_value(m, q) >= 0,
    decreases q,
{
    if q > 0 {
        lemma_padded_value_nonneg(m, q - 1);
    }
}

proof fn lemma_all_digits_leading(d: Seq<char>)
    ensures
        all_digits(d) <==> leading_digits(d) == d.len(),
    decreases d.len(),
{
    if d.len() > 0 {
        lemma_all_digits_leading(d.drop_first());
        if all_digits(d) {
            assert forall|i: int| 0 <= i < d.drop_first().len() implies is_digit(#[trigger] d.drop_first()[i]) by {
                assert(d.drop_first()[i] == d[i + 1]);
            }
        }
        if leading_digits(d) == d.len() {
            assert(is_digit(d[0]));
            assert forall|i: int| 0 <= i < d.len() implies is_digit(#[trigger] d[i]) by {
                if i > 0 {
                    assert(d[i] == d.drop_first()[i - 1]);
                }
            }
        }
    }
}

/// Scans the digits of `s` from `start`: where they end, and their value saturated at the cap.
fn scan_digits(s: &Vec<char>, start: usize) -> (r: (usize, u64))
    requires
        start <= s@.len(),
    ensures
        start <= r.0 <= s@.len(),
        leading_digits(s@.skip(start as int)) == r.0 - start,
        digits_value(s@.subrange(start as int, r.0 as int)) >= INT_PART_CAP ==> r.1 == INT_PART_CAP,
        digits_value(s@.subrange(start as int, r.0 as int)) < INT_PART_CAP ==> r.1
            == digits_value(s@.subrange(start as int, r.0 as int)),
{
    let len = s.len();
    let ghost body = s@.skip(start as int);
    let mut i: usize = start;
    let mut acc: u64 = 0;
    while i < len && digit_of(s[i]).is_some()
        invariant
            start <= i <= len,
            len == s@.len(),
            body == s@.skip(start as int),
            body.take(i - start) == s@.subrange(start as int, i as int),
            all_digits(body.take(i - start)),
            digits_value(body.take(i - start)) >= INT_PART_CAP ==> acc == INT_PART_CAP,
            digits_value(body.take(i - start)) < INT_PART_CAP ==> acc == digits_value(
                body.take(i - start),
            ),
        decreases len - i,
    {
        let d = match digit_of(s[i]) {
            Some(d) => d,
            None => 0,
        };
        proof {
            let p = body.take(i - start);
            let q = body.take(i + 1 - start);
            assert(q.drop_last() =~= p);
            assert(q.last() == s@[i as int]);
            lemma_digits_value_nonneg(p);
            assert forall|j: int| 0 <= j < q.len() implies is_digit(#[trigger] q[j]) by {
                if j < p.len() {
                    assert(q[j] == p[j]);
                }
            }
            assert(q =~= s@.subrange(start as int, i + 1));
        }
        acc = if acc >= INT_PART_CAP / 10 + 1 {
            INT_PART_CAP
        } else {
            let v = acc * 10 + d;
            if v > INT_PART_CAP {
                INT_PART_CAP
            } else {
                v
            }
        };
        i = i + 1;
    }
    proof {
        if i < len {
            assert(body[i - start] == s@[i as int]);
        }
        lemma_leading_digits(body, i - start);
    }
    (i, acc)
}

const MAGNITUDE_CAP: u64 = 1_000_000_000_001;

/// The exponent written from `j` on (see `exponent_of`).
fn exponent_at(s: &Vec<char>, j: usize) -> (r: Option<i64>)
    requires
        j <= s@.len(),
    ensures
        match exponent_of(s@.skip(j as int)) {
            Some(e) => r matches Some(x) && x == e,
            None => r is None,
        },
        r matches Some(x) ==> -400 <= x <= 400,
{
    let len = s.len();
    let ghost tail = s@.skip(j as int);
    if j == len {
        return Some(0);
    }
    assert(tail[0] == s@[j as int]);
    if s[j] != 'e' && s[j] != 'E' {
        return None;
    }
    let k = j + 1;
    let ghost t = tail.drop_first();
    assert(t =~= s@.skip(k as int));
    let negative = k < len && s[k] == '-';
    let k2: usize = if k < len && (s[k] == '-' || s[k] == '+') {
        k + 1
    } else {
        k
    };
    if k < len {
        assert(t[0] == s@[k as int]);
    }
    let ghost d = s@.skip(k2 as int);
    assert(d =~= (if t.len() > 0 && (t[0] == '-' || t[0] == '+') { t.drop_first() } else { t }));
    let (end, v) = scan_digits(s, k2);
    proof {
        lemma_all_digits_leading(d);
        assert(s@.subrange(k2 as int, len as int) =~= d);
    }
    if end != len || end == k2 {
        return None;
    }
    if v > 400 {
        return None;
    }
    let e = v as i64;
    if negative {
        Some(-e)
    } else {
        Some(e)
    }
}

/// `min(padded_value(m, q), MAGNITUDE_CAP)`.
fn padded_of(m: &Vec<char>, q: i128) -> (r: u64)
    ensures
        padded_value(m@, q as int) >= MAGNITUDE_CAP ==> r == MAGNITUDE_CAP,
        padded_value(m@, q as int) < MAGNITUDE_CAP ==> r == padded_value(m@, q as int),
{
    if q <= 0 {
        return 0;
    }
    let mut acc: u64 = 0;
    let mut k: i128 = 0;
    while k < q
        invariant
            0 <= k <= q,
            padded_value(m@, k as int) >= MAGNITUDE_CAP ==> acc == MAGNITUDE_CAP,
            padded_value(m@, k as int) < MAGNITUDE_CAP ==> acc == padded_value(m@, k as int),
        decreases q - k,
    {
        let d: u64 = if k < m.len() as i128 {
            match digit_of(m[k as usize]) {
                Some(d) => d,
                None => 0,
            }
        } else {
            0
        };
        proof {
            lemma_padded_value_nonneg(m@, k as int);
            if (k as int) < m@.len() {
                assert(d == digit_val(m@[k as int]));
            }
            assert(padded_value(m@, k + 1) == padded_value(m@, k as int) * 10 + d);
        }
        acc = if acc >= MAGNITUDE_CAP / 10 + 1 {
            MAGNITUDE_CAP
        } else {
            let v = acc * 10 + d;
            if v > MAGNITUDE_CAP {
                MAGNITUDE_CAP
            } else {
                v
            }
        };
        k = k + 1;
    }
    acc
}

fn push_range(out: &mut Vec<char>, s: &Vec<char>, from: usize, to: usize)
    requires
        from <= to <= s@.len(),
    ensures
        final(out)@ == old(out)@ + s@.subrange(from as int, to as int),
{
    let ghost start = out@;
    let mut k: usize = from;
    while k < to
        invariant
            from <= k <= to <= s@.len(),
            out@ == start + s@.subrange(from as int, k as int),
        decreases to - k,
    {
        out.push(s[k]);
        assert(out@ =~= start + s@.subrange(from as int, k + 1));
        k = k + 1;
    }
}

/// Parses a number of the shape language into ten-thousandths of a unit.
#[verifier::rlimit(80)]
pub fn parse_decimal(s: &Vec<char>) -> (r: Option<i64>)
    ensures
        r matches Some(v) ==> decimal_value(s@) == Some(v as int),
        r is None ==> decimal_value(s@) is None,
        r matches Some(v) ==> -MAX_MAGNITUDE <= v <= MAX_MAGNITUDE,
{
    let len = s.len();
    let start: usize = if len > 0 && (s[0] == '-' || s[0] == '+') {
        1
    } else {
        0
    };
    let negative = len > 0 && s[0] == '-';
    let ghost body = unsigned_body(s@);
    assert(body =~= s@.skip(start as int));
    let (i, _) = scan_digits(s, start);
    let n = i - start;
    let ghost rest = body.skip(n as int);
    assert(rest =~= s@.skip(i as int));
    let p: usize = if i < len && s[i] == '.' {
        i + 1
    } else {
        i
    };
    let ghost after = if rest.len() > 0 && rest[0] == '.' {
        rest.drop_first()
    } else {
        rest
    };
    if i < len {
        assert(rest[0] == s@[i as int]);
    }
    assert(after =~= s@.skip(p as int));
    let (j, _) = scan_digits(s, p);
    let f = j - p;
    assert(after.skip(f as int) =~= s@.skip(j as int));
    let e = match exponent_at(s, j) {
        Some(e) => e,
        None => {
            return None;
        },
    };
    if n + f == 0 {
        return None;
    }
    let mut m: Vec<char> = Vec::new();
    push_range(&mut m, s, start, i);
    push_range(&mut m, s, p, j);
    assert(m@ =~= body.take(n as int) + after.take(f as int));
    let q: i128 = (n as i128) + (e as i128) + 4;
    let acc = padded_of(&m, q);
    let rd: u64 = if 0 <= q && q < m.len() as i128 {
        match digit_of(m[q as usize]) {
            Some(d) => if d >= 5 {
                1
            } else {
                0
            },
            None => 0,
        }
    } else {
        0
    };
    proof {
        lemma_padded_value_nonneg(m@, q as int);
    }
    assert(rd == round_up(m@, q as int));
    let magnitude = acc + rd;
    if magnitude > MAX_MAGNITUDE as u64 {
        return None;
    }
    let mv = magnitude as i64;
    if negative {
        Some(-mv)
    } else {
        Some(mv)
    }
}

/// Parses a number of the shape language into ten-thousandths of a unit.
pub fn parse_number(s: &str) -> (r: Option<i64>)
    ensures
        r matches Some(v) ==> decimal_value(s@) == Some(v as int),
        r is None ==> decimal_value(s@) is None,
        r matches Some(v) ==> -MAX_MAGNITUDE <= v <= MAX_MAGNITUDE,
{
    let c = chars_of(s);
    parse_decimal(&c)
}

/// An integer of the shape language, in whole units.
pub fn parse_integer(s: &Vec<char>) -> (r: Option<i64>)
    ensures
        r matches Some(v) ==> integer_value(s@) == Some(v as int),
        r is None ==> integer_value(s@) is None,
        r matches Some(v) ==> -100_000_000 <= v <= 100_000_000,
{
    let mut i: usize = 0;
    while i < s.len()
        invariant
            0 <= i <= s@.len(),
            forall|j: int| 0 <= j < i ==> s@[j] != '.' && s@[j] != 'e' && s@[j] != 'E',
        decreases s@.len() - i,
    {
        if s[i] == '.' || s[i] == 'e' || s[i] == 'E' {
            assert(s@[i as int] == s[i as int]);
            return None;
        }
        i = i + 1;
    }
    match parse_decimal(s) {
        Some(v) => Some(
            if v < 0 {
                -((-v) / 10000)
            } else {
                v / 10000
            },
        ),
        None => None,
    }
}

/// `n / d` rounded to the nearest integer, halves away from zero.
pub open spec fn round_div(n: int, d: int) -> int {
    if n >= 0 {
        (2 * n + d) / (2 * d)
    } else {
        -((-2 * n + d) / (2 * d))
    }
}

/// Millimetres, in nanometres, of a source value in ten-thousandths: the value
/// divided by 3.937, to the nearest nanometre.
pub open spec fn mm_of(v: int) -> int {
    round_div(v * 100000, 3937)
}

/// Source value, in ten-thousandths, of a length in nanometres: times 3.937,
/// to the nearest ten-thousandth.
pub open spec fn units_of(nm: int) -> int {
    round_div(nm * 3937, 100000)
}

/// Converts a source value (ten-thousandths of a unit) to millimetres (nanometres).
pub fn mil2mm(v: i64) -> (r: i64)
    requires
        -MAX_CONVERTIBLE <= v <= MAX_CONVERTIBLE,
    ensures
        r == mm_of(v as int),
        -MAX_NM <= r <= MAX_NM,
{
    let u: u64 = if v >= 0 {
        v as u64
    } else {
        (-v) as u64
    };
    let q = (u * 200000 + 3937) / 7874;
    assert(q <= 26 * u + 1) by (nonlinear_arith)
        requires q == (u * 200000 + 3937) / 7874, u >= 0;
    if v >= 0 {
        q as i64
    } else {
        -(q as i64)
    }
}

/// Converts a length in millimetres (nanometres) back to a source value (ten-thousandths).
pub fn mm2mil(nm: i64) -> (r: i64)
    requires
        -MAX_NM <= nm <= MAX_NM,
    ensures
        r == units_of(nm as int),
{
    if nm >= 0 {
        let u = nm as u64;
        ((u * 7874 + 100000) / 200000) as i64
    } else {
        let u = (-nm) as u64;
        -(((u * 7874 + 100000) / 200000) as i64)
    }
}

/// The conversion lands on the nearest nanometre.
pub proof fn lemma_mil2mm_nearest(v: int)
    ensures
        -3937 <= 2 * (mm_of(v) * 3937 - v * 100000) <= 3937,
{
    let n = if v >= 0 { v * 100000 } else { -v * 100000 };
    let q = (2 * n + 3937) / 7874;
    assert(q * 7874 <= 2 * n + 3937 < q * 7874 + 7874) by (nonlinear_arith)
        requires n >= 0, q == (2 * n + 3937) / 7874;
}

/// Converting to millimetres and back gives the value that was converted.
pub proof fn lemma_mil2mm_round_trip(v: int)
    ensures
        units_of(mm_of(v)) == v,
{
    lemma_mil2mm_nearest(v);
    let n = mm_of(v) * 3937;
    if n >= 0 {
        let q = (2 * n + 100000) / 200000;
        assert(q * 200000 <= 2 * n + 100000 < q * 200000 + 200000) by (nonlinear_arith)
            requires n >= 0, q == (2 * n + 100000) / 200000;
        assert(q == v) by (nonlinear_arith)
            requires
                q * 200000 <= 2 * n + 100000 < q * 200000 + 200000,
                -3937 <= 2 * (n - v * 100000) <= 3937,
        ;
    } else {
        let q = (-2 * n + 100000) / 200000;
        assert(q * 200000 <= -2 * n + 100000 < q * 200000 + 200000) by (nonlinear_arith)
            requires n < 0, q == (-2 * n + 100000) / 200000;
        assert(-q == v) by (nonlinear_arith)
            requires
                q * 200000 <= -2 * n + 100000 < q * 200000 + 200000,
                -3937 <= 2 * (n - v * 100000) <= 3937,
        ;
    }
}

pub open spec fn pow10(p: nat) -> nat
    decreases p,
{
    if p == 0 {
        1
    } else {
        10 * pow10((p - 1) as nat)
    }
}

/// Decimal digits of `n`, without leading zeros.
pub open spec fn nat_text(n: nat) -> Seq<char>
    decreases n,
{
    if n < 10 {
        seq![digit_char(n as int)]
    } else {
        nat_text(n / 10).push(digit_char((n % 10) as int))
    }
}

/// The last `places` decimal digits of `n`, zero-padded.
pub open spec fn padded_digits(n: nat, places: nat) -> Seq<char>
    decreases places,
{
    if places == 0 {
        seq![]
    } else {
        padded_digits(n / 10, (places - 1) as nat).push(digit_char((n % 10) as int))
    }
}

pub open spec fn trim_trailing_zeros(s: Seq<char>) -> Seq<char>
    decreases s.len(),
{
    if s.len() > 0 && s.last() == '0' {
        trim_trailing_zeros(s.drop_last())
    } else {
        s
    }
}

pub open spec fn abs(v: int) -> nat {
    if v < 0 {
        (-v) as nat
    } else {
        v as nat
    }
}

/// Decimal text of `v / 10^places`: a sign when negative, the whole part, and
/// the fraction without trailing zeros, the point only when a fraction remains.
pub open spec fn fixed_text(v: int, places: nat) -> Seq<char> {
    let m = abs(v);
    let frac = trim_trailing_zeros(padded_digits(m % pow10(places), places));
    (if v < 0 {
        seq!['-']
    } else {
        seq![]
    }) + nat_text(m / pow10(places)) + (if frac.len() == 0 {
        seq![]
    } else {
        seq!['.'] + frac
    })
}

/// Text of a length in nanometres, as millimetres.
pub open spec fn mm_text(nm: int) -> Seq<char> {
    fixed_text(nm, 6)
}

/// Text of a source value in ten-thousandths, as units.
pub open spec fn units_text(v: int) -> Seq<char> {
    fixed_text(v, 4)
}

/// Text of an integer.
pub open spec fn int_text(v: int) -> Seq<char> {
    fixed_text(v, 0)
}

fn digit_char_of(d: u64) -> (c: char)
    requires
        d < 10,
    ensures
        c == digit_char(d as int),
{
    if d == 1 {
        '1'
    } else if d == 2 {
        '2'
    } else if d == 3 {
        '3'
    } else if d == 4 {
        '4'
    } else if d == 5 {
        '5'
    } else if d == 6 {
        '6'
    } else if d == 7 {
        '7'
    } else if d == 8 {
        '8'
    } else if d == 9 {
        '9'
    } else {
        '0'
    }
}

fn push_nat(out: &mut Vec<char>, n: u64)
    ensures
        final(out)@ == old(out)@ + nat_text(n as nat),
    decreases n,
{
    if n >= 10 {
        push_nat(out, n / 10);
        out.push(digit_char_of(n % 10));
        assert(final(out)@ =~= old(out)@ + nat_text(n as nat));
    } else {
        out.push(digit_char_of(n));
        assert(final(out)@ =~= old(out)@ + nat_text(n as nat));
    }
}

fn push_padded(out: &mut Vec<char>, n: u64, places: u32)
    ensures
        final(out)@ == old(out)@ + padded_digits(n as nat, places as nat),
    decreases places,
{
    if places > 0 {
        push_padded(out, n / 10, places - 1);
        out.push(digit_char_of(n % 10));
        assert(final(out)@ =~= old(out)@ + padded_digits(n as nat, places as nat));
    } else {
        assert(final(out)@ =~= old(out)@ + padded_digits(n as nat, places as nat));
    }
}

fn pow10_of(p: u32) -> (r: u64)
    requires
        p <= 6,
    ensures
        r == pow10(p as nat),
        r > 0,
{
    let mut r: u64 = 1;
    let mut k: u32 = 0;
    while k < p
        invariant
            k <= p <= 6,
            r == pow10(k as nat),
            1 <= r <= 1000000,
        decreases p - k,
    {
        proof {
            if k == 0 { assert(pow10(1) == 10) by { reveal_with_fuel(pow10, 2); } }
            else if k == 1 { assert(pow10(2) == 100) by { reveal_with_fuel(pow10, 3); } }
            else if k == 2 { assert(pow10(3) == 1000) by { reveal_with_fuel(pow10, 4); } }
            else if k == 3 { assert(pow10(4) == 10000) by { reveal_with_fuel(pow10, 5); } }
            else if k == 4 { assert(pow10(5) == 100000) by { reveal_with_fuel(pow10, 6); } }
            else { assert(pow10(6) == 1000000) by { reveal_with_fuel(pow10, 7); } }
        }
        r = r * 10;
        k = k + 1;
    }
    r
}

/// Appends the decimal text of `v / 10^places` to `out`.
pub fn push_fixed(out: &mut Vec<char>, v: i64, places: u32)
    requires
        v > i64::MIN,
        places <= 6,
    ensures
        final(out)@ == old(out)@ + fixed_text(v as int, places as nat),
{
    let m: u64 = if v < 0 {
        (-v) as u64
    } else {
        v as u64
    };
    let p = pow10_of(places);
    let mut frac: Vec<char> = Vec::new();
    push_padded(&mut frac, m % p, places);
    assert(frac@ =~= padded_digits(abs(v as int) % pow10(places as nat), places as nat));
    while frac.len() > 0 && frac[frac.len() - 1] == '0'
        invariant
            trim_trailing_zeros(frac@) == trim_trailing_zeros(
                padded_digits(abs(v as int) % pow10(places as nat), places as nat),
            ),
        decreases frac@.len(),
    {
        let ghost before = frac@;
        frac.pop();
        assert(frac@ =~= before.drop_last());
    }
    let ghost start = out@;
    if v < 0 {
        out.push('-');
    }
    let ghost signed = out@;
    push_nat(out, m / p);
    if frac.len() > 0 {
        out.push('.');
        crate::chars::push_chars(out, &frac);
        assert(out@ =~= signed + nat_text(abs(v as int) / pow10(places as nat)) + (seq!['.']
            + frac@));
    } else {
        assert(out@ =~= signed + nat_text(abs(v as int) / pow10(places as nat)) + seq![]);
    }
    assert(out@ =~= start + fixed_text(v as int, places as nat));
}

/// Millimetre text of a length in nanometres.
pub fn format_mm(nm: i64) -> (r: String)
    requires
        nm > i64::MIN,
    ensures
        r@ == mm_text(nm as int),
{
    let mut out: Vec<char> = Vec::new();
    push_fixed(&mut out, nm, 6);
    assert(out@ =~= mm_text(nm as int));
    string_of(&out)
}

/// Unit text of a source value in ten-thousandths.
pub fn format_units(v: i64) -> (r: String)
    requires
        v > i64::MIN,
    ensures
        r@ == units_text(v as int),
{
    let mut out: Vec<char> = Vec::new();
    push_fixed(&mut out, v, 4);
    assert(out@ =~= units_text(v as int));
    string_of(&out)
}

/// Appends the decimal text of a count to `out`.
pub fn push_count(out: &mut Vec<char>, n: usize)
    ensures
        final(out)@ == old(out)@ + int_text(n as int),
{
    push_nat(out, n as u64);
    proof {
        assert(pow10(0) == 1);
        assert(padded_digits((n as nat) % 1, 0) =~= Seq::<char>::empty());
        assert(trim_trailing_zeros(Seq::<char>::empty()) =~= Seq::<char>::empty());
        assert(fixed_text(n as int, 0) =~= nat_text(n as nat));
    }
}

} // verus!
