//! Character classes and whitespace trimming.
use vstd::prelude::*;

verus! {

/// Unicode `White_Space`, as `char::is_whitespace` uses it.
pub open spec fn is_space(c: char) -> bool {
    let u = c as u32;
    (0x9 <= u <= 0xD) || u == 0x20 || u == 0x85 || u == 0xA0 || u == 0x1680 || (0x2000 <= u
        <= 0x200A) || u == 0x2028 || u == 0x2029 || u == 0x202F || u == 0x205F || u == 0x3000
}

pub open spec fn is_hex_digit(c: char) -> bool {
    let u = c as u32;
    (0x30 <= u <= 0x39) || (0x41 <= u <= 0x46) || (0x61 <= u <= 0x66)
}

pub open spec fn is_ascii_alnum(c: char) -> bool {
    let u = c as u32;
    (0x30 <= u <= 0x39) || (0x41 <= u <= 0x5A) || (0x61 <= u <= 0x7A)
}

/// ASCII upper case of one character; other characters are kept.
pub open spec fn ascii_upper(c: char) -> char {
    let u = c as u32;
    if 0x61 <= u <= 0x7A {
        ((u - 32) as u32) as char
    } else {
        c
    }
}

/// Number of leading characters of `s` that satisfy `is_space`.
pub open spec fn leading_spaces(s: Seq<char>) -> nat
    decreases s.len(),
{
    if s.len() > 0 && is_space(s[0]) {
        1 + leading_spaces(s.drop_first())
    } else {
        0
    }
}

/// Number of trailing characters of `s` that satisfy `is_space`.
pub open spec fn trailing_spaces(s: Seq<char>) -> nat
    decreases s.len(),
{
    if s.len() > 0 && is_space(s.last()) {
        1 + trailing_spaces(s.drop_last())
    } else {
        0
    }
}

/// `s` without leading and trailing white space.
pub open spec fn trim(s: Seq<char>) -> Seq<char> {
    let t = s.skip(leading_spaces(s) as int);
    t.take(t.len() - trailing_spaces(t))
}

/// Position of the first `c` in `s`, or the length of `s` when there is none.
pub open spec fn index_of(s: Seq<char>, c: char) -> nat
    decreases s.len(),
{
    if s.len() == 0 {
        0
    } else if s[0] == c {
        0
    } else {
        1 + index_of(s.drop_first(), c)
    }
}

/// The part of `s` before the first `c`.
pub open spec fn before(s: Seq<char>, c: char) -> Seq<char> {
    s.take(index_of(s, c) as int)
}

pub fn is_space_char(c: char) -> (r: bool)
    ensures
        r == is_space(c),
{
    let u = c as u32;
    (0x9 <= u && u <= 0xD) || u == 0x20 || u == 0x85 || u == 0xA0 || u == 0x1680 || (0x2000 <= u
        && u <= 0x200A) || u == 0x2028 || u == 0x2029 || u == 0x202F || u == 0x205F || u == 0x3000
}

pub fn is_hex_char(c: char) -> (r: bool)
    ensures
        r == is_hex_digit(c),
{
    let u = c as u32;
    (0x30 <= u && u <= 0x39) || (0x41 <= u && u <= 0x46) || (0x61 <= u && u <= 0x66)
}

pub fn is_alnum_char(c: char) -> (r: bool)
    ensures
        r == is_ascii_alnum(c),
{
    let u = c as u32;
    (0x30 <= u && u <= 0x39) || (0x41 <= u && u <= 0x5A) || (0x61 <= u && u <= 0x7A)
}

pub fn upper_char(c: char) -> (r: char)
    ensures
        r == ascii_upper(c),
{
    if c >= 'a' && c <= 'z' {
        let u = (c as u32) - 32;
        assert(0x41 <= u <= 0x5A);
        let b = u as u8;
        b as char
    } else {
        c
    }
}

proof fn lemma_leading_spaces(s: Seq<char>, k: int)
    requires
        0 <= k <= s.len(),
        forall|j: int| 0 <= j < k ==> is_space(#[trigger] s[j]),
        k == s.len() || !is_space(s[k]),
    ensures
        leading_spaces(s) == k,
    decreases k,
{
    if k > 0 {
        let t = s.drop_first();
        assert forall|j: int| 0 <= j < k - 1 implies is_space(#[trigger] t[j]) by {
            assert(t[j] == s[j + 1]);
        }
        lemma_leading_spaces(t, k - 1);
    }
}

proof fn lemma_trailing_spaces(s: Seq<char>, k: int)
    requires
        0 <= k <= s.len(),
        forall|j: int| s.len() - k <= j < s.len() ==> is_space(#[trigger] s[j]),
        k == s.len() || !is_space(s[s.len() - k - 1]),
    ensures
        trailing_spaces(s) == k,
    decreases k,
{
    if k > 0 {
        let t = s.drop_last();
        assert forall|j: int| t.len() - (k - 1) <= j < t.len() implies is_space(#[trigger] t[j]) by {
            assert(t[j] == s[j]);
        }
        lemma_trailing_spaces(t, k - 1);
    }
}

pub proof fn lemma_index_of(s: Seq<char>, c: char, k: int)
    requires
        0 <= k <= s.len(),
        forall|j: int| 0 <= j < k ==> #[trigger] s[j] != c,
        k == s.len() || s[k] == c,
    ensures
        index_of(s, c) == k,
    decreases k,
{
    if k > 0 {
        let t = s.drop_first();
        assert forall|j: int| 0 <= j < k - 1 implies #[trigger] t[j] != c by {
            assert(t[j] == s[j + 1]);
        }
        lemma_index_of(t, c, k - 1);
    }
}

/// `s` without leading and trailing white space.
pub fn trim_chars(s: &Vec<char>) -> (r: Vec<char>)
    ensures
        r@ == trim(s@),
{
    let len = s.len();
    let mut i: usize = 0;
    while i < len && is_space_char(s[i])
        invariant
            0 <= i <= len,
            len == s@.len(),
            forall|j: int| 0 <= j < i ==> is_space(#[trigger] s@[j]),
        decreases len - i,
    {
        i = i + 1;
    }
    proof {
        lemma_leading_spaces(s@, i as int);
    }
    let ghost t = s@.skip(i as int);
    let mut e: usize = len;
    while e > i && is_space_char(s[e - 1])
        invariant
            i <= e <= len,
            len == s@.len(),
            t == s@.skip(i as int),
            forall|j: int| e <= j < len ==> is_space(#[trigger] s@[j]),
        decreases e,
    {
        e = e - 1;
    }
    proof {
        assert forall|j: int| t.len() - (len - e) <= j < t.len() implies is_space(#[trigger] t[j]) by {
            assert(t[j] == s@[j + i]);
        }
        if e > i {
            assert(t[t.len() - (len - e) - 1] == s@[e - 1]);
        }
        lemma_trailing_spaces(t, (len - e) as int);
    }
    let mut r: Vec<char> = Vec::new();
    let mut k: usize = i;
    while k < e
        invariant
            i <= k <= e <= len,
            len == s@.len(),
            r@ == s@.subrange(i as int, k as int),
        decreases e - k,
    {
        r.push(s[k]);
        assert(r@ =~= s@.subrange(i as int, k + 1));
        k = k + 1;
    }
    assert(r@ =~= trim(s@));
    r
}

/// The part of `s` before the first `c`.
pub fn before_char(s: &Vec<char>, c: char) -> (r: Vec<char>)
    ensures
        r@ == before(s@, c),
{
    let mut r: Vec<char> = Vec::new();
    let mut i: usize = 0;
    while i < s.len() && s[i] != c
        invariant
            0 <= i <= s@.len(),
            forall|j: int| 0 <= j < i ==> #[trigger] s@[j] != c,
            r@ == s@.take(i as int),
        decreases s@.len() - i,
    {
        r.push(s[i]);
        assert(r@ =~= s@.take(i + 1));
        i = i + 1;
    }
    proof {
        lemma_index_of(s@, c, i as int);
    }
    r
}

/// Splitting `s` at each `c`: the completed non-empty pieces, and the piece in progress.
pub open spec fn split_state(s: Seq<char>, c: char) -> (Seq<Seq<char>>, Seq<char>)
    decreases s.len(),
{
    if s.len() == 0 {
        (seq![], seq![])
    } else {
        let prev = split_state(s.drop_last(), c);
        if s.last() == c {
            if prev.1.len() > 0 {
                (prev.0.push(prev.1), seq![])
            } else {
                (prev.0, seq![])
            }
        } else {
            (prev.0, prev.1.push(s.last()))
        }
    }
}

/// The non-empty pieces of `s` between occurrences of `c`, in order.
pub open spec fn pieces(s: Seq<char>, c: char) -> Seq<Seq<char>> {
    let st = split_state(s, c);
    if st.1.len() > 0 {
        st.0.push(st.1)
    } else {
        st.0
    }
}

pub open spec fn views(v: Seq<Vec<char>>) -> Seq<Seq<char>> {
    v.map_values(|x: Vec<char>| x@)
}

/// The non-empty pieces of `s` between occurrences of `c`.
pub fn split_nonempty(s: &Vec<char>, c: char) -> (r: Vec<Vec<char>>)
    ensures
        views(r@) == pieces(s@, c),
{
    let mut done: Vec<Vec<char>> = Vec::new();
    let mut cur: Vec<char> = Vec::new();
    let mut i: usize = 0;
    while i < s.len()
        invariant
            0 <= i <= s@.len(),
            views(done@) == split_state(s@.take(i as int), c).0,
            cur@ == split_state(s@.take(i as int), c).1,
        decreases s@.len() - i,
    {
        assert(s@.take(i + 1).drop_last() =~= s@.take(i as int));
        if s[i] == c {
            if cur.len() > 0 {
                let piece = cur.clone();
                done.push(piece);
                assert(views(done@) =~= split_state(s@.take(i as int), c).0.push(cur@));
            }
            cur = Vec::new();
        } else {
            cur.push(s[i]);
        }
        i = i + 1;
    }
    assert(s@.take(i as int) =~= s@);
    if cur.len() > 0 {
        done.push(cur);
        assert(views(done@) =~= split_state(s@, c).0.push(split_state(s@, c).1));
    }
    done
}

/// Lexicographic order of code points, which is the byte order of the UTF-8
/// encodings and so the order of `String` keys in a `BTreeMap`.
pub open spec fn key_lt(a: Seq<char>, b: Seq<char>) -> bool
    decreases a.len(),
{
    if a.len() == 0 {
        b.len() > 0
    } else if b.len() == 0 {
        false
    } else if a[0] != b[0] {
        a[0] < b[0]
    } else {
        key_lt(a.drop_first(), b.drop_first())
    }
}

/// Two different strings are ordered one way or the other.
pub proof fn lemma_key_lt_total(a: Seq<char>, b: Seq<char>)
    requires
        a != b,
    ensures
        key_lt(a, b) || key_lt(b, a),
    decreases a.len(),
{
    if a.len() == 0 {
        assert(b.len() > 0) by {
            if b.len() == 0 {
                assert(a =~= b);
            }
        }
    } else if b.len() == 0 {
    } else if a[0] != b[0] {
        assert(a[0] < b[0] || b[0] < a[0]);
    } else {
        if a.drop_first() == b.drop_first() {
            assert(a.drop_first().len() == b.drop_first().len());
            assert(a.len() == b.len());
            assert(a =~= b) by {
                assert forall|i: int| 0 <= i < a.len() implies a[i] == b[i] by {
                    if i > 0 {
                        assert(a[i] == a.drop_first()[i - 1]);
                        assert(b[i] == b.drop_first()[i - 1]);
                    }
                }
            }
        }
        lemma_key_lt_total(a.drop_first(), b.drop_first());
    }
}

proof fn lemma_key_lt_skip(a: Seq<char>, b: Seq<char>, i: int)
    requires
        0 <= i <= a.len(),
        i <= b.len(),
        forall|j: int| 0 <= j < i ==> a[j] == b[j],
    ensures
        key_lt(a, b) == key_lt(a.skip(i), b.skip(i)),
    decreases i,
{
    if i == 0 {
        assert(a.skip(0) =~= a);
        assert(b.skip(0) =~= b);
    } else {
        assert(a[0] == b[0]);
        let a1 = a.drop_first();
        let b1 = b.drop_first();
        assert forall|j: int| 0 <= j < i - 1 implies a1[j] == b1[j] by {
            assert(a1[j] == a[j + 1] && b1[j] == b[j + 1]);
        }
        lemma_key_lt_skip(a1, b1, i - 1);
        assert(a1.skip(i - 1) =~= a.skip(i));
        assert(b1.skip(i - 1) =~= b.skip(i));
    }
}

/// Whether `a` comes before `b` in key order (see `key_lt`).
pub fn key_less(a: &str, b: &str) -> (r: bool)
    ensures
        r == key_lt(a@, b@),
{
    let x = crate::chars::chars_of(a);
    let y = crate::chars::chars_of(b);
    let mut i: usize = 0;
    while i < x.len() && i < y.len() && x[i] == y[i]
        invariant
            0 <= i <= x@.len(),
            i <= y@.len(),
            forall|j: int| 0 <= j < i ==> x@[j] == y@[j],
        decreases x@.len() - i,
    {
        i = i + 1;
    }
    proof {
        lemma_key_lt_skip(x@, y@, i as int);
    }
    if i == x.len() {
        i < y.len()
    } else if i == y.len() {
        false
    } else {
        assert(x@.skip(i as int)[0] == x@[i as int]);
        assert(y@.skip(i as int)[0] == y@[i as int]);
        x[i] < y[i]
    }
}

} // verus!
