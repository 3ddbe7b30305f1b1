//! Character-level text helpers shared by the parsers and encoders.
//!
//! Text is modelled as `Seq<char>` (the view of `str` and `String`). The
//! executable helpers mostly work on `Vec<char>` copies so that scanning code
//! can index characters directly.
use vstd::prelude::*;

verus! {

// ---------------------------------------------------------------------------
// Whitespace and trimming
// ---------------------------------------------------------------------------

/// Unicode `White_Space` property, the set used by `str::trim`.
pub open spec fn is_ws(c: char) -> bool {
    let u = c as u32;
    ||| u == 0x20
    ||| (0x09 <= u && u <= 0x0d)
    ||| u == 0x85
    ||| u == 0xa0
    ||| u == 0x1680
    ||| (0x2000 <= u && u <= 0x200a)
    ||| u == 0x2028
    ||| u == 0x2029
    ||| u == 0x202f
    ||| u == 0x205f
    ||| u == 0x3000
}

pub fn char_is_ws(c: char) -> (r: bool)
    ensures
        r == is_ws(c),
{
    let u = c as u32;
    u == 0x20 || (0x09 <= u && u <= 0x0d) || u == 0x85 || u == 0xa0 || u == 0x1680 || (0x2000
        <= u && u <= 0x200a) || u == 0x2028 || u == 0x2029 || u == 0x202f || u == 0x205f || u
        == 0x3000
}

/// Drops leading whitespace.
pub open spec fn trim_start(s: Seq<char>) -> Seq<char>
    decreases s.len(),
{
    if s.len() > 0 && is_ws(s[0]) {
        trim_start(s.drop_first())
    } else {
        s
    }
}

/// Drops trailing whitespace.
pub open spec fn trim_end(s: Seq<char>) -> Seq<char>
    decreases s.len(),
{
    if s.len() > 0 && is_ws(s.last()) {
        trim_end(s.drop_last())
    } else {
        s
    }
}

/// `str::trim`: both ends.
pub open spec fn trim(s: Seq<char>) -> Seq<char> {
    trim_end(trim_start(s))
}

/// Every character is whitespace (equivalently: the trimmed text is empty).
pub open spec fn all_ws(s: Seq<char>) -> bool {
    forall|i: int| 0 <= i < s.len() ==> is_ws(#[trigger] s[i])
}

pub proof fn lemma_trim_start_skip(s: Seq<char>, i: int)
    requires
        0 <= i <= s.len(),
        forall|k: int| 0 <= k < i ==> is_ws(#[trigger] s[k]),
    ensures
        trim_start(s) == trim_start(s.subrange(i, s.len() as int)),
    decreases i,
{
    if i == 0 {
        assert(s.subrange(0, s.len() as int) =~= s);
    } else {
        lemma_trim_start_skip(s, i - 1);
        let t = s.subrange(i - 1, s.len() as int);
        assert(t[0] == s[i - 1]);
        assert(t.drop_first() =~= s.subrange(i, s.len() as int));
    }
}

pub proof fn lemma_trim_end_skip(s: Seq<char>, j: int)
    requires
        0 <= j <= s.len(),
        forall|k: int| j <= k < s.len() ==> is_ws(#[trigger] s[k]),
    ensures
        trim_end(s) == trim_end(s.subrange(0, j)),
    decreases s.len() - j,
{
    if j == s.len() {
        assert(s.subrange(0, j) =~= s);
    } else {
        lemma_trim_end_skip(s, j + 1);
        let t = s.subrange(0, j + 1);
        assert(t.last() == s[j]);
        assert(t.drop_last() =~= s.subrange(0, j));
    }
}

pub proof fn lemma_trim_empty_iff_all_ws(s: Seq<char>)
    ensures
        (trim(s).len() == 0) == all_ws(s),
        (trim_start(s).len() == 0) == all_ws(s),
    decreases s.len(),
{
    if s.len() > 0 {
        if is_ws(s[0]) {
            lemma_trim_empty_iff_all_ws(s.drop_first());
            if all_ws(s.drop_first()) {
                assert forall|i: int| 0 <= i < s.len() implies is_ws(#[trigger] s[i]) by {
                    if i > 0 {
                        assert(s[i] == s.drop_first()[i - 1]);
                    }
                }
            }
            if all_ws(s) {
                assert forall|i: int| 0 <= i < s.drop_first().len() implies is_ws(
                    #[trigger] s.drop_first()[i],
                ) by {
                    assert(s.drop_first()[i] == s[i + 1]);
                }
            }
        } else {
            assert(trim_start(s) == s);
            lemma_trim_end_nonempty(s);
        }
    }
}

pub proof fn lemma_trim_end_nonempty(s: Seq<char>)
    requires
        s.len() > 0,
        !is_ws(s[0]),
    ensures
        trim_end(s).len() > 0,
        trim_end(s)[0] == s[0],
    decreases s.len(),
{
    if is_ws(s.last()) {
        assert(s.len() > 1);
        assert(s.drop_last()[0] == s[0]);
        lemma_trim_end_nonempty(s.drop_last());
    }
}

/// Half-open bounds `[a, b)` of the trimmed part of `v[lo..hi]`.
pub fn trim_bounds(v: &[char], lo: usize, hi: usize) -> (r: (usize, usize))
    requires
        lo <= hi <= v@.len(),
    ensures
        lo <= r.0 <= r.1 <= hi,
        v@.subrange(r.0 as int, r.1 as int) == trim(v@.subrange(lo as int, hi as int)),
{
    let ghost s = v@.subrange(lo as int, hi as int);
    let mut a = lo;
    while a < hi && char_is_ws(v[a])
        invariant
            lo <= a <= hi <= v@.len(),
            s == v@.subrange(lo as int, hi as int),
            forall|k: int| lo <= k < a ==> is_ws(#[trigger] v@[k]),
        decreases hi - a,
    {
        a = a + 1;
    }
    proof {
        assert forall|k: int| 0 <= k < a - lo implies is_ws(#[trigger] s[k]) by {
            assert(s[k] == v@[lo + k]);
        }
        lemma_trim_start_skip(s, a - lo);
        assert(s.subrange(a - lo, s.len() as int) =~= v@.subrange(a as int, hi as int));
        let t = v@.subrange(a as int, hi as int);
        if t.len() > 0 {
            assert(t[0] == v@[a as int]);
        }
        assert(trim_start(t) == t);
    }
    let mut b = hi;
    while b > a && char_is_ws(v[b - 1])
        invariant
            lo <= a <= b <= hi <= v@.len(),
            forall|k: int| b <= k < hi ==> is_ws(#[trigger] v@[k]),
        decreases b - a,
    {
        b = b - 1;
    }
    proof {
        let t = v@.subrange(a as int, hi as int);
        assert forall|k: int| b - a <= k < t.len() implies is_ws(#[trigger] t[k]) by {
            assert(t[k] == v@[a + k]);
        }
        lemma_trim_end_skip(t, b - a);
        assert(t.subrange(0, b - a) =~= v@.subrange(a as int, b as int));
        let u = v@.subrange(a as int, b as int);
        if u.len() > 0 {
            assert(u.last() == v@[b - 1]);
        }
        assert(trim_end(u) == u);
    }
    (a, b)
}

// ---------------------------------------------------------------------------
// Conversions between `str`/`String` and `Vec<char>`
// ---------------------------------------------------------------------------

/// The characters of `s`, in order.
pub fn to_chars(s: &str) -> (v: Vec<char>)
    ensures
        v@ == s@,
{
    let n = s.unicode_len();
    let mut v: Vec<char> = Vec::new();
    let mut i: usize = 0;
    while i < n
        invariant
            n == s@.len(),
            i <= n,
            v@ == s@.subrange(0, i as int),
        decreases n - i,
    {
        let c = s.get_char(i);
        v.push(c);
        i = i + 1;
        assert(v@ =~= s@.subrange(0, i as int));
    }
    assert(v@ =~= s@);
    v
}

/// `String::push`: appends one character.
#[verifier::external_body]
pub fn push_char(s: &mut String, c: char)
    ensures
        final(s)@ == old(s)@.push(c),
{
    s.push(c);
}

/// Appends the characters `v[lo..hi]` to `out`.
pub fn push_chars(out: &mut String, v: &[char], lo: usize, hi: usize)
    requires
        lo <= hi <= v@.len(),
    ensures
        final(out)@ == old(out)@ + v@.subrange(lo as int, hi as int),
{
    let mut i = lo;
    while i < hi
        invariant
            lo <= i <= hi <= v@.len(),
            out@ == old(out)@ + v@.subrange(lo as int, i as int),
        decreases hi - i,
    {
        push_char(out, v[i]);
        i = i + 1;
        assert(out@ =~= old(out)@ + v@.subrange(lo as int, i as int));
    }
}

/// A new `String` holding `v[lo..hi]`.
pub fn string_from(v: &[char], lo: usize, hi: usize) -> (s: String)
    requires
        lo <= hi <= v@.len(),
    ensures
        s@ == v@.subrange(lo as int, hi as int),
{
    let mut s = String::new();
    push_chars(&mut s, v, lo, hi);
    assert(s@ =~= v@.subrange(lo as int, hi as int));
    s
}

/// A new `String` holding all of `v`.
pub fn string_of(v: &[char]) -> (s: String)
    ensures
        s@ == v@,
{
    let s = string_from(v, 0, v.len());
    assert(v@.subrange(0, v@.len() as int) =~= v@);
    s
}

/// A new `String` copy of `s`.
pub fn owned(s: &str) -> (r: String)
    ensures
        r@ == s@,
{
    let v = to_chars(s);
    string_of(&v)
}

/// Appends `s` to `out`.
pub fn push_str(out: &mut String, s: &str)
    ensures
        final(out)@ == old(out)@ + s@,
{
    let v = to_chars(s);
    push_chars(out, &v, 0, v.len());
    assert(v@.subrange(0, v@.len() as int) =~= v@);
}

/// `a` followed by `b` and `c`.
pub fn cat3(a: &str, b: &str, c: &str) -> (r: String)
    ensures
        r@ == a@ + b@ + c@,
{
    let mut r = owned(a);
    push_str(&mut r, b);
    push_str(&mut r, c);
    r
}

/// `a` followed by `b`, `c`, `d` and `e`.
pub fn cat5(a: &str, b: &str, c: &str, d: &str, e: &str) -> (r: String)
    ensures
        r@ == a@ + b@ + c@ + d@ + e@,
{
    let mut r = owned(a);
    push_str(&mut r, b);
    push_str(&mut r, c);
    push_str(&mut r, d);
    push_str(&mut r, e);
    r
}

/// `s.is_empty()`.
pub fn str_is_empty(s: &str) -> (r: bool)
    ensures
        r == (s@.len() == 0),
{
    to_chars(s).len() == 0
}

/// `str::trim`, returned as an owned string.
pub fn trim_owned(s: &str) -> (r: String)
    ensures
        r@ == trim(s@),
{
    let v = to_chars(s);
    let (a, b) = trim_bounds(&v, 0, v.len());
    assert(v@.subrange(0, v@.len() as int) =~= v@);
    string_from(&v, a, b)
}

/// `s.trim().is_empty()`.
pub fn is_blank(s: &str) -> (r: bool)
    ensures
        r == (trim(s@).len() == 0),
        r == all_ws(s@),
{
    let v = to_chars(s);
    let (a, b) = trim_bounds(&v, 0, v.len());
    assert(v@.subrange(0, v@.len() as int) =~= v@);
    proof {
        lemma_trim_empty_iff_all_ws(s@);
    }
    a == b
}

// ---------------------------------------------------------------------------
// Comparisons and searching
// ---------------------------------------------------------------------------

/// `v[lo..hi] == t`.
pub fn range_eq(v: &[char], lo: usize, hi: usize, t: &[char]) -> (r: bool)
    requires
        lo <= hi <= v@.len(),
    ensures
        r == (v@.subrange(lo as int, hi as int) == t@),
{
    if hi - lo != t.len() {
        return false;
    }
    let mut i: usize = 0;
    while i < t.len()
        invariant
            lo <= hi <= v@.len(),
            hi - lo == t@.len(),
            i <= t@.len(),
            forall|k: int| 0 <= k < i ==> v@[lo + k] == #[trigger] t@[k],
        decreases t@.len() - i,
    {
        if v[lo + i] != t[i] {
            assert(v@.subrange(lo as int, hi as int)[i as int] != t@[i as int]);
            return false;
        }
        i = i + 1;
    }
    assert(v@.subrange(lo as int, hi as int) =~= t@);
    true
}

/// Equality of two character sequences.
pub fn chars_eq(a: &[char], b: &[char]) -> (r: bool)
    ensures
        r == (a@ == b@),
{
    let r = range_eq(a, 0, a.len(), b);
    assert(a@.subrange(0, a@.len() as int) =~= a@);
    r
}

/// Equality of two strings.
pub fn str_eq(a: &str, b: &str) -> (r: bool)
    ensures
        r == (a@ == b@),
{
    let va = to_chars(a);
    let vb = to_chars(b);
    chars_eq(&va, &vb)
}

/// `t` occurs in `s` starting at index `i`.
pub open spec fn occurs_at(s: Seq<char>, t: Seq<char>, i: int) -> bool {
    0 <= i && i + t.len() <= s.len() && s.subrange(i, i + t.len()) == t
}

/// `t` is a substring of `s`.
pub open spec fn contains_seq(s: Seq<char>, t: Seq<char>) -> bool {
    exists|i: int| occurs_at(s, t, i)
}

pub open spec fn starts_with(s: Seq<char>, t: Seq<char>) -> bool {
    t.len() <= s.len() && s.subrange(0, t.len() as int) == t
}

pub open spec fn ends_with(s: Seq<char>, t: Seq<char>) -> bool {
    t.len() <= s.len() && s.subrange(s.len() - t.len(), s.len() as int) == t
}

/// The first index `>= from` at which `t` occurs in `v[..hi]`.
pub fn find_from(v: &[char], hi: usize, t: &[char], from: usize) -> (r: Option<usize>)
    requires
        from <= hi <= v@.len(),
    ensures
        match r {
            Some(i) => from <= i && i + t@.len() <= hi && occurs_at(v@.subrange(0, hi as int), t@, i as int)
                && forall|j: int| from <= j < i ==> !occurs_at(v@.subrange(0, hi as int), t@, j),
            None => forall|j: int| from <= j ==> !occurs_at(v@.subrange(0, hi as int), t@, j),
        },
{
    let ghost w = v@.subrange(0, hi as int);
    if t.len() > hi - from {
        return None;
    }
    let last = hi - t.len();
    let mut i = from;
    while i <= last
        invariant
            from <= i <= last + 1,
            last + t@.len() == hi,
            hi <= v@.len(),
            w == v@.subrange(0, hi as int),
            forall|j: int| from <= j < i ==> !occurs_at(w, t@, j),
        decreases last + 1 - i,
    {
        if range_eq(v, i, i + t.len(), t) {
            assert(w.subrange(i as int, i + t@.len()) =~= v@.subrange(i as int, i + t@.len()));
            return Some(i);
        }
        assert(w.subrange(i as int, i + t@.len()) =~= v@.subrange(i as int, i + t@.len()));
        if i == last {
            return None;
        }
        i = i + 1;
    }
    None
}

/// `s.contains(t)`.
pub fn contains(s: &str, t: &str) -> (r: bool)
    ensures
        r == contains_seq(s@, t@),
{
    let vs = to_chars(s);
    let vt = to_chars(t);
    let r = find_from(&vs, vs.len(), &vt, 0);
    assert(vs@.subrange(0, vs@.len() as int) =~= vs@);
    match r {
        Some(i) => true,
        None => {
            assert forall|j: int| !occurs_at(s@, t@, j) by {
                if j < 0 {
                } else {
                }
            }
            false
        },
    }
}

/// `s.starts_with(t)`.
pub fn has_prefix(s: &[char], t: &[char]) -> (r: bool)
    ensures
        r == starts_with(s@, t@),
{
    if t.len() > s.len() {
        return false;
    }
    range_eq(s, 0, t.len(), t)
}

/// `s.ends_with(t)`.
pub fn has_suffix(s: &[char], t: &[char]) -> (r: bool)
    ensures
        r == ends_with(s@, t@),
{
    if t.len() > s.len() {
        return false;
    }
    range_eq(s, s.len() - t.len(), s.len(), t)
}

/// `s.starts_with(t)` on strings.
pub fn str_starts_with(s: &str, t: &str) -> (r: bool)
    ensures
        r == starts_with(s@, t@),
{
    let vs = to_chars(s);
    let vt = to_chars(t);
    has_prefix(&vs, &vt)
}

// ---------------------------------------------------------------------------
// ASCII case folding
// ---------------------------------------------------------------------------

pub open spec fn lower_char(c: char) -> char {
    if 'A' <= c && c <= 'Z' {
        ((c as u32) + 32) as char
    } else {
        c
    }
}

/// `str::to_ascii_lowercase`.
pub open spec fn ascii_lower(s: Seq<char>) -> Seq<char> {
    s.map_values(|c: char| lower_char(c))
}

pub fn lower_char_exec(c: char) -> (r: char)
    ensures
        r == lower_char(c),
{
    if 'A' <= c && c <= 'Z' {
        let u = (c as u8) + 32;
        assert(u as char == ((c as u32) + 32) as char);
        u as char
    } else {
        c
    }
}

/// The ASCII lowercase form of `s`.
pub fn to_ascii_lower(s: &str) -> (v: Vec<char>)
    ensures
        v@ == ascii_lower(s@),
{
    let src = to_chars(s);
    let mut v: Vec<char> = Vec::new();
    let mut i: usize = 0;
    while i < src.len()
        invariant
            src@ == s@,
            i <= src@.len(),
            v@ == ascii_lower(s@).subrange(0, i as int),
        decreases src@.len() - i,
    {
        v.push(lower_char_exec(src[i]));
        i = i + 1;
        assert(v@ =~= ascii_lower(s@).subrange(0, i as int));
    }
    assert(v@ =~= ascii_lower(s@));
    v
}

pub open spec fn is_ascii_alnum(c: char) -> bool {
    ('a' <= c && c <= 'z') || ('A' <= c && c <= 'Z') || ('0' <= c && c <= '9')
}

pub fn char_is_ascii_alnum(c: char) -> (r: bool)
    ensures
        r == is_ascii_alnum(c),
{
    ('a' <= c && c <= 'z') || ('A' <= c && c <= 'Z') || ('0' <= c && c <= '9')
}

pub open spec fn is_digit(c: char) -> bool {
    '0' <= c && c <= '9'
}

// ---------------------------------------------------------------------------
// Decimal numbers
// ---------------------------------------------------------------------------

pub open spec fn digit_char(d: nat) -> char
    recommends
        d < 10,
{
    ((d + 48) as u32) as char
}

pub open spec fn digit_value(c: char) -> nat {
    ((c as u32) - 48) as nat
}

/// Decimal digits of `n` without leading zeros (`"0"` for zero).
pub open spec fn dec(n: nat) -> Seq<char>
    decreases n,
{
    if n < 10 {
        seq![digit_char(n)]
    } else {
        dec(n / 10).push(digit_char(n % 10))
    }
}

/// Decimal rendering of a signed integer (`-` then the digits of its magnitude).
pub open spec fn dec_int(n: int) -> Seq<char> {
    if n < 0 {
        seq!['-'] + dec((-n) as nat)
    } else {
        dec(n as nat)
    }
}

/// Value of a sequence of decimal digits.
pub open spec fn digits_value(s: Seq<char>) -> nat
    decreases s.len(),
{
    if s.len() == 0 {
        0
    } else {
        digits_value(s.drop_last()) * 10 + digit_value(s.last())
    }
}

pub open spec fn all_digits(s: Seq<char>) -> bool {
    forall|i: int| 0 <= i < s.len() ==> is_digit(#[trigger] s[i])
}

pub proof fn lemma_dec_digits(n: nat)
    ensures
        all_digits(dec(n)),
        dec(n).len() > 0,
        digits_value(dec(n)) == n,
        dec(n)[0] != '-',
        dec(n)[0] != '+',
    decreases n,
{
    if n < 10 {
        assert(dec(n) =~= seq![digit_char(n)]);
        assert(digit_value(digit_char(n)) == n);
        assert(dec(n).drop_last() =~= Seq::<char>::empty());
        assert(digits_value(Seq::<char>::empty()) == 0);
        assert(dec(n).last() == digit_char(n));
    } else {
        lemma_dec_digits(n / 10);
        let p = dec(n / 10);
        let d = digit_char(n % 10);
        assert(dec(n) == p.push(d));
        assert(p.push(d).drop_last() =~= p);
        assert(p.push(d).last() == d);
        assert(digit_value(d) == n % 10);
        assert(n == (n / 10) * 10 + n % 10);
        assert(digits_value(dec(n)) == digits_value(p) * 10 + digit_value(d));
        assert forall|i: int| 0 <= i < dec(n).len() implies is_digit(#[trigger] dec(n)[i]) by {
            if i < p.len() {
                assert(dec(n)[i] == p[i]);
            }
        }
        assert(dec(n)[0] == p[0]);
    }
}

fn digit_char_exec(d: u128) -> (c: char)
    requires
        d < 10,
    ensures
        c == digit_char(d as nat),
{
    let b = (d as u8) + 48;
    b as char
}

/// Decimal rendering of an unsigned integer (`u64::to_string`).
pub fn u64_to_dec(n: u64) -> (s: String)
    ensures
        s@ == dec(n as nat),
{
    u128_to_dec(n as u128)
}

/// Decimal rendering of an unsigned integer (`u128::to_string`).
pub fn u128_to_dec(n: u128) -> (s: String)
    ensures
        s@ == dec(n as nat),
{
    let mut digits: Vec<char> = Vec::new();
    let mut m = n;
    // digits are produced least significant first
    while m >= 10
        invariant
            m <= n,
            dec(n as nat) == dec(m as nat) + digits@.reverse(),
        decreases m,
    {
        let d = digit_char_exec(m % 10);
        proof {
            assert(dec(m as nat) == dec((m / 10) as nat).push(d));
            assert(digits@.push(d).reverse() =~= seq![d] + digits@.reverse());
            assert(dec((m / 10) as nat).push(d) + digits@.reverse() =~= dec((m / 10) as nat) + (
            seq![d] + digits@.reverse()));
        }
        digits.push(d);
        m = m / 10;
    }
    let d = digit_char_exec(m);
    proof {
        assert(dec(m as nat) =~= seq![d]);
        assert(digits@.push(d).reverse() =~= seq![d] + digits@.reverse());
    }
    digits.push(d);
    let mut s = String::new();
    let mut i = digits.len();
    while i > 0
        invariant
            i <= digits@.len(),
            s@ == digits@.reverse().subrange(0, (digits@.len() - i) as int),
        decreases i,
    {
        i = i - 1;
        push_char(&mut s, digits[i]);
        assert(s@ =~= digits@.reverse().subrange(0, (digits@.len() - i) as int));
    }
    assert(s@ =~= digits@.reverse());
    s
}

/// Decimal rendering of a signed integer (`i64::to_string`).
pub fn i64_to_dec(n: i64) -> (s: String)
    ensures
        s@ == dec_int(n as int),
{
    if n < 0 {
        let mag: u128 = if n == i64::MIN {
            9223372036854775808u128
        } else {
            (-n) as u128
        };
        let mut s = String::new();
        push_char(&mut s, '-');
        let d = u128_to_dec(mag);
        push_str(&mut s, d.as_str());
        assert(s@ =~= seq!['-'] + dec((-(n as int)) as nat));
        s
    } else {
        u64_to_dec(n as u64)
    }
}

/// Parse of an unsigned decimal as `str::parse::<uN>` does it: an optional
/// leading `+`, then one or more ASCII digits, with a value at most `max`.
pub open spec fn parse_unsigned(s: Seq<char>, max: nat) -> Option<nat> {
    let body = if s.len() > 0 && s[0] == '+' {
        s.drop_first()
    } else {
        s
    };
    if body.len() > 0 && all_digits(body) && digits_value(body) <= max {
        Some(digits_value(body))
    } else {
        None
    }
}

/// Parse of a signed decimal as `str::parse::<iN>` does it: an optional sign,
/// then one or more ASCII digits, with a value in `[-(max + 1), max]`.
pub open spec fn parse_signed(s: Seq<char>, max: nat) -> Option<int> {
    if s.len() > 0 && s[0] == '-' {
        let body = s.drop_first();
        if body.len() > 0 && all_digits(body) && digits_value(body) <= max + 1 {
            Some(-(digits_value(body) as int))
        } else {
            None
        }
    } else {
        match parse_unsigned(s, max) {
            Some(v) => Some(v as int),
            None => None,
        }
    }
}

pub proof fn lemma_digits_value_take(s: Seq<char>, i: int)
    requires
        0 <= i < s.len(),
    ensures
        digits_value(s.take(i + 1)) == digits_value(s.take(i)) * 10 + digit_value(s[i]),
{
    assert(s.take(i + 1).drop_last() =~= s.take(i));
}

pub proof fn lemma_digits_value_mono(s: Seq<char>, i: int, j: int)
    requires
        0 <= i <= j <= s.len(),
    ensures
        digits_value(s.take(i)) <= digits_value(s.take(j)),
    decreases j - i,
{
    if i < j {
        lemma_digits_value_mono(s, i, j - 1);
        lemma_digits_value_take(s, j - 1);
    }
}

/// Digits value of `v[lo..hi]`, or `None` when a character is not a digit or
/// the value exceeds `max`.
fn digits_in_range(v: &[char], lo: usize, hi: usize, max: u64) -> (r: Option<u64>)
    requires
        lo <= hi <= v@.len(),
    ensures
        ({
            let b = v@.subrange(lo as int, hi as int);
            match r {
                Some(x) => all_digits(b) && digits_value(b) <= max && x == digits_value(b),
                None => !all_digits(b) || digits_value(b) > max,
            }
        }),
{
    let ghost b = v@.subrange(lo as int, hi as int);
    let mut acc: u64 = 0;
    let mut i = lo;
    while i < hi
        invariant
            lo <= i <= hi <= v@.len(),
            b == v@.subrange(lo as int, hi as int),
            acc <= max,
            all_digits(b.take(i - lo)),
            acc == digits_value(b.take(i - lo)),
        decreases hi - i,
    {
        let c = v[i];
        assert(b[i - lo] == c);
        if !('0' <= c && c <= '9') {
            return None;
        }
        let d = (c as u64) - 48;
        if d > max {
            proof {
                lemma_digits_value_take(b, i - lo);
                lemma_digits_value_mono(b, i + 1 - lo, b.len() as int);
                assert(b.take(b.len() as int) =~= b);
            }
            return None;
        }
        proof {
            lemma_digits_value_take(b, i - lo);
            assert forall|k: int| 0 <= k < i + 1 - lo implies is_digit(#[trigger] b.take(i + 1 - lo)[k]) by {
                if k < i - lo {
                    assert(b.take(i + 1 - lo)[k] == b.take(i - lo)[k]);
                }
            }
        }
        if acc > (max - d) / 10 {
            proof {
                assert(acc * 10 + d > max) by (nonlinear_arith)
                    requires acc > (max - d) / 10, d <= max || d > max, d < 10;
                lemma_digits_value_mono(b, i + 1 - lo, b.len() as int);
                assert(b.take(b.len() as int) =~= b);
            }
            return None;
        }
        proof {
            assert(acc * 10 + d <= max) by (nonlinear_arith)
                requires acc <= (max - d) / 10, d <= max;
        }
        acc = acc * 10 + d;
        i = i + 1;
    }
    assert(b.take(hi - lo) =~= b);
    Some(acc)
}

/// `str::parse::<u64>()`.
pub fn parse_u64(s: &str) -> (r: Option<u64>)
    ensures
        r matches Some(x) ==> parse_unsigned(s@, u64::MAX as nat) == Some(x as nat),
        r is None ==> parse_unsigned(s@, u64::MAX as nat) is None,
{
    let v = to_chars(s);
    assert(v@.subrange(0, v@.len() as int) =~= s@);
    parse_u64_chars(&v, 0, v.len(), u64::MAX)
}

/// Unsigned parse of `v[lo..hi]` bounded by `max`.
pub fn parse_u64_chars(v: &[char], lo: usize, hi: usize, max: u64) -> (r: Option<u64>)
    requires
        lo <= hi <= v@.len(),
    ensures
        r matches Some(x) ==> parse_unsigned(v@.subrange(lo as int, hi as int), max as nat) == Some(
            x as nat,
        ),
        r is None ==> parse_unsigned(v@.subrange(lo as int, hi as int), max as nat) is None,
{
    let ghost s = v@.subrange(lo as int, hi as int);
    let mut start = lo;
    if lo < hi && v[lo] == '+' {
        start = lo + 1;
        assert(s.drop_first() =~= v@.subrange(start as int, hi as int));
    } else {
        assert(s =~= v@.subrange(start as int, hi as int));
    }
    if start == hi {
        return None;
    }
    digits_in_range(v, start, hi, max)
}

/// `str::parse::<i64>()`-style signed parse of `v[lo..hi]` bounded by `max`.
pub fn parse_i64_chars(v: &[char], lo: usize, hi: usize, max: u64) -> (r: Option<i64>)
    requires
        lo <= hi <= v@.len(),
        max < i64::MAX,
    ensures
        r matches Some(x) ==> parse_signed(v@.subrange(lo as int, hi as int), max as nat) == Some(
            x as int,
        ),
        r is None ==> parse_signed(v@.subrange(lo as int, hi as int), max as nat) is None,
{
    let ghost s = v@.subrange(lo as int, hi as int);
    if lo < hi && v[lo] == '-' {
        assert(s.drop_first() =~= v@.subrange(lo + 1, hi as int));
        if lo + 1 == hi {
            return None;
        }
        match digits_in_range(v, lo + 1, hi, max + 1) {
            Some(x) => Some(-(x as i64)),
            None => None,
        }
    } else {
        match parse_u64_chars(v, lo, hi, max) {
            Some(x) => Some(x as i64),
            None => None,
        }
    }
}

/// `str::parse::<i32>()`.
pub fn parse_i32(s: &str) -> (r: Option<i32>)
    ensures
        r matches Some(x) ==> parse_signed(s@, i32::MAX as nat) == Some(x as int),
        r is None ==> parse_signed(s@, i32::MAX as nat) is None,
{
    let v = to_chars(s);
    assert(v@.subrange(0, v@.len() as int) =~= s@);
    match parse_i64_chars(&v, 0, v.len(), i32::MAX as u64) {
        Some(x) => Some(x as i32),
        None => None,
    }
}


// ---------------------------------------------------------------------------
// Splitting
// ---------------------------------------------------------------------------

/// `str::split(c)`: the pieces between occurrences of `c` (at least one).
pub open spec fn split_char(s: Seq<char>, c: char) -> Seq<Seq<char>>
    decreases s.len(),
{
    if s.len() == 0 {
        seq![Seq::<char>::empty()]
    } else {
        let p = split_char(s.drop_last(), c);
        if s.last() == c {
            p.push(Seq::<char>::empty())
        } else {
            p.update(p.len() - 1, p.last().push(s.last()))
        }
    }
}

pub proof fn lemma_split_char_nonempty(s: Seq<char>, c: char)
    ensures
        split_char(s, c).len() >= 1,
    decreases s.len(),
{
    if s.len() > 0 {
        lemma_split_char_nonempty(s.drop_last(), c);
    }
}

/// `s.split(c)` as owned strings.
pub fn split_on(s: &str, c: char) -> (r: Vec<String>)
    ensures
        views(r@) == split_char(s@, c),
{
    let v = to_chars(s);
    let mut parts: Vec<String> = Vec::new();
    let mut cur = String::new();
    let mut i: usize = 0;
    proof {
        assert(v@.take(0) =~= Seq::<char>::empty());
        assert(views(parts@).push(cur@) =~= seq![Seq::<char>::empty()]);
    }
    while i < v.len()
        invariant
            v@ == s@,
            i <= v@.len(),
            views(parts@).push(cur@) == split_char(v@.take(i as int), c),
        decreases v@.len() - i,
    {
        let ch = v[i];
        proof {
            assert(v@.take(i as int + 1).drop_last() =~= v@.take(i as int));
            assert(v@.take(i as int + 1).last() == ch);
            lemma_split_char_nonempty(v@.take(i as int), c);
        }
        if ch == c {
            let done = cur;
            parts.push(done);
            cur = String::new();
            proof {
                assert(views(parts@).push(cur@) =~= split_char(v@.take(i as int), c).push(Seq::<char>::empty()));
            }
        } else {
            let ghost before = views(parts@).push(cur@);
            push_char(&mut cur, ch);
            proof {
                assert(views(parts@).push(cur@) =~= before.update(before.len() - 1, before.last().push(ch)));
            }
        }
        i = i + 1;
    }
    proof {
        assert(v@.take(v@.len() as int) =~= v@);
    }
    let ghost before = views(parts@);
    parts.push(cur);
    proof {
        assert(views(parts@) =~= before.push(cur@));
    }
    parts
}

/// `line` without one trailing `'\r'`.
pub open spec fn strip_cr(line: Seq<char>) -> Seq<char> {
    if line.len() > 0 && line.last() == '\r' {
        line.drop_last()
    } else {
        line
    }
}

/// `str::lines`: the pieces between `'\n'`, each ended line without a
/// trailing `'\r'`, and no final empty piece.
pub open spec fn lines_of(s: Seq<char>) -> Seq<Seq<char>> {
    let p = split_char(s, '\n');
    let ended = p.drop_last().map_values(|l: Seq<char>| strip_cr(l));
    if p.last().len() == 0 {
        ended
    } else {
        ended.push(p.last())
    }
}

/// `s.lines()` as owned strings.
pub fn lines(s: &str) -> (r: Vec<String>)
    ensures
        views(r@) == lines_of(s@),
{
    let parts = split_on(s, '\n');
    proof {
        lemma_split_char_nonempty(s@, '\n');
    }
    let n = parts.len();
    let mut out: Vec<String> = Vec::new();
    let mut i: usize = 0;
    while i + 1 < n
        invariant
            views(parts@) == split_char(s@, '\n'),
            n == parts@.len(),
            n >= 1,
            i <= n - 1,
            views(out@) == views(parts@).drop_last().take(i as int).map_values(|l: Seq<char>| strip_cr(l)),
        decreases n - i,
    {
        let v = to_chars(parts[i].as_str());
        let line = if v.len() > 0 && v[v.len() - 1] == '\r' {
            string_from(&v, 0, v.len() - 1)
        } else {
            string_of(&v)
        };
        proof {
            assert(v@.drop_last() =~= v@.subrange(0, v@.len() - 1));
        }
        let ghost before = views(out@);
        out.push(line);
        proof {
            assert(views(parts@).drop_last().take(i as int + 1) =~= views(parts@).drop_last().take(i as int).push(views(parts@)[i as int]));
            assert(views(out@) =~= before.push(line@));
            assert(views(out@) =~= views(parts@).drop_last().take(i as int + 1).map_values(|l: Seq<char>| strip_cr(l)));
        }
        i = i + 1;
    }
    proof {
        assert(views(parts@).drop_last().take(n - 1) =~= views(parts@).drop_last());
    }
    let last_chars = to_chars(parts[n - 1].as_str());
    if last_chars.len() > 0 {
        let last = parts[n - 1].clone();
        let ghost before = views(out@);
        out.push(last);
        proof {
            assert(views(out@) =~= before.push(views(parts@).last()));
        }
    } else {
        proof {
            assert(views(parts@).last().len() == 0) by {
                assert(views(parts@).last() == parts@[n - 1]@);
            }
        }
    }
    out
}

/// `str::split_whitespace`: maximal runs of non-whitespace characters.
pub open spec fn words_of(s: Seq<char>) -> Seq<Seq<char>>
    decreases s.len(),
{
    if s.len() == 0 {
        Seq::empty()
    } else {
        let w = words_of(s.drop_last());
        if is_ws(s.last()) {
            w
        } else if s.drop_last().len() > 0 && !is_ws(s.drop_last().last()) {
            w.update(w.len() - 1, w.last().push(s.last()))
        } else {
            w.push(seq![s.last()])
        }
    }
}

pub proof fn lemma_words_nonempty(s: Seq<char>)
    ensures
        s.len() > 0 && !is_ws(s.last()) ==> words_of(s).len() > 0,
    decreases s.len(),
{
    if s.len() > 0 {
        lemma_words_nonempty(s.drop_last());
    }
}

/// `s.split_whitespace()` as owned strings.
pub fn words(s: &str) -> (r: Vec<String>)
    ensures
        views(r@) == words_of(s@),
{
    let v = to_chars(s);
    let mut parts: Vec<String> = Vec::new();
    let mut cur = String::new();
    let mut in_word = false;
    let mut i: usize = 0;
    proof {
        assert(v@.take(0) =~= Seq::<char>::empty());
    }
    while i < v.len()
        invariant
            v@ == s@,
            i <= v@.len(),
            (if cur@.len() > 0 {
                views(parts@).push(cur@)
            } else {
                views(parts@)
            }) == words_of(v@.take(i as int)),
            cur@.len() > 0 <==> (i > 0 && !is_ws(v@[i - 1])),
            in_word == (cur@.len() > 0),
        decreases v@.len() - i,
    {
        let ch = v[i];
        proof {
            assert(v@.take(i as int + 1).drop_last() =~= v@.take(i as int));
            assert(v@.take(i as int + 1).last() == ch);
            if i > 0 {
                assert(v@.take(i as int).last() == v@[i - 1]);
            }
        }
        if char_is_ws(ch) {
            if in_word {
                let done = cur;
                parts.push(done);
                cur = String::new();
                in_word = false;
            }
        } else {
            let ghost before = if cur@.len() > 0 {
                views(parts@).push(cur@)
            } else {
                views(parts@)
            };
            let ghost was_empty = cur@.len() == 0;
            push_char(&mut cur, ch);
            in_word = true;
            proof {
                if was_empty {
                    assert(cur@ =~= seq![ch]);
                    assert(views(parts@).push(cur@) =~= before.push(seq![ch]));
                } else {
                    assert(views(parts@).push(cur@) =~= before.update(before.len() - 1, before.last().push(ch)));
                }
            }
        }
        i = i + 1;
    }
    proof {
        assert(v@.take(v@.len() as int) =~= v@);
    }
    if in_word {
        let ghost before = views(parts@);
        parts.push(cur);
        proof {
            assert(views(parts@) =~= before.push(parts@.last()@));
        }
    }
    parts
}

// ---------------------------------------------------------------------------
// JSON strings
// ---------------------------------------------------------------------------

pub open spec fn hex_digit(d: nat) -> char
    recommends
        d < 16,
{
    if d < 10 {
        digit_char(d)
    } else {
        ((d + 87) as u32) as char
    }
}

/// Lower-case hexadecimal digits of `n` without leading zeros (`"0"` for zero),
/// as `format!("{:x}", n)` writes them.
pub open spec fn hex(n: nat) -> Seq<char>
    decreases n,
{
    if n < 16 {
        seq![hex_digit(n)]
    } else {
        hex(n / 16).push(hex_digit(n % 16))
    }
}

/// Lower-case hexadecimal rendering of an unsigned integer.
pub fn u64_to_hex(n: u64) -> (s: String)
    ensures
        s@ == hex(n as nat),
{
    let mut digits: Vec<char> = Vec::new();
    let mut m = n;
    while m >= 16
        invariant
            m <= n,
            hex(n as nat) == hex(m as nat) + digits@.reverse(),
        decreases m,
    {
        let d = hex_digit_exec((m % 16) as u32);
        proof {
            assert(hex(m as nat) == hex((m / 16) as nat).push(d));
            assert(digits@.push(d).reverse() =~= seq![d] + digits@.reverse());
            assert(hex((m / 16) as nat).push(d) + digits@.reverse() =~= hex((m / 16) as nat) + (
            seq![d] + digits@.reverse()));
        }
        digits.push(d);
        m = m / 16;
    }
    let d = hex_digit_exec(m as u32);
    proof {
        assert(hex(m as nat) =~= seq![d]);
        assert(digits@.push(d).reverse() =~= seq![d] + digits@.reverse());
    }
    digits.push(d);
    let mut s = String::new();
    let mut i = digits.len();
    while i > 0
        invariant
            i <= digits@.len(),
            s@ == digits@.reverse().subrange(0, (digits@.len() - i) as int),
        decreases i,
    {
        i = i - 1;
        push_char(&mut s, digits[i]);
        assert(s@ =~= digits@.reverse().subrange(0, (digits@.len() - i) as int));
    }
    assert(s@ =~= digits@.reverse());
    s
}

/// An ASCII hexadecimal digit, either case.
pub open spec fn is_hex_digit(c: char) -> bool {
    ('0' <= c && c <= '9') || ('a' <= c && c <= 'f') || ('A' <= c && c <= 'F')
}

/// Value of a hexadecimal digit.
pub open spec fn hex_value(c: char) -> nat {
    if '0' <= c && c <= '9' {
        ((c as u32) - 48) as nat
    } else if 'a' <= c && c <= 'f' {
        ((c as u32) - 87) as nat
    } else {
        ((c as u32) - 55) as nat
    }
}

/// Value of a sequence of hexadecimal digits.
pub open spec fn hex_digits_value(s: Seq<char>) -> nat
    decreases s.len(),
{
    if s.len() == 0 {
        0
    } else {
        hex_digits_value(s.drop_last()) * 16 + hex_value(s.last())
    }
}

/// `s` without a leading `0x` or `0X`.
pub open spec fn strip_hex_prefix(s: Seq<char>) -> Seq<char> {
    if s.len() >= 2 && s[0] == '0' && (s[1] == 'x' || s[1] == 'X') {
        s.skip(2)
    } else {
        s
    }
}

/// A hexadecimal `u64`: an optional `0x`/`0X` prefix, then one to sixteen hex digits.
pub open spec fn parse_hex(s: Seq<char>) -> Option<u64> {
    let b = strip_hex_prefix(s);
    if 0 < b.len() <= 16 && forall|i: int| 0 <= i < b.len() ==> is_hex_digit(#[trigger] b[i]) {
        Some(hex_digits_value(b) as u64)
    } else {
        None
    }
}

pub open spec fn pow16(n: nat) -> nat
    decreases n,
{
    if n == 0 {
        1
    } else {
        16 * pow16((n - 1) as nat)
    }
}

/// Parses a hexadecimal `u64` (see `parse_hex`).
pub fn parse_hex_u64(s: &str) -> (r: Option<u64>)
    ensures
        r == parse_hex(s@),
{
    let v = to_chars(s);
    let n = v.len();
    let lo: usize = if n >= 2 && v[0] == '0' && (v[1] == 'x' || v[1] == 'X') {
        2
    } else {
        0
    };
    let ghost b = strip_hex_prefix(s@);
    assert(b =~= v@.subrange(lo as int, n as int));
    if n - lo == 0 || n - lo > 16 {
        return None;
    }
    let mut acc: u64 = 0;
    let mut i: usize = lo;
    while i < n
        invariant
            v@ == s@,
            n == v@.len(),
            b == v@.subrange(lo as int, n as int),
            b == strip_hex_prefix(s@),
            lo <= i <= n,
            0 < n - lo <= 16,
            forall|k: int| 0 <= k < i - lo ==> is_hex_digit(#[trigger] b[k]),
            acc == hex_digits_value(b.take(i - lo)),
            acc < pow16((i - lo) as nat),
        decreases n - i,
    {
        let c = v[i];
        let d: u64 = if '0' <= c && c <= '9' {
            (c as u64) - 48
        } else if 'a' <= c && c <= 'f' {
            (c as u64) - 87
        } else if 'A' <= c && c <= 'F' {
            (c as u64) - 55
        } else {
            assert(b[i - lo] == c);
            assert(!is_hex_digit(b[i - lo]));
            return None;
        };
        proof {
            let k = (i - lo) as int;
            assert(b.take(k + 1).drop_last() =~= b.take(k));
            assert(b.take(k + 1).last() == c);
            assert(pow16((k + 1) as nat) == 16 * pow16(k as nat));
            assert(acc * 16 + d < pow16((k + 1) as nat)) by (nonlinear_arith)
                requires
                    acc < pow16(k as nat),
                    d < 16,
                    pow16((k + 1) as nat) == 16 * pow16(k as nat),
            ;
            lemma_pow16_mono((k + 1) as nat, 16);
            assert(pow16(16) == 18446744073709551616nat) by {
                reveal_with_fuel(pow16, 17);
            }
        }
        acc = acc * 16 + d;
        i = i + 1;
    }
    assert(b.take(b.len() as int) =~= b);
    Some(acc)
}

proof fn lemma_pow16_mono(a: nat, b: nat)
    requires
        a <= b,
    ensures
        pow16(a) <= pow16(b),
    decreases b - a,
{
    if a < b {
        lemma_pow16_mono(a, (b - 1) as nat);
    }
}

/// JSON escape of one character.
pub open spec fn json_escape_char(c: char) -> Seq<char> {
    if c == '"' {
        seq!['\\', '"']
    } else if c == '\\' {
        seq!['\\', '\\']
    } else if c == '\n' {
        seq!['\\', 'n']
    } else if c == '\r' {
        seq!['\\', 'r']
    } else if c == '\t' {
        seq!['\\', 't']
    } else if (c as u32) < 0x20 {
        seq!['\\', 'u', '0', '0', hex_digit(((c as u32) / 16) as nat), hex_digit(((c as u32) % 16) as nat)]
    } else {
        seq![c]
    }
}

/// JSON escape of a text (without the surrounding quotes).
pub open spec fn json_escape(s: Seq<char>) -> Seq<char>
    decreases s.len(),
{
    if s.len() == 0 {
        Seq::empty()
    } else {
        json_escape(s.drop_last()) + json_escape_char(s.last())
    }
}

/// A JSON string literal for `s`.
pub open spec fn json_quote(s: Seq<char>) -> Seq<char> {
    seq!['"'] + json_escape(s) + seq!['"']
}

pub(crate) fn hex_digit_exec(d: u32) -> (c: char)
    requires
        d < 16,
    ensures
        c == hex_digit(d as nat),
{
    if d < 10 {
        ((d as u8) + 48) as char
    } else {
        ((d as u8) + 87) as char
    }
}

/// Appends the JSON escape of `s` to `out`.
pub fn push_json_escaped(out: &mut String, s: &str)
    ensures
        final(out)@ == old(out)@ + json_escape(s@),
{
    let v = to_chars(s);
    let mut i: usize = 0;
    while i < v.len()
        invariant
            v@ == s@,
            i <= v@.len(),
            out@ == old(out)@ + json_escape(s@.take(i as int)),
        decreases v@.len() - i,
    {
        let c = v[i];
        let ghost before = out@;
        if c == '"' {
            push_char(out, '\\');
            push_char(out, '"');
        } else if c == '\\' {
            push_char(out, '\\');
            push_char(out, '\\');
        } else if c == '\n' {
            push_char(out, '\\');
            push_char(out, 'n');
        } else if c == '\r' {
            push_char(out, '\\');
            push_char(out, 'r');
        } else if c == '\t' {
            push_char(out, '\\');
            push_char(out, 't');
        } else if (c as u32) < 0x20 {
            push_char(out, '\\');
            push_char(out, 'u');
            push_char(out, '0');
            push_char(out, '0');
            push_char(out, hex_digit_exec((c as u32) / 16));
            push_char(out, hex_digit_exec((c as u32) % 16));
        } else {
            push_char(out, c);
        }
        proof {
            assert(out@ =~= before + json_escape_char(c));
            assert(s@.take(i + 1).drop_last() =~= s@.take(i as int));
            assert(s@.take(i + 1).last() == c);
        }
        i = i + 1;
    }
    assert(s@.take(v@.len() as int) =~= s@);
}

/// `"` + JSON escape of `s` + `"`.
pub fn json_str(s: &str) -> (r: String)
    ensures
        r@ == json_quote(s@),
{
    let mut out = String::new();
    push_char(&mut out, '"');
    push_json_escaped(&mut out, s);
    push_char(&mut out, '"');
    assert(out@ =~= json_quote(s@));
    out
}

/// A literal text as a `String`.
pub fn lit(s: &str) -> (r: String)
    ensures
        r@ == s@,
{
    owned(s)
}

} // verus!

verus! {

/// Concatenation of `parts` with `sep` between consecutive parts.
pub open spec fn join(parts: Seq<Seq<char>>, sep: Seq<char>) -> Seq<char>
    decreases parts.len(),
{
    if parts.len() == 0 {
        Seq::empty()
    } else if parts.len() == 1 {
        parts[0]
    } else {
        join(parts.drop_last(), sep) + sep + parts.last()
    }
}

pub open spec fn views(v: Seq<String>) -> Seq<Seq<char>> {
    v.map_values(|s: String| s@)
}

/// `parts.join(sep)`.
pub fn join_strings(parts: &Vec<String>, sep: &str) -> (r: String)
    ensures
        r@ == join(views(parts@), sep@),
{
    let mut out = String::new();
    let mut i: usize = 0;
    while i < parts.len()
        invariant
            i <= parts@.len(),
            out@ == join(views(parts@).take(i as int), sep@),
        decreases parts@.len() - i,
    {
        let ghost before = out@;
        if i > 0 {
            push_str(&mut out, sep);
        }
        push_str(&mut out, parts[i].as_str());
        proof {
            let t = views(parts@).take(i + 1);
            assert(t.drop_last() =~= views(parts@).take(i as int));
            assert(t.last() == parts@[i as int]@);
            if i == 0 {
                assert(out@ =~= t[0]);
            } else {
                assert(out@ =~= join(t.drop_last(), sep@) + sep@ + t.last());
            }
        }
        i = i + 1;
    }
    assert(views(parts@).take(parts@.len() as int) =~= views(parts@));
    out
}

/// `"` key `":` value.
pub open spec fn kv(key: Seq<char>, value: Seq<char>) -> Seq<char> {
    seq!['"'] + key + seq!['"', ':'] + value
}

/// Builds `"key":value`.
pub fn kv_field(key: &str, value: &str) -> (r: String)
    ensures
        r@ == kv(key@, value@),
{
    let mut out = String::new();
    push_char(&mut out, '"');
    push_str(&mut out, key);
    push_char(&mut out, '"');
    push_char(&mut out, ':');
    push_str(&mut out, value);
    assert(out@ =~= kv(key@, value@));
    out
}

pub open spec fn null_text() -> Seq<char> {
    seq!['n', 'u', 'l', 'l']
}

pub open spec fn bool_text(b: bool) -> Seq<char> {
    if b {
        seq!['t', 'r', 'u', 'e']
    } else {
        seq!['f', 'a', 'l', 's', 'e']
    }
}

/// `bool::to_string`.
pub fn bool_to_text(b: bool) -> (r: String)
    ensures
        r@ == bool_text(b),
{
    let mut out = String::new();
    if b {
        push_char(&mut out, 't');
        push_char(&mut out, 'r');
        push_char(&mut out, 'u');
        push_char(&mut out, 'e');
    } else {
        push_char(&mut out, 'f');
        push_char(&mut out, 'a');
        push_char(&mut out, 'l');
        push_char(&mut out, 's');
        push_char(&mut out, 'e');
    }
    assert(out@ =~= bool_text(b));
    out
}

/// The JSON `null` literal.
pub fn null_json() -> (r: String)
    ensures
        r@ == null_text(),
{
    let mut out = String::new();
    push_char(&mut out, 'n');
    push_char(&mut out, 'u');
    push_char(&mut out, 'l');
    push_char(&mut out, 'l');
    assert(out@ =~= null_text());
    out
}

pub open spec fn json_opt_string_spec(v: Option<String>) -> Seq<char> {
    match v {
        Some(s) => json_quote(s@),
        None => null_text(),
    }
}

pub open spec fn json_opt_u64_spec(v: Option<u64>) -> Seq<char> {
    match v {
        Some(x) => dec(x as nat),
        None => null_text(),
    }
}

pub open spec fn json_opt_i32_spec(v: Option<i32>) -> Seq<char> {
    match v {
        Some(x) => dec_int(x as int),
        None => null_text(),
    }
}

/// JSON for an optional string: a quoted string or `null`.
pub fn json_opt_string(v: &Option<String>) -> (r: String)
    ensures
        r@ == json_opt_string_spec(*v),
{
    match v {
        Some(s) => json_str(s.as_str()),
        None => null_json(),
    }
}

/// JSON for an optional unsigned number.
pub fn json_opt_u64(v: Option<u64>) -> (r: String)
    ensures
        r@ == json_opt_u64_spec(v),
{
    match v {
        Some(x) => u64_to_dec(x),
        None => null_json(),
    }
}

/// JSON for an optional signed number.
pub fn json_opt_i32(v: Option<i32>) -> (r: String)
    ensures
        r@ == json_opt_i32_spec(v),
{
    match v {
        Some(x) => i64_to_dec(x as i64),
        None => null_json(),
    }
}

/// `{` + `parts` joined by `,` + `}`.
pub open spec fn json_object(parts: Seq<Seq<char>>) -> Seq<char> {
    seq!['{'] + join(parts, seq![',']) + seq!['}']
}

/// Builds a JSON object from already rendered `"key":value` members.
pub fn object_of(parts: &Vec<String>) -> (r: String)
    ensures
        r@ == json_object(views(parts@)),
{
    let mut out = String::new();
    push_char(&mut out, '{');
    let body = join_strings(parts, ",");
    proof {
        reveal_strlit(",");
        assert(","@ =~= seq![',']);
    }
    push_str(&mut out, body.as_str());
    push_char(&mut out, '}');
    assert(out@ =~= json_object(views(parts@)));
    out
}

/// `[` + `parts` joined by `,` + `]`.
pub open spec fn json_array(parts: Seq<Seq<char>>) -> Seq<char> {
    seq!['['] + join(parts, seq![',']) + seq![']']
}

/// Builds a JSON array from already rendered elements.
pub fn array_of(parts: &Vec<String>) -> (r: String)
    ensures
        r@ == json_array(views(parts@)),
{
    let mut out = String::new();
    push_char(&mut out, '[');
    let body = join_strings(parts, ",");
    proof {
        reveal_strlit(",");
        assert(","@ =~= seq![',']);
    }
    push_str(&mut out, body.as_str());
    push_char(&mut out, ']');
    assert(out@ =~= json_array(views(parts@)));
    out
}

/// JSON strings for every element of `v`.
pub open spec fn quoted_all(v: Seq<String>) -> Seq<Seq<char>> {
    v.map_values(|s: String| json_quote(s@))
}

/// Renders each string of `v` as a JSON string literal.
pub fn quote_all(v: &Vec<String>) -> (r: Vec<String>)
    ensures
        views(r@) == quoted_all(v@),
{
    let mut out: Vec<String> = Vec::new();
    let mut i: usize = 0;
    while i < v.len()
        invariant
            i <= v@.len(),
            out@.len() == i,
            forall|k: int| 0 <= k < i ==> (#[trigger] out@[k])@ == json_quote(v@[k]@),
        decreases v@.len() - i,
    {
        let q = json_str(v[i].as_str());
        out.push(q);
        i = i + 1;
    }
    assert(views(out@) =~= quoted_all(v@));
    out
}

} // verus!

verus! {

/// `v == t` for a character vector and a string.
pub fn eq_lit(v: &[char], t: &str) -> (r: bool)
    ensures
        r == (v@ == t@),
{
    let vt = to_chars(t);
    chars_eq(v, &vt)
}

} // verus!
