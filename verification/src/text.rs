//! Character-level helpers shared by the cell decoder, the date parser and
//! the column extractors: character classes, whitespace scanning, string
//! equality, decimal rendering of integers, and trimming.

use vstd::prelude::*;
use vstd::string::StrSliceExecFns;

verus! {

/// The whitespace characters recognized by the scanners and by `trim_str`.
pub open spec fn is_ws_char(c: char) -> bool {
    c == ' ' || c == '\t' || c == '\n' || c == '\r' || c == '\u{b}' || c == '\u{c}'
}

pub open spec fn is_digit_char(c: char) -> bool {
    48 <= c as int && c as int <= 57
}

pub open spec fn digit_val(c: char) -> int {
    c as int - 48
}

/// The decimal character for a digit value in `0..=9`.
pub open spec fn digit_char(d: int) -> char
    recommends
        0 <= d <= 9,
{
    ((48 + d) as u8) as char
}

/// Index of the first non-whitespace character at or after `i`, or the end of
/// the sequence.
pub open spec fn spec_skip_ws(s: Seq<char>, i: int) -> int
    decreases s.len() - i,
{
    if !(0 <= i < s.len()) {
        i
    } else if is_ws_char(s[i]) {
        spec_skip_ws(s, i + 1)
    } else {
        i
    }
}

pub proof fn lemma_skip_ws_bounds(s: Seq<char>, i: int)
    requires
        0 <= i <= s.len(),
    ensures
        i <= spec_skip_ws(s, i) <= s.len(),
    decreases s.len() - i,
{
    if i < s.len() && is_ws_char(s[i]) {
        lemma_skip_ws_bounds(s, i + 1);
    }
}

fn is_ws(c: char) -> (r: bool)
    ensures
        r == is_ws_char(c),
{
    c == ' ' || c == '\t' || c == '\n' || c == '\r' || c == '\u{b}' || c == '\u{c}'
}

/// Scans past whitespace in `s` starting at `i`; `n` is the character length
/// of `s`.
pub fn skip_ws(s: &str, i: usize, n: usize) -> (j: usize)
    requires
        n == s@.len(),
        i <= n,
    ensures
        j == spec_skip_ws(s@, i as int),
        i <= j <= n,
{
    let mut j = i;
    while j < n && is_ws(s.get_char(j))
        invariant
            i <= j <= n,
            n == s@.len(),
            spec_skip_ws(s@, i as int) == spec_skip_ws(s@, j as int),
        decreases n - j,
    {
        j = j + 1;
    }
    j
}

/// Character-by-character string equality, decided against the views.
pub fn str_eq(a: &str, b: &str) -> (r: bool)
    ensures
        r == (a@ == b@),
{
    let na = a.unicode_len();
    let nb = b.unicode_len();
    if na != nb {
        return false;
    }
    let mut i: usize = 0;
    while i < na
        invariant
            i <= na,
            na == a@.len(),
            na == b@.len(),
            forall|k: int| 0 <= k < i ==> a@[k] == b@[k],
        decreases na - i,
    {
        if a.get_char(i) != b.get_char(i) {
            return false;
        }
        i = i + 1;
    }
    proof {
        assert(a@ =~= b@);
    }
    true
}

/// Relies on std's `String::push`: appends the given character to the end of
/// the string.
#[verifier::external_body]
pub fn push_char(s: &mut String, c: char)
    ensures
        final(s)@ == old(s)@.push(c),
{
    s.push(c);
}

/// Decimal digit sequence of a non-negative integer, most significant first.
pub open spec fn dec_digits(n: int) -> Seq<char>
    recommends
        n >= 0,
    decreases n,
{
    if n < 10 {
        seq![digit_char(n)]
    } else {
        dec_digits(n / 10).push(digit_char(n % 10))
    }
}

/// Decimal rendering of a signed integer.
pub open spec fn int_str(i: int) -> Seq<char> {
    if i < 0 {
        seq!['-'] + dec_digits(-i)
    } else {
        dec_digits(i)
    }
}

pub fn u64_to_string(n: u64) -> (r: String)
    ensures
        r@ == dec_digits(n as int),
{
    let mut digits: Vec<char> = Vec::new();
    let mut m = n;
    while m >= 10
        invariant
            dec_digits(n as int) =~= dec_digits(m as int) + digits@.reverse(),
        decreases m,
    {
        let d = m % 10;
        let c = (48 + d as u8) as char;
        proof {
            assert(c == digit_char(m as int % 10));
            assert(digits@.push(c).reverse() =~= seq![c] + digits@.reverse());
            assert(dec_digits(m as int) =~= dec_digits(m as int / 10).push(
                digit_char(m as int % 10),
            ));
            assert(dec_digits(m as int / 10).push(c) =~= dec_digits(m as int / 10) + seq![c]);
        }
        digits.push(c);
        m = m / 10;
    }
    let c0 = (48 + m as u8) as char;
    proof {
        assert(c0 == digit_char(m as int));
        assert(dec_digits(m as int) =~= seq![c0]);
    }
    let mut r = String::new();
    push_char(&mut r, c0);
    let k = digits.len();
    let mut i: usize = 0;
    while i < k
        invariant
            i <= k,
            k == digits@.len(),
            dec_digits(n as int) =~= dec_digits(m as int) + digits@.reverse(),
            dec_digits(m as int) =~= seq![c0],
            r@ =~= seq![c0] + digits@.reverse().take(i as int),
        decreases k - i,
    {
        let c = digits[k - 1 - i];
        proof {
            assert(digits@.reverse()[i as int] == digits@[k - 1 - i as int]);
            assert(digits@.reverse().take(i + 1) =~= digits@.reverse().take(i as int).push(c));
        }
        push_char(&mut r, c);
        i = i + 1;
    }
    proof {
        assert(digits@.reverse().take(k as int) =~= digits@.reverse());
        assert(r@ =~= dec_digits(n as int));
    }
    r
}

pub fn i64_to_string(i: i64) -> (r: String)
    ensures
        r@ == int_str(i as int),
{
    if i >= 0 {
        let r = u64_to_string(i as u64);
        r
    } else {
        let mag: u64 = ((-(i + 1)) as u64) + 1;
        proof {
            assert(mag as int == -(i as int));
        }
        let digits = u64_to_string(mag);
        let mut r = String::new();
        push_char(&mut r, '-');
        r.append(digits.as_str());
        proof {
            assert(r@ =~= seq!['-'] + dec_digits(-(i as int)));
        }
        r
    }
}

/// A run of `k` zero characters.
pub open spec fn zeros(k: int) -> Seq<char>
    decreases k,
{
    if k <= 0 {
        Seq::empty()
    } else {
        seq!['0'] + zeros(k - 1)
    }
}

pub proof fn lemma_zeros(k: int)
    requires
        k >= 0,
    ensures
        zeros(k).len() == k,
        forall|i: int| 0 <= i < k ==> zeros(k)[i] == '0',
    decreases k,
{
    if k > 0 {
        lemma_zeros(k - 1);
    }
}

/// Decimal rendering of a non-negative integer, zero-padded on the left to
/// at least `w` characters.
pub open spec fn padded_dec(n: int, w: int) -> Seq<char> {
    zeros(w - dec_digits(n).len()) + dec_digits(n)
}

pub fn u64_to_padded_string(n: u64, w: usize) -> (r: String)
    ensures
        r@ == padded_dec(n as int, w as int),
{
    let ds = u64_to_string(n);
    let len = ds.unicode_len();
    let mut r = String::new();
    let mut i = len;
    proof {
        assert(zeros(0) =~= Seq::<char>::empty());
    }
    while i < w
        invariant
            len <= i || i == len,
            i <= w || i == len,
            r@ =~= zeros(i as int - len as int),
        decreases w - i,
    {
        proof {
            lemma_zeros(i as int - len as int);
            lemma_zeros(i + 1 - len as int);
        }
        push_char(&mut r, '0');
        proof {
            assert(r@ =~= zeros(i + 1 - len as int));
        }
        i = i + 1;
    }
    r.append(ds.as_str());
    proof {
        if w > len {
            assert(r@ =~= padded_dec(n as int, w as int));
        } else {
            assert(zeros(w - dec_digits(n as int).len()) =~= Seq::<char>::empty());
            assert(r@ =~= padded_dec(n as int, w as int));
        }
    }
    r
}

/// Length of `s` once trailing whitespace is removed.
pub open spec fn trim_end_len(s: Seq<char>) -> int
    decreases s.len(),
{
    if s.len() == 0 {
        0
    } else if is_ws_char(s.last()) {
        trim_end_len(s.drop_last())
    } else {
        s.len() as int
    }
}


/// `s` with leading and trailing whitespace removed.
pub open spec fn spec_trim(s: Seq<char>) -> Seq<char> {
    let t = s.take(trim_end_len(s));
    t.skip(spec_skip_ws(t, 0))
}

/// Removes leading and trailing whitespace, mirroring `spec_trim`.
pub fn trim_str<'a>(s: &'a str) -> (r: &'a str)
    ensures
        r@ == spec_trim(s@),
{
    let n = s.unicode_len();
    proof {
        assert(s@.take(n as int) =~= s@);
    }
    let mut e = n;
    while e > 0 && is_ws(s.get_char(e - 1))
        invariant
            e <= n,
            n == s@.len(),
            trim_end_len(s@) == trim_end_len(s@.take(e as int)),
        decreases e,
    {
        proof {
            let t = s@.take(e as int);
            assert(t.last() == s@[e - 1]);
            assert(t.drop_last() =~= s@.take(e - 1));
        }
        e = e - 1;
    }
    proof {
        let t = s@.take(e as int);
        if e > 0 {
            assert(t.last() == s@[e - 1]);
        }
        assert(trim_end_len(s@) == e as int);
        lemma_skip_ws_bounds(s@.take(e as int), 0);
    }
    let t = s.substring_char(0, e);
    let a = skip_ws(t, 0, e);
    let r = t.substring_char(a, e);
    proof {
        assert(t@ =~= s@.take(e as int));
        assert(r@ =~= t@.skip(a as int));
    }
    r
}

} // verus!
