//! The date-time model and the tolerance/date engine.
//!
//! A `DateTime` is a count of whole seconds relative to the Unix epoch in the
//! proleptic Gregorian calendar. Values are produced by `from_ymd_hm` or by
//! `parse_datetime`, which accepts exactly one template: month/day/year
//! hour:minute, 24-hour clock, no seconds (numeric fields may carry leading
//! whitespace, the month, day, hour and minute take one or two digits, the
//! year up to four).

use vstd::prelude::*;
use vstd::string::StrSliceExecFns;

use crate::text::{digit_val, is_digit_char, padded_dec, spec_skip_ws, skip_ws};

verus! {

/// Whole seconds since the Unix epoch (1970-01-01 00:00).
#[derive(Debug, Clone, Copy, PartialEq, Eq, Structural)]
pub struct DateTime {
    pub secs: i64,
}

/// Envelope for every value the constructors can produce (years 0 through
/// 9999); keeps the interval arithmetic of the engine free of overflow.
pub const MIN_DATETIME_SECS: i64 = -70000000000;

pub const MAX_DATETIME_SECS: i64 = 400000000000;

impl DateTime {
    pub open spec fn wf(self) -> bool {
        MIN_DATETIME_SECS <= self.secs <= MAX_DATETIME_SECS
    }

    /// The epoch instant, the sentinel that unparseable date cells degrade to.
    pub fn epoch() -> (r: DateTime)
        ensures
            r.secs == 0,
            r.wf(),
    {
        DateTime { secs: 0 }
    }
}

pub open spec fn is_leap_year(y: int) -> bool {
    y % 4 == 0 && (y % 100 != 0 || y % 400 == 0)
}

pub open spec fn days_in_year(y: int) -> int {
    if is_leap_year(y) {
        366
    } else {
        365
    }
}

pub open spec fn days_in_month(y: int, m: int) -> int {
    if m == 2 {
        if is_leap_year(y) {
            29
        } else {
            28
        }
    } else if m == 4 || m == 6 || m == 9 || m == 11 {
        30
    } else {
        31
    }
}

/// Days in all years before `y`, counted from year 0.
pub open spec fn days_before_year(y: int) -> int
    recommends
        y >= 0,
    decreases y,
{
    if y <= 0 {
        0
    } else {
        days_before_year(y - 1) + days_in_year(y - 1)
    }
}

/// Days in all months of year `y` before month `m`.
pub open spec fn days_before_month(y: int, m: int) -> int
    recommends
        1 <= m <= 12,
    decreases m,
{
    if m <= 1 {
        0
    } else {
        days_before_month(y, m - 1) + days_in_month(y, m - 1)
    }
}

/// Day number of a calendar date, counted from 0000-01-01 as day 0.
pub open spec fn civil_day(y: int, m: int, d: int) -> int {
    days_before_year(y) + days_before_month(y, m) + d - 1
}

/// The calendar dates and times the library accepts.
pub open spec fn valid_ymd_hm(y: int, mo: int, d: int, h: int, mi: int) -> bool {
    &&& 0 <= y <= 9999
    &&& 1 <= mo <= 12
    &&& 1 <= d <= days_in_month(y, mo)
    &&& 0 <= h < 24
    &&& 0 <= mi < 60
}

/// Seconds since the epoch of a calendar date and time.
pub open spec fn datetime_secs(y: int, mo: int, d: int, h: int, mi: int) -> int {
    (civil_day(y, mo, d) - civil_day(1970, 1, 1)) * 86400 + h * 3600 + mi * 60
}

pub proof fn lemma_days_before_year_bounds(y: int)
    requires
        y >= 0,
    ensures
        365 * y <= days_before_year(y) <= 366 * y,
    decreases y,
{
    if y > 0 {
        lemma_days_before_year_bounds(y - 1);
    }
}

pub proof fn lemma_days_before_month_bounds(y: int, m: int)
    requires
        1 <= m <= 13,
    ensures
        0 <= days_before_month(y, m) <= 31 * (m - 1),
    decreases m,
{
    if m > 1 {
        lemma_days_before_month_bounds(y, m - 1);
    }
}

fn is_leap_year_exec(y: u64) -> (r: bool)
    ensures
        r == is_leap_year(y as int),
{
    y % 4 == 0 && (y % 100 != 0 || y % 400 == 0)
}

fn days_in_month_exec(y: u64, m: u64) -> (r: u64)
    requires
        1 <= m <= 12,
    ensures
        r == days_in_month(y as int, m as int),
{
    if m == 2 {
        if is_leap_year_exec(y) {
            29
        } else {
            28
        }
    } else if m == 4 || m == 6 || m == 9 || m == 11 {
        30
    } else {
        31
    }
}

fn days_before_year_exec(y: u64) -> (r: u64)
    requires
        y <= 10000,
    ensures
        r == days_before_year(y as int),
{
    proof {
        lemma_days_before_year_bounds(y as int);
    }
    let mut acc: u64 = 0;
    let mut i: u64 = 0;
    while i < y
        invariant
            i <= y <= 10000,
            acc == days_before_year(i as int),
            acc <= 366 * i,
        decreases y - i,
    {
        proof {
            lemma_days_before_year_bounds(i as int);
        }
        if is_leap_year_exec(i) {
            acc = acc + 366;
        } else {
            acc = acc + 365;
        }
        i = i + 1;
    }
    acc
}

fn days_before_month_exec(y: u64, m: u64) -> (r: u64)
    requires
        1 <= m <= 12,
    ensures
        r == days_before_month(y as int, m as int),
        r <= 372,
{
    proof {
        lemma_days_before_month_bounds(y as int, m as int);
    }
    let mut acc: u64 = 0;
    let mut i: u64 = 1;
    while i < m
        invariant
            1 <= i <= m <= 12,
            acc == days_before_month(y as int, i as int),
            acc <= 372,
        decreases m - i,
    {
        proof {
            lemma_days_before_month_bounds(y as int, i as int + 1);
            lemma_days_before_month_bounds(y as int, i as int);
        }
        acc = acc + days_in_month_exec(y, i);
        i = i + 1;
    }
    acc
}

/// Builds a `DateTime` from calendar components; `None` exactly on dates or
/// times that the Gregorian calendar (years 0 through 9999) does not contain.
pub fn from_ymd_hm(y: u64, mo: u64, d: u64, h: u64, mi: u64) -> (r: Option<DateTime>)
    ensures
        r is Some <==> valid_ymd_hm(y as int, mo as int, d as int, h as int, mi as int),
        r is Some ==> r == Some(
            (DateTime { secs: datetime_secs(y as int, mo as int, d as int, h as int, mi as int) as i64 }),
        ),
        r is Some ==> r.unwrap().wf(),
{
    if y > 9999 || mo < 1 || mo > 12 || h >= 24 || mi >= 60 {
        return None;
    }
    if d < 1 || d > days_in_month_exec(y, mo) {
        return None;
    }
    proof {
        lemma_days_before_year_bounds(y as int);
        lemma_days_before_month_bounds(y as int, mo as int);
        lemma_days_before_year_bounds(1970);
        lemma_days_before_month_bounds(1970, 1);
    }
    let cd: u64 = days_before_year_exec(y) + days_before_month_exec(y, mo) + (d - 1);
    let epoch_day: u64 = days_before_year_exec(1970);
    let days: i64 = cd as i64 - epoch_day as i64;
    let secs: i64 = days * 86400 + (h * 3600 + mi * 60) as i64;
    Some(DateTime { secs })
}

/// The instants the calendar (years 0 through 9999) can express.
pub open spec fn calendar_range(secs: int) -> bool {
    -days_before_year(1970) * 86400 <= secs < (days_before_year(10000) - days_before_year(1970))
        * 86400
}

fn days_in_year_exec(y: u64) -> (r: u64)
    ensures
        r == days_in_year(y as int),
{
    if is_leap_year_exec(y) {
        366
    } else {
        365
    }
}

/// The twelve months of a year sum to the year's length.
proof fn lemma_months_sum(y: int)
    ensures
        days_before_month(y, 13) == days_in_year(y),
{
    assert(days_before_month(y, 1) == 0);
    assert(days_before_month(y, 2) == 31);
    assert(days_before_month(y, 3) == 31 + days_in_month(y, 2));
    assert(days_before_month(y, 4) == 62 + days_in_month(y, 2));
    assert(days_before_month(y, 5) == 92 + days_in_month(y, 2));
    assert(days_before_month(y, 6) == 123 + days_in_month(y, 2));
    assert(days_before_month(y, 7) == 153 + days_in_month(y, 2));
    assert(days_before_month(y, 8) == 184 + days_in_month(y, 2));
    assert(days_before_month(y, 9) == 215 + days_in_month(y, 2));
    assert(days_before_month(y, 10) == 245 + days_in_month(y, 2));
    assert(days_before_month(y, 11) == 276 + days_in_month(y, 2));
    assert(days_before_month(y, 12) == 306 + days_in_month(y, 2));
    assert(days_before_month(y, 13) == 337 + days_in_month(y, 2));
}

impl DateTime {
    /// The calendar components of this instant: year, month, day, hour,
    /// minute and second; `None` exactly outside years 0 through 9999.
    pub fn to_calendar(&self) -> (r: Option<(u64, u64, u64, u64, u64, u64)>)
        requires
            self.wf(),
        ensures
            r is Some <==> calendar_range(self.secs as int),
            r matches Some(c) ==> ({
                &&& valid_ymd_hm(c.0 as int, c.1 as int, c.2 as int, c.3 as int, c.4 as int)
                &&& c.5 < 60
                &&& datetime_secs(c.0 as int, c.1 as int, c.2 as int, c.3 as int, c.4 as int)
                    + c.5 == self.secs
            }),
    {
        proof {
            lemma_days_before_year_bounds(1970);
            lemma_days_before_year_bounds(10000);
        }
        let epoch_day: u64 = days_before_year_exec(1970);
        let year0_offset: i64 = epoch_day as i64 * 86400;
        if self.secs < -year0_offset {
            return None;
        }
        let total: u64 = (self.secs + year0_offset) as u64;
        let limit: u64 = days_before_year_exec(10000);
        let days: u64 = total / 86400;
        if days >= limit {
            return None;
        }
        let rem: u64 = total % 86400;
        let h: u64 = rem / 3600;
        let mi: u64 = (rem % 3600) / 60;
        let s: u64 = rem % 60;
        let mut y: u64 = 0;
        let mut dleft: u64 = days;
        while dleft >= days_in_year_exec(y)
            invariant
                y <= 9999,
                days == days_before_year(y as int) + dleft,
                days < days_before_year(10000),
            decreases dleft,
        {
            proof {
                if y == 9999 {
                    assert(days_before_year(10000) == days_before_year(9999) + days_in_year(
                        9999,
                    ));
                    assert(false);
                }
            }
            dleft = dleft - days_in_year_exec(y);
            y = y + 1;
        }
        proof {
            lemma_months_sum(y as int);
            lemma_days_before_month_bounds(y as int, 13);
        }
        let mut mo: u64 = 1;
        while mo < 12 && dleft >= days_in_month_exec(y, mo)
            invariant
                1 <= mo <= 12,
                y <= 9999,
                days == days_before_year(y as int) + days_before_month(y as int, mo as int)
                    + dleft,
                days_before_month(y as int, mo as int) + dleft < days_in_year(y as int),
            decreases 12 - mo,
        {
            dleft = dleft - days_in_month_exec(y, mo);
            mo = mo + 1;
        }
        proof {
            if mo == 12 {
                lemma_months_sum(y as int);
                assert(days_before_month(y as int, 13) == days_before_month(y as int, 12)
                    + days_in_month(y as int, 12));
            }
            assert(dleft < days_in_month(y as int, mo as int));
        }
        let d: u64 = dleft + 1;
        Some((y, mo, d, h, mi, s))
    }
}

/// The calendar parts rendered as `YYYY-MM-DD HH:MM:SS`.
pub open spec fn spec_calendar_display(y: int, mo: int, d: int, h: int, mi: int, s: int) -> Seq<
    char,
> {
    padded_dec(y, 4) + seq!['-'] + padded_dec(mo, 2) + seq!['-'] + padded_dec(d, 2) + seq![' ']
        + padded_dec(h, 2) + seq![':'] + padded_dec(mi, 2) + seq![':'] + padded_dec(s, 2)
}

/// What the display of an instant must be: its calendar form inside the
/// calendar's years, the raw second count (with an `s` suffix) outside.
pub open spec fn is_display_of_instant(secs: int, out: Seq<char>) -> bool {
    if calendar_range(secs) {
        exists|y: int, mo: int, d: int, h: int, mi: int, s: int|
            {
                &&& valid_ymd_hm(y, mo, d, h, mi)
                &&& 0 <= s < 60
                &&& datetime_secs(y, mo, d, h, mi) + s == secs
                &&& out == #[trigger] spec_calendar_display(y, mo, d, h, mi, s)
            }
    } else {
        out == crate::text::int_str(secs) + "s"@
    }
}

impl DateTime {
    /// Renders the instant as `YYYY-MM-DD HH:MM:SS`; outside years 0 through
    /// 9999 the raw second count is rendered instead.
    pub fn to_display_string(&self) -> (r: String)
        requires
            self.wf(),
        ensures
            is_display_of_instant(self.secs as int, r@),
    {
        match self.to_calendar() {
            Some((y, mo, d, h, mi, s)) => {
                let mut r = crate::text::u64_to_padded_string(y, 4);
                let part_mo = crate::text::u64_to_padded_string(mo, 2);
                let part_d = crate::text::u64_to_padded_string(d, 2);
                let part_h = crate::text::u64_to_padded_string(h, 2);
                let part_mi = crate::text::u64_to_padded_string(mi, 2);
                let part_s = crate::text::u64_to_padded_string(s, 2);
                crate::text::push_char(&mut r, '-');
                r.append(part_mo.as_str());
                crate::text::push_char(&mut r, '-');
                r.append(part_d.as_str());
                crate::text::push_char(&mut r, ' ');
                r.append(part_h.as_str());
                crate::text::push_char(&mut r, ':');
                r.append(part_mi.as_str());
                crate::text::push_char(&mut r, ':');
                r.append(part_s.as_str());
                proof {
                    assert(r@ =~= padded_dec(y as int, 4) + seq!['-'] + padded_dec(mo as int, 2)
                        + seq!['-'] + padded_dec(d as int, 2) + seq![' '] + padded_dec(
                        h as int,
                        2,
                    ) + seq![':'] + padded_dec(mi as int, 2) + seq![':'] + padded_dec(s as int, 2));
                    assert(spec_calendar_display(
                        y as int,
                        mo as int,
                        d as int,
                        h as int,
                        mi as int,
                        s as int,
                    ) == padded_dec(y as int, 4) + seq!['-'] + padded_dec(mo as int, 2) + seq!['-']
                        + padded_dec(d as int, 2) + seq![' '] + padded_dec(h as int, 2) + seq![':']
                        + padded_dec(mi as int, 2) + seq![':'] + padded_dec(s as int, 2));
                }
                r
            },
            None => {
                let mut r = crate::text::i64_to_string(self.secs);
                crate::text::push_char(&mut r, 's');
                proof {
                    reveal_strlit("s");
                    assert(r@ =~= crate::text::int_str(self.secs as int) + "s"@);
                }
                r
            },
        }
    }
}

// ---------------------------------------------------------------------------
// Scanning and parsing of the fixed date template.
// ---------------------------------------------------------------------------
/// End of a run of at most `max` decimal digits starting at `i`.
pub open spec fn spec_digits_end(s: Seq<char>, i: int, max: int) -> int
    decreases max,
{
    if max <= 0 || !(0 <= i < s.len()) || !is_digit_char(s[i]) {
        i
    } else {
        spec_digits_end(s, i + 1, max - 1)
    }
}

/// Value of the decimal digits in `s[i..j]`.
pub open spec fn spec_num_val(s: Seq<char>, i: int, j: int) -> int
    decreases j - i,
{
    if j <= i {
        0
    } else {
        spec_num_val(s, i, j - 1) * 10 + digit_val(s[j - 1])
    }
}

pub open spec fn pow10(k: int) -> int
    decreases k,
{
    if k <= 0 {
        1
    } else {
        10 * pow10(k - 1)
    }
}

proof fn lemma_digits_end_bounds(s: Seq<char>, i: int, max: int)
    requires
        0 <= i <= s.len(),
        max >= 0,
    ensures
        i <= spec_digits_end(s, i, max) <= s.len(),
        spec_digits_end(s, i, max) - i <= max,
    decreases max,
{
    if !(max <= 0 || !(0 <= i < s.len()) || !is_digit_char(s[i])) {
        lemma_digits_end_bounds(s, i + 1, max - 1);
    }
}

proof fn lemma_num_val_bound(s: Seq<char>, i: int, j: int)
    requires
        i <= j,
        forall|k: int| i <= k < j ==> 0 <= #[trigger] digit_val(s[k]) <= 9,
    ensures
        0 <= spec_num_val(s, i, j) < pow10(j - i),
    decreases j - i,
{
    if j > i {
        lemma_num_val_bound(s, i, j - 1);
        assert(pow10(j - i) == 10 * pow10(j - i - 1));
    }
}

fn is_digit(c: char) -> (r: bool)
    ensures
        r == is_digit_char(c),
{
    let u = c as u32;
    48 <= u && u <= 57
}

/// Reads a greedy run of at most `max` digits starting at `i`, returning the
/// end position and the value; `n` is the character length of `s`.
fn scan_number(s: &str, i: usize, n: usize, max: usize) -> (r: (usize, u64))
    requires
        n == s@.len(),
        i <= n,
        1 <= max <= 4,
    ensures
        r.0 == spec_digits_end(s@, i as int, max as int),
        i <= r.0 <= n,
        r.1 == spec_num_val(s@, i as int, r.0 as int),
        r.1 <= 9999,
{
    let mut j = i;
    let mut v: u64 = 0;
    proof {
        assert(pow10(0) == 1);
        assert(pow10(1) == 10);
        assert(pow10(2) == 100);
        assert(pow10(3) == 1000);
        assert(pow10(4) == 10000);
    }
    while j < n && j - i < max && is_digit(s.get_char(j))
        invariant
            i <= j <= n,
            j - i <= max <= 4,
            n == s@.len(),
            spec_digits_end(s@, i as int, max as int) == spec_digits_end(
                s@,
                j as int,
                max as int - (j - i),
            ),
            v == spec_num_val(s@, i as int, j as int),
            forall|k: int| i <= k < j ==> is_digit_char(s@[k]),
            v < pow10(j - i),
            pow10(j - i) <= 10000,
        decreases n - j,
    {
        let c = s.get_char(j);
        let d = (c as u32 - 48) as u64;
        proof {
            assert(d == digit_val(s@[j as int]));
            assert(pow10(j + 1 - i) == 10 * pow10(j - i));
            assert(pow10(0) == 1);
            assert(pow10(1) == 10);
            assert(pow10(2) == 100);
            assert(pow10(3) == 1000);
            assert(pow10(4) == 10000);
            assert(pow10(j + 1 - i) <= pow10(4)) by {
                lemma_pow10_mono(j + 1 - i, 4);
            }
        }
        v = v * 10 + d;
        j = j + 1;
    }
    proof {
        if j < n && j - i < max {
            assert(!is_digit_char(s@[j as int]));
        }
        assert(spec_digits_end(s@, j as int, max as int - (j - i)) == j);
        assert(forall|k: int| i <= k < j ==> 0 <= #[trigger] digit_val(s@[k]) <= 9);
        lemma_num_val_bound(s@, i as int, j as int);
    }
    (j, v)
}

proof fn lemma_pow10_mono(a: int, b: int)
    requires
        a <= b,
    ensures
        pow10(a) <= pow10(b),
    decreases b - a,
{
    if a < b {
        lemma_pow10_mono(a, b - 1);
        lemma_pow10_pos(b - 1);
        if b > 0 {
            assert(pow10(b) == 10 * pow10(b - 1));
        }
    }
}

proof fn lemma_pow10_pos(k: int)
    ensures
        pow10(k) >= 1,
    decreases k,
{
    if k > 0 {
        lemma_pow10_pos(k - 1);
    }
}

/// The fields read from a string that matches the fixed date template, in
/// template order: month, day, year, hour, minute.
pub open spec fn parse_mdyhm(s: Seq<char>) -> Option<(int, int, int, int, int)> {
    let n = s.len() as int;
    let a0 = spec_skip_ws(s, 0);
    let e0 = spec_digits_end(s, a0, 2);
    let mo = spec_num_val(s, a0, e0);
    if e0 == a0 || !(e0 < n && s[e0] == '/') {
        None
    } else {
        let a1 = spec_skip_ws(s, e0 + 1);
        let e1 = spec_digits_end(s, a1, 2);
        let d = spec_num_val(s, a1, e1);
        if e1 == a1 || !(e1 < n && s[e1] == '/') {
            None
        } else {
            let a2 = spec_skip_ws(s, e1 + 1);
            let e2 = spec_digits_end(s, a2, 4);
            let y = spec_num_val(s, a2, e2);
            if e2 == a2 {
                None
            } else {
                let a3 = spec_skip_ws(s, e2);
                let e3 = spec_digits_end(s, a3, 2);
                let h = spec_num_val(s, a3, e3);
                if e3 == a3 || !(e3 < n && s[e3] == ':') {
                    None
                } else {
                    let a4 = spec_skip_ws(s, e3 + 1);
                    let e4 = spec_digits_end(s, a4, 2);
                    let mi = spec_num_val(s, a4, e4);
                    if e4 == a4 || e4 != n {
                        None
                    } else {
                        Some((mo, d, y, h, mi))
                    }
                }
            }
        }
    }
}

/// `Some` exactly on text that matches the template and names a date the
/// calendar contains; the value is that instant.
pub open spec fn spec_parse_datetime(s: Seq<char>) -> Option<DateTime> {
    match parse_mdyhm(s) {
        None => None,
        Some((mo, d, y, h, mi)) => if valid_ymd_hm(y, mo, d, h, mi) {
            Some((DateTime { secs: datetime_secs(y, mo, d, h, mi) as i64 }))
        } else {
            None
        },
    }
}

/// Parses the fixed template `month/day/year hour:minute`.
pub fn parse_datetime(s: &str) -> (r: Option<DateTime>)
    ensures
        r == spec_parse_datetime(s@),
        r is Some ==> r.unwrap().wf(),
{
    let n = s.unicode_len();
    let a0 = skip_ws(s, 0, n);
    let (e0, mo) = scan_number(s, a0, n, 2);
    if e0 == a0 || !(e0 < n && s.get_char(e0) == '/') {
        return None;
    }
    let a1 = skip_ws(s, e0 + 1, n);
    let (e1, d) = scan_number(s, a1, n, 2);
    if e1 == a1 || !(e1 < n && s.get_char(e1) == '/') {
        return None;
    }
    let a2 = skip_ws(s, e1 + 1, n);
    let (e2, y) = scan_number(s, a2, n, 4);
    if e2 == a2 {
        return None;
    }
    let a3 = skip_ws(s, e2, n);
    let (e3, h) = scan_number(s, a3, n, 2);
    if e3 == a3 || !(e3 < n && s.get_char(e3) == ':') {
        return None;
    }
    let a4 = skip_ws(s, e3 + 1, n);
    let (e4, mi) = scan_number(s, a4, n, 2);
    if e4 == a4 || e4 != n {
        return None;
    }
    from_ymd_hm(y, mo, d, h, mi)
}

// ---------------------------------------------------------------------------
// Midpoint and tolerance.
// ---------------------------------------------------------------------------
pub open spec fn abs_i(x: int) -> int {
    if x < 0 {
        -x
    } else {
        x
    }
}

/// Instant halfway between `a` and `b`, with the sub-second remainder
/// truncated toward the earlier instant.
pub open spec fn midpoint_secs(a: int, b: int) -> int {
    if a <= b {
        a + (b - a) / 2
    } else {
        b + (a - b) / 2
    }
}

/// Minutes between two instants, truncated toward zero, signed.
pub open spec fn diff_minutes(a: int, b: int) -> int {
    if a >= b {
        (a - b) / 60
    } else {
        -((b - a) / 60)
    }
}

/// The fixed five-bucket quantization of a minute distance.
pub open spec fn tolerance_bucket(d: int) -> int {
    if d <= 0 {
        0
    } else if d <= 15 {
        15
    } else if d <= 30 {
        30
    } else if d <= 60 {
        60
    } else {
        120
    }
}

/// Tolerance of a delivery window: the distance from either edge to the exact
/// midpoint, in whole minutes, pushed through the bucket table. The exact
/// midpoint sits `|a - b| / 2` seconds from each edge, so the truncated minute
/// distance is `|a - b| / 120`.
pub open spec fn tolerance_secs(a: int, b: int) -> int {
    tolerance_bucket(abs_i(a - b) / 120)
}

/// Calculate the middle between two dates; the order of the arguments does
/// not matter, and equal dates return that same date.
pub fn middle_between_dates(date1: DateTime, date2: DateTime) -> (r: DateTime)
    requires
        date1.wf(),
        date2.wf(),
    ensures
        r.secs == midpoint_secs(date1.secs as int, date2.secs as int),
        r.wf(),
{
    let (a, b) = if date1.secs <= date2.secs {
        (date1, date2)
    } else {
        (date2, date1)
    };
    let delta: u64 = (b.secs - a.secs) as u64;
    let half: i64 = (delta / 2) as i64;
    DateTime { secs: a.secs + half }
}

/// Calculate the difference between two dates in whole minutes, truncated
/// toward zero; positive when the first date is later.
pub fn difference_in_minutes(date1: DateTime, date2: DateTime) -> (r: i64)
    requires
        date1.wf(),
        date2.wf(),
    ensures
        r == diff_minutes(date1.secs as int, date2.secs as int),
{
    if date1.secs >= date2.secs {
        ((date1.secs - date2.secs) as u64 / 60) as i64
    } else {
        -(((date2.secs - date1.secs) as u64 / 60) as i64)
    }
}

/// Tolerance from one window edge and an already-computed middle date.
pub fn calculate_tolerance_middle_date(edge_date: DateTime, middle_date: DateTime) -> (r: i32)
    requires
        edge_date.wf(),
        middle_date.wf(),
    ensures
        r == tolerance_bucket(abs_i(diff_minutes(edge_date.secs as int, middle_date.secs as int))),
{
    let m = difference_in_minutes(edge_date, middle_date);
    let difference = if m < 0 {
        -m
    } else {
        m
    };
    if difference <= 0 {
        0
    } else if difference <= 15 {
        15
    } else if difference <= 30 {
        30
    } else if difference <= 60 {
        60
    } else {
        120
    }
}

/// Tolerance of the window between an early and a late date. The distance
/// from an edge to the exact midpoint is half the window; its whole-minute
/// count is the window length divided by 120 seconds.
pub fn calculate_tolerance(early_date: DateTime, late_date: DateTime) -> (r: i32)
    requires
        early_date.wf(),
        late_date.wf(),
    ensures
        r == tolerance_secs(early_date.secs as int, late_date.secs as int),
{
    let delta: u64 = if early_date.secs >= late_date.secs {
        (early_date.secs - late_date.secs) as u64
    } else {
        (late_date.secs - early_date.secs) as u64
    };
    let d = delta / 120;
    if d <= 0 {
        0
    } else if d <= 15 {
        15
    } else if d <= 30 {
        30
    } else if d <= 60 {
        60
    } else {
        120
    }
}

// ---------------------------------------------------------------------------
// Laws of the engine.
// ---------------------------------------------------------------------------
/// The midpoint of two instants does not depend on their order, and the
/// midpoint of an instant with itself is that instant.
pub proof fn lemma_midpoint_symmetric(a: int, b: int)
    ensures
        midpoint_secs(a, b) == midpoint_secs(b, a),
        midpoint_secs(a, a) == a,
{
}

/// The tolerance of a window is symmetric in its two edges, and is always one
/// of 0, 15, 30, 60 or 120.
pub proof fn lemma_tolerance_symmetric_and_bucketed(a: int, b: int)
    ensures
        tolerance_secs(a, b) == tolerance_secs(b, a),
        tolerance_secs(a, b) == 0 || tolerance_secs(a, b) == 15 || tolerance_secs(a, b) == 30
            || tolerance_secs(a, b) == 60 || tolerance_secs(a, b) == 120,
{
}

} // verus!
