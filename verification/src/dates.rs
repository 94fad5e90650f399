//! Validated Gregorian calendar dates.
//!
//! A date is a (year, month, day) triple; only genuine calendar dates in the
//! years 1 through 9999 (leap years accounted for) are valid. Dates are
//! parsed from and rendered to the `YYYY-MM-DD` form, numbered by their
//! distance in days from the first supported day, and stepped to the next
//! calendar day when a range is walked.

use vstd::prelude::*;
use vstd::arithmetic::div_mod::{
    lemma_fundamental_div_mod, lemma_fundamental_div_mod_converse, lemma_mod_pos_bound,
};

verus! {

/// A Gregorian calendar date.
#[derive(Clone, Copy, PartialEq, Eq, Structural, Debug)]
pub struct CalendarDate {
    pub year: u16,
    pub month: u8,
    pub day: u8,
}

/// Gregorian leap-year rule.
pub open spec fn is_leap_year(y: int) -> bool {
    y % 4 == 0 && (y % 100 != 0 || y % 400 == 0)
}

/// The number of days of month `m` of year `y`.
pub open spec fn days_in_month(y: int, m: int) -> int
    recommends
        1 <= m <= 12,
{
    if m == 2 {
        if is_leap_year(y) {
            29
        } else {
            28
        }
    } else if m == 4 || m == 6 || m == 9 || m == 11 {
        30
    } else {
        31
    }
}

/// A genuine calendar date within the supported span of years.
pub open spec fn valid_date(d: CalendarDate) -> bool {
    &&& 1 <= d.year <= 9999
    &&& 1 <= d.month <= 12
    &&& 1 <= d.day <= days_in_month(d.year as int, d.month as int)
}

/// The number of days of year `y`.
pub open spec fn days_in_year(y: int) -> int {
    if is_leap_year(y) {
        366
    } else {
        365
    }
}

/// The number of days of all years before year `y`, counting from year 1.
pub open spec fn days_before_year(y: int) -> int
    recommends
        1 <= y,
    decreases y,
{
    if y <= 1 {
        0
    } else {
        days_before_year(y - 1) + days_in_year(y - 1)
    }
}

/// The number of days of year `y` that precede month `m`.
pub open spec fn days_before_month(y: int, m: int) -> int
    recommends
        1 <= m <= 12,
{
    let base: int = if m == 1 {
        0
    } else if m == 2 {
        31
    } else if m == 3 {
        59
    } else if m == 4 {
        90
    } else if m == 5 {
        120
    } else if m == 6 {
        151
    } else if m == 7 {
        181
    } else if m == 8 {
        212
    } else if m == 9 {
        243
    } else if m == 10 {
        273
    } else if m == 11 {
        304
    } else {
        334
    };
    base + (if m >= 3 && is_leap_year(y) {
        1int
    } else {
        0int
    })
}

/// The position of `d` within its year, starting at 1 for January 1st.
pub open spec fn day_of_year(d: CalendarDate) -> int {
    days_before_month(d.year as int, d.month as int) + d.day
}

/// Days between the first supported day (year 1, January 1st) and `d`.
pub open spec fn day_number(d: CalendarDate) -> int {
    days_before_year(d.year as int) + day_of_year(d) - 1
}

/// The last supported date.
pub open spec fn max_date() -> CalendarDate {
    CalendarDate { year: 9999, month: 12, day: 31 }
}

/// The calendar day after `d`.
pub open spec fn spec_next_day(d: CalendarDate) -> CalendarDate {
    if d.day < days_in_month(d.year as int, d.month as int) {
        CalendarDate { year: d.year, month: d.month, day: (d.day + 1) as u8 }
    } else if d.month < 12 {
        CalendarDate { year: d.year, month: (d.month + 1) as u8, day: 1 }
    } else {
        CalendarDate { year: (d.year + 1) as u16, month: 1, day: 1 }
    }
}

/// The calendar day `n` days after `d`.
pub open spec fn nth_next_day(d: CalendarDate, n: int) -> CalendarDate
    decreases n,
{
    if n <= 0 {
        d
    } else {
        spec_next_day(nth_next_day(d, n - 1))
    }
}

/// Within its year, a valid date sits between day 1 and the year's length.
proof fn lemma_day_of_year_bounds(d: CalendarDate)
    requires
        valid_date(d),
    ensures
        1 <= day_of_year(d) <= days_in_year(d.year as int),
{
}

/// Year day counts accumulate monotonically.
proof fn lemma_days_before_year_mono(y1: int, y2: int)
    requires
        1 <= y1 <= y2,
    ensures
        days_before_year(y1) <= days_before_year(y2),
    decreases y2,
{
    if y1 < y2 {
        lemma_days_before_year_mono(y1, y2 - 1);
    }
}

/// No year holds more than 366 days.
proof fn lemma_days_before_year_upper(y: int)
    requires
        1 <= y,
    ensures
        days_before_year(y) <= 366 * (y - 1),
    decreases y,
{
    if y > 1 {
        lemma_days_before_year_upper(y - 1);
    }
}

/// Every valid date's number lies between the numbers of the first and last
/// supported dates, and under 3,660,000.
pub proof fn lemma_day_number_bounds(d: CalendarDate)
    requires
        valid_date(d),
    ensures
        0 <= day_number(d) <= day_number(max_date()),
        day_number(d) < 3660000,
{
    lemma_day_of_year_bounds(d);
    assert(days_before_year(d.year as int) >= 0) by {
        lemma_days_before_year_mono(1, d.year as int);
    }
    assert(days_before_year(d.year as int + 1) == days_before_year(d.year as int) + days_in_year(
        d.year as int,
    ));
    lemma_days_before_year_mono(d.year as int + 1, 10000);
    assert(days_before_year(10000) == days_before_year(9999) + days_in_year(9999));
    assert(!is_leap_year(9999));
    lemma_days_before_year_upper(d.year as int);
}

/// Stepping to the next calendar day raises the day number by exactly one,
/// and stays within the supported span unless `d` is its last day.
pub proof fn lemma_next_day_number(d: CalendarDate)
    requires
        valid_date(d),
    ensures
        day_number(spec_next_day(d)) == day_number(d) + 1,
        d != max_date() ==> valid_date(spec_next_day(d)),
{
    if d.day < days_in_month(d.year as int, d.month as int) {
    } else if d.month < 12 {
    } else {
        assert(day_of_year(d) == days_in_year(d.year as int));
        assert(days_before_year(d.year as int + 1) == days_before_year(d.year as int)
            + days_in_year(d.year as int));
    }
}

/// Walking `n` days forward raises the day number by exactly `n`, and stays
/// within the supported span as long as the target number does.
pub proof fn lemma_nth_next_day_number(d: CalendarDate, n: int)
    requires
        valid_date(d),
        0 <= n,
        day_number(d) + n <= day_number(max_date()),
    ensures
        valid_date(nth_next_day(d, n)),
        day_number(nth_next_day(d, n)) == day_number(d) + n,
    decreases n,
{
    if n > 0 {
        lemma_nth_next_day_number(d, n - 1);
        let prev = nth_next_day(d, n - 1);
        lemma_next_day_number(prev);
        if prev == max_date() {
            lemma_day_number_bounds(prev);
        }
    }
}

/// Gregorian leap-year test.
pub fn is_leap(y: u16) -> (b: bool)
    ensures
        b == is_leap_year(y as int),
{
    y % 4 == 0 && (y % 100 != 0 || y % 400 == 0)
}

/// The number of days of month `m` of year `y`.
pub fn month_days(y: u16, m: u8) -> (r: u8)
    requires
        1 <= m <= 12,
    ensures
        r as int == days_in_month(y as int, m as int),
{
    if m == 2 {
        if is_leap(y) {
            29
        } else {
            28
        }
    } else if m == 4 || m == 6 || m == 9 || m == 11 {
        30
    } else {
        31
    }
}

/// The calendar day after `d`.
pub fn next_day(d: CalendarDate) -> (r: CalendarDate)
    requires
        valid_date(d),
    ensures
        r == spec_next_day(d),
{
    let dim = month_days(d.year, d.month);
    if d.day < dim {
        CalendarDate { year: d.year, month: d.month, day: d.day + 1 }
    } else if d.month < 12 {
        CalendarDate { year: d.year, month: d.month + 1, day: 1 }
    } else {
        CalendarDate { year: d.year + 1, month: 1, day: 1 }
    }
}

/// The day number of `d`: its distance in days from year 1, January 1st.
pub fn day_number_of(d: CalendarDate) -> (n: u32)
    requires
        valid_date(d),
    ensures
        n as int == day_number(d),
{
    let mut acc: u32 = 0;
    let mut y: u16 = 1;
    while y < d.year
        invariant
            1 <= y <= d.year,
            acc as int == days_before_year(y as int),
            acc as int <= 366 * (y as int - 1),
        decreases d.year - y,
    {
        acc = acc + (if is_leap(y) {
            366
        } else {
            365
        });
        y += 1;
    }
    let before_month: u32 = (if d.month == 1 {
        0
    } else if d.month == 2 {
        31
    } else if d.month == 3 {
        59
    } else if d.month == 4 {
        90
    } else if d.month == 5 {
        120
    } else if d.month == 6 {
        151
    } else if d.month == 7 {
        181
    } else if d.month == 8 {
        212
    } else if d.month == 9 {
        243
    } else if d.month == 10 {
        273
    } else if d.month == 11 {
        304
    } else {
        334
    }) + (if d.month >= 3 && is_leap(d.year) {
        1
    } else {
        0
    });
    proof {
        lemma_days_before_year_upper(d.year as int);
    }
    acc + before_month + d.day as u32 - 1
}

/// A decimal digit byte.
pub open spec fn is_digit(b: u8) -> bool {
    48 <= b <= 57
}

/// The two ASCII digits of `n` (0 through 99), tens first.
pub open spec fn digits2(n: int) -> Seq<u8> {
    seq![(48 + n / 10) as u8, (48 + n % 10) as u8]
}

/// The four ASCII digits of `n` (0 through 9999), thousands first.
pub open spec fn digits4(n: int) -> Seq<u8> {
    seq![
        (48 + n / 1000) as u8,
        (48 + (n / 100) % 10) as u8,
        (48 + (n / 10) % 10) as u8,
        (48 + n % 10) as u8,
    ]
}

/// The canonical `YYYY-MM-DD` rendering of `d`, as ASCII bytes.
pub open spec fn spec_date_bytes(d: CalendarDate) -> Seq<u8> {
    digits4(d.year as int) + seq![45u8] + digits2(d.month as int) + seq![45u8] + digits2(
        d.day as int,
    )
}

/// The canonical `YYYY-MM-DD` rendering of `d`, as characters.
pub open spec fn spec_date_string(d: CalendarDate) -> Seq<char> {
    spec_date_bytes(d).map_values(|b: u8| b as char)
}

/// `YYYY-MM-DD` shape: ten bytes, hyphens at positions 4 and 7, decimal
/// digits everywhere else.
pub open spec fn date_format_ok(s: Seq<u8>) -> bool {
    &&& s.len() == 10
    &&& is_digit(s[0])
    &&& is_digit(s[1])
    &&& is_digit(s[2])
    &&& is_digit(s[3])
    &&& s[4] == 45
    &&& is_digit(s[5])
    &&& is_digit(s[6])
    &&& s[7] == 45
    &&& is_digit(s[8])
    &&& is_digit(s[9])
}

/// The field values a well-formed `YYYY-MM-DD` byte string carries.
pub open spec fn parsed_date(s: Seq<u8>) -> CalendarDate
    recommends
        date_format_ok(s),
{
    CalendarDate {
        year: (1000 * (s[0] - 48) + 100 * (s[1] - 48) + 10 * (s[2] - 48) + (s[3] - 48)) as u16,
        month: (10 * (s[5] - 48) + (s[6] - 48)) as u8,
        day: (10 * (s[8] - 48) + (s[9] - 48)) as u8,
    }
}

/// The date a byte string denotes: `Some` exactly when the string has the
/// `YYYY-MM-DD` shape and names a genuine calendar date.
pub open spec fn spec_parse_date(s: Seq<u8>) -> Option<CalendarDate> {
    if date_format_ok(s) && valid_date(parsed_date(s)) {
        Some(parsed_date(s))
    } else {
        None
    }
}

/// Decimal digit test.
fn digit_byte(b: u8) -> (r: bool)
    ensures
        r == is_digit(b),
{
    48 <= b && b <= 57
}

/// Parse a `YYYY-MM-DD` byte string into a validated date.
pub fn parse_date(s: &Vec<u8>) -> (r: Option<CalendarDate>)
    ensures
        r == spec_parse_date(s@),
{
    if s.len() != 10 {
        return None;
    }
    let shape = digit_byte(s[0]) && digit_byte(s[1]) && digit_byte(s[2]) && digit_byte(s[3]) && s[4]
        == 45 && digit_byte(s[5]) && digit_byte(s[6]) && s[7] == 45 && digit_byte(s[8])
        && digit_byte(s[9]);
    if !shape {
        return None;
    }
    let year: u16 = 1000 * ((s[0] - 48) as u16) + 100 * ((s[1] - 48) as u16) + 10 * ((s[2]
        - 48) as u16) + (s[3] - 48) as u16;
    let month: u8 = 10 * (s[5] - 48) + (s[6] - 48);
    let day: u8 = 10 * (s[8] - 48) + (s[9] - 48);
    if year < 1 {
        return None;
    }
    if month < 1 || month > 12 {
        return None;
    }
    if day < 1 || day > month_days(year, month) {
        return None;
    }
    Some(CalendarDate { year, month, day })
}

/// Render `d` in its canonical `YYYY-MM-DD` form.
pub fn date_string(d: CalendarDate) -> (r: String)
    requires
        valid_date(d),
    ensures
        r@ == spec_date_string(d),
{
    let mut v: Vec<u8> = Vec::new();
    v.push(48 + (d.year / 1000) as u8);
    v.push(48 + ((d.year / 100) % 10) as u8);
    v.push(48 + ((d.year / 10) % 10) as u8);
    v.push(48 + (d.year % 10) as u8);
    v.push(45);
    v.push(48 + d.month / 10);
    v.push(48 + d.month % 10);
    v.push(45);
    v.push(48 + d.day / 10);
    v.push(48 + d.day % 10);
    assert(v@ =~= spec_date_bytes(d));
    assert(forall|i: int| 0 <= i < v@.len() ==> v@[i] < 128);
    crate::text::ascii_bytes_to_string(v)
}

/// A two-digit number splits into its decimal digits, and the digits
/// determine it.
proof fn lemma_digit_split2(n: int)
    requires
        0 <= n < 100,
    ensures
        0 <= n / 10 < 10,
        0 <= n % 10 < 10,
        10 * (n / 10) + n % 10 == n,
{
    lemma_fundamental_div_mod(n, 10);
    lemma_mod_pos_bound(n, 10);
}

/// A four-digit number splits into its decimal digits, and the digits
/// determine it.
proof fn lemma_digit_split4(y: int)
    requires
        0 <= y < 10000,
    ensures
        0 <= y / 1000 < 10,
        0 <= (y / 100) % 10 < 10,
        0 <= (y / 10) % 10 < 10,
        0 <= y % 10 < 10,
        1000 * (y / 1000) + 100 * ((y / 100) % 10) + 10 * ((y / 10) % 10) + y % 10 == y,
{
    let a = y / 1000;
    let r1 = y % 1000;
    lemma_fundamental_div_mod(y, 1000);
    lemma_mod_pos_bound(y, 1000);
    let b = r1 / 100;
    let r2 = r1 % 100;
    lemma_fundamental_div_mod(r1, 100);
    lemma_mod_pos_bound(r1, 100);
    let c = r2 / 10;
    let e = r2 % 10;
    lemma_fundamental_div_mod(r2, 10);
    lemma_mod_pos_bound(r2, 10);
    lemma_fundamental_div_mod_converse(y, 100, 10 * a + b, r2);
    lemma_fundamental_div_mod_converse(10 * a + b, 10, a, b);
    lemma_fundamental_div_mod_converse(y, 10, 100 * a + 10 * b + c, e);
    lemma_fundamental_div_mod_converse(100 * a + 10 * b + c, 10, 10 * a + b, c);
}

/// Rendering a valid date and parsing the rendering gives the date back:
/// the canonical form is faithful, and canonical forms of distinct dates
/// are distinct.
pub proof fn lemma_date_string_round_trip(d: CalendarDate)
    requires
        valid_date(d),
    ensures
        spec_parse_date(spec_date_bytes(d)) == Some(d),
{
    let s = spec_date_bytes(d);
    lemma_digit_split4(d.year as int);
    lemma_digit_split2(d.month as int);
    lemma_digit_split2(d.day as int);
    assert(date_format_ok(s));
    assert(parsed_date(s).year as int == d.year as int);
    assert(parsed_date(s).month as int == d.month as int);
    assert(parsed_date(s).day as int == d.day as int);
}

/// The date packed into the cipher's 8-byte plaintext block: the ASCII
/// digits of the month, the day, and the full year, in that order.
pub open spec fn spec_encode_date(d: CalendarDate) -> Seq<u8> {
    digits2(d.month as int) + digits2(d.day as int) + digits4(d.year as int)
}

/// Pack `d` into the cipher's 8-byte plaintext block.
pub fn encode_date(d: CalendarDate) -> (b: Vec<u8>)
    requires
        valid_date(d),
    ensures
        b@ == spec_encode_date(d),
        b@.len() == 8,
{
    let mut v: Vec<u8> = Vec::new();
    v.push(48 + d.month / 10);
    v.push(48 + d.month % 10);
    v.push(48 + d.day / 10);
    v.push(48 + d.day % 10);
    v.push(48 + (d.year / 1000) as u8);
    v.push(48 + ((d.year / 100) % 10) as u8);
    v.push(48 + ((d.year / 10) % 10) as u8);
    v.push(48 + (d.year % 10) as u8);
    assert(v@ =~= spec_encode_date(d));
    v
}

/// Distinct valid dates pack into distinct plaintext blocks: the packing
/// is lossless over the supported span of years.
pub proof fn lemma_encode_date_injective(d1: CalendarDate, d2: CalendarDate)
    requires
        valid_date(d1),
        valid_date(d2),
        spec_encode_date(d1) == spec_encode_date(d2),
    ensures
        d1 == d2,
{
    let s1 = spec_encode_date(d1);
    let s2 = spec_encode_date(d2);
    lemma_digit_split4(d1.year as int);
    lemma_digit_split2(d1.month as int);
    lemma_digit_split2(d1.day as int);
    lemma_digit_split4(d2.year as int);
    lemma_digit_split2(d2.month as int);
    lemma_digit_split2(d2.day as int);
    assert(s1[0] == s2[0] && s1[1] == s2[1] && s1[2] == s2[2] && s1[3] == s2[3] && s1[4] == s2[4]
        && s1[5] == s2[5] && s1[6] == s2[6] && s1[7] == s2[7]);
    assert(d1.month as int == d2.month as int);
    assert(d1.day as int == d2.day as int);
    assert(d1.year as int == d2.year as int);
}

} // verus!
