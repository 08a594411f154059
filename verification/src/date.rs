use vstd::prelude::*;
use chrono::Datelike;
use vstd::arithmetic::div_mod::{
    lemma_div_denominator, lemma_div_is_ordered, lemma_div_pos_is_pos, lemma_fundamental_div_mod,
    lemma_fundamental_div_mod_converse, lemma_mod_bound,
};

verus! {

/// A proleptic Gregorian calendar date. Series date keys parse into this
/// type, and chart timestamps are computed from it.
#[derive(Clone, Copy, Debug, PartialEq, Eq, Structural)]
pub struct Date {
    pub year: u32,
    pub month: u32,
    pub day: u32,
}

pub open spec fn is_leap_year(y: int) -> bool {
    y % 4 == 0 && (y % 100 != 0 || y % 400 == 0)
}

pub open spec fn days_in_month(y: int, m: int) -> int {
    if m == 2 {
        if is_leap_year(y) {
            29
        } else {
            28
        }
    } else if m == 4 || m == 6 || m == 9 || m == 11 {
        30
    } else {
        31
    }
}

pub open spec fn days_in_year(y: int) -> int {
    if is_leap_year(y) {
        366
    } else {
        365
    }
}

impl Date {
    /// A valid calendar date within the years the provider can name.
    pub open spec fn wf(self) -> bool {
        &&& 1 <= self.year <= 9999
        &&& 1 <= self.month <= 12
        &&& 1 <= self.day <= days_in_month(self.year as int, self.month as int)
    }
}

/// Days in months `1 .. m` of year `y`.
pub open spec fn days_before_month(y: int, m: int) -> int
    decreases m,
{
    if m <= 1 {
        0
    } else {
        days_before_month(y, m - 1) + days_in_month(y, m - 1)
    }
}

/// Days in years `1 .. y`.
pub open spec fn days_before_year(y: int) -> int
    decreases y,
{
    if y <= 1 {
        0
    } else {
        days_before_year(y - 1) + days_in_year(y - 1)
    }
}

/// The rank of a date in the calendar: 0001-01-01 has index 0, and each
/// next day adds one.
pub open spec fn day_index(d: Date) -> int {
    days_before_year(d.year as int) + days_before_month(d.year as int, d.month as int) + d.day - 1
}

/// A whole year's days equal the days of its twelve months.
proof fn lemma_year_months(y: int)
    ensures
        days_before_month(y, 13) == days_in_year(y),
{
    reveal_with_fuel(days_before_month, 14);
}

pub fn is_leap_year_exec(y: u32) -> (r: bool)
    ensures
        r == is_leap_year(y as int),
{
    y % 4 == 0 && (y % 100 != 0 || y % 400 == 0)
}

pub fn days_in_month_exec(y: u32, m: u32) -> (r: u32)
    ensures
        r == days_in_month(y as int, m as int),
{
    if m == 2 {
        if is_leap_year_exec(y) {
            29
        } else {
            28
        }
    } else if m == 4 || m == 6 || m == 9 || m == 11 {
        30
    } else {
        31
    }
}

fn days_in_year_exec(y: u32) -> (r: u32)
    ensures
        r == days_in_year(y as int),
{
    if is_leap_year_exec(y) {
        366
    } else {
        365
    }
}

/// The day index of `d`, executable.
pub fn day_number(d: &Date) -> (r: u32)
    requires
        d.wf(),
    ensures
        r == day_index(*d),
        r <= 3_700_000,
{
    let mut acc: u32 = 0;
    let mut y: u32 = 1;
    while y < d.year
        invariant
            1 <= y <= d.year,
            d.wf(),
            acc == days_before_year(y as int),
            acc <= 366 * (y - 1),
        decreases d.year - y,
    {
        acc = acc + days_in_year_exec(y);
        y = y + 1;
    }
    let mut m: u32 = 1;
    while m < d.month
        invariant
            1 <= m <= d.month,
            d.wf(),
            acc == days_before_year(d.year as int) + days_before_month(d.year as int, m as int),
            acc <= 366 * 9998 + 31 * (m - 1),
        decreases d.month - m,
    {
        acc = acc + days_in_month_exec(d.year, m);
        m = m + 1;
    }
    acc + d.day - 1
}

/// The Unix timestamp, in seconds, of midnight UTC on `d`.
pub open spec fn unix_timestamp(d: Date) -> int {
    (day_index(d) - day_index(Date { year: 1970, month: 1, day: 1 })) * 86400
}

/// The Unix timestamp of midnight UTC on `d`, executable.
pub fn timestamp(d: &Date) -> (r: i64)
    requires
        d.wf(),
    ensures
        r == unix_timestamp(*d),
{
    let epoch = Date { year: 1970, month: 1, day: 1 };
    let di = day_number(d) as i64;
    let de = day_number(&epoch) as i64;
    (di - de) * 86400
}

pub open spec fn is_ascii_digit(c: u8) -> bool {
    48 <= c <= 57
}

pub open spec fn digit_val(c: u8) -> int {
    c - 48
}

pub open spec fn digit_byte(v: int) -> u8 {
    (48 + v) as u8
}

/// The shape `YYYY-MM-DD`: ten bytes, digits around ASCII hyphens.
pub open spec fn date_str_wellformed(s: Seq<u8>) -> bool {
    &&& s.len() == 10
    &&& is_ascii_digit(s[0])
    &&& is_ascii_digit(s[1])
    &&& is_ascii_digit(s[2])
    &&& is_ascii_digit(s[3])
    &&& s[4] == 45
    &&& is_ascii_digit(s[5])
    &&& is_ascii_digit(s[6])
    &&& s[7] == 45
    &&& is_ascii_digit(s[8])
    &&& is_ascii_digit(s[9])
}

pub open spec fn parsed_year(s: Seq<u8>) -> int {
    digit_val(s[0]) * 1000 + digit_val(s[1]) * 100 + digit_val(s[2]) * 10 + digit_val(s[3])
}

pub open spec fn parsed_month(s: Seq<u8>) -> int {
    digit_val(s[5]) * 10 + digit_val(s[6])
}

pub open spec fn parsed_day(s: Seq<u8>) -> int {
    digit_val(s[8]) * 10 + digit_val(s[9])
}

/// What parsing an ISO date string yields: the date its digits name, if
/// the shape is right and the date is a valid calendar date; else nothing.
pub open spec fn spec_parse_date(s: Seq<u8>) -> Option<Date> {
    if date_str_wellformed(s) {
        let d = Date {
            year: parsed_year(s) as u32,
            month: parsed_month(s) as u32,
            day: parsed_day(s) as u32,
        };
        if d.wf() {
            Some(d)
        } else {
            None
        }
    } else {
        None
    }
}

fn byte_is_digit(c: u8) -> (r: bool)
    ensures
        r == is_ascii_digit(c),
{
    48 <= c && c <= 57
}

/// Whether `d` is a valid calendar date, executable.
pub fn valid_date(d: &Date) -> (r: bool)
    ensures
        r == d.wf(),
{
    1 <= d.year && d.year <= 9999 && 1 <= d.month && d.month <= 12 && 1 <= d.day && d.day
        <= days_in_month_exec(d.year, d.month)
}

/// Parse an ISO `YYYY-MM-DD` byte string into a date.
pub fn parse_date(s: &[u8]) -> (r: Option<Date>)
    ensures
        r == spec_parse_date(s@),
{
    if s.len() != 10 {
        return None;
    }
    if !(byte_is_digit(s[0]) && byte_is_digit(s[1]) && byte_is_digit(s[2]) && byte_is_digit(s[3])
        && s[4] == 45 && byte_is_digit(s[5]) && byte_is_digit(s[6]) && s[7] == 45 && byte_is_digit(
        s[8],
    ) && byte_is_digit(s[9])) {
        return None;
    }
    let year: u32 = (s[0] - 48) as u32 * 1000 + (s[1] - 48) as u32 * 100 + (s[2] - 48) as u32 * 10
        + (s[3] - 48) as u32;
    let month: u32 = (s[5] - 48) as u32 * 10 + (s[6] - 48) as u32;
    let day: u32 = (s[8] - 48) as u32 * 10 + (s[9] - 48) as u32;
    let d = Date { year, month, day };
    if valid_date(&d) {
        Some(d)
    } else {
        None
    }
}

/// What formatting a date yields: its ISO `YYYY-MM-DD` byte string.
pub open spec fn spec_format_date(d: Date) -> Seq<u8> {
    seq![
        digit_byte(d.year as int / 1000),
        digit_byte((d.year as int / 100) % 10),
        digit_byte((d.year as int / 10) % 10),
        digit_byte(d.year as int % 10),
        45u8,
        digit_byte(d.month as int / 10),
        digit_byte(d.month as int % 10),
        45u8,
        digit_byte(d.day as int / 10),
        digit_byte(d.day as int % 10),
    ]
}

/// Format a date as its ISO `YYYY-MM-DD` byte string.
pub fn format_date(d: &Date) -> (r: Vec<u8>)
    requires
        d.wf(),
    ensures
        r@ == spec_format_date(*d),
{
    let mut v: Vec<u8> = Vec::new();
    v.push((48 + d.year / 1000) as u8);
    v.push((48 + (d.year / 100) % 10) as u8);
    v.push((48 + (d.year / 10) % 10) as u8);
    v.push((48 + d.year % 10) as u8);
    v.push(45);
    v.push((48 + d.month / 10) as u8);
    v.push((48 + d.month % 10) as u8);
    v.push(45);
    v.push((48 + d.day / 10) as u8);
    v.push((48 + d.day % 10) as u8);
    proof {
        assert(v@ =~= spec_format_date(*d));
    }
    v
}

/// Relies on chrono's `Local::now` and the `Datelike` accessors: the
/// local calendar date's year, with the month in 1..=12 and the day of
/// the month in 1..=31. The value depends on the clock and the machine's
/// time zone, so nothing more is claimed of it.
#[verifier::external_body]
fn local_date_parts() -> (r: (i32, u32, u32))
    ensures
        1 <= r.1 <= 12,
        1 <= r.2 <= 31,
{
    let now = chrono::Local::now();
    (now.year(), now.month(), now.day())
}

/// Today's local calendar date, when the clock names a valid date in the
/// library's range; whatever the clock returned, the result is checked
/// before it is handed out.
pub fn current_date() -> (r: Option<Date>)
    ensures
        r matches Some(d) ==> d.wf(),
{
    let (y, m, dd) = local_date_parts();
    if y < 1 || y > 9999 {
        return None;
    }
    let d = Date { year: y as u32, month: m, day: dd };
    if valid_date(&d) {
        Some(d)
    } else {
        None
    }
}

/// Splitting a number into decimal digits by division and modulus loses
/// nothing: the place values add back up to the number.
proof fn lemma_two_digits(n: int)
    requires
        0 <= n <= 99,
    ensures
        n == (n / 10) * 10 + n % 10,
        0 <= n / 10 <= 9,
        0 <= n % 10 <= 9,
{
    lemma_fundamental_div_mod(n, 10);
    lemma_mod_bound(n, 10);
    lemma_div_pos_is_pos(n, 10);
    lemma_fundamental_div_mod_converse(99, 10, 9, 9);
    lemma_div_is_ordered(n, 99, 10);
}

proof fn lemma_four_digits(n: int)
    requires
        0 <= n <= 9999,
    ensures
        n == (n / 1000) * 1000 + ((n / 100) % 10) * 100 + ((n / 10) % 10) * 10 + n % 10,
        0 <= n / 1000 <= 9,
        0 <= (n / 100) % 10 <= 9,
        0 <= (n / 10) % 10 <= 9,
        0 <= n % 10 <= 9,
{
    lemma_fundamental_div_mod(n, 10);
    lemma_fundamental_div_mod(n / 10, 10);
    lemma_fundamental_div_mod(n / 100, 10);
    lemma_div_denominator(n, 10, 10);
    lemma_div_denominator(n, 100, 10);
    lemma_mod_bound(n, 10);
    lemma_mod_bound(n / 10, 10);
    lemma_mod_bound(n / 100, 10);
    lemma_div_pos_is_pos(n, 1000);
    lemma_fundamental_div_mod_converse(9999, 1000, 9, 999);
    lemma_div_is_ordered(n, 9999, 1000);
}

/// Formatting then parsing is the identity: the ISO byte string of a
/// valid date names exactly that date.
pub proof fn lemma_format_parse_round_trip(d: Date)
    requires
        d.wf(),
    ensures
        spec_parse_date(spec_format_date(d)) == Some(d),
{
    let s = spec_format_date(d);
    let y = d.year as int;
    let m = d.month as int;
    let dd = d.day as int;
    lemma_four_digits(y);
    lemma_two_digits(m);
    lemma_two_digits(dd);
    assert(date_str_wellformed(s));
    assert(parsed_year(s) == y);
    assert(parsed_month(s) == m);
    assert(parsed_day(s) == dd);
}

/// The day before `d`.
pub fn prev_day(d: &Date) -> (r: Date)
    requires
        d.wf(),
        day_index(*d) >= 1,
    ensures
        r.wf(),
        day_index(r) == day_index(*d) - 1,
{
    if d.day > 1 {
        Date { year: d.year, month: d.month, day: d.day - 1 }
    } else if d.month > 1 {
        let pm = d.month - 1;
        Date { year: d.year, month: pm, day: days_in_month_exec(d.year, pm) }
    } else {
        proof {
            if d.year == 1 {
                assert(day_index(*d) == 0);
            }
            lemma_year_months(d.year as int - 1);
            assert(days_before_month(d.year as int - 1, 12) + days_in_month(d.year as int - 1, 12)
                == days_in_year(d.year as int - 1));
        }
        Date { year: d.year - 1, month: 12, day: 31 }
    }
}

/// The date `n` days before `d`.
pub fn date_minus_days(d: &Date, n: u32) -> (r: Date)
    requires
        d.wf(),
        n <= day_index(*d),
    ensures
        r.wf(),
        day_index(r) == day_index(*d) - n,
{
    let mut cur: Date = *d;
    let mut i: u32 = 0;
    while i < n
        invariant
            i <= n,
            cur.wf(),
            day_index(cur) == day_index(*d) - i,
            n <= day_index(*d),
        decreases n - i,
    {
        cur = prev_day(&cur);
        i = i + 1;
    }
    cur
}

/// The date one calendar month before `d`: the month steps back and the
/// day is clamped to the shorter month's length where it must be.
pub open spec fn spec_month_back(d: Date) -> Date {
    if d.month > 1 {
        let dim = days_in_month(d.year as int, d.month as int - 1);
        Date {
            year: d.year,
            month: (d.month - 1) as u32,
            day: if d.day as int <= dim {
                d.day
            } else {
                dim as u32
            },
        }
    } else {
        Date { year: (d.year - 1) as u32, month: 12, day: d.day }
    }
}

/// The date one calendar month before `d`, executable.
pub fn month_back(d: &Date) -> (r: Date)
    requires
        d.wf(),
        d.year >= 2,
    ensures
        r == spec_month_back(*d),
        r.wf(),
{
    if d.month > 1 {
        let pm = d.month - 1;
        let dim = days_in_month_exec(d.year, pm);
        let day = if d.day <= dim {
            d.day
        } else {
            dim
        };
        Date { year: d.year, month: pm, day }
    } else {
        Date { year: d.year - 1, month: 12, day: d.day }
    }
}

} // verus!
