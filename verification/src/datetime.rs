//! Calendar math for the `DATE` type, stored as a count of days from the Unix
//! epoch (1970-01-01 = 0), over the proleptic Gregorian calendar. `TIMESTAMP`,
//! stored in microseconds from the epoch, builds on it.

use vstd::prelude::*;

use crate::text;

pub mod calendar;

verus! {

/// The Gregorian leap years.
pub open spec fn is_leap(year: int) -> bool {
    year % 4 == 0 && (year % 100 != 0 || year % 400 == 0)
}

/// The length of a month.
pub open spec fn days_in_month(year: int, month: int) -> int {
    if month == 2 {
        if is_leap(year) {
            29
        } else {
            28
        }
    } else if month == 4 || month == 6 || month == 9 || month == 11 {
        30
    } else {
        31
    }
}

/// A day that the calendar has.
pub open spec fn is_civil(year: int, month: int, day: int) -> bool {
    1 <= month <= 12 && 1 <= day <= days_in_month(year, month)
}

/// The days in whole years before the first of March of `year`, counted from the
/// first of March of the year zero. Years that begin in March end with their leap
/// day.
pub open spec fn days_before_march(year: int) -> int {
    365 * year + year / 4 - year / 100 + year / 400
}

/// The days from the first of March to the first day of a month: the months from
/// March on repeat 31, 30, 31, 30 and 31 days.
pub open spec fn days_from_march(month: int) -> int {
    let m = if month > 2 {
        month - 3
    } else {
        month + 9
    };
    (153 * m + 2) / 5
}

/// The year, begun in March, that a month of a calendar year belongs to.
pub open spec fn march_year(year: int, month: int) -> int {
    if month <= 2 {
        year - 1
    } else {
        year
    }
}

/// The days from the Unix epoch to a day of a month. A day beyond the end of the
/// month runs on into the next.
pub open spec fn day_number(year: int, month: int, day: int) -> int {
    days_before_march(march_year(year, month)) + days_from_march(month) + day - 1 - 719468
}

/// The day after a day.
pub open spec fn next_day(year: int, month: int, day: int) -> (int, int, int) {
    if day < days_in_month(year, month) {
        (year, month, day + 1)
    } else if month < 12 {
        (year, month + 1, 1)
    } else {
        (year + 1, 1, 1)
    }
}

/// Day numbers count the days of the calendar: the first of January 1970 has the
/// number zero, and every day has the number after that of the day before.
pub proof fn day_numbers_count_days(year: int, month: int, day: int)
    requires
        is_civil(year, month, day),
    ensures
        day_number(1970, 1, 1) == 0,
        ({
            let (y, m, d) = next_day(year, month, day);
            is_civil(y, m, d) && day_number(y, m, d) == day_number(year, month, day) + 1
        }),
{
    lemma_march_step(year);
}

/// A year that begins in March has a leap day at its end where the next calendar year
/// is a leap year.
pub(crate) proof fn lemma_march_step(year: int)
    ensures
        days_before_march(year) == days_before_march(year - 1) + if is_leap(year) {
            366int
        } else {
            365int
        },
{
    assert(year / 4 - (year - 1) / 4 == if year % 4 == 0 { 1int } else { 0int });
    assert(year / 100 - (year - 1) / 100 == if year % 100 == 0 { 1int } else { 0int });
    assert(year / 400 - (year - 1) / 400 == if year % 400 == 0 { 1int } else { 0int });
}

/// The parts of a day's place in a cycle of four hundred years: centuries, runs of
/// four years, years and days.
proof fn lemma_place_in_cycle(doe: int) -> (place: (int, int, int, int))
    requires
        0 <= doe < 146097,
    ensures
        ({
            let (c, q, k, doy) = place;
            let yoe = 100 * c + 4 * q + k;
            &&& 0 <= c <= 3
            &&& 0 <= q <= 24
            &&& 0 <= k <= 3
            &&& doe == 36524 * c + 1461 * q + 365 * k + doy
            &&& 0 <= doy <= 365
            &&& doy == 365 ==> k == 3 && (q < 24 || c == 3)
        }),
{
    let c = if doe >= 3 * 36524 {
        3
    } else if doe >= 2 * 36524 {
        2
    } else if doe >= 36524 {
        1
    } else {
        0
    };
    let r = doe - 36524 * c;
    let q = if r / 1461 > 24 {
        24
    } else {
        r / 1461
    };
    let s = r - 1461 * q;
    let k = if s >= 1095 {
        3
    } else if s >= 730 {
        2
    } else if s >= 365 {
        1
    } else {
        0
    };
    (c, q, k, s - 365 * k)
}

/// The year of the cycle that a day of the cycle falls in.
proof fn lemma_year_of_cycle(doe: int) -> (place: (int, int))
    requires
        0 <= doe < 146097,
    ensures
        ({
            let (yoe, doy) = place;
            &&& 0 <= yoe <= 399
            &&& (doe - doe / 1460 + doe / 36524 - doe / 146096) / 365 == yoe
            &&& doe == 365 * yoe + yoe / 4 - yoe / 100 + doy
            &&& 0 <= doy <= 365
            &&& doy == 365 ==> is_leap(yoe + 1)
        }),
{
    let (c, q, k, doy) = lemma_place_in_cycle(doe);
    let yoe = 100 * c + 4 * q + k;
    assert(yoe / 4 == 25 * c + q);
    assert(yoe / 100 == c);
    let t = 24 * c + q + 365 * k + doy;
    let e: int = if t >= 1460 {
        1
    } else {
        0
    };
    assert(doe == 1460 * (25 * c + q + e) + (t - 1460 * e));
    assert(doe / 1460 == 25 * c + q + e) by (nonlinear_arith)
        requires
            doe == 1460 * (25 * c + q + e) + (t - 1460 * e),
            0 <= t - 1460 * e < 1460,
    ;
    assert(doe / 36524 - doe / 146096 == c);
    assert(doe - doe / 1460 + doe / 36524 - doe / 146096 == 365 * yoe + doy - e);
    assert(0 <= doy - e < 365);
    (yoe, doy)
}

/// A day of a year that begins in March, as a month and a day of that month.
proof fn lemma_month_of_year(doy: int)
    requires
        0 <= doy <= 365,
    ensures
        ({
            let mp = (5 * doy + 2) / 153;
            let d = doy - (153 * mp + 2) / 5 + 1;
            let m = if mp < 10 {
                mp + 3
            } else {
                mp - 9
            };
            &&& 0 <= mp <= 11
            &&& 1 <= m <= 12
            &&& 1 <= d
            &&& days_from_march(m) + d - 1 == doy
            &&& m != 2 ==> d <= days_in_month(1, m)
            &&& m == 2 ==> d <= 29
            &&& m == 2 && d == 29 ==> doy == 365
        }),
{
}

proof fn lemma_cycle(era: int, yoe: int)
    requires
        0 <= yoe <= 399,
    ensures
        days_before_march(era * 400 + yoe) == era * 146097 + 365 * yoe + yoe / 4 - yoe / 100,
        is_leap(era * 400 + yoe + 1) == is_leap(yoe + 1),
{
    lemma_shifted(era * 100, yoe, 4);
    lemma_shifted(era * 4, yoe, 100);
    lemma_shifted(era, yoe, 400);
    lemma_shifted(era * 100, yoe + 1, 4);
    lemma_shifted(era * 4, yoe + 1, 100);
    lemma_shifted(era, yoe + 1, 400);
}

/// Whole multiples of the divisor come out of a division unchanged.
pub(crate) proof fn lemma_shifted(quotient: int, x: int, divisor: int)
    requires
        divisor > 0,
    ensures
        (quotient * divisor + x) / divisor == quotient + x / divisor,
        (quotient * divisor + x) % divisor == x % divisor,
{
    vstd::arithmetic::div_mod::lemma_fundamental_div_mod(x, divisor);
    let q = x / divisor;
    let r = x % divisor;
    assert(quotient * divisor + x == divisor * (quotient + q) + r) by (nonlinear_arith)
        requires
            x == divisor * q + r,
    ;
    vstd::arithmetic::div_mod::lemma_fundamental_div_mod_converse(
        quotient * divisor + x,
        divisor,
        quotient + q,
        r,
    );
}

/// No two days of the calendar have the same number.
pub proof fn day_numbers_are_distinct(a: (int, int, int), b: (int, int, int))
    requires
        is_civil(a.0, a.1, a.2),
        is_civil(b.0, b.1, b.2),
        day_number(a.0, a.1, a.2) == day_number(b.0, b.1, b.2),
    ensures
        a == b,
{
    let y = march_year(a.0, a.1);
    let z = march_year(b.0, b.1);
    assert(days_from_march(a.1) + a.2 - 1 <= 365);
    assert(days_from_march(b.1) + b.2 - 1 <= 365);
    lemma_year_end(a.0, a.1, a.2);
    lemma_year_end(b.0, b.1, b.2);
    if y < z {
        lemma_march_grows(y + 1, z);
    } else if z < y {
        lemma_march_grows(z + 1, y);
    }
}

/// A day comes before the next first of March.
proof fn lemma_year_end(year: int, month: int, day: int)
    requires
        is_civil(year, month, day),
    ensures
        ({
            let y = march_year(year, month);
            days_before_march(y) + days_from_march(month) + day - 1 < days_before_march(y + 1)
        }),
        days_from_march(month) + day - 1 >= 0,
{
    lemma_march_step(march_year(year, month) + 1);
}

proof fn lemma_march_grows(a: int, b: int)
    requires
        a <= b,
    ensures
        days_before_march(a) <= days_before_march(b),
    decreases b - a,
{
    if a < b {
        lemma_march_grows(a, b - 1);
        lemma_march_step(b);
    }
}

/// Days from the Unix epoch (1970-01-01) for a proleptic-Gregorian Y-M-D.
/// `month` is 1..=12 and `day` is 1..=31; out-of-range components produce a
/// value that will not round-trip (callers validate via [`civil_from_days`]).
pub fn days_from_civil(year: i64, month: u32, day: u32) -> (days: i64)
    requires
        i64::MIN <= day_number(year as int, month as int, day as int) <= i64::MAX,
    ensures
        days == day_number(year as int, month as int, day as int),
{
    day_count(year, month, day) as i64
}

/// Inverse of [`days_from_civil`]: the (year, month, day) for a day count from
/// the Unix epoch. `month` is 1..=12, `day` is 1..=31.
pub fn civil_from_days(days: i64) -> (civil: (i64, u32, u32))
    ensures
        is_civil(civil.0 as int, civil.1 as int, civil.2 as int),
        day_number(civil.0 as int, civil.1 as int, civil.2 as int) == days,
        (civil.0 as int, civil.1 as int, civil.2 as int) == civil_of(days as int),
{
    let z: i128 = days as i128 + 719468;
    let era: i128 = if z >= 0 {
        z / 146097
    } else {
        -((146096 - z) / 146097)
    };
    assert(era == z as int / 146097);
    let doe: i128 = z - era * 146097;
    let ghost (ghost_yoe, ghost_doy) = lemma_year_of_cycle(doe as int);
    let yoe: i128 = (doe - doe / 1460 + doe / 36524 - doe / 146096) / 365;
    assert(yoe == ghost_yoe);
    let y: i128 = yoe + era * 400;
    let doy: i128 = doe - (365 * yoe + yoe / 4 - yoe / 100);
    assert(doy == ghost_doy);
    proof {
        lemma_month_of_year(doy as int);
        lemma_cycle(era as int, yoe as int);
    }
    let mp: i128 = (5 * doy + 2) / 153;
    let d: i128 = doy - (153 * mp + 2) / 5 + 1;
    let m: i128 = if mp < 10 {
        mp + 3
    } else {
        mp - 9
    };
    let year: i128 = if m <= 2 {
        y + 1
    } else {
        y
    };
    assert(is_civil(year as int, m as int, d as int));
    proof {
        every_number_has_a_day(days as int);
        day_numbers_are_distinct((year as int, m as int, d as int), civil_of(days as int));
    }
    (year as i64, m as u32, d as u32)
}

/// The calendar day of a day number.
pub open spec fn civil_of(days: int) -> (int, int, int) {
    choose|civil: (int, int, int)|
        is_civil(civil.0, civil.1, civil.2) && #[trigger] day_number(civil.0, civil.1, civil.2)
            == days
}

/// The day that an ISO calendar date denotes: a year, a month and a day with hyphens
/// between them. The day must exist, and its number must fit.
pub open spec fn date_of_text(text: Seq<char>) -> Option<int> {
    let s = text::trimmed(text);
    let a = text::position_of(s, '-', 0);
    let b = text::position_of(s, '-', a + 1);
    if b >= s.len() {
        None
    } else {
        match (
            text::integer_of(s.subrange(0, a as int)),
            text::integer_of(s.subrange(a as int + 1, b as int)),
            text::integer_of(s.subrange(b as int + 1, s.len() as int)),
        ) {
            (Some(year), Some(month), Some(day)) => {
                if is_civil(year, month, day) && i64::MIN <= day_number(year, month, day)
                    <= i64::MAX {
                    Some(day_number(year, month, day))
                } else {
                    None
                }
            },
            _ => None,
        }
    }
}

/// A date as text.
pub open spec fn civil_text(civil: (int, int, int)) -> Seq<char> {
    text::padded_text(civil.0, 4) + seq!['-'] + text::padded_text(civil.1, 2) + seq!['-']
        + text::padded_text(civil.2, 2)
}

/// A day as text.
pub open spec fn date_text(days: int) -> Seq<char> {
    civil_text(civil_of(days))
}

fn day_count(year: i64, month: u32, day: u32) -> (days: i128)
    ensures
        days == day_number(year as int, month as int, day as int),
{
    let m: i128 = month as i128;
    let d: i128 = day as i128;
    let y: i128 = if month <= 2 {
        year as i128 - 1
    } else {
        year as i128
    };
    let era: i128 = if y >= 0 {
        y / 400
    } else {
        -((399 - y) / 400)
    };
    assert(era == y as int / 400);
    let yoe: i128 = y - era * 400;
    let doy: i128 = (153 * (if m > 2 {
        m - 3
    } else {
        m + 9
    }) + 2) / 5 + d - 1;
    let doe: i128 = yoe * 365 + yoe / 4 - yoe / 100 + doy;
    proof {
        lemma_cycle(era as int, yoe as int);
    }
    era * 146097 + doe - 719468
}

fn is_civil_day(year: i64, month: i64, day: i64) -> (civil: bool)
    ensures
        civil == is_civil(year as int, month as int, day as int),
{
    if month < 1 || month > 12 || day < 1 {
        return false;
    }
    let y: i128 = year as i128;
    let shifted: i128 = y + 9_223_372_036_854_776_000;
    assert(shifted % 400 == y as int % 400 && shifted % 4 == y as int % 4 && shifted % 100
        == y as int % 100);
    let leap: bool = shifted % 4 == 0 && (shifted % 100 != 0 || shifted % 400 == 0);
    let length: i64 = if month == 2 {
        if leap {
            29
        } else {
            28
        }
    } else if month == 4 || month == 6 || month == 9 || month == 11 {
        30
    } else {
        31
    };
    day <= length
}

/// Parse a `YYYY-MM-DD` date into days-from-epoch, returning `None` for any
/// malformed or non-existent date (e.g. `2023-02-29`). Surrounding whitespace is
/// ignored. Only the ISO calendar-date form is accepted (no BC/era suffixes).
pub fn parse_date(text: &str) -> (date: Option<i64>)
    ensures
        match date {
            Some(days) => date_of_text(text@) == Some(days as int),
            None => date_of_text(text@) is None,
        },
{
    let chars: Vec<char> = text::chars_of(text);
    parse_date_chars(&chars)
}

fn parse_date_chars(chars: &[char]) -> (date: Option<i64>)
    ensures
        match date {
            Some(days) => date_of_text(chars@) == Some(days as int),
            None => date_of_text(chars@) is None,
        },
{
    let s: &[char] = text::trim(chars);
    let a: usize = text::find_char(s, '-', 0);
    if a >= s.len() {
        assert(text::position_of(s@, '-', a as nat + 1) == s@.len());
        return None;
    }
    let b: usize = text::find_char(s, '-', a + 1);
    if b >= s.len() {
        return None;
    }
    let year: i64 = match text::parse_signed(s, 0, a) {
        Some(year) => year,
        None => {
            proof {
                if let Some(y) = text::integer_of(s@.subrange(0, a as int)) {
                    lemma_far_years(y);
                }
            }
            return None;
        },
    };
    let month: i64 = match text::parse_signed(s, a + 1, b) {
        Some(month) => month,
        None => return None,
    };
    let day: i64 = match text::parse_signed(s, b + 1, s.len()) {
        Some(day) => day,
        None => return None,
    };
    if !is_civil_day(year, month, day) {
        return None;
    }
    let days: i128 = day_count(year, month as u32, day as u32);
    if days < i64::MIN as i128 || days > i64::MAX as i128 {
        return None;
    }
    Some(days as i64)
}

/// Years that do not fit have no days that do.
pub(crate) proof fn lemma_far_years(year: int)
    requires
        year < i64::MIN || year > i64::MAX,
    ensures
        forall|month: int, day: int| #[trigger]
            is_civil(year, month, day) ==> day_number(year, month, day) < i64::MIN || day_number(
                year,
                month,
                day,
            ) > i64::MAX,
{
    assert forall|month: int, day: int| #[trigger]
        is_civil(year, month, day) implies day_number(year, month, day) < i64::MIN || day_number(
        year,
        month,
        day,
    ) > i64::MAX by {
        let y = march_year(year, month);
        assert(days_before_march(y) == 365 * y + y / 4 - y / 100 + y / 400);
        assert(0 <= days_from_march(month) <= 337);
    }
}

fn push_civil(out: &mut String, days: i64)
    ensures
        final(out)@ == old(out)@ + date_text(days as int),
{
    let (year, month, day): (i64, u32, u32) = civil_from_days(days);
    proof {
        let civil = (year as int, month as int, day as int);
        assert(is_civil(civil.0, civil.1, civil.2) && day_number(civil.0, civil.1, civil.2)
            == days);
        let chosen = civil_of(days as int);
        day_numbers_are_distinct(chosen, civil);
    }
    text::push_padded(out, year, 4);
    out.push('-');
    text::push_padded(out, month as i64, 2);
    out.push('-');
    text::push_padded(out, day as i64, 2);
    assert(out@ =~= old(out)@ + date_text(days as int));
}

/// Format days-from-epoch as `YYYY-MM-DD` (zero-padded to at least 4 year digits).
pub fn format_date(days: i64) -> (text: String)
    ensures
        text@ == date_text(days as int),
{
    let mut out: String = String::new();
    push_civil(&mut out, days);
    assert(out@ =~= date_text(days as int));
    out
}

pub const MICROS_PER_SEC: i64 = 1_000_000;

pub const MICROS_PER_DAY: i64 = 86_400_000_000;

/// The first six digits of a fraction, with zeros behind them where there are fewer.
pub open spec fn six_digits(fraction: Seq<char>) -> Seq<char> {
    Seq::new(
        6,
        |i: int|
            if i < fraction.len() {
                fraction[i]
            } else {
                '0'
            },
    )
}

/// The microseconds that the digits after a decimal point denote. Digits beyond
/// microsecond resolution are ignored.
pub open spec fn fraction_micros(fraction: Seq<char>) -> Option<int> {
    if fraction.len() == 0 || !text::all_digits(fraction) {
        None
    } else {
        Some(text::number(six_digits(fraction)))
    }
}

/// The microseconds that seconds with an optional fraction denote.
pub open spec fn seconds_of_text(s: Seq<char>) -> Option<int> {
    let dot = text::position_of(s, '.', 0);
    match text::integer_of(s.subrange(0, dot as int)) {
        Some(seconds) if 0 <= seconds < 60 => {
            if dot >= s.len() {
                Some(seconds * MICROS_PER_SEC)
            } else {
                match fraction_micros(s.subrange(dot as int + 1, s.len() as int)) {
                    Some(micros) => Some(seconds * MICROS_PER_SEC + micros),
                    None => None,
                }
            }
        },
        _ => None,
    }
}

/// The microseconds since midnight that hours, minutes and seconds denote.
pub open spec fn time_of_day(s: Seq<char>) -> Option<int> {
    let a = text::position_of(s, ':', 0);
    let b = text::position_of(s, ':', a + 1);
    if b >= s.len() {
        None
    } else {
        match (
            text::integer_of(s.subrange(0, a as int)),
            text::integer_of(s.subrange(a as int + 1, b as int)),
            seconds_of_text(s.subrange(b as int + 1, s.len() as int)),
        ) {
            (Some(hours), Some(minutes), Some(micros)) => {
                if 0 <= hours < 24 && 0 <= minutes < 60 {
                    Some((hours * 3_600 + minutes * 60) * MICROS_PER_SEC + micros)
                } else {
                    None
                }
            },
            _ => None,
        }
    }
}

/// The time of day that a text denotes.
pub open spec fn time_of_text(text: Seq<char>) -> Option<int> {
    time_of_day(text::trimmed(text))
}

fn parse_fraction_micros(fraction: &[char], start: usize) -> (micros: Option<i64>)
    requires
        start <= fraction@.len(),
    ensures
        match micros {
            Some(micros) => fraction_micros(
                fraction@.subrange(start as int, fraction@.len() as int),
            ) == Some(micros as int) && 0 <= micros < 1_000_000,
            None => fraction_micros(
                fraction@.subrange(start as int, fraction@.len() as int),
            ) is None,
        },
{
    let ghost s = fraction@.subrange(start as int, fraction@.len() as int);
    if start == fraction.len() {
        return None;
    }
    let mut i: usize = start;
    while i < fraction.len()
        invariant
            start <= i <= fraction@.len(),
            s == fraction@.subrange(start as int, fraction@.len() as int),
            forall|j: int| 0 <= j < i - start ==> text::digit_like(#[trigger] s[j]),
        decreases fraction@.len() - i,
    {
        let c: char = fraction[i];
        assert(s[i - start] == c);
        if c < '0' || '9' < c {
            assert(!text::digit_like(s[i - start]));
            return None;
        }
        i += 1;
    }
    let ghost six = six_digits(s);
    let mut micros: i64 = 0;
    let mut bound: i64 = 1;
    let mut k: usize = 0;
    assert(six.take(0) == Seq::<char>::empty());
    while k < 6
        invariant
            k <= 6,
            start < fraction@.len(),
            s == fraction@.subrange(start as int, fraction@.len() as int),
            text::all_digits(s),
            six == six_digits(s),
            0 <= micros < bound,
            bound <= 1_000_000,
            k == 0 ==> bound == 1,
            k == 1 ==> bound == 10,
            k == 2 ==> bound == 100,
            k == 3 ==> bound == 1_000,
            k == 4 ==> bound == 10_000,
            k == 5 ==> bound == 100_000,
            k == 6 ==> bound == 1_000_000,
            micros == text::number(six.take(k as int)),
        decreases 6 - k,
    {
        let digit: i64 = if k < fraction.len() - start {
            assert(text::digit_like(s[k as int]));
            fraction[start + k] as i64 - 48
        } else {
            0
        };
        micros = micros * 10 + digit;
        bound = bound * 10;
        k += 1;
        proof {
            let now = six.take(k as int);
            assert(now.drop_last() == six.take(k - 1));
            assert(now.last() == six[k - 1]);
            assert(digit == text::digit_value(now.last()));
        }
    }
    assert(six.take(6) == six);
    Some(micros)
}

pub(crate) fn parse_seconds(s: &[char], start: usize) -> (micros: Option<i64>)
    requires
        start <= s@.len(),
    ensures
        match micros {
            Some(micros) => seconds_of_text(s@.subrange(start as int, s@.len() as int)) == Some(
                micros as int,
            ) && 0 <= micros < 60_000_000,
            None => seconds_of_text(s@.subrange(start as int, s@.len() as int)) is None,
        },
{
    let field: &[char] = vstd::slice::slice_subrange(s, start, s.len());
    let dot: usize = text::find_char(field, '.', 0);
    let seconds: i64 = match text::parse_signed(field, 0, dot) {
        Some(seconds) => seconds,
        None => return None,
    };
    if seconds < 0 || seconds >= 60 {
        return None;
    }
    if dot >= field.len() {
        return Some(seconds * MICROS_PER_SEC);
    }
    match parse_fraction_micros(field, dot + 1) {
        Some(micros) => Some(seconds * MICROS_PER_SEC + micros),
        None => None,
    }
}

fn parse_time_of_day(s: &[char]) -> (micros: Option<i64>)
    ensures
        match micros {
            Some(micros) => time_of_day(s@) == Some(micros as int) && 0 <= micros < MICROS_PER_DAY,
            None => time_of_day(s@) is None,
        },
{
    let a: usize = text::find_char(s, ':', 0);
    if a >= s.len() {
        assert(text::position_of(s@, ':', a as nat + 1) == s@.len());
        return None;
    }
    let b: usize = text::find_char(s, ':', a + 1);
    if b >= s.len() {
        return None;
    }
    let hours: i64 = match text::parse_signed(s, 0, a) {
        Some(hours) => hours,
        None => return None,
    };
    let minutes: i64 = match text::parse_signed(s, a + 1, b) {
        Some(minutes) => minutes,
        None => return None,
    };
    let micros: i64 = match parse_seconds(s, b + 1) {
        Some(micros) => micros,
        None => return None,
    };
    if hours < 0 || hours >= 24 || minutes < 0 || minutes >= 60 {
        return None;
    }
    Some((hours * 3_600 + minutes * 60) * MICROS_PER_SEC + micros)
}

/// Parse a `TIME` literal `HH:MM:SS[.ffffff]` into microseconds since midnight
/// (`0..MICROS_PER_DAY`). Surrounding whitespace is ignored.
pub fn parse_time(text: &str) -> (time: Option<i64>)
    ensures
        match time {
            Some(micros) => time_of_text(text@) == Some(micros as int) && 0 <= micros
                < MICROS_PER_DAY,
            None => time_of_text(text@) is None,
        },
{
    let chars: Vec<char> = text::chars_of(text);
    parse_time_of_day(text::trim(&chars))
}

/// The first position of a space or a `T`, or the length of the text.
pub open spec fn separator(s: Seq<char>) -> nat {
    let space = text::position_of(s, ' ', 0);
    let letter = text::position_of(s, 'T', 0);
    if space < letter {
        space
    } else {
        letter
    }
}

/// The microseconds from the epoch to a time of a day, if they fit. So must those to the
/// midnight before.
pub open spec fn moment(days: Option<int>, time: Option<int>) -> Option<int> {
    match (days, time) {
        (Some(days), Some(micros)) => {
            let total = days * MICROS_PER_DAY + micros;
            if i64::MIN <= days * MICROS_PER_DAY <= i64::MAX && i64::MIN <= total <= i64::MAX {
                Some(total)
            } else {
                None
            }
        },
        _ => None,
    }
}

/// The microseconds from the epoch that a date with an optional time denotes.
pub open spec fn timestamp_of_text(text: Seq<char>) -> Option<int> {
    let s = text::trimmed(text);
    let split = separator(s);
    let time = if split >= s.len() {
        Some(0)
    } else {
        time_of_text(s.subrange(split as int + 1, s.len() as int))
    };
    moment(date_of_text(s.subrange(0, split as int)), time)
}

/// Parse a `YYYY-MM-DD[ HH:MM:SS[.ffffff]]` timestamp into microseconds from the
/// Unix epoch. The date and time may be separated by a space or `T`; the time is
/// optional (defaults to midnight) and the fractional seconds are optional (up to
/// microsecond resolution, extra digits ignored). Returns `None` for any
/// malformed or out-of-range input. No time zone is accepted.
pub fn parse_timestamp(text: &str) -> (timestamp: Option<i64>)
    ensures
        match timestamp {
            Some(micros) => timestamp_of_text(text@) == Some(micros as int),
            None => timestamp_of_text(text@) is None,
        },
{
    let chars: Vec<char> = text::chars_of(text);
    let s: &[char] = text::trim(&chars);
    let space: usize = text::find_char(s, ' ', 0);
    let letter: usize = text::find_char(s, 'T', 0);
    let split: usize = if space < letter {
        space
    } else {
        letter
    };
    let days: i64 = match parse_date_chars(vstd::slice::slice_subrange(s, 0, split)) {
        Some(days) => days,
        None => return None,
    };
    let micros: i64 = if split >= s.len() {
        0
    } else {
        let rest: &[char] = vstd::slice::slice_subrange(s, split + 1, s.len());
        match parse_time_of_day(text::trim(rest)) {
            Some(micros) => micros,
            None => return None,
        }
    };
    match days.checked_mul(MICROS_PER_DAY) {
        Some(midnight) => midnight.checked_add(micros),
        None => None,
    }
}

/// Digits without the zeros at their end.
pub open spec fn without_trailing_zeros(digits: Seq<char>) -> Seq<char>
    decreases digits.len(),
{
    if digits.len() > 0 && digits.last() == '0' {
        without_trailing_zeros(digits.drop_last())
    } else {
        digits
    }
}

/// Seconds, with a fraction in microseconds unless that is zero, as text.
pub open spec fn seconds_text(seconds: int, fraction: int) -> Seq<char> {
    let whole = text::padded_text(seconds, 2);
    if fraction == 0 {
        whole
    } else {
        whole + seq!['.'] + without_trailing_zeros(text::padded_text(fraction, 6))
    }
}

/// A time of day, given in microseconds since midnight, as text.
pub open spec fn time_text(micros: int) -> Seq<char> {
    let rest = micros % (MICROS_PER_DAY as int);
    let seconds = rest / (MICROS_PER_SEC as int);
    let fraction = rest % (MICROS_PER_SEC as int);
    text::padded_text(seconds / 3_600, 2) + seq![':'] + text::padded_text(
        (seconds % 3_600) / 60,
        2,
    ) + seq![':'] + seconds_text(seconds % 60, fraction)
}

/// A timestamp as text.
pub open spec fn timestamp_text(micros: int) -> Seq<char> {
    date_text(micros / (MICROS_PER_DAY as int)) + seq![' '] + time_text(micros)
}

pub(crate) fn push_fraction(out: &mut String, fraction: i64)
    requires
        0 <= fraction < 1_000_000,
    ensures
        final(out)@ == old(out)@ + without_trailing_zeros(text::padded_text(fraction as int, 6)),
{
    let mut digits: String = String::new();
    text::push_padded(&mut digits, fraction, 6);
    assert(digits@ =~= text::padded_text(fraction as int, 6));
    let chars: Vec<char> = text::chars_of(&digits);
    let mut end: usize = chars.len();
    assert(chars@.take(end as int) == chars@);
    while end > 0 && chars[end - 1] == '0'
        invariant
            end <= chars@.len(),
            without_trailing_zeros(chars@.take(end as int)) == without_trailing_zeros(chars@),
        decreases end,
    {
        assert(chars@.take(end as int).drop_last() == chars@.take(end - 1));
        end -= 1;
    }
    proof {
        let kept = chars@.take(end as int);
        assert(kept.len() > 0 ==> kept.last() == chars@[end - 1]);
        assert(kept == chars@.subrange(0, end as int));
    }
    text::push_chars(out, &chars, 0, end);
}

fn push_time(out: &mut String, micros_of_day: i64)
    ensures
        final(out)@ == old(out)@ + time_text(micros_of_day as int),
{
    let wide: i128 = micros_of_day as i128 + 9_223_372_108_800_000_000;
    assert(wide % 86_400_000_000 == micros_of_day as int % 86_400_000_000);
    let rest: i64 = (wide % 86_400_000_000) as i64;
    let seconds: i64 = rest / MICROS_PER_SEC;
    let fraction: i64 = rest % MICROS_PER_SEC;
    text::push_padded(out, seconds / 3_600, 2);
    out.push(':');
    text::push_padded(out, (seconds % 3_600) / 60, 2);
    out.push(':');
    text::push_padded(out, seconds % 60, 2);
    if fraction != 0 {
        out.push('.');
        push_fraction(out, fraction);
    }
    assert(out@ =~= old(out)@ + time_text(micros_of_day as int));
}

/// Format microseconds-since-midnight as `HH:MM:SS[.ffffff]` (the fractional part
/// is shown only when non-zero, with trailing zeros trimmed).
pub fn format_time(micros_of_day: i64) -> (text: String)
    ensures
        text@ == time_text(micros_of_day as int),
{
    let mut out: String = String::new();
    push_time(&mut out, micros_of_day);
    assert(out@ =~= time_text(micros_of_day as int));
    out
}

/// Format microseconds-from-epoch as `YYYY-MM-DD HH:MM:SS[.ffffff]` (the
/// fractional part is shown only when non-zero, with trailing zeros trimmed).
pub fn format_timestamp(micros: i64) -> (text: String)
    ensures
        text@ == timestamp_text(micros as int),
{
    let wide: i128 = micros as i128;
    let days: i64 = if wide >= 0 {
        (wide / 86_400_000_000) as i64
    } else {
        (-((86_399_999_999 - wide) / 86_400_000_000)) as i64
    };
    assert(days == micros as int / 86_400_000_000);
    let mut out: String = String::new();
    push_civil(&mut out, days);
    out.push(' ');
    push_time(&mut out, micros);
    assert(out@ =~= timestamp_text(micros as int));
    out
}

/// Every day number is that of a day of the calendar.
pub proof fn every_number_has_a_day(days: int)
    ensures
        ({
            let (year, month, day) = civil_of(days);
            is_civil(year, month, day) && day_number(year, month, day) == days
        }),
{
    let z = days + 719468;
    let era = z / 146097;
    let doe = z % 146097;
    let (yoe, doy) = lemma_year_of_cycle(doe);
    lemma_month_of_year(doy);
    lemma_cycle(era, yoe);
    let y = era * 400 + yoe;
    let mp = (5 * doy + 2) / 153;
    let d = doy - (153 * mp + 2) / 5 + 1;
    let m = if mp < 10 {
        mp + 3
    } else {
        mp - 9
    };
    let year = if m <= 2 {
        y + 1
    } else {
        y
    };
    let civil = (year, m, d);
    assert(is_civil(civil.0, civil.1, civil.2) && day_number(civil.0, civil.1, civil.2) == days);
}

/// The number zero is the first of January 1970, and the day after a day is that of the
/// number after its number.
pub proof fn days_follow_each_other(days: int)
    ensures
        civil_of(0) == (1970int, 1int, 1int),
        ({
            let (year, month, day) = civil_of(days);
            civil_of(days + 1) == next_day(year, month, day)
        }),
{
    every_number_has_a_day(0);
    every_number_has_a_day(days);
    every_number_has_a_day(days + 1);
    let (year, month, day) = civil_of(days);
    day_numbers_count_days(year, month, day);
    day_numbers_are_distinct(civil_of(0), (1970, 1, 1));
    day_numbers_are_distinct(civil_of(days + 1), next_day(year, month, day));
}

/// Three numbers with a mark between them are found at their places.
pub(crate) proof fn lemma_three_parts(a: Seq<char>, b: Seq<char>, c: Seq<char>, mark: char)
    requires
        text::all_digits(a),
        text::all_digits(b),
        !text::digit_like(mark),
    ensures
        ({
            let s = a + seq![mark] + b + seq![mark] + c;
            let i = text::position_of(s, mark, 0);
            let j = text::position_of(s, mark, i + 1);
            &&& i == a.len()
            &&& j == a.len() + 1 + b.len()
            &&& s.subrange(0, i as int) == a
            &&& s.subrange(i as int + 1, j as int) == b
            &&& s.subrange(j as int + 1, s.len() as int) == c
        }),
{
    let s = a + seq![mark] + b + seq![mark] + c;
    let i = a.len();
    let j = a.len() + 1 + b.len();
    assert forall|k: int| 0 <= k < i implies #[trigger] s[k] != mark by {
        assert(s[k] == a[k]);
    }
    text::lemma_position_behind(s, mark, 0, i);
    assert forall|k: int| i + 1 <= k < j implies #[trigger] s[k] != mark by {
        assert(s[k] == b[k - i - 1]);
    }
    text::lemma_position_behind(s, mark, i + 1, j);
    assert(s.subrange(0, i as int) =~= a);
    assert(s.subrange(i as int + 1, j as int) =~= b);
    assert(s.subrange(j as int + 1, s.len() as int) =~= c);
}

/// Digits at both ends leave nothing to trim.
pub(crate) proof fn lemma_digits_are_trimmed(s: Seq<char>)
    requires
        s.len() > 0,
        text::digit_like(s[0]),
        text::digit_like(s.last()),
    ensures
        text::trimmed(s) == s,
{
    text::lemma_trimmed_is_itself(s);
}

/// A date reads back from its text, unless its year lies before the year zero, which
/// the text shows with a sign.
pub proof fn date_text_reads_back(days: int)
    requires
        i64::MIN <= days <= i64::MAX,
        civil_of(days).0 >= 0,
    ensures
        date_of_text(date_text(days)) == Some(days),
{
    every_number_has_a_day(days);
    let (year, month, day) = civil_of(days);
    text::lemma_zero_padded_denotes(year as nat, 4);
    text::lemma_zero_padded_denotes(month as nat, 2);
    text::lemma_zero_padded_denotes(day as nat, 2);
    let a = text::padded_text(year, 4);
    let b = text::padded_text(month, 2);
    let c = text::padded_text(day, 2);
    let s = date_text(days);
    lemma_three_parts(a, b, c, '-');
    assert(s[0] == a[0]);
    assert(s.last() == c.last());
    assert(text::digit_like(a[0]) && text::digit_like(c[c.len() - 1]));
    lemma_digits_are_trimmed(s);
}

/// A date written with four digits of the year and two each of the month and the day is
/// what its day is written as.
pub proof fn plain_dates_are_written_back(
    year: Seq<char>,
    month: Seq<char>,
    day: Seq<char>,
    days: int,
)
    requires
        year.len() == 4 && text::all_digits(year),
        month.len() == 2 && text::all_digits(month),
        day.len() == 2 && text::all_digits(day),
        date_of_text(year + seq!['-'] + month + seq!['-'] + day) == Some(days),
    ensures
        date_text(days) == year + seq!['-'] + month + seq!['-'] + day,
{
    let s = year + seq!['-'] + month + seq!['-'] + day;
    lemma_three_parts(year, month, day, '-');
    assert(s[0] == year[0]);
    assert(s.last() == day[1]);
    lemma_digits_are_trimmed(s);
    text::lemma_digits_come_back(year);
    text::lemma_digits_come_back(month);
    text::lemma_digits_come_back(day);
    assert(text::digit_like(month[0]) && text::digit_like(day[0]));
    let civil = (text::number(year), text::number(month), text::number(day));
    every_number_has_a_day(days);
    day_numbers_are_distinct(civil, civil_of(days));
}

/// Zeros that were cut off the end come back.
proof fn lemma_six_digits_come_back(digits: Seq<char>)
    requires
        digits.len() <= 6,
    ensures
        six_digits(without_trailing_zeros(digits)) == six_digits(digits),
        without_trailing_zeros(digits).len() <= digits.len(),
        forall|i: int|
            0 <= i < without_trailing_zeros(digits).len() ==> #[trigger] without_trailing_zeros(
                digits,
            )[i] == digits[i],
    decreases digits.len(),
{
    if digits.len() > 0 && digits.last() == '0' {
        lemma_six_digits_come_back(digits.drop_last());
        assert(six_digits(digits.drop_last()) =~= six_digits(digits));
        let kept = without_trailing_zeros(digits);
        assert forall|i: int| 0 <= i < kept.len() implies #[trigger] kept[i] == digits[i] by {
            assert(kept[i] == digits.drop_last()[i]);
        }
    }
}

proof fn lemma_fraction_reads_back(fraction: int)
    requires
        0 < fraction < 1_000_000,
    ensures
        fraction_micros(without_trailing_zeros(text::padded_text(fraction, 6))) == Some(fraction),
        without_trailing_zeros(text::padded_text(fraction, 6)).len() > 0,
        text::all_digits(without_trailing_zeros(text::padded_text(fraction, 6))),
{
    let digits = text::padded_text(fraction, 6);
    let kept = without_trailing_zeros(digits);
    assert(vstd::arithmetic::power::pow(10, 6) == 1_000_000) by {
        reveal_with_fuel(vstd::arithmetic::power::pow, 7);
    }
    text::lemma_decimal_text_length(fraction as nat, 6);
    text::lemma_zero_padded_denotes(fraction as nat, 6);
    assert(digits.len() == 6);
    lemma_six_digits_come_back(digits);
    assert(six_digits(digits) =~= digits);
    if kept.len() == 0 {
        assert(six_digits(kept) =~= text::zeros(6) + Seq::<char>::empty());
        text::lemma_zeros_denote_nothing(6, Seq::empty());
    }
    assert forall|i: int| 0 <= i < kept.len() implies text::digit_like(#[trigger] kept[i]) by {
        assert(kept[i] == digits[i]);
    }
}

pub(crate) proof fn lemma_seconds_read_back(seconds: int, fraction: int)
    requires
        0 <= seconds < 60,
        0 <= fraction < 1_000_000,
    ensures
        ({
            let s = seconds_text(seconds, fraction);
            &&& seconds_of_text(s) == Some(seconds * MICROS_PER_SEC + fraction)
            &&& s.len() > 0
            &&& text::digit_like(s[0])
            &&& text::digit_like(s.last())
            &&& forall|i: int|
                0 <= i < s.len() ==> #[trigger] s[i] != ':' && s[i] != ' ' && s[i] != 'T' && (
                text::digit_like(s[i]) || s[i] == '.')
        }),
{
    let whole = text::padded_text(seconds, 2);
    text::lemma_zero_padded_denotes(seconds as nat, 2);
    assert(text::digit_like(whole[0]));
    assert(text::digit_like(whole[whole.len() - 1]));
    if fraction == 0 {
        text::lemma_position_behind(whole, '.', 0, whole.len());
        assert(whole.subrange(0, whole.len() as int) =~= whole);
        assert forall|i: int| 0 <= i < whole.len() implies #[trigger] whole[i] != ':' && whole[i]
            != ' ' && whole[i] != 'T' && (text::digit_like(whole[i]) || whole[i] == '.') by {
            assert(text::digit_like(whole[i]));
        }
    } else {
        let kept = without_trailing_zeros(text::padded_text(fraction, 6));
        let s = whole + seq!['.'] + kept;
        lemma_fraction_reads_back(fraction);
        assert forall|i: int| 0 <= i < whole.len() implies #[trigger] s[i] != '.' by {
            assert(s[i] == whole[i]);
            assert(text::digit_like(whole[i]));
        }
        text::lemma_position_behind(s, '.', 0, whole.len());
        assert(s.subrange(0, whole.len() as int) =~= whole);
        assert(s.subrange(whole.len() as int + 1, s.len() as int) =~= kept);
        assert(s[0] == whole[0]);
        assert(s.last() == kept[kept.len() - 1]);
        assert forall|i: int| 0 <= i < s.len() implies #[trigger] s[i] != ':' && s[i] != ' '
            && s[i] != 'T' && (text::digit_like(s[i]) || s[i] == '.') by {
            if i < whole.len() {
                assert(s[i] == whole[i]);
                assert(text::digit_like(whole[i]));
            } else if i > whole.len() {
                assert(s[i] == kept[i - whole.len() - 1]);
                assert(text::digit_like(kept[i - whole.len() - 1]));
            }
        }
    }
}

/// Hours, minutes and seconds read back from their text.
proof fn lemma_clock_reads_back(hours: int, minutes: int, seconds: Seq<char>, micros: int)
    requires
        0 <= hours < 24,
        0 <= minutes < 60,
        seconds_of_text(seconds) == Some(micros),
        seconds.len() > 0,
        text::digit_like(seconds.last()),
        forall|i: int|
            0 <= i < seconds.len() ==> #[trigger] seconds[i] != ':' && seconds[i] != ' '
                && seconds[i] != 'T',
    ensures
        ({
            let s = text::padded_text(hours, 2) + seq![':'] + text::padded_text(minutes, 2)
                + seq![':'] + seconds;
            &&& time_of_text(s) == Some((hours * 3_600 + minutes * 60) * MICROS_PER_SEC + micros)
            &&& s.len() > 0
            &&& forall|i: int| 0 <= i < s.len() ==> #[trigger] s[i] != ' ' && s[i] != 'T'
            &&& text::trimmed(s) == s
            &&& text::digit_like(s.last())
        }),
{
    let a = text::padded_text(hours, 2);
    let b = text::padded_text(minutes, 2);
    let s = a + seq![':'] + b + seq![':'] + seconds;
    text::lemma_zero_padded_denotes(hours as nat, 2);
    text::lemma_zero_padded_denotes(minutes as nat, 2);
    lemma_three_parts(a, b, seconds, ':');
    assert(s[0] == a[0]);
    assert(text::digit_like(a[0]));
    assert(s.last() == seconds.last());
    lemma_digits_are_trimmed(s);
    assert forall|i: int| 0 <= i < s.len() implies #[trigger] s[i] != ' ' && s[i] != 'T' by {
        if i < a.len() {
            assert(s[i] == a[i]);
            assert(text::digit_like(a[i]));
        } else if a.len() < i < a.len() + 1 + b.len() {
            assert(s[i] == b[i - a.len() - 1]);
            assert(text::digit_like(b[i - a.len() - 1]));
        } else if i > a.len() + 1 + b.len() {
            assert(s[i] == seconds[i - a.len() - b.len() - 2]);
        }
    }
}

/// A time of day reads back from its text.
pub proof fn time_text_reads_back(micros: int)
    ensures
        time_of_text(time_text(micros)) == Some(micros % (MICROS_PER_DAY as int)),
{
    lemma_time_text(micros);
}

proof fn lemma_time_text(micros: int)
    ensures
        time_of_text(time_text(micros)) == Some(micros % (MICROS_PER_DAY as int)),
        time_text(micros).len() > 0,
        forall|i: int|
            0 <= i < time_text(micros).len() ==> #[trigger] time_text(micros)[i] != ' '
                && time_text(micros)[i] != 'T',
        text::trimmed(time_text(micros)) == time_text(micros),
        text::digit_like(time_text(micros).last()),
{
    let rest = micros % (MICROS_PER_DAY as int);
    let total = rest / (MICROS_PER_SEC as int);
    let fraction = rest % (MICROS_PER_SEC as int);
    let hours = total / 3_600;
    let minutes = (total % 3_600) / 60;
    let seconds = total % 60;
    assert(0 <= total < 86_400);
    assert(hours * 3_600 + minutes * 60 + seconds == total);
    assert((hours * 3_600 + minutes * 60) * MICROS_PER_SEC + (seconds * MICROS_PER_SEC + fraction)
        == rest);
    let c = seconds_text(seconds, fraction);
    lemma_seconds_read_back(seconds, fraction);
    lemma_clock_reads_back(hours, minutes, c, seconds * MICROS_PER_SEC + fraction);
    assert(time_text(micros) =~= text::padded_text(hours, 2) + seq![':'] + text::padded_text(
        minutes,
        2,
    ) + seq![':'] + c);
}

/// A timestamp reads back from its text, unless its year lies before the year zero,
/// which the text shows with a sign.
pub proof fn timestamp_text_reads_back(micros: int)
    requires
        i64::MIN <= micros <= i64::MAX,
        civil_of(micros / (MICROS_PER_DAY as int)).0 >= 0,
    ensures
        timestamp_of_text(timestamp_text(micros)) == Some(micros),
{
    let days = micros / (MICROS_PER_DAY as int);
    let date = date_text(days);
    let time = time_text(micros);
    let s = timestamp_text(micros);
    date_text_reads_back(days);
    lemma_time_text(micros);
    every_number_has_a_day(days);
    let (year, month, day) = civil_of(days);
    text::lemma_zero_padded_denotes(year as nat, 4);
    text::lemma_zero_padded_denotes(month as nat, 2);
    text::lemma_zero_padded_denotes(day as nat, 2);
    let a = text::padded_text(year, 4);
    let b = text::padded_text(month, 2);
    let c = text::padded_text(day, 2);
    assert forall|i: int| 0 <= i < date.len() implies #[trigger] date[i] != ' ' && date[i]
        != 'T' by {
        if i < a.len() {
            assert(date[i] == a[i]);
            assert(text::digit_like(a[i]));
        } else if a.len() < i < a.len() + 1 + b.len() {
            assert(date[i] == b[i - a.len() - 1]);
            assert(text::digit_like(b[i - a.len() - 1]));
        } else if i > a.len() + 1 + b.len() {
            assert(date[i] == c[i - a.len() - b.len() - 2]);
            assert(text::digit_like(c[i - a.len() - b.len() - 2]));
        }
    }
    let split = date.len();
    assert forall|i: int| 0 <= i < split implies #[trigger] s[i] != ' ' by {
        assert(s[i] == date[i]);
    }
    text::lemma_position_behind(s, ' ', 0, split);
    assert forall|i: int| 0 <= i < s.len() implies #[trigger] s[i] != 'T' by {
        if i < split {
            assert(s[i] == date[i]);
        } else if i > split {
            assert(s[i] == time[i - split - 1]);
        }
    }
    text::lemma_position_behind(s, 'T', 0, s.len());
    assert(s[0] == date[0] && date[0] == a[0] && text::digit_like(a[0]));
    assert(s.last() == time.last());
    lemma_digits_are_trimmed(s);
    assert(s.subrange(0, split as int) =~= date);
    assert(s.subrange(split as int + 1, s.len() as int) =~= time);
    assert(days * MICROS_PER_DAY + micros % (MICROS_PER_DAY as int) == micros);
    assert(days >= -719528) by {
        lemma_march_grows(-1, march_year(year, month));
        lemma_year_end(year, month, day);
    }
}

/// A date and a time with a space or a `T` between them denote the moment that the two
/// denote, unless there is nothing before the space or nothing behind either mark.
pub proof fn timestamps_are_dates_and_times(date: Seq<char>, mark: char, time: Seq<char>)
    requires
        mark == ' ' || mark == 'T',
        !date.contains(' ') && !date.contains('T'),
        mark == ' ' ==> text::trimmed(date).len() > 0,
        text::trimmed(time).len() > 0,
    ensures
        timestamp_of_text(date + seq![mark] + time) == moment(
            date_of_text(date),
            time_of_text(time),
        ),
{
    let none = Seq::<char>::empty();
    let (before, day, gap) = text::lemma_trimmed_parts(date);
    let (lead, clock, after) = text::lemma_trimmed_parts(time);
    let whole = date + seq![mark] + time;
    let first = if day.len() > 0 {
        day + gap
    } else {
        none
    };
    let start = if day.len() > 0 {
        before
    } else {
        before + gap
    };
    let second = lead + clock;
    let s = first + seq![mark] + second;
    assert(whole =~= start + s + after);
    assert forall|i: int| 0 <= i < start.len() implies text::white_space(#[trigger] start[i]) by {
        if i < before.len() {
            assert(text::white_space(before[i]));
        } else {
            assert(text::white_space(gap[i - before.len()]));
        }
    }
    assert(s[0] == if day.len() > 0 {
        day[0]
    } else {
        mark
    });
    assert(s.last() == clock.last());
    text::lemma_blanks_are_trimmed(start, s, after);
    let split = first.len();
    assert forall|i: int| 0 <= i < split implies #[trigger] s[i] != ' ' && s[i] != 'T' by {
        assert(s[i] == date[before.len() + i]);
        assert(date.contains(date[before.len() + i]));
    }
    text::lemma_position_behind(s, mark, 0, split);
    let other = if mark == ' ' {
        'T'
    } else {
        ' '
    };
    text::lemma_position_in(s, other, 0);
    assert(separator(s) == split);
    assert(s.subrange(0, split as int) =~= first);
    assert(s.subrange(split as int + 1, s.len() as int) =~= second);
    if day.len() > 0 {
        assert(none + day + gap =~= first);
        text::lemma_blanks_are_trimmed(none, day, gap);
    } else {
        assert(text::trimmed(first) == none);
    }
    assert(lead + clock + none =~= second);
    text::lemma_blanks_are_trimmed(lead, clock, none);
}

} // verus!
