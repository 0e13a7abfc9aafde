//! What dates and times mean on the Gregorian calendar and the clock of twenty-four hours.

use vstd::prelude::*;

use crate::datetime::{
    self, date_of_text, date_text, day_number, time_of_text, time_text, timestamp_of_text,
    timestamp_text,
};
use crate::text;
use crate::text::numerals::{self, four_digits, two_digits};

verus! {

/// The length of a month by the rule of the Gregorian calendar: thirty days have April,
/// June, September and November, and February has 28, or 29 in a year that four divides,
/// unless a hundred divides it and four hundred does not.
pub open spec fn month_length(year: int, month: int) -> int {
    if month == 4 || month == 6 || month == 9 || month == 11 {
        30
    } else if month != 2 {
        31
    } else if year % 4 != 0 || (year % 100 == 0 && year % 400 != 0) {
        28
    } else {
        29
    }
}

/// Day numbers start at zero on the first of January 1970 and grow by one from each day
/// of a month to the next, by the length of the month from its first day to that of the
/// next month, and in the same way from December to January.
pub proof fn day_numbers_follow_the_calendar(year: int, month: int, day: int)
    requires
        1 <= month <= 12,
        1 <= day <= month_length(year, month),
    ensures
        day_number(1970, 1, 1) == 0,
        day_number(year, month, day) == day_number(year, month, 1) + day - 1,
        month < 12 ==> day_number(year, month + 1, 1) == day_number(year, month, 1) + month_length(
            year,
            month,
        ),
        day_number(year + 1, 1, 1) == day_number(year, 12, 1) + 31,
{
    datetime::lemma_march_step(year);
}

/// A year has 366 days if it is a leap year and 365 otherwise, and four hundred years
/// have 146_097 days.
pub proof fn years_have_their_days(year: int, month: int, day: int)
    ensures
        day_number(year + 1, 1, 1) - day_number(year, 1, 1) == (if year % 4 == 0 && (year % 100 != 0
            || year % 400 == 0) {
            366int
        } else {
            365int
        }),
        day_number(year + 400, month, day) == day_number(year, month, day) + 146_097,
{
    datetime::lemma_march_step(year);
    let y = datetime::march_year(year, month);
    datetime::lemma_shifted(100, y, 4);
    datetime::lemma_shifted(4, y, 100);
    datetime::lemma_shifted(1, y, 400);
}

/// Four digits of a year, two of a month and two of a day, with hyphens between them,
/// denote a day if the month has it and nothing otherwise; and the day is written in the
/// same way.
pub proof fn calendar_texts_denote_days(year: int, month: int, day: int)
    requires
        0 <= year < 10_000,
        0 <= month < 100,
        0 <= day < 100,
    ensures
        ({
            let source = four_digits(year) + seq!['-'] + two_digits(month) + seq!['-']
                + two_digits(day);
            if 1 <= month <= 12 && 1 <= day <= month_length(year, month) {
                &&& date_of_text(source) == Some(day_number(year, month, day))
                &&& date_text(day_number(year, month, day)) == source
            } else {
                date_of_text(source) is None
            }
        }),
{
    let (a, b, c) = (four_digits(year), two_digits(month), two_digits(day));
    let source = a + seq!['-'] + b + seq!['-'] + c;
    numerals::lemma_four_digits(year);
    numerals::lemma_two_digits(month);
    numerals::lemma_two_digits(day);
    datetime::lemma_three_parts(a, b, c, '-');
    assert(source[0] == a[0]);
    assert(source.last() == c[1]);
    assert(text::digit_like(a[0]) && text::digit_like(c[1]));
    datetime::lemma_digits_are_trimmed(source);
    assert(datetime::days_before_march(datetime::march_year(year, month)) <= 366 * 10_000);
    if 1 <= month <= 12 && 1 <= day <= month_length(year, month) {
        datetime::plain_dates_are_written_back(a, b, c, day_number(year, month, day));
    }
}

/// Two digits each of hours, minutes and seconds, with colons between them, denote the
/// time since midnight in microseconds if the hours are below 24 and the others below 60,
/// and nothing otherwise; and the time is written in the same way.
pub proof fn clock_texts_denote_times(hours: int, minutes: int, seconds: int)
    requires
        0 <= hours < 100,
        0 <= minutes < 100,
        0 <= seconds < 100,
    ensures
        ({
            let source = two_digits(hours) + seq![':'] + two_digits(minutes) + seq![':']
                + two_digits(seconds);
            let micros = ((hours * 60 + minutes) * 60 + seconds) * 1_000_000;
            if hours < 24 && minutes < 60 && seconds < 60 {
                time_of_text(source) == Some(micros) && time_text(micros) == source
            } else {
                time_of_text(source) is None
            }
        }),
{
    let (a, b, c) = (two_digits(hours), two_digits(minutes), two_digits(seconds));
    let source = a + seq![':'] + b + seq![':'] + c;
    numerals::lemma_two_digits(hours);
    numerals::lemma_two_digits(minutes);
    numerals::lemma_two_digits(seconds);
    datetime::lemma_three_parts(a, b, c, ':');
    assert(source[0] == a[0]);
    assert(source.last() == c[1]);
    assert(text::digit_like(a[0]) && text::digit_like(c[1]));
    datetime::lemma_digits_are_trimmed(source);
    lemma_whole_seconds(seconds);
    if hours < 24 && minutes < 60 && seconds < 60 {
        let micros = ((hours * 60 + minutes) * 60 + seconds) * 1_000_000;
        let total = (hours * 60 + minutes) * 60 + seconds;
        assert(micros % 86_400_000_000 == micros);
        assert(micros / 1_000_000 == total && micros % 1_000_000 == 0);
        assert(total / 3_600 == hours && (total % 3_600) / 60 == minutes && total % 60 == seconds);
        assert(time_text(micros) =~= source);
    }
}

pub(crate) proof fn lemma_whole_seconds(seconds: int)
    requires
        0 <= seconds < 100,
    ensures
        datetime::seconds_of_text(two_digits(seconds)) == if seconds < 60 {
            Some(seconds * 1_000_000)
        } else {
            None
        },
{
    let c = two_digits(seconds);
    numerals::lemma_two_digits(seconds);
    assert forall|i: int| 0 <= i < c.len() implies #[trigger] c[i] != '.' by {
        assert(text::digit_like(c[i]));
    }
    text::lemma_position_behind(c, '.', 0, c.len());
    assert(c.subrange(0, c.len() as int) =~= c);
}

/// The digits behind the point of the seconds count tenths, hundredths and so on: each
/// digit more adds itself times its power of ten, as far as microseconds go, and further
/// digits add nothing.
pub proof fn fractions_count_by_digits(
    hours: int,
    minutes: int,
    seconds: int,
    fraction: Seq<char>,
    c: char,
    d: int,
)
    requires
        0 <= hours < 24,
        0 <= minutes < 60,
        0 <= seconds < 60,
        fraction.len() > 0,
        forall|i: int| 0 <= i < fraction.len() ==> 48 <= #[trigger] fraction[i] as int <= 57,
        numerals::is_digit(c, d),
    ensures
        ({
            let clock = two_digits(hours) + seq![':'] + two_digits(minutes) + seq![':']
                + two_digits(seconds);
            let whole = ((hours * 60 + minutes) * 60 + seconds) * 1_000_000;
            let shorter = time_of_text(clock + seq!['.'] + fraction);
            let longer = time_of_text(clock + seq!['.'] + fraction.push(c));
            let places = fraction.len();
            &&& time_of_text(clock + seq!['.'] + seq![c]) == Some(whole + d * 100_000)
            &&& shorter is Some && longer is Some
            &&& places == 1 ==> longer->0 == shorter->0 + d * 10_000
            &&& places == 2 ==> longer->0 == shorter->0 + d * 1_000
            &&& places == 3 ==> longer->0 == shorter->0 + d * 100
            &&& places == 4 ==> longer->0 == shorter->0 + d * 10
            &&& places == 5 ==> longer->0 == shorter->0 + d
            &&& places >= 6 ==> longer->0 == shorter->0
        }),
{
    let longer = fraction.push(c);
    assert forall|i: int| 0 <= i < fraction.len() implies text::digit_like(
        #[trigger] fraction[i],
    ) by {}
    assert forall|i: int| 0 <= i < longer.len() implies text::digit_like(#[trigger] longer[i]) by {
        if i < fraction.len() {
            assert(longer[i] == fraction[i]);
        }
    }
    assert(text::all_digits(seq![c]));
    lemma_fraction(hours, minutes, seconds, fraction);
    lemma_fraction(hours, minutes, seconds, longer);
    lemma_fraction(hours, minutes, seconds, seq![c]);
    lemma_six(datetime::six_digits(fraction));
    lemma_six(datetime::six_digits(longer));
    lemma_six(datetime::six_digits(seq![c]));
}

proof fn lemma_six(s: Seq<char>)
    requires
        s.len() == 6,
    ensures
        text::number(s) == text::digit_value(s[0]) * 100_000 + text::digit_value(s[1]) * 10_000
            + text::digit_value(s[2]) * 1_000 + text::digit_value(s[3]) * 100 + text::digit_value(
            s[4],
        ) * 10 + text::digit_value(s[5]),
{
    let s5 = s.drop_last();
    let s4 = s5.drop_last();
    let s3 = s4.drop_last();
    let s2 = s3.drop_last();
    let s1 = s2.drop_last();
    assert(s1.drop_last() =~= Seq::<char>::empty());
    assert(s5.last() == s[4] && s4.last() == s[3] && s3.last() == s[2] && s2.last() == s[1]
        && s1.last() == s[0]);
    reveal_with_fuel(text::number, 7);
}

proof fn lemma_fraction(hours: int, minutes: int, seconds: int, fraction: Seq<char>)
    requires
        0 <= hours < 24,
        0 <= minutes < 60,
        0 <= seconds < 60,
        fraction.len() > 0,
        text::all_digits(fraction),
    ensures
        time_of_text(
            two_digits(hours) + seq![':'] + two_digits(minutes) + seq![':'] + two_digits(seconds)
                + seq!['.'] + fraction,
        ) == Some(
            ((hours * 60 + minutes) * 60 + seconds) * 1_000_000 + text::number(
                datetime::six_digits(fraction),
            ),
        ),
{
    let (a, b, w) = (two_digits(hours), two_digits(minutes), two_digits(seconds));
    let c = w + seq!['.'] + fraction;
    let source = a + seq![':'] + b + seq![':'] + c;
    assert(source =~= a + seq![':'] + b + seq![':'] + w + seq!['.'] + fraction);
    numerals::lemma_two_digits(hours);
    numerals::lemma_two_digits(minutes);
    numerals::lemma_two_digits(seconds);
    datetime::lemma_three_parts(a, b, c, ':');
    assert(source[0] == a[0]);
    assert(source.last() == fraction[fraction.len() - 1]);
    assert(text::digit_like(a[0]) && text::digit_like(fraction[fraction.len() - 1]));
    datetime::lemma_digits_are_trimmed(source);
    assert forall|i: int| 0 <= i < 2 implies #[trigger] c[i] != '.' by {
        assert(c[i] == w[i]);
        assert(text::digit_like(w[i]));
    }
    text::lemma_position_behind(c, '.', 0, 2);
    assert(c.subrange(0, 2) =~= w);
    assert(c.subrange(3, c.len() as int) =~= fraction);
}

/// A timestamp counts the microseconds of whole days and of the time of its last day: a
/// date and a time, with a space or a `T` between them, denote as many as both together,
/// and are nothing where either is nothing or the sum does not fit.
pub proof fn timestamps_count_days_and_times(date: Seq<char>, mark: char, time: Seq<char>)
    requires
        mark == ' ' || mark == 'T',
        !date.contains(' ') && !date.contains('T'),
        date_of_text(date) is Some,
        time_of_text(time) is Some,
        text::trimmed(date).len() > 0,
        text::trimmed(time).len() > 0,
    ensures
        ({
            let midnight = date_of_text(date)->0 * 86_400_000_000;
            let total = midnight + time_of_text(time)->0;
            timestamp_of_text(date + seq![mark] + time) == if i64::MIN <= midnight && total
                <= i64::MAX {
                Some(total)
            } else {
                None
            }
        }),
{
    datetime::timestamps_are_dates_and_times(date, mark, time);
    lemma_times_are_positive(time);
}

proof fn lemma_times_are_positive(time: Seq<char>)
    requires
        time_of_text(time) is Some,
    ensures
        0 <= time_of_text(time)->0 < 86_400_000_000,
{
    let s = text::trimmed(time);
    let a = text::position_of(s, ':', 0);
    let b = text::position_of(s, ':', a + 1);
    let c = s.subrange(b as int + 1, s.len() as int);
    let dot = text::position_of(c, '.', 0);
    let fraction = c.subrange(dot as int + 1, c.len() as int);
    if dot < c.len() {
        let six = datetime::six_digits(fraction);
        assert forall|i: int| 0 <= i < 6 implies text::digit_like(#[trigger] six[i]) by {
            if i < fraction.len() {
                assert(text::digit_like(fraction[i]));
            }
        }
        lemma_six(six);
    }
}

/// A timestamp is written as its date, a space and its time of day.
pub proof fn timestamps_are_written_as_dates_and_times(day: int, time: int)
    requires
        0 <= time < 86_400_000_000,
    ensures
        timestamp_text(day * 86_400_000_000 + time) == date_text(day) + seq![' '] + time_text(time),
{
    let micros = day * 86_400_000_000 + time;
    assert(micros / 86_400_000_000 == day);
    assert(micros % 86_400_000_000 == time);
    assert(time % 86_400_000_000 == time);
}

} // verus!
