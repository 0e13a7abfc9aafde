//! What the fields of an interval mean.

use vstd::prelude::*;

use crate::datetime;
use crate::datetime::calendar;
use crate::interval::Interval;
use crate::interval_text::{self, fields_from, fits, interval_of_text, unit_of, Parts};
use crate::text;
use crate::text::numerals::{self, two_digits};

verus! {

/// A count and a unit, with a space between them.
pub open spec fn amount(n: int, unit: Seq<char>) -> Seq<char> {
    text::signed_decimal_text(n) + seq![' '] + unit
}

/// The interval of so many months, if there is one.
pub open spec fn months(n: int) -> Option<Interval> {
    if i32::MIN <= n <= i32::MAX {
        Some(Interval { months: n as i32, days: 0, micros: 0 })
    } else {
        None
    }
}

/// The interval of so many days, if there is one.
pub open spec fn days(n: int) -> Option<Interval> {
    if i32::MIN <= n <= i32::MAX {
        Some(Interval { months: 0, days: n as i32, micros: 0 })
    } else {
        None
    }
}

/// The interval of so many microseconds, if there is one.
pub open spec fn micros(n: int) -> Option<Interval> {
    if i64::MIN <= n <= i64::MAX {
        Some(Interval { months: 0, days: 0, micros: n as i64 })
    } else {
        None
    }
}

proof fn lemma_amount(n: int, unit: Seq<char>)
    requires
        text::is_word(unit),
    ensures
        interval_of_text(amount(n, unit)) == match unit_of(unit) {
            Some(parts) if fits(n) => match Parts::zero().plus(n, parts) {
                Some(sums) => sums.interval(),
                None => None,
            },
            _ => None,
        },
{
    let ws = seq![text::signed_decimal_text(n), unit];
    reveal(interval_of_text);
    interval_text::lemma_count(n);
    text::spaced_words_are_found(ws);
    assert(ws.skip(1) =~= seq![unit]);
    reveal_with_fuel(text::spaced, 2);
    assert(text::spaced(ws) =~= amount(n, unit));
    reveal_with_fuel(fields_from, 2);
}

proof fn lemma_calendar_units(k: int)
    ensures
        unit_of(interval_text::counted(k, "year"@)) == Some(Parts { months: 12, ..Parts::zero() }),
        unit_of(interval_text::counted(k, "yr"@)) == Some(Parts { months: 12, ..Parts::zero() }),
        unit_of(interval_text::counted(k, "month"@)) == Some(Parts { months: 1, ..Parts::zero() }),
        unit_of(interval_text::counted(k, "mon"@)) == Some(Parts { months: 1, ..Parts::zero() }),
        unit_of(interval_text::counted(k, "week"@)) == Some(Parts { days: 7, ..Parts::zero() }),
        unit_of(interval_text::counted(k, "day"@)) == Some(Parts { days: 1, ..Parts::zero() }),
        text::is_word(interval_text::counted(k, "year"@)),
        text::is_word(interval_text::counted(k, "yr"@)),
        text::is_word(interval_text::counted(k, "month"@)),
        text::is_word(interval_text::counted(k, "mon"@)),
        text::is_word(interval_text::counted(k, "week"@)),
        text::is_word(interval_text::counted(k, "day"@)),
{
    reveal_strlit("year");
    reveal_strlit("yr");
    reveal_strlit("month");
    reveal_strlit("mon");
    reveal_strlit("week");
    reveal_strlit("day");
    interval_text::lemma_name_is_word("year"@, k);
    interval_text::lemma_name_is_word("yr"@, k);
    interval_text::lemma_name_is_word("month"@, k);
    interval_text::lemma_name_is_word("mon"@, k);
    interval_text::lemma_name_is_word("week"@, k);
    interval_text::lemma_name_is_word("day"@, k);
    assert("year"@[0] == 'y' && "yr"@[0] == 'y' && "month"@[0] == 'm' && "mon"@[0] == 'm');
    assert("week"@[0] == 'w' && "day"@[0] == 'd');
}

proof fn lemma_clock_units(k: int)
    ensures
        unit_of(interval_text::counted(k, "hour"@)) == Some(
            Parts { micros: 3_600_000_000, ..Parts::zero() },
        ),
        unit_of(interval_text::counted(k, "hr"@)) == Some(
            Parts { micros: 3_600_000_000, ..Parts::zero() },
        ),
        unit_of(interval_text::counted(k, "minute"@)) == Some(
            Parts { micros: 60_000_000, ..Parts::zero() },
        ),
        unit_of(interval_text::counted(k, "min"@)) == Some(
            Parts { micros: 60_000_000, ..Parts::zero() },
        ),
        unit_of(interval_text::counted(k, "second"@)) == Some(
            Parts { micros: 1_000_000, ..Parts::zero() },
        ),
        unit_of(interval_text::counted(k, "sec"@)) == Some(
            Parts { micros: 1_000_000, ..Parts::zero() },
        ),
        text::is_word(interval_text::counted(k, "hour"@)),
        text::is_word(interval_text::counted(k, "hr"@)),
        text::is_word(interval_text::counted(k, "minute"@)),
        text::is_word(interval_text::counted(k, "min"@)),
        text::is_word(interval_text::counted(k, "second"@)),
        text::is_word(interval_text::counted(k, "sec"@)),
{
    reveal_strlit("year");
    reveal_strlit("yr");
    reveal_strlit("month");
    reveal_strlit("mon");
    reveal_strlit("week");
    reveal_strlit("day");
    reveal_strlit("hour");
    reveal_strlit("hr");
    reveal_strlit("minute");
    reveal_strlit("min");
    reveal_strlit("second");
    reveal_strlit("sec");
    interval_text::lemma_name_is_word("hour"@, k);
    interval_text::lemma_name_is_word("hr"@, k);
    interval_text::lemma_name_is_word("minute"@, k);
    interval_text::lemma_name_is_word("min"@, k);
    interval_text::lemma_name_is_word("second"@, k);
    interval_text::lemma_name_is_word("sec"@, k);
    assert("year"@[0] == 'y' && "yr"@[0] == 'y' && "month"@[0] == 'm' && "mon"@[0] == 'm');
    assert("week"@[0] == 'w' && "day"@[0] == 'd' && "hour"@[0] == 'h' && "hr"@[0] == 'h');
    assert("minute"@[0] == 'm' && "min"@[0] == 'm' && "second"@[0] == 's' && "sec"@[0] == 's');
    assert("month"@[1] == 'o' && "mon"@[1] == 'o' && "minute"@[1] == 'i' && "min"@[1] == 'i');
}

proof fn lemma_micros(n: int, unit: Seq<char>, size: int)
    requires
        text::is_word(unit),
        unit_of(unit) == Some(Parts { micros: size, ..Parts::zero() }),
        fits(n),
        size >= 1,
    ensures
        interval_of_text(amount(n, unit)) == micros(n * size),
{
    lemma_amount(n, unit);
    assert(n * 0 == 0);
}

proof fn lemma_days(n: int, unit: Seq<char>, size: int)
    requires
        text::is_word(unit),
        unit_of(unit) == Some(Parts { days: size, ..Parts::zero() }),
        fits(n),
        size >= 1,
    ensures
        interval_of_text(amount(n, unit)) == days(n * size),
{
    lemma_amount(n, unit);
    assert(n * 0 == 0);
}

proof fn lemma_months(n: int, unit: Seq<char>, size: int)
    requires
        text::is_word(unit),
        unit_of(unit) == Some(Parts { months: size, ..Parts::zero() }),
        fits(n),
        size >= 1,
    ensures
        interval_of_text(amount(n, unit)) == months(n * size),
{
    lemma_amount(n, unit);
    assert(n * 0 == 0);
}

/// A count of a unit denotes that many of it, in the singular and in the plural: a second
/// is a million microseconds, a minute sixty million, an hour 3_600 million, a day one
/// day, a week seven, a month one month and a year twelve. Where the interval does not
/// fit there is none.
pub proof fn units_measure_time(n: int, plural: bool)
    requires
        i64::MIN <= n <= i64::MAX,
    ensures
        ({
            let of = |name: Seq<char>|
                interval_of_text(
                    amount(
                        n,
                        if plural {
                            name + seq!['s']
                        } else {
                            name
                        },
                    ),
                );
            &&& of("second"@) == micros(n * 1_000_000)
            &&& of("sec"@) == micros(n * 1_000_000)
            &&& of("minute"@) == micros(n * 60_000_000)
            &&& of("min"@) == micros(n * 60_000_000)
            &&& of("hour"@) == micros(n * 3_600_000_000)
            &&& of("hr"@) == micros(n * 3_600_000_000)
            &&& of("day"@) == days(n)
            &&& of("week"@) == days(n * 7)
            &&& of("month"@) == months(n)
            &&& of("mon"@) == months(n)
            &&& of("year"@) == months(n * 12)
            &&& of("yr"@) == months(n * 12)
        }),
{
    let k: int = if plural {
        2
    } else {
        1
    };
    assert(interval_of_text(amount(n, interval_text::counted(k, "second"@))) == micros(n * 1_000_000)) by {
        lemma_clock_units(k);
        lemma_micros(n, interval_text::counted(k, "second"@), 1_000_000);
    }
    assert(interval_of_text(amount(n, interval_text::counted(k, "sec"@))) == micros(n * 1_000_000)) by {
        lemma_clock_units(k);
        lemma_micros(n, interval_text::counted(k, "sec"@), 1_000_000);
    }
    assert(interval_of_text(amount(n, interval_text::counted(k, "minute"@))) == micros(n * 60_000_000)) by {
        lemma_clock_units(k);
        lemma_micros(n, interval_text::counted(k, "minute"@), 60_000_000);
    }
    assert(interval_of_text(amount(n, interval_text::counted(k, "min"@))) == micros(n * 60_000_000)) by {
        lemma_clock_units(k);
        lemma_micros(n, interval_text::counted(k, "min"@), 60_000_000);
    }
    assert(interval_of_text(amount(n, interval_text::counted(k, "hour"@))) == micros(n * 3_600_000_000)) by {
        lemma_clock_units(k);
        lemma_micros(n, interval_text::counted(k, "hour"@), 3_600_000_000);
    }
    assert(interval_of_text(amount(n, interval_text::counted(k, "hr"@))) == micros(n * 3_600_000_000)) by {
        lemma_clock_units(k);
        lemma_micros(n, interval_text::counted(k, "hr"@), 3_600_000_000);
    }
    assert(interval_of_text(amount(n, interval_text::counted(k, "day"@))) == days(n)) by {
        lemma_calendar_units(k);
        lemma_days(n, interval_text::counted(k, "day"@), 1);
    }
    assert(interval_of_text(amount(n, interval_text::counted(k, "week"@))) == days(n * 7)) by {
        lemma_calendar_units(k);
        lemma_days(n, interval_text::counted(k, "week"@), 7);
    }
    assert(interval_of_text(amount(n, interval_text::counted(k, "month"@))) == months(n)) by {
        lemma_calendar_units(k);
        lemma_months(n, interval_text::counted(k, "month"@), 1);
    }
    assert(interval_of_text(amount(n, interval_text::counted(k, "mon"@))) == months(n)) by {
        lemma_calendar_units(k);
        lemma_months(n, interval_text::counted(k, "mon"@), 1);
    }
    assert(interval_of_text(amount(n, interval_text::counted(k, "year"@))) == months(n * 12)) by {
        lemma_calendar_units(k);
        lemma_months(n, interval_text::counted(k, "year"@), 12);
    }
    assert(interval_of_text(amount(n, interval_text::counted(k, "yr"@))) == months(n * 12)) by {
        lemma_calendar_units(k);
        lemma_months(n, interval_text::counted(k, "yr"@), 12);
    }
}

/// The units fit each other: sixty seconds are a minute, sixty minutes an hour, seven
/// days a week and twelve months a year, any number of times over.
pub proof fn units_fit_each_other(n: int)
    requires
        i64::MIN <= 60 * n <= i64::MAX,
    ensures
        interval_of_text(amount(60 * n, "seconds"@)) == interval_of_text(amount(n, "minutes"@)),
        interval_of_text(amount(60 * n, "minutes"@)) == interval_of_text(amount(n, "hours"@)),
        interval_of_text(amount(7 * n, "days"@)) == interval_of_text(amount(n, "weeks"@)),
        interval_of_text(amount(12 * n, "months"@)) == interval_of_text(amount(n, "years"@)),
{
    lemma_plurals();
    units_measure_time(60 * n, true);
    units_measure_time(7 * n, true);
    units_measure_time(12 * n, true);
    units_measure_time(n, true);
}

proof fn lemma_plurals()
    ensures
        "seconds"@ == "second"@ + seq!['s'],
        "minutes"@ == "minute"@ + seq!['s'],
        "hours"@ == "hour"@ + seq!['s'],
        "days"@ == "day"@ + seq!['s'],
        "weeks"@ == "week"@ + seq!['s'],
        "months"@ == "month"@ + seq!['s'],
        "years"@ == "year"@ + seq!['s'],
{
    reveal_strlit("second");
    reveal_strlit("minute");
    reveal_strlit("hour");
    reveal_strlit("day");
    reveal_strlit("week");
    reveal_strlit("month");
    reveal_strlit("year");
    reveal_strlit("seconds");
    reveal_strlit("minutes");
    reveal_strlit("hours");
    reveal_strlit("days");
    reveal_strlit("weeks");
    reveal_strlit("months");
    reveal_strlit("years");
    assert("seconds"@ =~= "second"@ + seq!['s']);
    assert("minutes"@ =~= "minute"@ + seq!['s']);
    assert("hours"@ =~= "hour"@ + seq!['s']);
    assert("days"@ =~= "day"@ + seq!['s']);
    assert("weeks"@ =~= "week"@ + seq!['s']);
    assert("months"@ =~= "month"@ + seq!['s']);
    assert("years"@ =~= "year"@ + seq!['s']);
}

/// Unit names are read in any case: two words whose characters are the same, but for an
/// upper-case ASCII letter in one where the other has the lower-case one, name the same
/// unit or none.
pub proof fn unit_names_are_read_in_any_case(n: int, upper: Seq<char>, lower: Seq<char>)
    requires
        text::is_word(upper),
        upper.len() == lower.len(),
        forall|i: int|
            0 <= i < upper.len() ==> (#[trigger] upper[i] == lower[i] || (65 <= upper[i] as int <= 90
                && lower[i] as int == upper[i] as int + 32)),
    ensures
        interval_of_text(amount(n, upper)) == interval_of_text(amount(n, lower)),
{
    assert forall|i: int| 0 <= i < lower.len() implies !text::white_space(#[trigger] lower[i]) by {
        assert(!text::white_space(upper[i]));
    }
    assert(text::ascii_lowered(upper) =~= text::ascii_lowered(lower)) by {
        assert forall|i: int| 0 <= i < upper.len() implies text::ascii_lower(#[trigger] upper[i])
            == text::ascii_lower(lower[i]) by {}
    }
    lemma_amount(n, upper);
    lemma_amount(n, lower);
}

proof fn lemma_clock_word(hours: int, minutes: int, seconds: int)
    requires
        0 <= hours < 100,
        0 <= minutes < 100,
        0 <= seconds < 100,
    ensures
        ({
            let word = clock(hours, minutes, seconds);
            &&& text::is_word(word)
            &&& text::ascii_lowered(word) != "ago"@
            &&& word.contains(':')
            &&& interval_text::signed_duration_of(word) == if minutes < 60 && seconds < 60 {
                Some(((hours * 60 + minutes) * 60 + seconds) * 1_000_000)
            } else {
                None
            }
            &&& interval_text::signed_duration_of(seq!['-'] + word) == if minutes < 60 && seconds
                < 60 {
                Some(-(((hours * 60 + minutes) * 60 + seconds) * 1_000_000))
            } else {
                None
            }
        }),
{
    let (a, b, c) = (two_digits(hours), two_digits(minutes), two_digits(seconds));
    let micros = if seconds < 60 {
        Some(seconds * 1_000_000)
    } else {
        None
    };
    assert(a.len() == 2 && text::all_digits(a) && text::integer_of(a) == Some(hours)) by {
        numerals::lemma_two_digits(hours);
    }
    assert(b.len() == 2 && text::all_digits(b) && text::integer_of(b) == Some(minutes)) by {
        numerals::lemma_two_digits(minutes);
    }
    assert(c.len() == 2 && text::all_digits(c)) by {
        numerals::lemma_two_digits(seconds);
    }
    assert(datetime::seconds_of_text(c) == micros) by {
        calendar::lemma_whole_seconds(seconds);
    }
    lemma_three_numbers(a, b, c, hours, minutes, micros);
}

proof fn lemma_three_numbers(
    a: Seq<char>,
    b: Seq<char>,
    c: Seq<char>,
    hours: int,
    minutes: int,
    micros: Option<int>,
)
    requires
        a.len() == 2 && text::all_digits(a) && text::integer_of(a) == Some(hours),
        b.len() == 2 && text::all_digits(b) && text::integer_of(b) == Some(minutes),
        c.len() == 2 && text::all_digits(c),
        0 <= hours < 100,
        0 <= minutes < 100,
        datetime::seconds_of_text(c) == micros,
        micros is Some ==> 0 <= micros->0 < 60_000_000,
    ensures
        ({
            let word = a + seq![':'] + b + seq![':'] + c;
            &&& text::is_word(word)
            &&& text::ascii_lowered(word) != "ago"@
            &&& word.contains(':')
            &&& interval_text::signed_duration_of(word) == match micros {
                Some(micros) if minutes < 60 => Some(
                    (hours * 3_600 + minutes * 60) * 1_000_000 + micros,
                ),
                _ => None,
            }
            &&& interval_text::signed_duration_of(seq!['-'] + word) == match micros {
                Some(micros) if minutes < 60 => Some(
                    -((hours * 3_600 + minutes * 60) * 1_000_000 + micros),
                ),
                _ => None,
            }
        }),
{
    let word = a + seq![':'] + b + seq![':'] + c;
    datetime::lemma_three_parts(a, b, c, ':');
    assert(word[0] == a[0]);
    assert(text::digit_like(a[0]));
    assert(word[2] == ':');
    assert forall|i: int| 0 <= i < word.len() implies interval_text::plain(#[trigger] word[i]) by {
        if i < 2 {
            assert(word[i] == a[i]);
            assert(text::digit_like(a[i]));
        } else if 2 < i < 5 {
            assert(word[i] == b[i - 3]);
            assert(text::digit_like(b[i - 3]));
        } else if i > 5 {
            assert(word[i] == c[i - 6]);
            assert(text::digit_like(c[i - 6]));
        }
    }
    interval_text::lemma_plain_is_no_ago(word);
    assert((seq!['-'] + word).drop_first() =~= word);
    assert((seq!['-'] + word)[0] == '-');
}

/// Hours, minutes and seconds of two digits each, with colons between them.
pub open spec fn clock(hours: int, minutes: int, seconds: int) -> Seq<char> {
    two_digits(hours) + seq![':'] + two_digits(minutes) + seq![':'] + two_digits(seconds)
}

/// The clock form of an interval denotes its hours, minutes and seconds: as many
/// microseconds as the three amounts together, and their negation behind a minus sign.
/// Minutes and seconds beyond 59 are refused.
pub proof fn clock_texts_denote_intervals(hours: int, minutes: int, seconds: int)
    requires
        0 <= hours < 100,
        0 <= minutes < 100,
        0 <= seconds < 100,
    ensures
        ({
            let total = ((hours * 60 + minutes) * 60 + seconds) * 1_000_000;
            let word = clock(hours, minutes, seconds);
            if minutes < 60 && seconds < 60 {
                &&& interval_of_text(word) == micros(total)
                &&& interval_of_text(seq!['-'] + word) == micros(-total)
            } else {
                interval_of_text(word) is None && interval_of_text(seq!['-'] + word) is None
            }
        }),
{
    let word = clock(hours, minutes, seconds);
    let minus = seq!['-'] + word;
    lemma_clock_word(hours, minutes, seconds);
    assert(text::is_word(minus)) by {
        assert forall|i: int| 0 <= i < minus.len() implies !text::white_space(#[trigger] minus[i]) by {
            if i > 0 {
                assert(minus[i] == word[i - 1]);
                assert(!text::white_space(word[i - 1]));
            }
        }
    }
    let at = choose|k: int| 0 <= k < word.len() && word[k] == ':';
    assert(minus[at + 1] == ':');
    assert(minus.contains(':'));
    assert(text::ascii_lowered(minus) != "ago"@) by {
        reveal_strlit("ago");
        assert(text::ascii_lowered(minus)[0] == '-');
    }
    let total = ((hours * 60 + minutes) * 60 + seconds) * 1_000_000;
    let denoted = if minutes < 60 && seconds < 60 {
        Some(total)
    } else {
        None
    };
    let negated = if minutes < 60 && seconds < 60 {
        Some(-total)
    } else {
        None
    };
    lemma_one_field(word, denoted);
    lemma_one_field(minus, negated);
}

proof fn lemma_one_field(word: Seq<char>, denoted: Option<int>)
    requires
        text::is_word(word),
        text::ascii_lowered(word) != "ago"@,
        word.contains(':'),
        interval_text::signed_duration_of(word) == denoted,
    ensures
        interval_of_text(word) == match denoted {
            Some(n) => micros(n),
            None => None,
        },
{
    lemma_one_word(word);
    reveal(interval_of_text);
    reveal_with_fuel(fields_from, 2);
}

proof fn lemma_one_word(word: Seq<char>)
    requires
        text::is_word(word),
    ensures
        text::words(word) == seq![word],
{
    text::spaced_words_are_found(seq![word]);
    assert(text::spaced(seq![word]) == word);
}

/// Sixty seconds are `00:01:00`, and sixty minutes `01:00:00`.
pub proof fn units_fit_the_clock(minutes: int)
    requires
        0 <= minutes < 60,
    ensures
        interval_of_text(amount(60 * minutes, "seconds"@)) == interval_of_text(
            clock(0, minutes, 0),
        ),
        interval_of_text(amount(minutes, "minutes"@)) == interval_of_text(clock(0, minutes, 0)),
        interval_of_text(amount(minutes, "hours"@)) == interval_of_text(clock(minutes, 0, 0)),
        interval_of_text(amount(minutes, "seconds"@)) == interval_of_text(clock(0, 0, minutes)),
{
    lemma_plurals();
    units_measure_time(60 * minutes, true);
    units_measure_time(minutes, true);
    clock_texts_denote_intervals(0, minutes, 0);
    clock_texts_denote_intervals(minutes, 0, 0);
    clock_texts_denote_intervals(0, 0, minutes);
}

/// The fields at the beginning are read first.
proof fn lemma_fields_before(
    words: Seq<Seq<char>>,
    tail: Seq<Seq<char>>,
    index: nat,
    sums: Parts,
    seen: bool,
)
    requires
        index <= words.len(),
        words.len() > 0,
        text::ascii_lowered(words.last()) != "ago"@,
        fields_from(words, index, sums, seen) is Some,
    ensures
        fields_from(words + tail, index, sums, seen) == fields_from(
            words + tail,
            words.len(),
            fields_from(words, index, sums, seen)->0,
            true,
        ),
    decreases words.len() - index,
{
    let whole = words + tail;
    if index < words.len() {
        let word = words[index as int];
        assert(whole[index as int] == word);
        if text::ascii_lowered(word) == "ago"@ {
            assert(index + 1 == words.len());
        } else if word.contains(':') {
            let micros = interval_text::signed_duration_of(word)->0;
            lemma_fields_before(
                words,
                tail,
                index + 1,
                Parts { micros: sums.micros + micros, ..sums },
                true,
            );
        } else {
            assert(whole[index as int + 1] == words[index as int + 1]);
            let more = sums.plus(
                text::integer_of(word)->0,
                unit_of(words[index as int + 1])->0,
            )->0;
            lemma_fields_before(words, tail, index + 2, more, true);
        }
    }
}

proof fn lemma_words_with(words: Seq<Seq<char>>, tail: Seq<Seq<char>>)
    requires
        interval_text::all_words(words),
        interval_text::all_words(tail),
    ensures
        text::words(text::spaced(words + tail)) == words + tail,
        text::words(text::spaced(words)) == words,
{
    interval_text::lemma_all_words_append(words, tail);
    text::spaced_words_are_found(words + tail);
    text::spaced_words_are_found(words);
}

/// `ago` behind an interval turns it around: it denotes the interval with all of its
/// components negated, where they have a negation.
pub proof fn ago_turns_intervals_around(words: Seq<Seq<char>>, interval: Interval)
    requires
        forall|k: int| 0 <= k < words.len() ==> text::is_word(#[trigger] words[k]),
        words.len() > 0,
        text::ascii_lowered(words.last()) != "ago"@,
        interval_of_text(text::spaced(words)) == Some(interval),
        interval.months > i32::MIN,
        interval.days > i32::MIN,
        interval.micros > i64::MIN,
    ensures
        interval_of_text(text::spaced(words.push("ago"@))) == Some(
            Interval {
                months: (-interval.months) as i32,
                days: (-interval.days) as i32,
                micros: (-interval.micros) as i64,
            },
        ),
{
    let tail = seq!["ago"@];
    reveal(interval_of_text);
    reveal_strlit("ago");
    assert(text::is_word("ago"@));
    assert(interval_text::all_words(tail));
    assert(interval_text::all_words(words));
    lemma_words_with(words, tail);
    assert(words + tail =~= words.push("ago"@));
    lemma_fields_before(words, tail, 0, Parts::zero(), false);
    assert((words + tail)[words.len() as int] == "ago"@);
    assert(text::ascii_lowered("ago"@) =~= "ago"@);
}

/// The fields of an interval add up: with a count of a unit behind it, an interval
/// denotes the sum of the two, component by component, where that fits.
pub proof fn fields_add_up(words: Seq<Seq<char>>, n: int, unit: Seq<char>, a: Interval, b: Interval)
    requires
        forall|k: int| 0 <= k < words.len() ==> text::is_word(#[trigger] words[k]),
        words.len() > 0,
        text::ascii_lowered(words.last()) != "ago"@,
        text::is_word(unit),
        interval_of_text(text::spaced(words)) == Some(a),
        interval_of_text(amount(n, unit)) == Some(b),
        i32::MIN <= a.months + b.months <= i32::MAX,
        i32::MIN <= a.days + b.days <= i32::MAX,
        i64::MIN <= a.micros + b.micros <= i64::MAX,
    ensures
        interval_of_text(
            text::spaced(words + seq![text::signed_decimal_text(n), unit]),
        ) == Some(
            Interval {
                months: (a.months + b.months) as i32,
                days: (a.days + b.days) as i32,
                micros: (a.micros + b.micros) as i64,
            },
        ),
{
    let tail = seq![text::signed_decimal_text(n), unit];
    reveal(interval_of_text);
    interval_text::lemma_count(n);
    lemma_amount(n, unit);
    assert(interval_text::all_words(tail));
    assert(interval_text::all_words(words));
    lemma_words_with(words, tail);
    lemma_fields_before(words, tail, 0, Parts::zero(), false);
    let whole = words + tail;
    let at = words.len();
    assert(whole[at as int] == tail[0] && whole[at as int + 1] == unit);
    assert(fields_from(whole, at + 2, Parts::zero(), true) is Some);
    reveal_with_fuel(fields_from, 2);
}

/// With a time in clock form behind it, an interval denotes the sum of the two, where
/// that fits.
pub proof fn clock_fields_add_up(
    words: Seq<Seq<char>>,
    hours: int,
    minutes: int,
    seconds: int,
    a: Interval,
)
    requires
        forall|k: int| 0 <= k < words.len() ==> text::is_word(#[trigger] words[k]),
        words.len() > 0,
        text::ascii_lowered(words.last()) != "ago"@,
        interval_of_text(text::spaced(words)) == Some(a),
        0 <= hours < 100,
        0 <= minutes < 60,
        0 <= seconds < 60,
        a.micros + ((hours * 60 + minutes) * 60 + seconds) * 1_000_000 <= i64::MAX,
    ensures
        interval_of_text(text::spaced(words.push(clock(hours, minutes, seconds)))) == Some(
            Interval {
                months: a.months,
                days: a.days,
                micros: (a.micros + ((hours * 60 + minutes) * 60 + seconds) * 1_000_000) as i64,
            },
        ),
{
    let word = clock(hours, minutes, seconds);
    let tail = seq![word];
    reveal(interval_of_text);
    lemma_clock_word(hours, minutes, seconds);
    assert(interval_text::all_words(tail));
    assert(interval_text::all_words(words));
    lemma_words_with(words, tail);
    assert(words + tail =~= words.push(word));
    lemma_fields_before(words, tail, 0, Parts::zero(), false);
    assert((words + tail)[words.len() as int] == word);
    reveal_with_fuel(fields_from, 2);
}

/// An interval is written with its years, months and days, each behind its count and in
/// the plural unless there is exactly one, and its time in clock form: what is zero is
/// left out, and what is left stands in this order with single spaces between.
pub proof fn intervals_are_written_by_their_parts(n: i32, hours: int, minutes: int, seconds: int)
    requires
        0 <= hours < 100,
        0 <= minutes < 60,
        0 <= seconds < 60,
    ensures
        ({
            let unit = |name: Seq<char>, n: int|
                amount(
                    n,
                    if n == 1 || n == -1 {
                        name
                    } else {
                        name + seq!['s']
                    },
                );
            let time = ((hours * 60 + minutes) * 60 + seconds) * 1_000_000;
            let written = |months: int, days: int, micros: int|
                interval_text::interval_text(
                    Interval { months: months as i32, days: days as i32, micros: micros as i64 },
                );
            &&& written(0, 0, time) == clock(hours, minutes, seconds)
            &&& time > 0 ==> written(0, 0, -time) == seq!['-'] + clock(hours, minutes, seconds)
            &&& n != 0 ==> written(0, n as int, 0) == unit("day"@, n as int)
            &&& n != 0 && -12 < n < 12 ==> written(n as int, 0, 0) == unit("mon"@, n as int)
            &&& n != 0 && i32::MIN <= 12 * n <= i32::MAX ==> written(12 * n, 0, 0) == unit(
                "year"@,
                n as int,
            )
            &&& n != 0 && time > 0 ==> written(0, n as int, time) == unit("day"@, n as int)
                + seq![' '] + clock(hours, minutes, seconds)
        }),
{
    lemma_written_time(hours, minutes, seconds);
    if n != 0 {
        let time = ((hours * 60 + minutes) * 60 + seconds) * 1_000_000;
        let word = clock(hours, minutes, seconds);
        let day = interval_text::counted(n as int, "day"@);
        let dayed = Interval { months: 0, days: n, micros: 0 };
        let both = Interval { months: 0, days: n, micros: time as i64 };
        let count = text::signed_decimal_text(n as int);
        assert(interval_text::calendar_words(dayed) =~= seq![count, day]);
        assert(interval_text::interval_words(dayed) =~= seq![count, day]);
        lemma_two_words(count, day);
        if time > 0 {
            assert(interval_text::calendar_words(both) =~= seq![count, day]);
            assert(interval_text::interval_words(both) =~= seq![count, day, word]);
            lemma_three_words(count, day, word);
        }
        if -12 < n < 12 {
            let mon = interval_text::counted(n as int, "mon"@);
            let m = Interval { months: n, days: 0, micros: 0 };
            assert(interval_text::whole_years(n as int) == 0);
            assert(interval_text::calendar_words(m) =~= seq![count, mon]);
            assert(interval_text::interval_words(m) =~= seq![count, mon]);
            lemma_two_words(count, mon);
        }
        if i32::MIN <= 12 * n <= i32::MAX {
            let year = interval_text::counted(n as int, "year"@);
            let y = Interval { months: (12 * n) as i32, days: 0, micros: 0 };
            assert(interval_text::whole_years(12 * n) == n);
            assert(interval_text::calendar_words(y) =~= seq![count, year]);
            assert(interval_text::interval_words(y) =~= seq![count, year]);
            lemma_two_words(count, year);
        }
    }
}

proof fn lemma_two_words(a: Seq<char>, b: Seq<char>)
    ensures
        text::spaced(seq![a, b]) == a + seq![' '] + b,
{
    reveal_with_fuel(text::spaced, 2);
    assert(seq![a, b].skip(1) =~= seq![b]);
}

proof fn lemma_three_words(a: Seq<char>, b: Seq<char>, c: Seq<char>)
    ensures
        text::spaced(seq![a, b, c]) == a + seq![' '] + b + seq![' '] + c,
{
    lemma_two_words(b, c);
    assert(seq![a, b, c].skip(1) =~= seq![b, c]);
    assert(text::spaced(seq![a, b, c]) =~= a + seq![' '] + b + seq![' '] + c);
}

proof fn lemma_written_time(hours: int, minutes: int, seconds: int)
    requires
        0 <= hours < 100,
        0 <= minutes < 60,
        0 <= seconds < 60,
    ensures
        ({
            let time = ((hours * 60 + minutes) * 60 + seconds) * 1_000_000;
            let word = clock(hours, minutes, seconds);
            &&& interval_text::signed_duration_text(time) == word
            &&& interval_text::interval_text(Interval { months: 0, days: 0, micros: time as i64 })
                == word
            &&& time > 0 ==> interval_text::interval_text(
                Interval { months: 0, days: 0, micros: (-time) as i64 },
            ) == seq!['-'] + word
        }),
{
    let time = ((hours * 60 + minutes) * 60 + seconds) * 1_000_000;
    let total = (hours * 60 + minutes) * 60 + seconds;
    numerals::lemma_two_digits(hours);
    numerals::lemma_two_digits(minutes);
    numerals::lemma_two_digits(seconds);
    assert(time / 1_000_000 == total && time % 1_000_000 == 0);
    assert(total / 3_600 == hours && (total % 3_600) / 60 == minutes && total % 60 == seconds);
    let word = clock(hours, minutes, seconds);
    assert(interval_text::duration_text(time) == word);
    let none = Seq::<Seq<char>>::empty();
    let clocked = Interval { months: 0, days: 0, micros: time as i64 };
    assert(interval_text::calendar_words(clocked) =~= none);
    assert(interval_text::interval_words(clocked) =~= seq![word]);
    if time > 0 {
        let minus = Interval { months: 0, days: 0, micros: (-time) as i64 };
        assert(interval_text::calendar_words(minus) =~= none);
        assert(interval_text::interval_words(minus) =~= seq![seq!['-'] + word]);
    }
}

} // verus!
