//! Text I/O for the `INTERVAL` type, in PostgreSQL's default (`postgres`) style.

use vstd::prelude::*;

use crate::datetime;
use crate::interval::Interval;
use crate::text;

pub mod units;

verus! {

/// Months, days and microseconds before they are known to fit.
pub ghost struct Parts {
    pub months: int,
    pub days: int,
    pub micros: int,
}

/// A 64-bit integer can hold the number.
pub open spec fn fits(n: int) -> bool {
    i64::MIN <= n <= i64::MAX
}

impl Parts {
    pub open spec fn zero() -> Parts {
        Parts { months: 0, days: 0, micros: 0 }
    }

    /// With `n` times a unit more, unless one of the components overflows.
    pub open spec fn plus(self, n: int, unit: Parts) -> Option<Parts> {
        let sum = Parts {
            months: self.months + n * unit.months,
            days: self.days + n * unit.days,
            micros: self.micros + n * unit.micros,
        };
        if fits(n * unit.months) && fits(n * unit.days) && fits(n * unit.micros) && fits(sum.months)
            && fits(sum.days) && fits(sum.micros) {
            Some(sum)
        } else {
            None
        }
    }

    pub open spec fn negated(self) -> Parts {
        Parts { months: -self.months, days: -self.days, micros: -self.micros }
    }

    /// The interval with these components, if there is one.
    pub open spec fn interval(self) -> Option<Interval> {
        if i32::MIN <= self.months <= i32::MAX && i32::MIN <= self.days <= i32::MAX && fits(
            self.micros,
        ) {
            Some(
                Interval {
                    months: self.months as i32,
                    days: self.days as i32,
                    micros: self.micros as i64,
                },
            )
        } else {
            None
        }
    }
}

/// The unit that a word names, in either number and in any case.
pub open spec fn unit_of(word: Seq<char>) -> Option<Parts> {
    let lower = text::ascii_lowered(word);
    let name = if lower.len() > 0 && lower.last() == 's' {
        lower.drop_last()
    } else {
        lower
    };
    let zero = Parts::zero();
    if name == "year"@ || name == "yr"@ {
        Some(Parts { months: 12, ..zero })
    } else if name == "month"@ || name == "mon"@ {
        Some(Parts { months: 1, ..zero })
    } else if name == "week"@ {
        Some(Parts { days: 7, ..zero })
    } else if name == "day"@ {
        Some(Parts { days: 1, ..zero })
    } else if name == "hour"@ || name == "hr"@ {
        Some(Parts { micros: 3_600_000_000, ..zero })
    } else if name == "minute"@ || name == "min"@ {
        Some(Parts { micros: 60_000_000, ..zero })
    } else if name == "second"@ || name == "sec"@ {
        Some(Parts { micros: 1_000_000, ..zero })
    } else {
        None
    }
}

/// The microseconds that hours, minutes and seconds denote. The hours have no upper
/// bound but that of the result.
pub open spec fn duration_of(s: Seq<char>) -> Option<int> {
    let a = text::position_of(s, ':', 0);
    let b = text::position_of(s, ':', a + 1);
    if b >= s.len() {
        None
    } else {
        match (
            text::integer_of(s.subrange(0, a as int)),
            text::integer_of(s.subrange(a as int + 1, b as int)),
            datetime::seconds_of_text(s.subrange(b as int + 1, s.len() as int)),
        ) {
            (Some(hours), Some(minutes), Some(micros)) => {
                let total = (hours * 3_600 + minutes * 60) * 1_000_000 + micros;
                if 0 <= hours && 0 <= minutes < 60 && fits(total) {
                    Some(total)
                } else {
                    None
                }
            },
            _ => None,
        }
    }
}

/// The microseconds that a duration with an optional minus sign denotes.
pub open spec fn signed_duration_of(word: Seq<char>) -> Option<int> {
    if word.len() > 0 && word[0] == '-' {
        match duration_of(word.drop_first()) {
            Some(micros) => Some(-micros),
            None => None,
        }
    } else {
        duration_of(word)
    }
}

/// What the words from `index` on add to `sums`. At least one field must have been
/// read, and `ago` turns everything around when it is the last word.
pub open spec fn fields_from(
    words: Seq<Seq<char>>,
    index: nat,
    sums: Parts,
    seen: bool,
) -> Option<Parts>
    decreases words.len() - index,
{
    if index >= words.len() {
        if seen {
            Some(sums)
        } else {
            None
        }
    } else {
        let word = words[index as int];
        if text::ascii_lowered(word) == "ago"@ {
            if index + 1 == words.len() && seen {
                Some(sums.negated())
            } else {
                None
            }
        } else if word.contains(':') {
            match signed_duration_of(word) {
                Some(micros) if fits(sums.micros + micros) => fields_from(
                    words,
                    index + 1,
                    Parts { micros: sums.micros + micros, ..sums },
                    true,
                ),
                _ => None,
            }
        } else if index + 1 >= words.len() {
            None
        } else {
            match (text::integer_of(word), unit_of(words[index as int + 1])) {
                (Some(n), Some(unit)) if fits(n) => match sums.plus(n, unit) {
                    Some(more) => fields_from(words, index + 2, more, true),
                    None => None,
                },
                _ => None,
            }
        }
    }
}

/// The interval that a text denotes.
#[verifier::opaque]
pub open spec fn interval_of_text(text: Seq<char>) -> Option<Interval> {
    match fields_from(text::words(text), 0, Parts::zero(), false) {
        Some(parts) => parts.interval(),
        None => None,
    }
}

/// What parsed 64-bit components stand for.
pub open spec fn parts_of(months: i64, days: i64, micros: i64) -> Parts {
    Parts { months: months as int, days: days as int, micros: micros as int }
}

fn unit_of_word(word: &[char]) -> (unit: Option<(i64, i64, i64)>)
    ensures
        match unit {
            Some(unit) => unit_of(word@) == Some(parts_of(unit.0, unit.1, unit.2)),
            None => unit_of(word@) is None,
        },
{
    let mut name: Vec<char> = text::to_ascii_lowered(word);
    if name.len() > 0 && name[name.len() - 1] == 's' {
        let _ = name.pop();
        assert(name@ == text::ascii_lowered(word@).drop_last());
    }
    if text::chars_equal(&name, "year") || text::chars_equal(&name, "yr") {
        Some((12, 0, 0))
    } else if text::chars_equal(&name, "month") || text::chars_equal(&name, "mon") {
        Some((1, 0, 0))
    } else if text::chars_equal(&name, "week") {
        Some((0, 7, 0))
    } else if text::chars_equal(&name, "day") {
        Some((0, 1, 0))
    } else if text::chars_equal(&name, "hour") || text::chars_equal(&name, "hr") {
        Some((0, 0, 3_600_000_000))
    } else if text::chars_equal(&name, "minute") || text::chars_equal(&name, "min") {
        Some((0, 0, 60_000_000))
    } else if text::chars_equal(&name, "second") || text::chars_equal(&name, "sec") {
        Some((0, 0, 1_000_000))
    } else {
        None
    }
}

fn plus_times(sum: i64, n: i64, unit: i64) -> (total: Option<i64>)
    ensures
        match total {
            Some(total) => fits(n * unit) && total == sum + n * unit,
            None => !fits(n * unit) || !fits(sum + n * unit),
        },
{
    match n.checked_mul(unit) {
        Some(product) => sum.checked_add(product),
        None => None,
    }
}

fn parse_duration(s: &[char]) -> (micros: Option<i64>)
    ensures
        match micros {
            Some(micros) => duration_of(s@) == Some(micros as int) && micros >= 0,
            None => duration_of(s@) is None,
        },
{
    let a: usize = text::find_char(s, ':', 0);
    if a >= s.len() {
        assert(text::position_of(s@, ':', a as nat + 1) == s@.len());
        return None;
    }
    let b: usize = text::find_char(s, ':', a + 1);
    if b >= s.len() {
        return None;
    }
    let micros: i64 = match datetime::parse_seconds(s, b + 1) {
        Some(micros) => micros,
        None => return None,
    };
    let minutes: i64 = match text::parse_signed(s, a + 1, b) {
        Some(minutes) => minutes,
        None => return None,
    };
    let hours: i64 = match text::parse_signed(s, 0, a) {
        Some(hours) => hours,
        None => return None,
    };
    if hours < 0 || minutes < 0 || minutes >= 60 {
        return None;
    }
    let total: i128 = (hours as i128 * 3_600 + minutes as i128 * 60) * 1_000_000 + micros as i128;
    if total > i64::MAX as i128 {
        None
    } else {
        Some(total as i64)
    }
}

fn parse_signed_duration(word: &[char]) -> (micros: Option<i64>)
    ensures
        match micros {
            Some(micros) => signed_duration_of(word@) == Some(micros as int),
            None => signed_duration_of(word@) is None,
        },
{
    if word.len() > 0 && word[0] == '-' {
        let rest: &[char] = vstd::slice::slice_subrange(word, 1, word.len());
        assert(rest@ == word@.drop_first());
        match parse_duration(rest) {
            Some(micros) => Some(-micros),
            None => None,
        }
    } else {
        parse_duration(word)
    }
}

/// Parse a PostgreSQL "verbose"/`postgres`-style interval literal, e.g.
/// `1 year 2 months 3 days`, `04:05:06`, `1 day 02:30:00`, `-1 day`, or
/// `1 day ago`. Supported units (singular/plural/common abbreviations):
/// year, month/mon, week, day, hour/hr, minute/min, second/sec; plus a
/// `HH:MM:SS[.ffffff]` time component. Quantities are integers (fractional unit
/// quantities like `1.5 hours` are not supported; use the time form). ISO-8601
/// (`P1Y2M...`) is not supported. Returns `None` for malformed input or overflow.
pub fn parse_interval(text: &str) -> (interval: Option<Interval>)
    ensures
        interval == interval_of_text(text@),
{
    reveal(interval_of_text);
    let chars: Vec<char> = text::chars_of(text);
    let words: Vec<Vec<char>> = text::split_words(&chars);
    let ghost views = text::word_views(words@);
    let ghost whole = fields_from(views, 0, Parts::zero(), false);
    let ghost denoted = interval_of_text(text@);
    let mut months: i64 = 0;
    let mut days: i64 = 0;
    let mut micros: i64 = 0;
    let mut seen: bool = false;
    let mut i: usize = 0;
    while i < words.len()
        invariant
            i <= words@.len(),
            views == text::word_views(words@),
            views == text::words(text@),
            whole == fields_from(views, 0, Parts::zero(), false),
            whole == fields_from(views, i as nat, parts_of(months, days, micros), seen),
            denoted == interval_of_text(text@),
            denoted == match whole {
                Some(parts) => parts.interval(),
                None => None,
            },
        decreases words@.len() - i,
    {
        let word: &Vec<char> = &words[i];
        assert(views[i as int] == word@);
        let lower: Vec<char> = text::to_ascii_lowered(word);
        if text::chars_equal(&lower, "ago") {
            if i + 1 != words.len() || !seen {
                return None;
            }
            if months == i64::MIN || days == i64::MIN || micros == i64::MIN {
                return None;
            }
            return checked_interval(-months, -days, -micros);
        }
        let colon: usize = text::find_char(word, ':', 0);
        proof {
            text::lemma_contains_position(word@, ':');
        }
        if colon < word.len() {
            let more: i64 = match parse_signed_duration(word) {
                Some(more) => more,
                None => return None,
            };
            micros = match micros.checked_add(more) {
                Some(micros) => micros,
                None => return None,
            };
            i += 1;
        } else {
            if i + 1 >= words.len() {
                return None;
            }
            assert(views[i + 1] == words@[i + 1]@);
            assert(word@.subrange(0, word@.len() as int) == word@);
            let n: i64 = match text::parse_signed(word, 0, word.len()) {
                Some(n) => n,
                None => return None,
            };
            let unit: (i64, i64, i64) = match unit_of_word(&words[i + 1]) {
                Some(unit) => unit,
                None => return None,
            };
            months = match plus_times(months, n, unit.0) {
                Some(months) => months,
                None => return None,
            };
            days = match plus_times(days, n, unit.1) {
                Some(days) => days,
                None => return None,
            };
            micros = match plus_times(micros, n, unit.2) {
                Some(micros) => micros,
                None => return None,
            };
            i += 2;
        }
        seen = true;
    }
    if !seen {
        return None;
    }
    checked_interval(months, days, micros)
}

fn checked_interval(months: i64, days: i64, micros: i64) -> (interval: Option<Interval>)
    ensures
        interval == parts_of(months, days, micros).interval(),
{
    if months < i32::MIN as i64 || months > i32::MAX as i64 || days < i32::MIN as i64 || days
        > i32::MAX as i64 {
        None
    } else {
        Some(Interval { months: months as i32, days: days as i32, micros })
    }
}

/// The whole years in a count of months, rounded towards zero.
pub open spec fn whole_years(months: int) -> int {
    if months < 0 {
        -((-months) / 12)
    } else {
        months / 12
    }
}

/// The name of a unit, in the plural unless there is exactly one, of either sign.
pub open spec fn counted(n: int, name: Seq<char>) -> Seq<char> {
    if n == 1 || n == -1 {
        name
    } else {
        name + seq!['s']
    }
}

/// A count and its unit, or nothing for zero.
pub open spec fn unit_words(n: int, name: Seq<char>) -> Seq<Seq<char>> {
    if n == 0 {
        Seq::empty()
    } else {
        seq![text::signed_decimal_text(n), counted(n, name)]
    }
}

/// A duration that is not negative as hours, minutes and seconds. The hours are not
/// wrapped to a day.
pub open spec fn duration_text(micros: int) -> Seq<char> {
    let seconds = micros / 1_000_000;
    text::padded_text(seconds / 3_600, 2) + seq![':'] + text::padded_text(
        (seconds % 3_600) / 60,
        2,
    ) + seq![':'] + datetime::seconds_text(seconds % 60, micros % 1_000_000)
}

/// A duration as text.
pub open spec fn signed_duration_text(micros: int) -> Seq<char> {
    if micros < 0 {
        seq!['-'] + duration_text(-micros)
    } else {
        duration_text(micros)
    }
}

/// The words before the duration.
pub open spec fn calendar_words(interval: Interval) -> Seq<Seq<char>> {
    let years = whole_years(interval.months as int);
    unit_words(years, "year"@) + unit_words(interval.months - 12 * years, "mon"@) + unit_words(
        interval.days as int,
        "day"@,
    )
}

/// The words of an interval: years, months and days where they are not zero, and the
/// duration where that is not zero or nothing else is.
pub open spec fn interval_words(interval: Interval) -> Seq<Seq<char>> {
    let calendar = calendar_words(interval);
    if interval.micros != 0 || calendar.len() == 0 {
        calendar.push(signed_duration_text(interval.micros as int))
    } else {
        calendar
    }
}

/// An interval as text.
pub open spec fn interval_text(interval: Interval) -> Seq<char> {
    text::spaced(interval_words(interval))
}

fn push_unit(words: &mut Vec<String>, n: i64, name: &str)
    ensures
        text::string_views(final(words)@) == text::string_views(old(words)@) + unit_words(
            n as int,
            name@,
        ),
        final(words)@.len() == old(words)@.len() + unit_words(n as int, name@).len(),
{
    if n != 0 {
        let mut count: String = String::new();
        text::push_signed_decimal(&mut count, n);
        let mut unit: String = String::new();
        unit.append(name);
        if n != 1 && n != -1 {
            unit.push('s');
        }
        assert(count@ =~= text::signed_decimal_text(n as int));
        assert(unit@ =~= counted(n as int, name@));
        words.push(count);
        words.push(unit);
    }
    assert(text::string_views(words@) =~= text::string_views(old(words)@) + unit_words(
        n as int,
        name@,
    ));
}

/// Format the microsecond component as `[-]HH:MM:SS[.ffffff]`; hours are not
/// wrapped to a day (an interval of 100 hours renders `100:00:00`).
fn format_interval_time(micros: i64) -> (text: String)
    ensures
        text@ == signed_duration_text(micros as int),
{
    let mut out: String = String::new();
    let wide: i128 = micros as i128;
    let size: i128 = if wide < 0 {
        out.push('-');
        -wide
    } else {
        wide
    };
    let seconds: i64 = (size / 1_000_000) as i64;
    let fraction: i64 = (size % 1_000_000) as i64;
    text::push_padded(&mut out, seconds / 3_600, 2);
    out.push(':');
    text::push_padded(&mut out, (seconds % 3_600) / 60, 2);
    out.push(':');
    text::push_padded(&mut out, seconds % 60, 2);
    if fraction != 0 {
        out.push('.');
        datetime::push_fraction(&mut out, fraction);
    }
    assert(out@ =~= signed_duration_text(micros as int));
    out
}

/// Format an interval in PostgreSQL's default (`postgres`) style, e.g.
/// `1 year 2 mons 3 days 04:05:06`. A zero interval renders as `00:00:00`.
pub fn format_interval(iv: &Interval) -> (text: String)
    ensures
        text@ == interval_text(*iv),
{
    let months: i64 = iv.months as i64;
    let years: i64 = if months < 0 {
        -((-months) / 12)
    } else {
        months / 12
    };
    let mut words: Vec<String> = Vec::new();
    push_unit(&mut words, years, "year");
    push_unit(&mut words, months - 12 * years, "mon");
    push_unit(&mut words, iv.days as i64, "day");
    assert(text::string_views(words@) =~= calendar_words(*iv));
    if iv.micros != 0 || words.len() == 0 {
        let time: String = format_interval_time(iv.micros);
        words.push(time);
    }
    assert(text::string_views(words@) =~= interval_words(*iv));
    text::join_spaced(&words)
}

/// The characters of counts and durations.
spec fn plain(c: char) -> bool {
    text::digit_like(c) || c == '-' || c == ':' || c == '.'
}

proof fn lemma_plain_is_no_ago(word: Seq<char>)
    requires
        word.len() > 0,
        forall|i: int| 0 <= i < word.len() ==> plain(#[trigger] word[i]),
    ensures
        text::ascii_lowered(word) != "ago"@,
        text::is_word(word),
{
    reveal_strlit("ago");
    assert(plain(word[0]));
    assert(text::ascii_lowered(word)[0] == word[0]);
    assert forall|i: int| 0 <= i < word.len() implies !text::white_space(#[trigger] word[i]) by {
        assert(plain(word[i]));
    }
}

proof fn lemma_count(n: int)
    ensures
        ({
            let word = text::signed_decimal_text(n);
            &&& text::integer_of(word) == Some(n)
            &&& text::is_word(word)
            &&& text::ascii_lowered(word) != "ago"@
            &&& !word.contains(':')
        }),
{
    let word = text::signed_decimal_text(n);
    text::signed_decimal_text_denotes(n);
    let digits = text::decimal_text(if n < 0 {
        (-n) as nat
    } else {
        n as nat
    });
    text::lemma_decimal_text_denotes(if n < 0 {
        (-n) as nat
    } else {
        n as nat
    });
    assert forall|i: int| 0 <= i < word.len() implies plain(#[trigger] word[i]) && word[i]
        != ':' by {
        if n < 0 {
            if i > 0 {
                assert(word[i] == digits[i - 1]);
                assert(text::digit_like(digits[i - 1]));
            }
        } else {
            assert(word[i] == digits[i]);
            assert(text::digit_like(digits[i]));
        }
    }
    lemma_plain_is_no_ago(word);
}

proof fn lemma_name_is_word(name: Seq<char>, n: int)
    requires
        name.len() > 0,
        forall|i: int| 0 <= i < name.len() ==> 'a' <= #[trigger] name[i] <= 'z',
    ensures
        text::is_word(counted(n, name)),
        text::ascii_lowered(counted(n, name)) == counted(n, name),
        name.last() != 's' ==> {
            let lower = text::ascii_lowered(counted(n, name));
            name == if lower.last() == 's' {
                lower.drop_last()
            } else {
                lower
            }
        },
{
    let word = counted(n, name);
    assert forall|i: int| 0 <= i < word.len() implies 'a' <= #[trigger] word[i] <= 'z' by {
        if i < name.len() {
            assert(word[i] == name[i]);
        }
    }
    assert(text::ascii_lowered(word) =~= word);
    assert((name + seq!['s']).drop_last() =~= name);
}

proof fn lemma_unit_names(n: int)
    ensures
        unit_of(counted(n, "year"@)) == Some(Parts { months: 12, ..Parts::zero() }),
        unit_of(counted(n, "mon"@)) == Some(Parts { months: 1, ..Parts::zero() }),
        unit_of(counted(n, "day"@)) == Some(Parts { days: 1, ..Parts::zero() }),
        text::is_word(counted(n, "year"@)),
        text::is_word(counted(n, "mon"@)),
        text::is_word(counted(n, "day"@)),
{
    reveal_strlit("year");
    reveal_strlit("yr");
    reveal_strlit("month");
    reveal_strlit("mon");
    reveal_strlit("week");
    reveal_strlit("day");
    lemma_name_is_word("year"@, n);
    lemma_name_is_word("mon"@, n);
    lemma_name_is_word("day"@, n);
    assert("mon"@[0] != "year"@[0]);
    assert("day"@[0] != "mon"@[0]);
    assert("day"@.len() != "yr"@.len());
    assert("mon"@.len() != "yr"@.len());
}

/// Reading a count and its unit adds that many units.
proof fn lemma_unit_step(
    words: Seq<Seq<char>>,
    index: nat,
    n: int,
    name: Seq<char>,
    unit: Parts,
    sums: Parts,
    seen: bool,
)
    requires
        fits(n),
        unit_of(counted(n, name)) == Some(unit),
        index + unit_words(n, name).len() <= words.len(),
        forall|k: int|
            0 <= k < unit_words(n, name).len() ==> #[trigger] unit_words(n, name)[k] == words[index
                + k],
        sums.plus(n, unit) is Some,
    ensures
        fields_from(words, index, sums, seen) == fields_from(
            words,
            index + unit_words(n, name).len(),
            sums.plus(n, unit)->0,
            seen || n != 0,
        ),
{
    if n == 0 {
        assert(0 * unit.months == 0 && 0 * unit.days == 0 && 0 * unit.micros == 0);
        assert(sums.plus(n, unit)->0 == sums);
    } else {
        lemma_count(n);
        assert(unit_words(n, name)[0] == words[index as int]);
        assert(unit_words(n, name)[1] == words[index as int + 1]);
    }
}

/// A duration that is not negative reads back from its text.
proof fn lemma_duration(micros: int)
    requires
        0 <= micros <= i64::MAX,
    ensures
        duration_of(duration_text(micros)) == Some(micros),
        duration_text(micros).len() > 0,
        duration_text(micros)[0] != '-',
        duration_text(micros).contains(':'),
        forall|i: int| 0 <= i < duration_text(micros).len() ==> plain(#[trigger] duration_text(micros)[i]),
{
    let total = micros / 1_000_000;
    let fraction = micros % 1_000_000;
    let hours = total / 3_600;
    let minutes = (total % 3_600) / 60;
    let seconds = total % 60;
    let a = text::padded_text(hours, 2);
    let b = text::padded_text(minutes, 2);
    let c = datetime::seconds_text(seconds, fraction);
    let s = a + seq![':'] + b + seq![':'] + c;
    assert(s == duration_text(micros));
    text::lemma_zero_padded_denotes(hours as nat, 2);
    text::lemma_zero_padded_denotes(minutes as nat, 2);
    datetime::lemma_seconds_read_back(seconds, fraction);
    datetime::lemma_three_parts(a, b, c, ':');
    assert(hours * 3_600 + minutes * 60 + seconds == total);
    assert((hours * 3_600 + minutes * 60) * 1_000_000 + (seconds * 1_000_000 + fraction)
        == micros);
    assert(text::digit_like(a[0]));
    assert(s[0] == a[0]);
    assert(s[a.len() as int] == ':');
    assert forall|i: int| 0 <= i < s.len() implies plain(#[trigger] s[i]) by {
        if i < a.len() {
            assert(s[i] == a[i]);
            assert(text::digit_like(a[i]));
        } else if a.len() < i < a.len() + 1 + b.len() {
            assert(s[i] == b[i - a.len() - 1]);
            assert(text::digit_like(b[i - a.len() - 1]));
        } else if i > a.len() + 1 + b.len() {
            assert(s[i] == c[i - a.len() - b.len() - 2]);
        }
    }
}

/// Reading a duration adds it.
proof fn lemma_duration_step(micros: int)
    requires
        i64::MIN < micros <= i64::MAX,
    ensures
        ({
            let word = signed_duration_text(micros);
            &&& signed_duration_of(word) == Some(micros)
            &&& text::is_word(word)
            &&& text::ascii_lowered(word) != "ago"@
            &&& word.contains(':')
        }),
{
    let word = signed_duration_text(micros);
    if micros < 0 {
        let rest = duration_text(-micros);
        lemma_duration(-micros);
        assert(word.drop_first() == rest);
        assert forall|i: int| 0 <= i < word.len() implies plain(#[trigger] word[i]) by {
            if i > 0 {
                assert(word[i] == rest[i - 1]);
            }
        }
        let at = choose|k: int| 0 <= k < rest.len() && rest[k] == ':';
        assert(word[at + 1] == ':');
    } else {
        lemma_duration(micros);
    }
    lemma_plain_is_no_ago(word);
}

spec fn one_year() -> Parts {
    Parts { months: 12, ..Parts::zero() }
}

spec fn one_month() -> Parts {
    Parts { months: 1, ..Parts::zero() }
}

spec fn one_day() -> Parts {
    Parts { days: 1, ..Parts::zero() }
}

/// A text in which every part is a word.
spec fn all_words(parts: Seq<Seq<char>>) -> bool {
    forall|k: int| 0 <= k < parts.len() ==> text::is_word(#[trigger] parts[k])
}

proof fn lemma_unit_words_are_words(n: int)
    ensures
        all_words(unit_words(n, "year"@)),
        all_words(unit_words(n, "mon"@)),
        all_words(unit_words(n, "day"@)),
{
    lemma_count(n);
    lemma_unit_names(n);
}

proof fn lemma_all_words_append(a: Seq<Seq<char>>, b: Seq<Seq<char>>)
    requires
        all_words(a),
        all_words(b),
    ensures
        all_words(a + b),
{
    let both = a + b;
    assert forall|k: int| 0 <= k < both.len() implies text::is_word(#[trigger] both[k]) by {
        if k < a.len() {
            assert(both[k] == a[k]);
        } else {
            assert(both[k] == b[k - a.len()]);
        }
    }
}

/// The text of an interval is made of words.
proof fn lemma_interval_words(interval: Interval)
    requires
        interval.micros != i64::MIN,
    ensures
        text::words(interval_text(interval)) == interval_words(interval),
{
    let ws = interval_words(interval);
    let years = whole_years(interval.months as int);
    let mons = interval.months - 12 * years;
    let a = unit_words(years, "year"@);
    let b = unit_words(mons, "mon"@);
    let c = unit_words(interval.days as int, "day"@);
    let time = seq![signed_duration_text(interval.micros as int)];
    lemma_unit_words_are_words(years);
    lemma_unit_words_are_words(mons);
    lemma_unit_words_are_words(interval.days as int);
    lemma_duration_step(interval.micros as int);
    lemma_all_words_append(a, b);
    lemma_all_words_append(a + b, c);
    lemma_all_words_append(a + b + c, time);
    assert(calendar_words(interval).push(time[0]) =~= a + b + c + time);
    assert(all_words(ws));
    text::spaced_words_are_found(ws);
}

proof fn lemma_plus_months(sums: Parts, n: int, unit: Parts, product: int)
    requires
        unit.days == 0,
        unit.micros == 0,
        product == n * unit.months,
        fits(product),
        fits(sums.months + product),
        fits(sums.days),
        fits(sums.micros),
    ensures
        sums.plus(n, unit) == Some(Parts { months: sums.months + product, ..sums }),
{
    assert(n * 0 == 0);
}

/// Reading years, months and days adds them up.
proof fn lemma_calendar(interval: Interval)
    ensures
        ({
            let ws = interval_words(interval);
            let calendar = calendar_words(interval);
            let sums = Parts {
                months: interval.months as int,
                days: interval.days as int,
                micros: 0,
            };
            fields_from(ws, 0, Parts::zero(), false) == fields_from(
                ws,
                calendar.len(),
                sums,
                calendar.len() != 0,
            )
        }),
{
    let ws = interval_words(interval);
    let years = whole_years(interval.months as int);
    let mons = interval.months - 12 * years;
    let days = interval.days as int;
    let a = unit_words(years, "year"@);
    let b = unit_words(mons, "mon"@);
    let c = unit_words(days, "day"@);
    let s0 = Parts::zero();
    let s1 = Parts { months: 12 * years, ..s0 };
    let s2 = Parts { months: interval.months as int, ..s0 };
    let s3 = Parts { days, ..s2 };
    lemma_unit_names(years);
    lemma_unit_names(mons);
    lemma_unit_names(days);
    assert(years * 12 == years * one_year().months);
    lemma_plus_months(s0, years, one_year(), 12 * years);
    assert(mons * 1 == mons * one_month().months);
    lemma_plus_months(s1, mons, one_month(), mons);
    assert(days * 1 == days * one_day().days);
    assert(days * 0 == 0);
    assert(s2.plus(days, one_day()) == Some(s3));
    assert forall|k: int| 0 <= k < a.len() implies #[trigger] a[k] == ws[0 + k] by {
    }
    lemma_unit_step(ws, 0, years, "year"@, one_year(), s0, false);
    assert forall|k: int| 0 <= k < b.len() implies #[trigger] b[k] == ws[a.len() + k] by {
    }
    lemma_unit_step(ws, a.len(), mons, "mon"@, one_month(), s1, years != 0);
    let seen = years != 0 || mons != 0;
    assert forall|k: int| 0 <= k < c.len() implies #[trigger] c[k] == ws[a.len() + b.len() + k] by {
    }
    lemma_unit_step(ws, a.len() + b.len(), days, "day"@, one_day(), s2, seen);
}

/// An interval reads back from its text, component by component, unless its
/// microseconds are the least that there are: their absolute value does not fit.
pub proof fn interval_text_reads_back(interval: Interval)
    requires
        interval.micros != i64::MIN,
    ensures
        interval_of_text(interval_text(interval)) == Some(interval),
{
    reveal(interval_of_text);
    let ws = interval_words(interval);
    let n = calendar_words(interval).len();
    lemma_interval_words(interval);
    lemma_calendar(interval);
    lemma_duration_step(interval.micros as int);
    let sums = Parts {
        months: interval.months as int,
        days: interval.days as int,
        micros: interval.micros as int,
    };
    if interval.micros != 0 || n == 0 {
        assert(ws[n as int] == signed_duration_text(interval.micros as int));
        assert(fields_from(ws, n + 1, sums, true) == Some(sums));
    }
    assert(fields_from(ws, 0, Parts::zero(), false) == Some(sums));
    assert(sums.interval() == Some(interval));
}

} // verus!
