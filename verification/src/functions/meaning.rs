//! What the built-in functions mean: the laws that their results obey.

use vstd::prelude::*;

use crate::context::StatementContext;
use crate::datetime;
use crate::error::{ErrorView, SqlState};
use crate::float::OrderedF64;
use crate::functions::evaluate::{
    self, Evaluation, EvaluationView, FloatCall, FloatOperand, Outcome,
};
use crate::functions::registry::Evaluator;
use crate::functions::strings;
use crate::text;
use crate::value::{Value, ValueView};

verus! {

/// The text that a call results in.
pub open spec fn text_result(outcome: Outcome) -> Option<Seq<char>> {
    match outcome {
        Ok(EvaluationView::Done(ValueView::Text(text))) => Some(text),
        _ => None,
    }
}

/// The integer that a call results in.
pub open spec fn integer_result(outcome: Outcome) -> Option<int> {
    match outcome {
        Ok(EvaluationView::Done(ValueView::Integer(n))) => Some(n as int),
        _ => None,
    }
}

/// The whole number and the millionths that a call asks to be made into a double.
pub open spec fn component_result(outcome: Outcome) -> Option<(int, int)> {
    match outcome {
        Ok(EvaluationView::Float(FloatCall::Component { whole, micros })) => Some(
            (whole as int, micros as int),
        ),
        _ => None,
    }
}

/// The part of a date or timestamp that `EXTRACT` gives for a field.
pub open spec fn extracted(
    field: &str,
    source: ValueView,
    context: StatementContext,
    version: Seq<char>,
) -> Option<(int, int)> {
    component_result(
        Evaluator::Extract.outcome(seq![ValueView::Text(field@), source], context, version),
    )
}

proof fn lemma_field_names()
    ensures
        "year"@ != "month"@,
        "year"@ != "day"@,
        "year"@ != "hour"@,
        "year"@ != "minute"@,
        "year"@ != "second"@,
        "month"@ != "day"@,
        "month"@ != "hour"@,
        "month"@ != "minute"@,
        "month"@ != "second"@,
        "day"@ != "hour"@,
        "day"@ != "minute"@,
        "day"@ != "second"@,
        "hour"@ != "minute"@,
        "hour"@ != "second"@,
        "minute"@ != "second"@,
{
    reveal_strlit("year");
    reveal_strlit("month");
    reveal_strlit("day");
    reveal_strlit("hour");
    reveal_strlit("minute");
    reveal_strlit("second");
    assert("year"@[0] == 'y' && "month"@[0] == 'm' && "day"@[0] == 'd' && "hour"@[0] == 'h');
    assert("minute"@[0] == 'm' && "minute"@[1] == 'i' && "month"@[1] == 'o' && "second"@[0] == 's');
}

/// The clock parts that `EXTRACT` gives of a timestamp put its time of day together
/// again, and each lies in its range: `hour` below 24, `minute` and `second` below 60,
/// and the fraction of the second below one. Its calendar parts are those of its day.
pub proof fn extracted_parts_make_the_timestamp(
    day: i64,
    time: int,
    timestamp: i64,
    context: StatementContext,
    version: Seq<char>,
)
    requires
        0 <= time < 86_400_000_000,
        timestamp == day * 86_400_000_000 + time,
    ensures
        ({
            let source = ValueView::Timestamp(timestamp);
            let hour = extracted("hour", source, context, version);
            let minute = extracted("minute", source, context, version);
            let second = extracted("second", source, context, version);
            let ((h, h_part), (m, m_part), (s, s_part)) = (hour->0, minute->0, second->0);
            &&& hour is Some && minute is Some && second is Some
            &&& 0 <= h < 24 && h_part == 0
            &&& 0 <= m < 60 && m_part == 0
            &&& 0 <= s < 60 && 0 <= s_part < 1_000_000
            &&& (h * 3_600 + m * 60 + s) * 1_000_000 + s_part == time
            &&& extracted("year", source, context, version) == extracted(
                "year",
                ValueView::Date(day),
                context,
                version,
            )
            &&& extracted("month", source, context, version) == extracted(
                "month",
                ValueView::Date(day),
                context,
                version,
            )
            &&& extracted("day", source, context, version) == extracted(
                "day",
                ValueView::Date(day),
                context,
                version,
            )
        }),
{
    lemma_field_names();
    assert(timestamp as int / 86_400_000_000 == day);
    assert(timestamp as int % 86_400_000_000 == time);
}

/// A date is the midnight at its beginning: the clock parts that `EXTRACT` gives of it
/// are zero.
pub proof fn dates_are_midnights(day: i64, context: StatementContext, version: Seq<char>)
    ensures
        extracted("hour", ValueView::Date(day), context, version) == Some((0int, 0int)),
        extracted("minute", ValueView::Date(day), context, version) == Some((0int, 0int)),
        extracted("second", ValueView::Date(day), context, version) == Some((0int, 0int)),
{
    lemma_field_names();
}

/// The calendar parts that `EXTRACT` gives of a date follow the Gregorian calendar from
/// the first of January 1970, day zero, on and back: the day after a day is the next day
/// of its month, or the first of the next month after the last day of a month, or the
/// first of January of the next year after the last of December.
pub proof fn extracted_parts_follow_the_calendar(
    day: i64,
    next: i64,
    context: StatementContext,
    version: Seq<char>,
)
    requires
        next == day + 1,
    ensures
        extracted("year", ValueView::Date(0), context, version) == Some((1970int, 0int)),
        extracted("month", ValueView::Date(0), context, version) == Some((1int, 0int)),
        extracted("day", ValueView::Date(0), context, version) == Some((1int, 0int)),
        ({
            let year = extracted("year", ValueView::Date(day), context, version);
            let month = extracted("month", ValueView::Date(day), context, version);
            let date = extracted("day", ValueView::Date(day), context, version);
            let ((y, y_part), (m, m_part), (d, d_part)) = (year->0, month->0, date->0);
            let leap = y % 4 == 0 && (y % 100 != 0 || y % 400 == 0);
            let last: int = if m == 4 || m == 6 || m == 9 || m == 11 {
                30
            } else if m != 2 {
                31
            } else if leap {
                29
            } else {
                28
            };
            &&& year is Some && month is Some && date is Some
            &&& y_part == 0 && m_part == 0 && d_part == 0
            &&& 1 <= m <= 12
            &&& 1 <= d <= last
            &&& extracted("year", ValueView::Date(next), context, version) == Some(
                (
                    if d == last && m == 12 {
                        y + 1
                    } else {
                        y
                    },
                    0int,
                ),
            )
            &&& extracted("month", ValueView::Date(next), context, version) == Some(
                (
                    if d < last {
                        m
                    } else if m < 12 {
                        m + 1
                    } else {
                        1
                    },
                    0int,
                ),
            )
            &&& extracted("day", ValueView::Date(next), context, version) == Some(
                (
                    if d < last {
                        d + 1
                    } else {
                        1
                    },
                    0int,
                ),
            )
        }),
{
    lemma_field_names();
    datetime::days_follow_each_other(day as int);
    lemma_year_fits(day);
    lemma_year_fits(next);
    datetime::every_number_has_a_day(day as int);
    datetime::every_number_has_a_day(next as int);
}

proof fn lemma_year_fits(day: i64)
    ensures
        i64::MIN <= datetime::civil_of(day as int).0 <= i64::MAX,
{
    datetime::every_number_has_a_day(day as int);
    let civil = datetime::civil_of(day as int);
    if civil.0 < i64::MIN || civil.0 > i64::MAX {
        datetime::lemma_far_years(civil.0);
        assert(datetime::is_civil(civil.0, civil.1, civil.2));
    }
}

/// `MOD(a, b)` is the remainder of a division that rounds towards zero: it differs from
/// `a` by a multiple of `b`, is nearer to zero than `b`, and does not have the opposite
/// sign of `a`. A division by zero is refused.
pub proof fn mod_is_the_remainder(a: i64, b: i64, context: StatementContext, version: Seq<char>)
    ensures
        ({
            let outcome = Evaluator::Mod.outcome(
                seq![ValueView::Integer(a), ValueView::Integer(b)],
                context,
                version,
            );
            let r = integer_result(outcome);
            if b == 0 {
                outcome matches Err(error) && error.code == SqlState::DivisionByZero
            } else {
                &&& r is Some
                &&& exists|q: int| a == #[trigger] (q * b) + r->0
                &&& b > 0 ==> -b < r->0 < b
                &&& b < 0 ==> b < r->0 < -b
                &&& a >= 0 ==> r->0 >= 0
                &&& a <= 0 ==> r->0 <= 0
            }
        }),
{
    if b != 0 {
        let divisor = if b < 0 {
            -(b as int)
        } else {
            b as int
        };
        let size = if a < 0 {
            -(a as int)
        } else {
            a as int
        };
        vstd::arithmetic::div_mod::lemma_fundamental_div_mod(size, divisor);
        vstd::arithmetic::div_mod::lemma_mod_bound(size, divisor);
        let k = size / divisor;
        let q = if (a < 0) == (b < 0) {
            k
        } else {
            -k
        };
        let r = evaluate::truncated_remainder(a as int, b as int);
        assert(a == q * b + r) by (nonlinear_arith)
            requires
                size == divisor * k + size % divisor,
                r == if a < 0 {
                    -(size % divisor)
                } else {
                    size % divisor
                },
                divisor == if b < 0 {
                    -(b as int)
                } else {
                    b as int
                },
                size == if a < 0 {
                    -(a as int)
                } else {
                    a as int
                },
                q == if (a < 0) == (b < 0) {
                    k
                } else {
                    -k
                },
        ;
        assert(r as i64 == r);
    }
}

/// `ABS` of an integer is not negative and is the integer or its negation; where no
/// integer is, the call is refused. `ABS` of a double clears the sign bit and nothing
/// else.
pub proof fn abs_is_the_distance_from_zero(
    n: i64,
    bits: u64,
    context: StatementContext,
    version: Seq<char>,
)
    ensures
        ({
            let outcome = Evaluator::Abs.outcome(seq![ValueView::Integer(n)], context, version);
            let r = integer_result(outcome);
            if -n > i64::MAX {
                outcome matches Err(error) && error.code == SqlState::NumericValueOutOfRange
            } else {
                r is Some && r->0 >= 0 && (r->0 == n || r->0 == -n)
            }
        }),
        ({
            let outcome = Evaluator::Abs.outcome(
                seq![ValueView::Float(OrderedF64(bits))],
                context,
                version,
            );
            &&& outcome matches Ok(EvaluationView::Done(ValueView::Float(f)))
            &&& f.0 < 0x8000_0000_0000_0000
            &&& f.0 == bits || f.0 + 0x8000_0000_0000_0000 == bits
        }),
{
}

/// `FLOOR`, `CEIL` and `ROUND` leave integers as they are, and ask for the rounding of
/// the double that they are given. `SQRT` and `POWER` ask for the function of their own
/// arguments, in their order, and no square root is taken of a negative number.
pub proof fn float_functions_ask_for_their_arguments(
    n: i64,
    f: OrderedF64,
    g: OrderedF64,
    context: StatementContext,
    version: Seq<char>,
)
    ensures
        integer_result(Evaluator::Floor.outcome(seq![ValueView::Integer(n)], context, version))
            == Some(n as int),
        integer_result(Evaluator::Ceil.outcome(seq![ValueView::Integer(n)], context, version))
            == Some(n as int),
        integer_result(Evaluator::Round.outcome(seq![ValueView::Integer(n)], context, version))
            == Some(n as int),
        Evaluator::Floor.outcome(seq![ValueView::Float(f)], context, version) == Ok::<
            EvaluationView,
            ErrorView,
        >(EvaluationView::Float(FloatCall::Floor(f))),
        Evaluator::Ceil.outcome(seq![ValueView::Float(f)], context, version) == Ok::<
            EvaluationView,
            ErrorView,
        >(EvaluationView::Float(FloatCall::Ceil(f))),
        Evaluator::Round.outcome(seq![ValueView::Float(f)], context, version) == Ok::<
            EvaluationView,
            ErrorView,
        >(EvaluationView::Float(FloatCall::Round(f))),
        Evaluator::Power.outcome(seq![ValueView::Float(f), ValueView::Integer(n)], context, version)
            == Ok::<EvaluationView, ErrorView>(
            EvaluationView::Float(
                FloatCall::Power(FloatOperand::Double(f), FloatOperand::Integer(n)),
            ),
        ),
        Evaluator::Power.outcome(seq![ValueView::Integer(n), ValueView::Float(g)], context, version)
            == Ok::<EvaluationView, ErrorView>(
            EvaluationView::Float(
                FloatCall::Power(FloatOperand::Integer(n), FloatOperand::Double(g)),
            ),
        ),
        ({
            let outcome = Evaluator::Sqrt.outcome(seq![ValueView::Integer(n)], context, version);
            if n < 0 {
                outcome is Err
            } else {
                outcome == Ok::<EvaluationView, ErrorView>(
                    EvaluationView::Float(FloatCall::Sqrt(FloatOperand::Integer(n))),
                )
            }
        }),
        ({
            let outcome = Evaluator::Sqrt.outcome(seq![ValueView::Float(f)], context, version);
            if 0x8000_0000_0000_0000 < f.0 <= 0xfff0_0000_0000_0000 {
                outcome is Err
            } else {
                outcome == Ok::<EvaluationView, ErrorView>(
                    EvaluationView::Float(FloatCall::Sqrt(FloatOperand::Double(f))),
                )
            }
        }),
{
}

/// `LENGTH` counts characters: the empty text has none, one character counts one, and
/// the length of two texts together is the sum of theirs.
pub proof fn lengths_add_up(
    a: Seq<char>,
    b: Seq<char>,
    c: char,
    context: StatementContext,
    version: Seq<char>,
)
    requires
        a.len() + b.len() <= i64::MAX,
    ensures
        ({
            let of = |text: Seq<char>|
                integer_result(
                    Evaluator::Length.outcome(seq![ValueView::Text(text)], context, version),
                );
            &&& of(Seq::empty()) == Some(0int)
            &&& of(seq![c]) == Some(1int)
            &&& of(a) is Some && of(b) is Some
            &&& of(a + b) == Some(of(a)->0 + of(b)->0)
        }),
{
}

/// `TRIM` takes white space off both ends and nothing else: a text is its trimmed form
/// with white space before and behind it, and the trimmed form neither begins nor ends
/// with white space.
pub proof fn trim_takes_white_space_off_the_ends(
    source: Seq<char>,
    context: StatementContext,
    version: Seq<char>,
) -> (ends: (Seq<char>, Seq<char>))
    ensures
        ({
            let white = |c: char|
                {
                    let code = c as u32;
                    ||| 9 <= code <= 13
                    ||| code == 32
                    ||| code == 0x85
                    ||| code == 0xa0
                    ||| code == 0x1680
                    ||| 0x2000 <= code <= 0x200a
                    ||| code == 0x2028
                    ||| code == 0x2029
                    ||| code == 0x202f
                    ||| code == 0x205f
                    ||| code == 0x3000
                };
            let trimmed = text_result(
                Evaluator::Trim.outcome(seq![ValueView::Text(source)], context, version),
            );
            &&& trimmed is Some
            &&& source == ends.0 + trimmed->0 + ends.1
            &&& forall|i: int| 0 <= i < ends.0.len() ==> white(#[trigger] ends.0[i])
            &&& forall|i: int| 0 <= i < ends.1.len() ==> white(#[trigger] ends.1[i])
            &&& trimmed->0.len() > 0 ==> !white(trimmed->0[0]) && !white(trimmed->0.last())
        }),
{
    let parts = text::lemma_trimmed_parts(source);
    assert(text_result(Evaluator::Trim.outcome(seq![ValueView::Text(source)], context, version))
        == Some(text::trimmed(source)));
    (parts.0, parts.2)
}

/// A text in which `from` does not occur, or whose `from` is empty, is its own
/// replacement.
pub proof fn replacing_what_is_absent_changes_nothing(
    source: Seq<char>,
    from: Seq<char>,
    to: Seq<char>,
    context: StatementContext,
    version: Seq<char>,
)
    requires
        from.len() > 0 ==> forall|i: int|
            0 <= i <= source.len() - from.len() ==> #[trigger] source.subrange(i, i + from.len())
                != from,
    ensures
        text_result(
            Evaluator::Replace.outcome(
                seq![ValueView::Text(source), ValueView::Text(from), ValueView::Text(to)],
                context,
                version,
            ),
        ) == Some(source),
{
    assert(source.skip(0) =~= source);
    lemma_absent(source, from, to, 0);
}

proof fn lemma_absent(source: Seq<char>, from: Seq<char>, to: Seq<char>, start: int)
    requires
        0 <= start <= source.len(),
        from.len() > 0 ==> forall|i: int|
            start <= i <= source.len() - from.len() ==> #[trigger] source.subrange(
                i,
                i + from.len(),
            ) != from,
    ensures
        strings::replaced(source, from, to, start) == source.skip(start),
    decreases source.len() - start,
{
    if from.len() > 0 && start < source.len() {
        lemma_absent(source, from, to, start + 1);
        assert(source.skip(start) =~= seq![source[start]] + source.skip(start + 1));
    }
}

/// Replacing starts at the first occurrence: where `from` stands behind a part of the
/// text and nowhere before, that part stays, `to` takes the place of `from`, and what
/// follows is replaced on its own.
pub proof fn the_first_occurrence_is_replaced(
    before: Seq<char>,
    from: Seq<char>,
    rest: Seq<char>,
    to: Seq<char>,
    context: StatementContext,
    version: Seq<char>,
)
    requires
        from.len() > 0,
        forall|i: int|
            0 <= i < before.len() ==> #[trigger] (before + from + rest).subrange(
                i,
                i + from.len(),
            ) != from,
    ensures
        ({
            let replace = |source: Seq<char>|
                text_result(
                    Evaluator::Replace.outcome(
                        seq![ValueView::Text(source), ValueView::Text(from), ValueView::Text(to)],
                        context,
                        version,
                    ),
                );
            &&& replace(rest) is Some
            &&& replace(before + from + rest) == Some(before + to + replace(rest)->0)
        }),
{
    let whole = before + from + rest;
    lemma_replace_before(before, from, rest, to, 0);
    assert(whole.subrange(before.len() as int, (before.len() + from.len()) as int) =~= from);
    assert(strings::occurs_at(whole, from, before.len() as int));
    lemma_replace_behind(before + from, rest, from, to, 0);
    assert(before.skip(0) =~= before);
    assert(strings::replaced(whole, from, to, 0) =~= before + to + strings::replaced(
        rest,
        from,
        to,
        0,
    ));
}

proof fn lemma_replace_before(
    before: Seq<char>,
    from: Seq<char>,
    rest: Seq<char>,
    to: Seq<char>,
    start: int,
)
    requires
        from.len() > 0,
        0 <= start <= before.len(),
        forall|i: int|
            0 <= i < before.len() ==> #[trigger] (before + from + rest).subrange(
                i,
                i + from.len(),
            ) != from,
    ensures
        strings::replaced(before + from + rest, from, to, start) == before.skip(start)
            + strings::replaced(before + from + rest, from, to, before.len() as int),
    decreases before.len() - start,
{
    let whole = before + from + rest;
    if start < before.len() {
        lemma_replace_before(before, from, rest, to, start + 1);
        assert(whole.subrange(start, start + from.len()) != from);
        assert(before.skip(start) =~= seq![before[start]] + before.skip(start + 1));
        assert(strings::replaced(whole, from, to, start) =~= before.skip(start)
            + strings::replaced(whole, from, to, before.len() as int));
    } else {
        assert(before.skip(start) =~= Seq::<char>::empty());
        assert(strings::replaced(whole, from, to, start) =~= before.skip(start)
            + strings::replaced(whole, from, to, before.len() as int));
    }
}

/// What stands before does not affect the replacements behind.
proof fn lemma_replace_behind(
    head: Seq<char>,
    rest: Seq<char>,
    from: Seq<char>,
    to: Seq<char>,
    start: int,
)
    requires
        from.len() > 0,
        0 <= start <= rest.len(),
    ensures
        strings::replaced(head + rest, from, to, head.len() + start) == strings::replaced(
            rest,
            from,
            to,
            start,
        ),
    decreases rest.len() - start,
{
    let whole = head + rest;
    let place = head.len() + start;
    if start < rest.len() {
        assert(strings::occurs_at(whole, from, place) == strings::occurs_at(rest, from, start)) by {
            if place + from.len() <= whole.len() {
                assert(whole.subrange(place, place + from.len()) =~= rest.subrange(
                    start,
                    start + from.len(),
                ));
            }
        }
        assert(whole[place] == rest[start]);
        if strings::occurs_at(rest, from, start) {
            lemma_replace_behind(head, rest, from, to, (start + from.len()) as int);
        } else {
            lemma_replace_behind(head, rest, from, to, start + 1);
        }
    } else {
        assert(whole.skip(place) =~= rest.skip(start));
    }
}

/// `POSITION` gives the place, counted from one, of the first occurrence of a text in
/// another: it occurs there and nowhere before, and zero says that it occurs nowhere.
pub proof fn position_is_the_first_occurrence(
    needle: Seq<char>,
    source: Seq<char>,
    context: StatementContext,
    version: Seq<char>,
)
    requires
        source.len() < i64::MAX,
    ensures
        ({
            let place = integer_result(
                Evaluator::Position.outcome(
                    seq![ValueView::Text(needle), ValueView::Text(source)],
                    context,
                    version,
                ),
            );
            let occurs = |i: int| source.subrange(i, i + needle.len()) == needle;
            &&& place is Some
            &&& 0 <= place->0
            &&& place->0 == 0 ==> forall|i: int|
                0 <= i <= source.len() - needle.len() ==> !(#[trigger] occurs(i))
            &&& place->0 > 0 ==> place->0 - 1 + needle.len() <= source.len() && occurs(place->0 - 1)
            &&& place->0 > 0 ==> forall|i: int| 0 <= i < place->0 - 1 ==> !(#[trigger] occurs(i))
        }),
{
    lemma_first_occurrence(needle, source, 0);
}

proof fn lemma_first_occurrence(needle: Seq<char>, source: Seq<char>, start: int)
    requires
        0 <= start,
    ensures
        match strings::first_occurrence(source, needle, start) {
            Some(place) => {
                &&& start <= place
                &&& place + needle.len() <= source.len()
                &&& source.subrange(place, place + needle.len()) == needle
                &&& forall|i: int|
                    start <= i < place ==> #[trigger] source.subrange(i, i + needle.len()) != needle
            },
            None => forall|i: int|
                start <= i <= source.len() - needle.len() ==> #[trigger] source.subrange(
                    i,
                    i + needle.len(),
                ) != needle,
        },
    decreases source.len() + 1 - start,
{
    if start + needle.len() <= source.len() && !strings::occurs_at(source, needle, start) {
        lemma_first_occurrence(needle, source, start + 1);
    }
}

/// `LEFT` gives characters from the beginning of a text, and `RIGHT` from its end: as
/// many as asked for, or all but as many as the negative number says, as far as there
/// are any.
pub proof fn left_and_right_count_characters(
    source: Seq<char>,
    n: i64,
    context: StatementContext,
    version: Seq<char>,
)
    ensures
        ({
            let args = seq![ValueView::Text(source), ValueView::Integer(n)];
            let left = text_result(Evaluator::Left.outcome(args, context, version));
            let right = text_result(Evaluator::Right.outcome(args, context, version));
            let wanted = if n >= 0 {
                n as int
            } else {
                source.len() + n
            };
            let count = if wanted < 0 {
                0
            } else if wanted > source.len() {
                source.len() as int
            } else {
                wanted
            };
            &&& left is Some && right is Some
            &&& left->0.len() == count
            &&& right->0.len() == count
            &&& forall|i: int| 0 <= i < count ==> #[trigger] left->0[i] == source[i]
            &&& forall|i: int|
                0 <= i < count ==> #[trigger] right->0[i] == source[source.len() - count + i]
        }),
{
}

/// `CONCAT` puts its texts together in order and passes over NULLs: of no arguments it
/// makes the empty text, and a further argument is added at the end.
pub proof fn concat_puts_texts_together(
    values: Seq<ValueView>,
    more: Seq<char>,
    context: StatementContext,
    version: Seq<char>,
)
    requires
        forall|i: int| 0 <= i < values.len() ==> #[trigger] values[i] is Text || values[i] is Null,
    ensures
        ({
            let concat = |values: Seq<ValueView>|
                text_result(Evaluator::Concat.outcome(values, context, version));
            &&& concat(Seq::empty()) == Some(Seq::<char>::empty())
            &&& concat(values) is Some
            &&& concat(values.push(ValueView::Text(more))) == Some(concat(values)->0 + more)
            &&& concat(values.push(ValueView::Null)) == concat(values)
        }),
{
    lemma_concat_pushed(values, ValueView::Text(more), 0, Seq::empty());
    lemma_concat_pushed(values, ValueView::Null, 0, Seq::empty());
}

proof fn lemma_concat_pushed(
    values: Seq<ValueView>,
    last: ValueView,
    index: nat,
    so_far: Seq<char>,
)
    requires
        forall|i: int| 0 <= i < values.len() ==> #[trigger] values[i] is Text || values[i] is Null,
        last is Text || last is Null,
        index <= values.len(),
    ensures
        ({
            let whole = text_result(evaluate::concat_outcome(values, index, so_far));
            let longer = text_result(evaluate::concat_outcome(values.push(last), index, so_far));
            &&& whole is Some
            &&& longer == Some(
                match last {
                    ValueView::Text(more) => whole->0 + more,
                    _ => whole->0,
                },
            )
        }),
    decreases values.len() - index,
{
    let longer = values.push(last);
    if index < values.len() {
        assert(longer[index as int] == values[index as int]);
        match values[index as int] {
            ValueView::Text(text) => lemma_concat_pushed(values, last, index + 1, so_far + text),
            _ => lemma_concat_pushed(values, last, index + 1, so_far),
        }
    } else {
        assert(longer[index as int] == last);
        reveal_with_fuel(evaluate::concat_outcome, 2);
    }
}

/// `SUBSTRING` gives the characters at the places from `start` on, counted from one, as
/// many as `count` says, in so far as the text has these places; without a count it goes
/// on to the end. A negative count is refused.
pub proof fn substring_is_part_of_the_text(
    source: Seq<char>,
    start: i64,
    count: i64,
    context: StatementContext,
    version: Seq<char>,
)
    requires
        source.len() <= i64::MAX,
    ensures
        ({
            let (string, from) = (ValueView::Text(source), ValueView::Integer(start));
            let rest = text_result(
                Evaluator::Substring.outcome(seq![string, from], context, version),
            );
            let outcome = Evaluator::Substring.outcome(
                seq![string, from, ValueView::Integer(count)],
                context,
                version,
            );
            let part = text_result(outcome);
            let first: int = if start < 1 {
                1
            } else {
                start as int
            };
            &&& rest is Some
            &&& first > source.len() ==> rest->0.len() == 0
            &&& first <= source.len() ==> rest->0.len() == source.len() - first + 1
            &&& forall|i: int|
                0 <= i < rest->0.len() ==> #[trigger] rest->0[i] == source[first - 1 + i]
            &&& count < 0 ==> outcome is Err
            &&& count >= 0 ==> {
                &&& part is Some
                &&& start + count <= first ==> part->0.len() == 0
                &&& first <= start + count <= first + rest->0.len() ==> part->0.len() == start
                    + count - first
                &&& first + rest->0.len() <= start + count ==> part->0 == rest->0
                &&& forall|i: int|
                    0 <= i < part->0.len() ==> #[trigger] part->0[i] == source[first - 1 + i]
            }
        }),
{
}

/// The functions that report on the session and the statement give what the context
/// holds: the statement's timestamp, the database, the user and the backend.
pub proof fn session_functions_report_the_context(
    context: StatementContext,
    version: Seq<char>,
)
    ensures
        ({
            let call = |function: Evaluator| function.outcome(Seq::empty(), context, version);
            &&& call(Evaluator::StatementTimestamp) == Ok::<EvaluationView, ErrorView>(
                EvaluationView::Done(
                    ValueView::TimestampTz(context.statement_timestamp_micros),
                ),
            )
            &&& text_result(call(Evaluator::CurrentDatabase)) == Some(
                context.session_info@.database,
            )
            &&& text_result(call(Evaluator::CurrentUser)) == Some(context.session_info@.user)
            &&& integer_result(call(Evaluator::PgBackendPid)) == Some(
                context.session_info@.backend_pid as int,
            )
            &&& text_result(call(Evaluator::CurrentSchema)) == Some("public"@)
            &&& text_result(call(Evaluator::Version)) == Some(
                "PostgreSQL 16.0 (SaguaroDB "@ + version + ")"@,
            )
        }),
{
}

/// Upper and lower case of an ASCII text differ from it in its letters alone: `UPPER`
/// takes 32 from the code of each lower-case letter, `LOWER` adds 32 to that of each
/// upper-case letter, and every other character stays.
pub proof fn case_changes_letters_alone(
    source: &[Value],
    context: &StatementContext,
    version: &str,
    raised: crate::error::Result<Evaluation>,
    lowered: crate::error::Result<Evaluation>,
)
    requires
        source@.len() == 1,
        source@[0]@ is Text,
        forall|i: int|
            0 <= i < source@[0]@->Text_0.len() ==> (#[trigger] source@[0]@->Text_0[i] as u32) < 128,
        call_ensures(Evaluator::evaluate, (Evaluator::Upper, source, context, version), raised),
        call_ensures(Evaluator::evaluate, (Evaluator::Lower, source, context, version), lowered),
    ensures
        ({
            let given = source@[0]@->Text_0;
            &&& raised matches Ok(Evaluation::Done(Value::Text(upper)))
            &&& lowered matches Ok(Evaluation::Done(Value::Text(lower)))
            &&& upper@.len() == given.len()
            &&& lower@.len() == given.len()
            &&& forall|i: int|
                0 <= i < given.len() ==> #[trigger] upper@[i] as int == if 97 <= given[i] as int
                    <= 122 {
                    given[i] as int - 32
                } else {
                    given[i] as int
                }
            &&& forall|i: int|
                0 <= i < given.len() ==> #[trigger] lower@[i] as int == if 65 <= given[i] as int
                    <= 90 {
                    given[i] as int + 32
                } else {
                    given[i] as int
                }
        }),
{
    let given = source@[0]@->Text_0;
    assert(strings::all_ascii(given));
    assert(raised is Ok && lowered is Ok);
    assert(raised->Ok_0@ == EvaluationView::Done(ValueView::Text(strings::ascii_raised(given))));
    assert(lowered->Ok_0@ == EvaluationView::Done(ValueView::Text(text::ascii_lowered(given))));
    assert(raised->Ok_0 is Done && lowered->Ok_0 is Done);
    let (x, y) = (raised->Ok_0->Done_0, lowered->Ok_0->Done_0);
    assert(x@ == ValueView::Text(strings::ascii_raised(given)));
    assert(y@ == ValueView::Text(text::ascii_lowered(given)));
    assert(x is Text && y is Text);
}

} // verus!
