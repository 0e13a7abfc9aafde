//! How floating-point numbers are written.

use vstd::prelude::*;

use crate::float::OrderedF64;
use crate::text;

verus! {

/// The text of a number, given its shortest scientific notation (digits, `e` and an
/// exponent) and its shortest fixed-point notation.
pub open spec fn double_text(
    number: OrderedF64,
    scientific: Seq<char>,
    fixed: Seq<char>,
) -> Option<Seq<char>> {
    if number.spec_is_nan() {
        Some("NaN"@)
    } else if !number.spec_is_finite() {
        Some(
            if number.key() < 0 {
                "-Infinity"@
            } else {
                "Infinity"@
            },
        )
    } else {
        let split = text::position_of(scientific, 'e', 0);
        if split >= scientific.len() {
            None
        } else {
            match text::integer_of(scientific.skip(split as int + 1)) {
                Some(exponent) => if -4 <= exponent <= 15 {
                    Some(fixed)
                } else if i64::MIN <= exponent <= i64::MAX {
                    Some(scientific.take(split as int) + exponent_text(exponent))
                } else {
                    None
                },
                None => None,
            }
        }
    }
}

/// `e`, a sign and at least two digits.
pub open spec fn exponent_text(exponent: int) -> Seq<char> {
    if exponent < 0 {
        "e-"@ + text::zero_padded((-exponent) as nat, 2)
    } else {
        "e+"@ + text::zero_padded(exponent as nat, 2)
    }
}

/// Format a double for text output. Finite values use a round-trippable form:
/// fixed-point notation for moderate magnitudes (base-10 exponent in `[-4, 15]`,
/// matching PostgreSQL and avoiding the pathologically long decimal expansions
/// for extreme exponents), and scientific notation, spelled `e+NN` or `e-NN` with at
/// least two exponent digits, outside that range. Non-finite values use PostgreSQL's
/// `Infinity`/`-Infinity`/`NaN` spellings.
///
/// The two notations of a finite value, the shortest ones that denote it, are given;
/// the result is `None` where the scientific one has no exponent.
pub fn format_double(number: OrderedF64, scientific: &str, fixed: &str) -> (out: Option<String>)
    ensures
        match out {
            Some(out) => double_text(number, scientific@, fixed@) == Some(out@),
            None => double_text(number, scientific@, fixed@) is None,
        },
{
    if number.is_nan() {
        return Some("NaN".to_owned());
    }
    if !number.is_finite() {
        return Some(
            if number.order_key() < 0 {
                "-Infinity".to_owned()
            } else {
                "Infinity".to_owned()
            },
        );
    }
    let chars: Vec<char> = text::chars_of(scientific);
    let split: usize = text::find_char(chars.as_slice(), 'e', 0);
    if split >= chars.len() {
        return None;
    }
    assert(chars@.subrange(split as int + 1, chars@.len() as int) =~= scientific@.skip(
        split as int + 1,
    ));
    let exponent: i64 = match text::parse_signed(chars.as_slice(), split + 1, chars.len()) {
        Some(exponent) => exponent,
        None => return None,
    };
    if -4 <= exponent && exponent <= 15 {
        return Some(fixed.to_owned());
    }
    let mut out: String = String::new();
    text::push_chars(&mut out, chars.as_slice(), 0, split);
    assert(out@ =~= scientific@.take(split as int));
    if exponent < 0 {
        out.append("e-");
        let distance: i128 = -(exponent as i128);
        text::push_zero_padded(&mut out, distance as u128, 2);
    } else {
        out.append("e+");
        text::push_zero_padded(&mut out, exponent as u128, 2);
    }
    assert(out@ =~= scientific@.take(split as int) + exponent_text(exponent as int));
    Some(out)
}

/// A finite number is written in fixed-point notation if its decimal exponent lies
/// between -4 and 15, and otherwise with its digits, `e`, the sign of the exponent and at
/// least two digits of it.
pub proof fn exponents_decide_the_notation(
    number: OrderedF64,
    digits: Seq<char>,
    exponent: int,
    fixed: Seq<char>,
)
    requires
        number.0 % 0x8000_0000_0000_0000 < 0x7ff0_0000_0000_0000,
        forall|i: int| 0 <= i < digits.len() ==> #[trigger] digits[i] != 'e',
        i64::MIN <= exponent <= i64::MAX,
    ensures
        ({
            let written = double_text(
                number,
                digits + seq!['e'] + text::signed_decimal_text(exponent),
                fixed,
            );
            &&& -4 <= exponent <= 15 ==> written == Some(fixed)
            &&& exponent > 15 ==> written == Some(
                digits + seq!['e', '+'] + text::decimal_text(exponent as nat),
            )
            &&& exponent <= -10 ==> written == Some(
                digits + seq!['e', '-'] + text::decimal_text((-exponent) as nat),
            )
            &&& -10 < exponent < -4 ==> written == Some(
                digits + seq!['e', '-', '0'] + text::decimal_text((-exponent) as nat),
            )
        }),
{
    let tail = text::signed_decimal_text(exponent);
    let scientific = digits + seq!['e'] + tail;
    assert forall|i: int| 0 <= i < digits.len() implies #[trigger] scientific[i] != 'e' by {
        assert(scientific[i] == digits[i]);
    }
    text::lemma_position_behind(scientific, 'e', 0, digits.len());
    assert(scientific.skip(digits.len() as int + 1) =~= tail);
    assert(scientific.take(digits.len() as int) =~= digits);
    text::signed_decimal_text_denotes(exponent);
    reveal_strlit("e-");
    reveal_strlit("e+");
    assert("e-"@ =~= seq!['e', '-']);
    assert("e+"@ =~= seq!['e', '+']);
    if exponent > 15 {
        lemma_two_or_more(exponent as nat);
        let padded = text::zero_padded(exponent as nat, 2);
        assert(padded =~= text::decimal_text(exponent as nat));
        assert(digits + exponent_text(exponent) =~= digits + seq!['e', '+'] + padded);
    } else if exponent <= -10 {
        lemma_two_or_more((-exponent) as nat);
        let padded = text::zero_padded((-exponent) as nat, 2);
        assert(padded =~= text::decimal_text((-exponent) as nat));
        assert(digits + exponent_text(exponent) =~= digits + seq!['e', '-'] + padded);
    } else if exponent < -4 {
        let n = (-exponent) as nat;
        assert(text::decimal_text(n).len() == 1);
        assert(text::zero_padded(n, 2) =~= seq!['0'] + text::decimal_text(n));
        assert(digits + exponent_text(exponent) =~= digits + seq!['e', '-', '0']
            + text::decimal_text(n));
    }
}

proof fn lemma_two_or_more(n: nat)
    requires
        n >= 10,
    ensures
        text::decimal_text(n).len() >= 2,
{
    text::lemma_decimal_text_denotes(n / 10);
}

/// The numbers that are not finite are written by name, whatever notations are given:
/// every NaN as `NaN`, and the infinities as `Infinity` with a minus sign where they have
/// one.
pub proof fn numbers_without_digits_are_named(
    number: OrderedF64,
    scientific: Seq<char>,
    fixed: Seq<char>,
)
    ensures
        number.0 % 0x8000_0000_0000_0000 > 0x7ff0_0000_0000_0000 ==> double_text(
            number,
            scientific,
            fixed,
        ) == Some("NaN"@),
        number.0 == 0x7ff0_0000_0000_0000 ==> double_text(number, scientific, fixed) == Some(
            "Infinity"@,
        ),
        number.0 == 0xfff0_0000_0000_0000 ==> double_text(number, scientific, fixed) == Some(
            "-Infinity"@,
        ),
{
}

} // verus!
