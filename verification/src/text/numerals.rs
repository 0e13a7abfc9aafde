//! What numerals mean, digit by digit.

use vstd::prelude::*;

use crate::text;

verus! {

/// The character of a decimal digit.
pub open spec fn is_digit(c: char, d: int) -> bool {
    0 <= d < 10 && c as int == 48 + d
}

/// The numeral of a number below ten is its digit, and the last digit of a larger number
/// is its remainder by ten, behind the numeral of its tenth.
pub proof fn numerals_are_written_by_digits(n: nat, d: nat, c: char)
    requires
        is_digit(c, d as int),
    ensures
        text::decimal_text(d) == seq![c],
        n > 0 ==> text::decimal_text(10 * n + d) == text::decimal_text(n).push(c),
        text::signed_decimal_text(n as int) == text::decimal_text(n),
        n > 0 ==> text::signed_decimal_text(-n) == seq!['-'] + text::decimal_text(n),
{
    assert(text::digit_char(d as int) == c);
    assert((10 * n + d) / 10 == n && (10 * n + d) % 10 == d);
}

/// A numeral denotes its digit; a digit more makes it ten times what it was and the digit
/// more.
pub proof fn numerals_are_read_by_digits(digits: Seq<char>, n: int, d: int, c: char)
    requires
        is_digit(c, d),
        text::integer_of(digits) == Some(n),
        digits[0] != '-',
        digits[0] != '+',
    ensures
        text::integer_of(seq![c]) == Some(d),
        text::integer_of(digits.push(c)) == Some(10 * n + d),
        text::integer_of(seq!['-'] + digits) == Some(-n),
        text::integer_of(seq!['+'] + digits) == Some(n),
        n >= 0,
{
    let longer = digits.push(c);
    assert(seq![c].drop_last() =~= Seq::<char>::empty());
    reveal_with_fuel(text::number, 2);
    assert(text::all_digits(seq![c]));
    assert(longer.drop_last() =~= digits);
    assert forall|i: int| 0 <= i < longer.len() implies text::digit_like(#[trigger] longer[i]) by {
        if i < digits.len() {
            assert(longer[i] == digits[i]);
        }
    }
    assert((seq!['-'] + digits).drop_first() =~= digits);
    assert((seq!['+'] + digits).drop_first() =~= digits);
    text::lemma_number_bound(digits);
}

/// No text that is empty, or holds anything but digits and a sign at its beginning, is a
/// numeral.
pub proof fn other_texts_are_no_numerals(source: Seq<char>, i: int)
    requires
        source.len() == 0 || {
            &&& 0 <= i < source.len()
            &&& (source[i] as int) < 48 || (source[i] as int) > 57
            &&& i > 0 || source.len() == 1 || (source[0] != '-' && source[0] != '+')
        },
    ensures
        text::integer_of(source) is None,
{
    if source.len() > 0 {
        let signed = source[0] == '-' || source[0] == '+';
        if signed {
            if i > 0 {
                assert(source.drop_first()[i - 1] == source[i]);
            }
        }
    }
}

/// A number below a hundred as two digits.
#[verifier::opaque]
pub open spec fn two_digits(n: int) -> Seq<char> {
    seq![((48 + n / 10) as u8) as char, ((48 + n % 10) as u8) as char]
}

pub(crate) proof fn lemma_two_digits(n: int)
    requires
        0 <= n < 100,
    ensures
        text::padded_text(n, 2) == two_digits(n),
        two_digits(n).len() == 2,
        text::all_digits(two_digits(n)),
        text::integer_of(two_digits(n)) == Some(n),
        two_digits(n)[0] != '-' && two_digits(n)[0] != '+',
{
    reveal(two_digits);
    reveal_with_fuel(text::decimal_text, 2);
    assert(text::padded_text(n, 2) =~= two_digits(n));
    text::lemma_zero_padded_denotes(n as nat, 2);
}

/// A number below ten thousand as four digits.
pub open spec fn four_digits(n: int) -> Seq<char> {
    two_digits(n / 100) + two_digits(n % 100)
}

pub(crate) proof fn lemma_four_digits(n: int)
    requires
        0 <= n < 10_000,
    ensures
        text::padded_text(n, 4) == four_digits(n),
        four_digits(n).len() == 4,
        text::all_digits(four_digits(n)),
        text::integer_of(four_digits(n)) == Some(n),
{
    reveal(two_digits);
    reveal_with_fuel(text::decimal_text, 4);
    let whole = four_digits(n);
    assert(n / 100 / 10 == n / 1_000);
    assert(n / 10 / 10 == n / 100);
    assert(n / 10 / 10 / 10 == n / 1_000);
    assert(n / 100 % 10 == n / 10 / 10 % 10);
    assert(n % 100 / 10 == n / 10 % 10);
    assert(n % 100 % 10 == n % 10);
    assert(text::padded_text(n, 4) =~= whole);
    text::lemma_zero_padded_denotes(n as nat, 4);
}

/// White space is the space, the tabulators, the ends of lines and pages, and the spaces
/// that have a width of their own. What counts as such in ASCII is that part of it below
/// 128, but for the vertical tabulator.
pub proof fn white_space_is_blank(c: char)
    ensures
        text::white_space(c) <==> {
            ||| c == ' ' || c == '\t' || c == '\n' || c == '\u{b}' || c == '\u{c}' || c == '\r'
            ||| c == '\u{85}' || c == '\u{a0}' || c == '\u{1680}' || c == '\u{3000}'
            ||| '\u{2000}' <= c && c <= '\u{200a}'
            ||| c == '\u{2028}' || c == '\u{2029}' || c == '\u{202f}' || c == '\u{205f}'
        },
        text::ascii_space(c) <==> text::white_space(c) && c as u32 <= 127 && c != '\u{b}',
{
}

/// In lower case the 26 capital letters stand 32 codes higher, and every other character
/// stays what it is; what is in lower case stays so.
pub proof fn small_letters_are_32_higher(c: char)
    ensures
        65 <= c as u32 <= 90 ==> text::ascii_lower(c) as u32 == c as u32 + 32,
        !(65 <= c as u32 <= 90) ==> text::ascii_lower(c) == c,
        text::ascii_lower(text::ascii_lower(c)) == text::ascii_lower(c),
{
}

} // verus!
