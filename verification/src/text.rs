//! Character-level text helpers shared by the parsers and formatters.

use vstd::prelude::*;

pub mod numerals;

verus! {

/// `String::push` appends one character to the end of the string.
pub assume_specification[ String::push ](string: &mut String, c: char)
    ensures
        final(string)@ == old(string)@.push(c),
;

/// The decimal digit character for `d` in `0..10`.
pub open spec fn digit_char(d: int) -> char {
    ((48 + d) as u8) as char
}

/// Canonical decimal rendering of a natural number: no sign, no leading zeros,
/// and `"0"` for zero.
pub open spec fn decimal_text(n: nat) -> Seq<char>
    decreases n,
{
    if n < 10 {
        seq![digit_char(n as int)]
    } else {
        decimal_text(n / 10).push(digit_char((n % 10) as int))
    }
}

/// Canonical decimal rendering of an integer: a `-` sign before the magnitude of
/// a negative number.
pub open spec fn signed_decimal_text(n: int) -> Seq<char> {
    if n < 0 {
        seq!['-'] + decimal_text((-n) as nat)
    } else {
        decimal_text(n as nat)
    }
}

/// All characters of `text`, in order.
pub fn chars_of(text: &str) -> (chars: Vec<char>)
    ensures
        chars@ == text@,
{
    let mut chars: Vec<char> = Vec::new();
    for c in it: text.chars()
        invariant
            chars@ == text@.take(it.index()),
            it.seq() == text@,
    {
        chars.push(c);
    }
    chars
}

/// Appends every character of `chars[start..end]` to `out`.
pub fn push_chars(out: &mut String, chars: &[char], start: usize, end: usize)
    requires
        start <= end <= chars@.len(),
    ensures
        final(out)@ == old(out)@ + chars@.subrange(start as int, end as int),
{
    let mut i: usize = start;
    while i < end
        invariant
            start <= i <= end <= chars@.len(),
            out@ == old(out)@ + chars@.subrange(start as int, i as int),
        decreases end - i,
    {
        out.push(chars[i]);
        i += 1;
        assert(chars@.subrange(start as int, i as int) == chars@.subrange(
            start as int,
            i - 1,
        ).push(chars@[i - 1]));
    }
}

/// The string made of `chars`.
pub fn string_of(chars: &[char]) -> (text: String)
    ensures
        text@ == chars@,
{
    let mut out: String = String::new();
    push_chars(&mut out, chars, 0, chars.len());
    out
}

/// Whether two texts hold the same characters.
pub fn same_text(left: &str, right: &str) -> (same: bool)
    ensures
        same == (left@ == right@),
{
    let a: String = left.to_owned();
    let b: String = right.to_owned();
    a == b
}

/// The digit character of a value below ten.
pub fn digit(d: u8) -> (c: char)
    requires
        d < 10,
    ensures
        c == digit_char(d as int),
{
    (48 + d) as char
}

/// Appends the decimal rendering of `n` to `out`.
pub fn push_decimal(out: &mut String, n: u128)
    ensures
        final(out)@ == old(out)@ + decimal_text(n as nat),
    decreases n,
{
    if n >= 10 {
        push_decimal(out, n / 10);
    }
    let d: u8 = (n % 10) as u8;
    out.push(digit(d));
    proof {
        if n >= 10 {
            assert(old(out)@ + decimal_text(n as nat) == (old(out)@ + decimal_text(
                (n / 10) as nat,
            )).push(digit_char((n % 10) as int)));
        } else {
            assert(old(out)@ + decimal_text(n as nat) == old(out)@.push(digit_char(n as int)));
        }
    }
}

/// Appends the decimal rendering of `n`, with its sign, to `out`.
pub fn push_signed_decimal(out: &mut String, n: i64)
    ensures
        final(out)@ == old(out)@ + signed_decimal_text(n as int),
{
    let wide: i128 = n as i128;
    if wide < 0 {
        out.push('-');
        let ghost after_sign = out@;
        push_decimal(out, (-wide) as u128);
        assert(out@ == old(out)@ + signed_decimal_text(n as int));
    } else {
        push_decimal(out, wide as u128);
    }
}

/// The decimal rendering of `n`.
pub fn decimal_string(n: u128) -> (text: String)
    ensures
        text@ == decimal_text(n as nat),
{
    let mut out: String = String::new();
    push_decimal(&mut out, n);
    assert(out@ == decimal_text(n as nat));
    out
}

/// `prefix`, the decimal rendering of `n`, and `suffix`, joined.
pub fn numbered_text(prefix: &str, n: u128, suffix: &str) -> (text: String)
    ensures
        text@ == prefix@ + decimal_text(n as nat) + suffix@,
{
    let mut out: String = prefix.to_owned();
    push_decimal(&mut out, n);
    out.append(suffix);
    out
}

/// A number behind some text.
pub fn numbered(prefix: &str, n: u128) -> (text: String)
    ensures
        text@ == prefix@ + decimal_text(n as nat),
{
    let mut out: String = prefix.to_owned();
    push_decimal(&mut out, n);
    out
}

/// Three pieces of text, joined.
pub fn joined_text(first: &str, second: &str, third: &str) -> (text: String)
    ensures
        text@ == first@ + second@ + third@,
{
    let mut out: String = first.to_owned();
    out.append(second);
    out.append(third);
    out
}

/// The characters that Unicode gives the `White_Space` property.
pub open spec fn white_space(c: char) -> bool {
    let code = c as u32;
    9 <= code <= 13 || code == 32 || code == 0x85 || code == 0xa0 || code == 0x1680 || 0x2000
        <= code <= 0x200a || code == 0x2028 || code == 0x2029 || code == 0x202f || code == 0x205f
        || code == 0x3000
}

/// Whether `c` has the `White_Space` property.
pub fn is_white_space(c: char) -> (white: bool)
    ensures
        white == white_space(c),
{
    let code: u32 = c as u32;
    (9 <= code && code <= 13) || code == 32 || code == 0x85 || code == 0xa0 || code == 0x1680 || (
    0x2000 <= code && code <= 0x200a) || code == 0x2028 || code == 0x2029 || code == 0x202f || code
        == 0x205f || code == 0x3000
}

/// `text` without its leading white space.
pub open spec fn trimmed_start(text: Seq<char>) -> Seq<char>
    decreases text.len(),
{
    if text.len() > 0 && white_space(text[0]) {
        trimmed_start(text.drop_first())
    } else {
        text
    }
}

/// `text` without its trailing white space.
pub open spec fn trimmed_end(text: Seq<char>) -> Seq<char>
    decreases text.len(),
{
    if text.len() > 0 && white_space(text.last()) {
        trimmed_end(text.drop_last())
    } else {
        text
    }
}

/// `text` without its leading and trailing white space.
pub open spec fn trimmed(text: Seq<char>) -> Seq<char> {
    trimmed_end(trimmed_start(text))
}

/// A text that neither starts nor ends with white space is its own trimmed form.
pub proof fn lemma_trimmed_is_itself(text: Seq<char>)
    requires
        text.len() > 0 ==> !white_space(text[0]) && !white_space(text.last()),
    ensures
        trimmed(text) == text,
{
}

/// Only white space.
pub open spec fn is_blank(text: Seq<char>) -> bool {
    forall|i: int| 0 <= i < text.len() ==> white_space(#[trigger] text[i])
}

/// White space around a text that neither starts nor ends with any is what trimming takes
/// away.
pub proof fn lemma_blanks_are_trimmed(before: Seq<char>, inner: Seq<char>, after: Seq<char>)
    requires
        is_blank(before),
        is_blank(after),
        inner.len() > 0,
        !white_space(inner[0]),
        !white_space(inner.last()),
    ensures
        trimmed(before + inner + after) == inner,
    decreases before.len() + after.len(),
{
    let whole = before + inner + after;
    if before.len() > 0 {
        assert(white_space(before[0]));
        assert(whole[0] == before[0]);
        assert(whole.drop_first() =~= before.drop_first() + inner + after);
        lemma_blanks_are_trimmed(before.drop_first(), inner, after);
    } else if after.len() > 0 {
        assert(whole[0] == inner[0]);
        assert(white_space(after[after.len() - 1]));
        assert(whole.last() == after.last());
        assert(whole.drop_last() =~= before + inner + after.drop_last());
        lemma_blanks_are_trimmed(before, inner, after.drop_last());
        assert(whole.drop_last()[0] == inner[0]);
    } else {
        assert(whole =~= inner);
    }
}

/// The white space before a text, what trimming leaves of it, and the white space behind.
pub proof fn lemma_trimmed_parts(text: Seq<char>) -> (parts: (Seq<char>, Seq<char>, Seq<char>))
    ensures
        is_blank(parts.0),
        is_blank(parts.2),
        parts.1 == trimmed(text),
        parts.0 + parts.1 + parts.2 == text,
        parts.1.len() > 0 ==> !white_space(parts.1[0]) && !white_space(parts.1.last()),
    decreases text.len(),
{
    let none = Seq::<char>::empty();
    if text.len() > 0 && white_space(text[0]) {
        let (before, inner, after) = lemma_trimmed_parts(text.drop_first());
        let longer = seq![text[0]] + before;
        assert(longer + inner + after =~= text) by {
            assert(text =~= seq![text[0]] + text.drop_first());
            assert(longer + inner + after =~= seq![text[0]] + (before + inner + after));
        }
        (longer, inner, after)
    } else if text.len() > 0 && white_space(text.last()) {
        let (before, inner, after) = lemma_trimmed_parts(text.drop_last());
        let longer = after.push(text.last());
        assert(before + inner + longer =~= text) by {
            assert(text =~= text.drop_last().push(text.last()));
            assert(before + inner + longer =~= (before + inner + after).push(text.last()));
        }
        assert(text.drop_last().len() > 0);
        assert(text.drop_last()[0] == text[0]);
        (before, inner, longer)
    } else {
        assert(none + text + none =~= text);
        (none, text, none)
    }
}

/// `text` without its leading and trailing white space.
pub fn trim(text: &[char]) -> (inner: &[char])
    ensures
        inner@ == trimmed(text@),
{
    let mut start: usize = 0;
    proof {
        assert(text@.skip(0) == text@);
    }
    while start < text.len() && is_white_space(text[start])
        invariant
            start <= text@.len(),
            trimmed_start(text@.skip(start as int)) == trimmed_start(text@),
        decreases text@.len() - start,
    {
        proof {
            assert(text@.skip(start as int).drop_first() == text@.skip(start + 1));
        }
        start += 1;
    }
    let mut end: usize = text.len();
    proof {
        assert(trimmed_start(text@) == text@.subrange(start as int, end as int));
    }
    while end > start && is_white_space(text[end - 1])
        invariant
            start <= end <= text@.len(),
            trimmed_end(text@.subrange(start as int, end as int)) == trimmed(text@),
        decreases end,
    {
        proof {
            assert(text@.subrange(start as int, end as int).drop_last() == text@.subrange(
                start as int,
                end - 1,
            ));
        }
        end -= 1;
    }
    proof {
        let inner = text@.subrange(start as int, end as int);
        assert(inner.len() > 0 ==> inner.last() == text@[end - 1]);
    }
    vstd::slice::slice_subrange(text, start, end)
}

/// `c` in lower case if it is an ASCII letter.
pub open spec fn ascii_lower(c: char) -> char {
    if 'A' <= c && c <= 'Z' {
        ((c as u8 + 32) as u8) as char
    } else {
        c
    }
}

/// `text` with its ASCII letters in lower case.
pub open spec fn ascii_lowered(text: Seq<char>) -> Seq<char> {
    text.map_values(|c: char| ascii_lower(c))
}

/// `c` in lower case if it is an ASCII letter.
pub fn to_ascii_lower(c: char) -> (lower: char)
    ensures
        lower == ascii_lower(c),
{
    if 'A' <= c && c <= 'Z' {
        (c as u8 + 32) as char
    } else {
        c
    }
}

/// `text` with its ASCII letters in lower case.
pub fn to_ascii_lowered(text: &[char]) -> (lowered: Vec<char>)
    ensures
        lowered@ == ascii_lowered(text@),
{
    let mut out: Vec<char> = Vec::new();
    let mut i: usize = 0;
    while i < text.len()
        invariant
            i <= text@.len(),
            out@ == ascii_lowered(text@.take(i as int)),
        decreases text@.len() - i,
    {
        out.push(to_ascii_lower(text[i]));
        i += 1;
        proof {
            assert(text@.take(i as int).drop_last() == text@.take(i - 1));
            assert(out@ == ascii_lowered(text@.take(i as int)));
        }
    }
    assert(text@.take(i as int) == text@);
    out
}

/// Whether `text` holds exactly the characters of `other`.
pub fn chars_equal(text: &[char], other: &str) -> (equal: bool)
    ensures
        equal == (text@ == other@),
{
    let other_chars: Vec<char> = chars_of(other);
    if text.len() != other_chars.len() {
        return false;
    }
    let mut i: usize = 0;
    while i < text.len()
        invariant
            i <= text@.len(),
            text@.len() == other_chars@.len(),
            other_chars@ == other@,
            forall|j: int| 0 <= j < i ==> text@[j] == other@[j],
        decreases text@.len() - i,
    {
        if text[i] != other_chars[i] {
            return false;
        }
        i += 1;
    }
    assert(text@ == other@);
    true
}

/// Whether two texts hold the same characters.
pub fn same_chars(left: &[char], right: &[char]) -> (same: bool)
    ensures
        same == (left@ == right@),
{
    if left.len() != right.len() {
        return false;
    }
    let mut i: usize = 0;
    while i < left.len()
        invariant
            i <= left@.len(),
            left@.len() == right@.len(),
            forall|j: int| 0 <= j < i ==> left@[j] == right@[j],
        decreases left@.len() - i,
    {
        if left[i] != right[i] {
            assert(left@[i as int] != right@[i as int]);
            return false;
        }
        i += 1;
    }
    assert(left@ =~= right@);
    true
}

/// A decimal digit.
pub open spec fn digit_like(c: char) -> bool {
    '0' <= c && c <= '9'
}

/// The value of a decimal digit.
pub open spec fn digit_value(c: char) -> int {
    c as int - '0' as int
}

/// Every character is a decimal digit.
pub open spec fn all_digits(text: Seq<char>) -> bool {
    forall|i: int| 0 <= i < text.len() ==> digit_like(#[trigger] text[i])
}

/// The number that decimal digits denote.
pub open spec fn number(digits: Seq<char>) -> int
    decreases digits.len(),
{
    if digits.len() == 0 {
        0
    } else {
        number(digits.drop_last()) * 10 + digit_value(digits.last())
    }
}

/// The integer that a text denotes: one or more digits, with at most one sign before
/// them.
pub open spec fn integer_of(text: Seq<char>) -> Option<int> {
    let signed = text.len() > 0 && (text[0] == '-' || text[0] == '+');
    let digits = if signed {
        text.drop_first()
    } else {
        text
    };
    if digits.len() == 0 || !all_digits(digits) {
        None
    } else if signed && text[0] == '-' {
        Some(-number(digits))
    } else {
        Some(number(digits))
    }
}

/// The number of a longer run of digits is no smaller.
pub proof fn lemma_number_grows(digits: Seq<char>, count: int)
    requires
        all_digits(digits),
        0 <= count <= digits.len(),
    ensures
        0 <= number(digits.take(count)) <= number(digits),
    decreases digits.len(),
{
    if digits.len() == 0 {
        assert(digits.take(count) == digits);
    } else {
        let front = digits.drop_last();
        assert(digit_like(digits[digits.len() - 1]));
        assert forall|i: int| 0 <= i < front.len() implies digit_like(#[trigger] front[i]) by {
            assert(front[i] == digits[i]);
        }
        if count == digits.len() {
            lemma_number_grows(front, front.len() as int);
            assert(digits.take(count) == digits);
            assert(front.take(front.len() as int) == front);
        } else {
            lemma_number_grows(front, count);
            assert(digits.take(count) == front.take(count));
        }
    }
}

/// Digits more significant than the given number of places do not fit below ten to
/// that power.
pub proof fn lemma_number_bound(digits: Seq<char>)
    requires
        all_digits(digits),
    ensures
        0 <= number(digits) < vstd::arithmetic::power::pow(10, digits.len()),
    decreases digits.len(),
{
    reveal(vstd::arithmetic::power::pow);
    if digits.len() > 0 {
        let front = digits.drop_last();
        assert(digit_like(digits[digits.len() - 1]));
        assert forall|i: int| 0 <= i < front.len() implies digit_like(#[trigger] front[i]) by {
            assert(front[i] == digits[i]);
        }
        lemma_number_bound(front);
        assert(vstd::arithmetic::power::pow(10, digits.len()) == 10
            * vstd::arithmetic::power::pow(10, (digits.len() - 1) as nat));
    }
}

/// The decimal rendering of a number denotes that number.
pub proof fn lemma_decimal_text_denotes(n: nat)
    ensures
        decimal_text(n).len() > 0,
        all_digits(decimal_text(n)),
        number(decimal_text(n)) == n,
    decreases n,
{
    let text = decimal_text(n);
    if n < 10 {
        assert(text.drop_last() == Seq::<char>::empty());
        assert(number(text.drop_last()) == 0);
        assert(text.last() == digit_char(n as int));
        assert(text[0] == digit_char(n as int));
    } else {
        lemma_decimal_text_denotes(n / 10);
        assert(text.drop_last() == decimal_text(n / 10));
        assert(text.last() == digit_char((n % 10) as int));
        assert forall|i: int| 0 <= i < text.len() implies digit_like(#[trigger] text[i]) by {
            if i < text.len() - 1 {
                assert(text[i] == decimal_text(n / 10)[i]);
            }
        }
    }
}

/// The decimal rendering of an integer, with its sign, denotes that integer.
pub proof fn signed_decimal_text_denotes(n: int)
    ensures
        integer_of(signed_decimal_text(n)) == Some(n),
{
    if n < 0 {
        lemma_decimal_text_denotes((-n) as nat);
        assert(signed_decimal_text(n).drop_first() == decimal_text((-n) as nat));
    } else {
        lemma_decimal_text_denotes(n as nat);
        assert(digit_like(signed_decimal_text(n)[0]));
    }
}

/// The number that `text[start..end]` denotes, if it is made of digits and the number
/// fits.
pub fn parse_digits(text: &[char], start: usize, end: usize) -> (parsed: Option<u64>)
    requires
        start <= end <= text@.len(),
    ensures
        ({
            let digits = text@.subrange(start as int, end as int);
            match parsed {
                Some(n) => digits.len() > 0 && all_digits(digits) && number(digits) == n,
                None => digits.len() == 0 || !all_digits(digits) || number(digits) > u64::MAX,
            }
        }),
{
    let ghost digits = text@.subrange(start as int, end as int);
    if start == end {
        return None;
    }
    let mut n: u128 = 0;
    let mut i: usize = start;
    assert(digits.take(0) == Seq::<char>::empty());
    while i < end
        invariant
            start <= i <= end <= text@.len(),
            digits == text@.subrange(start as int, end as int),
            n <= u64::MAX,
            all_digits(digits.take(i - start)),
            n == number(digits.take(i - start)),
        decreases end - i,
    {
        let c: char = text[i];
        let ghost before = digits.take(i - start);
        assert(digits[i - start] == c);
        if c < '0' || '9' < c {
            assert(!all_digits(digits));
            return None;
        }
        n = n * 10 + (c as u32 - '0' as u32) as u128;
        i += 1;
        proof {
            let now = digits.take(i - start);
            assert(now.drop_last() == before);
            assert forall|j: int| 0 <= j < now.len() implies digit_like(#[trigger] now[j]) by {
                if j < before.len() {
                    assert(now[j] == before[j]);
                }
            }
            if n > u64::MAX && all_digits(digits) {
                lemma_number_grows(digits, i - start);
            }
        }
        if n > u64::MAX as u128 {
            return None;
        }
    }
    assert(digits.take(i - start) == digits);
    Some(n as u64)
}

/// The integer that `text[start..end]` denotes, if it denotes one that fits.
pub fn parse_signed(text: &[char], start: usize, end: usize) -> (parsed: Option<i64>)
    requires
        start <= end <= text@.len(),
    ensures
        match parsed {
            Some(n) => integer_of(text@.subrange(start as int, end as int)) == Some(n as int),
            None => match integer_of(text@.subrange(start as int, end as int)) {
                Some(n) => n < i64::MIN || n > i64::MAX,
                None => true,
            },
        },
{
    let ghost whole = text@.subrange(start as int, end as int);
    if start == end {
        return None;
    }
    let negative: bool = text[start] == '-';
    let from: usize = if negative || text[start] == '+' {
        start + 1
    } else {
        start
    };
    proof {
        assert(whole[0] == text@[start as int]);
        assert(whole.drop_first() == text@.subrange(start + 1, end as int));
    }
    let magnitude: u64 = match parse_digits(text, from, end) {
        Some(magnitude) => magnitude,
        None => return None,
    };
    if negative {
        if magnitude > 0x8000_0000_0000_0000 {
            return None;
        }
        Some((0 - magnitude as i128) as i64)
    } else {
        if magnitude > 0x7fff_ffff_ffff_ffff {
            return None;
        }
        Some(magnitude as i64)
    }
}

/// The ASCII white space characters.
pub open spec fn ascii_space(c: char) -> bool {
    c == ' ' || c == '\t' || c == '\n' || c == '\u{c}' || c == '\r'
}

/// Whether `c` is ASCII white space.
pub fn is_ascii_space(c: char) -> (space: bool)
    ensures
        space == ascii_space(c),
{
    c == ' ' || c == '\t' || c == '\n' || c == '\u{c}' || c == '\r'
}

/// A run of zeros.
pub open spec fn zeros(count: int) -> Seq<char> {
    Seq::new(
        if count > 0 {
            count as nat
        } else {
            0
        },
        |i: int| '0',
    )
}

/// Decimal rendering with zeros in front, at least `width` digits long.
pub open spec fn zero_padded(n: nat, width: int) -> Seq<char> {
    zeros(width - decimal_text(n).len()) + decimal_text(n)
}

/// Decimal rendering with a sign before a negative number and zeros behind the sign,
/// at least `width` characters long.
pub open spec fn padded_text(n: int, width: int) -> Seq<char> {
    if n < 0 {
        seq!['-'] + zero_padded((-n) as nat, width - 1)
    } else {
        zero_padded(n as nat, width)
    }
}

/// Zeros in front do not change the number that digits denote.
pub proof fn lemma_zeros_denote_nothing(count: int, digits: Seq<char>)
    requires
        all_digits(digits),
    ensures
        all_digits(zeros(count) + digits),
        number(zeros(count) + digits) == number(digits),
    decreases digits.len(), count,
{
    let whole = zeros(count) + digits;
    assert forall|i: int| 0 <= i < whole.len() implies digit_like(#[trigger] whole[i]) by {
        if i >= zeros(count).len() {
            assert(whole[i] == digits[i - zeros(count).len()]);
        }
    }
    if count <= 0 {
        assert(whole == digits);
    } else if digits.len() == 0 {
        assert(whole.drop_last() == zeros(count - 1) + digits);
        assert(whole.last() == '0');
        lemma_zeros_denote_nothing(count - 1, digits);
    } else {
        let front = digits.drop_last();
        assert forall|i: int| 0 <= i < front.len() implies digit_like(#[trigger] front[i]) by {
            assert(front[i] == digits[i]);
        }
        assert(whole.drop_last() == zeros(count) + front);
        assert(whole.last() == digits.last());
        lemma_zeros_denote_nothing(count, front);
    }
}

/// A number rendered with zeros in front denotes that number.
pub proof fn lemma_zero_padded_denotes(n: nat, width: int)
    ensures
        zero_padded(n, width).len() > 0,
        all_digits(zero_padded(n, width)),
        number(zero_padded(n, width)) == n,
        integer_of(zero_padded(n, width)) == Some(n as int),
{
    lemma_decimal_text_denotes(n);
    lemma_zeros_denote_nothing(width - decimal_text(n).len(), decimal_text(n));
    assert(digit_like(zero_padded(n, width)[0]));
}

/// Digits come back when their number is rendered at their length.
pub proof fn lemma_digits_come_back(digits: Seq<char>)
    requires
        digits.len() > 0,
        all_digits(digits),
    ensures
        number(digits) >= 0,
        zero_padded(number(digits) as nat, digits.len() as int) == digits,
    decreases digits.len(),
{
    let front = digits.drop_last();
    let last = digits.last();
    assert(digit_like(digits[digits.len() - 1]));
    assert(digit_char(digit_value(last)) == last);
    if front.len() == 0 {
        assert(number(front) == 0);
        assert(zero_padded(number(digits) as nat, 1) =~= digits);
    } else {
        assert forall|i: int| 0 <= i < front.len() implies digit_like(#[trigger] front[i]) by {
            assert(front[i] == digits[i]);
        }
        lemma_digits_come_back(front);
        let n = number(digits) as nat;
        let m = number(front) as nat;
        if n < 10 {
            assert(m == 0);
            assert(decimal_text(0) =~= seq!['0']);
            assert(front =~= zeros(front.len() as int));
        } else {
            assert(n / 10 == m && n % 10 == digit_value(last));
        }
        assert(zero_padded(n, digits.len() as int) =~= front.push(last));
        assert(digits =~= front.push(last));
    }
}

/// A number below ten to some power has at most that many digits.
pub proof fn lemma_decimal_text_length(n: nat, digits: nat)
    requires
        digits > 0,
        n < vstd::arithmetic::power::pow(10, digits),
    ensures
        decimal_text(n).len() <= digits,
    decreases digits,
{
    reveal(vstd::arithmetic::power::pow);
    if n >= 10 {
        assert(vstd::arithmetic::power::pow(10, digits) == 10 * vstd::arithmetic::power::pow(
            10,
            (digits - 1) as nat,
        ));
        if digits == 1 {
            assert(vstd::arithmetic::power::pow(10, 0) == 1);
        }
        assert(n / 10 < vstd::arithmetic::power::pow(10, (digits - 1) as nat));
        lemma_decimal_text_length(n / 10, (digits - 1) as nat);
    }
}

/// The length of the decimal rendering of a number.
fn decimal_length(n: u128) -> (length: usize)
    ensures
        length == decimal_text(n as nat).len(),
        length <= 39,
{
    let mut length: usize = 1;
    let mut rest: u128 = n;
    let mut room: usize = 38;
    proof {
        reveal(vstd::arithmetic::power::pow);
        assert(n < vstd::arithmetic::power::pow(10, 39)) by {
            reveal_with_fuel(vstd::arithmetic::power::pow, 40);
        }
    }
    while rest >= 10
        invariant
            length + room == 39,
            rest < vstd::arithmetic::power::pow(10, (room + 1) as nat),
            decimal_text(n as nat).len() == decimal_text(rest as nat).len() + length - 1,
        decreases rest,
    {
        proof {
            reveal(vstd::arithmetic::power::pow);
            if room == 0 {
                assert(vstd::arithmetic::power::pow(10, 1) == 10 * vstd::arithmetic::power::pow(
                    10,
                    0,
                ));
            }
            assert(vstd::arithmetic::power::pow(10, (room + 1) as nat) == 10
                * vstd::arithmetic::power::pow(10, room as nat));
        }
        rest = rest / 10;
        length += 1;
        room -= 1;
    }
    length
}

/// Appends a number with zeros in front, at least `width` digits long.
pub fn push_zero_padded(out: &mut String, n: u128, width: usize)
    ensures
        final(out)@ == old(out)@ + zero_padded(n as nat, width as int),
{
    let length: usize = decimal_length(n);
    let ghost start = out@;
    let mut written: usize = 0;
    assert(out@ =~= start + zeros(0));
    while width > length && written < width - length
        invariant
            width > length ==> written <= width - length,
            width <= length ==> written == 0,
            out@ == start + zeros(written as int),
        decreases width - length - written,
    {
        out.push('0');
        written += 1;
        assert(out@ =~= start + zeros(written as int));
    }
    push_decimal(out, n);
    assert(zeros(written as int) =~= zeros(width - decimal_text(n as nat).len()));
    assert(out@ =~= start + zero_padded(n as nat, width as int));
}

/// Appends an integer with its sign and zeros behind it, at least `width` characters
/// long.
pub fn push_padded(out: &mut String, n: i64, width: usize)
    requires
        width > 0,
    ensures
        final(out)@ == old(out)@ + padded_text(n as int, width as int),
{
    let wide: i128 = n as i128;
    if wide < 0 {
        out.push('-');
        push_zero_padded(out, (-wide) as u128, width - 1);
        assert(out@ =~= old(out)@ + padded_text(n as int, width as int));
    } else {
        push_zero_padded(out, wide as u128, width);
    }
}

/// The first position from `start` on at which `c` stands, or the length of the text.
pub open spec fn position_of(text: Seq<char>, c: char, start: nat) -> nat
    decreases text.len() - start,
{
    if start >= text.len() {
        text.len()
    } else if text[start as int] == c {
        start
    } else {
        position_of(text, c, start + 1)
    }
}

/// The first position from `start` on at which `c` stands, or the length of the text.
pub fn find_char(text: &[char], c: char, start: usize) -> (position: usize)
    ensures
        position == position_of(text@, c, start as nat),
        position <= text@.len(),
        position < text@.len() ==> start <= position && text@[position as int] == c,
{
    if start >= text.len() {
        return text.len();
    }
    let mut i: usize = start;
    while i < text.len() && text[i] != c
        invariant
            start <= i <= text@.len(),
            position_of(text@, c, start as nat) == position_of(text@, c, i as nat),
        decreases text@.len() - i,
    {
        i += 1;
    }
    i
}

/// The first `c` behind a run without it stands right behind the run.
pub proof fn lemma_position_behind(text: Seq<char>, c: char, start: nat, end: nat)
    requires
        start <= end <= text.len(),
        forall|i: int| start <= i < end ==> #[trigger] text[i] != c,
        end < text.len() ==> text[end as int] == c,
    ensures
        position_of(text, c, start) == end,
    decreases end - start,
{
    if start < end {
        assert(text[start as int] != c);
        lemma_position_behind(text, c, start + 1, end);
    }
}

/// A character stands in a text where its first position lies inside.
pub proof fn lemma_contains_position(text: Seq<char>, c: char)
    ensures
        text.contains(c) <==> position_of(text, c, 0) < text.len(),
{
    lemma_position_in(text, c, 0);
    if text.contains(c) {
        let i = choose|i: int| 0 <= i < text.len() && text[i] == c;
        assert(position_of(text, c, 0) <= i);
    }
}

pub(crate) proof fn lemma_position_in(text: Seq<char>, c: char, start: nat)
    ensures
        position_of(text, c, start) < text.len() ==> text[position_of(text, c, start) as int] == c,
        forall|i: int|
            start <= i < text.len() && #[trigger] text[i] == c ==> position_of(text, c, start) <= i,
    decreases text.len() - start,
{
    if start < text.len() && text[start as int] != c {
        lemma_position_in(text, c, start + 1);
    }
}

/// The length of the run without white space at the start of a text.
pub open spec fn word_length(text: Seq<char>) -> nat
    decreases text.len(),
{
    if text.len() == 0 || white_space(text[0]) {
        0
    } else {
        1 + word_length(text.drop_first())
    }
}

/// The runs of characters between white space.
pub open spec fn words(text: Seq<char>) -> Seq<Seq<char>>
    decreases text.len(),
{
    proof {
        lemma_trimmed_start_shrinks(text);
        lemma_word_length(trimmed_start(text));
    }
    let rest = trimmed_start(text);
    let length = word_length(rest);
    if rest.len() == 0 || length == 0 || length > rest.len() {
        Seq::empty()
    } else {
        seq![rest.take(length as int)] + words(rest.skip(length as int))
    }
}

/// Texts with one space between each and the next.
pub open spec fn spaced(parts: Seq<Seq<char>>) -> Seq<char>
    decreases parts.len(),
{
    if parts.len() == 0 {
        Seq::empty()
    } else if parts.len() == 1 {
        parts[0]
    } else {
        parts[0] + seq![' '] + spaced(parts.skip(1))
    }
}

/// Trimming never makes a text longer, and no white space is left at its start.
pub proof fn lemma_trimmed_start_shrinks(text: Seq<char>)
    ensures
        trimmed_start(text).len() <= text.len(),
        trimmed_start(text).len() > 0 ==> !white_space(trimmed_start(text)[0]),
    decreases text.len(),
{
    if text.len() > 0 && white_space(text[0]) {
        lemma_trimmed_start_shrinks(text.drop_first());
    }
}

/// A word lies inside its text.
pub proof fn lemma_word_length(text: Seq<char>)
    ensures
        word_length(text) <= text.len(),
    decreases text.len(),
{
    if text.len() > 0 && !white_space(text[0]) {
        lemma_word_length(text.drop_first());
    }
}

proof fn lemma_word_ends(text: Seq<char>, end: nat)
    requires
        end <= text.len(),
        forall|i: int| 0 <= i < end ==> !white_space(#[trigger] text[i]),
        end < text.len() ==> white_space(text[end as int]),
    ensures
        word_length(text) == end,
    decreases end,
{
    if end > 0 {
        assert(!white_space(text[0]));
        let rest = text.drop_first();
        assert forall|i: int| 0 <= i < end - 1 implies !white_space(#[trigger] rest[i]) by {
            assert(rest[i] == text[i + 1]);
        }
        lemma_word_ends(rest, (end - 1) as nat);
    }
}

/// Words with spaces between them are found again.
pub proof fn spaced_words_are_found(parts: Seq<Seq<char>>)
    requires
        forall|k: int| 0 <= k < parts.len() ==> is_word(#[trigger] parts[k]),
    ensures
        words(spaced(parts)) == parts,
    decreases parts.len(),
{
    let s = spaced(parts);
    if parts.len() > 0 {
        let first = parts[0];
        assert(is_word(first));
        assert(!white_space(first[0]));
        assert(s[0] == first[0]);
        assert forall|i: int| 0 <= i < first.len() implies !white_space(#[trigger] s[i]) by {
            assert(s[i] == first[i]);
        }
        lemma_word_ends(s, first.len());
        assert(s.take(first.len() as int) == first);
        let rest = s.skip(first.len() as int);
        if parts.len() == 1 {
            assert(rest == Seq::<char>::empty());
            assert(words(rest) == Seq::<Seq<char>>::empty());
            assert(parts == seq![first] + words(rest));
        } else {
            let tail = parts.skip(1);
            assert forall|k: int| 0 <= k < tail.len() implies is_word(#[trigger] tail[k]) by {
                assert(tail[k] == parts[k + 1]);
            }
            spaced_words_are_found(tail);
            assert(rest == seq![' '] + spaced(tail));
            assert(rest.drop_first() == spaced(tail));
            assert(trimmed_start(rest) == trimmed_start(spaced(tail)));
            assert(words(rest) == words(spaced(tail)));
            assert(parts == seq![first] + tail);
        }
    }
}

/// A text that is not empty and holds no white space.
pub open spec fn is_word(text: Seq<char>) -> bool {
    text.len() > 0 && forall|i: int| 0 <= i < text.len() ==> !white_space(#[trigger] text[i])
}

/// What each of the vectors holds.
pub open spec fn word_views(list: Seq<Vec<char>>) -> Seq<Seq<char>> {
    list.map_values(|word: Vec<char>| word@)
}

/// What each of the strings holds.
pub open spec fn string_views(list: Seq<String>) -> Seq<Seq<char>> {
    list.map_values(|word: String| word@)
}

/// The runs of characters between white space.
pub fn split_words(text: &[char]) -> (list: Vec<Vec<char>>)
    ensures
        word_views(list@) == words(text@),
{
    let mut list: Vec<Vec<char>> = Vec::new();
    let mut i: usize = 0;
    assert(text@.skip(0) == text@);
    assert(word_views(list@) + words(text@.skip(0)) =~= words(text@));
    loop
        invariant
            i <= text@.len(),
            word_views(list@) + words(text@.skip(i as int)) == words(text@),
        decreases text@.len() - i,
    {
        let ghost before = text@.skip(i as int);
        let mut start: usize = i;
        while start < text.len() && is_white_space(text[start])
            invariant
                i <= start <= text@.len(),
                before == text@.skip(i as int),
                trimmed_start(text@.skip(start as int)) == trimmed_start(before),
            decreases text@.len() - start,
        {
            assert(text@.skip(start as int).drop_first() == text@.skip(start + 1));
            start += 1;
        }
        let ghost rest = text@.skip(start as int);
        assert(trimmed_start(before) == rest);
        if start == text.len() {
            assert(words(before) == Seq::<Seq<char>>::empty());
            assert(word_views(list@) + words(before) =~= word_views(list@));
            return list;
        }
        let mut word: Vec<char> = Vec::new();
        let mut end: usize = start;
        while end < text.len() && !is_white_space(text[end])
            invariant
                start <= end <= text@.len(),
                word@ == text@.subrange(start as int, end as int),
                forall|k: int| start <= k < end ==> !white_space(#[trigger] text@[k]),
            decreases text@.len() - end,
        {
            word.push(text[end]);
            end += 1;
            assert(word@ =~= text@.subrange(start as int, end as int));
        }
        proof {
            let length = (end - start) as nat;
            assert forall|k: int| 0 <= k < length implies !white_space(#[trigger] rest[k]) by {
                assert(rest[k] == text@[start + k]);
            }
            lemma_word_ends(rest, length);
            assert(rest.take(length as int) == word@);
            assert(rest.skip(length as int) == text@.skip(end as int));
            assert(words(before) == seq![word@] + words(text@.skip(end as int)));
            assert(word_views(list@.push(word)) =~= word_views(list@).push(word@));
            assert(word_views(list@.push(word)) + words(text@.skip(end as int)) =~= word_views(
                list@,
            ) + words(before));
        }
        list.push(word);
        i = end;
    }
}

/// Texts with one space between each and the next.
pub fn join_spaced(list: &Vec<String>) -> (text: String)
    ensures
        text@ == spaced(string_views(list@)),
{
    let ghost parts = string_views(list@);
    let mut out: String = String::new();
    if list.len() == 0 {
        return out;
    }
    out.append(&list[0]);
    let mut i: usize = 1;
    proof {
        assert(out@ =~= parts[0]);
        assert(list@.len() == 1 ==> spaced(parts) =~= out@ + remaining(parts, 1));
    }
    while i < list.len()
        invariant
            1 <= i <= list@.len(),
            parts == string_views(list@),
            spaced(parts) == out@ + remaining(parts, i as int),
        decreases list@.len() - i,
    {
        let ghost tail = parts.skip(i as int);
        out.push(' ');
        out.append(&list[i]);
        proof {
            assert(tail[0] == parts[i as int]);
            assert(tail.skip(1) == parts.skip(i + 1));
            assert(spaced(parts) =~= out@ + remaining(parts, i + 1));
        }
        i += 1;
    }
    assert(out@ + remaining(parts, i as int) =~= out@);
    out
}

spec fn remaining(parts: Seq<Seq<char>>, index: int) -> Seq<char> {
    if index >= parts.len() {
        Seq::empty()
    } else {
        seq![' '] + spaced(parts.skip(index))
    }
}

/// Texts with a separator between each and the next.
pub open spec fn joined(parts: Seq<Seq<char>>, separator: Seq<char>) -> Seq<char>
    decreases parts.len(),
{
    if parts.len() == 0 {
        Seq::empty()
    } else if parts.len() == 1 {
        parts[0]
    } else {
        joined(parts.drop_last(), separator) + separator + parts.last()
    }
}

/// Texts with a separator between each and the next.
pub fn join(list: &Vec<String>, separator: &str) -> (text: String)
    ensures
        text@ == joined(string_views(list@), separator@),
{
    let ghost parts = string_views(list@);
    let mut out: String = String::new();
    let mut i: usize = 0;
    assert(out@ =~= joined(parts.take(0), separator@));
    while i < list.len()
        invariant
            i <= list@.len(),
            parts == string_views(list@),
            out@ == joined(parts.take(i as int), separator@),
        decreases list@.len() - i,
    {
        if i > 0 {
            out.append(separator);
        }
        out.append(&list[i]);
        i += 1;
        proof {
            let now = parts.take(i as int);
            assert(now.drop_last() == parts.take(i - 1));
            assert(now.last() == parts[i - 1]);
            assert(out@ =~= joined(now, separator@));
        }
    }
    assert(parts.take(i as int) == parts);
    out
}

} // verus!
