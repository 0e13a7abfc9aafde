//! Text I/O for the `BYTEA` type. SaguaroDB uses PostgreSQL's hex format only
//! (`\x` followed by an even number of hex digits); the legacy escape (`\nnn`)
//! format is not supported. Hex has been PostgreSQL's default `bytea_output`
//! and a valid input form since 9.0.

use vstd::prelude::*;

use crate::text;

verus! {

/// The lower-case hex digit of a value below sixteen.
pub open spec fn hex_char(n: int) -> char {
    if n < 10 {
        ((48 + n) as u8) as char
    } else {
        ((87 + n) as u8) as char
    }
}

/// The value of a hex digit, in either case.
pub open spec fn hex_value(c: char) -> Option<u8> {
    if '0' <= c && c <= '9' {
        Some((c as int - 48) as u8)
    } else if 'a' <= c && c <= 'f' {
        Some((c as int - 87) as u8)
    } else if 'A' <= c && c <= 'F' {
        Some((c as int - 55) as u8)
    } else {
        None
    }
}

pub(crate) fn hex_digit(n: u8) -> (c: char)
    requires
        n < 16,
    ensures
        c == hex_char(n as int),
{
    if n < 10 {
        (48 + n) as char
    } else {
        (87 + n) as char
    }
}

pub(crate) fn hex_digit_value(c: char) -> (value: Option<u8>)
    ensures
        value == hex_value(c),
        value is Some ==> value->0 < 16,
{
    if '0' <= c && c <= '9' {
        Some((c as u32 - 48) as u8)
    } else if 'a' <= c && c <= 'f' {
        Some((c as u32 - 87) as u8)
    } else if 'A' <= c && c <= 'F' {
        Some((c as u32 - 55) as u8)
    } else {
        None
    }
}

/// A hex digit reads back.
pub proof fn lemma_hex_reads_back(n: u8)
    requires
        n < 16,
    ensures
        hex_value(hex_char(n as int)) == Some(n),
{
}

/// Two lower-case hex digits for each byte.
pub open spec fn hex_digits(bytes: Seq<u8>) -> Seq<char> {
    Seq::new(
        2 * bytes.len(),
        |i: int|
            if i % 2 == 0 {
                hex_char(bytes[i / 2] as int / 16)
            } else {
                hex_char(bytes[i / 2] as int % 16)
            },
    )
}

/// Bytes as text.
pub open spec fn hex_text(bytes: Seq<u8>) -> Seq<char> {
    seq!['\\', 'x'] + hex_digits(bytes)
}

/// Every character is a hex digit.
pub open spec fn all_hex(digits: Seq<char>) -> bool {
    forall|i: int| 0 <= i < digits.len() ==> #[trigger] hex_value(digits[i]) is Some
}

/// The bytes that pairs of hex digits denote.
pub open spec fn bytes_of_digits(digits: Seq<char>) -> Seq<u8> {
    Seq::new(
        digits.len() / 2,
        |i: int| (hex_value(digits[2 * i])->0 * 16 + hex_value(digits[2 * i + 1])->0) as u8,
    )
}

/// The bytes that a text denotes.
pub open spec fn bytes_of_hex(text: Seq<char>) -> Option<Seq<u8>> {
    let s = text::trimmed(text);
    let digits = s.skip(2);
    if s.len() >= 2 && s[0] == '\\' && s[1] == 'x' && digits.len() % 2 == 0 && all_hex(digits) {
        Some(bytes_of_digits(digits))
    } else {
        None
    }
}

/// Appends two hex digits.
pub(crate) fn push_hex(out: &mut String, byte: u8)
    ensures
        final(out)@ == old(out)@.push(hex_char(byte as int / 16)).push(hex_char(byte as int % 16)),
{
    out.push(hex_digit(byte / 16));
    out.push(hex_digit(byte % 16));
}

/// Format bytes as a hex bytea string: `\x` followed by lowercase hex digits
/// (two per byte). The empty byte string formats as `\x`.
pub fn format_hex(bytes: &[u8]) -> (text: String)
    ensures
        text@ == hex_text(bytes@),
{
    let mut out: String = String::new();
    out.push('\\');
    out.push('x');
    let mut i: usize = 0;
    assert(out@ =~= seq!['\\', 'x'] + hex_digits(bytes@.take(0)));
    while i < bytes.len()
        invariant
            i <= bytes@.len(),
            out@ == seq!['\\', 'x'] + hex_digits(bytes@.take(i as int)),
        decreases bytes@.len() - i,
    {
        push_hex(&mut out, bytes[i]);
        i += 1;
        assert(out@ =~= seq!['\\', 'x'] + hex_digits(bytes@.take(i as int)));
    }
    assert(bytes@.take(i as int) == bytes@);
    out
}

/// Parse hex bytea input: a `\x` prefix followed by an even number of hex digits.
/// Surrounding whitespace is ignored. Returns `None` for any other form (notably
/// the legacy escape format), an odd digit count, or a non-hex character.
pub fn parse_hex(text: &str) -> (bytes: Option<Vec<u8>>)
    ensures
        match bytes {
            Some(bytes) => bytes_of_hex(text@) == Some(bytes@),
            None => bytes_of_hex(text@) is None,
        },
{
    let chars: Vec<char> = text::chars_of(text);
    let s: &[char] = text::trim(&chars);
    if s.len() < 2 || s[0] != '\\' || s[1] != 'x' || (s.len() - 2) % 2 != 0 {
        return None;
    }
    let ghost digits = s@.skip(2);
    let mut out: Vec<u8> = Vec::new();
    let mut i: usize = 2;
    while i < s.len()
        invariant
            2 <= i <= s@.len(),
            s@ == text::trimmed(text@),
            s@[0] == '\\' && s@[1] == 'x',
            (s@.len() - 2) % 2 == 0,
            i % 2 == 0,
            digits == s@.skip(2),
            forall|j: int| 0 <= j < i - 2 ==> #[trigger] hex_value(digits[j]) is Some,
            out@ == bytes_of_digits(digits).take((i - 2) / 2),
        decreases s@.len() - i,
    {
        assert(digits[i - 2] == s@[i as int]);
        assert(digits[i - 1] == s@[i + 1]);
        let high: u8 = match hex_digit_value(s[i]) {
            Some(high) => high,
            None => {
                assert(hex_value(digits[i - 2]) is None);
                return None;
            },
        };
        let low: u8 = match hex_digit_value(s[i + 1]) {
            Some(low) => low,
            None => {
                assert(hex_value(digits[i - 1]) is None);
                return None;
            },
        };
        let ghost k = (i - 2) / 2;
        out.push(high * 16 + low);
        proof {
            assert(2 * k == i - 2);
            assert(bytes_of_digits(digits)[k] == high * 16 + low);
            assert(out@ =~= bytes_of_digits(digits).take(k + 1));
        }
        i += 2;
    }
    assert(bytes_of_digits(digits).take((i - 2) / 2) =~= bytes_of_digits(digits));
    Some(out)
}

/// There is no white space around the text of bytes.
pub proof fn lemma_hex_text_is_trimmed(bytes: Seq<u8>)
    ensures
        text::trimmed(hex_text(bytes)) == hex_text(bytes),
        all_hex(hex_digits(bytes)),
{
    let s = hex_text(bytes);
    let digits = hex_digits(bytes);
    assert forall|i: int| 0 <= i < digits.len() implies #[trigger] hex_value(
        digits[i],
    ) is Some by {
        lemma_hex_reads_back(bytes[i / 2] / 16);
        lemma_hex_reads_back(bytes[i / 2] % 16);
    }
    assert(s.last() == if bytes.len() == 0 {
        'x'
    } else {
        digits.last()
    });
    assert(!text::white_space(s.last())) by {
        if bytes.len() > 0 {
            assert(hex_value(digits[digits.len() - 1]) is Some);
        }
    }
    text::lemma_trimmed_is_itself(s);
}

/// Bytes read back from their text.
pub proof fn hex_text_reads_back(bytes: Seq<u8>)
    ensures
        bytes_of_hex(hex_text(bytes)) == Some(bytes),
{
    let s = hex_text(bytes);
    let digits = hex_digits(bytes);
    lemma_hex_text_is_trimmed(bytes);
    assert(s.skip(2) =~= digits);
    assert forall|i: int| 0 <= i < bytes.len() implies #[trigger] bytes_of_digits(digits)[i]
        == bytes[i] by {
        lemma_hex_reads_back(bytes[i] / 16);
        lemma_hex_reads_back(bytes[i] % 16);
        assert((2 * i) / 2 == i && (2 * i) % 2 == 0);
        assert((2 * i + 1) / 2 == i && (2 * i + 1) % 2 == 1);
        assert(digits[2 * i] == hex_char(bytes[i] as int / 16));
        assert(digits[2 * i + 1] == hex_char(bytes[i] as int % 16));
    }
    assert(bytes_of_digits(digits) =~= bytes);
}

/// A text denotes exactly those bytes whose text it is, but for white space around it and
/// the case of its letters behind the prefix. So a text without the prefix, with an odd
/// number of digits, or with anything but digits denotes none.
pub proof fn hex_texts_denote_their_bytes(text: Seq<char>, bytes: Seq<u8>)
    ensures
        ({
            let s = text::trimmed(text);
            bytes_of_hex(text) == Some(bytes) <==> s.len() >= 2 && s[0] == '\\' && s[1] == 'x'
                && text::ascii_lowered(s) == hex_text(bytes)
        }),
{
    let s = text::trimmed(text);
    let digits = s.skip(2);
    let lowered = text::ascii_lowered(s);
    if bytes_of_hex(text) == Some(bytes) {
        assert forall|i: int| 0 <= i < lowered.len() implies #[trigger] lowered[i] == hex_text(
            bytes,
        )[i] by {
            if i >= 2 {
                let k = (i - 2) / 2;
                assert(digits[i - 2] == s[i]);
                assert(hex_value(digits[i - 2]) is Some);
                assert(hex_value(digits[2 * k]) is Some);
                assert(hex_value(digits[2 * k + 1]) is Some);
                assert(bytes[k] == bytes_of_digits(digits)[k]);
                assert(hex_text(bytes)[i] == hex_digits(bytes)[i - 2]);
            }
        }
        assert(lowered =~= hex_text(bytes));
    }
    if s.len() >= 2 && s[0] == '\\' && s[1] == 'x' && lowered == hex_text(bytes) {
        let shown = hex_digits(bytes);
        assert(lowered.len() == s.len());
        lemma_hex_text_is_trimmed(bytes);
        assert forall|i: int| 0 <= i < digits.len() implies #[trigger] hex_value(digits[i])
            == hex_value(shown[i]) && hex_value(digits[i]) is Some by {
            assert(digits[i] == s[i + 2]);
            assert(text::ascii_lower(s[i + 2]) == lowered[i + 2]);
            assert(lowered[i + 2] == hex_text(bytes)[i + 2]);
            assert(hex_text(bytes)[i + 2] == shown[i]);
            assert(hex_value(shown[i]) is Some);
            lemma_hex_reads_back(bytes[i / 2] / 16);
            lemma_hex_reads_back(bytes[i / 2] % 16);
        }
        hex_text_reads_back(bytes);
        assert(hex_text(bytes).skip(2) =~= shown);
        assert forall|i: int| 0 <= i < bytes.len() implies #[trigger] bytes_of_digits(digits)[i]
            == bytes[i] by {
            assert(hex_value(digits[2 * i]) == hex_value(shown[2 * i]));
            assert(hex_value(digits[2 * i + 1]) == hex_value(shown[2 * i + 1]));
            assert(bytes_of_digits(shown)[i] == bytes[i]);
        }
        assert(bytes_of_digits(digits) =~= bytes);
    }
}

} // verus!
