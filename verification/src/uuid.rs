//! Text I/O for the `UUID` type, stored as a 16-byte array. Output is the
//! canonical lowercase hyphenated form (`8-4-4-4-12`); input is lenient
//! (case-insensitive, optional surrounding braces, hyphens optional) matching
//! PostgreSQL's permissive `uuid_in`.

use vstd::prelude::*;

use crate::bytea;
use crate::text;

verus! {

/// A hyphen stands before the byte at this place.
pub open spec fn hyphen_before(index: int) -> bool {
    index == 4 || index == 6 || index == 8 || index == 10
}

/// The first `count` bytes of a UUID as text.
pub open spec fn uuid_prefix(bytes: Seq<u8>, count: nat) -> Seq<char>
    decreases count,
{
    if count == 0 {
        Seq::empty()
    } else {
        let before = uuid_prefix(bytes, (count - 1) as nat);
        let byte = bytes[count - 1] as int;
        let gap = if hyphen_before(count - 1) {
            before.push('-')
        } else {
            before
        };
        gap.push(bytea::hex_char(byte / 16)).push(bytea::hex_char(byte % 16))
    }
}

/// A UUID as text.
pub open spec fn uuid_text(bytes: Seq<u8>) -> Seq<char> {
    uuid_prefix(bytes, 16)
}

/// The text without white space around it and without braces inside that.
pub open spec fn unbraced(text: Seq<char>) -> Seq<char> {
    let s = text::trimmed(text);
    if s.len() >= 2 && s[0] == '{' && s.last() == '}' {
        s.subrange(1, s.len() - 1)
    } else {
        s
    }
}

/// The characters that are not hyphens.
pub open spec fn without_hyphens(s: Seq<char>) -> Seq<char>
    decreases s.len(),
{
    if s.len() == 0 {
        Seq::empty()
    } else if s.last() == '-' {
        without_hyphens(s.drop_last())
    } else {
        without_hyphens(s.drop_last()).push(s.last())
    }
}

/// The bytes of the UUID that a text denotes.
pub open spec fn uuid_of_text(text: Seq<char>) -> Option<Seq<u8>> {
    let digits = without_hyphens(unbraced(text));
    if digits.len() == 32 && bytea::all_hex(digits) {
        Some(bytea::bytes_of_digits(digits))
    } else {
        None
    }
}

/// Format a 16-byte UUID as the canonical lowercase hyphenated string,
/// e.g. `0a0b0c0d-0e0f-1011-1213-141516171819`.
pub fn format_uuid(bytes: &[u8; 16]) -> (text: String)
    ensures
        text@ == uuid_text(bytes@),
{
    let mut out: String = String::new();
    let mut i: usize = 0;
    assert(out@ =~= uuid_prefix(bytes@, 0));
    while i < 16
        invariant
            i <= 16,
            out@ == uuid_prefix(bytes@, i as nat),
        decreases 16 - i,
    {
        if i == 4 || i == 6 || i == 8 || i == 10 {
            out.push('-');
        }
        bytea::push_hex(&mut out, bytes[i]);
        i += 1;
    }
    out
}

proof fn lemma_without_hyphens_grows(s: Seq<char>, count: int)
    requires
        0 <= count <= s.len(),
    ensures
        without_hyphens(s.take(count)).len() <= without_hyphens(s).len(),
        forall|i: int|
            0 <= i < without_hyphens(s.take(count)).len() ==> #[trigger] without_hyphens(
                s.take(count),
            )[i] == without_hyphens(s)[i],
    decreases s.len(),
{
    if count == s.len() {
        assert(s.take(count) == s);
    } else {
        let front = s.drop_last();
        lemma_without_hyphens_grows(front, count);
        assert(front.take(count) == s.take(count));
    }
}

/// Parse a UUID string into its 16 bytes. Accepts the canonical hyphenated form
/// and a bare 32-hex-digit form, case-insensitive, with optional surrounding
/// whitespace and braces. Returns `None` if the result is not exactly 32 hex
/// digits.
pub fn parse_uuid(text: &str) -> (uuid: Option<[u8; 16]>)
    ensures
        match uuid {
            Some(bytes) => uuid_of_text(text@) == Some(bytes@),
            None => uuid_of_text(text@) is None,
        },
{
    let chars: Vec<char> = text::chars_of(text);
    let trimmed: &[char] = text::trim(&chars);
    let inner: &[char] = if trimmed.len() >= 2 && trimmed[0] == '{' && trimmed[trimmed.len() - 1]
        == '}' {
        vstd::slice::slice_subrange(trimmed, 1, trimmed.len() - 1)
    } else {
        trimmed
    };
    let ghost s = inner@;
    let mut nibbles: Vec<u8> = Vec::new();
    let ghost mut digits: Seq<char> = Seq::empty();
    let mut i: usize = 0;
    assert(s.take(0) == Seq::<char>::empty());
    while i < inner.len()
        invariant
            i <= inner@.len(),
            s == inner@,
            s == unbraced(text@),
            digits == without_hyphens(s.take(i as int)),
            nibbles@.len() == digits.len(),
            digits.len() <= 32,
            forall|j: int|
                0 <= j < digits.len() ==> #[trigger] bytea::hex_value(digits[j]) == Some(
                    nibbles@[j],
                ) && nibbles@[j] < 16,
        decreases inner@.len() - i,
    {
        let c: char = inner[i];
        let ghost now = s.take(i + 1);
        assert(now.drop_last() == s.take(i as int));
        assert(now.last() == c);
        if c != '-' {
            proof {
                lemma_without_hyphens_grows(s, i + 1);
                assert(without_hyphens(now) == digits.push(c));
                assert(without_hyphens(now)[digits.len() as int] == c);
            }
            let nibble: u8 = match bytea::hex_digit_value(c) {
                Some(nibble) => nibble,
                None => {
                    proof {
                        let all = without_hyphens(s);
                        assert(all[digits.len() as int] == c);
                        assert(bytea::hex_value(all[digits.len() as int]) is None);
                    }
                    return None;
                },
            };
            if nibbles.len() == 32 {
                return None;
            }
            nibbles.push(nibble);
            proof {
                digits = digits.push(c);
            }
        }
        i += 1;
    }
    assert(s.take(i as int) == s);
    if nibbles.len() != 32 {
        return None;
    }
    proof {
        assert forall|j: int| 0 <= j < digits.len() implies #[trigger] bytea::hex_value(
            digits[j],
        ) is Some by {
            assert(bytea::hex_value(digits[j]) == Some(nibbles@[j]));
        }
    }
    let mut out: [u8; 16] = [0;16];
    let mut k: usize = 0;
    while k < 16
        invariant
            k <= 16,
            nibbles@.len() == 32,
            digits.len() == 32,
            forall|j: int|
                0 <= j < digits.len() ==> #[trigger] bytea::hex_value(digits[j]) == Some(
                    nibbles@[j],
                ) && nibbles@[j] < 16,
            forall|j: int| 0 <= j < k ==> #[trigger] out@[j] == bytea::bytes_of_digits(digits)[j],
        decreases 16 - k,
    {
        assert(bytea::hex_value(digits[2 * k as int]) == Some(nibbles@[2 * k as int]));
        assert(bytea::hex_value(digits[2 * k as int + 1]) == Some(nibbles@[2 * k as int + 1]));
        out[k] = nibbles[2 * k] * 16 + nibbles[2 * k + 1];
        k += 1;
    }
    assert(out@ =~= bytea::bytes_of_digits(digits));
    Some(out)
}

proof fn lemma_prefix_digits(bytes: Seq<u8>, count: nat)
    requires
        count <= bytes.len(),
    ensures
        without_hyphens(uuid_prefix(bytes, count)) == bytea::hex_digits(bytes.take(count as int)),
        count > 0 ==> uuid_prefix(bytes, count).len() > 0,
        count > 0 ==> uuid_prefix(bytes, count)[0] == bytea::hex_char(bytes[0] as int / 16),
    decreases count,
{
    if count == 0 {
        assert(bytea::hex_digits(bytes.take(0)) =~= Seq::<char>::empty());
    } else {
        let before = uuid_prefix(bytes, (count - 1) as nat);
        let byte = bytes[count - 1];
        let high = bytea::hex_char(byte as int / 16);
        let low = bytea::hex_char(byte as int % 16);
        lemma_prefix_digits(bytes, (count - 1) as nat);
        bytea::lemma_hex_reads_back(byte / 16);
        bytea::lemma_hex_reads_back(byte % 16);
        let gap = if hyphen_before(count - 1) {
            before.push('-')
        } else {
            before
        };
        assert(before.push('-').drop_last() == before);
        assert(without_hyphens(gap) == without_hyphens(before));
        assert(gap.push(high).drop_last() == gap);
        assert(gap.push(high).push(low).drop_last() == gap.push(high));
        assert(high != '-' && low != '-');
        assert(without_hyphens(gap.push(high)) == without_hyphens(gap).push(high));
        assert(without_hyphens(gap.push(high).push(low)) == without_hyphens(gap).push(high).push(
            low,
        ));
        assert(bytea::hex_digits(bytes.take(count as int)) =~= bytea::hex_digits(
            bytes.take(count - 1),
        ).push(high).push(low));
        if count == 1 {
            assert(uuid_prefix(bytes, 0) =~= Seq::<char>::empty());
        }
    }
}

/// A UUID reads back from its text.
pub proof fn uuid_text_reads_back(bytes: Seq<u8>)
    requires
        bytes.len() == 16,
    ensures
        uuid_of_text(uuid_text(bytes)) == Some(bytes),
{
    let s = uuid_text(bytes);
    lemma_prefix_digits(bytes, 16);
    bytea::lemma_hex_reads_back(bytes[0] / 16);
    bytea::lemma_hex_reads_back(bytes[15] % 16);
    assert(s.last() == bytea::hex_char(bytes[15] as int % 16));
    text::lemma_trimmed_is_itself(s);
    assert(unbraced(s) == s);
    assert(bytes.take(16) =~= bytes);
    bytea::hex_text_reads_back(bytes);
    let t = bytea::hex_text(bytes);
    assert(t.skip(2) =~= bytea::hex_digits(bytes));
    bytea::lemma_hex_text_is_trimmed(bytes);
}

proof fn lemma_hyphens_of_parts(a: Seq<char>, b: Seq<char>)
    ensures
        without_hyphens(a + b) == without_hyphens(a) + without_hyphens(b),
    decreases b.len(),
{
    if b.len() == 0 {
        assert(a + b =~= a);
        assert(without_hyphens(a) + without_hyphens(b) =~= without_hyphens(a));
    } else {
        lemma_hyphens_of_parts(a, b.drop_last());
        assert((a + b).drop_last() =~= a + b.drop_last());
        assert((a + b).last() == b.last());
        if b.last() != '-' {
            assert(without_hyphens(a) + without_hyphens(b.drop_last()).push(b.last()) =~= (
            without_hyphens(a) + without_hyphens(b.drop_last())).push(b.last()));
        }
    }
}

/// A hyphen in a text changes nothing of the UUID that the text denotes, wherever it
/// stands between other characters.
pub proof fn hyphens_do_not_count(a: Seq<char>, b: Seq<char>)
    requires
        a.len() > 0,
        b.len() > 0,
        !text::white_space(a[0]),
        !text::white_space(b.last()),
        a[0] != '{',
    ensures
        uuid_of_text(a + seq!['-'] + b) == uuid_of_text(a + b),
{
    let hyphenated = a + seq!['-'] + b;
    text::lemma_trimmed_is_itself(hyphenated);
    text::lemma_trimmed_is_itself(a + b);
    lemma_hyphens_of_parts(a + seq!['-'], b);
    lemma_hyphens_of_parts(a, seq!['-']);
    lemma_hyphens_of_parts(a, b);
    reveal_with_fuel(without_hyphens, 2);
    assert(seq!['-'].drop_last().len() == 0);
    assert(without_hyphens(a) + without_hyphens(seq!['-']) =~= without_hyphens(a));
}

/// Braces around a text, and white space around those, change nothing of the UUID that the
/// text denotes.
pub proof fn braces_do_not_count(before: Seq<char>, inner: Seq<char>, after: Seq<char>)
    requires
        text::is_blank(before),
        text::is_blank(after),
        inner.len() > 0,
        !text::white_space(inner[0]),
        !text::white_space(inner.last()),
        inner[0] != '{',
    ensures
        uuid_of_text(before + (seq!['{'] + inner + seq!['}']) + after) == uuid_of_text(inner),
{
    let braced = seq!['{'] + inner + seq!['}'];
    text::lemma_blanks_are_trimmed(before, braced, after);
    text::lemma_trimmed_is_itself(inner);
    text::lemma_trimmed_is_itself(braced);
    assert(braced.subrange(1, braced.len() - 1) =~= inner);
}

/// A text that denotes a UUID has 32 hexadecimal digits besides its hyphens, of which each
/// pair spells a byte, the greater digit first.
pub proof fn uuid_digits_spell_the_bytes(text: Seq<char>, i: int)
    requires
        uuid_of_text(text) is Some,
        0 <= i < 16,
    ensures
        uuid_of_text(text)->0.len() == 16,
        ({
            let digits = without_hyphens(unbraced(text));
            &&& digits.len() == 32
            &&& bytea::hex_value(digits[2 * i]) is Some
            &&& bytea::hex_value(digits[2 * i + 1]) is Some
            &&& uuid_of_text(text)->0[i] == 16 * bytea::hex_value(digits[2 * i])->0
                + bytea::hex_value(digits[2 * i + 1])->0
        }),
{
    let digits = without_hyphens(unbraced(text));
    assert(bytea::hex_value(digits[2 * i]) is Some);
    assert(bytea::hex_value(digits[2 * i + 1]) is Some);
}

} // verus!
