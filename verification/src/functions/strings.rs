//! What the built-in string functions compute.

use vstd::prelude::*;

use crate::text;

verus! {

/// What `str::to_uppercase` makes of a text.
pub uninterp spec fn uppercase(text: Seq<char>) -> Seq<char>;

/// What `str::to_lowercase` makes of a text.
pub uninterp spec fn lowercase(text: Seq<char>) -> Seq<char>;

/// Every character is an ASCII character.
pub open spec fn all_ascii(text: Seq<char>) -> bool {
    forall|i: int| 0 <= i < text.len() ==> (#[trigger] text[i] as u32) < 128
}

/// A text with its ASCII letters in upper case.
pub open spec fn ascii_raised(text: Seq<char>) -> Seq<char> {
    text.map_values(
        |c: char|
            if 'a' <= c && c <= 'z' {
                ((c as u8 - 32) as u8) as char
            } else {
                c
            },
    )
}

/// `str::to_uppercase` depends on the text alone, and of ASCII characters it changes
/// the lower-case letters only.
#[verifier::external_body]
pub(crate) fn to_uppercase(text: &str) -> (upper: String)
    ensures
        upper@ == uppercase(text@),
        all_ascii(text@) ==> upper@ == ascii_raised(text@),
{
    text.to_uppercase()
}

/// `str::to_lowercase` depends on the text alone, and of ASCII characters it changes
/// the upper-case letters only.
#[verifier::external_body]
pub(crate) fn to_lowercase(text: &str) -> (lower: String)
    ensures
        lower@ == lowercase(text@),
        all_ascii(text@) ==> lower@ == text::ascii_lowered(text@),
{
    text.to_lowercase()
}

/// `needle` stands in `text` at `start`.
pub open spec fn occurs_at(text: Seq<char>, needle: Seq<char>, start: int) -> bool {
    0 <= start && start + needle.len() <= text.len() && text.subrange(
        start,
        start + needle.len(),
    ) == needle
}

fn does_occur_at(text: &[char], needle: &[char], start: usize) -> (occurs: bool)
    ensures
        occurs == occurs_at(text@, needle@, start as int),
{
    if start > text.len() || needle.len() > text.len() - start {
        return false;
    }
    let ghost window = text@.subrange(start as int, start + needle@.len());
    let mut i: usize = 0;
    while i < needle.len()
        invariant
            i <= needle@.len(),
            start + needle@.len() <= text.len(),
            window == text@.subrange(start as int, start + needle@.len()),
            forall|j: int| 0 <= j < i ==> window[j] == needle@[j],
        decreases needle@.len() - i,
    {
        assert(window[i as int] == text@[start + i]);
        if text[start + i] != needle[i] {
            assert(window[i as int] != needle@[i as int]);
            return false;
        }
        i += 1;
    }
    assert(window =~= needle@);
    true
}

/// `text` from `start` on, with every occurrence of `from`, taken from left to right
/// and not overlapping, replaced with `to`.
pub open spec fn replaced(text: Seq<char>, from: Seq<char>, to: Seq<char>, start: int) -> Seq<char>
    decreases text.len() - start,
{
    if from.len() == 0 || start < 0 || start >= text.len() {
        text.skip(start)
    } else if occurs_at(text, from, start) {
        to + replaced(text, from, to, (start + from.len()) as int)
    } else {
        seq![text[start]] + replaced(text, from, to, start + 1)
    }
}

/// Every occurrence of `from`, taken from left to right and not overlapping, replaced
/// with `to`. An empty `from` leaves the text unchanged.
pub fn replace_all(text: &str, from: &str, to: &str) -> (out: String)
    ensures
        out@ == replaced(text@, from@, to@, 0),
{
    let chars: Vec<char> = text::chars_of(text);
    let from: Vec<char> = text::chars_of(from);
    let mut out: String = String::new();
    if from.len() == 0 {
        out.append(text);
        assert(out@ =~= text@.skip(0));
        return out;
    }
    let ghost whole = replaced(text@, from@, to@, 0);
    let mut i: usize = 0;
    assert(out@ + whole =~= whole);
    while i < chars.len()
        invariant
            i <= chars@.len(),
            chars@ == text@,
            from@.len() > 0,
            whole == replaced(text@, from@, to@, 0),
            whole == out@ + replaced(text@, from@, to@, i as int),
        decreases chars@.len() - i,
    {
        let ghost before = out@;
        if does_occur_at(&chars, &from, i) {
            out.append(to);
            i += from.len();
            assert(whole =~= out@ + replaced(text@, from@, to@, i as int));
        } else {
            out.push(chars[i]);
            i += 1;
            assert(whole =~= out@ + replaced(text@, from@, to@, i as int));
        }
    }
    assert(replaced(text@, from@, to@, i as int) =~= Seq::<char>::empty());
    assert(out@ =~= whole);
    out
}

/// The first place from `start` on at which `needle` stands.
pub open spec fn first_occurrence(text: Seq<char>, needle: Seq<char>, start: int) -> Option<int>
    decreases text.len() + 1 - start,
{
    if start < 0 || start + needle.len() > text.len() {
        None
    } else if occurs_at(text, needle, start) {
        Some(start)
    } else {
        first_occurrence(text, needle, start + 1)
    }
}

/// The place of a text in another, counted from one, or zero if it is absent.
pub open spec fn position(needle: Seq<char>, text: Seq<char>) -> int {
    match first_occurrence(text, needle, 0) {
        Some(start) => start + 1,
        None => 0,
    }
}

/// The place of `needle` in `text`, counted from one, or zero if it is absent. An
/// empty needle is at position one.
pub fn position_in(needle: &str, text: &str) -> (place: usize)
    ensures
        place == position(needle@, text@),
{
    let wanted: Vec<char> = text::chars_of(needle);
    let chars: Vec<char> = text::chars_of(text);
    if wanted.len() == 0 {
        assert(text@.subrange(0, 0) =~= needle@);
        return 1;
    }
    let mut i: usize = 0;
    while i < chars.len() && wanted.len() <= chars.len() - i
        invariant
            i <= chars@.len(),
            chars@ == text@,
            wanted@ == needle@,
            needle@.len() > 0,
            first_occurrence(text@, needle@, 0) == first_occurrence(text@, needle@, i as int),
        decreases chars@.len() - i,
    {
        if does_occur_at(&chars, &wanted, i) {
            return i + 1;
        }
        i += 1;
    }
    0
}

/// The first `n` characters; for a negative `n`, all but the last `-n`.
pub open spec fn left(text: Seq<char>, n: int) -> Seq<char> {
    let count = if n >= 0 {
        n
    } else {
        text.len() + n
    };
    if count <= 0 {
        Seq::empty()
    } else if count >= text.len() {
        text
    } else {
        text.take(count)
    }
}

/// The last `n` characters; for a negative `n`, all but the first `-n`.
pub open spec fn right(text: Seq<char>, n: int) -> Seq<char> {
    let start = if n >= 0 {
        text.len() - n
    } else {
        -n
    };
    if start <= 0 {
        text
    } else if start >= text.len() {
        Seq::empty()
    } else {
        text.skip(start)
    }
}

/// `LEFT(string, n)`, by character. A negative `n` removes `|n|` characters from the
/// far end (PostgreSQL semantics).
pub fn left_of(text: &str, n: i64) -> (out: String)
    ensures
        out@ == left(text@, n as int),
{
    let chars: Vec<char> = text::chars_of(text);
    let length: i128 = chars.len() as i128;
    let count: i128 = if n >= 0 {
        n as i128
    } else {
        length + n as i128
    };
    let end: usize = if count <= 0 {
        0
    } else if count >= length {
        chars.len()
    } else {
        count as usize
    };
    let mut out: String = String::new();
    text::push_chars(&mut out, &chars, 0, end);
    assert(out@ =~= left(text@, n as int));
    out
}

/// `RIGHT(string, n)`, by character. A negative `n` removes `|n|` characters from the
/// far end (PostgreSQL semantics).
pub fn right_of(text: &str, n: i64) -> (out: String)
    ensures
        out@ == right(text@, n as int),
{
    let chars: Vec<char> = text::chars_of(text);
    let length: i128 = chars.len() as i128;
    let wanted: i128 = if n >= 0 {
        length - n as i128
    } else {
        -(n as i128)
    };
    let start: usize = if wanted <= 0 {
        0
    } else if wanted >= length {
        chars.len()
    } else {
        wanted as usize
    };
    let mut out: String = String::new();
    text::push_chars(&mut out, &chars, start, chars.len());
    assert(out@ =~= right(text@, n as int));
    out
}

/// The characters at the places from `start` on, counted from one, up to but not at
/// `end`, as far as the text has them.
pub open spec fn substring(text: Seq<char>, start: int, end: int) -> Seq<char> {
    let lower = if start > 1 {
        start
    } else {
        1
    };
    let upper = if end < text.len() + 1 {
        end
    } else {
        text.len() as int + 1
    };
    if upper <= lower {
        Seq::empty()
    } else {
        text.subrange(lower - 1, upper - 1)
    }
}

/// The characters at the places from `start` on, counted from one, up to but not at
/// `end` if there is one, as far as the text has them.
pub(crate) fn substring_of(chars: &[char], start: i64, end: Option<i128>) -> (out: String)
    ensures
        out@ == substring(
            chars@,
            start as int,
            match end {
                Some(end) => end as int,
                None => chars@.len() as int + 1,
            },
        ),
{
    let length: i128 = chars.len() as i128;
    let lower: i128 = if start > 1 {
        start as i128
    } else {
        1
    };
    let upper: i128 = match end {
        Some(end) if end < length + 1 => end,
        _ => length + 1,
    };
    let mut out: String = String::new();
    if upper <= lower {
        return out;
    }
    text::push_chars(&mut out, chars, (lower - 1) as usize, (upper - 1) as usize);
    out
}

/// Taking the whole length from the left gives the text, and what the left leaves the
/// right takes.
pub proof fn left_and_right_make_the_text(text: Seq<char>, n: int)
    requires
        0 <= n <= text.len(),
    ensures
        left(text, n) + right(text, text.len() - n) == text,
        left(text, text.len() as int) == text,
{
    assert(left(text, n) + right(text, text.len() - n) =~= text);
    assert(left(text, text.len() as int) =~= text);
}

} // verus!
