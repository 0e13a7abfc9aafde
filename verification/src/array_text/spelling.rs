//! How arrays and their elements are spelled.

use vstd::prelude::*;

use crate::array::ArrayDimension;
use crate::array_text::{
    self, array_of_text, element_text, escaped, is_null_word, structure_text, ValueTexts,
};
use crate::text;
use crate::value::ValueView;

verus! {

/// An element stands in quotes only where it must: a text stays as it is if it is not
/// empty, does not read like NULL and holds no ASCII white space, brace, comma, quote or
/// backslash.
pub proof fn plain_elements_are_not_quoted(word: Seq<char>)
    requires
        word.len() > 0,
        !is_null_word(word),
        forall|i: int|
            0 <= i < word.len() ==> {
                let c = #[trigger] word[i];
                &&& c != ' ' && c != '\t' && c != '\n' && c != '\r' && c as int != 12
                &&& c != '{' && c != '}' && c != ',' && c != '"' && c != '\\'
            },
    ensures
        element_text(word) == word,
{
    assert forall|i: int| 0 <= i < word.len() implies !array_text::special(#[trigger] word[i]) by {}
    lemma_nothing_to_escape(word);
}

proof fn lemma_nothing_to_escape(word: Seq<char>)
    requires
        forall|i: int| 0 <= i < word.len() ==> #[trigger] word[i] != '"' && word[i] != '\\',
    ensures
        escaped(word) == word,
    decreases word.len(),
{
    if word.len() > 0 {
        let front = word.drop_last();
        assert forall|i: int| 0 <= i < front.len() implies #[trigger] front[i] != '"' && front[i]
            != '\\' by {
            assert(front[i] == word[i]);
        }
        lemma_nothing_to_escape(front);
        assert(front.push(word.last()) =~= word);
    } else {
        assert(escaped(word) =~= word);
    }
}

/// Every other element stands in quotes, with a backslash before each quote and each
/// backslash and nothing else added or lost.
pub proof fn other_elements_are_quoted(word: Seq<char>, more: char, i: int)
    requires
        word.len() == 0 || is_null_word(word) || (0 <= i < word.len() && (word[i] == ' ' || word[i]
            == '\t' || word[i] == '\n' || word[i] == '\r' || word[i] as int == 12 || word[i] == '{'
            || word[i] == '}' || word[i] == ',' || word[i] == '"' || word[i] == '\\')),
    ensures
        element_text(word) == seq!['"'] + escaped(word) + seq!['"'],
        escaped(Seq::empty()) == Seq::<char>::empty(),
        more == '"' || more == '\\' ==> escaped(word.push(more)) == escaped(word) + seq!['\\', more],
        more != '"' && more != '\\' ==> escaped(word.push(more)) == escaped(word).push(more),
{
    if word.len() > 0 && !is_null_word(word) {
        assert(array_text::special(word[i]));
    }
    assert(word.push(more).drop_last() =~= word);
    assert(escaped(word).push('\\').push(more) =~= escaped(word) + seq!['\\', more]);
}

/// An array of one dimension that starts at subscript one is spelled as its elements in
/// braces with commas between them; where it starts elsewhere its first and last
/// subscripts stand before it in brackets.
pub proof fn lists_are_spelled_in_braces(items: Seq<Seq<char>>, lower_bound: i32, len: u32)
    requires
        items.len() == len,
        len > 0,
        lower_bound + len - 1 <= i32::MAX,
    ensures
        ({
            let list = seq!['{'] + text::joined(items, seq![',']) + seq!['}'];
            let shown = structure_text(seq![ArrayDimension { len, lower_bound }], items);
            if lower_bound == 1 {
                shown == list
            } else {
                shown == seq!['['] + text::signed_decimal_text(lower_bound as int) + seq![':']
                    + text::signed_decimal_text(lower_bound + len - 1) + seq![']', '='] + list
            }
        }),
{
    let dimensions = seq![ArrayDimension { len, lower_bound }];
    lemma_listed(dimensions, items, len as nat);
    assert(items.take(len as int) =~= items);
    assert(dimensions[0].lower_bound == lower_bound);
    reveal_with_fuel(array_text::item_text, 2);
    let list = seq!['{'] + text::joined(items, seq![',']) + seq!['}'];
    assert(array_text::item_text(dimensions, 0, items, 0) == list);
    reveal_with_fuel(array_text::ranges_text, 2);
    if lower_bound != 1 {
        assert(array_text::has_bounds(dimensions));
        assert(structure_text(dimensions, items) =~= seq!['['] + text::signed_decimal_text(
            lower_bound as int,
        ) + seq![':'] + text::signed_decimal_text(lower_bound + len - 1) + seq![']', '='] + list);
    } else {
        assert(!array_text::has_bounds(dimensions));
    }
}

proof fn lemma_listed(dimensions: Seq<ArrayDimension>, items: Seq<Seq<char>>, count: nat)
    requires
        dimensions.len() == 1,
        count <= items.len(),
    ensures
        array_text::listed_text(dimensions, 0, items, 0, count) == text::joined(
            items.take(count as int),
            seq![','],
        ),
    decreases count,
{
    let some = items.take(count as int);
    if count == 0 {
        assert(some =~= Seq::empty());
    } else {
        lemma_listed(dimensions, items, (count - 1) as nat);
        assert(some.drop_last() =~= items.take(count - 1));
        assert(array_text::block(dimensions, 1) == 1);
        assert((count - 1) as nat * 1 == (count - 1) as nat);
        assert(array_text::item_text(dimensions, 1, items, (count - 1) as nat) == items[count - 1]);
        assert(some.last() == items[count - 1]);
    }
}

/// NULL elements are spelled `NULL`, and the others as their texts, in order; the first
/// text that fails makes the whole fail.
pub proof fn elements_are_spelled_one_by_one<E>(
    elements: Seq<ValueView>,
    texts: ValueTexts<E>,
    more: ValueView,
    before: Seq<Seq<char>>,
)
    ensures
        array_text::rendered(elements.push(more), 0, texts, before) == match array_text::rendered(
            elements,
            0,
            texts,
            before,
        ) {
            Err(error) => Err(error),
            Ok(items) => if more is Null {
                Ok(items.push("NULL"@))
            } else {
                match texts(more) {
                    Err(error) => Err(error),
                    Ok(word) => Ok(items.push(element_text(word))),
                }
            },
        },
{
    lemma_rendered_pushed(elements, texts, more, before, 0);
}

proof fn lemma_rendered_pushed<E>(
    elements: Seq<ValueView>,
    texts: ValueTexts<E>,
    more: ValueView,
    before: Seq<Seq<char>>,
    start: nat,
)
    requires
        start <= elements.len(),
    ensures
        array_text::rendered(elements.push(more), start, texts, before) == match array_text::rendered(
            elements,
            start,
            texts,
            before,
        ) {
            Err(error) => Err(error),
            Ok(items) => if more is Null {
                Ok(items.push("NULL"@))
            } else {
                match texts(more) {
                    Err(error) => Err(error),
                    Ok(word) => Ok(items.push(element_text(word))),
                }
            },
        },
    decreases elements.len() - start,
{
    let longer = elements.push(more);
    if start < elements.len() {
        let element = elements[start as int];
        assert(longer[start as int] == element);
        if element is Null {
            lemma_rendered_pushed(elements, texts, more, before.push("NULL"@), start + 1);
        } else if texts(element) is Ok {
            lemma_rendered_pushed(
                elements,
                texts,
                more,
                before.push(element_text(texts(element)->Ok_0)),
                start + 1,
            );
        }
    } else {
        assert(longer[start as int] == more);
        reveal_with_fuel(array_text::rendered, 2);
    }
}

/// An array that is spelled without subscripts starts at subscript one in all of its
/// dimensions.
pub proof fn arrays_start_at_one(source: Seq<char>, i: int)
    requires
        source.len() > 0,
        source[0] == '{',
        array_of_text(source) is Ok,
        0 <= i < array_of_text(source)->Ok_0.0.len(),
    ensures
        array_of_text(source)->Ok_0.0[i].lower_bound == 1,
{
}

/// The word for NULL is read in any case, and only where it is spelled out.
pub proof fn null_is_read_in_any_case(word: Seq<char>)
    ensures
        is_null_word(word) <==> {
            &&& word.len() == 4
            &&& word[0] == 'n' || word[0] == 'N'
            &&& word[1] == 'u' || word[1] == 'U'
            &&& word[2] == 'l' || word[2] == 'L'
            &&& word[3] == 'l' || word[3] == 'L'
        },
{
    reveal_strlit("null");
    let lower = text::ascii_lowered(word);
    assert(lower.len() == word.len());
    if word.len() == 4 {
        assert(lower[0] == text::ascii_lower(word[0]) && lower[1] == text::ascii_lower(word[1]));
        assert(lower[2] == text::ascii_lower(word[2]) && lower[3] == text::ascii_lower(word[3]));
        if lower[0] == 'n' && lower[1] == 'u' && lower[2] == 'l' && lower[3] == 'l' {
            assert(lower =~= "null"@);
        }
    }
}

} // verus!
