//! Array text is read back as it was written.

use vstd::prelude::*;

use crate::array::{self, ArrayDimension, ArrayView, MAX_ARRAY_DIMENSIONS, MAX_ARRAY_ELEMENTS};
use crate::array_text::{
    self, Cursor, Listed, Parsed, ValueTexts, MAX_ARRAY_TEXT_LISTS,
};
use crate::error::ErrorView;
use crate::text;

verus! {

/// The text of an element; `None` is NULL.
pub open spec fn item_of(word: Option<Seq<char>>) -> Seq<char> {
    match word {
        Some(word) => array_text::element_text(word),
        None => "NULL"@,
    }
}

/// The texts of elements.
pub open spec fn items_of(words: Seq<Option<Seq<char>>>) -> Seq<Seq<char>> {
    Seq::new(words.len(), |i: int| item_of(words[i]))
}

/// A text stands at a position.
spec fn holds(s: Seq<char>, i: nat, t: Seq<char>) -> bool {
    i + t.len() <= s.len() && s.subrange(i as int, (i + t.len()) as int) == t
}

proof fn lemma_holds_split(s: Seq<char>, i: nat, a: Seq<char>, b: Seq<char>)
    requires
        holds(s, i, a + b),
    ensures
        holds(s, i, a),
        holds(s, i + a.len(), b),
{
    let t = a + b;
    let whole = s.subrange(i as int, (i + t.len()) as int);
    assert(s.subrange(i as int, (i + a.len()) as int) =~= a) by {
        assert forall|j: int| 0 <= j < a.len() implies s[i + j] == a[j] by {
            assert(whole[j] == t[j]);
        }
    }
    assert(s.subrange((i + a.len()) as int, (i + t.len()) as int) =~= b) by {
        assert forall|j: int| 0 <= j < b.len() implies s[i + a.len() + j] == b[j] by {
            assert(whole[a.len() + j] == t[a.len() + j]);
        }
    }
}

proof fn lemma_holds_char(s: Seq<char>, i: nat, t: Seq<char>, j: int)
    requires
        holds(s, i, t),
        0 <= j < t.len(),
    ensures
        s[i + j] == t[j],
{
    assert(s.subrange(i as int, (i + t.len()) as int)[j] == t[j]);
}

/// The characters of a word, marked where they were escaped.
spec fn marks(word: Seq<char>) -> Seq<(char, bool)> {
    Seq::new(word.len(), |i: int| (word[i], word[i] == '"' || word[i] == '\\'))
}

spec fn escaped_char(c: char) -> Seq<char> {
    if c == '"' || c == '\\' {
        seq!['\\', c]
    } else {
        seq![c]
    }
}

proof fn lemma_escaped_from_front(word: Seq<char>)
    requires
        word.len() > 0,
    ensures
        array_text::escaped(word) == escaped_char(word[0]) + array_text::escaped(
            word.drop_first(),
        ),
    decreases word.len(),
{
    let rest = word.drop_first();
    if word.len() == 1 {
        assert(word.drop_last() =~= Seq::<char>::empty());
        assert(rest =~= Seq::<char>::empty());
        assert(array_text::escaped(word.drop_last()) =~= Seq::<char>::empty());
        assert(array_text::escaped(word) =~= escaped_char(word[0]) + array_text::escaped(rest));
    } else {
        let front = word.drop_last();
        lemma_escaped_from_front(front);
        assert(front.drop_first() =~= rest.drop_last());
        assert(rest.last() == word.last());
        assert(front[0] == word[0]);
        assert(array_text::escaped(word) =~= escaped_char(word[0]) + array_text::escaped(rest));
    }
}

proof fn lemma_scan_quoted(s: Seq<char>, i: nat, word: Seq<char>, before: Seq<(char, bool)>)
    requires
        holds(s, i, array_text::escaped(word) + seq!['"']),
    ensures
        array_text::scan(s, i, true, before) == Ok::<(Seq<(char, bool)>, nat), ErrorView>(
            (before + marks(word), i + array_text::escaped(word).len() + 1),
        ),
    decreases word.len(),
{
    let written = array_text::escaped(word);
    lemma_holds_split(s, i, written, seq!['"']);
    lemma_holds_char(s, i + written.len(), seq!['"'], 0);
    if word.len() == 0 {
        assert(before + marks(word) =~= before);
    } else {
        lemma_escaped_from_front(word);
        let rest = word.drop_first();
        let first = escaped_char(word[0]);
        assert(written + seq!['"'] =~= first + (array_text::escaped(rest) + seq!['"']));
        lemma_holds_split(s, i, first, array_text::escaped(rest) + seq!['"']);
        lemma_holds_char(s, i, first, 0);
        let marked = (word[0], word[0] == '"' || word[0] == '\\');
        if word[0] == '"' || word[0] == '\\' {
            lemma_holds_char(s, i, first, 1);
        }
        lemma_scan_quoted(s, i + first.len(), rest, before.push(marked));
        assert(before.push(marked) + marks(rest) =~= before + marks(word));
    }
}

/// A text without special characters.
spec fn is_plain(word: Seq<char>) -> bool {
    word.len() > 0 && forall|i: int| 0 <= i < word.len() ==> !array_text::special(
        #[trigger] word[i],
    )
}

spec fn plain_marks(word: Seq<char>) -> Seq<(char, bool)> {
    Seq::new(word.len(), |i: int| (word[i], false))
}

proof fn lemma_scan_plain(s: Seq<char>, i: nat, word: Seq<char>, before: Seq<(char, bool)>)
    requires
        holds(s, i, word),
        forall|j: int| 0 <= j < word.len() ==> !array_text::special(#[trigger] word[j]),
        i + word.len() < s.len(),
        s[(i + word.len()) as int] == ',' || s[(i + word.len()) as int] == '}',
    ensures
        array_text::scan(s, i, false, before) == Ok::<(Seq<(char, bool)>, nat), ErrorView>(
            (before + plain_marks(word), i + word.len()),
        ),
    decreases word.len(),
{
    if word.len() == 0 {
        assert(before + plain_marks(word) =~= before);
    } else {
        let rest = word.drop_first();
        lemma_holds_char(s, i, word, 0);
        assert(!array_text::special(word[0]));
        assert(word =~= seq![word[0]] + rest);
        lemma_holds_split(s, i, seq![word[0]], rest);
        assert forall|j: int| 0 <= j < rest.len() implies !array_text::special(
            #[trigger] rest[j],
        ) by {
            assert(rest[j] == word[j + 1]);
        }
        lemma_scan_plain(s, i + 1, rest, before.push((word[0], false)));
        assert(before.push((word[0], false)) + plain_marks(rest) =~= before + plain_marks(word));
    }
}

proof fn lemma_plain_word_is_kept(word: Seq<char>)
    requires
        is_plain(word),
    ensures
        array_text::unmarked(
            array_text::without_trailing(array_text::without_leading(plain_marks(word))),
        ) == word,
{
    let marked = plain_marks(word);
    assert(!array_text::special(word[0]));
    assert(!array_text::special(word[word.len() - 1]));
    assert(array_text::without_leading(marked) == marked);
    assert(array_text::without_trailing(marked) == marked);
    assert(array_text::unmarked(marked) =~= word);
}

proof fn lemma_escaped_plain(word: Seq<char>)
    requires
        forall|j: int| 0 <= j < word.len() ==> !array_text::special(#[trigger] word[j]),
    ensures
        array_text::escaped(word) == word,
    decreases word.len(),
{
    if word.len() > 0 {
        let front = word.drop_last();
        assert forall|j: int| 0 <= j < front.len() implies !array_text::special(
            #[trigger] front[j],
        ) by {
            assert(front[j] == word[j]);
        }
        lemma_escaped_plain(front);
        assert(!array_text::special(word[word.len() - 1]));
        assert(array_text::escaped(word) =~= word);
    }
}

proof fn lemma_null_word()
    ensures
        is_plain("NULL"@),
        array_text::is_null_word("NULL"@),
        "NULL"@[0] == 'N',
{
    reveal_strlit("NULL");
    reveal_strlit("null");
    assert(text::ascii_lowered("NULL"@) =~= "null"@);
}

/// The first character of an element's text starts neither a list nor white space.
proof fn lemma_item_start(word: Option<Seq<char>>)
    ensures
        item_of(word).len() > 0,
        item_of(word)[0] == '"' || !array_text::special(item_of(word)[0]),
{
    match word {
        Some(chars) => {
            if !array_text::needs_quotes(chars) {
                lemma_escaped_plain(chars);
                assert(!array_text::special(chars[0]));
            }
        },
        None => {
            lemma_null_word();
            assert(!array_text::special("NULL"@[0]));
        },
    }
}

proof fn lemma_element(s: Seq<char>, here: Cursor, word: Option<Seq<char>>)
    requires
        holds(s, here.offset, item_of(word)),
        here.offset + item_of(word).len() < s.len(),
        s[(here.offset + item_of(word).len()) as int] == ',' || s[(here.offset + item_of(
            word,
        ).len()) as int] == '}',
        here.elements + 1 <= MAX_ARRAY_ELEMENTS,
    ensures
        array_text::element_at(s, here) == Ok::<(Option<Seq<char>>, Cursor), ErrorView>(
            (
                word,
                Cursor {
                    offset: here.offset + item_of(word).len(),
                    elements: here.elements + 1,
                    ..here
                },
            ),
        ),
{
    lemma_item_start(word);
    lemma_holds_char(s, here.offset, item_of(word), 0);
    let plain = match word {
        Some(chars) => !array_text::needs_quotes(chars),
        None => true,
    };
    if plain {
        let chars = item_of(word);
        match word {
            Some(inner) => {
                lemma_escaped_plain(inner);
            },
            None => {
                lemma_null_word();
            },
        }
        assert(is_plain(chars));
        assert(!array_text::special(chars[0]));
        lemma_scan_plain(s, here.offset, chars, Seq::empty());
        assert(Seq::<(char, bool)>::empty() + plain_marks(chars) =~= plain_marks(chars));
        lemma_plain_word_is_kept(chars);
    } else {
        let chars = word->0;
        let written = array_text::escaped(chars);
        assert(item_of(word) =~= seq!['"'] + (written + seq!['"']));
        lemma_holds_split(s, here.offset, seq!['"'], written + seq!['"']);
        lemma_scan_quoted(s, here.offset + 1, chars, Seq::empty());
        assert(Seq::<(char, bool)>::empty() + marks(chars) =~= marks(chars));
        assert(array_text::unmarked(marks(chars)) =~= chars);
    }
}

/// The lengths of the dimensions from one on.
spec fn lengths_from(dimensions: Seq<ArrayDimension>, depth: nat) -> Seq<nat> {
    Seq::new((dimensions.len() - depth) as nat, |i: int| dimensions[depth + i].len as nat)
}

/// The lists in one item of a dimension.
spec fn lists_under(dimensions: Seq<ArrayDimension>, depth: nat) -> nat
    decreases dimensions.len() - depth,
{
    if depth >= dimensions.len() {
        0
    } else {
        1 + dimensions[depth as int].len as nat * lists_under(dimensions, depth + 1)
    }
}

spec fn all_positive(dimensions: Seq<ArrayDimension>) -> bool {
    forall|i: int| 0 <= i < dimensions.len() ==> (#[trigger] dimensions[i]).len > 0
}

proof fn lemma_block_positive(dimensions: Seq<ArrayDimension>, depth: nat)
    requires
        all_positive(dimensions),
    ensures
        array_text::block(dimensions, depth) > 0,
    decreases dimensions.len() - depth,
{
    if depth < dimensions.len() {
        lemma_block_positive(dimensions, depth + 1);
        let len = dimensions[depth as int].len as nat;
        let inner = array_text::block(dimensions, depth + 1);
        assert(len * inner > 0) by (nonlinear_arith)
            requires
                len > 0,
                inner > 0,
        ;
    }
}

proof fn lemma_lists_bound(dimensions: Seq<ArrayDimension>, depth: nat)
    requires
        all_positive(dimensions),
        depth <= dimensions.len(),
    ensures
        lists_under(dimensions, depth) <= (dimensions.len() - depth) * array_text::block(
            dimensions,
            depth,
        ),
    decreases dimensions.len() - depth,
{
    if depth < dimensions.len() {
        lemma_lists_bound(dimensions, depth + 1);
        lemma_block_positive(dimensions, depth);
        let len = dimensions[depth as int].len as int;
        let inner = array_text::block(dimensions, depth + 1) as int;
        let left = dimensions.len() - depth - 1;
        let lists = lists_under(dimensions, depth + 1) as int;
        assert(1 + len * lists <= (left + 1) * (len * inner)) by (nonlinear_arith)
            requires
                lists <= left * inner,
                len * inner >= 1,
                len >= 0,
        ;
    } else {
        assert((dimensions.len() - depth) * array_text::block(dimensions, depth) == 0)
            by (nonlinear_arith)
            requires
                dimensions.len() == depth,
        ;
    }
}

/// A shape whose item of a dimension starts at an element.
spec fn fits(
    dimensions: Seq<ArrayDimension>,
    depth: nat,
    words: Seq<Option<Seq<char>>>,
    start: nat,
) -> bool {
    &&& all_positive(dimensions)
    &&& dimensions.len() <= MAX_ARRAY_DIMENSIONS
    &&& depth <= dimensions.len()
    &&& start + array_text::block(dimensions, depth) <= words.len()
}

proof fn lemma_item_text_start(
    dimensions: Seq<ArrayDimension>,
    depth: nat,
    words: Seq<Option<Seq<char>>>,
    start: nat,
)
    requires
        fits(dimensions, depth, words, start),
    ensures
        array_text::item_text(dimensions, depth, items_of(words), start).len() > 0,
        ({
            let first = array_text::item_text(dimensions, depth, items_of(words), start)[0];
            if depth < dimensions.len() {
                first == '{'
            } else {
                first == '"' || !array_text::special(first)
            }
        }),
{
    if depth >= dimensions.len() {
        assert(array_text::block(dimensions, depth) == 1);
        lemma_item_start(words[start as int]);
        assert(items_of(words)[start as int] == item_of(words[start as int]));
    }
}

/// The first items of a list stand at the start of its text, and a comma behind them
/// unless they are all.
proof fn lemma_listed_prefix(
    dimensions: Seq<ArrayDimension>,
    depth: nat,
    items: Seq<Seq<char>>,
    start: nat,
    k: nat,
    count: nat,
)
    requires
        depth < dimensions.len(),
        k <= count,
    ensures
        ({
            let some = array_text::listed_text(dimensions, depth, items, start, k);
            let all = array_text::listed_text(dimensions, depth, items, start, count);
            &&& some.len() <= all.len()
            &&& all.take(some.len() as int) == some
            &&& 0 < k < count ==> some.len() < all.len() && all[some.len() as int] == ','
        }),
    decreases count,
{
    let some = array_text::listed_text(dimensions, depth, items, start, k);
    let all = array_text::listed_text(dimensions, depth, items, start, count);
    if k == count {
        assert(all.take(some.len() as int) =~= some);
    } else {
        lemma_listed_prefix(dimensions, depth, items, start, k, (count - 1) as nat);
        let before = array_text::listed_text(
            dimensions,
            depth,
            items,
            start,
            (count - 1) as nat,
        );
        if count == 1 {
            assert(some.len() == 0);
            assert(all.take(0) =~= some);
        } else {
            assert(all.take(some.len() as int) =~= before.take(some.len() as int)) by {
                assert forall|j: int| 0 <= j < some.len() implies all[j] == before[j] by {}
            }
            if k > 0 && k < count - 1 {
                assert(all[some.len() as int] == before[some.len() as int]);
            }
        }
    }
}

/// The position of an item in the text of its list.
spec fn item_place(
    dimensions: Seq<ArrayDimension>,
    depth: nat,
    items: Seq<Seq<char>>,
    start: nat,
    k: nat,
) -> nat {
    if k == 0 {
        0
    } else {
        array_text::listed_text(dimensions, depth, items, start, k).len() + 1
    }
}

proof fn lemma_item_in_list(
    s: Seq<char>,
    i: nat,
    dimensions: Seq<ArrayDimension>,
    depth: nat,
    items: Seq<Seq<char>>,
    start: nat,
    k: nat,
)
    requires
        depth < dimensions.len(),
        k < dimensions[depth as int].len,
        holds(
            s,
            i,
            array_text::listed_text(
                dimensions,
                depth,
                items,
                start,
                dimensions[depth as int].len as nat,
            ) + seq!['}'],
        ),
    ensures
        ({
            let count = dimensions[depth as int].len as nat;
            let item = array_text::item_text(
                dimensions,
                depth + 1,
                items,
                start + k * array_text::block(dimensions, depth + 1),
            );
            let place = i + item_place(dimensions, depth, items, start, k);
            &&& holds(s, place, item)
            &&& place + item.len() < s.len()
            &&& place + item.len() == i + array_text::listed_text(
                dimensions,
                depth,
                items,
                start,
                k + 1,
            ).len()
            &&& s[(place + item.len()) as int] == (if k + 1 < count {
                ','
            } else {
                '}'
            })
        }),
{
    let count = dimensions[depth as int].len as nat;
    let all = array_text::listed_text(dimensions, depth, items, start, count);
    let upto = array_text::listed_text(dimensions, depth, items, start, k + 1);
    let before = array_text::listed_text(dimensions, depth, items, start, k);
    let item = array_text::item_text(
        dimensions,
        depth + 1,
        items,
        start + k * array_text::block(dimensions, depth + 1),
    );
    lemma_holds_split(s, i, all, seq!['}']);
    lemma_holds_char(s, i + all.len(), seq!['}'], 0);
    lemma_listed_prefix(dimensions, depth, items, start, k + 1, count);
    assert(all =~= upto + all.skip(upto.len() as int)) by {
        assert forall|j: int| 0 <= j < upto.len() implies all[j] == upto[j] by {
            assert(all.take(upto.len() as int)[j] == all[j]);
        }
    }
    lemma_holds_split(s, i, upto, all.skip(upto.len() as int));
    if k == 0 {
        assert(upto == item);
    } else {
        assert(upto =~= (before + seq![',']) + item);
        lemma_holds_split(s, i, before + seq![','], item);
    }
    if k + 1 < count {
        lemma_holds_char(s, i, all, upto.len() as int);
    } else {
        assert(upto == all);
    }
}

proof fn lemma_no_space(s: Seq<char>, i: nat)
    requires
        i < s.len() ==> !text::ascii_space(s[i as int]),
    ensures
        array_text::after_space(s, i) == i,
{
}

/// A list is read back: its lengths, its elements and where it ends.
spec fn read_list(
    dimensions: Seq<ArrayDimension>,
    depth: nat,
    words: Seq<Option<Seq<char>>>,
    start: nat,
    here: Cursor,
    width: nat,
) -> Parsed<Listed> {
    let block = array_text::block(dimensions, depth);
    Ok(
        Listed {
            lengths: lengths_from(dimensions, depth),
            elements: words.subrange(start as int, (start + block) as int),
            behind: Cursor {
                offset: here.offset + width,
                lists: here.lists + lists_under(dimensions, depth),
                elements: here.elements + block,
            },
        },
    )
}

proof fn lemma_list(
    s: Seq<char>,
    here: Cursor,
    dimensions: Seq<ArrayDimension>,
    depth: nat,
    words: Seq<Option<Seq<char>>>,
    start: nat,
)
    requires
        fits(dimensions, depth, words, start),
        depth < dimensions.len(),
        holds(
            s,
            here.offset,
            array_text::item_text(dimensions, depth, items_of(words), start),
        ),
        here.lists + lists_under(dimensions, depth) <= MAX_ARRAY_TEXT_LISTS,
        here.elements + array_text::block(dimensions, depth) <= MAX_ARRAY_ELEMENTS,
    ensures
        array_text::list_at(s, here, depth) == read_list(
            dimensions,
            depth,
            words,
            start,
            here,
            array_text::item_text(dimensions, depth, items_of(words), start).len(),
        ),
    decreases dimensions.len() - depth, 1nat, 0nat,
{
    let items = items_of(words);
    let count = dimensions[depth as int].len as nat;
    let all = array_text::listed_text(dimensions, depth, items, start, count);
    let item = array_text::item_text(dimensions, depth, items, start);
    assert(item =~= seq!['{'] + (all + seq!['}']));
    lemma_holds_split(s, here.offset, seq!['{'], all + seq!['}']);
    lemma_holds_char(s, here.offset, seq!['{'], 0);
    lemma_no_space(s, here.offset);
    lemma_item_in_list(s, here.offset + 1, dimensions, depth, items, start, 0);
    assert(0 * array_text::block(dimensions, depth + 1) == 0) by (nonlinear_arith);
    lemma_first_item(dimensions, depth, words, start);
    lemma_item_text_start(dimensions, depth + 1, words, start);
    lemma_holds_char(
        s,
        here.offset + 1,
        array_text::item_text(dimensions, depth + 1, items, start),
        0,
    );
    lemma_no_space(s, here.offset + 1);
    let counted = Cursor { offset: here.offset + 1, lists: here.lists + 1, ..here };
    lemma_items(s, counted, dimensions, depth, words, start, 0);
    assert(0 * lists_under(dimensions, depth + 1) == 0) by (nonlinear_arith);
    assert(words.subrange(start as int, start as int) =~= Seq::empty());
}

proof fn lemma_first_item(
    dimensions: Seq<ArrayDimension>,
    depth: nat,
    words: Seq<Option<Seq<char>>>,
    start: nat,
)
    requires
        fits(dimensions, depth, words, start),
        depth < dimensions.len(),
    ensures
        fits(dimensions, depth + 1, words, start),
{
    let inner = array_text::block(dimensions, depth + 1);
    let len = dimensions[depth as int].len as nat;
    assert(inner <= len * inner) by (nonlinear_arith)
        requires
            len >= 1,
    ;
}

proof fn lemma_later_item(
    dimensions: Seq<ArrayDimension>,
    depth: nat,
    words: Seq<Option<Seq<char>>>,
    start: nat,
    k: nat,
)
    requires
        fits(dimensions, depth, words, start),
        depth < dimensions.len(),
        k < dimensions[depth as int].len,
    ensures
        fits(
            dimensions,
            depth + 1,
            words,
            start + k * array_text::block(dimensions, depth + 1),
        ),
        (k + 1) * array_text::block(dimensions, depth + 1) == k * array_text::block(
            dimensions,
            depth + 1,
        ) + array_text::block(dimensions, depth + 1),
        (k + 1) * array_text::block(dimensions, depth + 1) <= array_text::block(
            dimensions,
            depth,
        ),
        (k + 1) * lists_under(dimensions, depth + 1) == k * lists_under(dimensions, depth + 1)
            + lists_under(dimensions, depth + 1),
        1 + (k + 1) * lists_under(dimensions, depth + 1) <= lists_under(dimensions, depth),
{
    let inner = array_text::block(dimensions, depth + 1) as int;
    let lists = lists_under(dimensions, depth + 1) as int;
    let len = dimensions[depth as int].len as int;
    assert((k + 1) * inner == k * inner + inner && (k + 1) * inner <= len * inner)
        by (nonlinear_arith)
        requires
            k + 1 <= len,
            inner >= 0,
    ;
    assert((k + 1) * lists == k * lists + lists && (k + 1) * lists <= len * lists)
        by (nonlinear_arith)
        requires
            k + 1 <= len,
            lists >= 0,
    ;
}

/// The items of a list from one on are read back.
proof fn lemma_items(
    s: Seq<char>,
    first: Cursor,
    dimensions: Seq<ArrayDimension>,
    depth: nat,
    words: Seq<Option<Seq<char>>>,
    start: nat,
    k: nat,
)
    requires
        fits(dimensions, depth, words, start),
        depth < dimensions.len(),
        k < dimensions[depth as int].len,
        holds(
            s,
            first.offset,
            array_text::listed_text(
                dimensions,
                depth,
                items_of(words),
                start,
                dimensions[depth as int].len as nat,
            ) + seq!['}'],
        ),
        first.lists + lists_under(dimensions, depth) <= MAX_ARRAY_TEXT_LISTS + 1,
        first.elements + array_text::block(dimensions, depth) <= MAX_ARRAY_ELEMENTS,
    ensures
        ({
            let inner = array_text::block(dimensions, depth + 1);
            let count = dimensions[depth as int].len as nat;
            let last = depth + 1 >= dimensions.len();
            let here = Cursor {
                offset: first.offset + item_place(dimensions, depth, items_of(words), start, k),
                lists: first.lists + k * lists_under(dimensions, depth + 1),
                elements: first.elements + k * inner,
            };
            array_text::items_at(
                s,
                here,
                depth,
                k,
                if k > 0 && !last {
                    Some(lengths_from(dimensions, depth + 1))
                } else {
                    None
                },
                k > 0 && last,
                words.subrange(start as int, (start + k * inner) as int),
            ) == Ok::<Listed, ErrorView>(
                Listed {
                    lengths: lengths_from(dimensions, depth),
                    elements: words.subrange(
                        start as int,
                        (start + array_text::block(dimensions, depth)) as int,
                    ),
                    behind: Cursor {
                        offset: first.offset + array_text::listed_text(
                            dimensions,
                            depth,
                            items_of(words),
                            start,
                            count,
                        ).len() + 1,
                        lists: (first.lists + lists_under(dimensions, depth) - 1) as nat,
                        elements: first.elements + array_text::block(dimensions, depth),
                    },
                },
            )
        }),
    decreases dimensions.len() - depth, 0nat, dimensions[depth as int].len - k,
{
    let items = items_of(words);
    let inner = array_text::block(dimensions, depth + 1);
    let lists = lists_under(dimensions, depth + 1);
    let count = dimensions[depth as int].len as nat;
    let last = depth + 1 >= dimensions.len();
    let there = start + k * inner;
    let here = Cursor {
        offset: first.offset + item_place(dimensions, depth, items, start, k),
        lists: first.lists + k * lists,
        elements: first.elements + k * inner,
    };
    let item = array_text::item_text(dimensions, depth + 1, items, there);
    let so_far = words.subrange(start as int, (start + k * inner) as int);
    lemma_later_item(dimensions, depth, words, start, k);
    lemma_item_in_list(s, first.offset, dimensions, depth, items, start, k);
    lemma_item_text_start(dimensions, depth + 1, words, there);
    lemma_holds_char(s, here.offset, item, 0);
    lemma_no_space(s, here.offset);
    lemma_no_space(s, here.offset + item.len());
    let taken = words.subrange(there as int, (there + inner) as int);
    assert(so_far + taken =~= words.subrange(start as int, (start + (k + 1) * inner) as int));
    if last {
        assert(inner == 1 && lists == 0);
        assert(items[there as int] == item_of(words[there as int]));
        lemma_element(s, here, words[there as int]);
        assert(so_far.push(words[there as int]) =~= so_far + taken);
        assert(lengths_from(dimensions, depth) =~= seq![count]);
        assert(k * lists == 0 && (k + 1) * lists == 0) by (nonlinear_arith)
            requires
                lists == 0,
        ;
    } else {
        lemma_list(s, here, dimensions, depth + 1, words, there);
        assert(lengths_from(dimensions, depth) =~= seq![count] + lengths_from(
            dimensions,
            depth + 1,
        ));
    }
    if k + 1 < count {
        lemma_items(s, first, dimensions, depth, words, start, k + 1);
    } else {
        assert((k + 1) * inner == array_text::block(dimensions, depth));
        assert(1 + (k + 1) * lists == lists_under(dimensions, depth));
    }
}

/// The subscript ranges of the dimensions.
spec fn ranges_of(dimensions: Seq<ArrayDimension>) -> Seq<(i32, i32)> {
    Seq::new(
        dimensions.len(),
        |i: int|
            (
                dimensions[i].lower_bound,
                (dimensions[i].lower_bound + dimensions[i].len - 1) as i32,
            ),
    )
}

proof fn lemma_digits(s: Seq<char>, i: nat, digits: Seq<char>)
    requires
        holds(s, i, digits),
        text::all_digits(digits),
        i + digits.len() < s.len(),
        !text::digit_like(s[(i + digits.len()) as int]),
    ensures
        array_text::after_digits(s, i) == i + digits.len(),
    decreases digits.len(),
{
    if digits.len() > 0 {
        lemma_holds_char(s, i, digits, 0);
        assert(digits =~= seq![digits[0]] + digits.drop_first());
        lemma_holds_split(s, i, seq![digits[0]], digits.drop_first());
        assert(text::digit_like(digits[0]));
        assert forall|j: int| 0 <= j < digits.drop_first().len() implies text::digit_like(
            #[trigger] digits.drop_first()[j],
        ) by {
            assert(digits.drop_first()[j] == digits[j + 1]);
        }
        lemma_digits(s, i + 1, digits.drop_first());
    }
}

proof fn lemma_bound(s: Seq<char>, i: nat, n: int)
    requires
        i32::MIN <= n <= i32::MAX,
        holds(s, i, text::signed_decimal_text(n)),
        i + text::signed_decimal_text(n).len() < s.len(),
        !text::digit_like(s[(i + text::signed_decimal_text(n).len()) as int]),
    ensures
        array_text::after_space(s, i) == i,
        array_text::bound_at(s, i) == Ok::<(i32, nat), ErrorView>(
            (n as i32, i + text::signed_decimal_text(n).len()),
        ),
{
    let written = text::signed_decimal_text(n);
    text::signed_decimal_text_denotes(n);
    if n < 0 {
        let digits = text::decimal_text((-n) as nat);
        text::lemma_decimal_text_denotes((-n) as nat);
        lemma_holds_split(s, i, seq!['-'], digits);
        lemma_holds_char(s, i, seq!['-'], 0);
        lemma_digits(s, i + 1, digits);
    } else {
        let digits = text::decimal_text(n as nat);
        text::lemma_decimal_text_denotes(n as nat);
        assert(text::digit_like(digits[0]));
        lemma_holds_char(s, i, digits, 0);
        lemma_digits(s, i, digits);
    }
    assert(s.subrange(i as int, (i + written.len()) as int) == written);
}

/// One subscript range as text.
spec fn range_text(dimension: ArrayDimension) -> Seq<char> {
    seq!['['] + text::signed_decimal_text(dimension.lower_bound as int) + seq![':']
        + text::signed_decimal_text(dimension.lower_bound + dimension.len - 1) + seq![']']
}

proof fn lemma_range(s: Seq<char>, i: nat, dimension: ArrayDimension)
    requires
        array::dimension_fits(dimension),
        holds(s, i, range_text(dimension)),
    ensures
        array_text::at(s, i, '['),
        array_text::range_at(s, i + 1) == Ok::<((i32, i32), nat), ErrorView>(
            (
                (
                    dimension.lower_bound,
                    (dimension.lower_bound + dimension.len - 1) as i32,
                ),
                i + range_text(dimension).len(),
            ),
        ),
{
    let lower = text::signed_decimal_text(dimension.lower_bound as int);
    let upper = text::signed_decimal_text(dimension.lower_bound + dimension.len - 1);
    assert(range_text(dimension) =~= seq!['['] + (lower + (seq![':'] + (upper + seq![']']))));
    lemma_holds_split(s, i, seq!['['], lower + (seq![':'] + (upper + seq![']'])));
    lemma_holds_char(s, i, seq!['['], 0);
    lemma_holds_split(s, i + 1, lower, seq![':'] + (upper + seq![']']));
    let colon = i + 1 + lower.len();
    lemma_holds_split(s, colon, seq![':'], upper + seq![']']);
    lemma_holds_char(s, colon, seq![':'], 0);
    lemma_holds_split(s, colon + 1, upper, seq![']']);
    let bracket = colon + 1 + upper.len();
    lemma_holds_char(s, bracket, seq![']'], 0);
    lemma_bound(s, i + 1, dimension.lower_bound as int);
    lemma_bound(s, colon + 1, dimension.lower_bound + dimension.len - 1);
    lemma_no_space(s, colon);
    lemma_no_space(s, bracket);
}

proof fn lemma_ranges_prefix(dimensions: Seq<ArrayDimension>, k: nat, count: nat)
    requires
        k < count <= dimensions.len(),
    ensures
        ({
            let some = array_text::ranges_text(dimensions, k);
            let all = array_text::ranges_text(dimensions, count);
            let range = range_text(dimensions[k as int]);
            &&& array_text::ranges_text(dimensions, k + 1) == some + range
            &&& some.len() + range.len() <= all.len()
            &&& all.subrange(some.len() as int, (some.len() + range.len()) as int) == range
        }),
    decreases count,
{
    let some = array_text::ranges_text(dimensions, k);
    let all = array_text::ranges_text(dimensions, count);
    let range = range_text(dimensions[k as int]);
    assert(array_text::ranges_text(dimensions, k + 1) =~= some + range);
    if k + 1 == count {
        assert(all.subrange(some.len() as int, (some.len() + range.len()) as int) =~= range);
    } else {
        lemma_ranges_prefix(dimensions, k, (count - 1) as nat);
        let before = array_text::ranges_text(dimensions, (count - 1) as nat);
        assert(all =~= before + range_text(dimensions[count - 1]));
        assert(all.subrange(some.len() as int, (some.len() + range.len()) as int)
            =~= before.subrange(some.len() as int, (some.len() + range.len()) as int));
    }
}

proof fn lemma_bounds(s: Seq<char>, dimensions: Seq<ArrayDimension>, k: nat)
    requires
        0 < dimensions.len() <= MAX_ARRAY_DIMENSIONS,
        k <= dimensions.len(),
        forall|i: int| 0 <= i < dimensions.len() ==> array::dimension_fits(
            #[trigger] dimensions[i],
        ),
        holds(
            s,
            0,
            array_text::ranges_text(dimensions, dimensions.len()) + seq!['='] + seq!['{'],
        ),
    ensures
        array_text::bounds_at(
            s,
            array_text::ranges_text(dimensions, k).len(),
            ranges_of(dimensions).take(k as int),
        ) == Ok::<(Seq<(i32, i32)>, nat), ErrorView>(
            (
                ranges_of(dimensions),
                array_text::ranges_text(dimensions, dimensions.len()).len() + 1,
            ),
        ),
    decreases dimensions.len() - k,
{
    let all = array_text::ranges_text(dimensions, dimensions.len());
    let ranges = ranges_of(dimensions);
    lemma_holds_split(s, 0, all + seq!['='], seq!['{']);
    lemma_holds_split(s, 0, all, seq!['=']);
    lemma_holds_char(s, all.len(), seq!['='], 0);
    lemma_holds_char(s, all.len() + 1, seq!['{'], 0);
    if k < dimensions.len() {
        let some = array_text::ranges_text(dimensions, k);
        let dimension = dimensions[k as int];
        let range = range_text(dimension);
        lemma_ranges_prefix(dimensions, k, dimensions.len());
        assert(holds(s, some.len(), range)) by {
            assert(s.subrange(some.len() as int, (some.len() + range.len()) as int) =~= range) by {
                assert forall|j: int| 0 <= j < range.len() implies s[some.len() + j] == range[j] by {
                    lemma_holds_char(s, 0, all, some.len() + j);
                    assert(all.subrange(
                        some.len() as int,
                        (some.len() + range.len()) as int,
                    )[j] == range[j]);
                }
            }
        }
        lemma_range(s, some.len(), dimension);
        assert(ranges.take(k as int).push(ranges[k as int]) =~= ranges.take(k as int + 1));
        lemma_bounds(s, dimensions, k + 1);
    } else {
        assert(ranges.take(k as int) =~= ranges);
        lemma_no_space(s, all.len());
        lemma_no_space(s, all.len() + 1);
    }
}

proof fn lemma_span_positive(dimensions: Seq<ArrayDimension>, count: nat)
    requires
        count <= dimensions.len(),
        array::span(dimensions, count) > 0,
    ensures
        forall|i: int| 0 <= i < count ==> (#[trigger] dimensions[i]).len > 0,
    decreases count,
{
    if count > 0 {
        let width = array::span(dimensions, (count - 1) as nat);
        let len = dimensions[count - 1].len as nat;
        assert(width > 0 && len > 0) by (nonlinear_arith)
            requires
                width * len > 0,
        ;
        lemma_span_positive(dimensions, (count - 1) as nat);
    }
}

/// The text of an array without elements.
proof fn lemma_no_elements()
    ensures
        array_text::array_of_text("{}"@) == Ok::<
            (Seq<ArrayDimension>, Seq<Option<Seq<char>>>),
            ErrorView,
        >((Seq::empty(), Seq::empty())),
{
    let s = "{}"@;
    reveal_strlit("{}");
    lemma_no_space(s, 0);
    lemma_no_space(s, 1);
    lemma_no_space(s, 2);
}

/// The lengths of the lists and the written bounds give the dimensions.
proof fn lemma_dimensions(dimensions: Seq<ArrayDimension>)
    ensures
        array_text::dimensions_of(
            lengths_from(dimensions, 0),
            if array_text::has_bounds(dimensions) {
                ranges_of(dimensions)
            } else {
                Seq::empty()
            },
        ) == dimensions,
{
    let bounded = array_text::has_bounds(dimensions);
    let ranges = if bounded {
        ranges_of(dimensions)
    } else {
        Seq::empty()
    };
    let back = array_text::dimensions_of(lengths_from(dimensions, 0), ranges);
    assert(lengths_from(dimensions, 0).len() == dimensions.len());
    assert forall|i: int| 0 <= i < dimensions.len() implies back[i] == dimensions[i] by {
        assert(lengths_from(dimensions, 0)[i] == dimensions[i].len);
        if !bounded {
            assert(dimensions[i].lower_bound == 1);
        }
    }
    assert(back =~= dimensions);
}

/// The text of an array is read back as its dimensions and the texts of its elements.
#[verifier::spinoff_prover]
#[verifier::rlimit(40)]
pub proof fn array_structure_reads_back(
    dimensions: Seq<ArrayDimension>,
    words: Seq<Option<Seq<char>>>,
)
    requires
        dimensions.len() <= MAX_ARRAY_DIMENSIONS,
        words.len() <= MAX_ARRAY_ELEMENTS,
        words.len() == 0 <==> dimensions.len() == 0,
        words.len() > 0 ==> words.len() == array::span(dimensions, dimensions.len()),
        forall|i: int| 0 <= i < dimensions.len() ==> array::dimension_fits(
            #[trigger] dimensions[i],
        ),
    ensures
        array_text::array_of_text(array_text::structure_text(dimensions, items_of(words))) == Ok::<
            (Seq<ArrayDimension>, Seq<Option<Seq<char>>>),
            ErrorView,
        >((dimensions, words)),
{
    let items = items_of(words);
    let s = array_text::structure_text(dimensions, items);
    if words.len() == 0 {
        lemma_no_elements();
        assert(dimensions =~= Seq::empty());
        assert(words =~= Seq::empty());
    } else {
        lemma_span_positive(dimensions, dimensions.len());
        array_text::lemma_block_is_span(dimensions, 0);
        assert(array::span(dimensions, 0) == 1);
        assert(array_text::block(dimensions, 0) == words.len()) by (nonlinear_arith)
            requires
                1 * array_text::block(dimensions, 0) == words.len(),
        ;
        lemma_lists_bound(dimensions, 0);
        assert(lists_under(dimensions, 0) <= 6 * words.len()) by (nonlinear_arith)
            requires
                lists_under(dimensions, 0) <= (dimensions.len() - 0) * words.len(),
                dimensions.len() <= 6,
        ;
        assert(fits(dimensions, 0, words, 0));
        lemma_item_text_start(dimensions, 0, words, 0);
        let contents = array_text::item_text(dimensions, 0, items, 0);
        let bounded = array_text::has_bounds(dimensions);
        let ranges = if bounded {
            ranges_of(dimensions)
        } else {
            Seq::empty()
        };
        let start: nat = if bounded {
            array_text::ranges_text(dimensions, dimensions.len()).len() + 1
        } else {
            0
        };
        assert(holds(s, start, contents)) by {
            assert(s.subrange(start as int, s.len() as int) =~= contents);
        }
        lemma_holds_char(s, start, contents, 0);
        if bounded {
            let all = array_text::ranges_text(dimensions, dimensions.len());
            assert(s.subrange(0, (all.len() + 2) as int) =~= all + seq!['='] + seq!['{']);
            lemma_ranges_prefix(dimensions, 0, dimensions.len());
            lemma_holds_split(s, 0, all + seq!['='], seq!['{']);
            lemma_holds_split(s, 0, all, seq!['=']);
            lemma_holds_char(s, 0, all, 0);
            let range = range_text(dimensions[0]);
            assert(all.subrange(0, range.len() as int)[0] == range[0]);
            lemma_no_space(s, 0);
            lemma_bounds(s, dimensions, 0);
            assert(ranges_of(dimensions).take(0) =~= Seq::empty());
        } else {
            lemma_no_space(s, 0);
        }
        let here = Cursor { offset: start, lists: 0, elements: 0 };
        lemma_list(s, here, dimensions, 0, words, 0);
        lemma_no_space(s, s.len());
        assert(words.subrange(0, words.len() as int) =~= words);
        lemma_dimensions(dimensions);
    }
}

/// The texts of the elements of an array; NULL has none.
pub open spec fn words_of<E>(array: ArrayView, texts: ValueTexts<E>) -> Seq<Option<Seq<char>>> {
    Seq::new(
        array.elements.len(),
        |i: int|
            if array.elements[i] is Null {
                None
            } else {
                Some(texts(array.elements[i])->Ok_0)
            },
    )
}

proof fn lemma_rendered<E>(array: ArrayView, texts: ValueTexts<E>, start: nat)
    requires
        start <= array.elements.len(),
        array_text::rendered(
            array.elements,
            start,
            texts,
            items_of(words_of(array, texts)).take(start as int),
        ) is Ok,
    ensures
        array_text::rendered(
            array.elements,
            start,
            texts,
            items_of(words_of(array, texts)).take(start as int),
        ) == Ok::<Seq<Seq<char>>, E>(items_of(words_of(array, texts))),
    decreases array.elements.len() - start,
{
    let items = items_of(words_of(array, texts));
    if start < array.elements.len() {
        assert(items.take(start as int).push(items[start as int]) =~= items.take(start as int + 1));
        lemma_rendered(array, texts, start + 1);
    } else {
        assert(items.take(start as int) =~= items);
    }
}

/// Where the text of an array can be made, it is read back as the dimensions of the
/// array and the texts of its elements.
pub proof fn array_text_reads_back<E>(array: ArrayView, texts: ValueTexts<E>)
    requires
        array.well_formed(),
        array_text::text_of_array(array, texts) is Ok,
    ensures
        array_text::array_of_text(array_text::text_of_array(array, texts)->Ok_0) == Ok::<
            (Seq<ArrayDimension>, Seq<Option<Seq<char>>>),
            ErrorView,
        >((array.dimensions, words_of(array, texts))),
{
    let words = words_of(array, texts);
    assert(items_of(words).take(0) =~= Seq::empty());
    lemma_rendered(array, texts, 0);
    array_structure_reads_back(array.dimensions, words);
}

} // verus!
