//! PostgreSQL array text: `{1,NULL,"a b"}`, nested lists, and explicit bounds.

use vstd::prelude::*;

use crate::array::{self, ArrayDimension, ArrayView, SqlArray, MAX_ARRAY_DIMENSIONS, MAX_ARRAY_ELEMENTS};
use crate::error::{DbError, ErrorView, Result, SqlState};
use crate::text;
use crate::value::{Value, ValueView};

pub mod readback;
pub mod spelling;

verus! {

/// The most lists, nested ones included, that one array text may hold.
pub const MAX_ARRAY_TEXT_LISTS: usize = 6_000_001;

/// What a parser makes of its input, or why it cannot.
pub type Parsed<T> = core::result::Result<T, ErrorView>;

/// The given character stands at a position.
pub open spec fn at(s: Seq<char>, i: nat, c: char) -> bool {
    i < s.len() && s[i as int] == c
}

/// The first position from `i` on that is not ASCII white space.
pub open spec fn after_space(s: Seq<char>, i: nat) -> nat
    decreases s.len() - i,
{
    if i < s.len() && text::ascii_space(s[i as int]) {
        after_space(s, i + 1)
    } else {
        i
    }
}

/// The first position from `i` on that is not a digit.
pub open spec fn after_digits(s: Seq<char>, i: nat) -> nat
    decreases s.len() - i,
{
    if i < s.len() && text::digit_like(s[i as int]) {
        after_digits(s, i + 1)
    } else {
        i
    }
}

/// The end of a number with an optional sign.
pub open spec fn after_number(s: Seq<char>, i: nat) -> nat {
    if at(s, i, '+') || at(s, i, '-') {
        after_digits(s, i + 1)
    } else {
        after_digits(s, i)
    }
}

/// Skipping white space stays within the text.
pub proof fn lemma_after_space(s: Seq<char>, i: nat)
    requires
        i <= s.len(),
    ensures
        i <= after_space(s, i) <= s.len(),
    decreases s.len() - i,
{
    if i < s.len() && text::ascii_space(s[i as int]) {
        lemma_after_space(s, i + 1);
    }
}

proof fn lemma_after_digits(s: Seq<char>, i: nat)
    requires
        i <= s.len(),
    ensures
        i <= after_digits(s, i) <= s.len(),
    decreases s.len() - i,
{
    if i < s.len() && text::digit_like(s[i as int]) {
        lemma_after_digits(s, i + 1);
    }
}

/// One end of a subscript range, and the position behind it.
pub open spec fn bound_at(s: Seq<char>, i: nat) -> Parsed<(i32, nat)> {
    let end = after_number(s, i);
    match text::integer_of(s.subrange(i as int, end as int)) {
        Some(n) if i32::MIN <= n <= i32::MAX => Ok((n as i32, end)),
        _ => Err(array::array_error("invalid array bound"@)),
    }
}

/// A range of subscripts behind its opening bracket, and the position behind its
/// closing one.
pub open spec fn range_at(s: Seq<char>, i: nat) -> Parsed<((i32, i32), nat)> {
    match bound_at(s, after_space(s, i)) {
        Err(error) => Err(error),
        Ok((lower, end)) => {
            let colon = after_space(s, end);
            if !at(s, colon, ':') {
                Err(array::array_error("invalid array bounds"@))
            } else {
                match bound_at(s, after_space(s, colon + 1)) {
                    Err(error) => Err(error),
                    Ok((upper, end)) => {
                        let bracket = after_space(s, end);
                        if !at(s, bracket, ']') {
                            Err(array::array_error("invalid array bounds"@))
                        } else {
                            Ok(((lower, upper), bracket + 1))
                        }
                    },
                }
            }
        },
    }
}

/// The subscript ranges before the contents, if there are any, and the position of
/// the contents.
pub open spec fn bounds_at(s: Seq<char>, i: nat, before: Seq<(i32, i32)>) -> Parsed<
    (Seq<(i32, i32)>, nat),
>
    decreases MAX_ARRAY_DIMENSIONS - before.len(),
{
    if at(s, i, '[') {
        if before.len() >= MAX_ARRAY_DIMENSIONS {
            Err(array::array_error("array text has too many dimensions"@))
        } else {
            match range_at(s, i + 1) {
                Err(error) => Err(error),
                Ok((range, next)) => bounds_at(s, next, before.push(range)),
            }
        }
    } else if before.len() == 0 {
        Ok((before, i))
    } else {
        let sign = after_space(s, i);
        if !at(s, sign, '=') {
            Err(array::array_error("array bounds must be followed by '='"@))
        } else {
            Ok((before, after_space(s, sign + 1)))
        }
    }
}

/// The characters of an element up to its end, each with a mark whether it was
/// escaped, and the position behind the element.
pub open spec fn scan(s: Seq<char>, i: nat, quoted: bool, before: Seq<(char, bool)>) -> Parsed<
    (Seq<(char, bool)>, nat),
>
    decreases s.len() - i,
{
    if i >= s.len() {
        Err(array::array_error("unterminated array element"@))
    } else {
        let c = s[i as int];
        if c == '\\' {
            if i + 1 >= s.len() {
                Err(array::array_error("unterminated array escape"@))
            } else {
                scan(s, i + 2, quoted, before.push((s[i as int + 1], true)))
            }
        } else if quoted && c == '"' {
            Ok((before, i + 1))
        } else if !quoted && (c == ',' || c == '}') {
            Ok((before, i))
        } else if !quoted && (c == '"' || c == '{') {
            Err(array::array_error("array element contains an unescaped special character"@))
        } else {
            scan(s, i + 1, quoted, before.push((c, false)))
        }
    }
}

/// White space that was not escaped.
pub open spec fn plain_space(marked: (char, bool)) -> bool {
    !marked.1 && text::ascii_space(marked.0)
}

/// The characters without plain white space at the start.
pub open spec fn without_leading(marked: Seq<(char, bool)>) -> Seq<(char, bool)>
    decreases marked.len(),
{
    if marked.len() > 0 && plain_space(marked[0]) {
        without_leading(marked.drop_first())
    } else {
        marked
    }
}

/// The characters without plain white space at the end.
pub open spec fn without_trailing(marked: Seq<(char, bool)>) -> Seq<(char, bool)>
    decreases marked.len(),
{
    if marked.len() > 0 && plain_space(marked.last()) {
        without_trailing(marked.drop_last())
    } else {
        marked
    }
}

/// The characters without their marks.
pub open spec fn unmarked(marked: Seq<(char, bool)>) -> Seq<char> {
    Seq::new(marked.len(), |i: int| marked[i].0)
}

/// The word for a NULL element, in any case.
pub open spec fn is_null_word(word: Seq<char>) -> bool {
    text::ascii_lowered(word) == "null"@
}

/// Where a parser stands and what it has counted.
pub ghost struct Cursor {
    pub offset: nat,
    pub lists: nat,
    pub elements: nat,
}

/// One element (`None` for NULL) and where the parser stands behind it.
pub open spec fn element_at(s: Seq<char>, here: Cursor) -> Parsed<(Option<Seq<char>>, Cursor)> {
    let quoted = at(s, here.offset, '"');
    let start = if quoted {
        here.offset + 1
    } else {
        here.offset
    };
    if here.elements + 1 > MAX_ARRAY_ELEMENTS {
        Err(array::array_error("array text has too many elements"@))
    } else {
        match scan(s, start, quoted, Seq::empty()) {
            Err(error) => Err(error),
            Ok((marked, next)) => {
                let there = Cursor { offset: next, elements: here.elements + 1, ..here };
                if quoted {
                    Ok((Some(unmarked(marked)), there))
                } else {
                    let word = unmarked(without_trailing(without_leading(marked)));
                    if word.len() == 0 {
                        Err(array::array_error("array element must not be empty"@))
                    } else if is_null_word(word) {
                        Ok((None, there))
                    } else {
                        Ok((Some(word), there))
                    }
                }
            },
        }
    }
}

/// What a list holds: the lengths of its dimensions, outermost first, and its
/// elements.
pub ghost struct Listed {
    pub lengths: Seq<nat>,
    pub elements: Seq<Option<Seq<char>>>,
    pub behind: Cursor,
}

/// The items of a list up to its closing brace. `nested` holds the lengths of the
/// lists before, and `scalar` tells whether there was an element before.
pub open spec fn items_at(
    s: Seq<char>,
    here: Cursor,
    depth: nat,
    count: nat,
    nested: Option<Seq<nat>>,
    scalar: bool,
    elements: Seq<Option<Seq<char>>>,
) -> Parsed<Listed>
    decreases MAX_ARRAY_DIMENSIONS - depth, s.len() - here.offset,
{
    let start = after_space(s, here.offset);
    if at(s, start, '{') {
        if scalar {
            Err(array::array_error("array mixes nested and scalar elements"@))
        } else if depth >= MAX_ARRAY_DIMENSIONS {
            Err(array::array_error("array text has too many dimensions"@))
        } else {
            match list_at(s, Cursor { offset: start, ..here }, depth + 1) {
                Err(error) => Err(error),
                Ok(inner) => {
                    if nested is Some && nested->0 != inner.lengths {
                        Err(array::array_error("multidimensional array is not rectangular"@))
                    } else {
                        let stop = after_space(s, inner.behind.offset);
                        let there = Cursor { offset: stop + 1, ..inner.behind };
                        let all = elements + inner.elements;
                        if at(s, stop, ',') && here.offset <= stop {
                            items_at(
                                s,
                                there,
                                depth,
                                count + 1,
                                Some(inner.lengths),
                                scalar,
                                all,
                            )
                        } else if at(s, stop, '}') {
                            Ok(
                                Listed {
                                    lengths: seq![count + 1] + inner.lengths,
                                    elements: all,
                                    behind: there,
                                },
                            )
                        } else {
                            Err(array::array_error("invalid array text syntax"@))
                        }
                    }
                },
            }
        }
    } else if nested is Some {
        Err(array::array_error("array mixes nested and scalar elements"@))
    } else {
        match element_at(s, Cursor { offset: start, ..here }) {
            Err(error) => Err(error),
            Ok((element, behind)) => {
                let stop = after_space(s, behind.offset);
                let there = Cursor { offset: stop + 1, ..behind };
                let all = elements.push(element);
                if at(s, stop, ',') && here.offset <= stop {
                    items_at(s, there, depth, count + 1, None, true, all)
                } else if at(s, stop, '}') {
                    Ok(Listed { lengths: seq![count + 1], elements: all, behind: there })
                } else {
                    Err(array::array_error("invalid array text syntax"@))
                }
            },
        }
    }
}

/// A list, which is rectangular and, unless it is the outermost, not empty.
pub open spec fn list_at(s: Seq<char>, here: Cursor, depth: nat) -> Parsed<Listed>
    decreases MAX_ARRAY_DIMENSIONS - depth, s.len() + 1,
{
    let brace = after_space(s, here.offset);
    let inside = after_space(s, brace + 1);
    let counted = Cursor { offset: inside, lists: here.lists + 1, ..here };
    if here.lists + 1 > MAX_ARRAY_TEXT_LISTS {
        Err(array::array_error("array text has too many nested lists"@))
    } else if depth >= MAX_ARRAY_DIMENSIONS {
        Err(array::array_error("array text has too many dimensions"@))
    } else if !at(s, brace, '{') {
        Err(array::array_error("array text must start with '{'"@))
    } else if at(s, inside, '}') {
        if depth != 0 {
            Err(array::array_error("nested empty arrays are not supported"@))
        } else {
            Ok(
                Listed {
                    lengths: seq![0],
                    elements: Seq::empty(),
                    behind: Cursor { offset: inside + 1, ..counted },
                },
            )
        }
    } else {
        proof {
            lemma_after_space(s, brace + 1);
        }
        items_at(s, counted, depth, 0, None, false, Seq::empty())
    }
}

/// The subscript range of a dimension has as many subscripts as the dimension has
/// items.
pub open spec fn range_fits(range: (i32, i32), len: nat) -> bool {
    range.1 - range.0 + 1 == len
}

/// The dimensions of the given lengths; they start at subscript one unless bounds
/// are given.
pub open spec fn dimensions_of(lengths: Seq<nat>, bounds: Seq<(i32, i32)>) -> Seq<ArrayDimension> {
    Seq::new(
        lengths.len(),
        |i: int|
            ArrayDimension {
                len: lengths[i] as u32,
                lower_bound: if i < bounds.len() {
                    bounds[i].0
                } else {
                    1
                },
            },
    )
}

/// What is wrong with explicit bounds over the contents of an array.
pub open spec fn bounds_problem(listed: Listed, bounds: Seq<(i32, i32)>) -> Option<ErrorView> {
    let empty = listed.elements.len() == 0;
    if empty && listed.lengths != seq![0nat] {
        Some(array::array_error("empty array text must have one empty brace level"@))
    } else if empty && bounds.len() > 0 && !(bounds.len() == 1 && range_fits(bounds[0], 0)) {
        Some(array::array_error("array bounds do not match empty contents"@))
    } else if bounds.len() > 0 && bounds.len() != listed.lengths.len() {
        Some(array::array_error("array bounds do not match dimensionality"@))
    } else if !empty && exists|i: int|
        0 <= i < bounds.len() && !range_fits(#[trigger] bounds[i], listed.lengths[i]) {
        Some(array::array_error("array bounds do not match contents"@))
    } else {
        None
    }
}

/// The dimensions and the elements of an array text.
pub open spec fn array_of_text(s: Seq<char>) -> Parsed<
    (Seq<ArrayDimension>, Seq<Option<Seq<char>>>),
> {
    match bounds_at(s, after_space(s, 0), Seq::empty()) {
        Err(error) => Err(error),
        Ok((bounds, start)) => match list_at(
            s,
            Cursor { offset: start, lists: 0, elements: 0 },
            0,
        ) {
            Err(error) => Err(error),
            Ok(listed) => {
                if after_space(s, listed.behind.offset) != s.len() {
                    Err(array::array_error("array text has trailing input"@))
                } else if bounds_problem(listed, bounds) is Some {
                    Err(bounds_problem(listed, bounds)->0)
                } else if listed.elements.len() == 0 {
                    Ok((Seq::empty(), Seq::empty()))
                } else {
                    Ok((dimensions_of(listed.lengths, bounds), listed.elements))
                }
            },
        },
    }
}

/// A token as text.
pub open spec fn token_text(token: Option<String>) -> Option<Seq<char>> {
    match token {
        Some(token) => Some(token@),
        None => None,
    }
}

/// Tokens as texts.
pub open spec fn token_texts(tokens: Seq<Option<String>>) -> Seq<Option<Seq<char>>> {
    Seq::new(tokens.len(), |i: int| token_text(tokens[i]))
}

/// Lengths as numbers.
pub open spec fn naturals(lengths: Seq<usize>) -> Seq<nat> {
    Seq::new(lengths.len(), |i: int| lengths[i] as nat)
}

/// A parser over array text: where it stands and what it has counted.
pub struct ArrayTextParser<'a> {
    pub chars: &'a [char],
    pub offset: usize,
    pub lists: usize,
    pub elements: usize,
}

fn invalid_array(message: &str) -> (error: DbError)
    ensures
        error@ == array::array_error(message@),
{
    DbError::execute(SqlState::InvalidParameterValue, message)
}

impl<'a> ArrayTextParser<'a> {
    /// Where the parser stands and what it has counted.
    pub open spec fn cursor(self) -> Cursor {
        Cursor {
            offset: self.offset as nat,
            lists: self.lists as nat,
            elements: self.elements as nat,
        }
    }

    /// The parser stands in its input and is within its limits.
    pub open spec fn in_limits(self) -> bool {
        &&& self.offset <= self.chars@.len()
        &&& self.lists <= MAX_ARRAY_TEXT_LISTS
        &&& self.elements <= MAX_ARRAY_ELEMENTS
    }

    fn looking_at(&self, c: char) -> (looking: bool)
        ensures
            looking == at(self.chars@, self.offset as nat, c),
            looking ==> self.offset < usize::MAX,
    {
        self.offset < self.chars.len() && self.chars[self.offset] == c
    }

    /// Skips ASCII white space.
    pub fn whitespace(&mut self)
        requires
            old(self).in_limits(),
        ensures
            final(self).in_limits(),
            final(self).chars == old(self).chars,
            final(self).cursor() == (Cursor {
                offset: after_space(old(self).chars@, old(self).offset as nat),
                ..old(self).cursor()
            }),
    {
        while self.offset < self.chars.len() && text::is_ascii_space(self.chars[self.offset])
            invariant
                self.in_limits(),
                self.chars == old(self).chars,
                self.lists == old(self).lists,
                self.elements == old(self).elements,
                after_space(self.chars@, self.offset as nat) == after_space(
                    old(self).chars@,
                    old(self).offset as nat,
                ),
            decreases self.chars@.len() - self.offset,
        {
            self.offset = self.offset + 1;
        }
    }

    /// Reads one end of a subscript range.
    pub fn integer(&mut self) -> (result: Result<i32>)
        requires
            old(self).in_limits(),
        ensures
            final(self).in_limits(),
            final(self).chars == old(self).chars,
            final(self).lists == old(self).lists,
            final(self).elements == old(self).elements,
            match result {
                Ok(n) => bound_at(old(self).chars@, old(self).offset as nat) == Ok::<
                    (i32, nat),
                    ErrorView,
                >((n, final(self).offset as nat)),
                Err(error) => bound_at(old(self).chars@, old(self).offset as nat) == Err::<
                    (i32, nat),
                    ErrorView,
                >(error@),
            },
    {
        let start: usize = self.offset;
        if self.looking_at('+') || self.looking_at('-') {
            self.offset = self.offset + 1;
        }
        let ghost digits = self.offset as nat;
        while self.offset < self.chars.len() && '0' <= self.chars[self.offset]
            && self.chars[self.offset] <= '9'
            invariant
                self.in_limits(),
                self.chars == old(self).chars,
                self.lists == old(self).lists,
                self.elements == old(self).elements,
                start <= self.offset,
                after_digits(self.chars@, self.offset as nat) == after_digits(self.chars@, digits),
            decreases self.chars@.len() - self.offset,
        {
            self.offset = self.offset + 1;
        }
        assert(self.offset == after_number(old(self).chars@, start as nat));
        match text::parse_signed(self.chars, start, self.offset) {
            Some(n) => {
                if -0x8000_0000 <= n && n <= 0x7fff_ffff {
                    Ok(n as i32)
                } else {
                    Err(invalid_array("invalid array bound"))
                }
            },
            None => Err(invalid_array("invalid array bound")),
        }
    }

    fn range(&mut self) -> (result: Result<(i32, i32)>)
        requires
            old(self).in_limits(),
        ensures
            final(self).in_limits(),
            final(self).chars == old(self).chars,
            final(self).lists == old(self).lists,
            final(self).elements == old(self).elements,
            match result {
                Ok(range) => range_at(old(self).chars@, old(self).offset as nat) == Ok::<
                    ((i32, i32), nat),
                    ErrorView,
                >((range, final(self).offset as nat)),
                Err(error) => range_at(old(self).chars@, old(self).offset as nat) == Err::<
                    ((i32, i32), nat),
                    ErrorView,
                >(error@),
            },
    {
        self.whitespace();
        let lower: i32 = match self.integer() {
            Ok(lower) => lower,
            Err(error) => return Err(error),
        };
        self.whitespace();
        if !self.looking_at(':') {
            return Err(invalid_array("invalid array bounds"));
        }
        self.offset = self.offset + 1;
        self.whitespace();
        let upper: i32 = match self.integer() {
            Ok(upper) => upper,
            Err(error) => return Err(error),
        };
        self.whitespace();
        if !self.looking_at(']') {
            return Err(invalid_array("invalid array bounds"));
        }
        self.offset = self.offset + 1;
        Ok((lower, upper))
    }

    /// Reads the subscript ranges before the contents.
    pub fn bounds(&mut self) -> (result: Result<Vec<(i32, i32)>>)
        requires
            old(self).in_limits(),
        ensures
            final(self).in_limits(),
            final(self).chars == old(self).chars,
            final(self).lists == old(self).lists,
            final(self).elements == old(self).elements,
            match result {
                Ok(bounds) => bounds_at(
                    old(self).chars@,
                    old(self).offset as nat,
                    Seq::empty(),
                ) == Ok::<(Seq<(i32, i32)>, nat), ErrorView>((bounds@, final(self).offset as nat)),
                Err(error) => bounds_at(
                    old(self).chars@,
                    old(self).offset as nat,
                    Seq::empty(),
                ) == Err::<(Seq<(i32, i32)>, nat), ErrorView>(error@),
            },
    {
        let mut bounds: Vec<(i32, i32)> = Vec::new();
        let ghost whole = bounds_at(self.chars@, self.offset as nat, Seq::empty());
        assert(bounds@ == Seq::<(i32, i32)>::empty());
        while self.looking_at('[')
            invariant
                self.in_limits(),
                self.chars == old(self).chars,
                self.lists == old(self).lists,
                self.elements == old(self).elements,
                bounds@.len() <= MAX_ARRAY_DIMENSIONS,
                whole == bounds_at(old(self).chars@, old(self).offset as nat, Seq::empty()),
                whole == bounds_at(self.chars@, self.offset as nat, bounds@),
            decreases MAX_ARRAY_DIMENSIONS - bounds@.len(),
        {
            if bounds.len() >= MAX_ARRAY_DIMENSIONS {
                return Err(invalid_array("array text has too many dimensions"));
            }
            self.offset = self.offset + 1;
            match self.range() {
                Ok(range) => {
                    bounds.push(range);
                },
                Err(error) => return Err(error),
            }
        }
        if bounds.len() > 0 {
            self.whitespace();
            if !self.looking_at('=') {
                return Err(invalid_array("array bounds must be followed by '='"));
            }
            self.offset = self.offset + 1;
            self.whitespace();
        }
        Ok(bounds)
    }

    fn scan(&mut self, quoted: bool) -> (result: Result<Vec<(char, bool)>>)
        requires
            old(self).in_limits(),
        ensures
            final(self).in_limits(),
            final(self).chars == old(self).chars,
            final(self).lists == old(self).lists,
            final(self).elements == old(self).elements,
            final(self).offset >= old(self).offset,
            match result {
                Ok(marked) => scan(
                    old(self).chars@,
                    old(self).offset as nat,
                    quoted,
                    Seq::empty(),
                ) == Ok::<(Seq<(char, bool)>, nat), ErrorView>(
                    (marked@, final(self).offset as nat),
                ),
                Err(error) => scan(
                    old(self).chars@,
                    old(self).offset as nat,
                    quoted,
                    Seq::empty(),
                ) == Err::<(Seq<(char, bool)>, nat), ErrorView>(error@),
            },
    {
        let mut marked: Vec<(char, bool)> = Vec::new();
        let ghost whole = scan(self.chars@, self.offset as nat, quoted, Seq::empty());
        assert(marked@ == Seq::<(char, bool)>::empty());
        while self.offset < self.chars.len()
            invariant
                self.in_limits(),
                self.chars == old(self).chars,
                self.lists == old(self).lists,
                self.elements == old(self).elements,
                self.offset >= old(self).offset,
                whole == scan(
                    old(self).chars@,
                    old(self).offset as nat,
                    quoted,
                    Seq::empty(),
                ),
                whole == scan(self.chars@, self.offset as nat, quoted, marked@),
            decreases self.chars@.len() - self.offset,
        {
            let c: char = self.chars[self.offset];
            if c == '\\' {
                self.offset = self.offset + 1;
                if self.offset >= self.chars.len() {
                    return Err(invalid_array("unterminated array escape"));
                }
                marked.push((self.chars[self.offset], true));
                self.offset = self.offset + 1;
            } else if quoted && c == '"' {
                self.offset = self.offset + 1;
                return Ok(marked);
            } else if !quoted && (c == ',' || c == '}') {
                return Ok(marked);
            } else if !quoted && (c == '"' || c == '{') {
                return Err(
                    invalid_array("array element contains an unescaped special character"),
                );
            } else {
                marked.push((c, false));
                self.offset = self.offset + 1;
            }
        }
        Err(invalid_array("unterminated array element"))
    }

    /// Reads one element; `None` is NULL.
    pub fn element(&mut self) -> (result: Result<Option<String>>)
        requires
            old(self).in_limits(),
        ensures
            final(self).chars == old(self).chars,
            match result {
                Ok(element) => final(self).in_limits() && final(self).offset >= old(self).offset
                    && element_at(old(self).chars@, old(self).cursor()) == Ok::<
                    (Option<Seq<char>>, Cursor),
                    ErrorView,
                >((token_text(element), final(self).cursor())),
                Err(error) => element_at(old(self).chars@, old(self).cursor()) == Err::<
                    (Option<Seq<char>>, Cursor),
                    ErrorView,
                >(error@),
            },
    {
        self.elements = self.elements + 1;
        if self.elements > MAX_ARRAY_ELEMENTS {
            return Err(invalid_array("array text has too many elements"));
        }
        let quoted: bool = self.looking_at('"');
        if quoted {
            self.offset = self.offset + 1;
        }
        let marked: Vec<(char, bool)> = match self.scan(quoted) {
            Ok(marked) => marked,
            Err(error) => return Err(error),
        };
        if quoted {
            assert(marked@ == marked@.subrange(0, marked@.len() as int));
            return Ok(Some(plain_text(&marked, 0, marked.len(), Ghost(marked@))));
        }
        let mut start: usize = 0;
        proof {
            assert(marked@.skip(0) == marked@);
        }
        while start < marked.len() && !marked[start].1 && text::is_ascii_space(marked[start].0)
            invariant
                start <= marked@.len(),
                without_leading(marked@.skip(start as int)) == without_leading(marked@),
            decreases marked@.len() - start,
        {
            proof {
                assert(marked@.skip(start as int).drop_first() == marked@.skip(start + 1));
            }
            start += 1;
        }
        let mut end: usize = marked.len();
        proof {
            assert(without_leading(marked@) == marked@.subrange(start as int, end as int));
        }
        while end > start && !marked[end - 1].1 && text::is_ascii_space(marked[end - 1].0)
            invariant
                start <= end <= marked@.len(),
                without_trailing(marked@.subrange(start as int, end as int)) == without_trailing(
                    without_leading(marked@),
                ),
            decreases end,
        {
            proof {
                assert(marked@.subrange(start as int, end as int).drop_last() == marked@.subrange(
                    start as int,
                    end - 1,
                ));
            }
            end -= 1;
        }
        proof {
            let inner = marked@.subrange(start as int, end as int);
            assert(inner.len() > 0 ==> inner.last() == marked@[end - 1]);
        }
        let word: String = plain_text(
            &marked,
            start,
            end,
            Ghost(without_trailing(without_leading(marked@))),
        );
        if start == end {
            return Err(invalid_array("array element must not be empty"));
        }
        if is_null_text(&word) {
            Ok(None)
        } else {
            Ok(Some(word))
        }
    }
}

fn plain_text(
    marked: &Vec<(char, bool)>,
    start: usize,
    end: usize,
    Ghost(part): Ghost<Seq<(char, bool)>>,
) -> (word: String)
    requires
        start <= end <= marked@.len(),
        part == marked@.subrange(start as int, end as int),
    ensures
        word@ == unmarked(part),
{
    let mut word: String = String::new();
    let mut i: usize = start;
    while i < end
        invariant
            start <= i <= end <= marked@.len(),
            part == marked@.subrange(start as int, end as int),
            word@ == unmarked(part).take(i - start),
        decreases end - i,
    {
        word.push(marked[i].0);
        i += 1;
        assert(word@ == unmarked(part).take(i - start));
    }
    assert(unmarked(part).take(i - start) == unmarked(part));
    word
}

fn is_null_text(word: &str) -> (null: bool)
    ensures
        null == is_null_word(word@),
{
    let chars: Vec<char> = text::chars_of(word);
    let lowered: Vec<char> = text::to_ascii_lowered(&chars);
    text::chars_equal(&lowered, "null")
}

/// The bound on the length of a dimension: every item is a list or an element.
pub open spec fn within_counts(lengths: Seq<nat>, cursor: Cursor) -> bool {
    forall|i: int|
        0 <= i < lengths.len() ==> #[trigger] lengths[i] <= cursor.lists + cursor.elements
}

impl<'a> ArrayTextParser<'a> {
    /// Reads a list and adds its elements to `tokens`.
    pub fn list(&mut self, depth: usize, tokens: &mut Vec<Option<String>>) -> (result: Result<
        Vec<usize>,
    >)
        requires
            old(self).in_limits(),
            depth <= MAX_ARRAY_DIMENSIONS,
        ensures
            final(self).chars == old(self).chars,
            match result {
                Ok(lengths) => {
                    &&& final(self).in_limits()
                    &&& final(self).offset > old(self).offset
                    &&& final(self).lists > old(self).lists
                    &&& final(self).elements >= old(self).elements
                    &&& within_counts(naturals(lengths@), final(self).cursor())
                    &&& list_at(old(self).chars@, old(self).cursor(), depth as nat) matches Ok(
                        listed,
                    )
                    &&& listed.lengths == naturals(lengths@)
                    &&& listed.behind == final(self).cursor()
                    &&& token_texts(final(tokens)@) == token_texts(old(tokens)@) + listed.elements
                },
                Err(error) => list_at(old(self).chars@, old(self).cursor(), depth as nat) == Err::<
                    Listed,
                    ErrorView,
                >(error@),
            },
        decreases MAX_ARRAY_DIMENSIONS - depth,
    {
        let ghost s = self.chars@;
        let ghost start = token_texts(tokens@);
        self.lists = self.lists + 1;
        if self.lists > MAX_ARRAY_TEXT_LISTS {
            return Err(invalid_array("array text has too many nested lists"));
        }
        if depth >= MAX_ARRAY_DIMENSIONS {
            return Err(invalid_array("array text has too many dimensions"));
        }
        proof {
            lemma_after_space(s, self.offset as nat);
        }
        self.whitespace();
        if !self.looking_at('{') {
            return Err(invalid_array("array text must start with '{'"));
        }
        self.offset = self.offset + 1;
        proof {
            lemma_after_space(s, self.offset as nat);
        }
        self.whitespace();
        if self.looking_at('}') {
            self.offset = self.offset + 1;
            if depth != 0 {
                return Err(invalid_array("nested empty arrays are not supported"));
            }
            let mut lengths: Vec<usize> = Vec::new();
            lengths.push(0);
            assert(naturals(lengths@) == seq![0nat]);
            assert(token_texts(tokens@) == start + Seq::<Option<Seq<char>>>::empty());
            return Ok(lengths);
        }
        let ghost whole = items_at(s, self.cursor(), depth as nat, 0, None, false, Seq::empty());
        let ghost mut added: Seq<Option<Seq<char>>> = Seq::empty();
        let mut count: usize = 0;
        let mut nested: Option<Vec<usize>> = None;
        let mut scalar: bool = false;
        assert(token_texts(tokens@) == start + added);
        loop
            invariant
                self.in_limits(),
                s == self.chars@,
                self.chars == old(self).chars,
                self.offset > old(self).offset,
                self.lists > old(self).lists,
                self.elements >= old(self).elements,
                depth < MAX_ARRAY_DIMENSIONS,
                start == token_texts(old(tokens)@),
                token_texts(tokens@) == start + added,
                count <= self.lists + self.elements,
                nested is Some ==> within_counts(naturals(nested->0@), self.cursor()),
                whole == list_at(s, old(self).cursor(), depth as nat),
                whole == items_at(
                    s,
                    self.cursor(),
                    depth as nat,
                    count as nat,
                    match nested {
                        Some(nested) => Some(naturals(nested@)),
                        None => None,
                    },
                    scalar,
                    added,
                ),
            decreases self.chars@.len() - self.offset,
        {
            let ghost here = self.cursor();
            proof {
                lemma_after_space(s, self.offset as nat);
            }
            self.whitespace();
            if self.looking_at('{') {
                if scalar {
                    return Err(invalid_array("array mixes nested and scalar elements"));
                }
                let lengths: Vec<usize> = match self.list(depth + 1, tokens) {
                    Ok(lengths) => lengths,
                    Err(error) => return Err(error),
                };
                if let Some(expected) = &nested {
                    if !same_lengths(expected, &lengths) {
                        return Err(invalid_array("multidimensional array is not rectangular"));
                    }
                }
                proof {
                    let inner = list_at(
                        s,
                        Cursor { offset: after_space(s, here.offset), ..here },
                        (depth + 1) as nat,
                    )->Ok_0;
                    assert(token_texts(tokens@) =~= start + (added + inner.elements));
                    added = added + inner.elements;
                }
                nested = Some(lengths);
            } else {
                if nested.is_some() {
                    return Err(invalid_array("array mixes nested and scalar elements"));
                }
                scalar = true;
                match self.element() {
                    Ok(element) => {
                        let ghost earlier = tokens@;
                        let ghost taken = token_text(element);
                        tokens.push(element);
                        proof {
                            assert(token_texts(tokens@) =~= token_texts(earlier).push(taken));
                            assert((start + added).push(taken) =~= start + added.push(taken));
                            added = added.push(taken);
                        }
                    },
                    Err(error) => return Err(error),
                }
            }
            count += 1;
            proof {
                lemma_after_space(s, self.offset as nat);
            }
            self.whitespace();
            if self.looking_at(',') {
                self.offset = self.offset + 1;
            } else if self.looking_at('}') {
                self.offset = self.offset + 1;
                let mut lengths: Vec<usize> = Vec::new();
                lengths.push(count);
                let ghost inner = if nested is Some {
                    naturals(nested->0@)
                } else {
                    Seq::empty()
                };
                if let Some(mut nested) = nested {
                    lengths.append(&mut nested);
                }
                assert(naturals(lengths@) =~= seq![count as nat] + inner);
                assert(seq![count as nat] + Seq::<nat>::empty() =~= seq![count as nat]);
                return Ok(lengths);
            } else {
                return Err(invalid_array("invalid array text syntax"));
            }
        }
    }
}

fn same_lengths(a: &Vec<usize>, b: &Vec<usize>) -> (same: bool)
    ensures
        same == (naturals(a@) == naturals(b@)),
{
    if a.len() != b.len() {
        assert(naturals(a@).len() != naturals(b@).len());
        return false;
    }
    let mut i: usize = 0;
    while i < a.len()
        invariant
            i <= a@.len(),
            a@.len() == b@.len(),
            forall|j: int| 0 <= j < i ==> #[trigger] a@[j] == b@[j],
        decreases a@.len() - i,
    {
        if a[i] != b[i] {
            assert(naturals(a@)[i as int] != naturals(b@)[i as int]);
            return false;
        }
        i += 1;
    }
    assert(naturals(a@) =~= naturals(b@));
    true
}

fn does_range_fit(range: (i32, i32), len: usize) -> (fits: bool)
    requires
        len <= 0x7fff_ffff,
    ensures
        fits == range_fits(range, len as nat),
{
    range.1 as i64 - range.0 as i64 + 1 == len as i64
}

/// Parse PostgreSQL array text into dimensions and scalar text tokens. Scalar
/// conversion is deliberately left to the caller so COPY and protocol paths can
/// apply their own SQLSTATE boundary without introducing crate cycles.
pub fn parse_array_text_structure(text: &str) -> (result: Result<
    (Vec<ArrayDimension>, Vec<Option<String>>),
>)
    ensures
        match result {
            Ok((dimensions, elements)) => array_of_text(text@) == Ok::<
                (Seq<ArrayDimension>, Seq<Option<Seq<char>>>),
                ErrorView,
            >((dimensions@, token_texts(elements@))),
            Err(error) => array_of_text(text@) == Err::<
                (Seq<ArrayDimension>, Seq<Option<Seq<char>>>),
                ErrorView,
            >(error@),
        },
{
    let chars: Vec<char> = crate::text::chars_of(text);
    let mut parser = ArrayTextParser { chars: &chars, offset: 0, lists: 0, elements: 0 };
    parser.whitespace();
    let bounds: Vec<(i32, i32)> = match parser.bounds() {
        Ok(bounds) => bounds,
        Err(error) => return Err(error),
    };
    let ghost start = parser.cursor();
    let mut tokens: Vec<Option<String>> = Vec::new();
    let lengths: Vec<usize> = match parser.list(0, &mut tokens) {
        Ok(lengths) => lengths,
        Err(error) => return Err(error),
    };
    let ghost listed = list_at(text@, start, 0)->Ok_0;
    assert(token_texts(tokens@) =~= listed.elements);
    parser.whitespace();
    if parser.offset != chars.len() {
        return Err(invalid_array("array text has trailing input"));
    }
    if tokens.len() == 0 {
        if lengths.len() != 1 || lengths[0] != 0 {
            proof {
                if naturals(lengths@) == seq![0nat] {
                    assert(naturals(lengths@)[0] == 0);
                }
            }
            return Err(invalid_array("empty array text must have one empty brace level"));
        }
        assert(naturals(lengths@) =~= seq![0nat]);
        if bounds.len() > 0 && (bounds.len() != 1 || !does_range_fit(bounds[0], 0)) {
            return Err(invalid_array("array bounds do not match empty contents"));
        }
        let dimensions: Vec<ArrayDimension> = Vec::new();
        assert(dimensions@ =~= Seq::<ArrayDimension>::empty());
        assert(token_texts(tokens@) =~= Seq::<Option<Seq<char>>>::empty());
        return Ok((dimensions, tokens));
    }
    if bounds.len() > 0 && bounds.len() != lengths.len() {
        return Err(invalid_array("array bounds do not match dimensionality"));
    }
    let mut dimensions: Vec<ArrayDimension> = Vec::new();
    let mut i: usize = 0;
    while i < lengths.len()
        invariant
            i <= lengths@.len(),
            tokens@.len() > 0,
            token_texts(tokens@) == listed.elements,
            listed.lengths == naturals(lengths@),
            parser.in_limits(),
            within_counts(naturals(lengths@), parser.cursor()),
            bounds@.len() == 0 || bounds@.len() == lengths@.len(),
            dimensions@ == dimensions_of(naturals(lengths@), bounds@).take(i as int),
            forall|j: int|
                0 <= j < i && j < bounds@.len() ==> range_fits(
                    #[trigger] bounds@[j],
                    lengths@[j] as nat,
                ),
            array_of_text(text@) == match bounds_problem(listed, bounds@) {
                Some(error) => Err(error),
                None => Ok((dimensions_of(listed.lengths, bounds@), listed.elements)),
            },
        decreases lengths@.len() - i,
    {
        let len: usize = lengths[i];
        assert(naturals(lengths@)[i as int] <= parser.lists + parser.elements);
        let mut lower: i32 = 1;
        if bounds.len() > 0 {
            lower = bounds[i].0;
            if !does_range_fit(bounds[i], len) {
                assert(!range_fits(bounds@[i as int], listed.lengths[i as int]));
                return Err(invalid_array("array bounds do not match contents"));
            }
        }
        dimensions.push(ArrayDimension::new(len as u32, lower));
        i += 1;
    }
    assert(dimensions@ == dimensions_of(naturals(lengths@), bounds@));
    Ok((dimensions, tokens))
}

/// A character that an element text cannot hold without quotes.
pub open spec fn special(c: char) -> bool {
    text::ascii_space(c) || c == '{' || c == '}' || c == ',' || c == '"' || c == '\\'
}

/// The text of an element stands in quotes: it is empty, it reads like NULL, or it
/// holds a special character.
pub open spec fn needs_quotes(word: Seq<char>) -> bool {
    ||| word.len() == 0
    ||| is_null_word(word)
    ||| exists|i: int| 0 <= i < word.len() && special(#[trigger] word[i])
}

/// A text with a backslash before every quote and backslash.
pub open spec fn escaped(word: Seq<char>) -> Seq<char>
    decreases word.len(),
{
    if word.len() == 0 {
        Seq::empty()
    } else if word.last() == '"' || word.last() == '\\' {
        escaped(word.drop_last()).push('\\').push(word.last())
    } else {
        escaped(word.drop_last()).push(word.last())
    }
}

/// An element as array text.
pub open spec fn element_text(word: Seq<char>) -> Seq<char> {
    if needs_quotes(word) {
        seq!['"'] + escaped(word) + seq!['"']
    } else {
        escaped(word)
    }
}

/// The texts that values have, or the error that they give.
pub type ValueTexts<E> = spec_fn(ValueView) -> core::result::Result<Seq<char>, E>;

/// A formatter gives the texts that `texts` describes, whatever it formatted before.
pub open spec fn formats_as<E, F: FnMut(&Value) -> core::result::Result<String, E>>(
    texts: ValueTexts<E>,
) -> bool {
    forall|formatter: F, value: &Value, found: core::result::Result<String, E>| #[trigger]
        call_ensures(formatter, (value,), found) ==> match found {
            Ok(word) => texts(value@) == Ok::<Seq<char>, E>(word@),
            Err(error) => texts(value@) == Err::<Seq<char>, E>(error),
        }
}

/// The elements from `start` on as array text, or the first error.
pub open spec fn rendered<E>(
    elements: Seq<ValueView>,
    start: nat,
    texts: ValueTexts<E>,
    before: Seq<Seq<char>>,
) -> core::result::Result<Seq<Seq<char>>, E>
    decreases elements.len() - start,
{
    if start >= elements.len() {
        Ok(before)
    } else if elements[start as int] is Null {
        rendered(elements, start + 1, texts, before.push("NULL"@))
    } else {
        match texts(elements[start as int]) {
            Err(error) => Err(error),
            Ok(word) => rendered(elements, start + 1, texts, before.push(element_text(word))),
        }
    }
}

/// The number of elements under one item of a dimension.
pub open spec fn block(dimensions: Seq<ArrayDimension>, depth: nat) -> nat
    decreases dimensions.len() - depth,
{
    if depth >= dimensions.len() {
        1
    } else {
        dimensions[depth as int].len as nat * block(dimensions, depth + 1)
    }
}

/// The item of a dimension that starts at an element: a list in braces, or the
/// element itself below the last dimension.
pub open spec fn item_text(
    dimensions: Seq<ArrayDimension>,
    depth: nat,
    items: Seq<Seq<char>>,
    start: nat,
) -> Seq<char>
    decreases dimensions.len() - depth, 1nat, 0nat,
{
    if depth >= dimensions.len() {
        items[start as int]
    } else {
        seq!['{'] + listed_text(
            dimensions,
            depth,
            items,
            start,
            dimensions[depth as int].len as nat,
        ) + seq!['}']
    }
}

/// The first `count` items of a list, with commas between them.
pub open spec fn listed_text(
    dimensions: Seq<ArrayDimension>,
    depth: nat,
    items: Seq<Seq<char>>,
    start: nat,
    count: nat,
) -> Seq<char>
    decreases dimensions.len() - depth, 0nat, count,
    when depth < dimensions.len()
{
    if count == 0 {
        Seq::empty()
    } else {
        let before = listed_text(dimensions, depth, items, start, (count - 1) as nat);
        let last = item_text(
            dimensions,
            depth + 1,
            items,
            start + (count - 1) as nat * block(dimensions, depth + 1),
        );
        if count == 1 {
            last
        } else {
            before + seq![','] + last
        }
    }
}

/// The subscript ranges of the first `count` dimensions.
pub open spec fn ranges_text(dimensions: Seq<ArrayDimension>, count: nat) -> Seq<char>
    decreases count,
{
    if count == 0 {
        Seq::empty()
    } else {
        let dimension = dimensions[count - 1];
        ranges_text(dimensions, (count - 1) as nat) + seq!['['] + text::signed_decimal_text(
            dimension.lower_bound as int,
        ) + seq![':'] + text::signed_decimal_text(dimension.lower_bound + dimension.len - 1)
            + seq![']']
    }
}

/// Some dimension does not start at subscript one.
pub open spec fn has_bounds(dimensions: Seq<ArrayDimension>) -> bool {
    exists|i: int| 0 <= i < dimensions.len() && (#[trigger] dimensions[i]).lower_bound != 1
}

/// An array whose elements have the given texts.
pub open spec fn structure_text(
    dimensions: Seq<ArrayDimension>,
    items: Seq<Seq<char>>,
) -> Seq<char> {
    if items.len() == 0 {
        "{}"@
    } else if has_bounds(dimensions) {
        ranges_text(dimensions, dimensions.len()) + seq!['='] + item_text(dimensions, 0, items, 0)
    } else {
        item_text(dimensions, 0, items, 0)
    }
}

/// An array as text, or the first error that an element gives.
pub open spec fn text_of_array<E>(array: ArrayView, texts: ValueTexts<E>) -> core::result::Result<
    Seq<char>,
    E,
> {
    match rendered(array.elements, 0, texts, Seq::empty()) {
        Err(error) => Err(error),
        Ok(items) => Ok(structure_text(array.dimensions, items)),
    }
}

fn write_array_text_element(output: &mut String, word: &str)
    ensures
        final(output)@ == old(output)@ + element_text(word@),
{
    let chars: Vec<char> = text::chars_of(word);
    let mut quote: bool = chars.len() == 0 || is_null_text(word);
    let mut i: usize = 0;
    while i < chars.len() && !quote
        invariant
            i <= chars@.len(),
            chars@ == word@,
            quote ==> needs_quotes(word@),
            !quote ==> word@.len() > 0 && !is_null_word(word@) && forall|j: int|
                0 <= j < i ==> !special(#[trigger] word@[j]),
        decreases chars@.len() - i + if quote { 0int } else { 1int },
    {
        let c: char = chars[i];
        if text::is_ascii_space(c) || c == '{' || c == '}' || c == ',' || c == '"' || c == '\\' {
            assert(special(word@[i as int]));
            quote = true;
        } else {
            i += 1;
        }
    }
    assert(quote == needs_quotes(word@));
    if quote {
        output.push('"');
    }
    let ghost start = output@;
    let mut k: usize = 0;
    assert(word@.take(0) == Seq::<char>::empty());
    assert(output@ =~= start + escaped(word@.take(0)));
    while k < chars.len()
        invariant
            k <= chars@.len(),
            chars@ == word@,
            output@ == start + escaped(word@.take(k as int)),
        decreases chars@.len() - k,
    {
        let c: char = chars[k];
        let ghost before = word@.take(k as int);
        if c == '"' || c == '\\' {
            output.push('\\');
        }
        output.push(c);
        k += 1;
        proof {
            let now = word@.take(k as int);
            assert(now.drop_last() == before);
            assert(now.last() == c);
            assert(output@ =~= start + escaped(now));
        }
    }
    assert(word@.take(k as int) == word@);
    if quote {
        output.push('"');
    }
    assert(output@ =~= old(output)@ + element_text(word@));
}

/// The texts of a list of strings.
pub open spec fn string_texts(strings: Seq<String>) -> Seq<Seq<char>> {
    Seq::new(strings.len(), |i: int| strings[i]@)
}

proof fn lemma_block_position(
    dimensions: Seq<ArrayDimension>,
    depth: nat,
    index: nat,
    start: nat,
    total: nat,
)
    requires
        depth < dimensions.len(),
        index < dimensions[depth as int].len,
        start + block(dimensions, depth) <= total,
    ensures
        start + index * block(dimensions, depth + 1) + block(dimensions, depth + 1) == start + (
        index + 1) * block(dimensions, depth + 1),
        start + (index + 1) * block(dimensions, depth + 1) <= total,
{
    let inner = block(dimensions, depth + 1);
    let len = dimensions[depth as int].len as nat;
    assert(index * inner + inner == (index + 1) * inner) by (nonlinear_arith);
    assert((index + 1) * inner <= len * inner) by (nonlinear_arith)
        requires
            index + 1 <= len,
    ;
}

fn format_array_text_level(
    output: &mut String,
    dimensions: &[ArrayDimension],
    items: &Vec<String>,
    depth: usize,
    element_index: &mut usize,
)
    requires
        depth < dimensions@.len(),
        *old(element_index) + block(dimensions@, depth as nat) <= items@.len(),
    ensures
        *final(element_index) == *old(element_index) + block(dimensions@, depth as nat),
        final(output)@ == old(output)@ + item_text(
            dimensions@,
            depth as nat,
            string_texts(items@),
            *old(element_index) as nat,
        ),
    decreases dimensions@.len() - depth,
{
    let ghost start = *element_index as nat;
    let ghost texts = string_texts(items@);
    let ghost inner = block(dimensions@, (depth + 1) as nat);
    output.push('{');
    let ghost opened = output@;
    let len: usize = dimensions[depth].len as usize;
    let mut index: usize = 0;
    assert(output@ =~= opened + listed_text(dimensions@, depth as nat, texts, start, 0));
    assert(0 * inner == 0);
    while index < len
        invariant
            index <= len,
            depth < dimensions@.len(),
            len == dimensions@[depth as int].len,
            texts == string_texts(items@),
            inner == block(dimensions@, (depth + 1) as nat),
            start + block(dimensions@, depth as nat) <= items@.len(),
            *element_index == start + index * inner,
            output@ == opened + listed_text(
                dimensions@,
                depth as nat,
                texts,
                start,
                index as nat,
            ),
        decreases len - index,
    {
        proof {
            lemma_block_position(
                dimensions@,
                depth as nat,
                index as nat,
                start,
                items@.len(),
            );
        }
        if index != 0 {
            output.push(',');
        }
        let ghost before = output@;
        if dimensions.len() - depth > 1 {
            format_array_text_level(output, dimensions, items, depth + 1, element_index);
        } else {
            assert(*element_index < items.len());
            output.append(&items[*element_index]);
            *element_index = *element_index + 1;
        }
        index += 1;
        proof {
            let last = item_text(
                dimensions@,
                (depth + 1) as nat,
                texts,
                start + (index - 1) as nat * inner,
            );
            assert(output@ =~= before + last);
            assert(output@ =~= opened + listed_text(
                dimensions@,
                depth as nat,
                texts,
                start,
                index as nat,
            ));
        }
    }
    output.push('}');
    assert(output@ =~= old(output)@ + item_text(dimensions@, depth as nat, texts, start));
}

pub(crate) proof fn lemma_block_is_span(dimensions: Seq<ArrayDimension>, depth: nat)
    requires
        depth <= dimensions.len(),
    ensures
        array::span(dimensions, depth) * block(dimensions, depth) == array::span(
            dimensions,
            dimensions.len(),
        ),
    decreases dimensions.len() - depth,
{
    if depth < dimensions.len() {
        lemma_block_is_span(dimensions, depth + 1);
        let a = array::span(dimensions, depth);
        let len = dimensions[depth as int].len as nat;
        let b = block(dimensions, depth + 1);
        assert(array::span(dimensions, depth + 1) == a * len);
        assert(a * (len * b) == (a * len) * b) by (nonlinear_arith);
    } else {
        let a = array::span(dimensions, depth);
        assert(a * 1 == a) by (nonlinear_arith);
    }
}

/// Format an array's structure as PostgreSQL array text. The callback supplies
/// the text representation of each non-null scalar element.
pub fn format_array_text_structure<E, F: FnMut(&Value) -> core::result::Result<String, E>>(
    array: &SqlArray,
    format_element: &mut F,
) -> (result: core::result::Result<String, E>)
    requires
        forall|formatter: F, value: &Value| #[trigger] call_requires(formatter, (value,)),
    ensures
        forall|texts: ValueTexts<E>| #[trigger]
            formats_as::<E, F>(texts) ==> match result {
                Ok(output) => text_of_array(array@, texts) == Ok::<Seq<char>, E>(output@),
                Err(error) => text_of_array(array@, texts) == Err::<Seq<char>, E>(error),
            },
{
    array.assert_shape();
    let elements: &[Value] = array.elements();
    let ghost views = array@.elements;
    let mut items: Vec<String> = Vec::new();
    let mut i: usize = 0;
    assert(string_texts(items@) =~= Seq::<Seq<char>>::empty());
    while i < elements.len()
        invariant
            i <= elements@.len(),
            views == array@.elements,
            array::models(elements@) == views,
            items@.len() == i,
            forall|formatter: F, value: &Value| #[trigger] call_requires(formatter, (value,)),
            forall|texts: ValueTexts<E>| #[trigger]
                formats_as::<E, F>(texts) ==> rendered(views, 0, texts, Seq::empty()) == rendered(
                    views,
                    i as nat,
                    texts,
                    string_texts(items@),
                ),
        decreases elements@.len() - i,
    {
        let value: &Value = &elements[i];
        assert(views[i as int] == value@);
        let ghost before = items@;
        let mut item: String = String::new();
        if matches!(value, Value::Null) {
            item.append("NULL");
            assert(item@ =~= "NULL"@);
        } else {
            match format_element(value) {
                Ok(word) => {
                    write_array_text_element(&mut item, &word);
                    assert(item@ =~= element_text(word@));
                },
                Err(error) => return Err(error),
            }
        }
        items.push(item);
        assert(string_texts(items@) =~= string_texts(before).push(item@));
        i += 1;
    }
    let mut output: String = String::new();
    if items.len() == 0 {
        output.append("{}");
        assert(output@ =~= "{}"@);
        return Ok(output);
    }
    let dimensions: &[ArrayDimension] = array.dimensions();
    let mut bounded: bool = false;
    let mut d: usize = 0;
    while d < dimensions.len()
        invariant
            d <= dimensions@.len(),
            bounded == has_bounds(dimensions@.take(d as int)),
        decreases dimensions@.len() - d,
    {
        let ghost before = dimensions@.take(d as int);
        bounded = bounded || dimensions[d].lower_bound != 1;
        d += 1;
        proof {
            let now = dimensions@.take(d as int);
            assert(now[d - 1] == dimensions@[d - 1]);
            if has_bounds(before) {
                let k = choose|k: int|
                    0 <= k < before.len() && (#[trigger] before[k]).lower_bound != 1;
                assert(now[k].lower_bound != 1);
            }
            if has_bounds(now) {
                let k = choose|k: int| 0 <= k < now.len() && (#[trigger] now[k]).lower_bound != 1;
                if k < d - 1 {
                    assert(before[k] == now[k]);
                }
            }
        }
    }
    assert(dimensions@.take(d as int) == dimensions@);
    if bounded {
        let mut k: usize = 0;
        assert(output@ =~= ranges_text(dimensions@, 0));
        while k < dimensions.len()
            invariant
                k <= dimensions@.len(),
                dimensions@ == array@.dimensions,
                array@.well_formed(),
                output@ == ranges_text(dimensions@, k as nat),
            decreases dimensions@.len() - k,
        {
            let dimension: ArrayDimension = dimensions[k];
            assert(array::dimension_fits(array@.dimensions[k as int]));
            let upper: i64 = dimension.lower_bound as i64 + dimension.len as i64 - 1;
            let ghost before = output@;
            output.push('[');
            text::push_signed_decimal(&mut output, dimension.lower_bound as i64);
            output.push(':');
            text::push_signed_decimal(&mut output, upper);
            output.push(']');
            k += 1;
            assert(output@ =~= ranges_text(dimensions@, k as nat));
        }
        output.push('=');
    }
    let ghost prefix = output@;
    proof {
        lemma_block_is_span(dimensions@, 0);
        let all = block(dimensions@, 0);
        assert(1 * all == all) by (nonlinear_arith);
        assert(array::span(dimensions@, 0) == 1);
        assert(items@.len() == block(dimensions@, 0));
    }
    let mut element_index: usize = 0;
    format_array_text_level(&mut output, dimensions, &items, 0, &mut element_index);
    assert(output@ =~= structure_text(dimensions@, string_texts(items@)));
    Ok(output)
}

} // verus!
