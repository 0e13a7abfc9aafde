//! Lexicographic orders over integer keys, and their laws.

use core::cmp::Ordering;
use core::hash::{Hash, Hasher};
use vstd::prelude::*;

verus! {

/// How one key stands to another.
#[derive(Clone, Copy, Debug, PartialEq, Eq, Structural)]
pub enum Order {
    Less,
    Equal,
    Greater,
}

/// The standard library's name for an order.
pub open spec fn std_order(order: Order) -> Ordering {
    match order {
        Order::Less => Ordering::Less,
        Order::Equal => Ordering::Equal,
        Order::Greater => Ordering::Greater,
    }
}

/// Names an order as the standard library does.
pub fn to_std_order(order: Order) -> (named: Ordering)
    ensures
        named == std_order(order),
{
    match order {
        Order::Less => Ordering::Less,
        Order::Equal => Ordering::Equal,
        Order::Greater => Ordering::Greater,
    }
}

/// The opposite order.
pub open spec fn reversed(order: Order) -> Order {
    match order {
        Order::Less => Order::Greater,
        Order::Equal => Order::Equal,
        Order::Greater => Order::Less,
    }
}

/// The order of two integers.
pub open spec fn int_order(a: int, b: int) -> Order {
    if a < b {
        Order::Less
    } else if a == b {
        Order::Equal
    } else {
        Order::Greater
    }
}

/// Lexicographic order: the first difference decides, and a proper prefix comes
/// first.
pub open spec fn lex_order(a: Seq<int>, b: Seq<int>) -> Order
    decreases a.len(),
{
    if a.len() == 0 {
        if b.len() == 0 {
            Order::Equal
        } else {
            Order::Less
        }
    } else if b.len() == 0 {
        Order::Greater
    } else if a[0] != b[0] {
        int_order(a[0], b[0])
    } else {
        lex_order(a.drop_first(), b.drop_first())
    }
}

/// Lexicographic order over sequences whose items are themselves ordered
/// lexicographically.
pub open spec fn nested_lex_order(a: Seq<Seq<int>>, b: Seq<Seq<int>>) -> Order
    decreases a.len(),
{
    if a.len() == 0 {
        if b.len() == 0 {
            Order::Equal
        } else {
            Order::Less
        }
    } else if b.len() == 0 {
        Order::Greater
    } else if a[0] != b[0] {
        lex_order(a[0], b[0])
    } else {
        nested_lex_order(a.drop_first(), b.drop_first())
    }
}

/// Two keys compare equal exactly when they are the same key, and swapping the
/// keys reverses their order.
pub proof fn lex_order_is_antisymmetric(a: Seq<int>, b: Seq<int>)
    ensures
        (lex_order(a, b) == Order::Equal) <==> a == b,
        lex_order(b, a) == reversed(lex_order(a, b)),
    decreases a.len(),
{
    if a.len() > 0 && b.len() > 0 && a[0] == b[0] {
        lex_order_is_antisymmetric(a.drop_first(), b.drop_first());
        if a.drop_first() == b.drop_first() {
            assert(a == seq![a[0]] + a.drop_first());
            assert(b == seq![b[0]] + b.drop_first());
            assert(a == b);
        }
    } else if a.len() == 0 && b.len() == 0 {
        assert(a == b);
    }
}

/// The order of keys is transitive.
pub proof fn lex_order_is_transitive(a: Seq<int>, b: Seq<int>, c: Seq<int>)
    requires
        lex_order(a, b) == Order::Less,
        lex_order(b, c) == Order::Less,
    ensures
        lex_order(a, c) == Order::Less,
    decreases a.len(),
{
    if a.len() > 0 && b.len() > 0 && c.len() > 0 && a[0] == b[0] && b[0] == c[0] {
        lex_order_is_transitive(a.drop_first(), b.drop_first(), c.drop_first());
    }
}

/// Two nested keys compare equal exactly when they are the same key, and
/// swapping the keys reverses their order.
pub proof fn nested_lex_order_is_antisymmetric(a: Seq<Seq<int>>, b: Seq<Seq<int>>)
    ensures
        (nested_lex_order(a, b) == Order::Equal) <==> a == b,
        nested_lex_order(b, a) == reversed(nested_lex_order(a, b)),
    decreases a.len(),
{
    if a.len() > 0 && b.len() > 0 {
        lex_order_is_antisymmetric(a[0], b[0]);
        if a[0] == b[0] {
            nested_lex_order_is_antisymmetric(a.drop_first(), b.drop_first());
            if a.drop_first() == b.drop_first() {
                assert(a == seq![a[0]] + a.drop_first());
                assert(b == seq![b[0]] + b.drop_first());
                assert(a == b);
            }
        }
    } else if a.len() == 0 && b.len() == 0 {
        assert(a == b);
    }
}

/// The order of nested keys is transitive.
pub proof fn nested_lex_order_is_transitive(
    a: Seq<Seq<int>>,
    b: Seq<Seq<int>>,
    c: Seq<Seq<int>>,
)
    requires
        nested_lex_order(a, b) == Order::Less,
        nested_lex_order(b, c) == Order::Less,
    ensures
        nested_lex_order(a, c) == Order::Less,
    decreases a.len(),
{
    if a.len() > 0 && b.len() > 0 && c.len() > 0 {
        lex_order_is_antisymmetric(a[0], b[0]);
        lex_order_is_antisymmetric(b[0], c[0]);
        lex_order_is_antisymmetric(a[0], c[0]);
        if a[0] == b[0] && b[0] == c[0] {
            nested_lex_order_is_transitive(a.drop_first(), b.drop_first(), c.drop_first());
        } else if a[0] != b[0] && b[0] != c[0] {
            lex_order_is_transitive(a[0], b[0], c[0]);
        }
    }
}

/// A common first item does not affect the order.
pub proof fn lemma_lex_order_skips_prefix(p: Seq<int>, a: Seq<int>, b: Seq<int>)
    ensures
        lex_order(p + a, p + b) == lex_order(a, b),
    decreases p.len(),
{
    if p.len() > 0 {
        lemma_lex_order_skips_prefix(p.drop_first(), a, b);
        assert((p + a).drop_first() == p.drop_first() + a);
        assert((p + b).drop_first() == p.drop_first() + b);
    } else {
        assert(p + a == a);
        assert(p + b == b);
    }
}

/// A common prefix of items does not affect the order.
pub proof fn lemma_nested_order_skips_prefix(
    p: Seq<Seq<int>>,
    a: Seq<Seq<int>>,
    b: Seq<Seq<int>>,
)
    ensures
        nested_lex_order(p + a, p + b) == nested_lex_order(a, b),
    decreases p.len(),
{
    if p.len() > 0 {
        lemma_nested_order_skips_prefix(p.drop_first(), a, b);
        assert((p + a).drop_first() == p.drop_first() + a);
        assert((p + b).drop_first() == p.drop_first() + b);
    } else {
        assert(p + a == a);
        assert(p + b == b);
    }
}

/// The order of two integers that fit `i128`.
pub fn order_ints(a: i128, b: i128) -> (order: Order)
    ensures
        order == int_order(a as int, b as int),
{
    if a < b {
        Order::Less
    } else if a == b {
        Order::Equal
    } else {
        Order::Greater
    }
}

/// The code points of a text.
pub open spec fn char_key(text: Seq<char>) -> Seq<int> {
    text.map_values(|c: char| c as int)
}

/// The values of a byte string.
pub open spec fn byte_key(bytes: Seq<u8>) -> Seq<int> {
    bytes.map_values(|b: u8| b as int)
}

/// Code-point order of two texts.
pub fn order_chars(a: &[char], b: &[char]) -> (order: Order)
    ensures
        order == lex_order(char_key(a@), char_key(b@)),
{
    let mut i: usize = 0;
    proof {
        assert(char_key(a@).skip(0) == char_key(a@));
        assert(char_key(b@).skip(0) == char_key(b@));
    }
    while i < a.len() && i < b.len()
        invariant
            i <= a@.len(),
            i <= b@.len(),
            lex_order(char_key(a@), char_key(b@)) == lex_order(
                char_key(a@).skip(i as int),
                char_key(b@).skip(i as int),
            ),
        decreases a@.len() - i,
    {
        proof {
            assert(char_key(a@).skip(i as int).drop_first() == char_key(a@).skip(i + 1));
            assert(char_key(b@).skip(i as int).drop_first() == char_key(b@).skip(i + 1));
        }
        if a[i] < b[i] {
            return Order::Less;
        }
        if a[i] > b[i] {
            return Order::Greater;
        }
        i += 1;
    }
    if i < b.len() {
        Order::Less
    } else if i < a.len() {
        Order::Greater
    } else {
        Order::Equal
    }
}

/// Lexicographic order of two byte strings.
pub fn order_bytes(a: &[u8], b: &[u8]) -> (order: Order)
    ensures
        order == lex_order(byte_key(a@), byte_key(b@)),
{
    let mut i: usize = 0;
    proof {
        assert(byte_key(a@).skip(0) == byte_key(a@));
        assert(byte_key(b@).skip(0) == byte_key(b@));
    }
    while i < a.len() && i < b.len()
        invariant
            i <= a@.len(),
            i <= b@.len(),
            lex_order(byte_key(a@), byte_key(b@)) == lex_order(
                byte_key(a@).skip(i as int),
                byte_key(b@).skip(i as int),
            ),
        decreases a@.len() - i,
    {
        proof {
            assert(byte_key(a@).skip(i as int).drop_first() == byte_key(a@).skip(i + 1));
            assert(byte_key(b@).skip(i as int).drop_first() == byte_key(b@).skip(i + 1));
        }
        if a[i] < b[i] {
            return Order::Less;
        }
        if a[i] > b[i] {
            return Order::Greater;
        }
        i += 1;
    }
    if i < b.len() {
        Order::Less
    } else if i < a.len() {
        Order::Greater
    } else {
        Order::Equal
    }
}

/// Feeds an order key to a hasher, through the standard library's hash of `i128`.
/// Nothing is claimed of the hasher's state; the hasher is the caller's.
#[verifier::external_body]
pub(crate) fn hash_key<H: Hasher>(key: i128, state: &mut H) {
    key.hash(state)
}

} // verus!
