//! Rows, keys and key ranges.

use core::cmp::Ordering;
use vstd::prelude::*;

use crate::ids::RowId;
use crate::order::{self, Order};
use crate::value::{Value, ValueView};

verus! {

/// What each of the values holds.
pub open spec fn value_views(values: Seq<Value>) -> Seq<ValueView> {
    values.map_values(|value: Value| value@)
}

/// Values that are equal one by one.
pub open spec fn same_values(a: Seq<ValueView>, b: Seq<ValueView>) -> bool {
    a.len() == b.len() && forall|i: int| 0 <= i < a.len() ==> #[trigger] a[i].same(b[i])
}

/// The order of lists of values: that of the first values that differ, or else the
/// shorter list first.
pub open spec fn order_of_values(a: Seq<ValueView>, b: Seq<ValueView>) -> Order
    decreases a.len(),
{
    if a.len() == 0 && b.len() == 0 {
        Order::Equal
    } else if a.len() == 0 {
        Order::Less
    } else if b.len() == 0 {
        Order::Greater
    } else {
        match a[0].order(b[0]) {
            Order::Equal => order_of_values(a.drop_first(), b.drop_first()),
            decided => decided,
        }
    }
}

/// The order of lists of values is total and agrees with their equality.
pub proof fn order_of_values_is_total(a: Seq<ValueView>, b: Seq<ValueView>)
    ensures
        order_of_values(a, b) == Order::Equal <==> same_values(a, b),
        order_of_values(b, a) == order::reversed(order_of_values(a, b)),
    decreases a.len(),
{
    if a.len() > 0 && b.len() > 0 {
        ValueView::order_is_total(a[0], b[0]);
        let (x, y) = (a.drop_first(), b.drop_first());
        order_of_values_is_total(x, y);
        if same_values(a, b) {
            assert(a[0].same(b[0]));
            assert forall|i: int| 0 <= i < x.len() implies #[trigger] x[i].same(y[i]) by {
                assert(a[i + 1].same(b[i + 1]));
            }
        }
        if a[0].same(b[0]) && same_values(x, y) {
            assert forall|i: int| 0 <= i < a.len() implies #[trigger] a[i].same(b[i]) by {
                if i > 0 {
                    assert(x[i - 1].same(y[i - 1]));
                }
            }
        }
    } else if same_values(a, b) {
    }
}

/// The order of lists of values is transitive.
pub proof fn order_of_values_is_transitive(
    a: Seq<ValueView>,
    b: Seq<ValueView>,
    c: Seq<ValueView>,
)
    requires
        order_of_values(a, b) == Order::Less,
        order_of_values(b, c) == Order::Less,
    ensures
        order_of_values(a, c) == Order::Less,
    decreases a.len(),
{
    if a.len() > 0 && b.len() > 0 && c.len() > 0 {
        ValueView::order_is_total(a[0], b[0]);
        ValueView::order_is_total(b[0], c[0]);
        ValueView::order_is_total(a[0], c[0]);
        if a[0].order(b[0]) == Order::Less && b[0].order(c[0]) == Order::Less {
            ValueView::order_is_transitive(a[0], b[0], c[0]);
        } else if a[0].same(b[0]) && b[0].same(c[0]) {
            order_of_values_is_transitive(a.drop_first(), b.drop_first(), c.drop_first());
        }
    }
}

pub(crate) fn are_same_values(a: &Vec<Value>, b: &Vec<Value>) -> (same: bool)
    ensures
        same == same_values(value_views(a@), value_views(b@)),
{
    if a.len() != b.len() {
        return false;
    }
    let ghost (x, y) = (value_views(a@), value_views(b@));
    let mut i: usize = 0;
    while i < a.len()
        invariant
            i <= a@.len(),
            a@.len() == b@.len(),
            x == value_views(a@),
            y == value_views(b@),
            forall|j: int| 0 <= j < i ==> #[trigger] x[j].same(y[j]),
        decreases a@.len() - i,
    {
        if a[i] != b[i] {
            assert(!x[i as int].same(y[i as int]));
            return false;
        }
        assert(x[i as int].same(y[i as int]));
        i += 1;
    }
    true
}

fn order_value_lists(a: &Vec<Value>, b: &Vec<Value>) -> (order: Order)
    ensures
        order == order_of_values(value_views(a@), value_views(b@)),
{
    let ghost (x, y) = (value_views(a@), value_views(b@));
    let ghost whole = order_of_values(x, y);
    let mut i: usize = 0;
    assert(x.skip(0) == x && y.skip(0) == y);
    while i < a.len() && i < b.len()
        invariant
            i <= a@.len(),
            i <= b@.len(),
            x == value_views(a@),
            y == value_views(b@),
            whole == order_of_values(x, y),
            whole == order_of_values(x.skip(i as int), y.skip(i as int)),
        decreases a@.len() - i,
    {
        assert(x.skip(i as int)[0] == a@[i as int]@);
        assert(y.skip(i as int)[0] == b@[i as int]@);
        assert(x.skip(i as int).drop_first() == x.skip(i + 1));
        assert(y.skip(i as int).drop_first() == y.skip(i + 1));
        match a[i].order(&b[i]) {
            Order::Equal => {},
            decided => return decided,
        }
        i += 1;
    }
    if i < b.len() {
        Order::Less
    } else if i < a.len() {
        Order::Greater
    } else {
        Order::Equal
    }
}

fn copy_values(values: &Vec<Value>) -> (copy: Vec<Value>)
    ensures
        value_views(copy@) == value_views(values@),
{
    let mut copy: Vec<Value> = Vec::new();
    let mut i: usize = 0;
    while i < values.len()
        invariant
            i <= values@.len(),
            value_views(copy@) == value_views(values@).take(i as int),
        decreases values@.len() - i,
    {
        let ghost before = copy@;
        let value: Value = values[i].clone();
        copy.push(value);
        i += 1;
        assert(value_views(copy@) =~= value_views(before).push(value@));
        assert(value_views(copy@) =~= value_views(values@).take(i as int));
    }
    assert(value_views(values@).take(i as int) =~= value_views(values@));
    copy
}

/// The values of a row, in column order.
#[derive(Debug)]
pub struct Row {
    pub values: Vec<Value>,
}

impl View for Row {
    type V = Seq<ValueView>;

    open spec fn view(&self) -> Seq<ValueView> {
        value_views(self.values@)
    }
}

impl PartialEq for Row {
    fn eq(&self, other: &Self) -> (equal: bool) {
        are_same_values(&self.values, &other.values)
    }
}

impl vstd::std_specs::cmp::PartialEqSpecImpl for Row {
    open spec fn obeys_eq_spec() -> bool {
        true
    }

    open spec fn eq_spec(&self, other: &Self) -> bool {
        same_values(self@, other@)
    }
}

impl Eq for Row {

}

impl Clone for Row {
    fn clone(&self) -> (copy: Self)
        ensures
            copy@ == self@,
    {
        Row { values: copy_values(&self.values) }
    }
}

/// The values by which a row is found. Keys are ordered value by value.
#[derive(Debug, Hash)]
pub struct Key(pub Vec<Value>);

impl View for Key {
    type V = Seq<ValueView>;

    open spec fn view(&self) -> Seq<ValueView> {
        value_views(self.0@)
    }
}

impl Key {
    /// The order of two keys.
    pub fn order(&self, other: &Self) -> (order: Order)
        ensures
            order == order_of_values(self@, other@),
    {
        order_value_lists(&self.0, &other.0)
    }
}

impl PartialEq for Key {
    fn eq(&self, other: &Self) -> (equal: bool) {
        are_same_values(&self.0, &other.0)
    }
}

impl vstd::std_specs::cmp::PartialEqSpecImpl for Key {
    open spec fn obeys_eq_spec() -> bool {
        true
    }

    open spec fn eq_spec(&self, other: &Self) -> bool {
        same_values(self@, other@)
    }
}

impl Eq for Key {

}

impl PartialOrd for Key {
    fn partial_cmp(&self, other: &Self) -> (order: Option<Ordering>) {
        Some(order::to_std_order(self.order(other)))
    }
}

impl vstd::std_specs::cmp::PartialOrdSpecImpl for Key {
    open spec fn obeys_partial_cmp_spec() -> bool {
        true
    }

    open spec fn partial_cmp_spec(&self, other: &Self) -> Option<Ordering> {
        Some(order::std_order(order_of_values(self@, other@)))
    }
}

impl Clone for Key {
    fn clone(&self) -> (copy: Self)
        ensures
            copy@ == self@,
    {
        Key(copy_values(&self.0))
    }
}

/// Where a range of keys ends.
#[derive(Clone, Debug, PartialEq, Eq)]
pub enum KeyBound {
    Included(Key),
    Excluded(Key),
    Unbounded,
}

/// Which keys a scan covers.
#[derive(Clone, Debug, PartialEq, Eq)]
pub enum KeyRange {
    Exact(Key),
    Range { start: KeyBound, end: KeyBound },
    All,
}

/// A row with its place in storage.
#[derive(Clone, Debug, PartialEq, Eq)]
pub struct StoredRow {
    pub row_id: RowId,
    pub key: Key,
    pub row: Row,
}

/// A row in execution, with the stored row that it came from, if any.
#[derive(Clone, Debug, PartialEq, Eq)]
pub struct ExecRow {
    pub row: Row,
    pub identity: Option<RowIdentity>,
}

/// Where a row is stored and by which key.
#[derive(Clone, Debug, PartialEq, Eq)]
pub struct RowIdentity {
    pub row_id: RowId,
    pub key: Key,
}

} // verus!
