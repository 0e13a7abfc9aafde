//! Optimizer statistics collected by `ANALYZE`.
//!
//! These types are durable catalog state. Fractions use [`OrderedF64`], so the types
//! have an equality that every value takes part in.

use std::collections::BTreeMap;
use vstd::prelude::*;

use crate::float::OrderedF64;
use crate::ids::ColumnId;
use crate::row;
use crate::value::{Value, ValueView};

verus! {

impl ValueView {
    /// Neither an infinity nor a NaN; values that are not floating-point numbers are
    /// always finite.
    pub open spec fn is_finite(self) -> bool {
        match self {
            ValueView::Float(f) => f.spec_is_finite(),
            ValueView::Real(f) => f.spec_is_finite(),
            _ => true,
        }
    }
}

/// True unless `value` is a non-finite `DOUBLE PRECISION`/`REAL`. The ANALYZE
/// collector uses this to exclude NaN and infinite sample values from MCV lists
/// and histogram bounds: the durable encodings cannot round-trip them (see
/// [`TableStatistics::is_finite`]).
pub fn value_is_finite(value: &Value) -> (finite: bool)
    ensures
        finite == value@.is_finite(),
{
    match value {
        Value::Float(f) => f.is_finite(),
        Value::Real(f) => f.is_finite(),
        _ => true,
    }
}

/// Distinct-value estimate for a column.
#[derive(Clone, Debug)]
pub enum NDistinct {
    /// Absolute distinct-value estimate; stays fixed as the table grows.
    Count(u64),
    /// Distinct values as a fraction of the table's row count, above zero and up to
    /// one (a unique column is one); the estimate scales with growth.
    Fraction(OrderedF64),
}

impl NDistinct {
    /// Equality of estimates.
    pub open spec fn same(self, other: Self) -> bool {
        match (self, other) {
            (NDistinct::Count(a), NDistinct::Count(b)) => a == b,
            (NDistinct::Fraction(a), NDistinct::Fraction(b)) => a.key() == b.key(),
            _ => false,
        }
    }

    /// A count, or a fraction that is a finite number.
    pub open spec fn spec_is_finite(self) -> bool {
        match self {
            NDistinct::Count(_) => true,
            NDistinct::Fraction(fraction) => fraction.spec_is_finite(),
        }
    }
}

impl PartialEq for NDistinct {
    fn eq(&self, other: &Self) -> (equal: bool) {
        match (self, other) {
            (NDistinct::Count(a), NDistinct::Count(b)) => *a == *b,
            (NDistinct::Fraction(a), NDistinct::Fraction(b)) => *a == *b,
            _ => false,
        }
    }
}

impl vstd::std_specs::cmp::PartialEqSpecImpl for NDistinct {
    open spec fn obeys_eq_spec() -> bool {
        true
    }

    open spec fn eq_spec(&self, other: &Self) -> bool {
        self.same(*other)
    }
}

impl Eq for NDistinct {

}

/// Per-column statistics from one ANALYZE sample.
#[derive(Clone, Debug)]
pub struct ColumnStatistics {
    /// Fraction of sampled rows that are NULL in this column, from zero to one.
    pub null_frac: OrderedF64,
    /// Mean encoded width in bytes of non-null sampled values.
    pub avg_width: u32,
    pub n_distinct: NDistinct,
    /// Most-common non-null values with their estimated overall frequency,
    /// most frequent first.
    pub most_common: Vec<(Value, OrderedF64)>,
    /// Equi-height histogram bounds over sampled non-MCV values, ascending.
    /// Empty when the MCV list already covers every sampled distinct value.
    pub histogram_bounds: Vec<Value>,
}

/// Lists of values with frequencies that are equal one by one.
pub open spec fn same_common(a: Seq<(Value, OrderedF64)>, b: Seq<(Value, OrderedF64)>) -> bool {
    a.len() == b.len() && forall|i: int|
        0 <= i < a.len() ==> (#[trigger] a[i]).0@.same(b[i].0@) && a[i].1.key() == b[i].1.key()
}

impl ColumnStatistics {
    /// Equality of column statistics.
    pub open spec fn same(self, other: Self) -> bool {
        &&& self.null_frac.key() == other.null_frac.key()
        &&& self.avg_width == other.avg_width
        &&& self.n_distinct.same(other.n_distinct)
        &&& same_common(self.most_common@, other.most_common@)
        &&& row::same_values(
            row::value_views(self.histogram_bounds@),
            row::value_views(other.histogram_bounds@),
        )
    }

    /// Every fraction and every sampled value is a finite number.
    pub open spec fn spec_is_finite(self) -> bool {
        &&& self.null_frac.spec_is_finite()
        &&& self.n_distinct.spec_is_finite()
        &&& forall|i: int|
            0 <= i < self.most_common@.len() ==> (#[trigger] self.most_common@[i]).0@.is_finite()
                && self.most_common@[i].1.spec_is_finite()
        &&& forall|i: int|
            0 <= i < self.histogram_bounds@.len() ==> (
            #[trigger] self.histogram_bounds@[i])@.is_finite()
    }

    fn is_finite(&self) -> (finite: bool)
        ensures
            finite == self.spec_is_finite(),
    {
        if !self.null_frac.is_finite() {
            return false;
        }
        match &self.n_distinct {
            NDistinct::Count(_) => {},
            NDistinct::Fraction(fraction) => {
                if !fraction.is_finite() {
                    return false;
                }
            },
        }
        let mut i: usize = 0;
        while i < self.most_common.len()
            invariant
                i <= self.most_common@.len(),
                forall|j: int|
                    0 <= j < i ==> (#[trigger] self.most_common@[j]).0@.is_finite()
                        && self.most_common@[j].1.spec_is_finite(),
            decreases self.most_common@.len() - i,
        {
            let entry: &(Value, OrderedF64) = &self.most_common[i];
            if !entry.1.is_finite() || !value_is_finite(&entry.0) {
                assert(!(self.most_common@[i as int].0@.is_finite()
                    && self.most_common@[i as int].1.spec_is_finite()));
                return false;
            }
            i += 1;
        }
        let mut k: usize = 0;
        while k < self.histogram_bounds.len()
            invariant
                k <= self.histogram_bounds@.len(),
                forall|j: int|
                    0 <= j < k ==> (#[trigger] self.histogram_bounds@[j])@.is_finite(),
            decreases self.histogram_bounds@.len() - k,
        {
            if !value_is_finite(&self.histogram_bounds[k]) {
                assert(!self.histogram_bounds@[k as int]@.is_finite());
                return false;
            }
            k += 1;
        }
        true
    }
}

impl PartialEq for ColumnStatistics {
    fn eq(&self, other: &Self) -> (equal: bool) {
        if self.null_frac != other.null_frac || self.avg_width != other.avg_width || self.n_distinct
            != other.n_distinct || !row::are_same_values(
            &self.histogram_bounds,
            &other.histogram_bounds,
        ) {
            return false;
        }
        if self.most_common.len() != other.most_common.len() {
            return false;
        }
        let mut i: usize = 0;
        while i < self.most_common.len()
            invariant
                i <= self.most_common@.len(),
                self.most_common@.len() == other.most_common@.len(),
                forall|j: int|
                    0 <= j < i ==> (#[trigger] self.most_common@[j]).0@.same(
                        other.most_common@[j].0@,
                    ) && self.most_common@[j].1.key() == other.most_common@[j].1.key(),
            decreases self.most_common@.len() - i,
        {
            let (a, b): (&(Value, OrderedF64), &(Value, OrderedF64)) = (
                &self.most_common[i],
                &other.most_common[i],
            );
            if a.0 != b.0 || a.1 != b.1 {
                assert(!(self.most_common@[i as int].0@.same(other.most_common@[i as int].0@)
                    && self.most_common@[i as int].1.key() == other.most_common@[i as int].1.key()));
                return false;
            }
            i += 1;
        }
        true
    }
}

impl vstd::std_specs::cmp::PartialEqSpecImpl for ColumnStatistics {
    open spec fn obeys_eq_spec() -> bool {
        true
    }

    open spec fn eq_spec(&self, other: &Self) -> bool {
        self.same(*other)
    }
}

impl Eq for ColumnStatistics {

}

/// Per-table statistics from one ANALYZE pass.
///
/// `columns` is keyed by [`ColumnId`]. Column ids are dense and are remapped
/// by `DROP COLUMN`, so the catalog only preserves these entries across a
/// schema change when every prior `(id, name, type)` column is unchanged; any
/// other change clears the column map (the counts stay) rather than risk
/// attaching statistics to the wrong column. `BTreeMap` keeps the serialized
/// form deterministic.
#[derive(Clone, Debug)]
pub struct TableStatistics {
    /// Live rows visible to the ANALYZE snapshot.
    pub row_count: u64,
    /// Heap page count at collection time.
    pub page_count: u64,
    pub columns: BTreeMap<ColumnId, ColumnStatistics>,
}

impl TableStatistics {
    /// Equality of table statistics.
    pub open spec fn same(self, other: Self) -> bool {
        &&& self.row_count == other.row_count
        &&& self.page_count == other.page_count
        &&& self.columns@.dom() == other.columns@.dom()
        &&& forall|id: ColumnId| #[trigger]
            self.columns@.contains_key(id) ==> self.columns@[id].same(other.columns@[id])
    }

    /// Every column's statistics are finite.
    pub open spec fn spec_is_finite(self) -> bool {
        forall|id: ColumnId| #[trigger]
            self.columns@.contains_key(id) ==> self.columns@[id].spec_is_finite()
    }

    /// True when every fraction and every sampled value in these statistics is
    /// a finite number. The catalog snapshot is JSON, which has no form for a
    /// non-finite number that could be read back, so the catalog rejects non-finite
    /// statistics at the durable boundary, and the ANALYZE collector excludes
    /// non-finite sampled values from MCVs and histograms.
    pub fn is_finite(&self) -> (finite: bool)
        ensures
            finite == self.spec_is_finite(),
    {
        broadcast use vstd::std_specs::btree::group_btree_axioms;

        for entry in it: self.columns.iter()
            invariant
                forall|j: int|
                    0 <= j < it.index() ==> (#[trigger] it.seq()[j]).1.spec_is_finite(),
        {
            if !entry.1.is_finite() {
                assert(self.columns@.contains_key(*entry.0));
                return false;
            }
        }
        true
    }
}

impl PartialEq for TableStatistics {
    fn eq(&self, other: &Self) -> (equal: bool) {
        broadcast use vstd::std_specs::btree::group_btree_axioms;

        if self.row_count != other.row_count || self.page_count != other.page_count {
            return false;
        }
        if self.columns.len() != other.columns.len() {
            return false;
        }
        for entry in it: self.columns.iter()
            invariant
                forall|j: int|
                    0 <= j < it.index() ==> other.columns@.contains_key(*(#[trigger] it.seq()[j]).0)
                        && it.seq()[j].1.same(other.columns@[*it.seq()[j].0]),
        {
            match other.columns.get(entry.0) {
                Some(column) => {
                    if *entry.1 != *column {
                        return false;
                    }
                },
                None => return false,
            }
        }
        proof {
            let (mine, theirs) = (self.columns@.dom(), other.columns@.dom());
            assert forall|id: ColumnId| mine.contains(id) implies theirs.contains(id)
                && self.columns@[id].same(other.columns@[id]) by {
                assert(self.columns@.contains_key(id));
            }
            vstd::set_lib::lemma_subset_equality(mine, theirs);
        }
        true
    }
}

impl vstd::std_specs::cmp::PartialEqSpecImpl for TableStatistics {
    open spec fn obeys_eq_spec() -> bool {
        true
    }

    open spec fn eq_spec(&self, other: &Self) -> bool {
        self.same(*other)
    }
}

impl Eq for TableStatistics {

}

/// A value is finite unless it is a double or a real whose exponent has only one bits:
/// those are the infinities and the NaNs, with either sign.
pub proof fn only_floats_are_infinite(value: ValueView, double: u64, single: u32)
    ensures
        !(value is Float) && !(value is Real) ==> value.is_finite(),
        ValueView::Float(OrderedF64(double)).is_finite() <==> double % 0x8000_0000_0000_0000
            < 0x7ff0_0000_0000_0000,
        ValueView::Real(crate::float::OrderedF32(single)).is_finite() <==> single % 0x8000_0000
            < 0x7f80_0000,
{
}

/// Statistics are finite only where all of their parts are: one column, one fraction, one
/// common value or one bound that is not makes them infinite.
pub proof fn one_infinite_part_suffices(statistics: TableStatistics, id: ColumnId, i: int)
    requires
        statistics.spec_is_finite(),
        statistics.columns@.contains_key(id),
    ensures
        ({
            let column = statistics.columns@[id];
            &&& column.null_frac.0 % 0x8000_0000_0000_0000 < 0x7ff0_0000_0000_0000
            &&& column.n_distinct matches NDistinct::Fraction(fraction) ==> fraction.0
                % 0x8000_0000_0000_0000 < 0x7ff0_0000_0000_0000
            &&& 0 <= i < column.most_common@.len() ==> column.most_common@[i].0@.is_finite()
                && column.most_common@[i].1.0 % 0x8000_0000_0000_0000 < 0x7ff0_0000_0000_0000
            &&& 0 <= i < column.histogram_bounds@.len()
                ==> column.histogram_bounds@[i]@.is_finite()
        }),
{
}

} // verus!
