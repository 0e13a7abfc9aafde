//! The inputs of a query: what each range of its `FROM` clause stands for.

use vstd::prelude::*;

use crate::error::{self, DbError, ErrorView, Result, SqlState};
use crate::ids::{BindingId, TableId};
use crate::stored_query::{StoredFrom, StoredJoinType, StoredRangeColumn, MAX_STORED_QUERY_DEPTH};

verus! {

/// What a range stands for: a catalog table, or a list of columns. Under an outer
/// join the columns of the optional side can all be NULL.
pub ghost enum RangeTarget {
    Catalog { table: TableId, null_extended: bool },
    Position { columns: Seq<StoredRangeColumn>, null_extended: bool },
}

/// What a range stands for.
#[derive(Clone, Copy)]
pub enum StoredRangeTarget<'a> {
    Catalog { table: TableId, null_extended: bool },
    Position { columns: &'a Vec<StoredRangeColumn>, null_extended: bool },
}

impl<'a> View for StoredRangeTarget<'a> {
    type V = RangeTarget;

    open spec fn view(&self) -> RangeTarget {
        match *self {
            StoredRangeTarget::Catalog { table, null_extended } => RangeTarget::Catalog {
                table,
                null_extended,
            },
            StoredRangeTarget::Position { columns, null_extended } => RangeTarget::Position {
                columns: columns@,
                null_extended,
            },
        }
    }
}

impl RangeTarget {
    /// The same range on the optional side of an outer join.
    pub open spec fn extended(self) -> RangeTarget {
        match self {
            RangeTarget::Catalog { table, .. } => RangeTarget::Catalog {
                table,
                null_extended: true,
            },
            RangeTarget::Position { columns, .. } => RangeTarget::Position {
                columns,
                null_extended: true,
            },
        }
    }
}

/// The ranges of a query, by their ids.
pub type Ranges = Map<BindingId, RangeTarget>;

/// Every wire type refines the semantic type beside it.
pub open spec fn wire_types_refine(columns: Seq<StoredRangeColumn>) -> bool {
    forall|i: int|
        0 <= i < columns.len() ==> (#[trigger] columns[i]).pg_type.refines(columns[i].data_type)
}

fn do_wire_types_refine(columns: &Vec<StoredRangeColumn>) -> (refine: bool)
    ensures
        refine == wire_types_refine(columns@),
{
    let mut i: usize = 0;
    while i < columns.len()
        invariant
            i <= columns@.len(),
            forall|j: int|
                0 <= j < i ==> (#[trigger] columns@[j]).pg_type.refines(columns@[j].data_type),
        decreases columns@.len() - i,
    {
        if !columns[i].pg_type.is_refinement_of(&columns[i].data_type) {
            assert(!columns@[i as int].pg_type.refines(columns@[i as int].data_type));
            return false;
        }
        i += 1;
    }
    true
}

/// The id of the range that an input defines, if it is not a join.
pub open spec fn range_of(from: StoredFrom) -> Option<BindingId> {
    match from {
        StoredFrom::Table { range, .. }
        | StoredFrom::System { range, .. }
        | StoredFrom::Derived { range, .. }
        | StoredFrom::TableFunction { range, .. } => Some(range),
        StoredFrom::Join { .. } => None,
    }
}

/// What the range of an input stands for, if the input is not a join.
pub open spec fn target_of(from: StoredFrom, null_extended: bool) -> Option<RangeTarget> {
    match from {
        StoredFrom::Table { table, .. } => Some(RangeTarget::Catalog { table, null_extended }),
        StoredFrom::System { schema, .. }
        | StoredFrom::Derived { schema, .. }
        | StoredFrom::TableFunction { schema, .. } => Some(
            RangeTarget::Position { columns: schema@, null_extended },
        ),
        StoredFrom::Join { .. } => None,
    }
}

/// Rows of the left input can go unmatched on the right, which extends the right
/// side with NULLs.
pub open spec fn extends_right(join_type: StoredJoinType) -> bool {
    join_type is Left || join_type is Full
}

/// Rows of the right input can go unmatched on the left, which extends the left
/// side with NULLs.
pub open spec fn extends_left(join_type: StoredJoinType) -> bool {
    join_type is Right || join_type is Full
}

/// Adds the ranges of a `FROM` clause to those before it.
pub open spec fn with_ranges(
    from: StoredFrom,
    null_extended: bool,
    ranges: Ranges,
    depth: nat,
) -> core::result::Result<Ranges, ErrorView>
    decreases from,
{
    if depth >= MAX_STORED_QUERY_DEPTH {
        Err(
            error::plan_error(
                SqlState::ProgramLimitExceeded,
                "stored query FROM clause exceeds nesting limit"@,
            ),
        )
    } else {
        match from {
            StoredFrom::Join { left, right, join_type, .. } => match with_ranges(
                *left,
                null_extended || extends_left(join_type),
                ranges,
                depth + 1,
            ) {
                Ok(ranges) => with_ranges(
                    *right,
                    null_extended || extends_right(join_type),
                    ranges,
                    depth + 1,
                ),
                Err(error) => Err(error),
            },
            _ => {
                let range = range_of(from)->0;
                let target = target_of(from, null_extended)->0;
                if target is Position && !wire_types_refine(target->columns) {
                    Err(
                        error::internal_error(
                            "stored query range has inconsistent PostgreSQL type metadata"@,
                        ),
                    )
                } else if ranges.contains_key(range) {
                    Err(error::internal_error("stored query contains duplicate range id"@))
                } else {
                    Ok(ranges.insert(range, target))
                }
            },
        }
    }
}

/// The ranges that are in `within` and not in `outside` come to stand on the optional
/// side of an outer join.
pub open spec fn extended_between(
    ranges: Ranges,
    within: Set<BindingId>,
    outside: Set<BindingId>,
) -> Ranges {
    Map::new(
        |id: BindingId| ranges.contains_key(id),
        |id: BindingId|
            if within.contains(id) && !outside.contains(id) {
                ranges[id].extended()
            } else {
                ranges[id]
            },
    )
}

/// The entries of a table as a map; of two entries with one id the later counts.
spec fn entries_map(
    entries: Seq<(BindingId, StoredRangeTarget<'_>)>,
) -> Ranges
    decreases entries.len(),
{
    if entries.len() == 0 {
        Map::empty()
    } else {
        entries_map(entries.drop_last()).insert(entries.last().0, entries.last().1@)
    }
}

/// No id occurs twice.
spec fn ids_are_distinct(
    entries: Seq<(BindingId, StoredRangeTarget<'_>)>,
) -> bool {
    forall|i: int, j: int|
        0 <= i < j < entries.len() ==> (#[trigger] entries[i]).0 != (#[trigger] entries[j]).0
}

/// A table of ranges.
pub struct RangeTable<'a> {
    entries: Vec<(BindingId, StoredRangeTarget<'a>)>,
}

impl<'a> View for RangeTable<'a> {
    type V = Ranges;

    closed spec fn view(&self) -> Ranges {
        entries_map(self.entries@)
    }
}

proof fn lemma_entries(entries: Seq<(BindingId, StoredRangeTarget<'_>)>)
    requires
        ids_are_distinct(entries),
    ensures
        entries_map(entries).dom().finite(),
        entries_map(entries).len() == entries.len(),
        forall|i: int|
            0 <= i < entries.len() ==> entries_map(entries).contains_key(
                (#[trigger] entries[i]).0,
            ) && entries_map(entries)[entries[i].0] == entries[i].1@,
        forall|id: BindingId| #[trigger]
            entries_map(entries).contains_key(id) ==> exists|i: int|
                0 <= i < entries.len() && (#[trigger] entries[i]).0 == id,
    decreases entries.len(),
{
    if entries.len() > 0 {
        let before = entries.drop_last();
        lemma_entries(before);
        let last = entries.last();
        assert(!entries_map(before).contains_key(last.0)) by {
            if entries_map(before).contains_key(last.0) {
                let i = choose|i: int| 0 <= i < before.len() && (#[trigger] before[i]).0 == last.0;
                assert(entries[i].0 == entries[entries.len() - 1].0);
            }
        }
        assert forall|i: int| 0 <= i < entries.len() implies entries_map(entries).contains_key(
            (#[trigger] entries[i]).0,
        ) && entries_map(entries)[entries[i].0] == entries[i].1@ by {
            if i < before.len() {
                assert(before[i] == entries[i]);
            }
        }
        assert forall|id: BindingId| #[trigger]
            entries_map(entries).contains_key(id) implies exists|i: int|
            0 <= i < entries.len() && (#[trigger] entries[i]).0 == id by {
            if id == last.0 {
                assert(entries[entries.len() - 1].0 == id);
            } else {
                let i = choose|i: int| 0 <= i < before.len() && (#[trigger] before[i]).0 == id;
                assert(entries[i].0 == id);
            }
        }
    }
}

impl<'a> RangeTable<'a> {
    pub(crate) closed spec fn well_formed(self) -> bool {
        ids_are_distinct(self.entries@)
    }

    pub(crate) fn new() -> (table: Self)
        ensures
            table.well_formed(),
            table@ == Map::<BindingId, RangeTarget>::empty(),
    {
        RangeTable { entries: Vec::new() }
    }

    pub(crate) fn len(&self) -> (len: usize)
        requires
            self.well_formed(),
        ensures
            len == self@.len(),
            self@.dom().finite(),
    {
        proof {
            lemma_entries(self.entries@);
        }
        self.entries.len()
    }

    /// The position of the entry for an id.
    fn position(&self, id: BindingId) -> (position: Option<usize>)
        requires
            self.well_formed(),
        ensures
            match position {
                Some(position) => position < self.entries@.len()
                    && self.entries@[position as int].0 == id && self@.contains_key(id)
                    && self@[id] == self.entries@[position as int].1@,
                None => !self@.contains_key(id) && forall|i: int|
                    0 <= i < self.entries@.len() ==> (#[trigger] self.entries@[i]).0 != id,
            },
    {
        proof {
            lemma_entries(self.entries@);
        }
        let mut i: usize = 0;
        while i < self.entries.len()
            invariant
                i <= self.entries@.len(),
                forall|j: int| 0 <= j < i ==> (#[trigger] self.entries@[j]).0 != id,
                forall|j: int|
                    0 <= j < self.entries@.len() ==> self@.contains_key(
                        (#[trigger] self.entries@[j]).0,
                    ) && self@[self.entries@[j].0] == self.entries@[j].1@,
            decreases self.entries@.len() - i,
        {
            if self.entries[i].0 == id {
                return Some(i);
            }
            i += 1;
        }
        None
    }

    pub(crate) fn get(&self, id: BindingId) -> (target: Option<StoredRangeTarget<'a>>)
        requires
            self.well_formed(),
        ensures
            match target {
                Some(target) => self@.contains_key(id) && self@[id] == target@,
                None => !self@.contains_key(id),
            },
    {
        match self.position(id) {
            Some(position) => Some(self.entries[position].1),
            None => None,
        }
    }

    /// Adds or replaces an entry and tells whether the id was new.
    pub(crate) fn insert(&mut self, id: BindingId, target: StoredRangeTarget<'a>) -> (added: bool)
        requires
            old(self).well_formed(),
        ensures
            final(self).well_formed(),
            final(self)@ == old(self)@.insert(id, target@),
            added == !old(self)@.contains_key(id),
    {
        let ghost before = self.entries@;
        proof {
            lemma_entries(before);
        }
        match self.position(id) {
            Some(position) => {
                self.entries.set(position, (id, target));
                proof {
                    let after = self.entries@;
                    assert(ids_are_distinct(after)) by {
                        assert forall|i: int, j: int| 0 <= i < j < after.len() implies (
                        #[trigger] after[i]).0 != (#[trigger] after[j]).0 by {
                            assert(before[i].0 != before[j].0);
                        }
                    }
                    lemma_entries(after);
                    assert(entries_map(after) =~= entries_map(before).insert(id, target@)) by {
                        assert forall|x: BindingId|
                            entries_map(after).contains_key(x) <==> entries_map(
                                before,
                            ).contains_key(x) by {
                            if entries_map(after).contains_key(x) {
                                let i = choose|i: int|
                                    0 <= i < after.len() && (#[trigger] after[i]).0 == x;
                                assert(before[i].0 == x);
                            }
                            if entries_map(before).contains_key(x) {
                                let i = choose|i: int|
                                    0 <= i < before.len() && (#[trigger] before[i]).0 == x;
                                assert(after[i].0 == x);
                            }
                        }
                        assert forall|x: BindingId| entries_map(before).contains_key(x) && x
                            != id implies entries_map(after)[x] == entries_map(before)[x] by {
                            let i = choose|i: int|
                                0 <= i < before.len() && (#[trigger] before[i]).0 == x;
                            assert(after[i] == before[i]);
                        }
                        assert(after[position as int].0 == id);
                    }
                }
                false
            },
            None => {
                self.entries.push((id, target));
                proof {
                    assert(self.entries@.drop_last() == before);
                    assert(ids_are_distinct(self.entries@));
                }
                true
            },
        }
    }

    /// The entries of this table, overridden by those of another.
    pub(crate) fn overridden_by(&self, other: &RangeTable<'a>) -> (joined: RangeTable<'a>)
        requires
            self.well_formed(),
            other.well_formed(),
        ensures
            joined.well_formed(),
            joined@ == self@.union_prefer_right(other@),
    {
        let mut joined: RangeTable<'a> = self.copied();
        let mut i: usize = 0;
        assert(joined@ =~= self@.union_prefer_right(entries_map(other.entries@.take(0))));
        while i < other.entries.len()
            invariant
                i <= other.entries@.len(),
                joined.well_formed(),
                joined@ == self@.union_prefer_right(entries_map(other.entries@.take(i as int))),
            decreases other.entries@.len() - i,
        {
            let (id, target): (BindingId, StoredRangeTarget<'a>) = other.entries[i];
            joined.insert(id, target);
            i += 1;
            proof {
                let now = other.entries@.take(i as int);
                assert(now.drop_last() == other.entries@.take(i - 1));
                assert(joined@ =~= self@.union_prefer_right(entries_map(now)));
            }
        }
        assert(other.entries@.take(i as int) == other.entries@);
        joined
    }

    /// Moves the ranges that are in `within` and not in `outside` to the optional side
    /// of an outer join.
    pub(crate) fn extend_between(&mut self, within: &RangeTable<'a>, outside: &RangeTable<'a>)
        requires
            old(self).well_formed(),
            within.well_formed(),
            outside.well_formed(),
        ensures
            final(self).well_formed(),
            final(self)@ == extended_between(old(self)@, within@.dom(), outside@.dom()),
    {
        let ghost before = self.entries@;
        proof {
            lemma_entries(before);
        }
        let mut i: usize = 0;
        while i < self.entries.len()
            invariant
                i <= self.entries@.len(),
                within.well_formed(),
                outside.well_formed(),
                self.entries@.len() == before.len(),
                forall|j: int| 0 <= j < before.len() ==> (#[trigger] self.entries@[j]).0 == before[j].0,
                forall|j: int|
                    i <= j < before.len() ==> (#[trigger] self.entries@[j]).1 == before[j].1,
                forall|j: int|
                    0 <= j < i ==> (#[trigger] self.entries@[j]).1@ == if within@.dom().contains(
                        before[j].0,
                    ) && !outside@.dom().contains(before[j].0) {
                        before[j].1@.extended()
                    } else {
                        before[j].1@
                    },
            decreases self.entries@.len() - i,
        {
            let (id, target): (BindingId, StoredRangeTarget<'a>) = self.entries[i];
            if within.get(id).is_some() && outside.get(id).is_none() {
                let extended: StoredRangeTarget<'a> = match target {
                    StoredRangeTarget::Catalog { table, .. } => StoredRangeTarget::Catalog {
                        table,
                        null_extended: true,
                    },
                    StoredRangeTarget::Position { columns, .. } => StoredRangeTarget::Position {
                        columns,
                        null_extended: true,
                    },
                };
                self.entries.set(i, (id, extended));
            }
            i += 1;
        }
        proof {
            let after = self.entries@;
            assert(ids_are_distinct(after)) by {
                assert forall|i: int, j: int| 0 <= i < j < after.len() implies (
                #[trigger] after[i]).0 != (#[trigger] after[j]).0 by {
                    assert(before[i].0 != before[j].0);
                }
            }
            lemma_entries(after);
            let marked = extended_between(entries_map(before), within@.dom(), outside@.dom());
            assert forall|id: BindingId|
                entries_map(after).contains_key(id) <==> marked.contains_key(id) by {
                if entries_map(after).contains_key(id) {
                    let i = choose|i: int| 0 <= i < after.len() && (#[trigger] after[i]).0 == id;
                    assert(before[i].0 == id);
                }
                if entries_map(before).contains_key(id) {
                    let i = choose|i: int| 0 <= i < before.len() && (#[trigger] before[i]).0 == id;
                    assert(after[i].0 == id);
                }
            }
            assert forall|id: BindingId| marked.contains_key(id) implies entries_map(after)[id]
                == marked[id] by {
                let i = choose|i: int| 0 <= i < before.len() && (#[trigger] before[i]).0 == id;
                assert(after[i].0 == id);
            }
            assert(entries_map(after) =~= marked);
        }
    }

    pub(crate) fn copied(&self) -> (copy: RangeTable<'a>)
        requires
            self.well_formed(),
        ensures
            copy.well_formed(),
            copy@ == self@,
    {
        let mut entries: Vec<(BindingId, StoredRangeTarget<'a>)> = Vec::new();
        let mut i: usize = 0;
        while i < self.entries.len()
            invariant
                i <= self.entries@.len(),
                entries@ == self.entries@.take(i as int),
            decreases self.entries@.len() - i,
        {
            entries.push(self.entries[i]);
            i += 1;
        }
        assert(entries@ == self.entries@);
        RangeTable { entries }
    }
}

fn duplicate_range() -> (error: DbError)
    ensures
        error@ == error::internal_error("stored query contains duplicate range id"@),
{
    DbError::internal("stored query contains duplicate range id")
}

/// Adds the ranges of a `FROM` clause to those before it.
pub(crate) fn collect_ranges<'a>(
    from: &'a StoredFrom,
    null_extended: bool,
    ranges: &mut RangeTable<'a>,
    depth: usize,
) -> (result: Result<()>)
    requires
        old(ranges).well_formed(),
    ensures
        final(ranges).well_formed(),
        match result {
            Ok(_) => with_ranges(*from, null_extended, old(ranges)@, depth as nat) == Ok::<
                Ranges,
                ErrorView,
            >(final(ranges)@),
            Err(error) => with_ranges(*from, null_extended, old(ranges)@, depth as nat) == Err::<
                Ranges,
                ErrorView,
            >(error@),
        },
    decreases *from,
{
    if depth >= MAX_STORED_QUERY_DEPTH {
        return Err(
            DbError::plan(
                SqlState::ProgramLimitExceeded,
                "stored query FROM clause exceeds nesting limit",
            ),
        );
    }
    let (range, target): (BindingId, StoredRangeTarget<'a>) = match from {
        StoredFrom::Table { table, range, .. } => (
            *range,
            StoredRangeTarget::Catalog { table: *table, null_extended },
        ),
        StoredFrom::System { range, schema, .. }
        | StoredFrom::Derived { range, schema, .. }
        | StoredFrom::TableFunction { range, schema, .. } => {
            if !do_wire_types_refine(schema) {
                return Err(
                    DbError::internal(
                        "stored query range has inconsistent PostgreSQL type metadata",
                    ),
                );
            }
            (*range, StoredRangeTarget::Position { columns: schema, null_extended })
        },
        StoredFrom::Join { left, right, join_type, .. } => {
            let left_extended: bool = null_extended || matches!(
                join_type,
                StoredJoinType::Right | StoredJoinType::Full
            );
            let right_extended: bool = null_extended || matches!(
                join_type,
                StoredJoinType::Left | StoredJoinType::Full
            );
            if let Err(error) = collect_ranges(left, left_extended, ranges, depth + 1) {
                return Err(error);
            }
            return collect_ranges(right, right_extended, ranges, depth + 1);
        },
    };
    if !ranges.insert(range, target) {
        return Err(duplicate_range());
    }
    Ok(())
}

} // verus!
