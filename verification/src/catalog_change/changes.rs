//! Durable, object-typed catalog mutations shared by live DDL and recovery.

use std::collections::BTreeMap;

use vstd::prelude::*;

use crate::catalog_change::objects::{self, CatalogObject, CatalogObjectMap};
use crate::catalog_change::{self, CatalogObjectId};
use crate::ids::{
    ColumnObjectId, ConstraintId, FileId, IndexId, SchemaId, SequenceId, TableId,
};

verus! {

broadcast use vstd::std_specs::btree::group_btree_axioms;

pub const CATALOG_CHANGE_SET_VERSION: u16 = 1;

pub const MAX_CATALOG_CHANGE_MUTATIONS: usize = 65_536;

/// One object before and after a change. A missing object is one that did not exist.
#[derive(Clone, Debug, PartialEq, Eq)]
pub struct CatalogMutation {
    pub before: Option<CatalogObject>,
    pub after: Option<CatalogObject>,
}

impl CatalogMutation {
    /// The object that the mutation is about: that of its result, or else that of its
    /// start.
    pub open spec fn spec_id(self) -> Option<CatalogObjectId> {
        match (self.after, self.before) {
            (Some(after), _) => Some(after.spec_id()),
            (None, Some(before)) => Some(before.spec_id()),
            (None, None) => None,
        }
    }

    pub fn id(&self) -> (id: Option<CatalogObjectId>)
        ensures
            id == self.spec_id(),
    {
        match (&self.after, &self.before) {
            (Some(after), _) => Some(after.id()),
            (None, Some(before)) => Some(before.id()),
            (None, None) => None,
        }
    }

    /// What is wrong with the mutation itself, in the order of the tests.
    pub open spec fn problem(self) -> Option<Seq<char>> {
        if self.spec_id() is None {
            Some("catalog mutation has neither a before nor an after object"@)
        } else if !(objects::has_id(self.before, self.spec_id()->0) && objects::has_id(
            self.after,
            self.spec_id()->0,
        )) {
            Some("catalog mutation before/after object ids differ"@)
        } else if objects::same_object(self.before, self.after) {
            Some("catalog mutation does not change its object"@)
        } else if !(objects::is_finite_object(self.before) && objects::is_finite_object(
            self.after,
        )) {
            Some("catalog change contains non-finite statistics"@)
        } else if objects::is_constraint(self.before) || objects::is_constraint(self.after) {
            Some("catalog constraint objects are not supported by this format version"@)
        } else {
            None
        }
    }

    fn find_problem(&self) -> (found: Option<&'static str>)
        ensures
            match found {
                Some(message) => self.problem() == Some(message@),
                None => self.problem() is None,
            },
    {
        let id = match self.id() {
            Some(id) => id,
            None => return Some("catalog mutation has neither a before nor an after object"),
        };
        if !objects::object_has_id(&self.before, &id) || !objects::object_has_id(
            &self.after,
            &id,
        ) {
            return Some("catalog mutation before/after object ids differ");
        }
        if objects::is_same_object(&self.before, &self.after) {
            return Some("catalog mutation does not change its object");
        }
        if !objects::object_is_finite(&self.before) || !objects::object_is_finite(&self.after) {
            return Some("catalog change contains non-finite statistics");
        }
        if objects::object_is_constraint(&self.before) || objects::object_is_constraint(
            &self.after,
        ) {
            return Some("catalog constraint objects are not supported by this format version");
        }
        None
    }
}

/// Allocator reservation carried even by catalog changes whose transaction
/// later aborts. Per-relation column high-water values preserve stable column
/// identities without making columns top-level objects.
#[derive(Clone, Debug, PartialEq, Eq)]
pub struct CatalogAllocatorHighWater {
    pub next_schema_id: SchemaId,
    pub next_table_id: TableId,
    pub next_index_id: IndexId,
    pub next_sequence_id: SequenceId,
    pub next_dictionary_id: u32,
    pub next_storage_id: FileId,
    pub next_constraint_id: ConstraintId,
    pub next_column_object_ids: BTreeMap<TableId, ColumnObjectId>,
    pub next_foreign_key_ids: BTreeMap<TableId, u32>,
}

impl Default for CatalogAllocatorHighWater {
    fn default() -> (high_water: Self)
        ensures
            high_water.next_schema_id == 0,
            high_water.next_table_id == 0,
            high_water.next_index_id == 0,
            high_water.next_sequence_id == 0,
            high_water.next_dictionary_id == 0,
            high_water.next_storage_id == 0,
            high_water.next_constraint_id == 0,
            high_water.next_column_object_ids@ == Map::<TableId, ColumnObjectId>::empty(),
            high_water.next_foreign_key_ids@ == Map::<TableId, u32>::empty(),
    {
        CatalogAllocatorHighWater {
            next_schema_id: 0,
            next_table_id: 0,
            next_index_id: 0,
            next_sequence_id: 0,
            next_dictionary_id: 0,
            next_storage_id: 0,
            next_constraint_id: 0,
            next_column_object_ids: BTreeMap::new(),
            next_foreign_key_ids: BTreeMap::new(),
        }
    }
}

/// The limits of an allocator map while its entries are read.
pub open spec fn allocator_problem(
    high_water: Map<TableId, u32>,
    relation: TableId,
    too_many: Seq<char>,
    repeats: Seq<char>,
) -> Option<Seq<char>> {
    if high_water.len() == MAX_CATALOG_CHANGE_MUTATIONS {
        Some(too_many)
    } else if high_water.contains_key(relation) {
        Some(repeats)
    } else {
        None
    }
}

fn add_allocator(
    high_water: &mut BTreeMap<TableId, u32>,
    relation: TableId,
    next: u32,
    too_many: &'static str,
    repeats: &'static str,
) -> (result: core::result::Result<(), &'static str>)
    ensures
        match result {
            Ok(()) => allocator_problem(old(high_water)@, relation, too_many@, repeats@) is None
                && final(high_water)@ == old(high_water)@.insert(relation, next),
            Err(message) => allocator_problem(old(high_water)@, relation, too_many@, repeats@)
                == Some(message@) && final(high_water)@ == old(high_water)@,
        },
{
    if high_water.len() == MAX_CATALOG_CHANGE_MUTATIONS {
        return Err(too_many);
    }
    if high_water.contains_key(&relation) {
        return Err(repeats);
    }
    let _ = high_water.insert(relation, next);
    Ok(())
}

impl CatalogAllocatorHighWater {
    /// Takes one decoded column allocator, unless there are too many or it was there.
    pub fn add_column_allocator(
        high_water: &mut BTreeMap<TableId, ColumnObjectId>,
        relation: TableId,
        column: ColumnObjectId,
    ) -> (result: core::result::Result<(), &'static str>)
        ensures
            match result {
                Ok(()) => allocator_problem(
                    old(high_water)@,
                    relation,
                    "catalog change set has too many column allocators"@,
                    "catalog change set repeats a column allocator"@,
                ) is None && final(high_water)@ == old(high_water)@.insert(relation, column),
                Err(message) => allocator_problem(
                    old(high_water)@,
                    relation,
                    "catalog change set has too many column allocators"@,
                    "catalog change set repeats a column allocator"@,
                ) == Some(message@) && final(high_water)@ == old(high_water)@,
            },
    {
        add_allocator(
            high_water,
            relation,
            column,
            "catalog change set has too many column allocators",
            "catalog change set repeats a column allocator",
        )
    }

    /// Takes one decoded foreign-key allocator, unless there are too many or it was
    /// there.
    pub fn add_foreign_key_allocator(
        high_water: &mut BTreeMap<TableId, u32>,
        relation: TableId,
        next_foreign_key: u32,
    ) -> (result: core::result::Result<(), &'static str>)
        ensures
            match result {
                Ok(()) => allocator_problem(
                    old(high_water)@,
                    relation,
                    "catalog change set has too many foreign-key allocators"@,
                    "catalog change set repeats a foreign-key allocator"@,
                ) is None && final(high_water)@ == old(high_water)@.insert(
                    relation,
                    next_foreign_key,
                ),
                Err(message) => allocator_problem(
                    old(high_water)@,
                    relation,
                    "catalog change set has too many foreign-key allocators"@,
                    "catalog change set repeats a foreign-key allocator"@,
                ) == Some(message@) && final(high_water)@ == old(high_water)@,
            },
    {
        add_allocator(
            high_water,
            relation,
            next_foreign_key,
            "catalog change set has too many foreign-key allocators",
            "catalog change set repeats a foreign-key allocator",
        )
    }
}

/// The catalog changes of one transaction, in the order of the objects' identities.
#[derive(Clone, Debug, PartialEq, Eq)]
pub struct CatalogChangeSet {
    pub version: u16,
    pub mutations: Vec<CatalogMutation>,
    pub allocator_high_water: CatalogAllocatorHighWater,
}

/// The value of an object, if there is one.
pub open spec fn value_in(
    objects: Map<CatalogObjectId, CatalogObject>,
    id: CatalogObjectId,
) -> Option<CatalogObject> {
    if objects.contains_key(id) {
        Some(objects[id])
    } else {
        None
    }
}

/// The object has another value after than before.
pub open spec fn differs(
    before: Map<CatalogObjectId, CatalogObject>,
    after: Map<CatalogObjectId, CatalogObject>,
    id: CatalogObjectId,
) -> bool {
    !objects::same_object(value_in(before, id), value_in(after, id))
}

/// What happens to one object.
pub open spec fn mutation_of(
    before: Map<CatalogObjectId, CatalogObject>,
    after: Map<CatalogObjectId, CatalogObject>,
    id: CatalogObjectId,
) -> CatalogMutation {
    CatalogMutation { before: value_in(before, id), after: value_in(after, id) }
}

/// The mutations are those of the objects that differ, in order.
pub open spec fn are_changes_between(
    before: Map<CatalogObjectId, CatalogObject>,
    after: Map<CatalogObjectId, CatalogObject>,
    ids: Seq<CatalogObjectId>,
    mutations: Seq<CatalogMutation>,
) -> bool {
    &&& catalog_change::ascending(ids)
    &&& forall|id: CatalogObjectId| #[trigger]
        ids.contains(id) <==> differs(before, after, id)
    &&& mutations == Seq::new(ids.len(), |i: int| mutation_of(before, after, ids[i]))
}

/// What is wrong with the mutations from `start` on, the first problem first.
pub open spec fn first_problem(mutations: Seq<CatalogMutation>, start: nat) -> Option<Seq<char>>
    decreases mutations.len() - start,
{
    if start >= mutations.len() {
        None
    } else if mutations[start as int].problem() is Some {
        mutations[start as int].problem()
    } else if start > 0 && !mutations[start - 1].spec_id()->0.precedes(
        mutations[start as int].spec_id()->0,
    ) {
        Some("catalog mutations are not strictly object-id sorted"@)
    } else {
        first_problem(mutations, start + 1)
    }
}

impl CatalogChangeSet {
    /// What is wrong with the change set, in the order of the tests.
    pub open spec fn shape_problem(self) -> Option<Seq<char>> {
        if self.version != CATALOG_CHANGE_SET_VERSION {
            Some("unsupported catalog change-set version"@)
        } else if self.mutations@.len() > MAX_CATALOG_CHANGE_MUTATIONS {
            Some("catalog change set has too many mutations"@)
        } else if self.allocator_high_water.next_column_object_ids@.len()
            > MAX_CATALOG_CHANGE_MUTATIONS {
            Some("catalog change set has too many column allocators"@)
        } else if self.allocator_high_water.next_foreign_key_ids@.len()
            > MAX_CATALOG_CHANGE_MUTATIONS {
            Some("catalog change set has too many foreign-key allocators"@)
        } else {
            first_problem(self.mutations@, 0)
        }
    }

    pub fn validate_shape(&self) -> (result: core::result::Result<(), &'static str>)
        ensures
            match result {
                Ok(()) => self.shape_problem() is None,
                Err(message) => self.shape_problem() == Some(message@),
            },
    {
        if self.version != CATALOG_CHANGE_SET_VERSION {
            return Err("unsupported catalog change-set version");
        }
        if self.mutations.len() > MAX_CATALOG_CHANGE_MUTATIONS {
            return Err("catalog change set has too many mutations");
        }
        if self.allocator_high_water.next_column_object_ids.len() > MAX_CATALOG_CHANGE_MUTATIONS {
            return Err("catalog change set has too many column allocators");
        }
        if self.allocator_high_water.next_foreign_key_ids.len() > MAX_CATALOG_CHANGE_MUTATIONS {
            return Err("catalog change set has too many foreign-key allocators");
        }
        let mut previous: Option<CatalogObjectId> = None;
        let mut i: usize = 0;
        while i < self.mutations.len()
            invariant
                i <= self.mutations@.len(),
                i == 0 ==> previous is None,
                i > 0 ==> previous is Some && previous == self.mutations@[i - 1].spec_id(),
                self.shape_problem() == first_problem(self.mutations@, i as nat),
            decreases self.mutations@.len() - i,
        {
            let mutation = &self.mutations[i];
            if let Some(message) = mutation.find_problem() {
                return Err(message);
            }
            let id = mutation.id();
            if let (Some(earlier), Some(later)) = (&previous, &id) {
                if !earlier.is_before(later) {
                    return Err("catalog mutations are not strictly object-id sorted");
                }
            }
            previous = id;
            i += 1;
        }
        Ok(())
    }

    /// Builds a deterministic object-id-sorted change set from complete object maps.
    pub fn between(
        before: CatalogObjectMap,
        after: CatalogObjectMap,
        allocator_high_water: CatalogAllocatorHighWater,
    ) -> (changes: Self)
        ensures
            changes.version == CATALOG_CHANGE_SET_VERSION,
            changes.allocator_high_water == allocator_high_water,
            exists|ids: Seq<CatalogObjectId>|
                are_changes_between(before@, after@, ids, changes.mutations@),
    {
        let ghost left = before@;
        let ghost right = after@;
        let mut old_objects: Vec<(CatalogObjectId, CatalogObject)> = before.into_entries();
        let mut new_objects: Vec<(CatalogObjectId, CatalogObject)> = after.into_entries();
        let ghost a = old_objects@;
        let ghost b = new_objects@;
        let mut backwards: Vec<CatalogMutation> = Vec::new();
        let ghost mut done: Seq<CatalogObjectId> = Seq::empty();
        proof {
            assert(old_objects@ =~= a.take(a.len() as int));
            assert(new_objects@ =~= b.take(b.len() as int));
        }
        while old_objects.len() > 0 || new_objects.len() > 0
            invariant
                left == before@,
                right == after@,
                old_objects@.len() <= a.len(),
                new_objects@.len() <= b.len(),
                old_objects@ == a.take(old_objects@.len() as int),
                new_objects@ == b.take(new_objects@.len() as int),
                merging(
                    a,
                    b,
                    left,
                    right,
                    old_objects@.len() as int,
                    new_objects@.len() as int,
                    done,
                ),
                backwards@ == Seq::new(done.len(), |i: int| mutation_of(left, right, done[i])),
            decreases old_objects@.len() + new_objects@.len(),
        {
            let ghost i = old_objects@.len() as int;
            let ghost j = new_objects@.len() as int;
            let take_old: bool = if new_objects.len() == 0 {
                true
            } else if old_objects.len() == 0 {
                false
            } else {
                !old_objects[old_objects.len() - 1].0.is_before(
                    &new_objects[new_objects.len() - 1].0,
                )
            };
            let take_new: bool = if old_objects.len() == 0 {
                true
            } else if new_objects.len() == 0 {
                false
            } else {
                !new_objects[new_objects.len() - 1].0.is_before(
                    &old_objects[old_objects.len() - 1].0,
                )
            };
            let before_object: Option<CatalogObject> = if take_old {
                match old_objects.pop() {
                    Some((_, object)) => Some(object),
                    None => None,
                }
            } else {
                None
            };
            let after_object: Option<CatalogObject> = if take_new {
                match new_objects.pop() {
                    Some((_, object)) => Some(object),
                    None => None,
                }
            } else {
                None
            };
            let ghost id = if take_old {
                a[i - 1].0
            } else {
                b[j - 1].0
            };
            proof {
                lemma_merge_step(a, b, left, right, i, j, done, take_old, take_new);
                assert(old_objects@ =~= a.take(old_objects@.len() as int));
                assert(new_objects@ =~= b.take(new_objects@.len() as int));
                assert(before_object == value_in(left, id));
                assert(after_object == value_in(right, id));
            }
            if !objects::is_same_object(&before_object, &after_object) {
                let mutation = CatalogMutation { before: before_object, after: after_object };
                backwards.push(mutation);
                proof {
                    done = done.push(id);
                    assert(backwards@ =~= Seq::new(
                        done.len(),
                        |i: int| mutation_of(left, right, done[i]),
                    ));
                }
            }
        }
        let ghost ids = done.reverse();
        let ghost count = done.len();
        proof {
            lemma_merged(a, b, left, right, done);
        }
        let mut mutations: Vec<CatalogMutation> = Vec::new();
        proof {
            assert(backwards@ =~= Seq::new(
                (count - mutations@.len()) as nat,
                |i: int| mutation_of(left, right, done[i]),
            ));
        }
        while backwards.len() > 0
            invariant
                count == done.len(),
                ids == done.reverse(),
                left == before@,
                right == after@,
                mutations@.len() + backwards@.len() == count,
                backwards@ == Seq::new(
                    backwards@.len(),
                    |i: int| mutation_of(left, right, done[i]),
                ),
                mutations@ == Seq::new(
                    mutations@.len(),
                    |i: int| mutation_of(left, right, ids[i]),
                ),
            decreases backwards@.len(),
        {
            let ghost rest = backwards@;
            if let Some(mutation) = backwards.pop() {
                proof {
                    assert(rest.last() == mutation_of(left, right, done[rest.len() - 1]));
                    assert(ids[mutations@.len() as int] == done[rest.len() - 1]);
                    assert(backwards@ =~= Seq::new(
                        backwards@.len(),
                        |i: int| mutation_of(left, right, done[i]),
                    )) by {
                        assert forall|k: int| 0 <= k < backwards@.len() implies backwards@[k]
                            == mutation_of(left, right, done[k]) by {
                            assert(backwards@[k] == rest[k]);
                        }
                    }
                }
                let ghost so_far = mutations@;
                mutations.push(mutation);
                proof {
                    assert(mutations@ =~= Seq::new(
                        mutations@.len(),
                        |i: int| mutation_of(left, right, ids[i]),
                    )) by {
                        assert forall|k: int| 0 <= k < mutations@.len() implies mutations@[k]
                            == mutation_of(left, right, ids[k]) by {
                            if k < so_far.len() {
                                assert(mutations@[k] == so_far[k]);
                            }
                        }
                    }
                }
            }
        }
        proof {
            assert(mutations@.len() == ids.len());
            assert(are_changes_between(left, right, ids, mutations@));
        }
        let changes = CatalogChangeSet {
            version: CATALOG_CHANGE_SET_VERSION,
            mutations,
            allocator_high_water,
        };
        assert(are_changes_between(before@, after@, ids, changes.mutations@));
        changes
    }
}

/// The entries of `a` from `i` on and of `b` from `j` on have been dealt with: `done`
/// holds, in descending order, those of them that differ, and they all follow the rest.
spec fn merging(
    a: Seq<(CatalogObjectId, CatalogObject)>,
    b: Seq<(CatalogObjectId, CatalogObject)>,
    left: Map<CatalogObjectId, CatalogObject>,
    right: Map<CatalogObjectId, CatalogObject>,
    i: int,
    j: int,
    done: Seq<CatalogObjectId>,
) -> bool {
    &&& 0 <= i <= a.len()
    &&& 0 <= j <= b.len()
    &&& objects::is_map_of(left, a)
    &&& objects::is_map_of(right, b)
    &&& forall|x: int, y: int|
        0 <= x < i && j <= y < b.len() ==> (#[trigger] a[x]).0.precedes((#[trigger] b[y]).0)
    &&& forall|x: int, y: int|
        i <= x < a.len() && 0 <= y < j ==> (#[trigger] b[y]).0.precedes((#[trigger] a[x]).0)
    &&& forall|x: int, y: int|
        0 <= x < y < done.len() ==> (#[trigger] done[y]).precedes(#[trigger] done[x])
    &&& forall|x: int, k: int|
        0 <= x < i && 0 <= k < done.len() ==> (#[trigger] a[x]).0.precedes(#[trigger] done[k])
    &&& forall|y: int, k: int|
        0 <= y < j && 0 <= k < done.len() ==> (#[trigger] b[y]).0.precedes(#[trigger] done[k])
    &&& forall|id: CatalogObjectId| #[trigger]
        done.contains(id) <==> differs(left, right, id) && (objects::is_key_from(a, i, id)
            || objects::is_key_from(b, j, id))
}

proof fn lemma_merge_step(
    a: Seq<(CatalogObjectId, CatalogObject)>,
    b: Seq<(CatalogObjectId, CatalogObject)>,
    left: Map<CatalogObjectId, CatalogObject>,
    right: Map<CatalogObjectId, CatalogObject>,
    i: int,
    j: int,
    done: Seq<CatalogObjectId>,
    take_old: bool,
    take_new: bool,
)
    requires
        merging(a, b, left, right, i, j, done),
        i > 0 || j > 0,
        take_old == (i > 0 && (j == 0 || !a[i - 1].0.precedes(b[j - 1].0))),
        take_new == (j > 0 && (i == 0 || !b[j - 1].0.precedes(a[i - 1].0))),
    ensures
        take_old || take_new,
        ({
            let id = if take_old {
                a[i - 1].0
            } else {
                b[j - 1].0
            };
            let next_i = if take_old {
                i - 1
            } else {
                i
            };
            let next_j = if take_new {
                j - 1
            } else {
                j
            };
            let next = if differs(left, right, id) {
                done.push(id)
            } else {
                done
            };
            &&& value_in(left, id) == (if take_old {
                Some(a[i - 1].1)
            } else {
                None
            })
            &&& value_in(right, id) == (if take_new {
                Some(b[j - 1].1)
            } else {
                None
            })
            &&& merging(a, b, left, right, next_i, next_j, next)
        }),
{
    if i > 0 && j > 0 {
        CatalogObjectId::order_is_total(a[i - 1].0, b[j - 1].0);
    }
    let id = if take_old {
        a[i - 1].0
    } else {
        b[j - 1].0
    };
    let next_i = if take_old {
        i - 1
    } else {
        i
    };
    let next_j = if take_new {
        j - 1
    } else {
        j
    };
    let next = if differs(left, right, id) {
        done.push(id)
    } else {
        done
    };
    if !take_old {
        if left.contains_key(id) {
            let x = choose|x: int| 0 <= x < a.len() && (#[trigger] a[x]).0 == id;
            assert(a[x].0 == id);
            if x < i {
                assert(x == i - 1 || a[x].0.precedes(a[i - 1].0));
                assert(a[i - 1].0.precedes(id));
            } else {
                assert(b[j - 1].0.precedes(a[x].0));
            }
            assert(false);
        }
    }
    if !take_new {
        if right.contains_key(id) {
            let y = choose|y: int| 0 <= y < b.len() && (#[trigger] b[y]).0 == id;
            assert(b[y].0 == id);
            if y < j {
                assert(y == j - 1 || b[y].0.precedes(b[j - 1].0));
                assert(b[j - 1].0.precedes(id));
            } else {
                assert(a[i - 1].0.precedes(b[y].0));
            }
            assert(false);
        }
    }
    lemma_merge_order(a, b, left, right, i, j, done, take_old, take_new);
    assert forall|other: CatalogObjectId| #[trigger]
        next.contains(other) <==> differs(left, right, other) && (objects::is_key_from(
            a,
            next_i,
            other,
        ) || objects::is_key_from(b, next_j, other)) by {
        if done.contains(other) {
            let k = choose|k: int| 0 <= k < done.len() && done[k] == other;
            assert(next[k] == other);
            assert(objects::is_key_from(a, i, other) ==> objects::is_key_from(a, next_i, other));
            assert(objects::is_key_from(b, j, other) ==> objects::is_key_from(b, next_j, other));
        }
        if other == id {
            if take_old {
                assert(a[i - 1].0 == id);
                assert(objects::is_key_from(a, next_i, other));
            } else {
                assert(b[j - 1].0 == id);
                assert(objects::is_key_from(b, next_j, other));
            }
            if differs(left, right, id) {
                assert(next[done.len() as int] == id);
            }
        } else {
            if objects::is_key_from(a, next_i, other) {
                assert(objects::is_key_from(a, i, other));
            }
            if objects::is_key_from(b, next_j, other) {
                assert(objects::is_key_from(b, j, other));
            }
            if next.contains(other) {
                let k = choose|k: int| 0 <= k < next.len() && next[k] == other;
                assert(done[k] == other);
            }
        }
    }
}

proof fn lemma_merge_order(
    a: Seq<(CatalogObjectId, CatalogObject)>,
    b: Seq<(CatalogObjectId, CatalogObject)>,
    left: Map<CatalogObjectId, CatalogObject>,
    right: Map<CatalogObjectId, CatalogObject>,
    i: int,
    j: int,
    done: Seq<CatalogObjectId>,
    take_old: bool,
    take_new: bool,
)
    requires
        merging(a, b, left, right, i, j, done),
        i > 0 || j > 0,
        take_old == (i > 0 && (j == 0 || !a[i - 1].0.precedes(b[j - 1].0))),
        take_new == (j > 0 && (i == 0 || !b[j - 1].0.precedes(a[i - 1].0))),
    ensures
        ({
            let id = if take_old {
                a[i - 1].0
            } else {
                b[j - 1].0
            };
            let next_i = if take_old {
                i - 1
            } else {
                i
            };
            let next_j = if take_new {
                j - 1
            } else {
                j
            };
            let next = if differs(left, right, id) {
                done.push(id)
            } else {
                done
            };
            &&& forall|x: int, y: int|
                0 <= x < next_i && next_j <= y < b.len() ==> (#[trigger] a[x]).0.precedes(
                    (#[trigger] b[y]).0,
                )
            &&& forall|x: int, y: int|
                next_i <= x < a.len() && 0 <= y < next_j ==> (#[trigger] b[y]).0.precedes(
                    (#[trigger] a[x]).0,
                )
            &&& forall|x: int, y: int|
                0 <= x < y < next.len() ==> (#[trigger] next[y]).precedes(#[trigger] next[x])
            &&& forall|x: int, k: int|
                0 <= x < next_i && 0 <= k < next.len() ==> (#[trigger] a[x]).0.precedes(
                    #[trigger] next[k],
                )
            &&& forall|y: int, k: int|
                0 <= y < next_j && 0 <= k < next.len() ==> (#[trigger] b[y]).0.precedes(
                    #[trigger] next[k],
                )
        }),
{
    if i > 0 && j > 0 {
        CatalogObjectId::order_is_total(a[i - 1].0, b[j - 1].0);
    }
    let id = if take_old {
        a[i - 1].0
    } else {
        b[j - 1].0
    };
    let next_i = if take_old {
        i - 1
    } else {
        i
    };
    let next_j = if take_new {
        j - 1
    } else {
        j
    };
    assert forall|x: int| 0 <= x < next_i implies (#[trigger] a[x]).0.precedes(id) by {
        if take_old {
            assert(a[x].0.precedes(a[i - 1].0));
        } else {
            assert(x == i - 1 || a[x].0.precedes(a[i - 1].0));
            assert(a[i - 1].0.precedes(b[j - 1].0));
        }
    }
    assert forall|y: int| 0 <= y < next_j implies (#[trigger] b[y]).0.precedes(id) by {
        if take_new {
            assert(b[y].0.precedes(b[j - 1].0));
        } else {
            assert(y == j - 1 || b[y].0.precedes(b[j - 1].0));
            assert(b[j - 1].0.precedes(a[i - 1].0));
        }
    }
    assert(take_new ==> b[j - 1].0 == id);
}

proof fn lemma_merged(
    a: Seq<(CatalogObjectId, CatalogObject)>,
    b: Seq<(CatalogObjectId, CatalogObject)>,
    left: Map<CatalogObjectId, CatalogObject>,
    right: Map<CatalogObjectId, CatalogObject>,
    done: Seq<CatalogObjectId>,
)
    requires
        merging(a, b, left, right, 0, 0, done),
    ensures
        catalog_change::ascending(done.reverse()),
        forall|id: CatalogObjectId| #[trigger]
            done.reverse().contains(id) <==> differs(left, right, id),
{
    let ids = done.reverse();
    assert forall|x: int, y: int| 0 <= x < y < ids.len() implies (#[trigger] ids[x]).precedes(
        #[trigger] ids[y],
    ) by {
        assert(done[done.len() - 1 - x].precedes(done[done.len() - 1 - y]));
    }
    assert forall|id: CatalogObjectId| #[trigger]
        ids.contains(id) <==> differs(left, right, id) by {
        if ids.contains(id) {
            let k = choose|k: int| 0 <= k < ids.len() && ids[k] == id;
            assert(done[done.len() - 1 - k] == id);
            assert(done.contains(id));
        }
        if differs(left, right, id) {
            assert(left.contains_key(id) || right.contains_key(id));
            assert(done.contains(id));
            let k = choose|k: int| 0 <= k < done.len() && done[k] == id;
            assert(ids[done.len() - 1 - k] == id);
        }
    }
}

/// The catalog after the first `count` of the mutations.
pub open spec fn replayed(
    objects: Map<CatalogObjectId, CatalogObject>,
    mutations: Seq<CatalogMutation>,
    ids: Seq<CatalogObjectId>,
    count: nat,
) -> Map<CatalogObjectId, CatalogObject>
    decreases count,
{
    if count == 0 {
        objects
    } else {
        let earlier = replayed(objects, mutations, ids, (count - 1) as nat);
        match mutations[count - 1].after {
            Some(object) => earlier.insert(ids[count - 1], object),
            None => earlier.remove(ids[count - 1]),
        }
    }
}

/// Applied to the catalog before, the changes between two catalogs give the catalog
/// after: each object that differs gets its value there, and each other one keeps a
/// value that is the same there.
pub proof fn changes_lead_to_the_result(
    before: Map<CatalogObjectId, CatalogObject>,
    after: Map<CatalogObjectId, CatalogObject>,
    ids: Seq<CatalogObjectId>,
    mutations: Seq<CatalogMutation>,
    id: CatalogObjectId,
)
    requires
        are_changes_between(before, after, ids, mutations),
    ensures
        ({
            let result = value_in(replayed(before, mutations, ids, mutations.len()), id);
            if differs(before, after, id) {
                result == value_in(after, id)
            } else {
                result == value_in(before, id) && objects::same_object(
                    result,
                    value_in(after, id),
                )
            }
        }),
{
    lemma_replayed(before, after, ids, mutations, id, mutations.len());
    assert(ids.take(ids.len() as int) =~= ids);
    assert(ids.contains(id) == differs(before, after, id));
}

proof fn lemma_replayed(
    before: Map<CatalogObjectId, CatalogObject>,
    after: Map<CatalogObjectId, CatalogObject>,
    ids: Seq<CatalogObjectId>,
    mutations: Seq<CatalogMutation>,
    id: CatalogObjectId,
    count: nat,
)
    requires
        are_changes_between(before, after, ids, mutations),
        count <= mutations.len(),
    ensures
        value_in(replayed(before, mutations, ids, count), id) == (if ids.take(
            count as int,
        ).contains(id) {
            value_in(after, id)
        } else {
            value_in(before, id)
        }),
    decreases count,
{
    if count > 0 {
        let last = count - 1;
        lemma_replayed(before, after, ids, mutations, id, last as nat);
        assert(ids.take(count as int) =~= ids.take(last).push(ids[last]));
        assert(mutations[last] == mutation_of(before, after, ids[last]));
        if ids.take(last).contains(id) {
            let k = choose|k: int| 0 <= k < last && ids.take(last)[k] == id;
            assert(ids.take(count as int)[k] == id);
        }
        assert(ids.take(count as int)[last] == ids[last]);
        if ids.take(count as int).contains(id) && id != ids[last] {
            let k = choose|k: int| 0 <= k < count && ids.take(count as int)[k] == id;
            assert(ids.take(last)[k] == id);
        }
    }
}

/// The objects of a catalog are kept under their own identities, with finite statistics
/// and no constraint objects.
pub open spec fn is_supported(objects: Map<CatalogObjectId, CatalogObject>) -> bool {
    forall|id: CatalogObjectId| #[trigger]
        objects.contains_key(id) ==> objects[id].spec_id() == id && objects::is_finite_object(
            Some(objects[id]),
        ) && !objects::is_constraint(Some(objects[id]))
}

/// The change set between two supported catalogs has a valid shape unless it has too
/// many entries.
pub proof fn changes_have_a_valid_shape(
    before: Map<CatalogObjectId, CatalogObject>,
    after: Map<CatalogObjectId, CatalogObject>,
    ids: Seq<CatalogObjectId>,
    changes: CatalogChangeSet,
)
    requires
        is_supported(before),
        is_supported(after),
        changes.version == CATALOG_CHANGE_SET_VERSION,
        are_changes_between(before, after, ids, changes.mutations@),
        changes.mutations@.len() <= MAX_CATALOG_CHANGE_MUTATIONS,
        changes.allocator_high_water.next_column_object_ids@.len() <= MAX_CATALOG_CHANGE_MUTATIONS,
        changes.allocator_high_water.next_foreign_key_ids@.len() <= MAX_CATALOG_CHANGE_MUTATIONS,
    ensures
        changes.shape_problem() is None,
{
    lemma_no_problem(before, after, ids, changes.mutations@, 0);
}

proof fn lemma_no_problem(
    before: Map<CatalogObjectId, CatalogObject>,
    after: Map<CatalogObjectId, CatalogObject>,
    ids: Seq<CatalogObjectId>,
    mutations: Seq<CatalogMutation>,
    start: nat,
)
    requires
        is_supported(before),
        is_supported(after),
        are_changes_between(before, after, ids, mutations),
    ensures
        first_problem(mutations, start) is None,
    decreases mutations.len() - start,
{
    if start < mutations.len() {
        let id = ids[start as int];
        assert(ids.contains(id));
        assert(mutations[start as int] == mutation_of(before, after, id));
        assert(differs(before, after, id));
        assert(mutations[start as int].spec_id() == Some(id));
        assert(mutations[start as int].problem() is None);
        if start > 0 {
            let earlier = ids[start - 1];
            assert(ids.contains(earlier));
            assert(mutations[start - 1] == mutation_of(before, after, earlier));
            assert(differs(before, after, earlier));
            assert(mutations[start - 1].spec_id() == Some(earlier));
            assert(earlier.precedes(id));
        }
        lemma_no_problem(before, after, ids, mutations, start + 1);
    }
}

} // verus!
