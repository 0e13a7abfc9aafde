//! Catalog objects with their complete values, and maps of them.

use vstd::prelude::*;

use crate::catalog_change::CatalogObjectId;
use crate::ids::{ConstraintId, TableId};
use crate::schema::relation::{
    IndexSchema, NamespaceSchema, SequenceSchema, TableSchema, ViewSchema,
};
use crate::statistics::TableStatistics;

verus! {

/// Complete durable value of an independently replaceable catalog object.
#[derive(Clone, Debug)]
pub enum CatalogObject {
    Schema(NamespaceSchema),
    Table(TableSchema),
    View(ViewSchema),
    Index(IndexSchema),
    Sequence(SequenceSchema),
    /// Reserved until first-class constraint schemas are introduced.
    Constraint(ConstraintId),
    Statistics { table: TableId, statistics: TableStatistics },
}

impl CatalogObject {
    /// The identity of the object.
    pub open spec fn spec_id(self) -> CatalogObjectId {
        match self {
            CatalogObject::Schema(schema) => CatalogObjectId::Schema(schema.id),
            CatalogObject::Table(schema) => CatalogObjectId::Table(schema.id),
            CatalogObject::View(schema) => CatalogObjectId::View(schema.id),
            CatalogObject::Index(schema) => CatalogObjectId::Index(schema.id),
            CatalogObject::Sequence(schema) => CatalogObjectId::Sequence(schema.id),
            CatalogObject::Constraint(id) => CatalogObjectId::Constraint(id),
            CatalogObject::Statistics { table, .. } => CatalogObjectId::Statistics(table),
        }
    }

    pub fn id(&self) -> (id: CatalogObjectId)
        ensures
            id == self.spec_id(),
    {
        match self {
            CatalogObject::Schema(schema) => CatalogObjectId::Schema(schema.id),
            CatalogObject::Table(schema) => CatalogObjectId::Table(schema.id),
            CatalogObject::View(schema) => CatalogObjectId::View(schema.id),
            CatalogObject::Index(schema) => CatalogObjectId::Index(schema.id),
            CatalogObject::Sequence(schema) => CatalogObjectId::Sequence(schema.id),
            CatalogObject::Constraint(id) => CatalogObjectId::Constraint(*id),
            CatalogObject::Statistics { table, .. } => CatalogObjectId::Statistics(*table),
        }
    }

    /// Equality of objects.
    pub open spec fn same(self, other: Self) -> bool {
        match (self, other) {
            (CatalogObject::Schema(a), CatalogObject::Schema(b)) => a.same(b),
            (CatalogObject::Table(a), CatalogObject::Table(b)) => a.same(b),
            (CatalogObject::View(a), CatalogObject::View(b)) => a.same(b),
            (CatalogObject::Index(a), CatalogObject::Index(b)) => a.same(b),
            (CatalogObject::Sequence(a), CatalogObject::Sequence(b)) => a.same(b),
            (CatalogObject::Constraint(a), CatalogObject::Constraint(b)) => a == b,
            (
                CatalogObject::Statistics { table: a, statistics: s },
                CatalogObject::Statistics { table: b, statistics: t },
            ) => a == b && s.same(t),
            _ => false,
        }
    }
}

impl PartialEq for CatalogObject {
    fn eq(&self, other: &Self) -> (equal: bool) {
        match (self, other) {
            (CatalogObject::Schema(a), CatalogObject::Schema(b)) => *a == *b,
            (CatalogObject::Table(a), CatalogObject::Table(b)) => *a == *b,
            (CatalogObject::View(a), CatalogObject::View(b)) => *a == *b,
            (CatalogObject::Index(a), CatalogObject::Index(b)) => *a == *b,
            (CatalogObject::Sequence(a), CatalogObject::Sequence(b)) => *a == *b,
            (CatalogObject::Constraint(a), CatalogObject::Constraint(b)) => *a == *b,
            (
                CatalogObject::Statistics { table: a, statistics: s },
                CatalogObject::Statistics { table: b, statistics: t },
            ) => *a == *b && *s == *t,
            _ => false,
        }
    }
}

impl vstd::std_specs::cmp::PartialEqSpecImpl for CatalogObject {
    open spec fn obeys_eq_spec() -> bool {
        true
    }

    open spec fn eq_spec(&self, other: &Self) -> bool {
        self.same(*other)
    }
}

impl Eq for CatalogObject {

}

/// Equality of objects that may be missing.
pub open spec fn same_object(a: Option<CatalogObject>, b: Option<CatalogObject>) -> bool {
    match (a, b) {
        (Some(a), Some(b)) => a.same(b),
        (None, None) => true,
        _ => false,
    }
}

pub(crate) fn is_same_object(a: &Option<CatalogObject>, b: &Option<CatalogObject>) -> (same: bool)
    ensures
        same == same_object(*a, *b),
{
    match (a, b) {
        (Some(a), Some(b)) => *a == *b,
        (None, None) => true,
        _ => false,
    }
}

/// A missing object fits any identity.
pub open spec fn has_id(object: Option<CatalogObject>, id: CatalogObjectId) -> bool {
    match object {
        Some(object) => object.spec_id() == id,
        None => true,
    }
}

pub(crate) fn object_has_id(object: &Option<CatalogObject>, id: &CatalogObjectId) -> (has: bool)
    ensures
        has == has_id(*object, *id),
{
    match object {
        Some(object) => object.id() == *id,
        None => true,
    }
}

/// The object holds no statistics that are not finite.
pub open spec fn is_finite_object(object: Option<CatalogObject>) -> bool {
    match object {
        Some(CatalogObject::Statistics { statistics, .. }) => statistics.spec_is_finite(),
        _ => true,
    }
}

pub(crate) fn object_is_finite(object: &Option<CatalogObject>) -> (finite: bool)
    ensures
        finite == is_finite_object(*object),
{
    match object {
        Some(CatalogObject::Statistics { statistics, .. }) => statistics.is_finite(),
        _ => true,
    }
}

/// The object is a constraint.
pub open spec fn is_constraint(object: Option<CatalogObject>) -> bool {
    match object {
        Some(CatalogObject::Constraint(_)) => true,
        _ => false,
    }
}

pub(crate) fn object_is_constraint(object: &Option<CatalogObject>) -> (constraint: bool)
    ensures
        constraint == is_constraint(*object),
{
    match object {
        Some(CatalogObject::Constraint(_)) => true,
        _ => false,
    }
}

/// One of the entries from `start` on has the key.
pub open spec fn is_key_from(
    entries: Seq<(CatalogObjectId, CatalogObject)>,
    start: int,
    id: CatalogObjectId,
) -> bool {
    exists|i: int| start <= i < entries.len() && (#[trigger] entries[i]).0 == id
}

/// The keys are in order, and the map holds each of them with its object.
pub open spec fn is_map_of(
    map: Map<CatalogObjectId, CatalogObject>,
    entries: Seq<(CatalogObjectId, CatalogObject)>,
) -> bool {
    &&& forall|i: int, j: int|
        0 <= i < j < entries.len() ==> (#[trigger] entries[i]).0.precedes(
            (#[trigger] entries[j]).0,
        )
    &&& forall|id: CatalogObjectId| #[trigger]
        map.contains_key(id) <==> is_key_from(entries, 0, id)
    &&& forall|i: int|
        0 <= i < entries.len() ==> map[(#[trigger] entries[i]).0] == entries[i].1
}

/// Catalog objects by identity, in the order of the identities.
#[derive(Debug)]
pub struct CatalogObjectMap {
    entries: Vec<(CatalogObjectId, CatalogObject)>,
}

spec fn map_of(entries: Seq<(CatalogObjectId, CatalogObject)>) -> Map<
    CatalogObjectId,
    CatalogObject,
> {
    entries.fold_left(
        Map::empty(),
        |map: Map<CatalogObjectId, CatalogObject>, entry: (CatalogObjectId, CatalogObject)|
            map.insert(entry.0, entry.1),
    )
}

impl View for CatalogObjectMap {
    type V = Map<CatalogObjectId, CatalogObject>;

    closed spec fn view(&self) -> Map<CatalogObjectId, CatalogObject> {
        map_of(self.entries@)
    }
}

proof fn lemma_map_of(entries: Seq<(CatalogObjectId, CatalogObject)>)
    requires
        forall|i: int, j: int|
            0 <= i < j < entries.len() ==> (#[trigger] entries[i]).0.precedes(
                (#[trigger] entries[j]).0,
            ),
    ensures
        is_map_of(map_of(entries), entries),
    decreases entries.len(),
{
    let map = map_of(entries);
    if entries.len() == 0 {
        assert(map =~= Map::empty());
    } else {
        let front = entries.drop_last();
        let last = entries.last();
        assert forall|i: int, j: int| 0 <= i < j < front.len() implies (
        #[trigger] front[i]).0.precedes((#[trigger] front[j]).0) by {
            assert(front[i] == entries[i] && front[j] == entries[j]);
        }
        lemma_map_of(front);
        assert(map == map_of(front).insert(last.0, last.1));
        assert forall|id: CatalogObjectId| #[trigger] map.contains_key(id) <==> is_key_from(
            entries,
            0,
            id,
        ) by {
            if map_of(front).contains_key(id) {
                let i = choose|i: int| 0 <= i < front.len() && (#[trigger] front[i]).0 == id;
                assert(entries[i].0 == id);
            }
            if id == last.0 {
                assert(entries[entries.len() - 1].0 == id);
            }
            if is_key_from(entries, 0, id) && id != last.0 {
                let i = choose|i: int| 0 <= i < entries.len() && (#[trigger] entries[i]).0 == id;
                assert(front[i].0 == id);
                assert(is_key_from(front, 0, id));
            }
        }
        assert forall|i: int| 0 <= i < entries.len() implies map[(#[trigger] entries[i]).0]
            == entries[i].1 by {
            if i < front.len() {
                assert(front[i] == entries[i]);
                assert(entries[i].0.precedes(last.0));
            }
        }
    }
}

impl CatalogObjectMap {
    #[verifier::type_invariant]
    spec fn in_order(self) -> bool {
        forall|i: int, j: int|
            0 <= i < j < self.entries@.len() ==> (#[trigger] self.entries@[i]).0.precedes(
                (#[trigger] self.entries@[j]).0,
            )
    }

    pub fn new() -> (map: Self)
        ensures
            map@ == Map::<CatalogObjectId, CatalogObject>::empty(),
    {
        let map = CatalogObjectMap { entries: Vec::new() };
        proof {
            lemma_map_of(map.entries@);
            assert(map@ =~= Map::<CatalogObjectId, CatalogObject>::empty());
        }
        map
    }

    /// Puts an object under an identity, in place of what was there.
    pub fn insert(&mut self, id: CatalogObjectId, object: CatalogObject)
        ensures
            final(self)@ == old(self)@.insert(id, object),
    {
        proof {
            use_type_invariant(&*self);
            lemma_map_of(self.entries@);
        }
        let ghost before = self.entries@;
        let mut position: usize = 0;
        while position < self.entries.len() && self.entries[position].0.is_before(&id)
            invariant
                self.entries@ == before,
                position <= before.len(),
                forall|i: int| 0 <= i < position ==> (#[trigger] before[i]).0.precedes(id),
            decreases before.len() - position,
        {
            position += 1;
        }
        let replaces: bool = position < self.entries.len() && self.entries[position].0 == id;
        proof {
            assert forall|i: int| position < i < before.len() implies id.precedes(
                (#[trigger] before[i]).0,
            ) by {
                assert(!before[position as int].0.precedes(id));
                assert(before[position as int].0.precedes(before[i].0));
            }
            if position < before.len() && !replaces {
                CatalogObjectId::order_is_total(before[position as int].0, id);
            }
        }
        let mut entries: Vec<(CatalogObjectId, CatalogObject)> = Vec::new();
        core::mem::swap(&mut entries, &mut self.entries);
        let ghost value = object;
        if replaces {
            entries.set(position, (id, object));
        } else {
            entries.insert(position, (id, object));
        }
        proof {
            let shift: int = if replaces {
                0
            } else {
                1
            };
            assert(entries@[position as int] == (id, value));
            assert forall|i: int| 0 <= i < entries@.len() && i != position implies (
            #[trigger] entries@[i]) == before[if i < position {
                i
            } else {
                i - shift
            }] by {}
            assert forall|i: int, j: int| 0 <= i < j < entries@.len() implies (
            #[trigger] entries@[i]).0.precedes((#[trigger] entries@[j]).0) by {}
            lemma_map_of(entries@);
            lemma_same_as_insert(before, entries@, position as int, replaces, id, value);
        }
        self.entries = entries;
    }

    pub(crate) fn into_entries(self) -> (entries: Vec<(CatalogObjectId, CatalogObject)>)
        ensures
            is_map_of(self@, entries@),
    {
        proof {
            use_type_invariant(&self);
            lemma_map_of(self.entries@);
        }
        let CatalogObjectMap { entries } = self;
        entries
    }
}

proof fn lemma_same_as_insert(
    before: Seq<(CatalogObjectId, CatalogObject)>,
    after: Seq<(CatalogObjectId, CatalogObject)>,
    position: int,
    replaces: bool,
    id: CatalogObjectId,
    object: CatalogObject,
)
    requires
        0 <= position <= before.len(),
        is_map_of(map_of(before), before),
        is_map_of(map_of(after), after),
        replaces ==> position < before.len() && before[position].0 == id,
        after == (if replaces {
            before.update(position, (id, object))
        } else {
            before.insert(position, (id, object))
        }),
    ensures
        map_of(after) == map_of(before).insert(id, object),
{
    let expected = map_of(before).insert(id, object);
    let map = map_of(after);
    assert(after[position] == (id, object));
    assert forall|key: CatalogObjectId| #[trigger] map.contains_key(key) <==> expected.contains_key(
        key,
    ) by {
        if map.contains_key(key) && key != id {
            let i = choose|i: int| 0 <= i < after.len() && (#[trigger] after[i]).0 == key;
            let j = if replaces || i < position {
                i
            } else {
                i - 1
            };
            assert(before[j].0 == key);
            assert(is_key_from(before, 0, key));
        }
        if map_of(before).contains_key(key) {
            let i = choose|i: int| 0 <= i < before.len() && (#[trigger] before[i]).0 == key;
            let j = if replaces || i < position {
                i
            } else {
                i + 1
            };
            assert(after[j].0 == key);
            assert(is_key_from(after, 0, key));
        }
        if key == id {
            assert(is_key_from(after, 0, key));
        }
    }
    assert forall|key: CatalogObjectId| #[trigger] map.contains_key(key) implies map[key]
        == expected[key] by {
        let i = choose|i: int| 0 <= i < after.len() && (#[trigger] after[i]).0 == key;
        if key != id {
            let j = if replaces || i < position {
                i
            } else {
                i - 1
            };
            assert(before[j] == after[i]);
        } else {
            assert(map[after[position].0] == object);
        }
    }
    assert(map =~= expected);
}

} // verus!
