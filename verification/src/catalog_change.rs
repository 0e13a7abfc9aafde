//! Identities of catalog objects, and the changes that a transaction makes to the
//! catalog.

use vstd::prelude::*;

use crate::ids::{ColumnObjectId, ConstraintId, FunctionId, IndexId, SchemaId, SequenceId, TableId};

pub mod changes;
pub mod objects;
pub mod rules;

pub use changes::{
    CatalogAllocatorHighWater, CatalogChangeSet, CatalogMutation, CATALOG_CHANGE_SET_VERSION,
    MAX_CATALOG_CHANGE_MUTATIONS,
};
pub use objects::{CatalogObject, CatalogObjectMap};

verus! {

/// Durable identity of a catalog object.
///
/// Columns remain nested in relation objects; the column form exists so the
/// dependency graph can address their durable identities without a second map.
/// System relations and built-in functions are fixed and never change.
#[derive(Clone, Copy, Debug, PartialEq, Eq, PartialOrd, Ord, Hash, Structural)]
pub enum CatalogObjectId {
    Schema(SchemaId),
    Table(TableId),
    View(TableId),
    Index(IndexId),
    Sequence(SequenceId),
    Constraint(ConstraintId),
    Statistics(TableId),
    Column { relation: TableId, column: ColumnObjectId },
    SystemRelation(i64),
    Function(FunctionId),
}

impl CatalogObjectId {
    /// The kind of the object, in declaration order, and the numbers that name it.
    pub open spec fn key(self) -> (int, int, int) {
        match self {
            CatalogObjectId::Schema(id) => (0, id as int, 0),
            CatalogObjectId::Table(id) => (1, id as int, 0),
            CatalogObjectId::View(id) => (2, id as int, 0),
            CatalogObjectId::Index(id) => (3, id as int, 0),
            CatalogObjectId::Sequence(id) => (4, id as int, 0),
            CatalogObjectId::Constraint(id) => (5, id as int, 0),
            CatalogObjectId::Statistics(id) => (6, id as int, 0),
            CatalogObjectId::Column { relation, column } => (7, relation as int, column as int),
            CatalogObjectId::SystemRelation(oid) => (8, oid as int, 0),
            CatalogObjectId::Function(id) => (9, id as int, 0),
        }
    }

    /// Objects are ordered by kind, then by the numbers that name them.
    pub open spec fn precedes(self, other: Self) -> bool {
        let (a, b, c) = self.key();
        let (x, y, z) = other.key();
        a < x || (a == x && (b < y || (b == y && c < z)))
    }

    /// Of two objects that are not the same, exactly one precedes the other.
    pub proof fn order_is_total(a: Self, b: Self)
        ensures
            a == b || a.precedes(b) || b.precedes(a),
            !(a.precedes(b) && b.precedes(a)),
            !a.precedes(a),
    {
    }

    fn sort_key(&self) -> (key: (u8, i64, i64))
        ensures
            self.key() == (key.0 as int, key.1 as int, key.2 as int),
    {
        match self {
            CatalogObjectId::Schema(id) => (0, *id as i64, 0),
            CatalogObjectId::Table(id) => (1, *id as i64, 0),
            CatalogObjectId::View(id) => (2, *id as i64, 0),
            CatalogObjectId::Index(id) => (3, *id as i64, 0),
            CatalogObjectId::Sequence(id) => (4, *id as i64, 0),
            CatalogObjectId::Constraint(id) => (5, *id as i64, 0),
            CatalogObjectId::Statistics(id) => (6, *id as i64, 0),
            CatalogObjectId::Column { relation, column } => (7, *relation as i64, *column as i64),
            CatalogObjectId::SystemRelation(oid) => (8, *oid, 0),
            CatalogObjectId::Function(id) => (9, *id as i64, 0),
        }
    }

    pub(crate) fn is_before(&self, other: &Self) -> (before: bool)
        ensures
            before == self.precedes(*other),
    {
        let a: (u8, i64, i64) = self.sort_key();
        let b: (u8, i64, i64) = other.sort_key();
        a.0 < b.0 || (a.0 == b.0 && (a.1 < b.1 || (a.1 == b.1 && a.2 < b.2)))
    }
}

/// Every object precedes those that follow it.
pub open spec fn ascending(objects: Seq<CatalogObjectId>) -> bool {
    forall|i: int, j: int|
        0 <= i < j < objects.len() ==> (#[trigger] objects[i]).precedes(#[trigger] objects[j])
}

/// A set of catalog objects, kept in order.
#[derive(Debug)]
pub struct CatalogObjectSet {
    objects: Vec<CatalogObjectId>,
}

impl View for CatalogObjectSet {
    type V = Set<CatalogObjectId>;

    closed spec fn view(&self) -> Set<CatalogObjectId> {
        self.objects@.to_set()
    }
}

impl CatalogObjectSet {
    #[verifier::type_invariant]
    spec fn in_order(self) -> bool {
        ascending(self.objects@)
    }

    pub fn new() -> (set: Self)
        ensures
            set@ == Set::<CatalogObjectId>::empty(),
    {
        let set = CatalogObjectSet { objects: Vec::new() };
        assert(set@ =~= Set::<CatalogObjectId>::empty());
        set
    }

    /// The position of the first object that does not precede `id`.
    fn position(&self, id: &CatalogObjectId) -> (position: usize)
        ensures
            position <= self.objects@.len(),
            forall|i: int| 0 <= i < position ==> (#[trigger] self.objects@[i]).precedes(*id),
            position < self.objects@.len() ==> !self.objects@[position as int].precedes(*id),
    {
        let mut position: usize = 0;
        while position < self.objects.len()
            invariant
                position <= self.objects@.len(),
                forall|i: int| 0 <= i < position ==> (#[trigger] self.objects@[i]).precedes(*id),
            decreases self.objects@.len() - position,
        {
            if !self.objects[position].is_before(id) {
                return position;
            }
            position += 1;
        }
        position
    }

    /// Adds an object and tells whether it was new.
    pub fn insert(&mut self, id: CatalogObjectId) -> (added: bool)
        ensures
            final(self)@ == old(self)@.insert(id),
            added == !old(self)@.contains(id),
    {
        proof {
            use_type_invariant(&*self);
        }
        let position: usize = self.position(&id);
        let ghost before = self.objects@;
        if position < self.objects.len() && self.objects[position] == id {
            assert(before[position as int] == id);
            assert(self@ =~= old(self)@.insert(id));
            return false;
        }
        proof {
            assert forall|i: int| position <= i < before.len() implies id.precedes(
                #[trigger] before[i],
            ) by {
                assert(!before[position as int].precedes(id));
                if i > position {
                    assert(before[position as int].precedes(before[i]));
                }
            }
            assert(!before.contains(id));
        }
        let mut objects: Vec<CatalogObjectId> = Vec::new();
        core::mem::swap(&mut objects, &mut self.objects);
        objects.insert(position, id);
        proof {
            assert(objects@ == before.insert(position as int, id));
            assert(objects@.to_set() =~= before.to_set().insert(id)) by {
                assert forall|x: CatalogObjectId|
                    objects@.contains(x) <==> before.contains(x) || x == id by {
                    if before.contains(x) {
                        let i = choose|i: int| 0 <= i < before.len() && before[i] == x;
                        if i < position {
                            assert(objects@[i] == x);
                        } else {
                            assert(objects@[i + 1] == x);
                        }
                    }
                    assert(objects@[position as int] == id);
                    if objects@.contains(x) && x != id {
                        let i = choose|i: int| 0 <= i < objects@.len() && objects@[i] == x;
                        if i < position {
                            assert(before[i] == x);
                        } else {
                            assert(before[i - 1] == x);
                        }
                    }
                }
            }
        }
        self.objects = objects;
        true
    }

    pub fn contains(&self, id: &CatalogObjectId) -> (contained: bool)
        ensures
            contained == self@.contains(*id),
    {
        proof {
            use_type_invariant(self);
        }
        let position: usize = self.position(id);
        let found: bool = position < self.objects.len() && self.objects[position] == *id;
        proof {
            if self.objects@.contains(*id) {
                let i = choose|i: int| 0 <= i < self.objects@.len() && self.objects@[i] == *id;
                assert(!self.objects@[i].precedes(*id));
                if i > position {
                    assert(self.objects@[position as int].precedes(self.objects@[i]));
                }
            }
            if found {
                assert(self.objects@[position as int] == *id);
            }
        }
        found
    }

    /// The objects of the set, in order.
    pub fn as_slice(&self) -> (objects: &[CatalogObjectId])
        ensures
            ascending(objects@),
            objects@.to_set() == self@,
    {
        proof {
            use_type_invariant(self);
        }
        self.objects.as_slice()
    }
}

} // verus!
