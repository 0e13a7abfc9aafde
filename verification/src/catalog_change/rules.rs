//! What the order of catalog objects and the shape of their changes mean.

use vstd::prelude::*;

use crate::catalog_change::changes::{self, CatalogChangeSet, CatalogMutation};
use crate::catalog_change::objects::{self, CatalogObject};
use crate::catalog_change::CatalogObjectId;
use crate::ids::TableId;

verus! {

/// Objects of different kinds are ordered by their kinds alone: schemas, tables, views,
/// indexes, sequences, constraints, statistics, columns, system relations, functions.
pub proof fn objects_are_ordered_by_kind(a: CatalogObjectId, b: CatalogObjectId)
    requires
        ({
            ||| a is Schema && !(b is Schema)
            ||| a is Table && b is View
            ||| a is View && b is Index
            ||| a is Index && b is Sequence
            ||| a is Sequence && b is Constraint
            ||| a is Constraint && b is Statistics
            ||| a is Statistics && b is Column
            ||| a is Column && b is SystemRelation
            ||| a is SystemRelation && b is Function
        }),
    ensures
        a.precedes(b),
        !b.precedes(a),
{
}

/// Objects of one kind are ordered by their numbers, columns by those of their relations
/// and then by their own; and what precedes what follows precedes what comes after.
pub proof fn objects_are_ordered_by_number(
    m: u32,
    n: u32,
    k: u32,
    l: u32,
    x: i64,
    y: i64,
    a: CatalogObjectId,
    b: CatalogObjectId,
    c: CatalogObjectId,
)
    ensures
        CatalogObjectId::Schema(m).precedes(CatalogObjectId::Schema(n)) <==> m < n,
        CatalogObjectId::Table(m).precedes(CatalogObjectId::Table(n)) <==> m < n,
        CatalogObjectId::View(m).precedes(CatalogObjectId::View(n)) <==> m < n,
        CatalogObjectId::Index(m).precedes(CatalogObjectId::Index(n)) <==> m < n,
        CatalogObjectId::Sequence(m).precedes(CatalogObjectId::Sequence(n)) <==> m < n,
        CatalogObjectId::Constraint(m).precedes(CatalogObjectId::Constraint(n)) <==> m < n,
        CatalogObjectId::Statistics(m).precedes(CatalogObjectId::Statistics(n)) <==> m < n,
        CatalogObjectId::Function(m).precedes(CatalogObjectId::Function(n)) <==> m < n,
        CatalogObjectId::SystemRelation(x).precedes(CatalogObjectId::SystemRelation(y)) <==> x < y,
        (CatalogObjectId::Column { relation: m, column: k }).precedes(
            CatalogObjectId::Column { relation: n, column: l },
        ) <==> m < n || (m == n && k < l),
        a.precedes(b) && b.precedes(c) ==> a.precedes(c),
{
}

/// The identity of an object is its kind and its own number.
pub proof fn objects_are_named_by_their_numbers(object: CatalogObject)
    ensures
        object matches CatalogObject::Schema(schema) ==> object.spec_id()
            == CatalogObjectId::Schema(schema.id),
        object matches CatalogObject::Table(schema) ==> object.spec_id() == CatalogObjectId::Table(
            schema.id,
        ),
        object matches CatalogObject::View(schema) ==> object.spec_id() == CatalogObjectId::View(
            schema.id,
        ),
        object matches CatalogObject::Index(schema) ==> object.spec_id() == CatalogObjectId::Index(
            schema.id,
        ),
        object matches CatalogObject::Sequence(schema) ==> object.spec_id()
            == CatalogObjectId::Sequence(schema.id),
        object matches CatalogObject::Constraint(id) ==> object.spec_id()
            == CatalogObjectId::Constraint(id),
        object matches CatalogObject::Statistics { table, .. } ==> object.spec_id()
            == CatalogObjectId::Statistics(table),
{
}

/// A sound mutation makes an object, drops one or changes one: it has a start or a result,
/// both of one object where it has both, and they are not equal; none of them is a
/// constraint, and no statistics in it are infinite.
pub proof fn sound_mutations_change_one_object(mutation: CatalogMutation)
    ensures
        mutation.problem() is None ==> {
            &&& mutation.before is Some || mutation.after is Some
            &&& mutation.before is Some && mutation.after is Some
                ==> mutation.before->0.spec_id() == mutation.after->0.spec_id()
                && !mutation.before->0.same(mutation.after->0)
            &&& mutation.before matches Some(before) ==> !(before is Constraint) && (
            before matches CatalogObject::Statistics { statistics, .. }
                ==> statistics.spec_is_finite())
            &&& mutation.after matches Some(after) ==> !(after is Constraint) && (
            after matches CatalogObject::Statistics { statistics, .. }
                ==> statistics.spec_is_finite())
        },
        (mutation.before is Some) != (mutation.after is Some) && !objects::is_constraint(
            mutation.before,
        ) && !objects::is_constraint(mutation.after) && objects::is_finite_object(mutation.before)
            && objects::is_finite_object(mutation.after) ==> mutation.problem() is None,
        mutation.before is None && mutation.after is None ==> mutation.problem() is Some,
{
}

/// A change set is sound exactly if it has the version one, at most 65_536 mutations and
/// as many allocators of either kind, every mutation is sound, and their objects follow
/// each other in order.
pub proof fn sound_changes_are_in_order(set: CatalogChangeSet)
    ensures
        set.shape_problem() is None <==> {
            &&& set.version == 1
            &&& set.mutations@.len() <= 65_536
            &&& set.allocator_high_water.next_column_object_ids@.len() <= 65_536
            &&& set.allocator_high_water.next_foreign_key_ids@.len() <= 65_536
            &&& forall|i: int|
                0 <= i < set.mutations@.len() ==> (#[trigger] set.mutations@[i]).problem() is None
            &&& forall|i: int, j: int|
                0 <= i < j < set.mutations@.len() ==> (
                #[trigger] set.mutations@[i]).spec_id()->0.precedes(
                    (#[trigger] set.mutations@[j]).spec_id()->0,
                )
        },
{
    let mutations = set.mutations@;
    lemma_first_problem(mutations, 0);
    if changes::first_problem(mutations, 0) is None {
        assert forall|i: int, j: int| 0 <= i < j < mutations.len() implies (
        #[trigger] mutations[i]).spec_id()->0.precedes((#[trigger] mutations[j]).spec_id()->0) by {
            lemma_ascending(mutations, i, j);
        }
    }
}

proof fn lemma_first_problem(mutations: Seq<CatalogMutation>, start: nat)
    requires
        start <= mutations.len(),
    ensures
        changes::first_problem(mutations, start) is None <==> {
            &&& forall|i: int|
                start <= i < mutations.len() ==> (#[trigger] mutations[i]).problem() is None
            &&& forall|i: int|
                start <= i < mutations.len() && i > 0 ==> mutations[i - 1].spec_id()->0.precedes(
                    (#[trigger] mutations[i]).spec_id()->0,
                )
        },
    decreases mutations.len() - start,
{
    if start < mutations.len() {
        lemma_first_problem(mutations, start + 1);
        let first = mutations[start as int];
        if changes::first_problem(mutations, start) is None {
            assert forall|i: int| start <= i < mutations.len() implies (
            #[trigger] mutations[i]).problem() is None by {}
        }
    }
}

proof fn lemma_ascending(mutations: Seq<CatalogMutation>, i: int, j: int)
    requires
        0 <= i < j < mutations.len(),
        forall|k: int|
            0 < k < mutations.len() ==> mutations[k - 1].spec_id()->0.precedes(
                (#[trigger] mutations[k]).spec_id()->0,
            ),
    ensures
        mutations[i].spec_id()->0.precedes(mutations[j].spec_id()->0),
    decreases j - i,
{
    if i < j - 1 {
        lemma_ascending(mutations, i, j - 1);
    }
    assert(mutations[j - 1].spec_id()->0.precedes(mutations[j].spec_id()->0));
}

/// An allocator is taken exactly if there is none for its relation yet and there are not
/// as many as there may be.
pub proof fn allocators_are_taken_once(
    high_water: Map<TableId, u32>,
    relation: TableId,
    too_many: Seq<char>,
    repeats: Seq<char>,
)
    ensures
        changes::allocator_problem(high_water, relation, too_many, repeats) is None
            <==> high_water.len() != 65_536 && !high_water.contains_key(relation),
{
}

} // verus!
