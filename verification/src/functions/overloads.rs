//! How calls are told apart: the overloads of the built-in functions and their ids.

use vstd::prelude::*;

use crate::functions::catalog::{self, PgProcView};
use crate::functions::registry;
use crate::ids::FunctionId;
use crate::pg_type::{self, PgType};
use crate::schema::DataType;

verus! {

#[verifier::rlimit(50)]
proof fn lemma_oid(index: int)
    requires
        0 <= index < catalog::CATALOG_LEN,
    ensures
        catalog::catalog_entry(index).oid == if index < 4 {
            14_000 + index
        } else if index < 15 {
            14_067 + index
        } else if index < 82 {
            13_989 + index
        } else {
            14_000 + index
        },
{
    reveal(catalog::catalog_entry);
}

/// No two functions of the catalog have the same id.
pub proof fn ids_are_unique(i: int, j: int)
    requires
        0 <= i < catalog::CATALOG_LEN,
        0 <= j < catalog::CATALOG_LEN,
        catalog::catalog_entry(i).oid == catalog::catalog_entry(j).oid,
    ensures
        i == j,
{
    lemma_oid(i);
    lemma_oid(j);
}

proof fn lemma_found(index: int, start: int)
    requires
        0 <= start <= index < catalog::CATALOG_LEN,
    ensures
        catalog::index_of_oid(catalog::catalog_entry(index).oid, start) == Some(index),
    decreases index - start,
{
    if catalog::catalog_entry(start).oid == catalog::catalog_entry(index).oid {
        ids_are_unique(start, index);
    } else {
        lemma_found(index, start + 1);
    }
}

/// Each function of the catalog is found by its id.
pub proof fn functions_are_found_by_their_id(index: int)
    requires
        0 <= index < catalog::CATALOG_LEN,
    ensures
        catalog::entry_with_oid(catalog::catalog_entry(index).oid) == Some(
            catalog::catalog_entry(index),
        ),
        registry::function_with_id(catalog::catalog_entry(index).oid as FunctionId) is Some,
{
    lemma_found(index, 0);
    registry::catalog_functions_are_registered(index);
}

proof fn lemma_overload(
    name: Seq<char>,
    argument_types: Seq<DataType>,
    result_type: DataType,
    start: int,
    other: int,
)
    requires
        0 <= start,
    ensures
        match registry::index_of_overload(name, argument_types, result_type, start) {
            Some(index) => start <= index < catalog::CATALOG_LEN && registry::is_overload(
                catalog::catalog_entry(index),
                name,
                argument_types,
                result_type,
            ) && (start <= other < index ==> !registry::is_overload(
                catalog::catalog_entry(other),
                name,
                argument_types,
                result_type,
            )),
            None => start <= other < catalog::CATALOG_LEN ==> !registry::is_overload(
                catalog::catalog_entry(other),
                name,
                argument_types,
                result_type,
            ),
        },
    decreases catalog::CATALOG_LEN - start,
{
    if start < catalog::CATALOG_LEN {
        lemma_overload(name, argument_types, result_type, start + 1, other);
    }
}

/// A call is resolved to the first function of its name that gives its result type and
/// takes its arguments, and to none only if there is no such function.
pub proof fn calls_are_resolved_to_the_first_fit(
    name: Seq<char>,
    argument_types: Seq<DataType>,
    result_type: DataType,
    other: int,
)
    requires
        0 <= other < catalog::CATALOG_LEN,
        catalog::catalog_entry(other).name == name,
        catalog::oid_has_type(catalog::catalog_entry(other).ret_oid as int, result_type),
        catalog::catalog_entry(other).accepts(argument_types),
    ensures
        registry::index_of_overload(name, argument_types, result_type, 0) matches Some(index)
            && 0 <= index <= other && catalog::catalog_entry(index).name == name,
{
    lemma_overload(name, argument_types, result_type, 0, other);
}

/// The id that a call is resolved to describes the call: it is the id of a function of that
/// name, whose result has the given type and which takes arguments of the given types.
pub proof fn resolved_ids_describe_the_call(
    name: Seq<char>,
    argument_types: Seq<DataType>,
    result_type: DataType,
)
    requires
        registry::index_of_overload(name, argument_types, result_type, 0) is Some,
    ensures
        ({
            let index = registry::index_of_overload(name, argument_types, result_type, 0)->0;
            let id = catalog::catalog_entry(index).oid as FunctionId;
            &&& registry::id_matches(id, argument_types, result_type, None)
            &&& registry::function_with_id(id) is Some
            &&& ({
                let (_, entry) = registry::function_with_id(id)->0;
                entry.name == name
            })
        }),
{
    lemma_overload(name, argument_types, result_type, 0, 0);
    let index = registry::index_of_overload(name, argument_types, result_type, 0)->0;
    functions_are_found_by_their_id(index);
    registry::catalog_functions_are_registered(index);
}

/// An id describes calls of one shape: the wire type of the result is the declared one, and
/// it stands for the type of the result.
pub proof fn ids_fix_the_result(
    id: FunctionId,
    argument_types: Seq<DataType>,
    result_type: DataType,
    result_pg_type: PgType,
)
    requires
        registry::id_matches(id, argument_types, result_type, Some(result_pg_type)),
    ensures
        registry::function_with_id(id) is Some,
        ({
            let (_, entry) = registry::function_with_id(id)->0;
            pg_type::wire_type_of_oid(entry.ret_oid as int, -1) == Some(result_pg_type)
        }),
        result_pg_type.refines(result_type),
        registry::id_matches(id, argument_types, result_type, None),
{
}

/// Where a function other than `CONCAT` takes arguments, it takes one for each of its
/// parameters, of a type that the parameter's wire type stands for; `CONCAT` takes one
/// text or more.
pub proof fn functions_take_their_parameters(index: int, argument_types: Seq<DataType>, i: int)
    requires
        0 <= index < catalog::CATALOG_LEN,
        catalog::catalog_entry(index).accepts(argument_types),
    ensures
        ({
            let entry = catalog::catalog_entry(index);
            if entry.name != "concat"@ {
                &&& argument_types.len() == entry.arg_oids.len()
                &&& 0 <= i < argument_types.len() ==> catalog::oid_has_type(
                    entry.arg_oids[i] as int,
                    argument_types[i],
                )
            } else {
                &&& argument_types.len() >= entry.arg_oids.len() > 0
                &&& entry.arg_oids.len() - 1 <= i < argument_types.len() ==> catalog::oid_has_type(
                    25,
                    argument_types[i],
                )
            }
        }),
{
}

/// What all overloads of a function agree on is what each of them has.
pub proof fn agreed_types_are_of_every_overload(candidates: Seq<PgType>, i: int, j: int)
    requires
        0 <= i < candidates.len(),
        0 <= j < candidates.len(),
    ensures
        registry::agreed(candidates) matches Some(wire_type) ==> candidates[i] == wire_type,
        candidates[i] != candidates[j] ==> registry::agreed(candidates) is None,
{
}

proof fn lemma_candidates(
    name: Seq<char>,
    arity: nat,
    wire_type: spec_fn(PgProcView) -> Option<PgType>,
    start: int,
    index: int,
    i: int,
)
    requires
        0 <= start,
    ensures
        ({
            let all = registry::wire_types_of_overloads(name, arity, wire_type, start);
            &&& start <= index < catalog::CATALOG_LEN && catalog::catalog_entry(index).name == name
                && catalog::catalog_entry(index).arg_oids.len() == arity && wire_type(
                catalog::catalog_entry(index),
            ) is Some ==> all.contains(wire_type(catalog::catalog_entry(index))->0)
            &&& 0 <= i < all.len() ==> exists|k: int|
                {
                    let entry = #[trigger] catalog::catalog_entry(k);
                    &&& start <= k < catalog::CATALOG_LEN
                    &&& entry.name == name
                    &&& entry.arg_oids.len() == arity
                    &&& wire_type(entry) == Some(all[i])
                }
        }),
    decreases catalog::CATALOG_LEN - start,
{
    if start < catalog::CATALOG_LEN {
        let rest = registry::wire_types_of_overloads(name, arity, wire_type, start + 1);
        let all = registry::wire_types_of_overloads(name, arity, wire_type, start);
        let own = registry::wire_type_of_overload(name, arity, wire_type, start);
        let shift = if own is Some {
            1int
        } else {
            0int
        };
        lemma_candidates(name, arity, wire_type, start + 1, index, i - shift);
        assert forall|found: PgType| rest.contains(found) implies all.contains(found) by {
            let k = choose|k: int| 0 <= k < rest.len() && rest[k] == found;
            assert(all[k + shift] == found);
        }
        if own is Some {
            assert(all[0] == own->0);
            assert(catalog::catalog_entry(start) == catalog::catalog_entry(start));
        }
        if shift <= i < all.len() {
            assert(all[i] == rest[i - shift]);
        }
    }
}

/// The candidates for the wire type of a call are those of the functions of its name that
/// take as many arguments: none of them is left out, and there are no others.
pub proof fn candidates_come_from_the_overloads(
    name: Seq<char>,
    arity: nat,
    wire_type: spec_fn(PgProcView) -> Option<PgType>,
    index: int,
    i: int,
)
    ensures
        ({
            let all = registry::wire_types_of_overloads(name, arity, wire_type, 0);
            &&& 0 <= index < catalog::CATALOG_LEN && catalog::catalog_entry(index).name == name
                && catalog::catalog_entry(index).arg_oids.len() == arity && wire_type(
                catalog::catalog_entry(index),
            ) is Some ==> all.contains(wire_type(catalog::catalog_entry(index))->0)
            &&& 0 <= i < all.len() ==> exists|k: int|
                {
                    let entry = #[trigger] catalog::catalog_entry(k);
                    &&& 0 <= k < catalog::CATALOG_LEN
                    &&& entry.name == name
                    &&& entry.arg_oids.len() == arity
                    &&& wire_type(entry) == Some(all[i])
                }
        }),
{
    lemma_candidates(name, arity, wire_type, 0, index, i);
}

/// The wire type of a parameter is the one that its number names, and the wire type of a
/// result is that too, provided that it stands for the type of the result.
pub proof fn wire_types_are_named_by_numbers(entry: PgProcView, index: int, data_type: DataType)
    ensures
        0 <= index < entry.arg_oids.len() ==> registry::parameter_wire_type(index)(entry)
            == pg_type::wire_type_of_oid(entry.arg_oids[index] as int, -1),
        registry::result_wire_type(data_type)(entry) matches Some(found) ==> {
            &&& found.refines(data_type)
            &&& pg_type::wire_type_of_oid(entry.ret_oid as int, -1) == Some(found)
        },
{
}

} // verus!
