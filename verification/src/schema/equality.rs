//! Equal schemas have equal parts.

use vstd::prelude::*;

use crate::schema::relation::{
    ColumnDef, ColumnDefault, IndexSchema, NamespaceSchema, SequenceSchema, TableSchema, ViewSchema,
};

verus! {

/// Columns that are equal agree in every one of their parts: in their places and
/// identities, their names, their types and lengths, whether they can be NULL, and in
/// their defaults, which both have or both lack.
pub proof fn equal_columns_have_equal_parts(a: ColumnDef, b: ColumnDef)
    requires
        vstd::std_specs::cmp::PartialEqSpec::eq_spec(&a, &b),
    ensures
        a.id == b.id,
        a.object_id == b.object_id,
        a.name@ == b.name@,
        a.data_type == b.data_type,
        a.nullable == b.nullable,
        a.max_length == b.max_length,
        a.pg_type == b.pg_type,
        a.default is Some <==> b.default is Some,
        a.default matches Some(x) ==> b.default matches Some(y)
            && vstd::std_specs::cmp::PartialEqSpec::eq_spec(&x, &y),
{
}

/// Defaults that are equal are of one kind: equal constants, the same sequence, or equal
/// expressions.
pub proof fn equal_defaults_are_of_one_kind(a: ColumnDefault, b: ColumnDefault)
    requires
        vstd::std_specs::cmp::PartialEqSpec::eq_spec(&a, &b),
    ensures
        a is Const <==> b is Const,
        a is Nextval <==> b is Nextval,
        a is Expr <==> b is Expr,
        a matches ColumnDefault::Const(x) ==> b matches ColumnDefault::Const(y) && x@.same(y@),
        a matches ColumnDefault::Nextval(x) ==> b matches ColumnDefault::Nextval(y) && x == y,
{
}

/// Tables that are equal agree in every one of their parts, their columns one by one.
pub proof fn equal_tables_have_equal_parts(a: TableSchema, b: TableSchema, i: int)
    requires
        vstd::std_specs::cmp::PartialEqSpec::eq_spec(&a, &b),
    ensures
        a.id == b.id,
        a.schema_id == b.schema_id,
        a.storage_id == b.storage_id,
        a.name@ == b.name@,
        a.columns@.len() == b.columns@.len(),
        0 <= i < a.columns@.len() ==> vstd::std_specs::cmp::PartialEqSpec::eq_spec(
            &a.columns@[i],
            &b.columns@[i],
        ),
        a.primary_key@ == b.primary_key@,
        a.schema_version == b.schema_version,
        a.compression == b.compression,
        a.active_dict_id == b.active_dict_id,
        a.toast == b.toast,
        a.toast_table_id == b.toast_table_id,
        a.relation_kind == b.relation_kind,
        a.next_column_object_id == b.next_column_object_id,
{
}

/// Views that are equal agree in every one of their parts, their columns one by one.
pub proof fn equal_views_have_equal_parts(a: ViewSchema, b: ViewSchema, i: int)
    requires
        vstd::std_specs::cmp::PartialEqSpec::eq_spec(&a, &b),
    ensures
        a.format_version == b.format_version,
        a.id == b.id,
        a.schema_id == b.schema_id,
        a.name@ == b.name@,
        a.columns@.len() == b.columns@.len(),
        0 <= i < a.columns@.len() ==> vstd::std_specs::cmp::PartialEqSpec::eq_spec(
            &a.columns@[i],
            &b.columns@[i],
        ),
        a.definition@ == b.definition@,
        a.query.same(b.query),
        a.schema_version == b.schema_version,
        a.definition_search_path@ == b.definition_search_path@,
        a.next_column_object_id == b.next_column_object_id,
{
}

/// Indexes, sequences and schemas that are equal agree in every one of their parts.
pub proof fn equal_objects_have_equal_parts(
    indexes: (IndexSchema, IndexSchema),
    sequences: (SequenceSchema, SequenceSchema),
    schemas: (NamespaceSchema, NamespaceSchema),
)
    ensures
        vstd::std_specs::cmp::PartialEqSpec::eq_spec(&indexes.0, &indexes.1) <==> {
            let (a, b) = indexes;
            &&& a.id == b.id
            &&& a.schema_id == b.schema_id
            &&& a.storage_id == b.storage_id
            &&& a.table == b.table
            &&& a.name@ == b.name@
            &&& a.columns@ == b.columns@
            &&& a.unique == b.unique
            &&& a.constraint == b.constraint
        },
        vstd::std_specs::cmp::PartialEqSpec::eq_spec(&sequences.0, &sequences.1) <==> {
            let (a, b) = sequences;
            &&& a.id == b.id
            &&& a.schema_id == b.schema_id
            &&& a.name@ == b.name@
            &&& a.increment == b.increment
            &&& a.min_value == b.min_value
            &&& a.max_value == b.max_value
            &&& a.start == b.start
            &&& a.cycle == b.cycle
            &&& a.owned == b.owned
            &&& a.last_value == b.last_value
            &&& a.is_called == b.is_called
        },
        vstd::std_specs::cmp::PartialEqSpec::eq_spec(&schemas.0, &schemas.1) <==> {
            let (a, b) = schemas;
            a.id == b.id && a.name@ == b.name@
        },
{
}

} // verus!
