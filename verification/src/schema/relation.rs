//! Catalog schemas: namespaces, tables, views, sequences and indexes.

use vstd::prelude::*;

use crate::ids::{
    ColumnId, ColumnObjectId, ConstraintId, FileId, IndexId, SchemaId, SequenceId, TableId,
};
use crate::pg_type::PgType;
use crate::schema::toast::{CompressionSetting, RelationKind, ToastOptions};
use crate::schema::DataType;
use crate::stored_expression::copies;
use crate::stored_expression::{self, StoredExpression};
use crate::stored_query::StoredQueryV1;
use crate::text;
use crate::value::Value;

verus! {

pub const INITIAL_SCHEMA_VERSION: u64 = 1;

pub const VIEW_SCHEMA_FORMAT_VERSION: u32 = 1;

/// A name with an optional schema before it.
#[derive(Clone, Debug, PartialOrd, Ord, Hash)]
pub struct QualifiedName {
    pub schema: Option<String>,
    pub name: String,
}

/// The characters of a text that may be missing.
pub open spec fn optional_chars(text: Option<String>) -> Option<Seq<char>> {
    match text {
        Some(text) => Some(text@),
        None => None,
    }
}

pub(crate) fn same_optional_text(a: &Option<String>, b: &Option<String>) -> (same: bool)
    ensures
        same == (optional_chars(*a) == optional_chars(*b)),
{
    match (a, b) {
        (Some(a), Some(b)) => text::same_text(a, b),
        (None, None) => true,
        _ => false,
    }
}

impl QualifiedName {
    /// A name without a schema.
    pub fn unqualified(name: &str) -> (qualified: Self)
        ensures
            qualified.schema is None,
            qualified.name@ == name@,
    {
        QualifiedName { schema: None, name: name.to_owned() }
    }

    /// The schema, a dot and the name, or the name alone.
    pub open spec fn spec_text(self) -> Seq<char> {
        match self.schema {
            Some(schema) => schema@ + seq!['.'] + self.name@,
            None => self.name@,
        }
    }

    /// The schema, a dot and the name, or the name alone.
    pub fn display(&self) -> (text: String)
        ensures
            text@ == self.spec_text(),
    {
        let mut out: String = String::new();
        if let Some(schema) = &self.schema {
            out.append(schema);
            out.push('.');
        }
        out.append(&self.name);
        assert(out@ =~= self.spec_text());
        out
    }

    /// Whether this is the given name without a schema.
    pub fn is_unqualified(&self, name: &str) -> (is_name: bool)
        ensures
            is_name == (self.schema is None && self.name@ == name@),
    {
        self.schema.is_none() && text::same_text(&self.name, name)
    }
}

impl PartialEq for QualifiedName {
    fn eq(&self, other: &Self) -> (equal: bool) {
        same_optional_text(&self.schema, &other.schema) && text::same_text(&self.name, &other.name)
    }
}

impl vstd::std_specs::cmp::PartialEqSpecImpl for QualifiedName {
    open spec fn obeys_eq_spec() -> bool {
        true
    }

    open spec fn eq_spec(&self, other: &Self) -> bool {
        optional_chars(self.schema) == optional_chars(other.schema) && self.name@ == other.name@
    }
}

impl Eq for QualifiedName {

}

/// A schema, in the sense of a namespace of relations.
#[derive(Clone, Debug)]
pub struct NamespaceSchema {
    pub id: SchemaId,
    pub name: String,
}

impl NamespaceSchema {
    /// Equality of schemas.
    pub open spec fn same(self, other: Self) -> bool {
        self.id == other.id && self.name@ == other.name@
    }
}

impl PartialEq for NamespaceSchema {
    fn eq(&self, other: &Self) -> (equal: bool) {
        self.id == other.id && text::same_text(&self.name, &other.name)
    }
}

impl vstd::std_specs::cmp::PartialEqSpecImpl for NamespaceSchema {
    open spec fn obeys_eq_spec() -> bool {
        true
    }

    open spec fn eq_spec(&self, other: &Self) -> bool {
        self.same(*other)
    }
}

impl Eq for NamespaceSchema {

}

/// A column `DEFAULT` as it was parsed.
#[derive(Clone, Debug, PartialEq, Eq)]
pub enum ParsedDefault {
    Const(Value),
    Nextval(String),
    /// A non-constant `DEFAULT` expression carried as canonical SQL text. The
    /// binder resolves it once during DDL and replaces it with `Stored`; it may
    /// not reference table columns.
    Expr(String),
    /// Binder-resolved internal form passed to catalog mutation APIs.
    Stored(StoredExpression),
    /// Internal form used while executing `SERIAL` desugaring. Explicit user
    /// defaults use `Nextval` and may not borrow a serial-owned sequence.
    OwnedNextval(String),
    /// Parse-time marker for a `SERIAL` family column. It is resolved during
    /// `CREATE TABLE` execution into an owned sequence plus `OwnedNextval(name)`.
    Serial,
}

/// A resolved column `DEFAULT`, persisted in the catalog snapshot.
#[derive(Debug)]
pub enum ColumnDefault {
    Const(Value),
    Nextval(SequenceId),
    /// A non-constant `DEFAULT` expression persisted as typed durable IR, with
    /// canonical SQL retained for introspection and diagnostics.
    Expr(StoredExpression),
}

impl ColumnDefault {
    /// Equality of defaults.
    pub open spec fn same(self, other: Self) -> bool {
        match (self, other) {
            (ColumnDefault::Const(a), ColumnDefault::Const(b)) => a@.same(b@),
            (ColumnDefault::Nextval(a), ColumnDefault::Nextval(b)) => a == b,
            (ColumnDefault::Expr(a), ColumnDefault::Expr(b)) => a.same(b),
            _ => false,
        }
    }
}

impl PartialEq for ColumnDefault {
    fn eq(&self, other: &Self) -> (equal: bool) {
        match (self, other) {
            (ColumnDefault::Const(a), ColumnDefault::Const(b)) => *a == *b,
            (ColumnDefault::Nextval(a), ColumnDefault::Nextval(b)) => *a == *b,
            (ColumnDefault::Expr(a), ColumnDefault::Expr(b)) => *a == *b,
            _ => false,
        }
    }
}

impl vstd::std_specs::cmp::PartialEqSpecImpl for ColumnDefault {
    open spec fn obeys_eq_spec() -> bool {
        true
    }

    open spec fn eq_spec(&self, other: &Self) -> bool {
        self.same(*other)
    }
}

impl Eq for ColumnDefault {

}

impl Clone for ColumnDefault {
    fn clone(&self) -> (copy: Self)
        ensures
            self.same(copy),
    {
        match self {
            ColumnDefault::Const(value) => ColumnDefault::Const(value.clone()),
            ColumnDefault::Nextval(sequence) => ColumnDefault::Nextval(*sequence),
            ColumnDefault::Expr(expression) => ColumnDefault::Expr(expression.clone()),
        }
    }
}

/// A column as it was parsed.
#[derive(Clone, Debug, PartialEq, Eq)]
pub struct ParsedColumnDef {
    pub name: String,
    pub data_type: DataType,
    pub nullable: bool,
    /// Maximum length in characters for a bounded character type
    /// (`VARCHAR(n)` / `CHAR(n)`). `None` for unbounded `TEXT` and all
    /// non-character types.
    pub max_length: Option<u32>,
    /// The column `DEFAULT`, applied when an `INSERT` omits the column. Constants
    /// are folded at parse time; sequence defaults keep a sequence name until the
    /// catalog resolves it to a durable id.
    pub default: Option<ParsedDefault>,
    /// The declared PostgreSQL wire type (integer width, character kind, length),
    /// captured by the parser so the protocol can report the exact OID/typmod.
    /// `None` when the parser has not labeled the column; resolved to the collapsed
    /// default (`Integer` => int8, `Text` => text) downstream.
    pub pg_type: Option<PgType>,
}

/// A column of a relation.
#[derive(Debug)]
pub struct ColumnDef {
    pub id: ColumnId,
    /// Durable per-relation identity. Zero is reserved for transient query-only
    /// columns that are never serialized into a catalog relation.
    pub object_id: ColumnObjectId,
    pub name: String,
    pub data_type: DataType,
    pub nullable: bool,
    /// Maximum length in characters for a bounded character type
    /// (`VARCHAR(n)` / `CHAR(n)`); `None` means unbounded. Enforced at write
    /// time by the executor, not represented as a distinct `DataType`.
    pub max_length: Option<u32>,
    /// The column `DEFAULT` applied when an `INSERT`/`COPY` omits the column.
    /// Persisted inside its relation object and replayed through catalog changes.
    pub default: Option<ColumnDefault>,
    /// The declared PostgreSQL wire type, persisted so the column reports the same
    /// OID/typmod after a restart. Use [`ColumnDef::wire_type`] rather than
    /// reading this directly so transient unlabeled columns resolve consistently.
    pub pg_type: Option<PgType>,
}

/// The declared wire type, or else the default one of the type.
pub open spec fn wire_type_or_default(pg_type: Option<PgType>, data_type: DataType) -> PgType {
    match pg_type {
        Some(pg_type) => pg_type,
        None => PgType::of_data_type(data_type),
    }
}

fn declared_or_default(pg_type: &Option<PgType>, data_type: &DataType) -> (wire_type: PgType)
    ensures
        wire_type == wire_type_or_default(*pg_type, *data_type),
{
    match pg_type {
        Some(pg_type) => pg_type.clone(),
        None => PgType::from(data_type),
    }
}

/// Equality of defaults that may be missing.
pub open spec fn same_default(a: Option<ColumnDefault>, b: Option<ColumnDefault>) -> bool {
    match (a, b) {
        (Some(a), Some(b)) => a.same(b),
        (None, None) => true,
        _ => false,
    }
}

fn is_same_default(a: &Option<ColumnDefault>, b: &Option<ColumnDefault>) -> (same: bool)
    ensures
        same == same_default(*a, *b),
{
    match (a, b) {
        (Some(a), Some(b)) => *a == *b,
        (None, None) => true,
        _ => false,
    }
}

fn same_optional_u32(a: Option<u32>, b: Option<u32>) -> (same: bool)
    ensures
        same == (a == b),
{
    match (a, b) {
        (Some(a), Some(b)) => a == b,
        (None, None) => true,
        _ => false,
    }
}

impl ColumnDef {
    /// Equality of columns.
    pub open spec fn same(self, other: Self) -> bool {
        &&& self.id == other.id
        &&& self.object_id == other.object_id
        &&& self.name@ == other.name@
        &&& self.data_type == other.data_type
        &&& self.nullable == other.nullable
        &&& self.max_length == other.max_length
        &&& same_default(self.default, other.default)
        &&& self.pg_type == other.pg_type
    }

    /// The column's PostgreSQL wire type, resolving an unlabeled column (`None`)
    /// to the collapsed default derived from its `DataType` (`Integer` => int8,
    /// `Text` => text). This is what the protocol should report; it is always
    /// concrete.
    pub fn wire_type(&self) -> (wire_type: PgType)
        ensures
            wire_type == wire_type_or_default(self.pg_type, self.data_type),
    {
        declared_or_default(&self.pg_type, &self.data_type)
    }
}

impl PartialEq for ColumnDef {
    fn eq(&self, other: &Self) -> (equal: bool) {
        self.id == other.id && self.object_id == other.object_id && text::same_text(
            &self.name,
            &other.name,
        ) && self.data_type == other.data_type && self.nullable == other.nullable
            && same_optional_u32(self.max_length, other.max_length) && is_same_default(
            &self.default,
            &other.default,
        ) && stored_expression::same_wire_type(&self.pg_type, &other.pg_type)
    }
}

impl vstd::std_specs::cmp::PartialEqSpecImpl for ColumnDef {
    open spec fn obeys_eq_spec() -> bool {
        true
    }

    open spec fn eq_spec(&self, other: &Self) -> bool {
        self.same(*other)
    }
}

impl Eq for ColumnDef {

}

impl Clone for ColumnDef {
    fn clone(&self) -> (copy: Self)
        ensures
            self.same(copy),
    {
        ColumnDef {
            id: self.id,
            object_id: self.object_id,
            name: self.name.clone(),
            data_type: self.data_type.clone(),
            nullable: self.nullable,
            max_length: self.max_length,
            default: match &self.default {
                Some(default) => Some(default.clone()),
                None => None,
            },
            pg_type: copies::copied_wire_type(&self.pg_type),
        }
    }
}

/// Lists of columns that are equal one by one.
pub open spec fn same_columns(a: Seq<ColumnDef>, b: Seq<ColumnDef>) -> bool {
    a.len() == b.len() && forall|i: int| 0 <= i < a.len() ==> (#[trigger] a[i]).same(b[i])
}

fn copied_columns(columns: &Vec<ColumnDef>) -> (copy: Vec<ColumnDef>)
    ensures
        same_columns(columns@, copy@),
{
    let mut copy: Vec<ColumnDef> = Vec::new();
    let mut i: usize = 0;
    while i < columns.len()
        invariant
            i <= columns@.len(),
            copy@.len() == i,
            forall|j: int| 0 <= j < i ==> (#[trigger] columns@[j]).same(copy@[j]),
        decreases columns@.len() - i,
    {
        copy.push(columns[i].clone());
        i += 1;
    }
    copy
}

fn copied_column_ids(ids: &Vec<ColumnId>) -> (copy: Vec<ColumnId>)
    ensures
        copy@ == ids@,
{
    let mut copy: Vec<ColumnId> = Vec::new();
    copy.extend_from_slice(ids.as_slice());
    assert(copy@ =~= ids@);
    copy
}

fn are_same_columns(a: &Vec<ColumnDef>, b: &Vec<ColumnDef>) -> (same: bool)
    ensures
        same == same_columns(a@, b@),
{
    if a.len() != b.len() {
        return false;
    }
    let mut i: usize = 0;
    while i < a.len()
        invariant
            i <= a@.len(),
            a@.len() == b@.len(),
            forall|j: int| 0 <= j < i ==> (#[trigger] a@[j]).same(b@[j]),
        decreases a@.len() - i,
    {
        if a[i] != b[i] {
            assert(!a@[i as int].same(b@[i as int]));
            return false;
        }
        i += 1;
    }
    true
}

fn same_column_ids(a: &Vec<ColumnId>, b: &Vec<ColumnId>) -> (same: bool)
    ensures
        same == (a@ == b@),
{
    if a.len() != b.len() {
        return false;
    }
    let mut i: usize = 0;
    while i < a.len()
        invariant
            i <= a@.len(),
            a@.len() == b@.len(),
            forall|j: int| 0 <= j < i ==> a@[j] == b@[j],
        decreases a@.len() - i,
    {
        if a[i] != b[i] {
            assert(a@[i as int] != b@[i as int]);
            return false;
        }
        i += 1;
    }
    assert(a@ =~= b@);
    true
}

fn same_schema_ids(a: &Vec<SchemaId>, b: &Vec<SchemaId>) -> (same: bool)
    ensures
        same == (a@ == b@),
{
    if a.len() != b.len() {
        return false;
    }
    let mut i: usize = 0;
    while i < a.len()
        invariant
            i <= a@.len(),
            a@.len() == b@.len(),
            forall|j: int| 0 <= j < i ==> a@[j] == b@[j],
        decreases a@.len() - i,
    {
        if a[i] != b[i] {
            assert(a@[i as int] != b@[i as int]);
            return false;
        }
        i += 1;
    }
    assert(a@ =~= b@);
    true
}

/// A column of a result.
#[derive(Clone, Debug, PartialEq, Eq)]
pub struct ColumnInfo {
    pub name: String,
    pub data_type: DataType,
    pub table_id: Option<TableId>,
    pub column_id: Option<ColumnId>,
    /// The declared PostgreSQL wire type of this result column. `None` for a
    /// synthetic/computed column, which resolves to the collapsed default from
    /// `data_type`. Use [`ColumnInfo::wire_type`] rather than reading this directly.
    pub pg_type: Option<PgType>,
}

impl ColumnInfo {
    /// The column's PostgreSQL wire type, resolving an unlabeled column (`None`) to
    /// the collapsed default derived from its `DataType` (`Integer` => int8,
    /// `Text` => text). This is what the protocol reports; it is always concrete.
    pub fn wire_type(&self) -> (wire_type: PgType)
        ensures
            wire_type == wire_type_or_default(self.pg_type, self.data_type),
    {
        declared_or_default(&self.pg_type, &self.data_type)
    }
}

/// A column of a view.
#[derive(Clone, Debug, PartialEq, Eq)]
pub struct ViewColumn {
    pub name: String,
    pub data_type: DataType,
    pub nullable: bool,
    /// The declared PostgreSQL wire type for this view output column. `None`
    /// resolves to the collapsed default from `data_type`.
    pub pg_type: Option<PgType>,
}

/// Immediate referential action supported by foreign-key metadata.
#[derive(Clone, Copy, Debug, PartialEq, Eq, Structural)]
pub enum ForeignKeyAction {
    NoAction,
    Restrict,
}

#[derive(Clone, Debug, PartialEq, Eq)]
pub struct ForeignKeyConstraint {
    pub id: ConstraintId,
    pub name: String,
    pub columns: Vec<ColumnId>,
    pub referenced_table: TableId,
    pub referenced_columns: Vec<ColumnId>,
    pub referenced_index: IndexId,
    pub on_update: ForeignKeyAction,
    pub on_delete: ForeignKeyAction,
}

#[derive(Clone, Debug, PartialEq, Eq)]
pub enum ConstraintKind {
    Check { expression: StoredExpression },
    PrimaryKey { columns: Vec<ColumnObjectId>, index: IndexId },
    Unique { columns: Vec<ColumnObjectId>, index: IndexId },
    ForeignKey {
        columns: Vec<ColumnObjectId>,
        referenced_table: TableId,
        referenced_constraint: ConstraintId,
        referenced_columns: Vec<ColumnObjectId>,
        on_update: ForeignKeyAction,
        on_delete: ForeignKeyAction,
        supporting_index: Option<IndexId>,
    },
}

#[derive(Clone, Debug, PartialEq, Eq)]
pub struct ConstraintSchema {
    pub id: ConstraintId,
    pub table: TableId,
    pub name: String,
    pub kind: ConstraintKind,
    pub deferrable: bool,
    pub initially_deferred: bool,
    pub validated: bool,
}

/// A table.
#[derive(Debug)]
pub struct TableSchema {
    pub id: TableId,
    pub schema_id: SchemaId,
    /// Physical storage-generation id for this table's heap and primary index.
    /// Zero is reserved and rejected by catalog validation.
    pub storage_id: FileId,
    pub name: String,
    pub columns: Vec<ColumnDef>,
    pub primary_key: Vec<ColumnId>,
    /// Monotonic logical schema version. It starts at 1 for a newly created
    /// relation and increments on public schema metadata changes.
    pub schema_version: u64,
    /// At-rest page compression for this table's heap and index files.
    pub compression: CompressionSetting,
    /// The trained dictionary new heap-page writes compress against
    /// (`None` until an ALTER trains one). Index files never use it.
    pub active_dict_id: Option<u32>,
    /// Storage-private TOAST policy for future writes.
    pub toast: ToastOptions,
    /// Hidden companion relation for out-of-line toast chunks, when present.
    pub toast_table_id: Option<TableId>,
    /// User table vs. hidden toast relation metadata.
    pub relation_kind: RelationKind,
    /// Next never-reused durable column identity within this relation.
    pub next_column_object_id: ColumnObjectId,
}

/// The first column from `start` on with the given durable identity.
pub open spec fn column_with_object_id(
    columns: Seq<ColumnDef>,
    object_id: ColumnObjectId,
    start: nat,
) -> Option<ColumnDef>
    decreases columns.len() - start,
{
    if start >= columns.len() {
        None
    } else if columns[start as int].object_id == object_id {
        Some(columns[start as int])
    } else {
        column_with_object_id(columns, object_id, start + 1)
    }
}

/// The first column from `start` on with the given storage ordinal.
pub open spec fn column_with_id(columns: Seq<ColumnDef>, id: ColumnId, start: nat) -> Option<
    ColumnDef,
>
    decreases columns.len() - start,
{
    if start >= columns.len() {
        None
    } else if columns[start as int].id == id {
        Some(columns[start as int])
    } else {
        column_with_id(columns, id, start + 1)
    }
}

impl TableSchema {
    /// Equality of tables.
    pub open spec fn same(self, other: Self) -> bool {
        &&& self.id == other.id
        &&& self.schema_id == other.schema_id
        &&& self.storage_id == other.storage_id
        &&& self.name@ == other.name@
        &&& same_columns(self.columns@, other.columns@)
        &&& self.primary_key@ == other.primary_key@
        &&& self.schema_version == other.schema_version
        &&& self.compression == other.compression
        &&& self.active_dict_id == other.active_dict_id
        &&& self.toast == other.toast
        &&& self.toast_table_id == other.toast_table_id
        &&& self.relation_kind == other.relation_kind
        &&& self.next_column_object_id == other.next_column_object_id
    }

    /// Neither a storage ordinal nor a durable identity occurs twice.
    pub open spec fn has_distinct_columns(self) -> bool {
        forall|i: int, j: int|
            0 <= i < j < self.columns@.len() ==> (#[trigger] self.columns@[i]).id != (
            #[trigger] self.columns@[j]).id && self.columns@[i].object_id
                != self.columns@[j].object_id
    }

    /// The column with the given durable identity.
    pub fn column_by_object_id(&self, object_id: ColumnObjectId) -> (found: Option<&ColumnDef>)
        ensures
            match found {
                Some(column) => column_with_object_id(self.columns@, object_id, 0) == Some(*column),
                None => column_with_object_id(self.columns@, object_id, 0) is None,
            },
    {
        let mut i: usize = 0;
        while i < self.columns.len()
            invariant
                i <= self.columns@.len(),
                column_with_object_id(self.columns@, object_id, 0) == column_with_object_id(
                    self.columns@,
                    object_id,
                    i as nat,
                ),
            decreases self.columns@.len() - i,
        {
            if self.columns[i].object_id == object_id {
                return Some(&self.columns[i]);
            }
            i += 1;
        }
        None
    }

    /// The storage ordinal of the column with the given durable identity.
    pub fn dense_column_id(&self, object_id: ColumnObjectId) -> (id: Option<ColumnId>)
        ensures
            id == match column_with_object_id(self.columns@, object_id, 0) {
                Some(column) => Some(column.id),
                None => None,
            },
    {
        match self.column_by_object_id(object_id) {
            Some(column) => Some(column.id),
            None => None,
        }
    }

    /// The durable identity of the column with the given storage ordinal.
    pub fn stable_column_id(&self, column_id: ColumnId) -> (object_id: Option<ColumnObjectId>)
        ensures
            object_id == match column_with_id(self.columns@, column_id, 0) {
                Some(column) => Some(column.object_id),
                None => None,
            },
    {
        let mut i: usize = 0;
        while i < self.columns.len()
            invariant
                i <= self.columns@.len(),
                column_with_id(self.columns@, column_id, 0) == column_with_id(
                    self.columns@,
                    column_id,
                    i as nat,
                ),
            decreases self.columns@.len() - i,
        {
            if self.columns[i].id == column_id {
                return Some(self.columns[i].object_id);
            }
            i += 1;
        }
        None
    }

    /// In a table whose columns have distinct ordinals and identities, the column with
    /// an identity is the column with its ordinal, and the other way round.
    pub proof fn column_ids_are_inverse(self, object_id: ColumnObjectId, id: ColumnId)
        requires
            self.has_distinct_columns(),
        ensures
            match column_with_object_id(self.columns@, object_id, 0) {
                Some(column) => column_with_id(self.columns@, column.id, 0) == Some(column),
                None => true,
            },
            match column_with_id(self.columns@, id, 0) {
                Some(column) => column_with_object_id(self.columns@, column.object_id, 0) == Some(
                    column,
                ),
                None => true,
            },
    {
        if column_with_object_id(self.columns@, object_id, 0) is Some {
            let i = lemma_object_index(self.columns@, object_id, 0);
            self.lemma_column_found(i, 0);
        }
        if column_with_id(self.columns@, id, 0) is Some {
            let i = lemma_id_index(self.columns@, id, 0);
            self.lemma_column_found(i, 0);
        }
    }

    proof fn lemma_column_found(self, index: int, start: nat)
        requires
            self.has_distinct_columns(),
            start <= index < self.columns@.len(),
        ensures
            column_with_id(self.columns@, self.columns@[index].id, start) == Some(
                self.columns@[index],
            ),
            column_with_object_id(self.columns@, self.columns@[index].object_id, start) == Some(
                self.columns@[index],
            ),
        decreases index - start,
    {
        if start < index {
            assert(self.columns@[start as int].id != self.columns@[index].id);
            self.lemma_column_found(index, start + 1);
        }
    }
}

proof fn lemma_object_index(columns: Seq<ColumnDef>, object_id: ColumnObjectId, start: nat) -> (index:
    int)
    requires
        column_with_object_id(columns, object_id, start) is Some,
    ensures
        start <= index < columns.len(),
        column_with_object_id(columns, object_id, start) == Some(columns[index]),
    decreases columns.len() - start,
{
    if columns[start as int].object_id == object_id {
        start as int
    } else {
        lemma_object_index(columns, object_id, start + 1)
    }
}

proof fn lemma_id_index(columns: Seq<ColumnDef>, id: ColumnId, start: nat) -> (index: int)
    requires
        column_with_id(columns, id, start) is Some,
    ensures
        start <= index < columns.len(),
        column_with_id(columns, id, start) == Some(columns[index]),
    decreases columns.len() - start,
{
    if columns[start as int].id == id {
        start as int
    } else {
        lemma_id_index(columns, id, start + 1)
    }
}

impl PartialEq for TableSchema {
    fn eq(&self, other: &Self) -> (equal: bool) {
        self.id == other.id && self.schema_id == other.schema_id && self.storage_id
            == other.storage_id && text::same_text(&self.name, &other.name) && are_same_columns(
            &self.columns,
            &other.columns,
        ) && same_column_ids(&self.primary_key, &other.primary_key) && self.schema_version
            == other.schema_version && self.compression == other.compression && same_optional_u32(
            self.active_dict_id,
            other.active_dict_id,
        ) && self.toast == other.toast && same_optional_u32(
            self.toast_table_id,
            other.toast_table_id,
        ) && self.relation_kind == other.relation_kind && self.next_column_object_id
            == other.next_column_object_id
    }
}

impl vstd::std_specs::cmp::PartialEqSpecImpl for TableSchema {
    open spec fn obeys_eq_spec() -> bool {
        true
    }

    open spec fn eq_spec(&self, other: &Self) -> bool {
        self.same(*other)
    }
}

impl Eq for TableSchema {

}

impl Clone for TableSchema {
    fn clone(&self) -> (copy: Self)
        ensures
            self.same(copy),
    {
        TableSchema {
            id: self.id,
            schema_id: self.schema_id,
            storage_id: self.storage_id,
            name: self.name.clone(),
            columns: copied_columns(&self.columns),
            primary_key: copied_column_ids(&self.primary_key),
            schema_version: self.schema_version,
            compression: self.compression,
            active_dict_id: self.active_dict_id,
            toast: self.toast.clone(),
            toast_table_id: self.toast_table_id,
            relation_kind: self.relation_kind.clone(),
            next_column_object_id: self.next_column_object_id,
        }
    }
}

/// A view.
#[derive(Debug)]
pub struct ViewSchema {
    /// Version of the durable view-catalog payload.
    pub format_version: u32,
    pub id: TableId,
    pub schema_id: SchemaId,
    pub name: String,
    pub columns: Vec<ColumnDef>,
    /// Canonical SQL text for the view query.
    pub definition: String,
    /// Catalog-resolved typed query used for execution and dependencies.
    pub query: StoredQueryV1,
    pub schema_version: u64,
    pub definition_search_path: Vec<SchemaId>,
    /// Next never-reused durable output-column identity within this view.
    pub next_column_object_id: ColumnObjectId,
}

impl ViewSchema {
    /// Equality of views.
    pub open spec fn same(self, other: Self) -> bool {
        &&& self.format_version == other.format_version
        &&& self.id == other.id
        &&& self.schema_id == other.schema_id
        &&& self.name@ == other.name@
        &&& same_columns(self.columns@, other.columns@)
        &&& self.definition@ == other.definition@
        &&& self.query.same(other.query)
        &&& self.schema_version == other.schema_version
        &&& self.definition_search_path@ == other.definition_search_path@
        &&& self.next_column_object_id == other.next_column_object_id
    }

    /// A decoded view, unless its payload has a version that is not supported.
    pub fn from_stored(stored: ViewSchema) -> (result: core::result::Result<ViewSchema, String>)
        ensures
            match result {
                Ok(view) => stored.format_version == VIEW_SCHEMA_FORMAT_VERSION && view == stored,
                Err(message) => stored.format_version != VIEW_SCHEMA_FORMAT_VERSION && message@
                    == "unsupported view catalog encoding version "@ + text::decimal_text(
                    stored.format_version as nat,
                ),
            },
    {
        if stored.format_version != VIEW_SCHEMA_FORMAT_VERSION {
            return Err(
                text::numbered(
                    "unsupported view catalog encoding version ",
                    stored.format_version as u128,
                ),
            );
        }
        Ok(stored)
    }
}

impl PartialEq for ViewSchema {
    fn eq(&self, other: &Self) -> (equal: bool) {
        self.format_version == other.format_version && self.id == other.id && self.schema_id
            == other.schema_id && text::same_text(&self.name, &other.name) && are_same_columns(
            &self.columns,
            &other.columns,
        ) && text::same_text(&self.definition, &other.definition) && self.query == other.query
            && self.schema_version == other.schema_version && same_schema_ids(
            &self.definition_search_path,
            &other.definition_search_path,
        ) && self.next_column_object_id == other.next_column_object_id
    }
}

impl vstd::std_specs::cmp::PartialEqSpecImpl for ViewSchema {
    open spec fn obeys_eq_spec() -> bool {
        true
    }

    open spec fn eq_spec(&self, other: &Self) -> bool {
        self.same(*other)
    }
}

impl Eq for ViewSchema {

}

impl Clone for ViewSchema {
    fn clone(&self) -> (copy: Self)
        ensures
            self.same(copy),
    {
        ViewSchema {
            format_version: self.format_version,
            id: self.id,
            schema_id: self.schema_id,
            name: self.name.clone(),
            columns: copied_columns(&self.columns),
            definition: self.definition.clone(),
            query: self.query.clone(),
            schema_version: self.schema_version,
            definition_search_path: copies::copied_numbers(&self.definition_search_path),
            next_column_object_id: self.next_column_object_id,
        }
    }
}

#[derive(Clone, Debug, PartialEq, Eq)]
pub struct SequenceOptions {
    pub increment: i64,
    pub start: Option<i64>,
    pub min_value: Option<i64>,
    pub max_value: Option<i64>,
    pub cycle: bool,
}

impl Default for SequenceOptions {
    fn default() -> (options: Self)
        ensures
            options == (SequenceOptions {
                increment: 1,
                start: None,
                min_value: None,
                max_value: None,
                cycle: false,
            }),
    {
        SequenceOptions {
            increment: 1,
            start: None,
            min_value: None,
            max_value: None,
            cycle: false,
        }
    }
}

/// A sequence.
#[derive(Clone, Debug)]
pub struct SequenceSchema {
    pub id: SequenceId,
    pub schema_id: SchemaId,
    pub name: String,
    pub increment: i64,
    pub min_value: i64,
    pub max_value: i64,
    pub start: i64,
    pub cycle: bool,
    pub owned: bool,
    pub last_value: i64,
    pub is_called: bool,
}

impl SequenceSchema {
    /// Equality of sequences.
    pub open spec fn same(self, other: Self) -> bool {
        &&& self.id == other.id
        &&& self.schema_id == other.schema_id
        &&& self.name@ == other.name@
        &&& self.increment == other.increment
        &&& self.min_value == other.min_value
        &&& self.max_value == other.max_value
        &&& self.start == other.start
        &&& self.cycle == other.cycle
        &&& self.owned == other.owned
        &&& self.last_value == other.last_value
        &&& self.is_called == other.is_called
    }
}

impl PartialEq for SequenceSchema {
    fn eq(&self, other: &Self) -> (equal: bool) {
        self.id == other.id && self.schema_id == other.schema_id && text::same_text(
            &self.name,
            &other.name,
        ) && self.increment == other.increment && self.min_value == other.min_value
            && self.max_value == other.max_value && self.start == other.start && self.cycle
            == other.cycle && self.owned == other.owned && self.last_value == other.last_value
            && self.is_called == other.is_called
    }
}

impl vstd::std_specs::cmp::PartialEqSpecImpl for SequenceSchema {
    open spec fn obeys_eq_spec() -> bool {
        true
    }

    open spec fn eq_spec(&self, other: &Self) -> bool {
        self.same(*other)
    }
}

impl Eq for SequenceSchema {

}

/// A secondary index over one or more columns of a table. `unique` rejects
/// duplicate indexed values; the B-tree stores the heap TID as a value tiebreaker
/// so duplicate non-unique keys can coexist.
#[derive(Clone, Debug)]
pub struct IndexSchema {
    pub id: IndexId,
    pub schema_id: SchemaId,
    /// Physical storage-generation id for this secondary index. `0` means a
    /// missing or invalid generation and is rejected by catalog validation.
    pub storage_id: FileId,
    pub table: TableId,
    pub name: String,
    pub columns: Vec<ColumnId>,
    pub unique: bool,
    pub constraint: Option<ConstraintId>,
}

impl IndexSchema {
    /// Equality of indexes.
    pub open spec fn same(self, other: Self) -> bool {
        &&& self.id == other.id
        &&& self.schema_id == other.schema_id
        &&& self.storage_id == other.storage_id
        &&& self.table == other.table
        &&& self.name@ == other.name@
        &&& self.columns@ == other.columns@
        &&& self.unique == other.unique
        &&& self.constraint == other.constraint
    }
}

impl PartialEq for IndexSchema {
    fn eq(&self, other: &Self) -> (equal: bool) {
        self.id == other.id && self.schema_id == other.schema_id && self.storage_id
            == other.storage_id && self.table == other.table && text::same_text(
            &self.name,
            &other.name,
        ) && same_column_ids(&self.columns, &other.columns) && self.unique == other.unique
            && same_optional_u32(self.constraint, other.constraint)
    }
}

impl vstd::std_specs::cmp::PartialEqSpecImpl for IndexSchema {
    open spec fn obeys_eq_spec() -> bool {
        true
    }

    open spec fn eq_spec(&self, other: &Self) -> bool {
        self.same(*other)
    }
}

impl Eq for IndexSchema {

}

#[derive(Clone, Debug, PartialEq, Eq)]
pub struct TruncateTablePlan {
    pub table_id: TableId,
    pub new_table_storage_id: FileId,
    pub new_toast_storage_id: Option<(TableId, FileId)>,
    pub new_index_storage_ids: Vec<(IndexId, FileId)>,
}

#[derive(Clone, Debug, PartialEq, Eq)]
pub struct TruncateCatalogUpdate {
    pub table: TableSchema,
    pub toast_table: Option<TableSchema>,
    pub indexes: Vec<IndexSchema>,
}

proof fn lemma_found_column(columns: Seq<ColumnDef>, object_id: ColumnObjectId, id: ColumnId, start: nat, i: int)
    ensures
        match column_with_object_id(columns, object_id, start) {
            Some(column) => column.object_id == object_id && columns.contains(column),
            None => start <= i < columns.len() ==> columns[i].object_id != object_id,
        },
        match column_with_id(columns, id, start) {
            Some(column) => column.id == id && columns.contains(column),
            None => start <= i < columns.len() ==> columns[i].id != id,
        },
    decreases columns.len() - start,
{
    if start < columns.len() {
        lemma_found_column(columns, object_id, id, start + 1, i);
        assert(columns.contains(columns[start as int]));
    }
}

/// A column that is found is one of the columns and has the number that was looked for,
/// and one that is not found is not there.
pub proof fn found_columns_have_their_number(
    columns: Seq<ColumnDef>,
    object_id: ColumnObjectId,
    id: ColumnId,
    i: int,
)
    ensures
        match column_with_object_id(columns, object_id, 0) {
            Some(column) => column.object_id == object_id && columns.contains(column),
            None => 0 <= i < columns.len() ==> columns[i].object_id != object_id,
        },
        match column_with_id(columns, id, 0) {
            Some(column) => column.id == id && columns.contains(column),
            None => 0 <= i < columns.len() ==> columns[i].id != id,
        },
{
    lemma_found_column(columns, object_id, id, 0, i);
}

/// A column is shown as it was declared, and in the default way of its type where nothing
/// was declared.
pub proof fn columns_are_shown_as_declared(declared: PgType, data_type: DataType)
    ensures
        wire_type_or_default(Some(declared), data_type) == declared,
        wire_type_or_default(None, data_type) == PgType::of_data_type(data_type),
{
}

/// A stored view is taken exactly if it is in the one version that is known, and it is
/// taken as it is.
pub proof fn views_are_read_in_their_version(
    stored: ViewSchema,
    result: core::result::Result<ViewSchema, String>,
)
    requires
        call_ensures(ViewSchema::from_stored, (stored,), result),
    ensures
        result is Ok <==> stored.format_version == VIEW_SCHEMA_FORMAT_VERSION,
        result is Ok ==> result->Ok_0 == stored,
{
}

/// A sequence for which nothing is said counts up by ones without a bound of its own and
/// does not begin again.
pub proof fn sequences_count_up_by_default(options: SequenceOptions)
    requires
        call_ensures(<SequenceOptions as Default>::default, (), options),
    ensures
        options.increment == 1,
        options.start is None,
        options.min_value is None && options.max_value is None,
        !options.cycle,
{
}

/// A name is shown behind its schema and a dot, and alone where it has no schema.
pub proof fn names_are_shown_behind_their_schema(name: QualifiedName)
    ensures
        name.schema is None ==> name.spec_text() == name.name@,
        name.schema matches Some(schema) ==> {
            let shown = name.spec_text();
            &&& shown.len() == schema@.len() + 1 + name.name@.len()
            &&& shown.take(schema@.len() as int) == schema@
            &&& shown[schema@.len() as int] == '.'
            &&& shown.skip(schema@.len() as int + 1) == name.name@
        },
{
    if let Some(schema) = name.schema {
        let shown = name.spec_text();
        assert(shown.take(schema@.len() as int) =~= schema@);
        assert(shown.skip(schema@.len() as int + 1) =~= name.name@);
    }
}

} // verus!
