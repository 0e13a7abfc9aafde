//! Compression and TOAST settings, and the hidden relations that hold out-of-line
//! values.

use vstd::prelude::*;

use crate::ids::TableId;
use crate::pg_type::PgType;
use crate::schema::relation::{ColumnDef, TableSchema, INITIAL_SCHEMA_VERSION};
use crate::schema::DataType;
use crate::text;

verus! {

pub const DEFAULT_TOAST_TUPLE_TARGET: u32 = 2048;

pub const MIN_TOAST_TUPLE_TARGET: u32 = 256;

pub const MAX_TOAST_TUPLE_TARGET: u32 = 8000;

pub const DEFAULT_TOAST_MIN_VALUE_SIZE: u32 = 1024;

pub const AGGRESSIVE_TOAST_MIN_VALUE_SIZE: u32 = 256;

pub const MIN_TOAST_MIN_VALUE_SIZE: u32 = 128;

pub const MIN_TOAST_COMPRESSION_SAVINGS: usize = 16;

/// Per-table at-rest page compression setting. Governs only the table's file
/// envelopes; WAL full-page-image compression is unconditional and independent of this
/// setting.
#[derive(Clone, Copy, Debug, PartialEq, Eq, Structural)]
pub enum CompressionSetting {
    Uncompressed,
    Zstd,
}

impl Default for CompressionSetting {
    fn default() -> (setting: Self)
        ensures
            setting == CompressionSetting::Uncompressed,
    {
        CompressionSetting::Uncompressed
    }
}

#[derive(Clone, Copy, Debug, PartialEq, Eq, Structural)]
pub enum ToastMode {
    Off,
    Auto,
    Aggressive,
}

#[derive(Clone, Copy, Debug, PartialEq, Eq, Structural)]
pub enum ToastCompression {
    Uncompressed,
    Zstd,
    ZstdDict,
}

#[derive(Clone, Copy, Debug, PartialEq, Eq, Structural)]
pub struct ToastOptions {
    pub mode: ToastMode,
    pub tuple_target: u32,
    pub min_value_size: u32,
    pub compression: ToastCompression,
    pub active_dict_id: Option<u32>,
}

#[derive(Clone, Copy, Debug, Default, PartialEq, Eq)]
pub struct ToastOptionPatch {
    pub mode: Option<ToastMode>,
    pub tuple_target: Option<u32>,
    pub min_value_size: Option<u32>,
    pub compression: Option<ToastCompression>,
}

#[derive(Clone, Copy, Debug, Default, PartialEq, Eq)]
pub struct TableOptionPatch {
    pub compression: Option<CompressionSetting>,
    pub toast: ToastOptionPatch,
}

impl ToastOptions {
    pub fn default_new_table() -> (options: Self)
        ensures
            options == (ToastOptions {
                mode: ToastMode::Auto,
                tuple_target: DEFAULT_TOAST_TUPLE_TARGET,
                min_value_size: DEFAULT_TOAST_MIN_VALUE_SIZE,
                compression: ToastCompression::ZstdDict,
                active_dict_id: None,
            }),
    {
        ToastOptions {
            mode: ToastMode::Auto,
            tuple_target: DEFAULT_TOAST_TUPLE_TARGET,
            min_value_size: DEFAULT_TOAST_MIN_VALUE_SIZE,
            compression: ToastCompression::ZstdDict,
            active_dict_id: None,
        }
    }

    /// The options of a relation whose values are never moved out of line.
    pub open spec fn spec_disabled() -> ToastOptions {
        ToastOptions {
            mode: ToastMode::Off,
            tuple_target: DEFAULT_TOAST_TUPLE_TARGET,
            min_value_size: DEFAULT_TOAST_MIN_VALUE_SIZE,
            compression: ToastCompression::Uncompressed,
            active_dict_id: None,
        }
    }

    pub fn disabled() -> (options: Self)
        ensures
            options == ToastOptions::spec_disabled(),
    {
        ToastOptions {
            mode: ToastMode::Off,
            tuple_target: DEFAULT_TOAST_TUPLE_TARGET,
            min_value_size: DEFAULT_TOAST_MIN_VALUE_SIZE,
            compression: ToastCompression::Uncompressed,
            active_dict_id: None,
        }
    }

    /// The options with a patch applied: what the patch sets replaces what was there.
    /// The aggressive mode brings its own minimum value size unless the patch sets
    /// one, and a new compression forgets the trained dictionary.
    pub open spec fn patched(self, patch: ToastOptionPatch) -> ToastOptions {
        ToastOptions {
            mode: match patch.mode {
                Some(mode) => mode,
                None => self.mode,
            },
            tuple_target: match patch.tuple_target {
                Some(tuple_target) => tuple_target,
                None => self.tuple_target,
            },
            min_value_size: match patch.min_value_size {
                Some(min_value_size) => min_value_size,
                None => if patch.mode == Some(ToastMode::Aggressive) {
                    AGGRESSIVE_TOAST_MIN_VALUE_SIZE
                } else {
                    self.min_value_size
                },
            },
            compression: match patch.compression {
                Some(compression) => compression,
                None => self.compression,
            },
            active_dict_id: match patch.compression {
                Some(_) => None,
                None => self.active_dict_id,
            },
        }
    }

    pub fn apply_patch(&self, patch: &ToastOptionPatch) -> (options: Self)
        ensures
            options == self.patched(*patch),
    {
        let mut options: ToastOptions = *self;
        if let Some(mode) = patch.mode {
            options.mode = mode;
            if mode == ToastMode::Aggressive && patch.min_value_size.is_none() {
                options.min_value_size = AGGRESSIVE_TOAST_MIN_VALUE_SIZE;
            }
        }
        if let Some(tuple_target) = patch.tuple_target {
            options.tuple_target = tuple_target;
        }
        if let Some(min_value_size) = patch.min_value_size {
            options.min_value_size = min_value_size;
        }
        if let Some(compression) = patch.compression {
            options.compression = compression;
            options.active_dict_id = None;
        }
        options
    }

    /// An empty patch changes nothing, and applying a patch twice is applying it once.
    pub proof fn patches_are_idempotent(self, patch: ToastOptionPatch)
        ensures
            patch.spec_is_empty() ==> self.patched(patch) == self,
            self.patched(patch).patched(patch) == self.patched(patch),
    {
    }
}

impl ToastOptionPatch {
    /// Nothing is set.
    pub open spec fn spec_is_empty(self) -> bool {
        self.mode is None && self.tuple_target is None && self.min_value_size is None
            && self.compression is None
    }

    pub fn is_empty(&self) -> (empty: bool)
        ensures
            empty == self.spec_is_empty(),
    {
        self.mode.is_none() && self.tuple_target.is_none() && self.min_value_size.is_none()
            && self.compression.is_none()
    }
}

impl TableOptionPatch {
    pub fn is_empty(&self) -> (empty: bool)
        ensures
            empty == (self.compression is None && self.toast.spec_is_empty()),
    {
        self.compression.is_none() && self.toast.is_empty()
    }
}

#[derive(Clone, Copy, Debug, PartialEq, Eq, Structural)]
pub enum RelationKind {
    User,
    Toast { base_table: TableId },
}

impl Default for RelationKind {
    fn default() -> (kind: Self)
        ensures
            kind == RelationKind::User,
    {
        RelationKind::User
    }
}

/// A column of this type may hold values that are moved out of line.
pub open spec fn may_be_toasted(data_type: DataType) -> bool {
    data_type is Text || data_type is Bytea || data_type is Array
}

/// Whether a table needs a companion relation for out-of-line values.
pub fn needs_toast_relation(schema: &TableSchema) -> (needs: bool)
    ensures
        needs == (schema.relation_kind == RelationKind::User && exists|i: int|
            0 <= i < schema.columns@.len() && may_be_toasted(
                (#[trigger] schema.columns@[i]).data_type,
            )),
{
    if schema.relation_kind != RelationKind::User {
        return false;
    }
    let mut i: usize = 0;
    while i < schema.columns.len()
        invariant
            i <= schema.columns@.len(),
            schema.relation_kind == RelationKind::User,
            forall|j: int|
                0 <= j < i ==> !may_be_toasted((#[trigger] schema.columns@[j]).data_type),
        decreases schema.columns@.len() - i,
    {
        if matches!(
            schema.columns[i].data_type,
            DataType::Text | DataType::Bytea | DataType::Array(_)
        ) {
            assert(may_be_toasted(schema.columns@[i as int].data_type));
            return true;
        }
        i += 1;
    }
    false
}

/// The name of the companion relation of a table. No user can spell it.
pub open spec fn toast_name(base_table: TableId) -> Seq<char> {
    "\0toast_"@ + text::decimal_text(base_table as nat)
}

pub fn toast_relation_name(base_table: TableId) -> (name: String)
    ensures
        name@ == toast_name(base_table),
{
    text::numbered("\0toast_", base_table as u128)
}

/// A column of the companion relation.
pub open spec fn is_toast_column(
    column: ColumnDef,
    id: int,
    name: Seq<char>,
    data_type: DataType,
    pg_type: PgType,
) -> bool {
    &&& column.id == id
    &&& column.object_id == id + 1
    &&& column.name@ == name
    &&& column.data_type == data_type
    &&& !column.nullable
    &&& column.max_length is None
    &&& column.default is None
    &&& column.pg_type == Some(pg_type)
}

/// The companion relation of a table: chunks of values by value and sequence number.
pub open spec fn is_toast_schema(schema: TableSchema, base: TableSchema, toast_id: TableId) -> bool {
    &&& schema.id == toast_id
    &&& schema.schema_id == base.schema_id
    &&& schema.storage_id == toast_id
    &&& schema.name@ == toast_name(base.id)
    &&& schema.columns@.len() == 3
    &&& is_toast_column(schema.columns@[0], 0, "value_id"@, DataType::Integer, PgType::Int8)
    &&& is_toast_column(schema.columns@[1], 1, "seq"@, DataType::Integer, PgType::Int4)
    &&& is_toast_column(schema.columns@[2], 2, "data"@, DataType::Bytea, PgType::Bytea)
    &&& schema.primary_key@ == seq![0u16, 1u16]
    &&& schema.schema_version == INITIAL_SCHEMA_VERSION
    &&& schema.compression == CompressionSetting::Uncompressed
    &&& schema.active_dict_id is None
    &&& schema.toast == ToastOptions::spec_disabled()
    &&& schema.toast_table_id is None
    &&& schema.relation_kind == RelationKind::Toast { base_table: base.id }
    &&& schema.next_column_object_id == 4
}

fn toast_column(id: u16, name: &str, data_type: DataType, pg_type: PgType) -> (column: ColumnDef)
    requires
        id < 3,
    ensures
        is_toast_column(column, id as int, name@, data_type, pg_type),
{
    ColumnDef {
        id,
        object_id: id as u32 + 1,
        name: name.to_owned(),
        data_type,
        nullable: false,
        max_length: None,
        default: None,
        pg_type: Some(pg_type),
    }
}

pub fn toast_schema(base: &TableSchema, toast_id: TableId) -> (schema: TableSchema)
    ensures
        is_toast_schema(schema, *base, toast_id),
{
    let mut columns: Vec<ColumnDef> = Vec::new();
    columns.push(toast_column(0, "value_id", DataType::Integer, PgType::Int8));
    columns.push(toast_column(1, "seq", DataType::Integer, PgType::Int4));
    columns.push(toast_column(2, "data", DataType::Bytea, PgType::Bytea));
    let mut primary_key: Vec<u16> = Vec::new();
    primary_key.push(0);
    primary_key.push(1);
    assert(primary_key@ =~= seq![0u16, 1u16]);
    TableSchema {
        id: toast_id,
        schema_id: base.schema_id,
        storage_id: toast_id,
        name: toast_relation_name(base.id),
        columns,
        primary_key,
        schema_version: INITIAL_SCHEMA_VERSION,
        compression: CompressionSetting::Uncompressed,
        active_dict_id: None,
        toast: ToastOptions::disabled(),
        toast_table_id: None,
        relation_kind: RelationKind::Toast { base_table: base.id },
        next_column_object_id: 4,
    }
}

/// A companion relation needs no companion itself.
pub proof fn toast_relations_are_not_toasted(
    schema: TableSchema,
    base: TableSchema,
    toast_id: TableId,
)
    requires
        is_toast_schema(schema, base, toast_id),
    ensures
        schema.relation_kind != RelationKind::User,
        schema.has_distinct_columns(),
{
    assert forall|i: int, j: int| 0 <= i < j < schema.columns@.len() implies (
    #[trigger] schema.columns@[i]).id != (#[trigger] schema.columns@[j]).id
        && schema.columns@[i].object_id != schema.columns@[j].object_id by {
        assert(schema.columns@[0].id == 0 && schema.columns@[1].id == 1 && schema.columns@[2].id
            == 2);
    }
}

/// A patch sets the options that it names and leaves the others as they were, with two
/// exceptions: the aggressive mode brings a minimum of 256 bytes where the patch names
/// none, and a new compression forgets the dictionary that was trained for the old one.
pub proof fn patches_set_what_they_name(options: ToastOptions, patch: ToastOptionPatch)
    ensures
        ({
            let after = options.patched(patch);
            &&& patch.mode is Some ==> after.mode == patch.mode->0
            &&& patch.mode is None ==> after.mode == options.mode
            &&& patch.tuple_target is Some ==> after.tuple_target == patch.tuple_target->0
            &&& patch.tuple_target is None ==> after.tuple_target == options.tuple_target
            &&& patch.compression is Some ==> after.compression == patch.compression->0
                && after.active_dict_id is None
            &&& patch.compression is None ==> after.compression == options.compression
                && after.active_dict_id == options.active_dict_id
            &&& patch.min_value_size is Some ==> after.min_value_size == patch.min_value_size->0
            &&& patch.min_value_size is None && patch.mode != Some(ToastMode::Aggressive)
                ==> after.min_value_size == options.min_value_size
            &&& patch.min_value_size is None && patch.mode == Some(ToastMode::Aggressive)
                ==> after.min_value_size == 256
        }),
{
}

/// New tables move values out of line by themselves: from 1024 bytes on, to bring a row
/// below 2048 bytes, compressed with a dictionary; where that is switched off nothing is
/// compressed.
pub proof fn new_tables_are_toasted(new: ToastOptions, off: ToastOptions)
    requires
        call_ensures(ToastOptions::default_new_table, (), new),
        call_ensures(ToastOptions::disabled, (), off),
    ensures
        new.mode == ToastMode::Auto && off.mode == ToastMode::Off,
        new.tuple_target == 2048 && new.min_value_size == 1024,
        new.compression == ToastCompression::ZstdDict && off.compression
            == ToastCompression::Uncompressed,
        new.active_dict_id is None && off.active_dict_id is None,
{
}

/// A user's table needs a companion exactly if one of its columns, whichever, holds texts,
/// byte strings or arrays.
pub proof fn long_values_need_a_companion(schema: &TableSchema, needs: bool, i: int)
    requires
        call_ensures(needs_toast_relation, (schema,), needs),
        0 <= i < schema.columns@.len(),
    ensures
        ({
            let long = |t: DataType| t is Text || t is Bytea || t is Array;
            &&& schema.relation_kind == RelationKind::User && long(schema.columns@[i].data_type)
                ==> needs
            &&& schema.relation_kind != RelationKind::User ==> !needs
            &&& needs ==> exists|j: int|
                0 <= j < schema.columns@.len() && long((#[trigger] schema.columns@[j]).data_type)
        }),
{
    assert(schema.columns@[i] == schema.columns@[i]);
}

/// The companions of two tables have different names, and none of them is a name that
/// begins with a letter.
pub proof fn companions_have_their_own_names(a: TableId, b: TableId)
    ensures
        toast_name(a) == toast_name(b) ==> a == b,
        toast_name(a)[0] as int == 0,
{
    reveal_strlit("\0toast_");
    text::lemma_decimal_text_denotes(a as nat);
    text::lemma_decimal_text_denotes(b as nat);
    assert(toast_name(a).skip(7) =~= text::decimal_text(a as nat));
    assert(toast_name(b).skip(7) =~= text::decimal_text(b as nat));
}

/// The companion of a table holds the parts of its long values: whose value it is, which
/// part it is, and the bytes, none of them NULL. A part is found by its value and its
/// number. The companion is a relation of its own beside its table.
pub proof fn companions_hold_numbered_parts(schema: TableSchema, base: TableSchema, id: TableId, i: int)
    requires
        is_toast_schema(schema, base, id),
    ensures
        schema.id == id && schema.storage_id == id && schema.schema_id == base.schema_id,
        schema.name@ == toast_name(base.id),
        schema.relation_kind matches RelationKind::Toast { base_table } && base_table == base.id,
        schema.columns@.len() == 3,
        schema.columns@[0].name@ == "value_id"@ && schema.columns@[0].data_type is Integer,
        schema.columns@[1].name@ == "seq"@ && schema.columns@[1].data_type is Integer,
        schema.columns@[2].name@ == "data"@ && schema.columns@[2].data_type is Bytea,
        schema.primary_key@.len() == 2,
        schema.primary_key@[0] == schema.columns@[0].id,
        schema.primary_key@[1] == schema.columns@[1].id,
        0 <= i < 3 ==> {
            let column = schema.columns@[i];
            &&& column.id == i
            &&& 0 < column.object_id < schema.next_column_object_id
            &&& !column.nullable
            &&& column.default is None && column.max_length is None
            &&& column.pg_type is Some && column.pg_type->0.refines(column.data_type)
        },
        schema.toast_table_id is None,
        schema.has_distinct_columns(),
{
    reveal_with_fuel(PgType::spec_data_type, 2);
}

} // verus!
