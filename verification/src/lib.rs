//! Shared types and rules of the database.

pub mod array;
pub mod array_text;
pub mod bytea;
pub mod bytes;
pub mod cancel;
pub mod catalog_change;
pub mod checked_bytes;
pub mod checkpoint;
pub mod compress;
pub mod concurrency;
pub mod context;
pub mod copy;
pub mod datetime;
pub mod durable;
pub mod error;
pub mod float;
pub mod float_text;
pub mod flush;
pub mod functions;
pub mod ids;
pub mod interval;
pub mod interval_text;
pub mod locking;
pub mod mvcc;
pub mod numeric;
pub mod order;
pub mod pg_type;
pub mod row;
pub mod schema;
pub mod statistics;
pub mod stored_expression;
pub mod stored_query;
pub mod text;
pub mod typing;
pub mod uuid;
pub mod value;

pub use array::{
    format_array_text_structure, parse_array_text_structure, value_matches_type, ArrayDimension,
    SqlArray, MAX_ARRAY_DIMENSIONS, MAX_ARRAY_ELEMENTS,
};
pub use cancel::{CancelReason, QueryCancel};
pub use catalog_change::{
    CatalogAllocatorHighWater, CatalogChangeSet, CatalogMutation, CatalogObject, CatalogObjectId,
    CatalogObjectMap, CATALOG_CHANGE_SET_VERSION, MAX_CATALOG_CHANGE_MUTATIONS,
};
pub use checked_bytes::{CheckedSliceReader, SliceReadError, SliceReadErrorKind};
pub use concurrency::{ConcurrencyController, RwLockConcurrencyController, WriteGuard};
pub use context::{
    no_catalog_introspection, no_system_state, CatalogIntrospectionProvider, ConflictWaiter,
    GucSetting, SequenceManager, SessionActivityRow, SessionInfo, SessionSequenceState,
    SessionState, SsiTracker, StatementContext, SystemStateProvider,
};
pub use copy::{CopyDirection, CopyFormat, CopyOptions};
pub use error::{DbError, ErrorKind, Result, SqlState};
pub use float::{OrderedF32, OrderedF64};
pub use flush::{FlushPolicy, PageFlushInfo};
pub use functions::{
    format_type_oid, lookup_scalar_function, lookup_scalar_function_by_id,
    pg_proc_catalog_entries, pg_proc_catalog_entry, scalar_function_arg_hint,
    scalar_function_arg_pg_type, scalar_function_id, scalar_function_id_matches,
    scalar_function_result_pg_type, ArgType, NullHandling, PgProcCatalogEntry, ScalarFunction,
};
pub use ids::{
    BindingId, ColumnId, ColumnObjectId, ConstraintId, FileId, FunctionId, IndexId, Lsn, PageNum,
    RowId, SchemaId, SequenceId, TableId, TxnId, FIRST_NORMAL_XID, FIRST_USER_SCHEMA_ID,
    FROZEN_XID, INVALID_XID, PRIMARY_KEY_INDEX_ID, PUBLIC_SCHEMA_ID,
};
pub use interval::Interval;
pub use locking::{
    TupleLockAcquire, TupleLockGrantChange, TupleLockManager, TupleLockMode, TupleLockTag,
    TupleLockWaitPolicy,
};
pub use mvcc::{
    classify_unique_conflict, is_dead_to_all, is_visible, version_conflicts, write_conflict,
    IsolationLevel, Snapshot, TxnStatus, TxnStatusView, UniqueConflict, WriteConflict,
    XMAX_ABORTED, XMAX_COMMITTED, XMIN_ABORTED, XMIN_COMMITTED,
};
pub use numeric::Decimal;
pub use pg_type::PgType;
pub use row::{ExecRow, Key, KeyBound, KeyRange, Row, RowIdentity, StoredRow};
pub use schema::{
    needs_toast_relation, toast_relation_name, toast_schema, ArrayType, ColumnDef, ColumnDefault,
    ColumnInfo, CompressionSetting, ConstraintKind, ConstraintSchema, DataType, ForeignKeyAction,
    ForeignKeyConstraint, IndexSchema, NamespaceSchema, ParsedColumnDef, ParsedDefault,
    QualifiedName, RelationKind, SequenceOptions, SequenceSchema, TableOptionPatch, TableSchema,
    ToastCompression, ToastMode, ToastOptionPatch, ToastOptions, TruncateCatalogUpdate,
    TruncateTablePlan, ViewColumn, ViewSchema, INITIAL_SCHEMA_VERSION, VIEW_SCHEMA_FORMAT_VERSION,
};
pub use statistics::{value_is_finite, ColumnStatistics, NDistinct, TableStatistics};
pub use stored_expression::{
    validate_stored_expression_shape, StoredBinOp, StoredExpr, StoredExpression, StoredUnaryOp,
    MAX_STORED_EXPRESSION_DEPTH, MAX_STORED_EXPRESSION_LIST_ITEMS, MAX_STORED_EXPRESSION_NODES,
    MAX_STORED_EXPRESSION_SQL_BYTES, STORED_EXPRESSION_VERSION,
};
pub use stored_query::{
    stored_query_function_exists, validate_stored_query_shape, StoredColumnReference,
    StoredCorrelatedColumn, StoredDistinct, StoredFrom, StoredJoinType, StoredOrderBy,
    StoredQueryBinOp, StoredQueryBody, StoredQueryColumn, StoredQueryExpr, StoredQueryUnaryOp,
    StoredQueryV1, StoredRangeColumn, StoredRowLock, StoredSelect, StoredSelectItem, StoredSetOp,
    StoredSetOperator, StoredTupleLockMode, StoredTupleLockWaitPolicy, StoredValues,
    GENERATE_SERIES_FUNCTION_ID, MAX_STORED_QUERY_COLUMNS, MAX_STORED_QUERY_DECODE_ITEMS,
    MAX_STORED_QUERY_DEPTH, MAX_STORED_QUERY_LIST_ITEMS, MAX_STORED_QUERY_NODES,
    STORED_QUERY_VERSION, UNNEST_FUNCTION_ID,
};
pub use value::{parse_bool_text, Value};

use vstd::prelude::*;

verus! {

/// PostgreSQL compatibility version reported to clients through
/// `server_version`, startup `ParameterStatus`, and `version()`.
pub const POSTGRES_COMPAT_VERSION: &'static str = "16.0";

} // verus!
