//! Built-in scalar functions.

pub mod ask;
pub mod calls;
pub mod catalog;
pub mod evaluate;
pub mod hint;
pub mod inquiries;
pub mod meaning;
pub mod overloads;
pub mod registry;
pub mod signature;
pub mod soundness;
pub mod strings;

pub use catalog::{format_type_oid, pg_proc_catalog_entries, pg_proc_catalog_entry, PgProcCatalogEntry};
pub use hint::scalar_function_arg_hint;
pub use registry::{
    lookup_scalar_function, lookup_scalar_function_by_id, scalar_function_arg_pg_type,
    scalar_function_id, scalar_function_id_matches, scalar_function_result_pg_type, Evaluator,
    NullHandling, ScalarFunction,
};
pub use signature::ArgType;
