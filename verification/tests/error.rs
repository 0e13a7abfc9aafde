use saguaro_common::{DbError, ErrorKind, SqlState};

#[test]
fn sqlstate_code_round_trips_known_codes() {
    for state in [
        SqlState::SuccessfulCompletion,
        SqlState::SyntaxError,
        SqlState::UndefinedTable,
        SqlState::InvalidSchemaName,
        SqlState::UndefinedColumn,
        SqlState::UndefinedObject,
        SqlState::InvalidColumnReference,
        SqlState::WrongObjectType,
        SqlState::DuplicateTable,
        SqlState::DuplicateSchema,
        SqlState::InsufficientPrivilege,
        SqlState::InvalidTableDefinition,
        SqlState::DuplicateCursor,
        SqlState::DatatypeMismatch,
        SqlState::DivisionByZero,
        SqlState::InvalidParameterValue,
        SqlState::NumericValueOutOfRange,
        SqlState::StringDataRightTruncation,
        SqlState::InvalidTextRepresentation,
        SqlState::InvalidBinaryRepresentation,
        SqlState::BadCopyFileFormat,
        SqlState::NotNullViolation,
        SqlState::UniqueViolation,
        SqlState::CheckViolation,
        SqlState::ForeignKeyViolation,
        SqlState::CardinalityViolation,
        SqlState::DependentObjectsStillExist,
        SqlState::InvalidForeignKey,
        SqlState::DuplicateObject,
        SqlState::ObjectNotInPrerequisiteState,
        SqlState::LockNotAvailable,
        SqlState::InvalidCursorName,
        SqlState::QueryCanceled,
        SqlState::FeatureNotSupported,
        SqlState::InFailedSqlTransaction,
        SqlState::NoActiveSqlTransaction,
        SqlState::InvalidSavepointSpecification,
        SqlState::ProgramLimitExceeded,
        SqlState::SerializationFailure,
        SqlState::DeadlockDetected,
        SqlState::IoError,
        SqlState::InternalError,
    ] {
        assert_eq!(SqlState::from_code(state.code()), Some(state));
    }
    assert_eq!(SqlState::from_code("99999"), None);
}

#[test]
fn errors_carry_their_layer_code_and_message() {
    let error = DbError::storage(SqlState::InternalError, "bad page");
    assert_eq!(error.kind, ErrorKind::Storage);
    assert_eq!(error.code, SqlState::InternalError);
    assert_eq!(error.message, "bad page");
    assert_eq!(error.detail, None);
    assert_eq!(error.hint, None);
    assert_eq!(DbError::io("lost").code, SqlState::IoError);
    assert_eq!(DbError::internal("oops").kind, ErrorKind::Internal);
}

#[test]
fn constructors_set_the_kind_and_code() {
    let error = DbError::protocol(SqlState::SyntaxError, "bad frame");
    assert_eq!(error.kind, ErrorKind::Protocol);
    assert_eq!(error.code, SqlState::SyntaxError);
    assert_eq!(error.message, "bad frame");
    let error = DbError::durability_outcome_unknown("lost");
    assert_eq!(error.kind, ErrorKind::DurabilityOutcomeUnknown);
    assert_eq!(error.code, SqlState::IoError);
}
