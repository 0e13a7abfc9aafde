//! Errors shared by every layer, with their SQLSTATE codes.

use vstd::prelude::*;

use crate::text::same_text;

verus! {

/// The layer that raised an error.
#[derive(Clone, Copy, Debug, PartialEq, Eq, Structural)]
pub enum ErrorKind {
    Parse,
    Plan,
    Execute,
    Storage,
    Io,
    Wal,
    /// A durability commit point may or may not have reached stable storage.
    /// The process must stop without reporting rollback or continuing service.
    DurabilityOutcomeUnknown,
    Protocol,
    Internal,
}

/// The SQLSTATE condition of an error.
#[derive(Clone, Copy, Debug, PartialEq, Eq, Structural)]
pub enum SqlState {
    SuccessfulCompletion,
    SyntaxError,
    UndefinedTable,
    /// `3F000`: a schema name is not recognized.
    InvalidSchemaName,
    UndefinedColumn,
    /// `42704`: an object-like name is not recognized, e.g. a `SHOW` of an
    /// unknown configuration parameter.
    UndefinedObject,
    /// `42P10`: a column reference is invalid in its context, e.g. a
    /// `SELECT DISTINCT` query whose `ORDER BY` references an expression that is
    /// not in the select list, or a `DISTINCT ON` whose expressions do not match
    /// the leading `ORDER BY` expressions.
    InvalidColumnReference,
    /// `42809`: an existing object has the requested name but not the expected
    /// relation kind, e.g. `DROP TABLE` names a view.
    WrongObjectType,
    DuplicateTable,
    /// `42P06`: a schema already exists with the requested name.
    DuplicateSchema,
    /// `42501`: the current user is not permitted to perform the operation.
    InsufficientPrivilege,
    /// `42P16`: an ALTER would leave a table definition invalid.
    InvalidTableDefinition,
    /// `42P03`: a cursor declaration used a name that is already open in the
    /// current session.
    DuplicateCursor,
    /// `42P18`: a value such as an empty array or bare placeholder has no type
    /// context from which its concrete type can be inferred.
    IndeterminateDatatype,
    DatatypeMismatch,
    DivisionByZero,
    /// `22023`: a validly typed argument or option has an invalid value, e.g.
    /// `CREATE SEQUENCE INCREMENT BY 0`.
    InvalidParameterValue,
    NumericValueOutOfRange,
    /// `22001`: a value is too long for a bounded character type, e.g. a string
    /// longer than `n` assigned to a `VARCHAR(n)` / `CHAR(n)` column.
    StringDataRightTruncation,
    /// `22P02`: a text field could not be parsed into its target type (e.g. a
    /// non-numeric value for an `INTEGER` column in `COPY ... FROM`).
    InvalidTextRepresentation,
    /// `22P03`: a binary wire value is malformed for its declared SQL type.
    InvalidBinaryRepresentation,
    /// `22P04`: a `COPY ... FROM` input row is structurally malformed - the
    /// wrong number of columns, or an unterminated CSV quote.
    BadCopyFileFormat,
    NotNullViolation,
    UniqueViolation,
    /// `23514`: a row violates a table's `CHECK` constraint - the constraint
    /// expression evaluated to `false` for the proposed row (a `NULL`/unknown
    /// result passes, matching PostgreSQL).
    CheckViolation,
    /// `23503`: a write violates a foreign-key constraint.
    ForeignKeyViolation,
    /// `21000`: a subquery used as an expression returned more than one row where
    /// at most one was expected (a scalar subquery).
    CardinalityViolation,
    /// `2BP01`: an object cannot be dropped because another object depends on it,
    /// e.g. a column default still references a sequence.
    DependentObjectsStillExist,
    /// `42830`: referenced columns lack an eligible declared key constraint.
    InvalidForeignKey,
    /// `42710`: a named constraint or other object already exists.
    DuplicateObject,
    /// `55000`: the object is not in the prerequisite state for the requested
    /// operation, e.g. `currval` before this session has called `nextval`/`setval`
    /// for that sequence.
    ObjectNotInPrerequisiteState,
    /// `55006`: the requested operation conflicts with another object owned by
    /// the same session, such as TRUNCATE against a parked cursor.
    ObjectInUse,
    /// `55P03`: a requested lock cannot be acquired immediately under `NOWAIT`.
    LockNotAvailable,
    /// `34000`: `FETCH`/`CLOSE` named a cursor that is not open in the session.
    InvalidCursorName,
    QueryCanceled,
    FeatureNotSupported,
    /// `25P02`: a statement other than `COMMIT`/`ROLLBACK` was issued inside a
    /// transaction block that has already failed. The block must be ended before
    /// any further command is accepted.
    InFailedSqlTransaction,
    /// `25P01`: a `SAVEPOINT`/`RELEASE`/`ROLLBACK TO` was issued with no open
    /// transaction block (savepoints are valid only inside `BEGIN`...`COMMIT`).
    NoActiveSqlTransaction,
    /// `3B001`: `RELEASE`/`ROLLBACK TO` named a savepoint that does not exist in
    /// the current transaction.
    InvalidSavepointSpecification,
    /// `54000`: a statement exceeded an implementation limit, e.g. a row or
    /// logical varlena value cannot fit within the supported storage format.
    ProgramLimitExceeded,
    /// `40001`: a write-write conflict against a **committed**-superseded version -
    /// another transaction updated/deleted the target row since this writer's
    /// snapshot. A conflict against an *in-progress* writer does not map here:
    /// the server **blocks** on it (waiting for the holder) and only surfaces
    /// `40001` if the holder turns out to have committed. See `crate::mvcc::write_conflict`.
    SerializationFailure,
    /// `40P01`: a deadlock was detected - two or more transactions are each waiting
    /// for a row lock held by another, forming a cycle. The timeout-based detector
    /// aborts a victim (the detecting waiter) with this code.
    DeadlockDetected,
    IoError,
    InternalError,
}

impl SqlState {
    /// The five-character SQLSTATE code of a condition.
    pub open spec fn spec_code(self) -> Seq<char> {
        match self {
            SqlState::SuccessfulCompletion => "00000"@,
            SqlState::SyntaxError => "42601"@,
            SqlState::UndefinedTable => "42P01"@,
            SqlState::InvalidSchemaName => "3F000"@,
            SqlState::UndefinedColumn => "42703"@,
            SqlState::UndefinedObject => "42704"@,
            SqlState::InvalidColumnReference => "42P10"@,
            SqlState::WrongObjectType => "42809"@,
            SqlState::DuplicateTable => "42P07"@,
            SqlState::DuplicateSchema => "42P06"@,
            SqlState::InsufficientPrivilege => "42501"@,
            SqlState::InvalidTableDefinition => "42P16"@,
            SqlState::DuplicateCursor => "42P03"@,
            SqlState::IndeterminateDatatype => "42P18"@,
            SqlState::DatatypeMismatch => "42804"@,
            SqlState::DivisionByZero => "22012"@,
            SqlState::InvalidParameterValue => "22023"@,
            SqlState::NumericValueOutOfRange => "22003"@,
            SqlState::StringDataRightTruncation => "22001"@,
            SqlState::InvalidTextRepresentation => "22P02"@,
            SqlState::InvalidBinaryRepresentation => "22P03"@,
            SqlState::BadCopyFileFormat => "22P04"@,
            SqlState::NotNullViolation => "23502"@,
            SqlState::UniqueViolation => "23505"@,
            SqlState::CheckViolation => "23514"@,
            SqlState::ForeignKeyViolation => "23503"@,
            SqlState::CardinalityViolation => "21000"@,
            SqlState::DependentObjectsStillExist => "2BP01"@,
            SqlState::InvalidForeignKey => "42830"@,
            SqlState::DuplicateObject => "42710"@,
            SqlState::ObjectNotInPrerequisiteState => "55000"@,
            SqlState::ObjectInUse => "55006"@,
            SqlState::LockNotAvailable => "55P03"@,
            SqlState::InvalidCursorName => "34000"@,
            SqlState::QueryCanceled => "57014"@,
            SqlState::FeatureNotSupported => "0A000"@,
            SqlState::InFailedSqlTransaction => "25P02"@,
            SqlState::NoActiveSqlTransaction => "25P01"@,
            SqlState::InvalidSavepointSpecification => "3B001"@,
            SqlState::ProgramLimitExceeded => "54000"@,
            SqlState::SerializationFailure => "40001"@,
            SqlState::DeadlockDetected => "40P01"@,
            SqlState::IoError => "58030"@,
            SqlState::InternalError => "XX000"@,
        }
    }

    /// The code read as a base-256 number; distinct conditions have distinct numbers.
    spec fn code_number(self) -> int {
        match self {
            SqlState::SuccessfulCompletion => 206966894640,
            SqlState::SyntaxError => 224180711473,
            SqlState::UndefinedTable => 224182415409,
            SqlState::InvalidSchemaName => 220220895280,
            SqlState::UndefinedColumn => 224180777011,
            SqlState::UndefinedObject => 224180777012,
            SqlState::InvalidColumnReference => 224182415664,
            SqlState::WrongObjectType => 224180842553,
            SqlState::DuplicateTable => 224182415415,
            SqlState::DuplicateSchema => 224182415414,
            SqlState::InsufficientPrivilege => 224180645937,
            SqlState::InvalidTableDefinition => 224182415670,
            SqlState::DuplicateCursor => 224182415411,
            SqlState::IndeterminateDatatype => 224182415672,
            SqlState::DatatypeMismatch => 224180842548,
            SqlState::DivisionByZero => 215590383922,
            SqlState::InvalidParameterValue => 215590384179,
            SqlState::NumericValueOutOfRange => 215590383667,
            SqlState::StringDataRightTruncation => 215590383665,
            SqlState::InvalidTextRepresentation => 215592480818,
            SqlState::InvalidBinaryRepresentation => 215592480819,
            SqlState::BadCopyFileFormat => 215592480820,
            SqlState::NotNullViolation => 215607488562,
            SqlState::UniqueViolation => 215607488565,
            SqlState::CheckViolation => 215607488820,
            SqlState::ForeignKeyViolation => 215607488563,
            SqlState::CardinalityViolation => 215573606448,
            SqlState::DependentObjectsStillExist => 215860916273,
            SqlState::InvalidForeignKey => 224180843312,
            SqlState::DuplicateObject => 224180777264,
            SqlState::ObjectNotInPrerequisiteState => 228525617200,
            SqlState::ObjectInUse => 228525617206,
            SqlState::LockNotAvailable => 228527714355,
            SqlState::InvalidCursorName => 219918905392,
            SqlState::QueryCanceled => 228559171892,
            SqlState::FeatureNotSupported => 207252107312,
            SqlState::InFailedSqlTransaction => 215642812466,
            SqlState::NoActiveSqlTransaction => 215642812465,
            SqlState::InvalidSavepointSpecification => 220153786417,
            SqlState::ProgramLimitExceeded => 228508839984,
            SqlState::SerializationFailure => 224146763825,
            SqlState::DeadlockDetected => 224148860977,
            SqlState::IoError => 228575949616,
            SqlState::InternalError => 379436675120,
        }
    }

    proof fn lemma_code_number(self)
        ensures
            self.spec_code().len() == 5,
            base_256(self.spec_code()) == self.code_number(),
    {
        match self {
            SqlState::SuccessfulCompletion => {
                reveal_strlit("00000");
            },
            SqlState::SyntaxError => {
                reveal_strlit("42601");
            },
            SqlState::UndefinedTable => {
                reveal_strlit("42P01");
            },
            SqlState::InvalidSchemaName => {
                reveal_strlit("3F000");
            },
            SqlState::UndefinedColumn => {
                reveal_strlit("42703");
            },
            SqlState::UndefinedObject => {
                reveal_strlit("42704");
            },
            SqlState::InvalidColumnReference => {
                reveal_strlit("42P10");
            },
            SqlState::WrongObjectType => {
                reveal_strlit("42809");
            },
            SqlState::DuplicateTable => {
                reveal_strlit("42P07");
            },
            SqlState::DuplicateSchema => {
                reveal_strlit("42P06");
            },
            SqlState::InsufficientPrivilege => {
                reveal_strlit("42501");
            },
            SqlState::InvalidTableDefinition => {
                reveal_strlit("42P16");
            },
            SqlState::DuplicateCursor => {
                reveal_strlit("42P03");
            },
            SqlState::IndeterminateDatatype => {
                reveal_strlit("42P18");
            },
            SqlState::DatatypeMismatch => {
                reveal_strlit("42804");
            },
            SqlState::DivisionByZero => {
                reveal_strlit("22012");
            },
            SqlState::InvalidParameterValue => {
                reveal_strlit("22023");
            },
            SqlState::NumericValueOutOfRange => {
                reveal_strlit("22003");
            },
            SqlState::StringDataRightTruncation => {
                reveal_strlit("22001");
            },
            SqlState::InvalidTextRepresentation => {
                reveal_strlit("22P02");
            },
            SqlState::InvalidBinaryRepresentation => {
                reveal_strlit("22P03");
            },
            SqlState::BadCopyFileFormat => {
                reveal_strlit("22P04");
            },
            SqlState::NotNullViolation => {
                reveal_strlit("23502");
            },
            SqlState::UniqueViolation => {
                reveal_strlit("23505");
            },
            SqlState::CheckViolation => {
                reveal_strlit("23514");
            },
            SqlState::ForeignKeyViolation => {
                reveal_strlit("23503");
            },
            SqlState::CardinalityViolation => {
                reveal_strlit("21000");
            },
            SqlState::DependentObjectsStillExist => {
                reveal_strlit("2BP01");
            },
            SqlState::InvalidForeignKey => {
                reveal_strlit("42830");
            },
            SqlState::DuplicateObject => {
                reveal_strlit("42710");
            },
            SqlState::ObjectNotInPrerequisiteState => {
                reveal_strlit("55000");
            },
            SqlState::ObjectInUse => {
                reveal_strlit("55006");
            },
            SqlState::LockNotAvailable => {
                reveal_strlit("55P03");
            },
            SqlState::InvalidCursorName => {
                reveal_strlit("34000");
            },
            SqlState::QueryCanceled => {
                reveal_strlit("57014");
            },
            SqlState::FeatureNotSupported => {
                reveal_strlit("0A000");
            },
            SqlState::InFailedSqlTransaction => {
                reveal_strlit("25P02");
            },
            SqlState::NoActiveSqlTransaction => {
                reveal_strlit("25P01");
            },
            SqlState::InvalidSavepointSpecification => {
                reveal_strlit("3B001");
            },
            SqlState::ProgramLimitExceeded => {
                reveal_strlit("54000");
            },
            SqlState::SerializationFailure => {
                reveal_strlit("40001");
            },
            SqlState::DeadlockDetected => {
                reveal_strlit("40P01");
            },
            SqlState::IoError => {
                reveal_strlit("58030");
            },
            SqlState::InternalError => {
                reveal_strlit("XX000");
            },
        }
    }

    proof fn lemma_numbers_are_distinct(a: SqlState, b: SqlState)
        requires
            a.code_number() == b.code_number(),
        ensures
            a == b,
    {
    }

    /// No two conditions share a code.
    pub proof fn codes_are_distinct(a: SqlState, b: SqlState)
        requires
            a.spec_code() == b.spec_code(),
        ensures
            a == b,
    {
        a.lemma_code_number();
        b.lemma_code_number();
        Self::lemma_numbers_are_distinct(a, b);
    }

    pub fn code(self) -> (code: &'static str)
        ensures
            code@ == self.spec_code(),
    {
        match self {
            SqlState::SuccessfulCompletion => "00000",
            SqlState::SyntaxError => "42601",
            SqlState::UndefinedTable => "42P01",
            SqlState::InvalidSchemaName => "3F000",
            SqlState::UndefinedColumn => "42703",
            SqlState::UndefinedObject => "42704",
            SqlState::InvalidColumnReference => "42P10",
            SqlState::WrongObjectType => "42809",
            SqlState::DuplicateTable => "42P07",
            SqlState::DuplicateSchema => "42P06",
            SqlState::InsufficientPrivilege => "42501",
            SqlState::InvalidTableDefinition => "42P16",
            SqlState::DuplicateCursor => "42P03",
            SqlState::IndeterminateDatatype => "42P18",
            SqlState::DatatypeMismatch => "42804",
            SqlState::DivisionByZero => "22012",
            SqlState::InvalidParameterValue => "22023",
            SqlState::NumericValueOutOfRange => "22003",
            SqlState::StringDataRightTruncation => "22001",
            SqlState::InvalidTextRepresentation => "22P02",
            SqlState::InvalidBinaryRepresentation => "22P03",
            SqlState::BadCopyFileFormat => "22P04",
            SqlState::NotNullViolation => "23502",
            SqlState::UniqueViolation => "23505",
            SqlState::CheckViolation => "23514",
            SqlState::ForeignKeyViolation => "23503",
            SqlState::CardinalityViolation => "21000",
            SqlState::DependentObjectsStillExist => "2BP01",
            SqlState::InvalidForeignKey => "42830",
            SqlState::DuplicateObject => "42710",
            SqlState::ObjectNotInPrerequisiteState => "55000",
            SqlState::ObjectInUse => "55006",
            SqlState::LockNotAvailable => "55P03",
            SqlState::InvalidCursorName => "34000",
            SqlState::QueryCanceled => "57014",
            SqlState::FeatureNotSupported => "0A000",
            SqlState::InFailedSqlTransaction => "25P02",
            SqlState::NoActiveSqlTransaction => "25P01",
            SqlState::InvalidSavepointSpecification => "3B001",
            SqlState::ProgramLimitExceeded => "54000",
            SqlState::SerializationFailure => "40001",
            SqlState::DeadlockDetected => "40P01",
            SqlState::IoError => "58030",
            SqlState::InternalError => "XX000",
        }
    }

    /// The condition with the given code, if any has it. Reading back what
    /// [`SqlState::code`] gave returns the same condition.
    pub fn from_code(code: &str) -> (state: Option<Self>)
        ensures
            forall|s: SqlState| (state == Some(s)) <==> #[trigger] s.spec_code() == code@,
    {
        proof {
            assert forall|a: SqlState, b: SqlState|
                #[trigger] a.spec_code() == code@ && #[trigger] b.spec_code() == code@ implies a
                == b by {
                Self::codes_are_distinct(a, b);
            }
        }
        if same_text(code, "00000") {
            assert(SqlState::SuccessfulCompletion.spec_code() == code@);
            return Some(SqlState::SuccessfulCompletion);
        }
        if same_text(code, "42601") {
            assert(SqlState::SyntaxError.spec_code() == code@);
            return Some(SqlState::SyntaxError);
        }
        if same_text(code, "42P01") {
            assert(SqlState::UndefinedTable.spec_code() == code@);
            return Some(SqlState::UndefinedTable);
        }
        if same_text(code, "3F000") {
            assert(SqlState::InvalidSchemaName.spec_code() == code@);
            return Some(SqlState::InvalidSchemaName);
        }
        if same_text(code, "42703") {
            assert(SqlState::UndefinedColumn.spec_code() == code@);
            return Some(SqlState::UndefinedColumn);
        }
        if same_text(code, "42704") {
            assert(SqlState::UndefinedObject.spec_code() == code@);
            return Some(SqlState::UndefinedObject);
        }
        if same_text(code, "42P10") {
            assert(SqlState::InvalidColumnReference.spec_code() == code@);
            return Some(SqlState::InvalidColumnReference);
        }
        if same_text(code, "42809") {
            assert(SqlState::WrongObjectType.spec_code() == code@);
            return Some(SqlState::WrongObjectType);
        }
        if same_text(code, "42P07") {
            assert(SqlState::DuplicateTable.spec_code() == code@);
            return Some(SqlState::DuplicateTable);
        }
        if same_text(code, "42P06") {
            assert(SqlState::DuplicateSchema.spec_code() == code@);
            return Some(SqlState::DuplicateSchema);
        }
        if same_text(code, "42501") {
            assert(SqlState::InsufficientPrivilege.spec_code() == code@);
            return Some(SqlState::InsufficientPrivilege);
        }
        if same_text(code, "42P16") {
            assert(SqlState::InvalidTableDefinition.spec_code() == code@);
            return Some(SqlState::InvalidTableDefinition);
        }
        if same_text(code, "42P03") {
            assert(SqlState::DuplicateCursor.spec_code() == code@);
            return Some(SqlState::DuplicateCursor);
        }
        if same_text(code, "42P18") {
            assert(SqlState::IndeterminateDatatype.spec_code() == code@);
            return Some(SqlState::IndeterminateDatatype);
        }
        if same_text(code, "42804") {
            assert(SqlState::DatatypeMismatch.spec_code() == code@);
            return Some(SqlState::DatatypeMismatch);
        }
        if same_text(code, "22012") {
            assert(SqlState::DivisionByZero.spec_code() == code@);
            return Some(SqlState::DivisionByZero);
        }
        if same_text(code, "22023") {
            assert(SqlState::InvalidParameterValue.spec_code() == code@);
            return Some(SqlState::InvalidParameterValue);
        }
        if same_text(code, "22003") {
            assert(SqlState::NumericValueOutOfRange.spec_code() == code@);
            return Some(SqlState::NumericValueOutOfRange);
        }
        if same_text(code, "22001") {
            assert(SqlState::StringDataRightTruncation.spec_code() == code@);
            return Some(SqlState::StringDataRightTruncation);
        }
        if same_text(code, "22P02") {
            assert(SqlState::InvalidTextRepresentation.spec_code() == code@);
            return Some(SqlState::InvalidTextRepresentation);
        }
        if same_text(code, "22P03") {
            assert(SqlState::InvalidBinaryRepresentation.spec_code() == code@);
            return Some(SqlState::InvalidBinaryRepresentation);
        }
        if same_text(code, "22P04") {
            assert(SqlState::BadCopyFileFormat.spec_code() == code@);
            return Some(SqlState::BadCopyFileFormat);
        }
        if same_text(code, "23502") {
            assert(SqlState::NotNullViolation.spec_code() == code@);
            return Some(SqlState::NotNullViolation);
        }
        if same_text(code, "23505") {
            assert(SqlState::UniqueViolation.spec_code() == code@);
            return Some(SqlState::UniqueViolation);
        }
        if same_text(code, "23514") {
            assert(SqlState::CheckViolation.spec_code() == code@);
            return Some(SqlState::CheckViolation);
        }
        if same_text(code, "23503") {
            assert(SqlState::ForeignKeyViolation.spec_code() == code@);
            return Some(SqlState::ForeignKeyViolation);
        }
        if same_text(code, "21000") {
            assert(SqlState::CardinalityViolation.spec_code() == code@);
            return Some(SqlState::CardinalityViolation);
        }
        if same_text(code, "2BP01") {
            assert(SqlState::DependentObjectsStillExist.spec_code() == code@);
            return Some(SqlState::DependentObjectsStillExist);
        }
        if same_text(code, "42830") {
            assert(SqlState::InvalidForeignKey.spec_code() == code@);
            return Some(SqlState::InvalidForeignKey);
        }
        if same_text(code, "42710") {
            assert(SqlState::DuplicateObject.spec_code() == code@);
            return Some(SqlState::DuplicateObject);
        }
        if same_text(code, "55000") {
            assert(SqlState::ObjectNotInPrerequisiteState.spec_code() == code@);
            return Some(SqlState::ObjectNotInPrerequisiteState);
        }
        if same_text(code, "55006") {
            assert(SqlState::ObjectInUse.spec_code() == code@);
            return Some(SqlState::ObjectInUse);
        }
        if same_text(code, "55P03") {
            assert(SqlState::LockNotAvailable.spec_code() == code@);
            return Some(SqlState::LockNotAvailable);
        }
        if same_text(code, "34000") {
            assert(SqlState::InvalidCursorName.spec_code() == code@);
            return Some(SqlState::InvalidCursorName);
        }
        if same_text(code, "57014") {
            assert(SqlState::QueryCanceled.spec_code() == code@);
            return Some(SqlState::QueryCanceled);
        }
        if same_text(code, "0A000") {
            assert(SqlState::FeatureNotSupported.spec_code() == code@);
            return Some(SqlState::FeatureNotSupported);
        }
        if same_text(code, "25P02") {
            assert(SqlState::InFailedSqlTransaction.spec_code() == code@);
            return Some(SqlState::InFailedSqlTransaction);
        }
        if same_text(code, "25P01") {
            assert(SqlState::NoActiveSqlTransaction.spec_code() == code@);
            return Some(SqlState::NoActiveSqlTransaction);
        }
        if same_text(code, "3B001") {
            assert(SqlState::InvalidSavepointSpecification.spec_code() == code@);
            return Some(SqlState::InvalidSavepointSpecification);
        }
        if same_text(code, "54000") {
            assert(SqlState::ProgramLimitExceeded.spec_code() == code@);
            return Some(SqlState::ProgramLimitExceeded);
        }
        if same_text(code, "40001") {
            assert(SqlState::SerializationFailure.spec_code() == code@);
            return Some(SqlState::SerializationFailure);
        }
        if same_text(code, "40P01") {
            assert(SqlState::DeadlockDetected.spec_code() == code@);
            return Some(SqlState::DeadlockDetected);
        }
        if same_text(code, "58030") {
            assert(SqlState::IoError.spec_code() == code@);
            return Some(SqlState::IoError);
        }
        if same_text(code, "XX000") {
            assert(SqlState::InternalError.spec_code() == code@);
            return Some(SqlState::InternalError);
        }
        None
    }
}

/// A text of five characters read as a base-256 number.
spec fn base_256(code: Seq<char>) -> int {
    (((code[0] as int * 256 + code[1] as int) * 256 + code[2] as int) * 256 + code[3] as int) * 256
        + code[4] as int
}

/// An error: the layer that raised it, its SQLSTATE, and its texts.
#[derive(Clone, Debug, PartialEq, Eq)]
pub struct DbError {
    pub kind: ErrorKind,
    pub code: SqlState,
    pub message: String,
    pub detail: Option<String>,
    pub hint: Option<String>,
}

/// What an error says, with its texts as character sequences.
pub struct ErrorView {
    pub kind: ErrorKind,
    pub code: SqlState,
    pub message: Seq<char>,
    pub detail: Option<Seq<char>>,
    pub hint: Option<Seq<char>>,
}

pub open spec fn optional_text(text: Option<String>) -> Option<Seq<char>> {
    match text {
        Some(text) => Some(text@),
        None => None,
    }
}

impl View for DbError {
    type V = ErrorView;

    open spec fn view(&self) -> ErrorView {
        ErrorView {
            kind: self.kind,
            code: self.code,
            message: self.message@,
            detail: optional_text(self.detail),
            hint: optional_text(self.hint),
        }
    }
}

/// An error with a message and neither detail nor hint.
pub open spec fn plain_error(kind: ErrorKind, code: SqlState, message: Seq<char>) -> ErrorView {
    ErrorView { kind, code, message, detail: None, hint: None }
}

/// A broken internal rule.
pub open spec fn internal_error(message: Seq<char>) -> ErrorView {
    plain_error(ErrorKind::Internal, SqlState::InternalError, message)
}

/// A statement that cannot be planned.
pub open spec fn plan_error(code: SqlState, message: Seq<char>) -> ErrorView {
    plain_error(ErrorKind::Plan, code, message)
}

/// A statement that failed while running.
pub open spec fn execute_error(code: SqlState, message: Seq<char>) -> ErrorView {
    plain_error(ErrorKind::Execute, code, message)
}

/// A failure of the storage layer.
pub open spec fn storage_error(code: SqlState, message: Seq<char>) -> ErrorView {
    plain_error(ErrorKind::Storage, code, message)
}

/// The result of a fallible operation of the library.
pub type Result<T> = core::result::Result<T, DbError>;

impl DbError {
    pub fn parse(code: SqlState, message: &str) -> (error: Self)
        ensures
            error@ == plain_error(ErrorKind::Parse, code, message@),
    {
        Self::new(ErrorKind::Parse, code, message)
    }

    pub fn plan(code: SqlState, message: &str) -> (error: Self)
        ensures
            error@ == plain_error(ErrorKind::Plan, code, message@),
    {
        Self::new(ErrorKind::Plan, code, message)
    }

    pub fn execute(code: SqlState, message: &str) -> (error: Self)
        ensures
            error@ == plain_error(ErrorKind::Execute, code, message@),
    {
        Self::new(ErrorKind::Execute, code, message)
    }

    pub fn storage(code: SqlState, message: &str) -> (error: Self)
        ensures
            error@ == plain_error(ErrorKind::Storage, code, message@),
    {
        Self::new(ErrorKind::Storage, code, message)
    }

    pub fn wal(code: SqlState, message: &str) -> (error: Self)
        ensures
            error@ == plain_error(ErrorKind::Wal, code, message@),
    {
        Self::new(ErrorKind::Wal, code, message)
    }

    pub fn protocol(code: SqlState, message: &str) -> (error: Self)
        ensures
            error@ == plain_error(ErrorKind::Protocol, code, message@),
    {
        Self::new(ErrorKind::Protocol, code, message)
    }

    pub fn durability_outcome_unknown(message: &str) -> (error: Self)
        ensures
            error@ == plain_error(ErrorKind::DurabilityOutcomeUnknown, SqlState::IoError, message@),
    {
        Self::new(ErrorKind::DurabilityOutcomeUnknown, SqlState::IoError, message)
    }

    pub fn io(message: &str) -> (error: Self)
        ensures
            error@ == plain_error(ErrorKind::Io, SqlState::IoError, message@),
    {
        Self::new(ErrorKind::Io, SqlState::IoError, message)
    }

    pub fn internal(message: &str) -> (error: Self)
        ensures
            error@ == plain_error(ErrorKind::Internal, SqlState::InternalError, message@),
    {
        Self::new(ErrorKind::Internal, SqlState::InternalError, message)
    }

    fn new(kind: ErrorKind, code: SqlState, message: &str) -> (error: Self)
        ensures
            error@ == plain_error(kind, code, message@),
    {
        Self { kind, code, message: message.to_owned(), detail: None, hint: None }
    }
}

/// The code of a condition has five characters, of which the first two name its class.
pub proof fn codes_tell_the_class(state: SqlState)
    ensures
        ({
            let code = state.spec_code();
            let class = |a: char, b: char| code[0] == a && code[1] == b;
            &&& code.len() == 5
            &&& class('0', '0') <==> state is SuccessfulCompletion
            &&& class('0', 'A') <==> state is FeatureNotSupported
            &&& class('2', '1') <==> state is CardinalityViolation
            &&& class('2', '2') <==> state is DivisionByZero || state is InvalidParameterValue
                || state is NumericValueOutOfRange || state is StringDataRightTruncation
                || state is InvalidTextRepresentation || state is InvalidBinaryRepresentation
                || state is BadCopyFileFormat
            &&& class('2', '3') <==> state is NotNullViolation || state is UniqueViolation
                || state is CheckViolation || state is ForeignKeyViolation
            &&& class('2', '5') <==> state is InFailedSqlTransaction || state
                is NoActiveSqlTransaction
            &&& class('2', 'B') <==> state is DependentObjectsStillExist
            &&& class('3', '4') <==> state is InvalidCursorName
            &&& class('3', 'B') <==> state is InvalidSavepointSpecification
            &&& class('3', 'F') <==> state is InvalidSchemaName
            &&& class('4', '0') <==> state is SerializationFailure || state is DeadlockDetected
            &&& class('4', '2') <==> state is SyntaxError || state is UndefinedTable
                || state is UndefinedColumn || state is UndefinedObject
                || state is InvalidColumnReference || state is WrongObjectType
                || state is DuplicateTable || state is DuplicateSchema
                || state is InsufficientPrivilege || state is InvalidTableDefinition
                || state is DuplicateCursor || state is IndeterminateDatatype
                || state is DatatypeMismatch || state is InvalidForeignKey
                || state is DuplicateObject
            &&& class('5', '4') <==> state is ProgramLimitExceeded
            &&& class('5', '5') <==> state is ObjectNotInPrerequisiteState || state is ObjectInUse
                || state is LockNotAvailable
            &&& class('5', '7') <==> state is QueryCanceled
            &&& class('5', '8') <==> state is IoError
            &&& class('X', 'X') <==> state is InternalError
        }),
{
    reveal_strlit("00000");
    reveal_strlit("42601");
    reveal_strlit("42P01");
    reveal_strlit("3F000");
    reveal_strlit("42703");
    reveal_strlit("42704");
    reveal_strlit("42P10");
    reveal_strlit("42809");
    reveal_strlit("42P07");
    reveal_strlit("42P06");
    reveal_strlit("42501");
    reveal_strlit("42P16");
    reveal_strlit("42P03");
    reveal_strlit("42P18");
    reveal_strlit("42804");
    reveal_strlit("22012");
    reveal_strlit("22023");
    reveal_strlit("22003");
    reveal_strlit("22001");
    reveal_strlit("22P02");
    reveal_strlit("22P03");
    reveal_strlit("22P04");
    reveal_strlit("23502");
    reveal_strlit("23505");
    reveal_strlit("23514");
    reveal_strlit("23503");
    reveal_strlit("21000");
    reveal_strlit("2BP01");
    reveal_strlit("42830");
    reveal_strlit("42710");
    reveal_strlit("55000");
    reveal_strlit("55006");
    reveal_strlit("55P03");
    reveal_strlit("34000");
    reveal_strlit("57014");
    reveal_strlit("0A000");
    reveal_strlit("25P02");
    reveal_strlit("25P01");
    reveal_strlit("3B001");
    reveal_strlit("54000");
    reveal_strlit("40001");
    reveal_strlit("40P01");
    reveal_strlit("58030");
    reveal_strlit("XX000");
}

} // verus!
