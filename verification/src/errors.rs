//! The failures that cross the access boundary.

use sqlx::error::Error as SqlxError;
use sqlx::error::ErrorKind;
use vstd::prelude::*;
use vstd::string::*;

verus! {

/// Why an operation on the store did not succeed. Each variant carries a
/// message for the caller.
#[derive(Clone, Debug, PartialEq, Eq)]
pub enum Error {
    /// A value broke a rule of the schema: a title too long, a coordinate out
    /// of range, a rating outside one to five.
    Validation(String),
    /// No row has the id that was asked for.
    NotFound(String),
    /// A row refers to another that does not exist.
    Constraint(String),
    /// The store could not be opened, created or reached.
    StorageUnavailable(String),
    /// What the store held could not be read back as a row.
    Serialization(String),
}

impl Error {
    /// The message, as a sequence of characters.
    pub open spec fn text(self) -> Seq<char> {
        match self {
            Error::Validation(m) => m@,
            Error::NotFound(m) => m@,
            Error::Constraint(m) => m@,
            Error::StorageUnavailable(m) => m@,
            Error::Serialization(m) => m@,
        }
    }

    /// The message that the error carries.
    pub fn message(&self) -> (r: String)
        ensures
            r@ == self.text(),
    {
        match self {
            Error::Validation(m) => m.clone(),
            Error::NotFound(m) => m.clone(),
            Error::Constraint(m) => m.clone(),
            Error::StorageUnavailable(m) => m.clone(),
            Error::Serialization(m) => m.clone(),
        }
    }

    /// A validation failure with the given message.
    pub fn validation(message: &str) -> (r: Error)
        ensures
            r matches Error::Validation(m) && m@ == message@,
    {
        Error::Validation(String::from_str(message))
    }

    /// A lookup failure with the given message.
    pub fn not_found(message: &str) -> (r: Error)
        ensures
            r matches Error::NotFound(m) && m@ == message@,
    {
        Error::NotFound(String::from_str(message))
    }

    /// A referential failure with the given message.
    pub fn constraint(message: &str) -> (r: Error)
        ensures
            r matches Error::Constraint(m) && m@ == message@,
    {
        Error::Constraint(String::from_str(message))
    }

    /// A storage failure with the given message.
    pub fn storage_unavailable(message: &str) -> (r: Error)
        ensures
            r matches Error::StorageUnavailable(m) && m@ == message@,
    {
        Error::StorageUnavailable(String::from_str(message))
    }
}

#[verifier::external_type_specification]
#[verifier::external_body]
pub struct ExSqlxError(SqlxError);

/// The ways in which a relational backend fails, as far as the kinds of
/// `Error` tell them apart.
#[derive(Clone, Copy, Debug, PartialEq, Eq, Structural)]
pub enum Failure {
    /// A query that must return a row returned none.
    RowNotFound,
    /// The database refused a statement.
    Database,
    /// The database could not be talked to.
    Io,
    /// No connection came free in time.
    PoolTimedOut,
    /// The pool of connections was closed.
    PoolClosed,
    /// A column could not be read as its type.
    ColumnDecode,
    /// A value could not be read as its type.
    Decode,
    /// A row lacks a column by name.
    ColumnNotFound,
    /// A row lacks a column by place.
    ColumnIndexOutOfBounds,
    /// Any other failure.
    Other,
}

/// The rule that a refused statement broke.
#[derive(Clone, Copy, Debug, PartialEq, Eq, Structural)]
pub enum Violation {
    /// A value that must occur once occurs twice.
    Unique,
    /// A row refers to one that does not exist.
    ForeignKey,
    /// A value that must be there is missing.
    NotNull,
    /// A value fails a check of its column.
    Check,
    /// No rule that the backend names.
    Unnamed,
    /// The failure is no refused statement.
    NoStatement,
}

/// Whether `e` is of the kind that a failure of the backend comes under: a
/// missing row is a lookup failure; a failed check or a missing value a
/// validation failure; a broken reference or a value that occurs twice a
/// referential failure; what cannot be read back a serialization failure;
/// everything else a storage failure. The rule counts only where a statement
/// was refused.
pub open spec fn of_kind(failure: Failure, violation: Violation, e: Error) -> bool {
    match failure {
        Failure::RowNotFound => e is NotFound,
        Failure::Database => match violation {
            Violation::Check | Violation::NotNull => e is Validation,
            Violation::ForeignKey | Violation::Unique => e is Constraint,
            _ => e is StorageUnavailable,
        },
        Failure::ColumnDecode
        | Failure::Decode
        | Failure::ColumnNotFound
        | Failure::ColumnIndexOutOfBounds => e is Serialization,
        _ => e is StorageUnavailable,
    }
}

/// The error for a failure of the backend: of the failure's kind, with `text`
/// as its message.
pub fn classify(failure: Failure, violation: Violation, text: String) -> (r: Error)
    ensures
        of_kind(failure, violation, r),
        r.text() == text@,
{
    match failure {
        Failure::RowNotFound => Error::NotFound(text),
        Failure::Database => match violation {
            Violation::Check => Error::Validation(text),
            Violation::NotNull => Error::Validation(text),
            Violation::ForeignKey => Error::Constraint(text),
            Violation::Unique => Error::Constraint(text),
            _ => Error::StorageUnavailable(text),
        },
        Failure::ColumnDecode => Error::Serialization(text),
        Failure::Decode => Error::Serialization(text),
        Failure::ColumnNotFound => Error::Serialization(text),
        Failure::ColumnIndexOutOfBounds => Error::Serialization(text),
        _ => Error::StorageUnavailable(text),
    }
}

// The variant of a failure of `sqlx`, as far as `Failure` tells the variants
// apart. A failure has one variant, whoever asks and whenever.
pub uninterp spec fn variant_of(e: SqlxError) -> Failure;

// The rule that the database names for a failure of `sqlx`, `NoStatement`
// where the failure holds no error of the database. It rests on the code that
// the database gave, which the failure keeps.
pub uninterp spec fn rule_of(e: SqlxError) -> Violation;

/// The variant of a `sqlx::Error`, by a `match` on the enum; the variants that
/// `Failure` does not name are `Other`. The contract claims no more than that
/// the result is the failure's variant under its name, `variant_of`.
#[verifier::external_body]
fn sqlx_failure(e: &SqlxError) -> (r: Failure)
    ensures
        r == variant_of(*e),
{
    match e {
        SqlxError::RowNotFound => Failure::RowNotFound,
        SqlxError::Database(_) => Failure::Database,
        SqlxError::Io(_) => Failure::Io,
        SqlxError::PoolTimedOut => Failure::PoolTimedOut,
        SqlxError::PoolClosed => Failure::PoolClosed,
        SqlxError::ColumnDecode { .. } => Failure::ColumnDecode,
        SqlxError::Decode(_) => Failure::Decode,
        SqlxError::ColumnNotFound(_) => Failure::ColumnNotFound,
        SqlxError::ColumnIndexOutOfBounds { .. } => Failure::ColumnIndexOutOfBounds,
        _ => Failure::Other,
    }
}

/// What `sqlx::Error::as_database_error` and, on the error it gives,
/// `DatabaseError::kind` return: the kind that the driver computes from the
/// database's code, or `NoStatement` where the failure holds no error of the
/// database. The contract claims no more than that the result is the failure's
/// rule under its name, `rule_of`.
#[verifier::external_body]
fn sqlx_violation(e: &SqlxError) -> (r: Violation)
    ensures
        r == rule_of(*e),
{
    match e.as_database_error() {
        None => Violation::NoStatement,
        Some(d) => match d.kind() {
            ErrorKind::UniqueViolation => Violation::Unique,
            ErrorKind::ForeignKeyViolation => Violation::ForeignKey,
            ErrorKind::NotNullViolation => Violation::NotNull,
            ErrorKind::CheckViolation => Violation::Check,
            _ => Violation::Unnamed,
        },
    }
}

/// The text that `sqlx::Error` shows through `Display`. Nothing is claimed of
/// the result: where the failure is one of the operating system, the text is
/// the system's own.
#[verifier::external_body]
fn sqlx_text(e: &SqlxError) -> String {
    e.to_string()
}

/// The error for a failure of `sqlx`: of the kind that the failure's variant
/// and the database's rule come under, as `of_kind` says it, with the text
/// that the failure shows as its message.
pub fn from_sqlx(e: &SqlxError) -> (r: Error)
    ensures
        of_kind(variant_of(*e), rule_of(*e), r),
{
    let failure = sqlx_failure(e);
    let violation = sqlx_violation(e);
    let text = sqlx_text(e);
    classify(failure, violation, text)
}

} // verus!
