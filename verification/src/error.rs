//! The failures of the service, and how each is reported.

use crate::text::{prefixed, same_text};
use vstd::prelude::*;
use vstd::string::*;

verus! {

/// `sqlx::Error`: a failure of the database driver.  Nothing is known of
/// one; `store_failure` reads it into plain values.
#[verifier::external_type_specification]
#[verifier::external_body]
pub struct ExSqlxError(sqlx::Error);

/// The machine-readable kind of a failure.
#[derive(Debug, Clone, Copy, PartialEq, Eq, Structural)]
pub enum ErrorKind {
    NotFound,
    ValidationError,
    Conflict,
    DatabaseError,
    InternalError,
    BadRequest,
    SchemaValidationError,
}

/// A failure of one request, with its human-readable detail.
#[derive(Debug)]
pub enum AppError {
    /// The resource does not exist.
    NotFound(String),
    /// An input is empty or malformed.
    ValidationError(String),
    /// A uniqueness or dependent-resource rule would be broken.
    Conflict(String),
    /// The store failed.
    DatabaseError(String),
    /// Anything unanticipated.
    InternalError(String),
    /// A malformed identifier or payload.
    BadRequest(String),
    /// A definition or an instance breaks the schema rules.
    SchemaValidationError(String),
}

pub type AppResult<T> = Result<T, AppError>;

/// Whether a result is the failure with this kind and detail.
pub open spec fn fails_with<T>(r: AppResult<T>, notice: (ErrorKind, Seq<char>)) -> bool {
    match r {
        Ok(_) => false,
        Err(e) => e@ == notice,
    }
}

/// What a store reports when an operation fails.
#[derive(Debug)]
pub enum StoreFailure {
    /// A query that needs a row found none.
    RowNotFound,
    /// The database refused the statement, with its SQLSTATE code if any.
    Database { code: Option<String>, message: String },
    /// Any other failure, with its description.
    Other(String),
}

/// A store failure as plain values.
pub enum StoreFailureView {
    RowNotFound,
    Database { code: Option<Seq<char>>, message: Seq<char> },
    Other(Seq<char>),
}

impl View for StoreFailure {
    type V = StoreFailureView;

    open spec fn view(&self) -> StoreFailureView {
        match self {
            StoreFailure::RowNotFound => StoreFailureView::RowNotFound,
            StoreFailure::Database { code, message } => StoreFailureView::Database {
                code: match code {
                    Some(c) => Some(c@),
                    None => None,
                },
                message: message@,
            },
            StoreFailure::Other(message) => StoreFailureView::Other(message@),
        }
    }
}

impl View for AppError {
    type V = (ErrorKind, Seq<char>);

    open spec fn view(&self) -> (ErrorKind, Seq<char>) {
        match self {
            AppError::NotFound(m) => (ErrorKind::NotFound, m@),
            AppError::ValidationError(m) => (ErrorKind::ValidationError, m@),
            AppError::Conflict(m) => (ErrorKind::Conflict, m@),
            AppError::DatabaseError(m) => (ErrorKind::DatabaseError, m@),
            AppError::InternalError(m) => (ErrorKind::InternalError, m@),
            AppError::BadRequest(m) => (ErrorKind::BadRequest, m@),
            AppError::SchemaValidationError(m) => (ErrorKind::SchemaValidationError, m@),
        }
    }
}

/// The HTTP status that reports a failure of this kind.
pub open spec fn status_of(kind: ErrorKind) -> u16 {
    match kind {
        ErrorKind::NotFound => 404,
        ErrorKind::ValidationError => 400,
        ErrorKind::Conflict => 409,
        ErrorKind::DatabaseError => 500,
        ErrorKind::InternalError => 500,
        ErrorKind::BadRequest => 400,
        ErrorKind::SchemaValidationError => 422,
    }
}

/// The name under which a failure of this kind is reported.
pub open spec fn error_type_of(kind: ErrorKind) -> Seq<char> {
    match kind {
        ErrorKind::NotFound => "NotFound"@,
        ErrorKind::ValidationError => "ValidationError"@,
        ErrorKind::Conflict => "Conflict"@,
        ErrorKind::DatabaseError => "DatabaseError"@,
        ErrorKind::InternalError => "InternalError"@,
        ErrorKind::BadRequest => "BadRequest"@,
        ErrorKind::SchemaValidationError => "SchemaValidationError"@,
    }
}

/// What precedes the detail when a failure is written out.
pub open spec fn prefix_of(kind: ErrorKind) -> Seq<char> {
    match kind {
        ErrorKind::NotFound => "Not found: "@,
        ErrorKind::ValidationError => "Validation error: "@,
        ErrorKind::Conflict => "Conflict: "@,
        ErrorKind::DatabaseError => "Database error: "@,
        ErrorKind::InternalError => "Internal error: "@,
        ErrorKind::BadRequest => "Bad request: "@,
        ErrorKind::SchemaValidationError => "Schema validation error: "@,
    }
}

/// The message shown to the caller: the detail, except for store and
/// internal failures, whose detail stays inside.
pub open spec fn shown_message(error: (ErrorKind, Seq<char>)) -> Seq<char> {
    match error.0 {
        ErrorKind::DatabaseError => "A database error occurred"@,
        ErrorKind::InternalError => "An internal error occurred"@,
        _ => error.1,
    }
}

/// The failure that a store failure becomes at the service boundary.
pub open spec fn translated(failure: StoreFailureView) -> (ErrorKind, Seq<char>) {
    match failure {
        StoreFailureView::RowNotFound => (ErrorKind::NotFound, "Resource not found"@),
        StoreFailureView::Database { code, message } => {
            if code == Some("23505"@) {
                (ErrorKind::Conflict, "A resource with these attributes already exists"@)
            } else if code == Some("23503"@) {
                (ErrorKind::BadRequest, "Referenced resource does not exist"@)
            } else {
                (ErrorKind::DatabaseError, message)
            }
        },
        StoreFailureView::Other(message) => (ErrorKind::DatabaseError, message),
    }
}

impl AppError {
    /// The kind of this failure.
    pub fn kind(&self) -> (r: ErrorKind)
        ensures
            r == self@.0,
    {
        match self {
            AppError::NotFound(_) => ErrorKind::NotFound,
            AppError::ValidationError(_) => ErrorKind::ValidationError,
            AppError::Conflict(_) => ErrorKind::Conflict,
            AppError::DatabaseError(_) => ErrorKind::DatabaseError,
            AppError::InternalError(_) => ErrorKind::InternalError,
            AppError::BadRequest(_) => ErrorKind::BadRequest,
            AppError::SchemaValidationError(_) => ErrorKind::SchemaValidationError,
        }
    }

    /// The detail of this failure.
    pub fn detail(&self) -> (r: &str)
        ensures
            r@ == self@.1,
    {
        match self {
            AppError::NotFound(m) => m.as_str(),
            AppError::ValidationError(m) => m.as_str(),
            AppError::Conflict(m) => m.as_str(),
            AppError::DatabaseError(m) => m.as_str(),
            AppError::InternalError(m) => m.as_str(),
            AppError::BadRequest(m) => m.as_str(),
            AppError::SchemaValidationError(m) => m.as_str(),
        }
    }

    /// The failure written out: what its kind is called, then its detail.
    pub fn to_string(&self) -> (r: String)
        ensures
            r@ == prefix_of(self@.0) + self@.1,
    {
        let prefix = match self {
            AppError::NotFound(_) => "Not found: ",
            AppError::ValidationError(_) => "Validation error: ",
            AppError::Conflict(_) => "Conflict: ",
            AppError::DatabaseError(_) => "Database error: ",
            AppError::InternalError(_) => "Internal error: ",
            AppError::BadRequest(_) => "Bad request: ",
            AppError::SchemaValidationError(_) => "Schema validation error: ",
        };
        prefixed(prefix, self.detail())
    }

    /// The HTTP status that reports this failure.
    pub fn status_code(&self) -> (r: u16)
        ensures
            r == status_of(self@.0),
    {
        match self {
            AppError::NotFound(_) => 404,
            AppError::ValidationError(_) => 400,
            AppError::Conflict(_) => 409,
            AppError::DatabaseError(_) => 500,
            AppError::InternalError(_) => 500,
            AppError::BadRequest(_) => 400,
            AppError::SchemaValidationError(_) => 422,
        }
    }

    /// The name under which this failure is reported.
    pub fn error_type(&self) -> (r: String)
        ensures
            r@ == error_type_of(self@.0),
    {
        let name = match self {
            AppError::NotFound(_) => "NotFound",
            AppError::ValidationError(_) => "ValidationError",
            AppError::Conflict(_) => "Conflict",
            AppError::DatabaseError(_) => "DatabaseError",
            AppError::InternalError(_) => "InternalError",
            AppError::BadRequest(_) => "BadRequest",
            AppError::SchemaValidationError(_) => "SchemaValidationError",
        };
        String::from_str(name)
    }

    /// The message shown to the caller: the detail, except for a store or
    /// internal failure, whose detail stays inside.
    pub fn shown(&self) -> (r: String)
        ensures
            r@ == shown_message(self@),
    {
        match self {
            AppError::DatabaseError(_) => String::from_str("A database error occurred"),
            AppError::InternalError(_) => String::from_str("An internal error occurred"),
            _ => String::from_str(self.detail()),
        }
    }

    /// The status, the reported name and the message shown to the caller.
    /// The detail of a store or internal failure is not shown.
    pub fn into_response(self) -> (r: (u16, String, String))
        ensures
            r.0 == status_of(self@.0),
            r.1@ == error_type_of(self@.0),
            r.2@ == shown_message(self@),
    {
        let status = self.status_code();
        let name = self.error_type();
        let message = match self {
            AppError::DatabaseError(_) => String::from_str("A database error occurred"),
            AppError::InternalError(_) => String::from_str("An internal error occurred"),
            AppError::NotFound(m) => m,
            AppError::ValidationError(m) => m,
            AppError::Conflict(m) => m,
            AppError::BadRequest(m) => m,
            AppError::SchemaValidationError(m) => m,
        };
        (status, name, message)
    }

    /// Translates a store failure: a missing row is `NotFound`, a broken
    /// uniqueness rule `Conflict`, a broken reference `BadRequest`, and
    /// anything else `DatabaseError`.
    pub fn from_store_failure(failure: StoreFailure) -> (r: AppError)
        ensures
            r@ == translated(failure@),
    {
        match failure {
            StoreFailure::RowNotFound => AppError::NotFound(
                String::from_str("Resource not found"),
            ),
            StoreFailure::Database { code, message } => {
                match code {
                    Some(c) => {
                        if same_text(c.as_str(), "23505") {
                            AppError::Conflict(
                                String::from_str("A resource with these attributes already exists"),
                            )
                        } else if same_text(c.as_str(), "23503") {
                            AppError::BadRequest(
                                String::from_str("Referenced resource does not exist"),
                            )
                        } else {
                            AppError::DatabaseError(message)
                        }
                    },
                    None => AppError::DatabaseError(message),
                }
            },
            StoreFailure::Other(message) => AppError::DatabaseError(message),
        }
    }
}

/// Reads an `sqlx::Error` into plain values: `RowNotFound` as such, a
/// `Database` error with what its `code` and `to_string` return, and any
/// other variant with what its `to_string` returns.
#[verifier::external_body]
pub(crate) fn store_failure(err: sqlx::Error) -> StoreFailure {
    match err {
        sqlx::Error::RowNotFound => StoreFailure::RowNotFound,
        sqlx::Error::Database(db) => StoreFailure::Database {
            code: db.code().map(|c| c.into_owned()),
            message: db.to_string(),
        },
        other => StoreFailure::Other(other.to_string()),
    }
}

/// The failures that a store failure can become.
pub open spec fn from_store(error: (ErrorKind, Seq<char>)) -> bool {
    exists|failure: StoreFailureView| error == translated(failure)
}

impl From<sqlx::Error> for AppError {
    fn from(err: sqlx::Error) -> (r: AppError)
        ensures
            from_store(r@),
    {
        let failure = store_failure(err);
        AppError::from_store_failure(failure)
    }
}

impl vstd::std_specs::convert::FromSpecImpl<sqlx::Error> for AppError {
    open spec fn obeys_from_spec() -> bool {
        false
    }

    open spec fn from_spec(err: sqlx::Error) -> AppError {
        arbitrary()
    }
}

} // verus!
