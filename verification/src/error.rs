//! The service's error type and how each error is answered.
use vstd::prelude::*;

verus! {

/// Failure reported by the database driver.
#[verifier::external_type_specification]
#[verifier::external_body]
pub struct ExSqlxError(sqlx::Error);

/// An internal failure carried from elsewhere in the service.
#[verifier::external_type_specification]
#[verifier::external_body]
pub struct ExAnyhowError(anyhow::Error);

/// Every error the API can produce. Each one is answered with a status code,
/// a machine-readable code and a message, never with internal details.
pub enum AppError {
    Database(sqlx::Error),
    Validation(String),
    NotFound,
    Internal(anyhow::Error),
    Conflict(String),
    BenchAlreadyRunning,
}

/// What an [`AppError`] is, with the texts it carries.
pub enum ErrorView {
    Database,
    Validation(Seq<char>),
    NotFound,
    Internal,
    Conflict(Seq<char>),
    BenchAlreadyRunning,
}

impl View for AppError {
    type V = ErrorView;

    open spec fn view(&self) -> ErrorView {
        match self {
            AppError::Database(_) => ErrorView::Database,
            AppError::Validation(m) => ErrorView::Validation(m@),
            AppError::NotFound => ErrorView::NotFound,
            AppError::Internal(_) => ErrorView::Internal,
            AppError::Conflict(m) => ErrorView::Conflict(m@),
            AppError::BenchAlreadyRunning => ErrorView::BenchAlreadyRunning,
        }
    }
}

/// HTTP status that answers an error of this kind.
pub open spec fn spec_status(e: ErrorView) -> u16 {
    match e {
        ErrorView::Database => 503,
        ErrorView::Validation(_) => 422,
        ErrorView::NotFound => 404,
        ErrorView::Internal => 500,
        ErrorView::Conflict(_) => 409,
        ErrorView::BenchAlreadyRunning => 409,
    }
}

/// Machine-readable code that answers an error of this kind.
pub open spec fn spec_code(e: ErrorView) -> Seq<char> {
    match e {
        ErrorView::Database => "DB_ERROR"@,
        ErrorView::Validation(_) => "VALIDATION_ERROR"@,
        ErrorView::NotFound => "NOT_FOUND"@,
        ErrorView::Internal => "INTERNAL_ERROR"@,
        ErrorView::Conflict(_) => "CONFLICT"@,
        ErrorView::BenchAlreadyRunning => "BENCH_RUNNING"@,
    }
}

/// Human-readable message of an error of this kind.
pub open spec fn spec_message(e: ErrorView) -> Seq<char> {
    match e {
        ErrorView::Database => "database error"@,
        ErrorView::Validation(m) => "validation error: "@ + m,
        ErrorView::NotFound => "not found"@,
        ErrorView::Internal => "internal error"@,
        ErrorView::Conflict(m) => "conflict: "@ + m,
        ErrorView::BenchAlreadyRunning => "bench already running"@,
    }
}

impl AppError {
    /// A validation error with the given message.
    pub fn validation(msg: &str) -> (e: AppError)
        ensures
            e@ == ErrorView::Validation(msg@),
    {
        AppError::Validation(String::from_str(msg))
    }

    /// A conflict error with the given message.
    pub fn conflict(msg: &str) -> (e: AppError)
        ensures
            e@ == ErrorView::Conflict(msg@),
    {
        AppError::Conflict(String::from_str(msg))
    }

    /// HTTP status code of the response to this error.
    pub fn status_code(&self) -> (r: u16)
        ensures
            r == spec_status(self@),
    {
        match self {
            AppError::Database(_) => 503,
            AppError::Validation(_) => 422,
            AppError::NotFound => 404,
            AppError::Internal(_) => 500,
            AppError::Conflict(_) => 409,
            AppError::BenchAlreadyRunning => 409,
        }
    }

    /// Machine-readable code put in the response body's `code` field.
    pub fn code(&self) -> (r: &'static str)
        ensures
            r@ == spec_code(self@),
    {
        match self {
            AppError::Database(_) => "DB_ERROR",
            AppError::Validation(_) => "VALIDATION_ERROR",
            AppError::NotFound => "NOT_FOUND",
            AppError::Internal(_) => "INTERNAL_ERROR",
            AppError::Conflict(_) => "CONFLICT",
            AppError::BenchAlreadyRunning => "BENCH_RUNNING",
        }
    }

    /// Message put in the response body's `error` field; it is also the
    /// error's display text.
    pub fn message(&self) -> (r: String)
        ensures
            r@ == spec_message(self@),
    {
        match self {
            AppError::Database(_) => String::from_str("database error"),
            AppError::Validation(m) => String::from_str("validation error: ").concat(m.as_str()),
            AppError::NotFound => String::from_str("not found"),
            AppError::Internal(_) => String::from_str("internal error"),
            AppError::Conflict(m) => String::from_str("conflict: ").concat(m.as_str()),
            AppError::BenchAlreadyRunning => String::from_str("bench already running"),
        }
    }
}

} // verus!

verus! {

/// `r` is the outcome that the rule result `rule` describes: success, or a
/// validation error carrying exactly the rule's message.
pub open spec fn is_validation_outcome(r: Result<(), AppError>, rule: Result<(), Seq<char>>) -> bool {
    match rule {
        Ok(()) => r is Ok,
        Err(m) => r matches Err(e) && e@ == ErrorView::Validation(m),
    }
}

} // verus!
