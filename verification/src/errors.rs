//! The closed error taxonomy every lower-level failure collapses to before
//! crossing a component boundary, and the deterministic conversion rules
//! from each source of failure.

use vstd::prelude::*;

verus! {

/// The four protocol-facing outcomes. No component leaks a backend-specific
/// error type to its caller; everything maps here first.
#[derive(Clone, Copy, Debug, PartialEq, Eq, Structural)]
pub enum AppError {
    /// The caller's credential is absent, malformed, or does not match.
    UnauthorizedError,
    /// A failure not attributable to caller input: connectivity loss,
    /// unexpected I/O failure, exhausted resources.
    InternalServerError,
    /// Caller-supplied input is structurally or semantically invalid.
    BadRequest,
    /// The caller is authenticated but not entitled to the resource.
    Forbidden,
}

impl AppError {
    /// The protocol status code the boundary layer sends for this outcome.
    pub fn status_code(&self) -> (code: u16)
        ensures
            code == match *self {
                AppError::UnauthorizedError => 401u16,
                AppError::InternalServerError => 500u16,
                AppError::BadRequest => 400u16,
                AppError::Forbidden => 403u16,
            },
    {
        match self {
            AppError::UnauthorizedError => 401,
            AppError::InternalServerError => 500,
            AppError::BadRequest => 400,
            AppError::Forbidden => 403,
        }
    }

    /// A short human-readable description; no internal detail is ever
    /// included in a response body.
    pub fn message(&self) -> (msg: String)
        ensures
            msg@ == match *self {
                AppError::UnauthorizedError => "Unauthorized"@,
                AppError::InternalServerError => "Internal server error"@,
                AppError::BadRequest => "Bad request"@,
                AppError::Forbidden => "Forbidden"@,
            },
    {
        match self {
            AppError::UnauthorizedError => String::from_str("Unauthorized"),
            AppError::InternalServerError => String::from_str("Internal server error"),
            AppError::BadRequest => String::from_str("Bad request"),
            AppError::Forbidden => String::from_str("Forbidden"),
        }
    }
}


/// Whether a relational lookup was resolving the caller's identity or a
/// resource the caller referenced; a missing row is the caller's fault in
/// the one case and bad input in the other.
#[derive(Clone, Copy, Debug, PartialEq, Eq, Structural)]
pub enum LookupContext {
    Identity,
    Resource,
}

/// The shape of a relational-store failure, as the conversion rules see
/// it.
#[derive(Clone, Copy, Debug, PartialEq, Eq, Structural)]
pub enum RelErrorKind {
    /// The queried row does not exist.
    NotFound,
    /// The caller's value could not even be passed to the store.
    InvalidInput,
    /// The store rejected the write over a constraint.
    Constraint,
    /// The query could not be built.
    QueryBuild,
    /// A row could not be read back into its type.
    Deserialization,
    /// The connection or the transaction is in a bad state.
    Connectivity,
    /// Anything else the store may report.
    Other,
}

/// The shape of a JSON failure on a caller-supplied body.
#[derive(Clone, Copy, Debug, PartialEq, Eq, Structural)]
pub enum JsonErrorKind {
    /// Reading the bytes themselves failed.
    Io,
    /// The text is not JSON.
    Syntax,
    /// The JSON does not fit the expected shape.
    Data,
    /// The text ended too early.
    Eof,
}

/// The shape of a filesystem failure.
#[derive(Clone, Copy, Debug, PartialEq, Eq, Structural)]
pub enum FsErrorKind {
    /// The file does not exist.
    NotFound,
    /// Anything else the filesystem may report.
    Other,
}

/// The conversion rule for relational-store failures: a missing row is an
/// authorization failure when resolving identity and bad input when
/// resolving a referenced resource; input, constraint, query-build and
/// deserialization trouble is the caller's; connection and transaction
/// trouble is the server's.
pub fn rel_error_to_app(kind: RelErrorKind, ctx: LookupContext) -> (r: AppError)
    ensures
        r == match kind {
            RelErrorKind::NotFound => match ctx {
                LookupContext::Identity => AppError::UnauthorizedError,
                LookupContext::Resource => AppError::BadRequest,
            },
            RelErrorKind::InvalidInput => AppError::BadRequest,
            RelErrorKind::Constraint => AppError::BadRequest,
            RelErrorKind::QueryBuild => AppError::BadRequest,
            RelErrorKind::Deserialization => AppError::BadRequest,
            RelErrorKind::Connectivity => AppError::InternalServerError,
            RelErrorKind::Other => AppError::InternalServerError,
        },
{
    match kind {
        RelErrorKind::NotFound => match ctx {
            LookupContext::Identity => AppError::UnauthorizedError,
            LookupContext::Resource => AppError::BadRequest,
        },
        RelErrorKind::InvalidInput => AppError::BadRequest,
        RelErrorKind::Constraint => AppError::BadRequest,
        RelErrorKind::QueryBuild => AppError::BadRequest,
        RelErrorKind::Deserialization => AppError::BadRequest,
        RelErrorKind::Connectivity => AppError::InternalServerError,
        RelErrorKind::Other => AppError::InternalServerError,
    }
}

/// The conversion rule for JSON failures on a caller-supplied body: bad
/// input, unless reading the bytes themselves failed.
pub fn json_error_to_app(kind: JsonErrorKind) -> (r: AppError)
    ensures
        r == match kind {
            JsonErrorKind::Io => AppError::InternalServerError,
            JsonErrorKind::Syntax => AppError::BadRequest,
            JsonErrorKind::Data => AppError::BadRequest,
            JsonErrorKind::Eof => AppError::BadRequest,
        },
{
    match kind {
        JsonErrorKind::Io => AppError::InternalServerError,
        JsonErrorKind::Syntax => AppError::BadRequest,
        JsonErrorKind::Data => AppError::BadRequest,
        JsonErrorKind::Eof => AppError::BadRequest,
    }
}

/// The conversion rule for filesystem failures: a missing file is the
/// caller's bad reference, anything else is the server's trouble.
pub fn fs_error_to_app(kind: FsErrorKind) -> (r: AppError)
    ensures
        r == match kind {
            FsErrorKind::NotFound => AppError::BadRequest,
            FsErrorKind::Other => AppError::InternalServerError,
        },
{
    match kind {
        FsErrorKind::NotFound => AppError::BadRequest,
        FsErrorKind::Other => AppError::InternalServerError,
    }
}

#[verifier::external_type_specification]
#[verifier::external_body]
pub struct ExDieselError(diesel::result::Error);

#[verifier::external_type_specification]
#[verifier::external_body]
pub struct ExDatabaseErrorKind(diesel::result::DatabaseErrorKind);

#[verifier::external_type_specification]
#[verifier::external_body]
pub struct ExJsonError(serde_json::Error);

#[verifier::external_type_specification]
#[verifier::external_body]
pub struct ExRedisError(redis::RedisError);

#[verifier::external_type_specification]
#[verifier::external_body]
pub struct ExIoError(std::io::Error);

/// Relies on diesel's `DatabaseErrorKind` variants to tell a constraint
/// violation from connection and transaction trouble.
#[verifier::external_body]
pub fn classify_database_kind(k: &diesel::result::DatabaseErrorKind) -> RelErrorKind {
    match k {
        diesel::result::DatabaseErrorKind::UniqueViolation
        | diesel::result::DatabaseErrorKind::ForeignKeyViolation
        | diesel::result::DatabaseErrorKind::NotNullViolation
        | diesel::result::DatabaseErrorKind::CheckViolation
        | diesel::result::DatabaseErrorKind::RestrictViolation
        | diesel::result::DatabaseErrorKind::ExclusionViolation => RelErrorKind::Constraint,
        _ => RelErrorKind::Connectivity,
    }
}

/// Relies on diesel's `result::Error` variants to tell which failure
/// shape the relational store reported.
#[verifier::external_body]
pub fn classify_relational_error(e: &diesel::result::Error) -> RelErrorKind {
    match e {
        diesel::result::Error::NotFound => RelErrorKind::NotFound,
        diesel::result::Error::InvalidCString(_) => RelErrorKind::InvalidInput,
        diesel::result::Error::QueryBuilderError(_) => RelErrorKind::QueryBuild,
        diesel::result::Error::DeserializationError(_) => RelErrorKind::Deserialization,
        diesel::result::Error::DatabaseError(k, _) => classify_database_kind(k),
        _ => RelErrorKind::Other,
    }
}

/// Relies on serde_json's `Error::classify` and its `Category` variants.
#[verifier::external_body]
pub fn classify_json_error(e: &serde_json::Error) -> JsonErrorKind {
    match e.classify() {
        serde_json::error::Category::Io => JsonErrorKind::Io,
        serde_json::error::Category::Syntax => JsonErrorKind::Syntax,
        serde_json::error::Category::Data => JsonErrorKind::Data,
        serde_json::error::Category::Eof => JsonErrorKind::Eof,
    }
}

/// Relies on `std::io::Error::kind` and `ErrorKind::NotFound` to tell a
/// missing file from every other filesystem failure.
#[verifier::external_body]
pub fn classify_fs_error(e: &std::io::Error) -> FsErrorKind {
    match e.kind() {
        std::io::ErrorKind::NotFound => FsErrorKind::NotFound,
        _ => FsErrorKind::Other,
    }
}

/// The conversion rule for key-value store failures: every one is the
/// server's own trouble, never the caller's.
pub fn kv_error_to_app(_e: &redis::RedisError) -> (r: AppError)
    ensures
        r == AppError::InternalServerError,
{
    AppError::InternalServerError
}

} // verus!
