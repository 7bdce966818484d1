use blog_core::errors::{
    classify_fs_error, classify_json_error, classify_relational_error, fs_error_to_app,
    json_error_to_app, kv_error_to_app, rel_error_to_app, AppError, FsErrorKind, JsonErrorKind,
    LookupContext, RelErrorKind,
};
use blog_core::parse::parse_i32;

#[test]
fn status_codes_follow_the_protocol_mapping() {
    assert_eq!(AppError::UnauthorizedError.status_code(), 401);
    assert_eq!(AppError::Forbidden.status_code(), 403);
    assert_eq!(AppError::BadRequest.status_code(), 400);
    assert_eq!(AppError::InternalServerError.status_code(), 500);
}

#[test]
fn messages_name_each_outcome() {
    assert_eq!(AppError::UnauthorizedError.message(), "Unauthorized");
    assert_eq!(AppError::InternalServerError.message(), "Internal server error");
    assert_eq!(AppError::BadRequest.message(), "Bad request");
    assert_eq!(AppError::Forbidden.message(), "Forbidden");
}

#[test]
fn relational_conversion_covers_every_kind() {
    assert_eq!(
        rel_error_to_app(RelErrorKind::NotFound, LookupContext::Identity),
        AppError::UnauthorizedError
    );
    assert_eq!(
        rel_error_to_app(RelErrorKind::NotFound, LookupContext::Resource),
        AppError::BadRequest
    );
    for ctx in [LookupContext::Identity, LookupContext::Resource] {
        assert_eq!(rel_error_to_app(RelErrorKind::InvalidInput, ctx), AppError::BadRequest);
        assert_eq!(rel_error_to_app(RelErrorKind::Constraint, ctx), AppError::BadRequest);
        assert_eq!(rel_error_to_app(RelErrorKind::QueryBuild, ctx), AppError::BadRequest);
        assert_eq!(rel_error_to_app(RelErrorKind::Deserialization, ctx), AppError::BadRequest);
        assert_eq!(
            rel_error_to_app(RelErrorKind::Connectivity, ctx),
            AppError::InternalServerError
        );
        assert_eq!(rel_error_to_app(RelErrorKind::Other, ctx), AppError::InternalServerError);
    }
}

#[test]
fn real_relational_errors_classify_by_variant() {
    let missing = diesel::result::Error::NotFound;
    assert_eq!(classify_relational_error(&missing), RelErrorKind::NotFound);
    assert_eq!(
        rel_error_to_app(classify_relational_error(&missing), LookupContext::Identity),
        AppError::UnauthorizedError
    );

    let duplicate = diesel::result::Error::DatabaseError(
        diesel::result::DatabaseErrorKind::UniqueViolation,
        Box::new("duplicate key".to_string()),
    );
    assert_eq!(classify_relational_error(&duplicate), RelErrorKind::Constraint);

    let closed = diesel::result::Error::DatabaseError(
        diesel::result::DatabaseErrorKind::ClosedConnection,
        Box::new("connection closed".to_string()),
    );
    assert_eq!(classify_relational_error(&closed), RelErrorKind::Connectivity);

    let in_tx = diesel::result::Error::AlreadyInTransaction;
    assert_eq!(classify_relational_error(&in_tx), RelErrorKind::Other);
    assert_eq!(
        rel_error_to_app(classify_relational_error(&in_tx), LookupContext::Resource),
        AppError::InternalServerError
    );
}

#[test]
fn json_conversion_spares_only_io_failures() {
    assert_eq!(json_error_to_app(JsonErrorKind::Io), AppError::InternalServerError);
    assert_eq!(json_error_to_app(JsonErrorKind::Syntax), AppError::BadRequest);
    assert_eq!(json_error_to_app(JsonErrorKind::Data), AppError::BadRequest);
    assert_eq!(json_error_to_app(JsonErrorKind::Eof), AppError::BadRequest);
}

#[test]
fn real_json_errors_classify_by_category() {
    let eof = serde_json::from_str::<serde_json::Value>("{").unwrap_err();
    assert_eq!(classify_json_error(&eof), JsonErrorKind::Eof);
    assert_eq!(json_error_to_app(classify_json_error(&eof)), AppError::BadRequest);

    let syntax = serde_json::from_str::<serde_json::Value>("]").unwrap_err();
    assert_eq!(classify_json_error(&syntax), JsonErrorKind::Syntax);

    let data = serde_json::from_str::<bool>("1").unwrap_err();
    assert_eq!(classify_json_error(&data), JsonErrorKind::Data);
}

#[test]
fn filesystem_conversion_blames_only_missing_files_on_the_caller() {
    assert_eq!(fs_error_to_app(FsErrorKind::NotFound), AppError::BadRequest);
    assert_eq!(fs_error_to_app(FsErrorKind::Other), AppError::InternalServerError);

    let missing = std::io::Error::new(std::io::ErrorKind::NotFound, "gone");
    assert_eq!(classify_fs_error(&missing), FsErrorKind::NotFound);
    let denied = std::io::Error::new(std::io::ErrorKind::PermissionDenied, "no");
    assert_eq!(classify_fs_error(&denied), FsErrorKind::Other);
}

#[test]
fn key_value_failures_are_always_internal() {
    let err = redis::RedisError::from((redis::ErrorKind::UnexpectedReturnType, "bad reply"));
    assert_eq!(kv_error_to_app(&err), AppError::InternalServerError);
    let io_err = redis::RedisError::from(std::io::Error::new(
        std::io::ErrorKind::ConnectionRefused,
        "down",
    ));
    assert_eq!(kv_error_to_app(&io_err), AppError::InternalServerError);
}

#[test]
fn parse_i32_accepts_signed_decimals() {
    assert_eq!(parse_i32("0"), Ok(0));
    assert_eq!(parse_i32("123"), Ok(123));
    assert_eq!(parse_i32("-42"), Ok(-42));
    assert_eq!(parse_i32("+7"), Ok(7));
    assert_eq!(parse_i32("2147483647"), Ok(i32::MAX));
    assert_eq!(parse_i32("-2147483648"), Ok(i32::MIN));
}

#[test]
fn parse_i32_rejects_everything_else_as_bad_request() {
    assert_eq!(parse_i32(""), Err(AppError::BadRequest));
    assert_eq!(parse_i32("-"), Err(AppError::BadRequest));
    assert_eq!(parse_i32("+"), Err(AppError::BadRequest));
    assert_eq!(parse_i32("abc"), Err(AppError::BadRequest));
    assert_eq!(parse_i32("12a"), Err(AppError::BadRequest));
    assert_eq!(parse_i32(" 5"), Err(AppError::BadRequest));
    assert_eq!(parse_i32("2147483648"), Err(AppError::BadRequest));
    assert_eq!(parse_i32("-2147483649"), Err(AppError::BadRequest));
    assert_eq!(parse_i32("99999999999999999999"), Err(AppError::BadRequest));
}
