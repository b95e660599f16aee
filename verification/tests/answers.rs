use feedmind::error::{error_envelope, ApiError};
use feedmind::extractors::json::ContractJsonRejection;
use feedmind::routes::common::{
    is_within, require_affected, require_exists, require_found, require_unique,
};
use feedmind::routes::health::readiness_check;

#[test]
fn failures_have_their_status_and_code() {
    let cases = [
        (ApiError::BadRequest("m".to_string()), 400, "BAD_REQUEST", "m", "Bad request: m"),
        (ApiError::Unauthorized("m".to_string()), 401, "UNAUTHORIZED", "m", "Unauthorized: m"),
        (ApiError::Forbidden("m".to_string()), 403, "FORBIDDEN", "m", "Forbidden: m"),
        (ApiError::NotFound("m".to_string()), 404, "NOT_FOUND", "m", "m not found"),
        (ApiError::Conflict("m".to_string()), 409, "CONFLICT", "m", "Conflict: m"),
        (ApiError::Validation("m".to_string()), 422, "VALIDATION_ERROR", "m", "Validation error: m"),
        (ApiError::RateLimited, 429, "RATE_LIMITED", "Rate limit exceeded", "Rate limit exceeded"),
        (ApiError::Internal("m".to_string()), 500, "INTERNAL_ERROR", "m", "Internal error: m"),
        (
            ApiError::Database("secret".to_string()),
            500,
            "DATABASE_ERROR",
            "Database error",
            "Database error",
        ),
    ];
    for (error, status, code, message, description) in cases {
        assert_eq!(error.status(), status);
        assert_eq!(error.code(), code);
        assert_eq!(error.message(), message);
        assert_eq!(error.describe(), description);
        assert_eq!(error.is_internal(), status == 500);
        let envelope = error.into_envelope();
        assert_eq!(envelope.status, status);
        assert_eq!(envelope.code, code);
        assert_eq!(envelope.message, message);
    }
}

#[test]
fn database_failures_are_answered_alike() {
    let a = ApiError::Database("connection refused".to_string()).into_envelope();
    let b = ApiError::Database("syntax error".to_string()).into_envelope();
    assert_eq!((a.status, a.code, a.message), (b.status, b.code, b.message));
}

#[test]
fn envelope_holds_what_it_is_given() {
    let envelope = error_envelope(418, "TEAPOT", "short and stout".to_string());
    assert_eq!(envelope.status, 418);
    assert_eq!(envelope.code, "TEAPOT");
    assert_eq!(envelope.message, "short and stout");
}

#[test]
fn refused_bodies_keep_their_status() {
    for (status, code) in [
        (422, "VALIDATION_ERROR"),
        (415, "UNSUPPORTED_MEDIA_TYPE"),
        (413, "PAYLOAD_TOO_LARGE"),
        (400, "BAD_REQUEST"),
        (500, "BAD_REQUEST"),
    ] {
        assert_eq!(ContractJsonRejection::code(status), code);
        let rejection = ContractJsonRejection { status, body_text: "unknown field `tags`".to_string() };
        let envelope = rejection.into_envelope();
        assert_eq!(envelope.status, status);
        assert_eq!(envelope.code, code);
        assert_eq!(envelope.message, "unknown field `tags`");
    }
}

#[test]
fn service_is_ready_with_all_it_needs() {
    let (status, answer) = readiness_check(true, true);
    assert_eq!((status, answer.status, answer.database, answer.redis), (200, "ok", "ok", "ok"));
    let (status, answer) = readiness_check(false, true);
    assert_eq!(
        (status, answer.status, answer.database, answer.redis),
        (503, "degraded", "error", "ok")
    );
    let (status, answer) = readiness_check(true, false);
    assert_eq!((status, answer.status, answer.redis), (503, "degraded", "error"));
}

#[test]
fn what_must_be_there() {
    assert!(matches!(require_found(Some(1), "Thing not found"), Ok(1)));
    assert!(matches!(
        require_found::<u8>(None, "Thing not found"),
        Err(ApiError::NotFound(m)) if m == "Thing not found"
    ));
    assert!(require_exists(true, "x").is_ok());
    assert!(matches!(require_exists(false, "x"), Err(ApiError::NotFound(_))));
    assert!(require_affected(1, "x").is_ok());
    assert!(matches!(require_affected(0, "x"), Err(ApiError::NotFound(_))));
    assert!(require_unique(false, "x").is_ok());
    assert!(matches!(require_unique(true, "x"), Err(ApiError::Conflict(_))));
    assert!(is_within("é", 1, 1));
    assert!(!is_within("", 1, 1));
}
