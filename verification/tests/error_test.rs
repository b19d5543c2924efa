use ouroboros_api::error::AppError;

#[test]
fn every_error_has_status_code_and_message() {
    let cases: Vec<(AppError, u16, &str, &str)> = vec![
        (AppError::Database(sqlx::Error::RowNotFound), 503, "DB_ERROR", "database error"),
        (AppError::Validation("bad".to_string()), 422, "VALIDATION_ERROR", "validation error: bad"),
        (AppError::NotFound, 404, "NOT_FOUND", "not found"),
        (AppError::Internal(anyhow::Error::msg("secret detail")), 500, "INTERNAL_ERROR", "internal error"),
        (AppError::Conflict("taken".to_string()), 409, "CONFLICT", "conflict: taken"),
        (AppError::BenchAlreadyRunning, 409, "BENCH_RUNNING", "bench already running"),
    ];
    for (e, status, code, message) in cases {
        assert_eq!(e.status_code(), status);
        assert_eq!(e.code(), code);
        assert_eq!(e.message(), message);
    }
}
