use ouroboros_api::config::{
    default_bench_max_concurrency, default_body_limit_bytes, default_log_level,
    default_max_db_connections, default_port, default_request_timeout_secs,
};

#[test]
fn configuration_defaults() {
    assert_eq!(default_port(), 8080);
    assert_eq!(default_max_db_connections(), 100);
    assert_eq!(default_bench_max_concurrency(), 2000);
    assert_eq!(default_body_limit_bytes(), 50 * 1024 * 1024);
    assert_eq!(default_request_timeout_secs(), 30);
    assert_eq!(default_log_level(), "info");
}
