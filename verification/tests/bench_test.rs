use ouroboros_api::bench::engine::{
    default_concurrency, default_duration, default_target, worker_step, BenchEngine, BenchMode,
    BenchStartRequest, TARGET_RPS,
};
use ouroboros_api::state::Counters;
use ouroboros_api::bench::{check_start_request, loopback_target_url, BenchStartRejection};

fn request(concurrency: u32, duration_secs: u64, mode: BenchMode, target: &str) -> BenchStartRequest {
    BenchStartRequest { concurrency, duration_secs, mode, target_endpoint: target.to_string() }
}

#[test]
fn test_bench_start_stop_status_cycle() {
    let mut engine = BenchEngine::new();

    // 1. Initial status: running is false
    let initial_status = engine.status(0);
    assert!(!initial_status.running);

    // 2. Start bench with direct mode
    let start_req = request(4, 10, BenchMode::Direct, "/api/v1/ping");
    let checked = check_start_request(&start_req, 100, &engine);
    assert!(checked.is_ok());
    engine.begin_run(start_req.concurrency as usize, start_req.mode);

    // 3. Status should show running == true
    let running_status = engine.status(1);
    assert!(running_status.running);

    // 4. Stop bench
    assert!(engine.stop());

    // 5. Status should show running == false
    let stopped_status = engine.status(2);
    assert!(!stopped_status.running);
}

#[test]
fn test_bench_validation_errors() {
    let engine = BenchEngine::new();

    // Invalid concurrency = 0
    let req1 = request(0, 10, BenchMode::Direct, "/api/v1/ping");
    let res1 = check_start_request(&req1, 100, &engine).unwrap_err();
    assert_eq!(res1.status_code(), 422);

    // Invalid duration < 5
    let req2 = request(10, 2, BenchMode::Direct, "/api/v1/ping");
    let res2 = check_start_request(&req2, 100, &engine).unwrap_err();
    assert_eq!(res2.status_code(), 422);

    // Invalid target endpoint (SSRF attempt)
    let req3 = request(10, 10, BenchMode::Loopback, "@evil.com");
    let res3 = check_start_request(&req3, 100, &engine).unwrap_err();
    assert_eq!(res3.status_code(), 422);
}

#[test]
fn start_rules_in_order() {
    let mut engine = BenchEngine::new();
    let check = |c: u32, d: u64, t: &str, max: u32, e: &BenchEngine| {
        check_start_request(&request(c, d, BenchMode::Loopback, t), max, e)
    };
    assert_eq!(check(0, 1, "x", 100, &engine), Err(BenchStartRejection::InvalidConcurrency));
    assert_eq!(check(100, 5, "/a", 100, &engine), Ok(()));
    assert_eq!(check(101, 5, "/a", 100, &engine), Err(BenchStartRejection::InvalidConcurrency));
    assert_eq!(check(5_000, 5, "/a", 100, &engine), Err(BenchStartRejection::InvalidConcurrency));
    assert_eq!(check(10_000, 5, "/a", 20_000, &engine), Ok(()));
    assert_eq!(check(10_001, 5, "/a", 20_000, &engine), Err(BenchStartRejection::InvalidConcurrency));
    assert_eq!(check(2_000, 5, "/a", 2_000, &engine), Ok(()));
    assert_eq!(check(1, 4, "/a", 100, &engine), Err(BenchStartRejection::InvalidDuration));
    assert_eq!(check(1, 3_601, "/a", 100, &engine), Err(BenchStartRejection::InvalidDuration));
    assert_eq!(check(1, 3_600, "  /a  ", 100, &engine), Ok(()));
    for bad in ["", "a", "/a b", "/x@y", "/http://x", "   "] {
        assert_eq!(check(1, 5, bad, 100, &engine), Err(BenchStartRejection::InvalidTarget), "{bad}");
    }
    engine.begin_run(1, BenchMode::Direct);
    assert_eq!(check(1, 5, "/a", 100, &engine), Err(BenchStartRejection::AlreadyRunning));
    assert_eq!(check(0, 5, "/a", 100, &engine), Err(BenchStartRejection::InvalidConcurrency));
    let busy = BenchStartRejection::AlreadyRunning;
    assert_eq!((busy.status_code(), busy.code(), busy.message()), (409, "BENCH_RUNNING", "bench already running"));
    let bad = BenchStartRejection::InvalidTarget;
    assert_eq!(
        (bad.code(), bad.message()),
        ("VALIDATION_ERROR", "target_endpoint must be a relative path starting with '/'")
    );
    assert_eq!(BenchStartRejection::InvalidConcurrency.message(), "concurrency must be between 1 and 10000");
    assert_eq!(BenchStartRejection::InvalidDuration.message(), "duration_secs must be between 5 and 3600");
}

#[test]
fn status_reports_rates_and_peak() {
    let mut engine = BenchEngine::new();
    engine.begin_run(8, BenchMode::Loopback);
    for i in 0..30 {
        engine.record_outcome(i % 3 != 0);
    }
    assert_eq!(
        (engine.requests_sent, engine.requests_success, engine.requests_failed),
        (30, 20, 10)
    );
    let s = engine.status(0);
    assert_eq!((s.current_rps, s.peak_rps), (0, 0));
    let s = engine.status(3);
    assert_eq!((s.current_rps, s.peak_rps, s.concurrency), (10, 10, 8));
    assert_eq!(s.mode, BenchMode::Loopback);
    let s = engine.status(6);
    assert_eq!((s.current_rps, s.peak_rps), (5, 10));
    assert!(!s.target_reached);
    assert_eq!(s.target_rps, TARGET_RPS);
    engine.stop();
    let s = engine.status(1);
    assert_eq!((s.current_rps, s.peak_rps), (0, 30));
    engine.reset();
    assert_eq!((engine.requests_sent, engine.peak_rps), (0, 0));
}

#[test]
fn target_reached_by_peak() {
    let mut engine = BenchEngine::new();
    engine.begin_run(1, BenchMode::Direct);
    engine.requests_sent = 2_000_000;
    let s = engine.status(2);
    assert!(s.target_reached);
    engine.stop();
    let s = engine.status(100);
    assert_eq!(s.current_rps, 0);
    assert!(s.target_reached);
}

#[test]
fn concurrency_reported_as_u32() {
    let mut engine = BenchEngine::new();
    engine.concurrency = (1u64 << 32) + 7;
    assert_eq!(engine.status(0).concurrency, 7);
}

#[test]
fn loopback_url_and_defaults() {
    assert_eq!(loopback_target_url(8080, "/api/v1/ping"), "http://127.0.0.1:8080/api/v1/ping");
    assert_eq!(loopback_target_url(0, "/x"), "http://127.0.0.1:0/x");
    assert_eq!(loopback_target_url(65535, " /y"), "http://127.0.0.1:65535 /y");
    assert_eq!(default_concurrency(), 100);
    assert_eq!(default_duration(), 30);
    assert_eq!(default_target(), "/api/v1/ping");
    assert_eq!(BenchMode::default(), BenchMode::Loopback);
    let e = BenchEngine::default();
    assert!(!e.is_running());
}

#[test]
fn every_call_is_counted_once() {
    let mut engine = BenchEngine::new();
    engine.begin_run(3, BenchMode::Loopback);
    let mut ok = 0u64;
    for i in 0..97u64 {
        let success = i % 5 != 1;
        if success {
            ok += 1;
        }
        engine.record_outcome(success);
        assert_eq!(engine.requests_sent, i + 1);
        assert_eq!(engine.requests_success + engine.requests_failed, engine.requests_sent);
    }
    assert_eq!(engine.requests_success, ok);
}

#[test]
fn worker_steps_count_outcomes() {
    let mut engine = BenchEngine::new();
    let mut counters = Counters::new();
    engine.begin_run(2, BenchMode::Loopback);
    for status in [Some(200u16), Some(204), Some(299), Some(300), Some(404), Some(199), None] {
        worker_step(&mut engine, &mut counters, BenchMode::Loopback, status);
    }
    assert_eq!(
        (engine.requests_sent, engine.requests_success, engine.requests_failed),
        (7, 3, 4)
    );
    assert_eq!((counters.ping, counters.total), (0, 0));
    worker_step(&mut engine, &mut counters, BenchMode::Direct, None);
    worker_step(&mut engine, &mut counters, BenchMode::Direct, Some(500));
    assert_eq!(
        (engine.requests_sent, engine.requests_success, engine.requests_failed),
        (9, 5, 4)
    );
    assert_eq!((counters.ping, counters.total, counters.echo, counters.errors), (2, 2, 0, 0));
    assert!(engine.is_running());
}
