use ouroboros_api::api::v1::ping::{ping_direct, PONG_BODY};
use ouroboros_api::state::{ConnectionGauge, Counters};

#[test]
fn test_ping_direct() {
    assert_eq!(ping_direct(), &PONG_BODY[..]);
    assert_eq!(ping_direct(), b"{\"success\":true,\"message\":\"pong\"}");
}

#[test]
fn test_ac10_atomic_counter_correctness() {
    let mut counters = Counters::new();
    assert_eq!(counters.ping, 0);

    let iterations = 100;
    for _ in 0..iterations {
        counters.record_ping();
    }

    assert_eq!(
        counters.ping, iterations,
        "AC-10: Counter value must exactly equal actual request count"
    );
}

#[test]
fn requests_are_counted_per_window() {
    let mut counters = Counters::default();
    for i in 1..=5u64 {
        counters.record_ping();
        counters.record_request();
        assert_eq!(counters.ping, i);
        assert_eq!(counters.total, i);
    }
    let w = counters.take_window();
    assert_eq!((w.ping, w.echo, w.errors, w.total), (5, 0, 0, 5));
    assert_eq!((counters.ping, counters.echo, counters.errors, counters.total), (0, 0, 0, 0));
    counters.record_request();
    let w = counters.take_window();
    assert_eq!((w.ping, w.total), (0, 1));
}

#[test]
fn counters_wrap_like_atomics() {
    let mut counters = Counters { ping: u64::MAX, echo: 0, errors: 0, total: u64::MAX };
    counters.record_ping();
    counters.record_request();
    assert_eq!((counters.ping, counters.total), (0, 0));
}

#[test]
fn gauge_returns_after_request() {
    let mut g = ConnectionGauge::new();
    g.enter();
    assert_eq!(g.active, 1);
    g.enter();
    g.leave();
    g.leave();
    assert_eq!(g.active, 0);
}

#[test]
fn windows_plus_live_counter_equal_all_increments() {
    let mut counters = Counters::new();
    let mut taken_ping = 0u64;
    let mut taken_total = 0u64;
    for i in 0..50u64 {
        counters.record_ping();
        if i % 2 == 0 {
            counters.record_request();
        }
        if i % 7 == 6 {
            let w = counters.take_window();
            taken_ping += w.ping;
            taken_total += w.total;
        }
        assert_eq!(taken_ping + counters.ping, i + 1);
        assert_eq!(taken_total + counters.total, i / 2 + 1);
    }
}
