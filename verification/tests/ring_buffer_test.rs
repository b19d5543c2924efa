use ouroboros_api::api::v1::metrics_api::{metrics_history, MetricsQuery};
use ouroboros_api::metrics::ring_buffer::{RingBuffer, RING_SIZE};

#[derive(Clone, Copy, Debug, Default, PartialEq)]
struct MetricSnapshot {
    timestamp_secs: u64,
    ping_rps: u64,
    total_rps: u64,
    error_rate_pct: f64,
    active_conns: i64,
}

#[test]
fn push_and_read_basic() {
    let mut buf = RingBuffer::new();
    for i in 0..5 {
        buf.push(MetricSnapshot {
            timestamp_secs: i,
            ping_rps: i * 100,
            ..Default::default()
        });
    }
    let result = buf.last_n(5);
    assert_eq!(result.len(), 5);
    assert_eq!(result[0].timestamp_secs, 0);
    assert_eq!(result[4].timestamp_secs, 4);
}

#[test]
fn wraparound() {
    let mut buf = RingBuffer::new();
    // Push 65 items — wraps around the 60-slot buffer
    for i in 0..65u64 {
        buf.push(MetricSnapshot {
            timestamp_secs: i,
            ping_rps: i,
            ..Default::default()
        });
    }
    let result = buf.last_n(60);
    assert_eq!(result.len(), 60);
    // Oldest should be 5 (items 0-4 were overwritten)
    assert_eq!(result[0].timestamp_secs, 5);
    assert_eq!(result[59].timestamp_secs, 64);
}

#[test]
fn last_n_capped_at_written() {
    let mut buf = RingBuffer::new();
    buf.push(MetricSnapshot {
        timestamp_secs: 1,
        ..Default::default()
    });
    // Only 1 item written — requesting 60 should return 1
    let result = buf.last_n(60);
    assert_eq!(result.len(), 1);
}

#[test]
fn test_metrics_handler_empty() {
    let buf: RingBuffer<MetricSnapshot> = RingBuffer::new();
    let res = metrics_history(&buf, &MetricsQuery { n: None });
    assert_eq!(res.len(), 0);
}

#[test]
fn test_metrics_handler_ac11_ring_buffer() {
    let mut buf = RingBuffer::new();
    // Simulate 75 snapshots (past 60 slots capacity)
    for i in 1..=75 {
        buf.push(MetricSnapshot {
            timestamp_secs: 1000 + i,
            ping_rps: i * 100,
            total_rps: i * 100,
            error_rate_pct: 0.0,
            active_conns: 0,
        });
    }

    // Default query: should return last 60 snapshots (AC-11)
    let res = metrics_history(&buf, &MetricsQuery { n: None });
    assert_eq!(res.len(), 60);
    assert_eq!(res[0].timestamp_secs, 1016);
    assert_eq!(res[59].timestamp_secs, 1075);

    // Custom n=10: should return last 10 snapshots
    let res_10 = metrics_history(&buf, &MetricsQuery { n: Some(10) });
    assert_eq!(res_10.len(), 10);
    assert_eq!(res_10[0].timestamp_secs, 1066);
    assert_eq!(res_10[9].timestamp_secs, 1075);

    // Capped at 60: query with n=100 returns 60
    let res_capped = metrics_history(&buf, &MetricsQuery { n: Some(100) });
    assert_eq!(res_capped.len(), 60);
}

#[test]
fn buffer_shows_most_recent_pushes_in_order() {
    let mut buf: RingBuffer<u32> = RingBuffer::new();
    assert_eq!(buf.pushes(), 0);
    assert!(buf.last_n(10).is_empty());
    for i in 0..200u32 {
        buf.push(i);
        let expected: Vec<u32> = (i.saturating_sub(RING_SIZE as u32 - 1)..=i).collect();
        assert_eq!(buf.last_n(RING_SIZE), expected);
    }
    assert_eq!(buf.pushes(), 200);
    assert_eq!(buf.last_n(3), vec![197, 198, 199]);
    assert_eq!(buf.last_n(0), Vec::<u32>::new());
}

#[test]
fn window_length_defaults_and_caps() {
    assert_eq!(MetricsQuery { n: None }.window_len(), 60);
    assert_eq!(MetricsQuery { n: Some(0) }.window_len(), 0);
    assert_eq!(MetricsQuery { n: Some(59) }.window_len(), 59);
    assert_eq!(MetricsQuery { n: Some(usize::MAX) }.window_len(), 60);
}
