//! State of the built-in load generator. It knows nothing of HTTP: workers
//! report each call's outcome, and the status is derived from the counts.
use vstd::prelude::*;

use crate::state::{wrapping_inc, Counters};

verus! {

/// How the load generator calls its target.
#[derive(Clone, Copy, PartialEq, Eq, Structural, Debug)]
pub enum BenchMode {
    /// Real HTTP requests over 127.0.0.1.
    Loopback,
    /// Direct in-process calls, no network.
    Direct,
}

impl Default for BenchMode {
    fn default() -> (r: Self)
        ensures
            r == BenchMode::Loopback,
    {
        BenchMode::Loopback
    }
}

/// Request body of `POST /internal/bench/start`.
pub struct BenchStartRequest {
    /// Number of concurrent workers.
    pub concurrency: u32,
    /// Run length in seconds.
    pub duration_secs: u64,
    /// How the workers call the target.
    pub mode: BenchMode,
    /// Target endpoint path.
    pub target_endpoint: String,
}

/// Default number of workers.
pub fn default_concurrency() -> (r: u32)
    ensures
        r == 100,
{
    100
}

/// Default run length in seconds.
pub fn default_duration() -> (r: u64)
    ensures
        r == 30,
{
    30
}

/// Default target endpoint.
pub fn default_target() -> (r: String)
    ensures
        r@ == "/api/v1/ping"@,
{
    String::from_str("/api/v1/ping")
}

/// Requests per second that count as reaching the target.
pub const TARGET_RPS: u64 = 1_000_000;

/// Counts and settings of the current or last run.
pub struct BenchEngine {
    /// Whether a run is in progress.
    pub running: bool,
    /// Calls made (successful and failed).
    pub requests_sent: u64,
    /// Successful calls.
    pub requests_success: u64,
    /// Failed calls.
    pub requests_failed: u64,
    /// Highest requests-per-second rate observed in this run.
    pub peak_rps: u64,
    /// Mode of the current or last run.
    pub mode: BenchMode,
    /// Configured concurrency of the current or last run.
    pub concurrency: u64,
}

/// What `GET /internal/bench/status` reports (the latency percentiles,
/// always zero, are added by the HTTP layer).
pub struct BenchStatus {
    pub running: bool,
    pub mode: BenchMode,
    pub concurrency: u32,
    pub elapsed_secs: u64,
    pub requests_sent: u64,
    pub requests_success: u64,
    pub requests_failed: u64,
    pub current_rps: u64,
    pub peak_rps: u64,
    pub target_rps: u64,
    pub target_reached: bool,
}

/// Average rate of a run: calls per elapsed second, 0 before a second has passed.
pub open spec fn average_rps(sent: u64, elapsed_secs: u64) -> u64 {
    if elapsed_secs == 0 {
        0
    } else {
        sent / elapsed_secs
    }
}

/// The peak after a status read: the average rate where it beats the old peak.
pub open spec fn raised_peak(peak: u64, sent: u64, elapsed_secs: u64) -> u64 {
    if average_rps(sent, elapsed_secs) > peak {
        average_rps(sent, elapsed_secs)
    } else {
        peak
    }
}

impl BenchEngine {
    /// The run counters all at zero.
    pub open spec fn counts_zero(self) -> bool {
        self.requests_sent == 0 && self.requests_success == 0 && self.requests_failed == 0
            && self.peak_rps == 0
    }

    /// Every call sent is counted as a success or a failure (modulo 2^64,
    /// the counters' wrap).
    pub open spec fn counts_consistent(self) -> bool {
        self.requests_sent as int == (self.requests_success + self.requests_failed) % 0x1_0000_0000_0000_0000
    }

    /// An idle engine: not running, all counters zero, loopback mode.
    pub fn new() -> (r: Self)
        ensures
            !r.running,
            r.counts_zero(),
            r.mode == BenchMode::Loopback,
            r.concurrency == 0,
    {
        BenchEngine {
            running: false,
            requests_sent: 0,
            requests_success: 0,
            requests_failed: 0,
            peak_rps: 0,
            mode: BenchMode::Loopback,
            concurrency: 0,
        }
    }

    /// Resets the run counters for a new run; running state, mode and
    /// concurrency are kept.
    pub fn reset(&mut self)
        ensures
            final(self).counts_zero(),
            final(self).running == old(self).running,
            final(self).mode == old(self).mode,
            final(self).concurrency == old(self).concurrency,
    {
        self.requests_sent = 0;
        self.requests_success = 0;
        self.requests_failed = 0;
        self.peak_rps = 0;
    }

    /// Starts a run: counters reset, running, with the given settings.
    pub fn begin_run(&mut self, concurrency: usize, mode: BenchMode)
        ensures
            final(self).counts_zero(),
            final(self).running,
            final(self).mode == mode,
            final(self).concurrency == concurrency as u64,
    {
        self.reset();
        self.running = true;
        self.concurrency = concurrency as u64;
        self.mode = mode;
    }

    /// Whether a run is in progress; workers stop once this is false.
    pub fn is_running(&self) -> (r: bool)
        ensures
            r == self.running,
    {
        self.running
    }

    /// Records one call made by a worker.
    pub fn record_outcome(&mut self, success: bool)
        ensures
            final(self).requests_sent == wrapping_inc(old(self).requests_sent),
            success ==> final(self).requests_success == wrapping_inc(old(self).requests_success),
            success ==> final(self).requests_failed == old(self).requests_failed,
            !success ==> final(self).requests_failed == wrapping_inc(old(self).requests_failed),
            !success ==> final(self).requests_success == old(self).requests_success,
            final(self).running == old(self).running,
            final(self).peak_rps == old(self).peak_rps,
            final(self).mode == old(self).mode,
            final(self).concurrency == old(self).concurrency,
    {
        if success {
            self.requests_success = self.requests_success.wrapping_add(1);
        } else {
            self.requests_failed = self.requests_failed.wrapping_add(1);
        }
        self.requests_sent = self.requests_sent.wrapping_add(1);
    }

    /// Stops the run; returns whether one was in progress.
    pub fn stop(&mut self) -> (was_running: bool)
        ensures
            was_running == old(self).running,
            !final(self).running,
            final(self).requests_sent == old(self).requests_sent,
            final(self).requests_success == old(self).requests_success,
            final(self).requests_failed == old(self).requests_failed,
            final(self).peak_rps == old(self).peak_rps,
            final(self).mode == old(self).mode,
            final(self).concurrency == old(self).concurrency,
    {
        let was_running = self.running;
        self.running = false;
        was_running
    }

    /// Status of the run, `elapsed_secs` after it started (0 where none
    /// started). The average rate raises the recorded peak where it exceeds it.
    pub fn status(&mut self, elapsed_secs: u64) -> (r: BenchStatus)
        ensures
            final(self).peak_rps == raised_peak(
                old(self).peak_rps,
                old(self).requests_sent,
                elapsed_secs,
            ),
            final(self).running == old(self).running,
            final(self).requests_sent == old(self).requests_sent,
            final(self).requests_success == old(self).requests_success,
            final(self).requests_failed == old(self).requests_failed,
            final(self).mode == old(self).mode,
            final(self).concurrency == old(self).concurrency,
            r.running == old(self).running,
            r.mode == old(self).mode,
            r.concurrency == old(self).concurrency as u32,
            r.elapsed_secs == elapsed_secs,
            r.requests_sent == old(self).requests_sent,
            r.requests_success == old(self).requests_success,
            r.requests_failed == old(self).requests_failed,
            r.current_rps == if old(self).running {
                average_rps(old(self).requests_sent, elapsed_secs)
            } else {
                0
            },
            r.peak_rps == final(self).peak_rps,
            r.target_rps == TARGET_RPS,
            r.target_reached == (r.current_rps >= TARGET_RPS || r.peak_rps >= TARGET_RPS),
    {
        let calculated_rps = if elapsed_secs == 0 {
            0
        } else {
            self.requests_sent / elapsed_secs
        };
        if calculated_rps > self.peak_rps {
            self.peak_rps = calculated_rps;
        }
        let current_rps = if self.running {
            calculated_rps
        } else {
            0
        };
        let peak_rps = self.peak_rps;
        BenchStatus {
            running: self.running,
            mode: self.mode,
            concurrency: self.concurrency as u32,
            elapsed_secs,
            requests_sent: self.requests_sent,
            requests_success: self.requests_success,
            requests_failed: self.requests_failed,
            current_rps,
            peak_rps,
            target_rps: TARGET_RPS,
            target_reached: current_rps >= TARGET_RPS || peak_rps >= TARGET_RPS,
        }
    }
}

/// An HTTP status that counts as a successful call: 2xx.
pub open spec fn is_success_status(status: u16) -> bool {
    200 <= status <= 299
}

/// Whether a worker's call succeeded: in loopback mode, a response with a
/// 2xx status (`None` is a request that got no response); in direct mode,
/// always.
pub open spec fn call_succeeded(mode: BenchMode, response_status: Option<u16>) -> bool {
    match mode {
        BenchMode::Loopback => match response_status {
            Some(s) => is_success_status(s),
            None => false,
        },
        BenchMode::Direct => true,
    }
}

/// Records one iteration of a worker after its call: the outcome goes to the
/// engine, and a direct call is also counted as a ping request in the
/// application counters (`response_status` is not read in direct mode).
pub fn worker_step(
    engine: &mut BenchEngine,
    counters: &mut Counters,
    mode: BenchMode,
    response_status: Option<u16>,
)
    ensures
        final(engine).requests_sent == wrapping_inc(old(engine).requests_sent),
        call_succeeded(mode, response_status) ==> final(engine).requests_success == wrapping_inc(
            old(engine).requests_success,
        ),
        call_succeeded(mode, response_status) ==> final(engine).requests_failed == old(
            engine,
        ).requests_failed,
        !call_succeeded(mode, response_status) ==> final(engine).requests_failed
            == wrapping_inc(old(engine).requests_failed),
        !call_succeeded(mode, response_status) ==> final(engine).requests_success == old(
            engine,
        ).requests_success,
        final(engine).running == old(engine).running,
        final(engine).peak_rps == old(engine).peak_rps,
        final(engine).mode == old(engine).mode,
        final(engine).concurrency == old(engine).concurrency,
        mode == BenchMode::Direct ==> final(counters).ping == wrapping_inc(old(counters).ping),
        mode == BenchMode::Direct ==> final(counters).total == wrapping_inc(old(counters).total),
        mode == BenchMode::Loopback ==> final(counters).ping == old(counters).ping,
        mode == BenchMode::Loopback ==> final(counters).total == old(counters).total,
        final(counters).echo == old(counters).echo,
        final(counters).errors == old(counters).errors,
{
    match mode {
        BenchMode::Loopback => {
            let success = match response_status {
                Some(s) => 200 <= s && s <= 299,
                None => false,
            };
            engine.record_outcome(success);
        },
        BenchMode::Direct => {
            counters.record_ping();
            counters.record_request();
            engine.record_outcome(true);
        },
    }
}

impl Default for BenchEngine {
    fn default() -> (r: Self)
        ensures
            !r.running,
            r.counts_zero(),
            r.mode == BenchMode::Loopback,
            r.concurrency == 0,
    {
        BenchEngine::new()
    }
}

/// The average rate is the whole number of calls per elapsed second: the
/// largest rate that, kept up for the elapsed seconds, makes no more calls
/// than were sent; 0 before a whole second has passed.
pub proof fn law_average_is_calls_per_second(sent: u64, elapsed_secs: u64)
    ensures
        elapsed_secs == 0 ==> average_rps(sent, elapsed_secs) == 0,
        elapsed_secs > 0 ==> average_rps(sent, elapsed_secs) * elapsed_secs <= sent,
        elapsed_secs > 0 ==> sent < (average_rps(sent, elapsed_secs) + 1) * elapsed_secs,
{
    if elapsed_secs > 0 {
        let a = average_rps(sent, elapsed_secs) as int;
        let e = elapsed_secs as int;
        let s = sent as int;
        vstd::arithmetic::div_mod::lemma_fundamental_div_mod(s, e);
        assert(s == e * a + s % e);
        assert(0 <= s % e < e) by {
            vstd::arithmetic::div_mod::lemma_mod_bound(s, e);
        }
        assert(a * e == e * a) by (nonlinear_arith);
        assert((a + 1) * e == e * a + e) by (nonlinear_arith);
    }
}

/// The recorded peak never falls: a status read keeps it at least as high
/// as before and at least as high as the rate it reports; only `reset`
/// (and so `begin_run`) sets it back to zero.
pub proof fn law_peak_never_falls(peak: u64, sent: u64, elapsed_secs: u64)
    ensures
        raised_peak(peak, sent, elapsed_secs) == peak || raised_peak(peak, sent, elapsed_secs)
            == average_rps(sent, elapsed_secs),
        raised_peak(peak, sent, elapsed_secs) >= peak,
        raised_peak(peak, sent, elapsed_secs) >= average_rps(sent, elapsed_secs),
{
}

/// The sent, success and failed counts after a run that began with
/// `begin_run` (all zero) and recorded `outcomes` in order, each step being
/// what `record_outcome` ensures.
pub open spec fn counts_after(outcomes: Seq<bool>) -> (u64, u64, u64)
    decreases outcomes.len(),
{
    if outcomes.len() == 0 {
        (0, 0, 0)
    } else {
        let (sent, success, failed) = counts_after(outcomes.drop_last());
        if outcomes.last() {
            (wrapping_inc(sent), wrapping_inc(success), failed)
        } else {
            (wrapping_inc(sent), success, wrapping_inc(failed))
        }
    }
}

/// Number of successful calls among `outcomes`.
pub open spec fn successes(outcomes: Seq<bool>) -> nat
    decreases outcomes.len(),
{
    if outcomes.len() == 0 {
        0
    } else {
        successes(outcomes.drop_last()) + if outcomes.last() {
            1nat
        } else {
            0nat
        }
    }
}

/// Over a whole run, every call is counted once as sent and once as either
/// a success or a failure: sent equals success plus failed equals the
/// number of calls, as long as that number fits in a `u64`.
pub proof fn law_run_counts_every_call(outcomes: Seq<bool>)
    requires
        outcomes.len() <= u64::MAX,
    ensures
        counts_after(outcomes).0 == outcomes.len(),
        counts_after(outcomes).1 == successes(outcomes),
        counts_after(outcomes).0 == counts_after(outcomes).1 + counts_after(outcomes).2,
    decreases outcomes.len(),
{
    if outcomes.len() > 0 {
        law_run_counts_every_call(outcomes.drop_last());
    }
}

/// Recording an outcome keeps every sent call counted as a success or a
/// failure.
pub proof fn law_outcome_keeps_counts_consistent(
    sent: u64,
    success: u64,
    failed: u64,
    succeeded: bool,
)
    requires
        sent as int == (success + failed) % 0x1_0000_0000_0000_0000,
    ensures
        ({
            let s2 = if succeeded { wrapping_inc(success) } else { success };
            let f2 = if succeeded { failed } else { wrapping_inc(failed) };
            wrapping_inc(sent) as int == (s2 + f2) % 0x1_0000_0000_0000_0000
        }),
{
    let m: int = 0x1_0000_0000_0000_0000;
    let s2 = if succeeded { wrapping_inc(success) } else { success };
    let f2 = if succeeded { failed } else { wrapping_inc(failed) };
    assert(s2 + f2 == success + failed + 1 || s2 + f2 == success + failed + 1 - m);
    assert(((success + failed + 1) - m) % m == (success + failed + 1) % m) by {
        vstd::arithmetic::div_mod::lemma_mod_sub_multiples_vanish(success + failed + 1, m);
    }
    assert((sent + 1) % m == ((success + failed) % m + 1) % m) by {
        vstd::arithmetic::div_mod::lemma_add_mod_noop(success + failed, 1, m);
        vstd::arithmetic::div_mod::lemma_small_mod(1, m as nat);
    }
    if sent as int == m - 1 {
        vstd::arithmetic::div_mod::lemma_mod_self_0(m);
    } else {
        vstd::arithmetic::div_mod::lemma_small_mod((sent + 1) as nat, m as nat);
    }
}

} // verus!
