//! Request counters: the write target of the hot path, read once per second
//! by the metrics reporter.
use vstd::prelude::*;

verus! {

/// `x + 1`, wrapping to 0 past `u64::MAX` as an atomic increment does.
pub open spec fn wrapping_inc(x: u64) -> u64 {
    if x == u64::MAX {
        0
    } else {
        (x + 1) as u64
    }
}

/// The request counters of one reporting window.
pub struct Counters {
    /// Ping endpoint requests.
    pub ping: u64,
    /// Echo endpoint requests.
    pub echo: u64,
    /// Errors across all endpoints.
    pub errors: u64,
    /// Requests across all endpoints.
    pub total: u64,
}

/// The counts that a reporting window collected.
pub struct WindowCounts {
    pub ping: u64,
    pub echo: u64,
    pub errors: u64,
    pub total: u64,
}

impl Counters {
    /// All four counters at zero.
    pub open spec fn is_zero(self) -> bool {
        self.ping == 0 && self.echo == 0 && self.errors == 0 && self.total == 0
    }

    /// New counters, all zero.
    pub fn new() -> (r: Self)
        ensures
            r.is_zero(),
    {
        Counters { ping: 0, echo: 0, errors: 0, total: 0 }
    }

    /// Counts one ping request.
    pub fn record_ping(&mut self)
        ensures
            final(self).ping == wrapping_inc(old(self).ping),
            final(self).echo == old(self).echo,
            final(self).errors == old(self).errors,
            final(self).total == old(self).total,
    {
        self.ping = self.ping.wrapping_add(1);
    }

    /// Counts one request on any endpoint.
    pub fn record_request(&mut self)
        ensures
            final(self).total == wrapping_inc(old(self).total),
            final(self).ping == old(self).ping,
            final(self).echo == old(self).echo,
            final(self).errors == old(self).errors,
    {
        self.total = self.total.wrapping_add(1);
    }

    /// Ends a reporting window: returns what each counter holds and sets it
    /// back to zero.
    pub fn take_window(&mut self) -> (r: WindowCounts)
        ensures
            r.ping == old(self).ping,
            r.echo == old(self).echo,
            r.errors == old(self).errors,
            r.total == old(self).total,
            final(self).is_zero(),
    {
        let r = WindowCounts {
            ping: self.ping,
            echo: self.echo,
            errors: self.errors,
            total: self.total,
        };
        self.ping = 0;
        self.echo = 0;
        self.errors = 0;
        self.total = 0;
        r
    }
}

impl Default for Counters {
    fn default() -> (r: Self)
        ensures
            r.is_zero(),
    {
        Counters::new()
    }
}

/// A counter at `start` after `n` increments.
pub open spec fn after_increments(start: u64, n: nat) -> u64
    decreases n,
{
    if n == 0 {
        start
    } else {
        wrapping_inc(after_increments(start, (n - 1) as nat))
    }
}

/// A counter that starts at zero equals the number of increments it
/// received, as long as that number fits in a `u64`: no increment is lost.
pub proof fn law_counter_counts_exactly(n: nat)
    requires
        n <= u64::MAX,
    ensures
        after_increments(0, n) == n,
    decreases n,
{
    if n > 0 {
        law_counter_counts_exactly((n - 1) as nat);
    }
}

/// What can happen to the counters: a ping is counted (`record_ping`), a
/// request is counted (`record_request`), or the reporter closes a window
/// (`take_window`).
#[derive(PartialEq, Eq, Structural)]
pub enum CounterEvent {
    Ping,
    Request,
    Take,
}

/// Replays `events` on new counters. The result is the live ping and total
/// counters, and the ping and total counts handed out by all windows taken;
/// each step is what the corresponding method ensures.
pub open spec fn replay(events: Seq<CounterEvent>) -> (u64, u64, int, int)
    decreases events.len(),
{
    if events.len() == 0 {
        (0, 0, 0, 0)
    } else {
        let (ping, total, taken_ping, taken_total) = replay(events.drop_last());
        match events.last() {
            CounterEvent::Ping => (wrapping_inc(ping), total, taken_ping, taken_total),
            CounterEvent::Request => (ping, wrapping_inc(total), taken_ping, taken_total),
            CounterEvent::Take => (0, 0, taken_ping + ping, taken_total + total),
        }
    }
}

/// Number of events of kind `e` in `events`.
pub open spec fn count_of(events: Seq<CounterEvent>, e: CounterEvent) -> nat
    decreases events.len(),
{
    if events.len() == 0 {
        0
    } else {
        count_of(events.drop_last(), e) + if events.last() == e {
            1nat
        } else {
            0nat
        }
    }
}

/// No increment is lost or reported twice: the counts of all windows taken
/// so far plus the live counter equal the increments made, for pings and
/// for requests, as long as neither number exceeds `u64::MAX`.
pub proof fn law_windows_account_for_every_increment(events: Seq<CounterEvent>)
    requires
        count_of(events, CounterEvent::Ping) <= u64::MAX,
        count_of(events, CounterEvent::Request) <= u64::MAX,
    ensures
        replay(events).2 + replay(events).0 == count_of(events, CounterEvent::Ping),
        replay(events).3 + replay(events).1 == count_of(events, CounterEvent::Request),
        replay(events).2 >= 0,
        replay(events).3 >= 0,
    decreases events.len(),
{
    if events.len() > 0 {
        law_windows_account_for_every_increment(events.drop_last());
    }
}

/// `x + 1` on an `i64`, wrapping as an atomic increment does.
pub open spec fn wrapping_inc_i64(x: i64) -> i64 {
    if x == i64::MAX {
        i64::MIN
    } else {
        (x + 1) as i64
    }
}

/// `x - 1` on an `i64`, wrapping as an atomic decrement does.
pub open spec fn wrapping_dec_i64(x: i64) -> i64 {
    if x == i64::MIN {
        i64::MAX
    } else {
        (x - 1) as i64
    }
}

/// Gauge of the requests in flight.
pub struct ConnectionGauge {
    pub active: i64,
}

impl ConnectionGauge {
    /// A gauge at zero.
    pub fn new() -> (r: Self)
        ensures
            r.active == 0,
    {
        ConnectionGauge { active: 0 }
    }

    /// A request starts.
    pub fn enter(&mut self)
        ensures
            final(self).active == wrapping_inc_i64(old(self).active),
    {
        self.active = self.active.wrapping_add(1);
    }

    /// A request ends.
    pub fn leave(&mut self)
        ensures
            final(self).active == wrapping_dec_i64(old(self).active),
    {
        self.active = self.active.wrapping_sub(1);
    }
}

/// A request that starts and ends leaves the gauge where it was; away from
/// the `i64` limits, starting adds one request and ending removes one.
pub proof fn law_enter_then_leave_restores(active: i64)
    ensures
        wrapping_dec_i64(wrapping_inc_i64(active)) == active,
        active < i64::MAX ==> wrapping_inc_i64(active) == active + 1,
        active > i64::MIN ==> wrapping_dec_i64(active) == active - 1,
{
}

} // verus!
