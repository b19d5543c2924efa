//! Rules of the `/internal/bench/*` endpoints: which start requests are
//! accepted, and the URL that loopback workers call.
use vstd::prelude::*;

use crate::bench::engine::{BenchEngine, BenchStartRequest};
use crate::text::{contains_char, contains_run, contains_seq, str_chars, trim, trim_str};

pub mod engine;

verus! {

/// Highest concurrency any run may have, whatever the configuration says.
pub const MAX_CONCURRENCY: u32 = 10_000;

/// Shortest accepted run, in seconds.
pub const MIN_DURATION_SECS: u64 = 5;

/// Longest accepted run, in seconds.
pub const MAX_DURATION_SECS: u64 = 3_600;

/// Why a start request was refused.
#[derive(Clone, Copy, PartialEq, Eq, Structural, Debug)]
pub enum BenchStartRejection {
    /// Concurrency of 0 or above the ceiling.
    InvalidConcurrency,
    /// Duration outside 5..=3600 seconds.
    InvalidDuration,
    /// Target that is no relative path.
    InvalidTarget,
    /// A run is already in progress.
    AlreadyRunning,
}

/// Highest concurrency accepted: the configured maximum, itself never
/// above `MAX_CONCURRENCY`.
pub open spec fn concurrency_ceiling(configured: u32) -> u32 {
    if configured < MAX_CONCURRENCY {
        configured
    } else {
        MAX_CONCURRENCY
    }
}

/// A (trimmed) target accepted as a relative path on this server: it starts
/// with `/` and holds no `@`, no `://` and no space.
pub open spec fn target_ok(t: Seq<char>) -> bool {
    &&& t.len() > 0
    &&& t[0] == '/'
    &&& !t.contains('@')
    &&& !contains_run(t, seq![':', '/', '/'])
    &&& !t.contains(' ')
}

/// The outcome of a start request, checked in this order: concurrency,
/// duration, target, then whether a run is already in progress.
pub open spec fn start_rule(
    concurrency: u32,
    duration_secs: u64,
    target: Seq<char>,
    configured_max: u32,
    running: bool,
) -> Result<(), BenchStartRejection> {
    if concurrency == 0 || concurrency > concurrency_ceiling(configured_max) {
        Err(BenchStartRejection::InvalidConcurrency)
    } else if duration_secs < MIN_DURATION_SECS || duration_secs > MAX_DURATION_SECS {
        Err(BenchStartRejection::InvalidDuration)
    } else if !target_ok(trim(target)) {
        Err(BenchStartRejection::InvalidTarget)
    } else if running {
        Err(BenchStartRejection::AlreadyRunning)
    } else {
        Ok(())
    }
}

/// A start request is accepted exactly when the concurrency is between 1
/// and both the configured maximum and 10000, the duration is between 5 and
/// 3600 seconds, the trimmed target starts with `/` and holds no `@`, no
/// `://` and no space, and no run is in progress. Each refusal names the
/// first of these checks that fails.
pub proof fn law_start_accepted_exactly(
    concurrency: u32,
    duration_secs: u64,
    target: Seq<char>,
    configured_max: u32,
    running: bool,
)
    ensures
        start_rule(concurrency, duration_secs, target, configured_max, running) is Ok <==> ({
            let t = trim(target);
            &&& 1 <= concurrency
            &&& concurrency <= configured_max
            &&& concurrency <= 10_000
            &&& 5 <= duration_secs <= 3600
            &&& t.len() > 0
            &&& t[0] == '/'
            &&& forall|i: int| 0 <= i < t.len() ==> t[i] != '@' && t[i] != ' '
            &&& forall|i: int|
                #![trigger t[i]]
                0 <= i && i + 3 <= t.len() ==> !(t[i] == ':' && t[i + 1] == '/' && t[i + 2] == '/')
            &&& !running
        }),
        (concurrency == 0 || concurrency > configured_max || concurrency > 10_000) ==> start_rule(
            concurrency,
            duration_secs,
            target,
            configured_max,
            running,
        ) == Err::<(), BenchStartRejection>(BenchStartRejection::InvalidConcurrency),
        1 <= concurrency && concurrency <= configured_max && concurrency <= 10_000 && (duration_secs
            < 5 || duration_secs > 3600) ==> start_rule(
            concurrency,
            duration_secs,
            target,
            configured_max,
            running,
        ) == Err::<(), BenchStartRejection>(BenchStartRejection::InvalidDuration),
        1 <= concurrency && concurrency <= configured_max && concurrency <= 10_000 && 5
            <= duration_secs <= 3600 && (trim(target).len() == 0 || trim(target)[0] != '/')
            ==> start_rule(
            concurrency,
            duration_secs,
            target,
            configured_max,
            running,
        ) == Err::<(), BenchStartRejection>(BenchStartRejection::InvalidTarget),
{
    let t = trim(target);
    let sep = seq![':', '/', '/'];
    if contains_run(t, sep) {
        let i = choose|i: int| 0 <= i && i + sep.len() <= t.len() && #[trigger] t.subrange(i, i + sep.len()) == sep;
        assert(t.subrange(i, i + 3)[0] == t[i]);
        assert(t.subrange(i, i + 3)[1] == t[i + 1]);
        assert(t.subrange(i, i + 3)[2] == t[i + 2]);
    }
    if forall|i: int| 0 <= i < t.len() ==> t[i] != '@' && t[i] != ' ' {
        assert(!t.contains('@'));
        assert(!t.contains(' '));
    }
    if !contains_run(t, sep) {
        assert forall|i: int|
            #![trigger t[i]]
            0 <= i && i + 3 <= t.len() implies !(t[i] == ':' && t[i + 1] == '/' && t[i + 2] == '/') by {
            if t[i] == ':' && t[i + 1] == '/' && t[i + 2] == '/' {
                assert(t.subrange(i, i + 3) =~= sep);
            }
        }
    }
}

fn target_is_relative_path(target: &str) -> (r: bool)
    ensures
        r == target_ok(trim(target@)),
{
    let t = trim_str(target);
    let chars = str_chars(t);
    let scheme_sep: Vec<char> = vec![':', '/', '/'];
    assert(scheme_sep@ =~= seq![':', '/', '/']);
    chars.len() > 0 && chars[0] == '/' && !contains_char(&chars, '@') && !contains_seq(
        &chars,
        &scheme_sep,
    ) && !contains_char(&chars, ' ')
}

/// Whether a start request is accepted, given the configured concurrency
/// ceiling and the engine's state.
pub fn check_start_request(req: &BenchStartRequest, configured_max: u32, engine: &BenchEngine) -> (r:
    Result<(), BenchStartRejection>)
    ensures
        r == start_rule(
            req.concurrency,
            req.duration_secs,
            req.target_endpoint@,
            configured_max,
            engine.running,
        ),
{
    let ceiling = if configured_max < MAX_CONCURRENCY {
        configured_max
    } else {
        MAX_CONCURRENCY
    };
    if req.concurrency == 0 || req.concurrency > ceiling {
        return Err(BenchStartRejection::InvalidConcurrency);
    }
    if req.duration_secs < MIN_DURATION_SECS || req.duration_secs > MAX_DURATION_SECS {
        return Err(BenchStartRejection::InvalidDuration);
    }
    if !target_is_relative_path(req.target_endpoint.as_str()) {
        return Err(BenchStartRejection::InvalidTarget);
    }
    if engine.is_running() {
        return Err(BenchStartRejection::AlreadyRunning);
    }
    Ok(())
}

/// HTTP status answering a rejection.
pub open spec fn spec_rejection_status(r: BenchStartRejection) -> u16 {
    match r {
        BenchStartRejection::AlreadyRunning => 409,
        _ => 422,
    }
}

/// Machine-readable code answering a rejection.
pub open spec fn spec_rejection_code(r: BenchStartRejection) -> Seq<char> {
    match r {
        BenchStartRejection::AlreadyRunning => "BENCH_RUNNING"@,
        _ => "VALIDATION_ERROR"@,
    }
}

/// Message answering a rejection.
pub open spec fn spec_rejection_message(r: BenchStartRejection) -> Seq<char> {
    match r {
        BenchStartRejection::InvalidConcurrency => "concurrency must be between 1 and 10000"@,
        BenchStartRejection::InvalidDuration => "duration_secs must be between 5 and 3600"@,
        BenchStartRejection::InvalidTarget => "target_endpoint must be a relative path starting with '/'"@,
        BenchStartRejection::AlreadyRunning => "bench already running"@,
    }
}

impl BenchStartRejection {
    /// HTTP status of the response.
    pub fn status_code(&self) -> (r: u16)
        ensures
            r == spec_rejection_status(*self),
    {
        match self {
            BenchStartRejection::AlreadyRunning => 409,
            _ => 422,
        }
    }

    /// The response body's `code` field.
    pub fn code(&self) -> (r: &'static str)
        ensures
            r@ == spec_rejection_code(*self),
    {
        match self {
            BenchStartRejection::AlreadyRunning => "BENCH_RUNNING",
            _ => "VALIDATION_ERROR",
        }
    }

    /// The response body's `error` field.
    pub fn message(&self) -> (r: &'static str)
        ensures
            r@ == spec_rejection_message(*self),
    {
        match self {
            BenchStartRejection::InvalidConcurrency => "concurrency must be between 1 and 10000",
            BenchStartRejection::InvalidDuration => "duration_secs must be between 5 and 3600",
            BenchStartRejection::InvalidTarget => "target_endpoint must be a relative path starting with '/'",
            BenchStartRejection::AlreadyRunning => "bench already running",
        }
    }
}

/// The decimal digit `d` (for `d < 10`).
pub open spec fn digit_char(d: nat) -> char {
    if d == 0 {
        '0'
    } else if d == 1 {
        '1'
    } else if d == 2 {
        '2'
    } else if d == 3 {
        '3'
    } else if d == 4 {
        '4'
    } else if d == 5 {
        '5'
    } else if d == 6 {
        '6'
    } else if d == 7 {
        '7'
    } else if d == 8 {
        '8'
    } else {
        '9'
    }
}

/// Decimal notation of `n`, without leading zeros.
pub open spec fn decimal(n: nat) -> Seq<char>
    decreases n,
{
    if n < 10 {
        seq![digit_char(n)]
    } else {
        decimal(n / 10).push(digit_char(n % 10))
    }
}

/// The number that the decimal digits `s` denote (most significant first).
pub open spec fn digits_value(s: Seq<char>) -> int
    decreases s.len(),
{
    if s.len() == 0 {
        0
    } else {
        digits_value(s.drop_last()) * 10 + (s.last() as int - '0' as int)
    }
}

proof fn lemma_digit_char_value(d: nat)
    requires
        d < 10,
    ensures
        digit_char(d) as int - '0' as int == d,
        '0' <= digit_char(d) <= '9',
{
    assert('0' as int == 48);
    assert('1' as int == 49);
    assert('2' as int == 50);
    assert('3' as int == 51);
    assert('4' as int == 52);
    assert('5' as int == 53);
    assert('6' as int == 54);
    assert('7' as int == 55);
    assert('8' as int == 56);
    assert('9' as int == 57);
}

/// The notation of `n` is made of decimal digits only, denotes `n`, and has
/// no leading zero (it is "0" for zero).
pub proof fn law_decimal_denotes_number(n: nat)
    ensures
        decimal(n).len() >= 1,
        forall|i: int| 0 <= i < decimal(n).len() ==> '0' <= #[trigger] decimal(n)[i] <= '9',
        digits_value(decimal(n)) == n,
        n > 0 ==> decimal(n)[0] != '0',
        n == 0 ==> decimal(n) == seq!['0'],
    decreases n,
{
    lemma_digit_char_value(n % 10);
    if n < 10 {
        assert(n % 10 == n);
        let d = decimal(n);
        assert(d.drop_last() =~= Seq::<char>::empty());
        assert(digits_value(d) == digits_value(d.drop_last()) * 10 + (d.last() as int - '0' as int));
    }
    if n >= 10 {
        law_decimal_denotes_number(n / 10);
        let d = decimal(n);
        assert(n == (n / 10) * 10 + n % 10);
        assert(d.last() == digit_char(n % 10));
        assert(digits_value(d) == digits_value(d.drop_last()) * 10 + (d.last() as int - '0' as int));
        assert(d.drop_last() =~= decimal(n / 10));
        assert(d[0] == decimal(n / 10)[0]);
        assert forall|i: int| 0 <= i < d.len() implies '0' <= #[trigger] d[i] <= '9' by {
            if i < d.len() - 1 {
                assert(d[i] == decimal(n / 10)[i]);
            }
        }
    }
}

fn digit_str(d: u16) -> (r: &'static str)
    requires
        d < 10,
    ensures
        r@ == seq![digit_char(d as nat)],
{
    proof {
        reveal_strlit("0");
        reveal_strlit("1");
        reveal_strlit("2");
        reveal_strlit("3");
        reveal_strlit("4");
        reveal_strlit("5");
        reveal_strlit("6");
        reveal_strlit("7");
        reveal_strlit("8");
        reveal_strlit("9");
    }
    if d == 0 {
        "0"
    } else if d == 1 {
        "1"
    } else if d == 2 {
        "2"
    } else if d == 3 {
        "3"
    } else if d == 4 {
        "4"
    } else if d == 5 {
        "5"
    } else if d == 6 {
        "6"
    } else if d == 7 {
        "7"
    } else if d == 8 {
        "8"
    } else {
        "9"
    }
}

fn append_decimal(s: &mut String, n: u16)
    ensures
        final(s)@ == old(s)@ + decimal(n as nat),
    decreases n,
{
    if n >= 10 {
        append_decimal(s, n / 10);
    }
    s.append(digit_str(n % 10));
    proof {
        if n >= 10 {
            assert(decimal(n as nat) == decimal((n / 10) as nat).push(digit_char((n % 10) as nat)));
        }
    }
}

/// The URL that loopback workers call: `http://127.0.0.1:<port><endpoint>`.
pub fn loopback_target_url(port: u16, endpoint: &str) -> (r: String)
    ensures
        r@ == "http://127.0.0.1:"@ + decimal(port as nat) + endpoint@,
{
    let mut url = String::from_str("http://127.0.0.1:");
    append_decimal(&mut url, port);
    url.append(endpoint);
    url
}

} // verus!
