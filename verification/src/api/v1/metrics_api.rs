//! `GET /api/v1/metrics`: the recent history of metric snapshots.
use vstd::prelude::*;

use crate::metrics::ring_buffer::{last_k, law_last_k_is_suffix, RingBuffer};

verus! {

/// Number of snapshots returned when the query names none, and the most
/// ever returned.
pub const DEFAULT_HISTORY: usize = 60;

/// Query string of `GET /api/v1/metrics`.
pub struct MetricsQuery {
    pub n: Option<usize>,
}

/// Number of snapshots a query asks for: `n`, defaulting to 60, capped at 60.
pub open spec fn spec_window_len(q: MetricsQuery) -> usize {
    let n = match q.n {
        Some(v) => v,
        None => DEFAULT_HISTORY,
    };
    if n < DEFAULT_HISTORY {
        n
    } else {
        DEFAULT_HISTORY
    }
}

impl MetricsQuery {
    /// Number of snapshots this query asks for.
    pub fn window_len(&self) -> (r: usize)
        ensures
            r == spec_window_len(*self),
    {
        let n = match self.n {
            Some(v) => v,
            None => DEFAULT_HISTORY,
        };
        if n < DEFAULT_HISTORY {
            n
        } else {
            DEFAULT_HISTORY
        }
    }
}

/// A query asks for `n` snapshots when `n` is at most 60, for 60 when `n`
/// is larger or absent; it is answered with that many of the most recent
/// snapshots, or all of them where fewer are visible.
pub proof fn law_query_reads_requested_count<T>(q: MetricsQuery, visible: Seq<T>)
    ensures
        match q.n {
            Some(n) => (n <= 60 ==> spec_window_len(q) == n) && (n > 60 ==> spec_window_len(q)
                == 60),
            None => spec_window_len(q) == 60,
        },
        last_k(visible, spec_window_len(q) as nat).len() == if spec_window_len(q) < visible.len() {
            spec_window_len(q) as nat
        } else {
            visible.len()
        },
{
    law_last_k_is_suffix(visible, spec_window_len(q) as nat);
}

/// The snapshots that answer a metrics query, oldest first.
pub fn metrics_history<T: Copy>(buffer: &RingBuffer<T>, query: &MetricsQuery) -> (r: Vec<T>)
    requires
        buffer.wf(),
        buffer.spec_pushes() + 60 <= usize::MAX,
    ensures
        r@ == last_k(buffer@, spec_window_len(*query) as nat),
{
    buffer.last_n(query.window_len())
}

} // verus!
