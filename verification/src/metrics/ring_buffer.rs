//! Fixed-size circular history of metric snapshots: one slot per second of
//! the last minute. Writing is O(1); reading the last `n` entries is O(n).
use vstd::prelude::*;

verus! {

/// Number of slots in the ring buffer: 60 seconds of history.
pub const RING_SIZE: usize = 60;

/// The last `k` elements of `s` (all of `s` where it is shorter), in order.
pub open spec fn last_k<T>(s: Seq<T>, k: nat) -> Seq<T> {
    if s.len() <= k {
        s
    } else {
        s.subrange(s.len() - k, s.len() as int)
    }
}

/// `last_k(s, k)` holds `min(k, |s|)` elements: the final ones of `s`, in
/// their order in `s`.
pub proof fn law_last_k_is_suffix<T>(s: Seq<T>, k: nat)
    ensures
        last_k(s, k).len() == if k < s.len() {
            k
        } else {
            s.len()
        },
        forall|i: int|
            0 <= i < last_k(s, k).len() ==> #[trigger] last_k(s, k)[i] == s[s.len() - last_k(
                s,
                k,
            ).len() + i],
{
}

/// Fixed-size circular buffer. `head` counts the pushes so far; slot
/// `head % RING_SIZE` receives the next one, overwriting the oldest.
pub struct RingBuffer<T> {
    slots: Vec<T>,
    head: usize,
    /// Every snapshot pushed so far, oldest first.
    history: Ghost<Seq<T>>,
}

impl<T> RingBuffer<T> {
    /// Well-formedness: one slot per second of history; until the push
    /// counter wraps, it counts the pushes and the buffer shows the last
    /// `RING_SIZE` of them.
    pub closed spec fn wf(self) -> bool {
        &&& self.slots.len() == RING_SIZE
        &&& self.history@.len() <= usize::MAX ==> {
            &&& self.head == self.history@.len()
            &&& self@ == last_k(self.history@, RING_SIZE as nat)
        }
    }

    /// Every snapshot pushed so far, oldest first.
    pub closed spec fn history(self) -> Seq<T> {
        self.history@
    }

    /// Number of pushes so far (wrapping at `usize::MAX`, as an atomic
    /// counter does).
    pub closed spec fn spec_pushes(self) -> nat {
        self.head as nat
    }

    /// How many entries a reader can see: the pushes so far, at most `RING_SIZE`.
    pub open spec fn spec_visible(self) -> nat {
        if self.spec_pushes() < RING_SIZE {
            self.spec_pushes()
        } else {
            RING_SIZE as nat
        }
    }
}

impl<T: Copy> RingBuffer<T> {
    /// Number of pushes so far.
    pub fn pushes(&self) -> (r: usize)
        ensures
            r == self.spec_pushes(),
    {
        self.head
    }
}

impl<T> View for RingBuffer<T> {
    type V = Seq<T>;

    /// The entries a reader can see, oldest first.
    closed spec fn view(&self) -> Seq<T> {
        let k = self.spec_visible();
        Seq::new(k, |i: int| self.slots@[(self.head - k + i) % (RING_SIZE as int)])
    }
}

impl<T: Copy + Default> RingBuffer<T> {
    /// A new ring buffer with every slot holding `T::default()` and nothing visible.
    pub fn new() -> (r: Self)
        ensures
            r.wf(),
            r.history() == Seq::<T>::empty(),
            r.spec_pushes() == 0,
            r@ == Seq::<T>::empty(),
    {
        let mut slots: Vec<T> = Vec::new();
        let mut i: usize = 0;
        while i < RING_SIZE
            invariant
                i <= RING_SIZE,
                slots.len() == i,
            decreases RING_SIZE - i,
        {
            slots.push(T::default());
            i = i + 1;
        }
        let r = RingBuffer { slots, head: 0, history: Ghost(Seq::empty()) };
        assert(r@ =~= Seq::<T>::empty());
        r
    }
}

impl<T: Copy> RingBuffer<T> {
    /// Pushes a new snapshot, overwriting the oldest slot.
    pub fn push(&mut self, snapshot: T)
        requires
            old(self).wf(),
        ensures
            final(self).wf(),
            final(self).history() == old(self).history().push(snapshot),
            old(self).spec_pushes() < usize::MAX ==> final(self).spec_pushes() == old(
                self,
            ).spec_pushes() + 1,
            old(self).spec_pushes() < usize::MAX ==> final(self)@ == last_k(
                old(self)@.push(snapshot),
                RING_SIZE as nat,
            ),
            old(self).spec_pushes() == usize::MAX ==> final(self).spec_pushes() == 0,
            old(self).spec_pushes() == usize::MAX ==> final(self)@ == Seq::<T>::empty(),
    {
        let ghost old_view = self@;
        let ghost old_history = self.history@;
        let ghost h = self.head as int;
        let idx = self.head % RING_SIZE;
        self.slots.set(idx, snapshot);
        self.head = self.head.wrapping_add(1);
        self.history = Ghost(old_history.push(snapshot));
        proof {
            if h < usize::MAX {
                let target = last_k(old_view.push(snapshot), RING_SIZE as nat);
                if h < RING_SIZE {
                    assert forall|i: int| 0 <= i < h + 1 implies #[trigger] self@[i] == target[i] by {
                        assert(i % (RING_SIZE as int) == i);
                        if i < h {
                            assert(old_view[i] == self.slots@[i]);
                        }
                    }
                    assert(self@ =~= target);
                } else {
                    assert forall|i: int| 0 <= i < RING_SIZE implies #[trigger] self@[i] == target[i] by {
                        let j = (h + 1 - RING_SIZE + i) % (RING_SIZE as int);
                        if i < RING_SIZE - 1 {
                            assert(j == (h - RING_SIZE + (i + 1)) % (RING_SIZE as int));
                            assert(j != h % (RING_SIZE as int));
                            assert(target[i] == old_view[i + 1]);
                        } else {
                            assert(j == h % (RING_SIZE as int));
                        }
                    }
                    assert(self@ =~= target);
                }
            } else {
                assert(self@ =~= Seq::<T>::empty());
            }
            if old_history.len() <= usize::MAX && h < usize::MAX {
                law_push_keeps_recent_history(old_history, snapshot);
            }
        }
    }

    /// The last `n` snapshots in chronological order (oldest first), never
    /// more than were pushed nor more than `RING_SIZE`. The slot arithmetic
    /// adds `RING_SIZE` to the push count, so that sum must fit in a `usize`.
    pub fn last_n(&self, n: usize) -> (r: Vec<T>)
        requires
            self.wf(),
            self.spec_pushes() + RING_SIZE <= usize::MAX,
        ensures
            r@ == last_k(self@, n as nat),
            self.history().len() <= usize::MAX ==> r@ == last_k(
                self.history(),
                if n < RING_SIZE {
                    n as nat
                } else {
                    RING_SIZE as nat
                },
            ),
            r@.len() == if n < self.spec_visible() {
                n as nat
            } else {
                self.spec_visible()
            },
    {
        let head = self.head;
        let count = if n < RING_SIZE {
            n
        } else {
            RING_SIZE
        };
        let count = if count < head {
            count
        } else {
            head
        };
        let mut out: Vec<T> = Vec::new();
        let mut i: usize = 0;
        while i < count
            invariant
                self.slots@.len() == RING_SIZE,
                head == self.head,
                head + RING_SIZE <= usize::MAX,
                count <= RING_SIZE,
                count <= head,
                i <= count,
                out@.len() == i,
                forall|j: int|
                    0 <= j < i ==> #[trigger] out@[j] == self.slots@[(head - count + j) % (
                    RING_SIZE as int)],
            decreases count - i,
        {
            let idx = (head + RING_SIZE - count + i) % RING_SIZE;
            assert(idx == (head - count + i) % (RING_SIZE as int));
            out.push(self.slots[idx]);
            i = i + 1;
        }
        proof {
            let w = self@;
            let k = self.spec_visible();
            assert(count == if n < k { n as nat } else { k });
            assert forall|j: int| 0 <= j < count implies #[trigger] out@[j] == last_k(w, n as nat)[j] by {
                assert(last_k(w, n as nat)[j] == w[k - count + j]);
            }
            assert(out@ =~= last_k(w, n as nat));
            if self.history@.len() <= usize::MAX {
                lemma_last_k_nested(self.history@, n as nat);
            }
        }
        out
    }
}


/// What a buffer shows after receiving the pushes `xs`, in order, from new:
/// each push keeps the last `RING_SIZE` of what was shown plus the new entry
/// (the step that `push` ensures).
pub open spec fn visible_after<T>(xs: Seq<T>) -> Seq<T>
    decreases xs.len(),
{
    if xs.len() == 0 {
        Seq::empty()
    } else {
        last_k(visible_after(xs.drop_last()).push(xs.last()), RING_SIZE as nat)
    }
}

/// Pushing onto the last `RING_SIZE` entries of a history and keeping the
/// last `RING_SIZE` is the same as keeping the last `RING_SIZE` of the longer
/// history: the buffer forgets nothing it should still show.
pub proof fn law_push_keeps_recent_history<T>(history: Seq<T>, x: T)
    ensures
        last_k(last_k(history, RING_SIZE as nat).push(x), RING_SIZE as nat) == last_k(
            history.push(x),
            RING_SIZE as nat,
        ),
{
    let k = RING_SIZE as int;
    let lhs = last_k(last_k(history, RING_SIZE as nat).push(x), RING_SIZE as nat);
    let rhs = last_k(history.push(x), RING_SIZE as nat);
    if history.len() + 1 <= k {
        assert(lhs =~= rhs);
    } else {
        assert(lhs.len() == rhs.len());
        assert forall|i: int| 0 <= i < k implies #[trigger] lhs[i] == rhs[i] by {
            if i < k - 1 {
                assert(rhs[i] == history[history.len() + 1 - k + i]);
            }
        }
        assert(lhs =~= rhs);
    }
}

/// After any sequence of pushes onto a new buffer (none at the wrap of the
/// push counter), the buffer shows exactly the most recent
/// `min(pushes, RING_SIZE)` entries, oldest first.
pub proof fn law_visible_is_most_recent<T>(xs: Seq<T>)
    ensures
        visible_after(xs) == last_k(xs, RING_SIZE as nat),
    decreases xs.len(),
{
    if xs.len() > 0 {
        let init = xs.drop_last();
        law_visible_is_most_recent(init);
        law_push_keeps_recent_history(init, xs.last());
        assert(init.push(xs.last()) =~= xs);
    }
}


/// Reading `n` entries from a buffer that received the pushes `xs` from new
/// (with `last_n`, which returns `last_k` of what the buffer shows) gives
/// the last `min(n, RING_SIZE)` pushes, oldest first.
pub proof fn law_read_returns_latest_pushes<T>(xs: Seq<T>, n: nat)
    ensures
        last_k(visible_after(xs), n) == last_k(
            xs,
            if n < RING_SIZE {
                n
            } else {
                RING_SIZE as nat
            },
        ),
{
    law_visible_is_most_recent(xs);
    lemma_last_k_nested(xs, n);
}

/// The last `n` of the last `RING_SIZE` are the last `min(n, RING_SIZE)`.
proof fn lemma_last_k_nested<T>(xs: Seq<T>, n: nat)
    ensures
        last_k(last_k(xs, RING_SIZE as nat), n) == last_k(
            xs,
            if n < RING_SIZE {
                n
            } else {
                RING_SIZE as nat
            },
        ),
{
    let w = last_k(xs, RING_SIZE as nat);
    let m = if n < RING_SIZE {
        n
    } else {
        RING_SIZE as nat
    };
    let lhs = last_k(w, n);
    let rhs = last_k(xs, m);
    assert(lhs.len() == rhs.len());
    assert forall|i: int| 0 <= i < lhs.len() implies #[trigger] lhs[i] == rhs[i] by {
        assert(lhs[i] == xs[xs.len() - lhs.len() + i]);
    }
    assert(lhs =~= rhs);
}

} // verus!
