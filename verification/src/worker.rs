//! Work distribution: the shared monotonic counter that bounds the total
//! number of games, the parity rule that assigns colors, and the account of
//! how many claims a full run makes.
//!
//! Each worker repeatedly claims the next index; a claimed index at or past
//! the target is discarded and stops that worker, so every worker overshoots
//! by at most one claim.

use vstd::prelude::*;
use vstd::relations::injective_on;
use vstd::set_lib::lemma_int_range;
use vstd::set_lib::lemma_map_size;
use vstd::set_lib::set_int_range;

verus! {

/// The shared monotonic counter bounding total games. Workers claim indices
/// one at a time; an index is handed out exactly once.
pub struct WorkCounter {
    next: u64,
}

impl WorkCounter {
    /// The next index to hand out.
    pub closed spec fn spec_next(&self) -> u64 {
        self.next
    }

    /// A fresh counter: the first claim returns index zero.
    pub fn new() -> (r: WorkCounter)
        ensures
            r.spec_next() == 0,
    {
        WorkCounter { next: 0 }
    }

    /// Fetch-and-increment: hand out the current index and advance.
    pub fn claim(&mut self) -> (r: u64)
        requires
            old(self).spec_next() < u64::MAX,
        ensures
            r == old(self).spec_next(),
            final(self).spec_next() == old(self).spec_next() + 1,
    {
        let claimed = self.next;
        self.next = self.next + 1;
        claimed
    }
}

/// The parity color-assignment rule: even game indices give the White
/// pieces to the first-named engine, odd indices to the other one. This is
/// the only mechanism balancing colors across concurrent, unordered worker
/// claims.
pub fn stockfish_plays_white(game_num: u64) -> (r: bool)
    ensures
        r == (game_num % 2 == 0),
{
    game_num % 2 == 0
}

/// A full run's claims, in the order the counter handed them out: entry `k`
/// is the worker that claimed index `k`. The trace is consistent with the
/// claiming protocol when every entry names a worker of the pool, and no
/// worker claims again after it received an index at or past the target
/// (such an index stops the worker's loop).
pub open spec fn valid_claim_trace(t: Seq<int>, workers: int, target: int) -> bool {
    &&& forall|k: int| 0 <= k < t.len() ==> 0 <= #[trigger] t[k] < workers
    &&& forall|j: int, k: int|
        0 <= j < k < t.len() && #[trigger] t[j] == #[trigger] t[k] ==> j < target
}

/// Whether worker `w` has stopped: it holds a claim at or past the target.
pub open spec fn worker_stopped(t: Seq<int>, target: int, w: int) -> bool {
    exists|k: int| target <= k < t.len() && #[trigger] t[k] == w
}

/// Whether the run has drained: every worker of the pool has stopped.
pub open spec fn run_drained(t: Seq<int>, workers: int, target: int) -> bool {
    forall|w: int| 0 <= w < workers ==> #[trigger] worker_stopped(t, target, w)
}

/// Once a run with at least one worker drains, the claims at or past the
/// target number exactly one per worker: each worker overshoots by exactly
/// one claim, so the whole trace holds the `target` many productive claims
/// followed by, in some interleaving, one stopping claim per worker.
pub proof fn lemma_drained_claim_count(t: Seq<int>, workers: int, target: int)
    requires
        workers >= 1,
        target >= 0,
        valid_claim_trace(t, workers, target),
        run_drained(t, workers, target),
    ensures
        t.len() == target + workers,
{
    let n = t.len() as int;
    assert(n > target) by {
        assert(worker_stopped(t, target, 0));
    }
    let past = set_int_range(target, n);
    let pool = set_int_range(0, workers);
    let f = |k: int| t[k];
    assert(injective_on(f, past)) by {
        assert forall|x1: int, x2: int|
            past.contains(x1) && past.contains(x2) && #[trigger] f(x1) == #[trigger] f(
                x2,
            ) implies x1 == x2 by {
            if x1 < x2 {
                assert(t[x1] == t[x2]);
            }
            if x2 < x1 {
                assert(t[x2] == t[x1]);
            }
        }
    }
    assert(past.map(f) =~= pool) by {
        assert forall|w: int| #[trigger] pool.contains(w) implies past.map(f).contains(w) by {
            assert(worker_stopped(t, target, w));
            let k = choose|k: int| target <= k < t.len() && #[trigger] t[k] == w;
            assert(past.contains(k));
            assert(f(k) == w);
        }
        assert forall|w: int| #[trigger] past.map(f).contains(w) implies pool.contains(w) by {
            let k = choose|k: int| past.contains(k) && f(k) == w;
            assert(0 <= t[k] < workers);
        }
    }
    lemma_int_range(target, n);
    lemma_int_range(0, workers);
    lemma_map_size(past, pool, f);
}

} // verus!
