//! Lock-free multithreaded token bucket over the packed encoding.

use vstd::prelude::*;
use core::sync::atomic::AtomicUsize;
use core::sync::atomic::Ordering;
use crate::model::comb_admits;
use crate::model::comb_new_token_time;
use crate::model::inflated_time;

verus! {

/// The packed encoding with its scalar held in one atomic word, safe for
/// concurrent callers without a lock: `accept` runs an optimistic
/// compare-and-swap retry loop, and a reject never writes at all. The
/// decision arithmetic is the same as `IntBucketCombined`'s; what other
/// threads do between the load and the swap only forces a retry, never a
/// torn or partial update.
pub struct IntBucketCombinedMT {
    /// Burst capacity, fixed at construction.
    pub max_tokens: usize,
    /// Time a full refill takes, fixed at construction; strictly positive.
    pub interval: usize,
    /// The packed dynamic state, shared between threads.
    pub combined: AtomicUsize,
}

impl IntBucketCombinedMT {
    /// Well-formedness of the fixed parameters.
    pub open spec fn wf(self) -> bool {
        &&& self.interval >= 1
        &&& self.max_tokens * self.interval <= usize::MAX
    }

    /// A bucket that starts fully drained as of time zero.
    pub fn new(max_tokens: usize, interval: usize) -> (bucket: IntBucketCombinedMT)
        requires
            interval >= 1,
            max_tokens * interval <= usize::MAX,
        ensures
            bucket.wf(),
            bucket.max_tokens == max_tokens,
            bucket.interval == interval,
    {
        IntBucketCombinedMT { max_tokens, interval, combined: AtomicUsize::new(0) }
    }

    /// Admit or reject a call at `timestamp`, concurrently with other
    /// callers. The loaded scalar may be stale by the time the swap is
    /// attempted, so the call commits only if no other thread moved it in
    /// between; an admission therefore always stems from some observed state
    /// that had a whole admission's credit. A rejection comes from an
    /// observed state without that credit — or, in theory only, from
    /// exhausting the retry budget, which would take one failed swap (and so
    /// one other caller's admission) per retry for the width of the word.
    pub fn accept(&self, timestamp: usize) -> (admitted: bool)
        requires
            self.wf(),
            self.max_tokens * timestamp <= usize::MAX,
        ensures
            admitted ==> exists|c: int|
                0 <= c && comb_admits(
                    self.max_tokens as int,
                    self.interval as int,
                    c,
                    timestamp as int,
                ),
            admitted ==> self.max_tokens >= 1,
    {
        let mut retries_left: usize = usize::MAX;
        while retries_left > 0
            invariant
                self.wf(),
                self.max_tokens * timestamp <= usize::MAX,
            decreases retries_left,
        {
            retries_left = retries_left - 1;
            let current_combined: usize = self.combined.load(Ordering::Relaxed);
            let token_timestamp: usize = self.max_tokens * timestamp;
            let inflated_timestamp: usize = if token_timestamp >= current_combined {
                token_timestamp
            } else {
                current_combined
            };
            let new_token_time: usize = inflated_timestamp - current_combined;
            proof {
                assert(inflated_timestamp == inflated_time(
                    self.max_tokens as int,
                    current_combined as int,
                    timestamp as int,
                ));
                assert(new_token_time == comb_new_token_time(
                    self.max_tokens as int,
                    current_combined as int,
                    timestamp as int,
                ));
            }
            if new_token_time >= self.interval {
                let cap: usize = self.max_tokens * self.interval;
                proof {
                    // Were `max_tokens` zero, the inflated timestamp would
                    // equal the loaded scalar and no credit could be here.
                    if self.max_tokens == 0 {
                        assert(token_timestamp == 0) by (nonlinear_arith)
                            requires
                                token_timestamp == self.max_tokens * timestamp,
                                self.max_tokens == 0,
                        ;
                    }
                    assert(self.max_tokens >= 1);
                    assert(cap >= self.interval) by (nonlinear_arith)
                        requires
                            cap == self.max_tokens * self.interval,
                            self.max_tokens >= 1,
                            self.interval >= 0,
                    ;
                }
                let token_time: usize = (if cap <= new_token_time {
                    cap
                } else {
                    new_token_time
                }) - self.interval;
                let new_combined: usize = inflated_timestamp - token_time;
                proof {
                    // the word written is exactly the model's successor state
                    // for the loaded word
                    assert(new_combined == crate::model::comb_after(
                        self.max_tokens as int,
                        self.interval as int,
                        current_combined as int,
                        timestamp as int,
                    ));
                }
                match self.combined.compare_exchange(
                    current_combined,
                    new_combined,
                    Ordering::Relaxed,
                    Ordering::Relaxed,
                ) {
                    Ok(_) => {
                        // we successfully updated the value
                        proof {
                            assert(comb_admits(
                                self.max_tokens as int,
                                self.interval as int,
                                current_combined as int,
                                timestamp as int,
                            ));
                        }
                        return true;
                    },
                    Err(_) => {
                        // another caller moved the scalar first: retry on
                        // freshly loaded state
                    },
                }
            } else {
                return false;
            }
        }
        false
    }
}

} // verus!
