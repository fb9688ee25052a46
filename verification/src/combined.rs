//! Packed single-scalar integer token bucket.

use vstd::prelude::*;
use crate::model::comb_admits;
use crate::model::comb_after;
use crate::model::comb_new_token_time;
use crate::model::inflated_time;

verus! {

/// The two logical fields of `IntBucket` folded into the one scalar
/// `combined == max_tokens * last_fill_time - token_time`, so that a single
/// word carries the whole dynamic state. This variant still needs exclusive
/// access per call; the packing is what makes the lock-free variant possible.
pub struct IntBucketCombined {
    /// Burst capacity, fixed at construction.
    pub max_tokens: u64,
    /// Time a full refill takes, fixed at construction; strictly positive.
    pub interval: u64,
    /// The packed dynamic state.
    pub combined: u64,
}

impl IntBucketCombined {
    /// Well-formedness: established by `new`, preserved by `accept`.
    pub open spec fn wf(self) -> bool {
        &&& self.interval >= 1
        &&& self.max_tokens * self.interval <= u64::MAX
    }

    /// A bucket that starts fully drained as of time zero.
    pub fn new(max_tokens: u64, interval: u64) -> (bucket: IntBucketCombined)
        requires
            interval >= 1,
            max_tokens * interval <= u64::MAX,
        ensures
            bucket.wf(),
            bucket.max_tokens == max_tokens,
            bucket.interval == interval,
            bucket.combined == 0,
    {
        IntBucketCombined { max_tokens, interval, combined: 0 }
    }

    /// Admit or reject a call at `timestamp`. The scalar is first inflated to
    /// `max(max_tokens * timestamp, combined)`, which expresses the
    /// no-going-backward clamp without a separate last-fill-time field; the
    /// difference from `combined` is the available credit.
    pub fn accept(&mut self, timestamp: u64) -> (admitted: bool)
        requires
            old(self).wf(),
            old(self).max_tokens * timestamp <= u64::MAX,
        ensures
            final(self).wf(),
            admitted == comb_admits(
                old(self).max_tokens as int,
                old(self).interval as int,
                old(self).combined as int,
                timestamp as int,
            ),
            final(self).max_tokens == old(self).max_tokens,
            final(self).interval == old(self).interval,
            admitted ==> final(self).combined == comb_after(
                old(self).max_tokens as int,
                old(self).interval as int,
                old(self).combined as int,
                timestamp as int,
            ),
            !admitted ==> *final(self) == *old(self),
    {
        let token_timestamp: u64 = self.max_tokens * timestamp;
        let inflated_timestamp: u64 = if token_timestamp >= self.combined {
            token_timestamp
        } else {
            self.combined
        };
        let new_token_time: u64 = inflated_timestamp - self.combined;
        proof {
            assert(inflated_timestamp == inflated_time(
                self.max_tokens as int,
                self.combined as int,
                timestamp as int,
            ));
            assert(new_token_time == comb_new_token_time(
                self.max_tokens as int,
                self.combined as int,
                timestamp as int,
            ));
        }
        if new_token_time >= self.interval {
            let cap: u64 = self.max_tokens * self.interval;
            proof {
                // Were `max_tokens` zero, the inflated timestamp would equal
                // `combined` and no credit could be available here.
                if self.max_tokens == 0 {
                    assert(token_timestamp == 0) by (nonlinear_arith)
                        requires
                            token_timestamp == self.max_tokens * timestamp,
                            self.max_tokens == 0,
                    ;
                }
                assert(self.max_tokens >= 1);
                assert(cap >= self.interval) by (nonlinear_arith)
                    requires
                        cap == self.max_tokens * self.interval,
                        self.max_tokens >= 1,
                        self.interval >= 0,
                ;
            }
            let token_time: u64 = (if cap <= new_token_time {
                cap
            } else {
                new_token_time
            }) - self.interval;
            self.combined = inflated_timestamp - token_time;
            true
        } else {
            false
        }
    }
}

} // verus!
