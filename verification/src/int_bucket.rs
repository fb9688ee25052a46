//! Two-field integer token bucket.

use vstd::prelude::*;
use crate::model::clamped_time;
use crate::model::int_admits;
use crate::model::int_new_token_time;
use crate::model::int_state_wf;
use crate::model::int_token_time_after;

verus! {

/// Token bucket over exact integer arithmetic, for exclusive (single-caller)
/// use. Credit is carried as `token_time`, a debt/credit accumulator in
/// token-time units, so long runs suffer no rounding drift.
pub struct IntBucket {
    /// Burst capacity, fixed at construction.
    pub max_tokens: u64,
    /// Time a full refill takes, fixed at construction; strictly positive.
    pub interval: u64,
    /// Accrued credit in token-time units.
    pub token_time: u64,
    /// Time of the last admitted call.
    pub last_fill_time: u64,
}

impl IntBucket {
    /// Well-formedness: established by `new`, preserved by `accept`.
    /// `max_tokens * interval` (a full bucket in token-time units) must fit
    /// the word, since `accept` caps credit against it.
    pub open spec fn wf(self) -> bool {
        &&& self.max_tokens * self.interval <= u64::MAX
        &&& int_state_wf(
            self.max_tokens as int,
            self.interval as int,
            self.token_time as int,
            self.last_fill_time as int,
        )
    }

    /// A bucket that starts fully drained as of time zero: the first call is
    /// admitted once at least `interval` worth of time stands between time
    /// zero and its timestamp.
    pub fn new(max_tokens: u64, interval: u64) -> (bucket: IntBucket)
        requires
            interval >= 1,
            max_tokens * interval <= u64::MAX,
        ensures
            bucket.wf(),
            bucket.max_tokens == max_tokens,
            bucket.interval == interval,
            bucket.token_time == 0,
            bucket.last_fill_time == 0,
    {
        IntBucket { max_tokens, interval, token_time: 0, last_fill_time: 0 }
    }

    /// Admit or reject a call at `timestamp`. A timestamp earlier than the
    /// last admission is treated as if it were the last admission's time.
    /// On admission one `interval` of token-time is consumed and credit is
    /// capped at a full bucket; on rejection the state is untouched.
    pub fn accept(&mut self, timestamp: u64) -> (admitted: bool)
        requires
            old(self).wf(),
            old(self).max_tokens * timestamp + old(self).max_tokens * old(self).interval
                <= u64::MAX,
        ensures
            final(self).wf(),
            admitted == int_admits(
                old(self).max_tokens as int,
                old(self).interval as int,
                old(self).token_time as int,
                old(self).last_fill_time as int,
                timestamp as int,
            ),
            final(self).max_tokens == old(self).max_tokens,
            final(self).interval == old(self).interval,
            admitted ==> final(self).token_time == int_token_time_after(
                old(self).max_tokens as int,
                old(self).interval as int,
                old(self).token_time as int,
                old(self).last_fill_time as int,
                timestamp as int,
            ),
            admitted ==> final(self).last_fill_time == clamped_time(
                timestamp as int,
                old(self).last_fill_time as int,
            ),
            !admitted ==> *final(self) == *old(self),
    {
        // no going back in time!
        let ts: u64 = if timestamp >= self.last_fill_time {
            timestamp
        } else {
            self.last_fill_time
        };
        let delta_time: u64 = ts - self.last_fill_time;
        proof {
            let m = self.max_tokens as int;
            assert(m * delta_time <= m * timestamp) by (nonlinear_arith)
                requires
                    0 <= m,
                    0 <= delta_time <= timestamp,
            ;
            assert(0 <= m * delta_time) by (nonlinear_arith)
                requires
                    0 <= m,
                    0 <= delta_time,
            ;
            assert(0 <= m * self.interval) by (nonlinear_arith)
                requires
                    0 <= m,
                    0 <= self.interval,
            ;
        }
        let delta_token_time: u64 = self.max_tokens * delta_time;
        let new_token_time: u64 = self.token_time + delta_token_time;
        if new_token_time >= self.interval {
            let cap: u64 = self.max_tokens * self.interval;
            proof {
                // A full bucket holds at least one admission here: were
                // `max_tokens` zero, no credit could ever have accrued.
                if self.max_tokens == 0 {
                    assert(delta_token_time == 0);
                    assert(self.token_time == 0);
                }
                assert(self.max_tokens >= 1);
                assert(cap >= self.interval) by (nonlinear_arith)
                    requires
                        cap == self.max_tokens * self.interval,
                        self.max_tokens >= 1,
                        self.interval >= 0,
                ;
            }
            let capped: u64 = if cap <= new_token_time {
                cap
            } else {
                new_token_time
            };
            self.token_time = capped - self.interval;
            self.last_fill_time = ts;
            true
        } else {
            false
        }
    }
}

} // verus!
