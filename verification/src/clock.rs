//! Wall-clock adapter: a multithreaded bucket fed by the real-time clock,
//! so callers need not pass timestamps themselves.

use vstd::prelude::*;
use crate::combined_mt::IntBucketCombinedMT;
use crate::model::comb_admits;

verus! {

#[verifier::external_type_specification]
#[verifier::external_body]
pub struct ExOffsetDateTime(time::OffsetDateTime);

/// Relies on `time::OffsetDateTime::now_utc`: reads the wall clock. Nothing
/// is assumed of the instant it returns.
#[verifier::external_body]
fn clock_now() -> time::OffsetDateTime {
    time::OffsetDateTime::now_utc()
}

/// Relies on `time::OffsetDateTime::unix_timestamp_nanos`: nanoseconds since
/// the Unix epoch of the given instant. Nothing is assumed of the value; it
/// may be negative for instants before the epoch.
pub assume_specification[ time::OffsetDateTime::unix_timestamp_nanos ](
    instant: time::OffsetDateTime,
) -> i128;

/// The clock reading in nanoseconds turned into a millisecond timestamp that
/// fits the machine word: `None` for instants before the epoch and for
/// readings so large that the millisecond count would not fit.
fn millis_from_unix_nanos(nanos: i128) -> (millis: Option<usize>)
    ensures
        millis matches Some(ms) ==> 0 <= nanos && ms == nanos / 1000000
            && nanos / 1000000 <= usize::MAX,
        millis is None ==> nanos < 0 || nanos / 1000000 > usize::MAX,
{
    if nanos < 0 {
        return None;
    }
    let whole: u128 = nanos as u128;
    let ms: u128 = whole / 1000000;
    if ms > usize::MAX as u128 {
        return None;
    }
    Some(ms as usize)
}

/// `IntBucketCombinedMT` bound to the real-time clock, in milliseconds since
/// the Unix epoch.
pub struct WallClockIntBucketCombinedMT {
    /// The underlying lock-free bucket.
    pub bucket: IntBucketCombinedMT,
}

impl WallClockIntBucketCombinedMT {
    /// Well-formedness of the underlying bucket.
    pub open spec fn wf(self) -> bool {
        self.bucket.wf()
    }

    /// A clock-fed bucket; `interval` is in milliseconds.
    pub fn new(max_tokens: usize, interval: usize) -> (wall: WallClockIntBucketCombinedMT)
        requires
            interval >= 1,
            max_tokens * interval <= usize::MAX,
        ensures
            wall.wf(),
            wall.bucket.max_tokens == max_tokens,
            wall.bucket.interval == interval,
    {
        WallClockIntBucketCombinedMT { bucket: IntBucketCombinedMT::new(max_tokens, interval) }
    }

    /// Admit or reject a call at the current wall-clock time. A clock
    /// reading that the millisecond encoding cannot carry — before the
    /// epoch, or too large for `max_tokens * timestamp` to fit the word —
    /// is rejected outright, since no admission decision can be evaluated
    /// for it.
    pub fn accept(&self) -> (admitted: bool)
        requires
            self.wf(),
        ensures
            admitted ==> exists|c: int, t: int|
                0 <= c && 0 <= t && comb_admits(
                    self.bucket.max_tokens as int,
                    self.bucket.interval as int,
                    c,
                    t,
                ),
            admitted ==> self.bucket.max_tokens >= 1,
    {
        let now = clock_now();
        let nanos: i128 = now.unix_timestamp_nanos();
        match millis_from_unix_nanos(nanos) {
            None => false,
            Some(timestamp) => {
                if self.bucket.max_tokens != 0 && timestamp > usize::MAX / self.bucket.max_tokens {
                    false
                } else {
                    proof {
                        let m = self.bucket.max_tokens as int;
                        if m == 0 {
                            assert(m * timestamp == 0) by (nonlinear_arith)
                                requires
                                    m == 0,
                            ;
                        } else {
                            assert(m * timestamp <= usize::MAX) by (nonlinear_arith)
                                requires
                                    1 <= m,
                                    0 <= timestamp <= usize::MAX as int / m,
                            ;
                        }
                    }
                    self.bucket.accept(timestamp)
                }
            },
        }
    }
}

} // verus!
