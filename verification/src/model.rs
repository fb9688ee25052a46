//! Mathematical model of the token-bucket step, shared by every encoding.
//!
//! A bucket is parameterised by `max_tokens` (burst capacity) and `interval`
//! (the time a full refill takes, strictly positive). The two-field encoding
//! carries `(token_time, last_fill_time)`: `token_time` is accrued credit
//! measured in token-time units (one admission costs `interval` of it), and
//! `last_fill_time` is the time of the last admission. The packed encoding
//! folds both into the single scalar
//! `combined == max_tokens * last_fill_time - token_time`.

use vstd::prelude::*;

verus! {

/// The time a step acts at: a bucket never goes backward in time, so a
/// timestamp below the last fill time is clamped up to the last fill time.
pub open spec fn clamped_time(timestamp: int, last_fill_time: int) -> int {
    if timestamp >= last_fill_time {
        timestamp
    } else {
        last_fill_time
    }
}

/// Credit available to the two-field encoding when a call arrives: the
/// outstanding `token_time` plus `max_tokens` per elapsed time unit.
pub open spec fn int_new_token_time(
    max_tokens: int,
    token_time: int,
    last_fill_time: int,
    timestamp: int,
) -> int {
    token_time + max_tokens * (clamped_time(timestamp, last_fill_time) - last_fill_time)
}

/// Whether the two-field encoding admits a call: one whole admission costs
/// `interval` token-time.
pub open spec fn int_admits(
    max_tokens: int,
    interval: int,
    token_time: int,
    last_fill_time: int,
    timestamp: int,
) -> bool {
    int_new_token_time(max_tokens, token_time, last_fill_time, timestamp) >= interval
}

/// Credit kept after an admission: capped at a full bucket
/// (`max_tokens * interval`, so idle time is never banked beyond one burst),
/// minus the `interval` the admitted call consumes.
pub open spec fn capped_token_time(max_tokens: int, interval: int, new_token_time: int) -> int {
    (if max_tokens * interval <= new_token_time {
        max_tokens * interval
    } else {
        new_token_time
    }) - interval
}

/// `token_time` after an admitted call of the two-field encoding.
pub open spec fn int_token_time_after(
    max_tokens: int,
    interval: int,
    token_time: int,
    last_fill_time: int,
    timestamp: int,
) -> int {
    capped_token_time(
        max_tokens,
        interval,
        int_new_token_time(max_tokens, token_time, last_fill_time, timestamp),
    )
}

/// Well-formed dynamic state of the two-field encoding: a strictly positive
/// interval, and credit that is either empty or at least one admission below
/// a full bucket (what `capped_token_time` leaves behind).
pub open spec fn int_state_wf(
    max_tokens: int,
    interval: int,
    token_time: int,
    last_fill_time: int,
) -> bool {
    &&& 0 < interval
    &&& 0 <= max_tokens
    &&& 0 <= last_fill_time
    &&& 0 <= token_time
    &&& token_time == 0 || token_time + interval <= max_tokens * interval
}

/// The packed scalar inflated to the time of the call: `max_tokens *
/// timestamp`, clamped below by `combined` itself (the packed form of the
/// no-going-backward clamp).
pub open spec fn inflated_time(max_tokens: int, combined: int, timestamp: int) -> int {
    if max_tokens * timestamp >= combined {
        max_tokens * timestamp
    } else {
        combined
    }
}

/// Credit available to the packed encoding when a call arrives.
pub open spec fn comb_new_token_time(max_tokens: int, combined: int, timestamp: int) -> int {
    inflated_time(max_tokens, combined, timestamp) - combined
}

/// Whether the packed encoding admits a call.
pub open spec fn comb_admits(max_tokens: int, interval: int, combined: int, timestamp: int) -> bool {
    comb_new_token_time(max_tokens, combined, timestamp) >= interval
}

/// The packed scalar after an admitted call.
pub open spec fn comb_after(max_tokens: int, interval: int, combined: int, timestamp: int) -> int {
    inflated_time(max_tokens, combined, timestamp) - capped_token_time(
        max_tokens,
        interval,
        comb_new_token_time(max_tokens, combined, timestamp),
    )
}

/// The decisions the two-field encoding returns for a whole timestamp
/// sequence, starting from the given state.
pub open spec fn int_run(
    max_tokens: int,
    interval: int,
    token_time: int,
    last_fill_time: int,
    timestamps: Seq<int>,
) -> Seq<bool>
    decreases timestamps.len(),
{
    if timestamps.len() == 0 {
        Seq::empty()
    } else if int_admits(max_tokens, interval, token_time, last_fill_time, timestamps[0]) {
        seq![true] + int_run(
            max_tokens,
            interval,
            int_token_time_after(max_tokens, interval, token_time, last_fill_time, timestamps[0]),
            clamped_time(timestamps[0], last_fill_time),
            timestamps.drop_first(),
        )
    } else {
        seq![false] + int_run(max_tokens, interval, token_time, last_fill_time, timestamps.drop_first())
    }
}

/// The decisions the packed encoding returns for a whole timestamp sequence,
/// starting from the given scalar.
pub open spec fn comb_run(
    max_tokens: int,
    interval: int,
    combined: int,
    timestamps: Seq<int>,
) -> Seq<bool>
    decreases timestamps.len(),
{
    if timestamps.len() == 0 {
        Seq::empty()
    } else if comb_admits(max_tokens, interval, combined, timestamps[0]) {
        seq![true] + comb_run(
            max_tokens,
            interval,
            comb_after(max_tokens, interval, combined, timestamps[0]),
            timestamps.drop_first(),
        )
    } else {
        seq![false] + comb_run(max_tokens, interval, combined, timestamps.drop_first())
    }
}

/// How many calls were admitted whose timestamps fall in the half-open
/// window `[start, start + width)`.
pub open spec fn admitted_in_window(
    timestamps: Seq<int>,
    results: Seq<bool>,
    start: int,
    width: int,
) -> int
    decreases timestamps.len(),
{
    if timestamps.len() == 0 || results.len() == 0 {
        0
    } else {
        (if results[0] && start <= timestamps[0] < start + width {
            1int
        } else {
            0int
        }) + admitted_in_window(timestamps.drop_first(), results.drop_first(), start, width)
    }
}

/// A timestamp sequence that never goes backward.
pub open spec fn non_decreasing(timestamps: Seq<int>) -> bool {
    forall|i: int, j: int| 0 <= i <= j < timestamps.len() ==> timestamps[i] <= timestamps[j]
}

} // verus!
