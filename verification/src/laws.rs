//! Laws of the bucket encodings, stated and proved over the model.

use vstd::prelude::*;
use crate::model::admitted_in_window;
use crate::model::clamped_time;
use crate::model::comb_admits;
use crate::model::comb_after;
use crate::model::comb_new_token_time;
use crate::model::comb_run;
use crate::model::inflated_time;
use crate::model::int_admits;
use crate::model::int_new_token_time;
use crate::model::int_run;
use crate::model::int_state_wf;
use crate::model::int_token_time_after;
use crate::model::non_decreasing;

verus! {

/// The packed scalar is a lossless fold of the two-field state: for a
/// well-formed two-field state and a timestamp that does not go backward,
/// the scalar `max_tokens * last_fill_time - token_time` yields the very
/// same admission decision, and on admission the updated scalar is the fold
/// of the updated two-field state.
pub proof fn lemma_encoding_step(
    max_tokens: int,
    interval: int,
    token_time: int,
    last_fill_time: int,
    timestamp: int,
)
    requires
        int_state_wf(max_tokens, interval, token_time, last_fill_time),
        last_fill_time <= timestamp,
    ensures
        comb_admits(
            max_tokens,
            interval,
            max_tokens * last_fill_time - token_time,
            timestamp,
        ) == int_admits(max_tokens, interval, token_time, last_fill_time, timestamp),
        int_admits(max_tokens, interval, token_time, last_fill_time, timestamp) ==> comb_after(
            max_tokens,
            interval,
            max_tokens * last_fill_time - token_time,
            timestamp,
        ) == max_tokens * clamped_time(timestamp, last_fill_time) - int_token_time_after(
            max_tokens,
            interval,
            token_time,
            last_fill_time,
            timestamp,
        ),
{
    let combined = max_tokens * last_fill_time - token_time;
    assert(max_tokens * timestamp - combined == token_time + max_tokens * (timestamp
        - last_fill_time)) by (nonlinear_arith)
        requires
            combined == max_tokens * last_fill_time - token_time,
    ;
    assert(max_tokens * (timestamp - last_fill_time) >= 0) by (nonlinear_arith)
        requires
            max_tokens >= 0,
            timestamp >= last_fill_time,
    ;
    assert(inflated_time(max_tokens, combined, timestamp) == max_tokens * timestamp);
    assert(clamped_time(timestamp, last_fill_time) == timestamp);
    assert(comb_new_token_time(max_tokens, combined, timestamp) == int_new_token_time(
        max_tokens,
        token_time,
        last_fill_time,
        timestamp,
    ));
}

/// A two-field bucket treats a timestamp that went backward exactly as a
/// repeat of its last admission time: decision and successor state are those
/// of a call at `last_fill_time` itself. An apparent time reversal never
/// widens capacity.
pub proof fn lemma_int_regression(
    max_tokens: int,
    interval: int,
    token_time: int,
    last_fill_time: int,
    timestamp: int,
)
    requires
        timestamp <= last_fill_time,
    ensures
        int_admits(max_tokens, interval, token_time, last_fill_time, timestamp) == int_admits(
            max_tokens,
            interval,
            token_time,
            last_fill_time,
            last_fill_time,
        ),
        int_token_time_after(max_tokens, interval, token_time, last_fill_time, timestamp)
            == int_token_time_after(
            max_tokens,
            interval,
            token_time,
            last_fill_time,
            last_fill_time,
        ),
        clamped_time(timestamp, last_fill_time) == clamped_time(last_fill_time, last_fill_time),
{
}

/// A packed bucket rejects outright any timestamp whose token-time form does
/// not exceed the scalar: time that appears to run backward yields no
/// credit at all, and (by the `accept` contract) leaves the state untouched.
pub proof fn lemma_comb_regression(max_tokens: int, interval: int, combined: int, timestamp: int)
    requires
        0 < interval,
        max_tokens * timestamp <= combined,
    ensures
        !comb_admits(max_tokens, interval, combined, timestamp),
{
}

/// At any fixed packed state, available credit is monotone in the
/// timestamp: an earlier timestamp never sees more credit than a later one,
/// so a regressed call can never be admitted where the honest one would be
/// rejected.
pub proof fn lemma_comb_no_extra_capacity(
    max_tokens: int,
    interval: int,
    combined: int,
    early: int,
    late: int,
)
    requires
        0 <= max_tokens,
        early <= late,
    ensures
        comb_new_token_time(max_tokens, combined, early) <= comb_new_token_time(
            max_tokens,
            combined,
            late,
        ),
        comb_admits(max_tokens, interval, combined, early) ==> comb_admits(
            max_tokens,
            interval,
            combined,
            late,
        ),
{
    assert(max_tokens * early <= max_tokens * late) by (nonlinear_arith)
        requires
            0 <= max_tokens,
            early <= late,
    ;
}

/// Every admission advances the packed scalar by at least one `interval`:
/// the scalar is a running total of admitted capacity, which is what the
/// capacity bound below rests on.
pub proof fn lemma_comb_admission_advances(
    max_tokens: int,
    interval: int,
    combined: int,
    timestamp: int,
)
    requires
        0 < interval,
        comb_admits(max_tokens, interval, combined, timestamp),
    ensures
        comb_after(max_tokens, interval, combined, timestamp) >= combined + interval,
{
}

/// Cross-encoding equivalence: from any well-formed two-field state and its
/// packed fold, a non-decreasing timestamp sequence draws the identical
/// sequence of admission decisions from both encodings.
pub proof fn lemma_cross_encoding_run(
    max_tokens: int,
    interval: int,
    token_time: int,
    last_fill_time: int,
    timestamps: Seq<int>,
)
    requires
        int_state_wf(max_tokens, interval, token_time, last_fill_time),
        non_decreasing(timestamps),
        timestamps.len() > 0 ==> last_fill_time <= timestamps[0],
    ensures
        comb_run(
            max_tokens,
            interval,
            max_tokens * last_fill_time - token_time,
            timestamps,
        ) == int_run(max_tokens, interval, token_time, last_fill_time, timestamps),
    decreases timestamps.len(),
{
    let combined = max_tokens * last_fill_time - token_time;
    if timestamps.len() > 0 {
        let t = timestamps[0];
        let rest = timestamps.drop_first();
        lemma_encoding_step(max_tokens, interval, token_time, last_fill_time, t);
        assert forall|i: int, j: int| 0 <= i <= j < rest.len() implies rest[i] <= rest[j] by {
            assert(rest[i] == timestamps[i + 1]);
            assert(rest[j] == timestamps[j + 1]);
        }
        if int_admits(max_tokens, interval, token_time, last_fill_time, t) {
            let new_token_time = int_new_token_time(max_tokens, token_time, last_fill_time, t);
            let token_time_after = int_token_time_after(
                max_tokens,
                interval,
                token_time,
                last_fill_time,
                t,
            );
            let fill_time_after = clamped_time(t, last_fill_time);
            if max_tokens == 0 {
                assert(max_tokens * interval == 0) by (nonlinear_arith)
                    requires
                        max_tokens == 0,
                ;
                assert(token_time == 0);
                assert(max_tokens * (t - last_fill_time) == 0) by (nonlinear_arith)
                    requires
                        max_tokens == 0,
                ;
                assert(false);
            }
            assert(max_tokens * interval >= interval) by (nonlinear_arith)
                requires
                    max_tokens >= 1,
                    interval >= 0,
            ;
            assert(int_state_wf(max_tokens, interval, token_time_after, fill_time_after));
            assert(rest.len() > 0 ==> fill_time_after <= rest[0]);
            lemma_cross_encoding_run(
                max_tokens,
                interval,
                token_time_after,
                fill_time_after,
                rest,
            );
            assert(comb_after(max_tokens, interval, combined, t) == max_tokens * fill_time_after
                - token_time_after);
            assert(comb_run(max_tokens, interval, combined, timestamps) == seq![true] + comb_run(
                max_tokens,
                interval,
                max_tokens * fill_time_after - token_time_after,
                rest,
            ));
            assert(int_run(max_tokens, interval, token_time, last_fill_time, timestamps)
                == seq![true] + int_run(
                max_tokens,
                interval,
                token_time_after,
                fill_time_after,
                rest,
            ));
        } else {
            assert(rest.len() > 0 ==> last_fill_time <= rest[0]);
            lemma_cross_encoding_run(max_tokens, interval, token_time, last_fill_time, rest);
        }
    }
}

/// The inductive heart of the capacity bound: if the scalar already stands
/// `done` admissions above the window's opening line, at most
/// `max_tokens - done` further calls timestamped inside the window are
/// admitted.
proof fn lemma_capacity_window_aux(
    max_tokens: int,
    interval: int,
    combined: int,
    timestamps: Seq<int>,
    start: int,
    done: int,
)
    requires
        0 <= max_tokens,
        0 < interval,
        0 <= done <= max_tokens,
        max_tokens >= 1 || 0 <= combined,
        combined >= max_tokens * start - interval + done * interval,
    ensures
        admitted_in_window(
            timestamps,
            comb_run(max_tokens, interval, combined, timestamps),
            start,
            interval,
        ) <= max_tokens - done,
    decreases timestamps.len(),
{
    if timestamps.len() > 0 {
        let t = timestamps[0];
        let rest = timestamps.drop_first();
        let results = comb_run(max_tokens, interval, combined, timestamps);
        if comb_admits(max_tokens, interval, combined, t) {
            let combined_after = comb_after(max_tokens, interval, combined, t);
            lemma_comb_admission_advances(max_tokens, interval, combined, t);
            if max_tokens == 0 {
                assert(max_tokens * t == 0) by (nonlinear_arith)
                    requires
                        max_tokens == 0,
                ;
                assert(false);
            }
            assert(results == seq![true] + comb_run(max_tokens, interval, combined_after, rest));
            assert(results.drop_first() =~= comb_run(max_tokens, interval, combined_after, rest));
            if start <= t < start + interval {
                // an admitted call inside the window: the scalar both sits
                // under the admission line for `t` and carries the `done`
                // admissions already counted, which caps `done` strictly
                // below `max_tokens`
                assert(inflated_time(max_tokens, combined, t) == max_tokens * t);
                assert(max_tokens * t - combined >= interval);
                assert(max_tokens * t <= max_tokens * (start + interval - 1)) by (nonlinear_arith)
                    requires
                        0 <= max_tokens,
                        t <= start + interval - 1,
                ;
                assert(max_tokens * (start + interval - 1) == max_tokens * start + max_tokens
                    * interval - max_tokens) by (nonlinear_arith);
                assert(done * interval <= max_tokens * interval - max_tokens);
                assert(done < max_tokens) by (nonlinear_arith)
                    requires
                        done * interval <= max_tokens * interval - max_tokens,
                        interval >= 1,
                        max_tokens >= 1,
                        done >= 0,
                ;
                assert((done + 1) * interval == done * interval + interval) by (nonlinear_arith);
                lemma_capacity_window_aux(
                    max_tokens,
                    interval,
                    combined_after,
                    rest,
                    start,
                    done + 1,
                );
            } else {
                lemma_capacity_window_aux(max_tokens, interval, combined_after, rest, start, done);
            }
        } else {
            assert(results == seq![false] + comb_run(max_tokens, interval, combined, rest));
            assert(results.drop_first() =~= comb_run(max_tokens, interval, combined, rest));
            lemma_capacity_window_aux(max_tokens, interval, combined, rest, start, done);
        }
    }
}

/// Capacity bound for the packed encoding: over any half-open window
/// `[start, start + interval)` that opens with at most one admission's
/// credit accrued (`max_tokens * start <= combined + interval`), no more
/// than `max_tokens` of the calls timestamped inside the window are
/// admitted — whatever the timestamp sequence, ordered or not. A window
/// that opens against a larger bank of credit can additionally drain that
/// bank, which is the deliberate burst behaviour.
pub proof fn lemma_capacity_bound(
    max_tokens: int,
    interval: int,
    combined: int,
    timestamps: Seq<int>,
    start: int,
)
    requires
        0 <= max_tokens,
        0 < interval,
        0 <= combined,
        max_tokens * start <= combined + interval,
    ensures
        admitted_in_window(
            timestamps,
            comb_run(max_tokens, interval, combined, timestamps),
            start,
            interval,
        ) <= max_tokens,
{
    lemma_capacity_window_aux(max_tokens, interval, combined, timestamps, start, 0);
}

/// Capacity bound carried over to the two-field encoding, for
/// non-decreasing timestamp sequences, via the cross-encoding equivalence.
pub proof fn lemma_capacity_bound_int(
    max_tokens: int,
    interval: int,
    token_time: int,
    last_fill_time: int,
    timestamps: Seq<int>,
    start: int,
)
    requires
        int_state_wf(max_tokens, interval, token_time, last_fill_time),
        non_decreasing(timestamps),
        timestamps.len() > 0 ==> last_fill_time <= timestamps[0],
        max_tokens * start <= max_tokens * last_fill_time - token_time + interval,
    ensures
        admitted_in_window(
            timestamps,
            int_run(max_tokens, interval, token_time, last_fill_time, timestamps),
            start,
            interval,
        ) <= max_tokens,
{
    let combined = max_tokens * last_fill_time - token_time;
    lemma_cross_encoding_run(max_tokens, interval, token_time, last_fill_time, timestamps);
    if max_tokens == 0 {
        assert(max_tokens * interval == 0) by (nonlinear_arith)
            requires
                max_tokens == 0,
        ;
        assert(token_time == 0);
        assert(combined == 0) by (nonlinear_arith)
            requires
                combined == max_tokens * last_fill_time - token_time,
                max_tokens == 0,
                token_time == 0,
        ;
    }
    lemma_capacity_window_aux(max_tokens, interval, combined, timestamps, start, 0);
}

} // verus!
