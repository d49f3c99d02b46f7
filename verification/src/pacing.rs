//! Frame pacing: capture arrives at the monitor's native rate, and frames
//! faster than the requested rate are dropped.
//!
//! The next due time is tracked cumulatively, like a fixed-rate scheduler,
//! to avoid drift. Times and durations are in nanoseconds.
use vstd::prelude::*;

use crate::rounding::{
    find_power_from, lemma_nearest_quotient, lemma_power_from, nearest_quotient, power_from,
    round_quotient, TWO_52,
};

verus! {

/// Nanoseconds in a second.
pub const NANOS_PER_SEC: u64 = 1_000_000_000;

/// How many parts a second is divided into so that one frame at `fps` lasts
/// at least 2^52 but less than 2^53 of them.
pub open spec fn parts_per_sec(fps: u32) -> nat {
    power_from(fps as nat) * (TWO_52 as nat)
}

/// How long a frame lasts at `fps`: a second divided by `fps`, rounded to
/// the nearest double-precision number of seconds, and that to the nearest
/// nanosecond.
pub open spec fn frame_duration_of(fps: u32) -> nat {
    let parts = parts_per_sec(fps);
    nearest_quotient(nearest_quotient(parts, fps as nat) * (NANOS_PER_SEC as nat), parts)
}

/// How long a frame lasts at `fps`, in nanoseconds.
pub fn frame_duration(fps: u32) -> (nanos: u64)
    requires
        fps > 0,
    ensures
        nanos == frame_duration_of(fps),
        nanos <= NANOS_PER_SEC + 1,
{
    let power: u128 = find_power_from(fps as u128);
    let parts: u128 = power * TWO_52;
    let frame: u128 = round_quotient(parts, fps as u128);
    proof {
        lemma_power_from(fps as nat);
        lemma_frame_duration(fps);
        lemma_nearest_quotient(parts as nat, fps as nat);
        lemma_nearest_quotient((frame * (NANOS_PER_SEC as nat)) as nat, parts as nat);
        assert(frame <= parts);
    }
    round_quotient(frame * NANOS_PER_SEC as u128, parts) as u64
}

/// How many nanoseconds a frame lasts, in terms of the frames in a second.
pub proof fn lemma_frame_duration(fps: u32)
    requires
        fps > 0,
    ensures
        2 * (frame_duration_of(fps) * fps) <= 2 * NANOS_PER_SEC + fps,
        2 * (frame_duration_of(fps) * fps) + fps >= 2 * NANOS_PER_SEC,
        frame_duration_of(fps) <= NANOS_PER_SEC + 1,
        parts_per_sec(fps) >= TWO_52,
{
    let n = fps as int;
    let power = power_from(fps as nat) as int;
    let s = parts_per_sec(fps) as int;
    let g = NANOS_PER_SEC as int;
    lemma_power_from(fps as nat);
    assert(s >= TWO_52) by (nonlinear_arith)
        requires
            s == power * TWO_52,
            power >= 1,
    ;
    let m = nearest_quotient(s as nat, fps as nat) as int;
    lemma_nearest_quotient(s as nat, fps as nat);
    let t = frame_duration_of(fps) as int;
    assert(m * g >= 0) by (nonlinear_arith)
        requires
            m >= 0,
            g >= 0,
    ;
    lemma_nearest_quotient((m * g) as nat, s as nat);
    assert(2 * (t * s) <= 2 * (m * g) + s);
    assert(2 * (t * s) + s >= 2 * (m * g));
    assert(2 * (m * n) <= 2 * s + n);
    assert(2 * (m * n) + n >= 2 * s);
    assert(s >= n * TWO_52) by (nonlinear_arith)
        requires
            s == power * TWO_52,
            power >= n,
    ;
    let tn = t * n;
    assert(2 * tn <= 2 * g + n) by (nonlinear_arith)
        requires
            2 * (t * s) <= 2 * (m * g) + s,
            2 * (m * n) <= 2 * s + n,
            tn == t * n,
            n >= 1,
            g == 1_000_000_000,
            s >= n * 0x10_0000_0000_0000,
    {
        assert((2 * (t * s)) * n <= (2 * (m * g) + s) * n);
        assert((2 * (m * n)) * g <= (2 * s + n) * g);
        assert((2 * (t * s)) * n == 2 * s * tn);
        assert((2 * (m * g) + s) * n == (2 * (m * n)) * g + s * n);
        assert((2 * s + n) * g == 2 * s * g + n * g);
        assert(n * g < s);
        assert(2 * s * tn < s * (2 * g + n + 1));
        assert(2 * s * tn == s * (2 * tn));
    }
    assert(2 * tn + n >= 2 * g) by (nonlinear_arith)
        requires
            2 * (t * s) + s >= 2 * (m * g),
            2 * (m * n) + n >= 2 * s,
            tn == t * n,
            n >= 1,
            g == 1_000_000_000,
            s >= n * 0x10_0000_0000_0000,
    {
        assert((2 * (t * s) + s) * n >= (2 * (m * g)) * n);
        assert((2 * (m * n) + n) * g >= (2 * s) * g);
        assert((2 * (t * s) + s) * n == 2 * s * tn + s * n);
        assert((2 * (m * g)) * n == (2 * (m * n)) * g);
        assert((2 * (m * n) + n) * g == (2 * (m * n)) * g + n * g);
        assert(n * g < s);
        assert(2 * s * tn + s * n + s > 2 * s * g);
        assert(s * (2 * tn + n + 1) > s * (2 * g));
    }
    assert(tn <= g + n);
    assert(t <= g + 1) by (nonlinear_arith)
        requires
            tn <= g + n,
            tn == t * n,
            n >= 1,
            t >= 0,
            g >= 0,
    ;
}

/// `fps` frames last a second, give or take one nanosecond each.
pub proof fn law_frames_fill_a_second(fps: u32)
    requires
        fps > 0,
    ensures
        NANOS_PER_SEC - fps <= frame_duration_of(fps) * fps <= NANOS_PER_SEC + fps,
{
    lemma_frame_duration(fps);
}

/// A frame lasts as long as its share of a second, to the nearest nanosecond.
pub proof fn law_frame_lasts_its_share_of_a_second(fps: u32, nanos: u64)
    requires
        fps > 0,
        call_ensures(frame_duration, (fps,), nanos),
    ensures
        2_000_000_000 - fps <= 2 * (nanos * fps) <= 2_000_000_000 + fps,
{
    lemma_frame_duration(fps);
}

// ---------------------------------------------------------------------
// Due times
// ---------------------------------------------------------------------

/// Whether a frame that arrives at `now` is taken.
pub open spec fn is_due(next_due: int, now: int) -> bool {
    now >= next_due
}

/// When the next frame is due after one was taken at `now`. If that has
/// passed already, the schedule starts afresh instead of accumulating drift.
pub open spec fn due_after(next_due: int, now: int, duration: nat) -> int {
    if next_due + duration < now {
        now + duration
    } else {
        next_due + duration
    }
}

/// When the next frame is due after frames arrived at the given times.
pub open spec fn due_after_all(start: int, times: Seq<int>, duration: nat) -> int
    decreases times.len(),
{
    if times.len() == 0 {
        start
    } else {
        let due = due_after_all(start, times.drop_last(), duration);
        if is_due(due, times.last()) {
            due_after(due, times.last(), duration)
        } else {
            due
        }
    }
}

/// How many of the frames that arrived at the given times were taken.
pub open spec fn taken(start: int, times: Seq<int>, duration: nat) -> nat
    decreases times.len(),
{
    if times.len() == 0 {
        0
    } else {
        let before = taken(start, times.drop_last(), duration);
        if is_due(due_after_all(start, times.drop_last(), duration), times.last()) {
            before + 1
        } else {
            before
        }
    }
}

/// However frames arrive, no more are taken than the requested rate allows:
/// from the start of the schedule to the latest arrival, one for each frame
/// duration that passed, and one more.
pub proof fn law_rate_is_not_exceeded(start: int, times: Seq<int>, duration: nat)
    requires
        forall|i: int, j: int| 0 <= i <= j < times.len() ==> times[i] <= times[j],
        forall|i: int| 0 <= i < times.len() ==> start <= #[trigger] times[i],
    ensures
        due_after_all(start, times, duration) >= start + taken(start, times, duration) * duration,
        times.len() > 0 ==> taken(start, times, duration) * duration <= times.last() - start
            + duration,
    decreases times.len(),
{
    let none: nat = 0;
    assert(none * duration == 0) by (nonlinear_arith)
        requires
            none == 0,
    ;
    if times.len() > 0 {
        let rest = times.drop_last();
        law_rate_is_not_exceeded(start, rest, duration);
        let before = taken(start, rest, duration);
        assert((before + 1) * duration == before * duration + duration) by (nonlinear_arith);
        if rest.len() == 0 {
            assert(before == none);
        } else {
            assert(rest.last() == times[times.len() - 2]);
            assert(times.last() == times[times.len() - 1]);
        }
    }
}

/// Whether every frame that arrives at one of the given times is no more
/// than one frame duration late.
pub open spec fn punctual(start: int, times: Seq<int>, duration: nat) -> bool
    decreases times.len(),
{
    times.len() > 0 ==> {
        &&& punctual(start, times.drop_last(), duration)
        &&& times.last() <= due_after_all(start, times.drop_last(), duration) + duration
    }
}

/// The schedule does not drift: as long as no frame comes more than one frame
/// duration after it was due, the next one is due at exactly the start and
/// one frame duration for each frame that was taken.
pub proof fn law_schedule_does_not_drift(start: int, times: Seq<int>, duration: nat)
    requires
        punctual(start, times, duration),
    ensures
        due_after_all(start, times, duration) == start + taken(start, times, duration) * duration,
    decreases times.len(),
{
    let none: nat = 0;
    assert(none * duration == 0) by (nonlinear_arith)
        requires
            none == 0,
    ;
    if times.len() > 0 {
        law_schedule_does_not_drift(start, times.drop_last(), duration);
        let before = taken(start, times.drop_last(), duration);
        assert((before + 1) * duration == before * duration + duration) by (nonlinear_arith);
    } else {
        assert(taken(start, times, duration) == none);
    }
}

/// The requested rate is reached: if frames never come further apart than one
/// frame duration, one is taken for each frame duration that has passed up to
/// the latest arrival.
pub proof fn law_rate_is_reached(start: int, times: Seq<int>, duration: nat)
    requires
        forall|i: int|
            0 <= i < times.len() ==> (if i == 0 {
                start
            } else {
                times[i - 1]
            }) <= #[trigger] times[i] <= (if i == 0 {
                start
            } else {
                times[i - 1]
            }) + duration,
    ensures
        punctual(start, times, duration),
        times.len() > 0 ==> taken(start, times, duration) * duration >= times.last() - start,
        times.len() > 0 && duration > 0 ==> taken(start, times, duration) >= (times.last() - start)
            / (duration as int),
{
    lemma_steady(start, times, duration);
    law_schedule_does_not_drift(start, times, duration);
    if times.len() > 0 && duration > 0 {
        let count = taken(start, times, duration) as int;
        let span = times.last() - start;
        let d = duration as int;
        assert(count >= span / d) by (nonlinear_arith)
            requires
                count * d >= span,
                d > 0,
        ;
    }
}

proof fn lemma_steady(start: int, times: Seq<int>, duration: nat)
    requires
        forall|i: int|
            0 <= i < times.len() ==> (if i == 0 {
                start
            } else {
                times[i - 1]
            }) <= #[trigger] times[i] <= (if i == 0 {
                start
            } else {
                times[i - 1]
            }) + duration,
    ensures
        punctual(start, times, duration),
        due_after_all(start, times, duration) >= (if times.len() == 0 {
            start
        } else {
            times.last()
        }),
    decreases times.len(),
{
    if times.len() > 0 {
        let rest = times.drop_last();
        assert forall|i: int| 0 <= i < rest.len() implies (if i == 0 {
            start
        } else {
            rest[i - 1]
        }) <= #[trigger] rest[i] <= (if i == 0 {
            start
        } else {
            rest[i - 1]
        }) + duration by {
            assert(rest[i] == times[i]);
        }
        lemma_steady(start, rest, duration);
        assert(times[times.len() - 1] == times.last());
        if rest.len() > 0 {
            assert(rest.last() == times[times.len() - 2]);
        }
    }
}

} // verus!
