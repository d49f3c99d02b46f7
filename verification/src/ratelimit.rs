//! A minimal global rate limiter for failed room-code lookups.
//!
//! Deliberately not per-IP: the server may sit behind a reverse proxy, so the
//! TCP peer address usually isn't the real client, and trusting
//! `X-Forwarded-For` without a known-trusted proxy chain is its own can of
//! worms. A global limiter still meaningfully throttles bulk room-code
//! guessing, since legitimate viewers almost never hit a wrong code in the
//! first place: only a guesser racks up failures.
//!
//! Times are nanoseconds on a monotonic clock with a fixed origin.
use std::collections::VecDeque;
use vstd::prelude::*;

verus! {

/// Allows attempts while fewer than `max_failures` failures lie within the
/// last `window` nanoseconds.
pub struct FailureRateLimiter {
    max_failures: usize,
    window: u128,
    failures: VecDeque<u128>,
}

/// Whether a failure at `t` lies too far back to count at `now`.
pub open spec fn expired(t: u128, window: u128, now: u128) -> bool {
    t < now - window
}

/// `failures` without the expired ones at its front.
pub open spec fn without_expired(failures: Seq<u128>, window: u128, now: u128) -> Seq<u128>
    decreases failures.len(),
{
    if failures.len() > 0 && expired(failures[0], window, now) {
        without_expired(failures.skip(1), window, now)
    } else {
        failures
    }
}

/// Whether the times of `failures` never go back.
pub open spec fn in_order(failures: Seq<u128>) -> bool {
    forall|i: int, j: int| 0 <= i <= j < failures.len() ==> failures[i] <= failures[j]
}

impl FailureRateLimiter {
    /// The failure count from which attempts are refused.
    pub closed spec fn max_failures(&self) -> usize {
        self.max_failures
    }

    /// How long a failure counts, in nanoseconds.
    pub closed spec fn window(&self) -> u128 {
        self.window
    }

    /// The recorded failures, oldest first.
    pub closed spec fn failures(&self) -> Seq<u128> {
        self.failures@
    }

    /// A limiter without failures.
    pub fn new(max_failures: usize, window: u128) -> (limiter: Self)
        ensures
            limiter.max_failures() == max_failures,
            limiter.window() == window,
            limiter.failures() == Seq::<u128>::empty(),
    {
        FailureRateLimiter { max_failures, window, failures: VecDeque::new() }
    }

    /// True if we're currently under the failure threshold, i.e. it's fine
    /// to let this attempt proceed to a real room-code lookup.
    pub fn is_allowed(&mut self, now: u128) -> (allowed: bool)
        ensures
            final(self).max_failures() == old(self).max_failures(),
            final(self).window() == old(self).window(),
            final(self).failures() == without_expired(
                old(self).failures(),
                old(self).window(),
                now,
            ),
            allowed == (final(self).failures().len() < old(self).max_failures()),
    {
        while self.failures.len() > 0 && now >= self.window && self.failures[0] < now - self.window
            invariant
                self.max_failures == old(self).max_failures,
                self.window == old(self).window,
                without_expired(self.failures@, self.window, now) == without_expired(
                    old(self).failures@,
                    old(self).window,
                    now,
                ),
            decreases self.failures@.len(),
        {
            let ghost before = self.failures@;
            self.failures.pop_front();
            assert(self.failures@ =~= before.skip(1));
        }
        self.failures.len() < self.max_failures
    }

    /// Records a failed (wrong room code) lookup attempt.
    pub fn record_failure(&mut self, now: u128)
        ensures
            final(self).max_failures() == old(self).max_failures(),
            final(self).window() == old(self).window(),
            final(self).failures() == old(self).failures().push(now),
    {
        self.failures.push_back(now);
    }
}

/// On a clock that never goes back, what a check keeps is exactly the
/// failures of the last window, so an attempt is refused exactly while
/// `max_failures` of them fall into it.
pub proof fn law_keeps_exactly_the_window(failures: Seq<u128>, window: u128, now: u128)
    requires
        in_order(failures),
    ensures
        without_expired(failures, window, now) == failures.filter(
            |t: u128| !expired(t, window, now),
        ),
        in_order(without_expired(failures, window, now)),
    decreases failures.len(),
{
    let recent = |t: u128| !expired(t, window, now);
    if failures.len() == 0 {
        reveal(Seq::filter);
    } else if expired(failures[0], window, now) {
        let rest = failures.skip(1);
        law_keeps_exactly_the_window(rest, window, now);
        assert(failures =~= seq![failures[0]] + rest);
        Seq::filter_distributes_over_add(seq![failures[0]], rest, recent);
        assert(seq![failures[0]].filter(recent) =~= Seq::<u128>::empty()) by {
            reveal_with_fuel(Seq::filter, 2);
            assert(seq![failures[0]].drop_last() =~= Seq::<u128>::empty());
        }
        assert(failures.filter(recent) =~= rest.filter(recent));
    } else {
        assert forall|i: int| 0 <= i < failures.len() implies recent(#[trigger] failures[i]) by {
            assert(failures[0] <= failures[i]);
        }
        lemma_filter_keeps_all(failures, recent);
    }
}

proof fn lemma_filter_keeps_all(s: Seq<u128>, keep: spec_fn(u128) -> bool)
    requires
        forall|i: int| 0 <= i < s.len() ==> keep(#[trigger] s[i]),
    ensures
        s.filter(keep) == s,
    decreases s.len(),
{
    reveal(Seq::filter);
    if s.len() > 0 {
        assert forall|i: int| 0 <= i < s.drop_last().len() implies keep(
            #[trigger] s.drop_last()[i],
        ) by {
            assert(s.drop_last()[i] == s[i]);
        }
        lemma_filter_keeps_all(s.drop_last(), keep);
        assert(keep(s[s.len() - 1]));
        assert(s.drop_last().push(s.last()) =~= s);
    }
}

proof fn lemma_filter_twice(
    s: Seq<u128>,
    loose: spec_fn(u128) -> bool,
    strict: spec_fn(u128) -> bool,
)
    requires
        forall|t: u128| #[trigger] strict(t) ==> loose(t),
    ensures
        s.filter(loose).filter(strict) == s.filter(strict),
    decreases s.len(),
{
    reveal(Seq::filter);
    if s.len() > 0 {
        lemma_filter_twice(s.drop_last(), loose, strict);
        let kept = s.drop_last().filter(loose);
        if loose(s.last()) {
            assert(kept.push(s.last()).drop_last() =~= kept);
        } else {
            assert(!strict(s.last()));
        }
    }
}

/// What happens to a limiter.
pub enum LimiterEvent {
    /// An attempt asked whether it is allowed.
    Checked { now: u128 },
    /// A failure was recorded.
    Failed { now: u128 },
}

impl LimiterEvent {
    /// When it happened.
    pub open spec fn at(self) -> u128 {
        match self {
            LimiterEvent::Checked { now } => now,
            LimiterEvent::Failed { now } => now,
        }
    }
}

/// The failures that a fresh limiter holds after a run of events.
pub open spec fn held(events: Seq<LimiterEvent>, window: u128) -> Seq<u128>
    decreases events.len(),
{
    if events.len() == 0 {
        Seq::empty()
    } else {
        let before = held(events.drop_last(), window);
        match events.last() {
            LimiterEvent::Checked { now } => without_expired(before, window, now),
            LimiterEvent::Failed { now } => before.push(now),
        }
    }
}

/// All the failures that were recorded in a run of events.
pub open spec fn recorded(events: Seq<LimiterEvent>) -> Seq<u128>
    decreases events.len(),
{
    if events.len() == 0 {
        Seq::empty()
    } else {
        match events.last() {
            LimiterEvent::Checked { .. } => recorded(events.drop_last()),
            LimiterEvent::Failed { now } => recorded(events.drop_last()).push(now),
        }
    }
}

/// Whether a run of events happened on a clock that never goes back, and
/// ended by `until`.
pub open spec fn in_time(events: Seq<LimiterEvent>, until: u128) -> bool {
    &&& forall|i: int, j: int|
        0 <= i <= j < events.len() ==> (#[trigger] events[i]).at() <= (#[trigger] events[j]).at()
    &&& forall|i: int| 0 <= i < events.len() ==> (#[trigger] events[i]).at() <= until
}

proof fn lemma_held(events: Seq<LimiterEvent>, window: u128, now: u128)
    requires
        in_time(events, now),
    ensures
        in_order(held(events, window)),
        forall|i: int| 0 <= i < held(events, window).len() ==> #[trigger] held(events, window)[i] <= now,
        held(events, window).filter(|t: u128| !expired(t, window, now)) == recorded(events).filter(
            |t: u128| !expired(t, window, now),
        ),
    decreases events.len(),
{
    let recent = |t: u128| !expired(t, window, now);
    if events.len() > 0 {
        let rest = events.drop_last();
        let last = events.last();
        let at = last.at();
        assert(events[events.len() - 1] == last);
        assert forall|i: int| 0 <= i < rest.len() implies (#[trigger] rest[i]).at() <= at by {
            assert(rest[i] == events[i]);
        }
        assert forall|i: int, j: int| 0 <= i <= j < rest.len() implies (
        #[trigger] rest[i]).at() <= (#[trigger] rest[j]).at() by {
            assert(rest[i] == events[i] && rest[j] == events[j]);
        }
        lemma_held(rest, window, at);
        lemma_held(rest, window, now);
        let before = held(rest, window);
        match last {
            LimiterEvent::Checked { now: t } => {
                let recent_then = |x: u128| !expired(x, window, t);
                law_keeps_exactly_the_window(before, window, t);
                lemma_filter_twice(before, recent_then, recent);
                assert forall|i: int| 0 <= i < held(events, window).len() implies #[trigger] held(
                    events,
                    window,
                )[i] <= now by {
                    lemma_without_expired_keeps(before, window, t, i);
                }
            },
            LimiterEvent::Failed { now: t } => {
                reveal(Seq::filter);
                assert(before.push(t).drop_last() =~= before);
                assert(recorded(rest).push(t).drop_last() =~= recorded(rest));
            },
        }
    } else {
        reveal(Seq::filter);
    }
}

proof fn lemma_without_expired_keeps(failures: Seq<u128>, window: u128, now: u128, i: int)
    requires
        0 <= i < without_expired(failures, window, now).len(),
    ensures
        exists|j: int|
            0 <= j < failures.len() && #[trigger] failures[j] == without_expired(
                failures,
                window,
                now,
            )[i],
    decreases failures.len(),
{
    if failures.len() > 0 && expired(failures[0], window, now) {
        let rest = failures.skip(1);
        lemma_without_expired_keeps(rest, window, now, i);
        let j = choose|j: int|
            0 <= j < rest.len() && #[trigger] rest[j] == without_expired(rest, window, now)[i];
        assert(failures[j + 1] == rest[j]);
    } else {
        assert(failures[i] == without_expired(failures, window, now)[i]);
    }
}

/// However often a limiter was asked in between, an attempt at `now` is
/// judged by all the failures that were ever recorded and lie within the
/// window, and by nothing else.
pub proof fn law_answers_count_recorded_failures(
    events: Seq<LimiterEvent>,
    window: u128,
    now: u128,
)
    requires
        in_time(events, now),
    ensures
        without_expired(held(events, window), window, now) == recorded(events).filter(
            |t: u128| !expired(t, window, now),
        ),
{
    lemma_held(events, window, now);
    law_keeps_exactly_the_window(held(events, window), window, now);
}

/// Asking never changes a later answer: two limiters with the same failures
/// recorded judge alike, whenever each of them was asked.
pub proof fn law_asking_changes_no_answer(
    events: Seq<LimiterEvent>,
    others: Seq<LimiterEvent>,
    window: u128,
    now: u128,
)
    requires
        in_time(events, now),
        in_time(others, now),
        recorded(events) == recorded(others),
    ensures
        without_expired(held(events, window), window, now) == without_expired(
            held(others, window),
            window,
            now,
        ),
{
    law_answers_count_recorded_failures(events, window, now);
    law_answers_count_recorded_failures(others, window, now);
}

/// Failures recorded on a clock that never goes back stay in order.
pub proof fn law_recording_keeps_order(failures: Seq<u128>, now: u128)
    requires
        in_order(failures),
        failures.len() > 0 ==> failures.last() <= now,
    ensures
        in_order(failures.push(now)),
{
}

/// Once a whole window has passed since the last failure, none counts.
pub proof fn law_window_passes(failures: Seq<u128>, window: u128, now: u128)
    requires
        forall|i: int| 0 <= i < failures.len() ==> expired(#[trigger] failures[i], window, now),
    ensures
        without_expired(failures, window, now) == Seq::<u128>::empty(),
    decreases failures.len(),
{
    if failures.len() > 0 {
        let rest = failures.skip(1);
        assert forall|i: int| 0 <= i < rest.len() implies expired(#[trigger] rest[i], window, now) by {
            assert(rest[i] == failures[i + 1]);
        }
        law_window_passes(rest, window, now);
    } else {
        assert(failures =~= Seq::<u128>::empty());
    }
}

/// An attempt is refused exactly while at least the limit of failures lie no
/// further back than the window: a failure counts up to and including the
/// moment the window has passed, and not any more after it. Asking changes
/// neither the limit nor the window.
pub proof fn law_attempts_are_refused_within_the_window(
    limiter: &mut FailureRateLimiter,
    now: u128,
    allowed: bool,
)
    requires
        call_ensures(FailureRateLimiter::is_allowed, (limiter, now), allowed),
        in_order(old(limiter).failures()),
    ensures
        !allowed <==> old(limiter).failures().filter(
            |t: u128| t + old(limiter).window() >= now,
        ).len() >= old(limiter).max_failures(),
        final(limiter).max_failures() == old(limiter).max_failures(),
        final(limiter).window() == old(limiter).window(),
        final(limiter).failures() == old(limiter).failures().filter(
            |t: u128| t + old(limiter).window() >= now,
        ),
{
    let window = old(limiter).window();
    law_keeps_exactly_the_window(old(limiter).failures(), window, now);
    assert((|t: u128| !expired(t, window, now)) =~= (|t: u128| t + window >= now));
}

/// A new limiter lets attempts through unless its limit is zero. Every
/// failure that is recorded counts from its own moment on, after those before
/// it.
pub proof fn law_failures_are_recorded(
    max_failures: usize,
    window: u128,
    fresh: &mut FailureRateLimiter,
    now: u128,
    allowed: bool,
    limiter: &mut FailureRateLimiter,
    at: u128,
)
    requires
        call_ensures(FailureRateLimiter::new, (max_failures, window), *old(fresh)),
        call_ensures(FailureRateLimiter::is_allowed, (fresh, now), allowed),
        call_ensures(FailureRateLimiter::record_failure, (limiter, at), ()),
    ensures
        allowed <==> max_failures > 0,
        final(limiter).failures().len() == old(limiter).failures().len() + 1,
        final(limiter).failures().last() == at,
        final(limiter).failures().drop_last() == old(limiter).failures(),
        final(limiter).max_failures() == old(limiter).max_failures(),
        final(limiter).window() == old(limiter).window(),
        old(fresh).window() == window && old(fresh).max_failures() == max_failures,
{
    assert(final(limiter).failures().drop_last() =~= old(limiter).failures());
}

/// The limit is reached by failures alone: with one failure less than the
/// limit an attempt is let through, and with one more, just recorded, the
/// next is refused.
pub proof fn law_one_failure_too_many(
    before: &mut FailureRateLimiter,
    allowed: bool,
    recorded: &mut FailureRateLimiter,
    now: u128,
    after: &mut FailureRateLimiter,
    still_allowed: bool,
)
    requires
        in_order(old(before).failures()),
        forall|i: int| 0 <= i < old(before).failures().len() ==> #[trigger] old(before).failures()[i]
            <= now && old(before).failures()[i] + old(before).window() >= now,
        old(before).failures().len() + 1 == old(before).max_failures(),
        call_ensures(FailureRateLimiter::is_allowed, (before, now), allowed),
        *old(recorded) == *final(before),
        call_ensures(FailureRateLimiter::record_failure, (recorded, now), ()),
        *old(after) == *final(recorded),
        call_ensures(FailureRateLimiter::is_allowed, (after, now), still_allowed),
    ensures
        allowed,
        !still_allowed,
{
}

} // verus!
