//! Rate limiting of the leader's own vote.
//!
//! The leader attempts a vote once per turn of its loop. A vote is only
//! emitted once the minimum interval has passed since the last vote that went
//! out, so however often the loop turns, votes leave at a bounded rate.

use vstd::prelude::*;

verus! {

/// Whether a vote is due at time `now`, when the last one went out at
/// `last_vote`: the minimum interval has elapsed since then.
pub open spec fn vote_due(last_vote: int, min_interval: int, now: int) -> bool {
    now - last_vote >= min_interval
}

/// Remembers when the last vote went out. Times are in milliseconds.
#[derive(Clone, Copy, Debug, PartialEq, Eq, Structural)]
pub struct VoteLimiter {
    /// When the last successful vote was emitted; 0 before the first.
    pub last_vote: u64,
    /// The least time between two votes.
    pub min_interval: u64,
}

impl VoteLimiter {
    /// A limiter that has seen no vote yet.
    pub fn new(min_interval: u64) -> (limiter: Self)
        ensures
            limiter.last_vote == 0,
            limiter.min_interval == min_interval,
    {
        VoteLimiter { last_vote: 0, min_interval }
    }

    /// Whether a vote may be emitted at time `now`. A clock that reads less
    /// than the last vote's time has not let the interval elapse.
    pub fn is_due(&self, now: u64) -> (due: bool)
        ensures
            due == vote_due(self.last_vote as int, self.min_interval as int, now as int),
    {
        now >= self.last_vote && now - self.last_vote >= self.min_interval
    }

    /// Notes that a vote went out at time `now`.
    pub fn record(&mut self, now: u64)
        ensures
            final(self).last_vote == now,
            final(self).min_interval == old(self).min_interval,
    {
        self.last_vote = now;
    }

    /// One attempt at time `now`, with `succeeded` telling whether an emission,
    /// if one is made, goes through. Returns whether a vote went out, and
    /// remembers its time if so.
    pub fn attempt(&mut self, now: u64, succeeded: bool) -> (emitted: bool)
        ensures
            emitted == attempt_emits(
                old(self).last_vote as int,
                old(self).min_interval as int,
                (Attempt { now: now as int, succeeded }),
            ),
            final(self).last_vote as int == last_vote_after(
                old(self).last_vote as int,
                old(self).min_interval as int,
                (Attempt { now: now as int, succeeded }),
            ),
            final(self).min_interval == old(self).min_interval,
    {
        if succeeded && self.is_due(now) {
            self.record(now);
            true
        } else {
            false
        }
    }
}

/// One turn of the leader's loop as the limiter sees it: the clock's reading,
/// and whether an emission made then succeeds.
pub struct Attempt {
    pub now: int,
    pub succeeded: bool,
}

/// Whether the attempt `a` puts a vote out, the last one having left at `last_vote`.
pub open spec fn attempt_emits(last_vote: int, min_interval: int, a: Attempt) -> bool {
    vote_due(last_vote, min_interval, a.now) && a.succeeded
}

/// The time of the last vote after the attempt `a`.
pub open spec fn last_vote_after(last_vote: int, min_interval: int, a: Attempt) -> int {
    if attempt_emits(last_vote, min_interval, a) {
        a.now
    } else {
        last_vote
    }
}

/// The time of the last vote after all attempts of `trace`, in order.
pub open spec fn last_vote_after_all(last_vote: int, min_interval: int, trace: Seq<Attempt>) -> int
    decreases trace.len(),
{
    if trace.len() == 0 {
        last_vote
    } else {
        last_vote_after(
            last_vote_after_all(last_vote, min_interval, trace.drop_last()),
            min_interval,
            trace.last(),
        )
    }
}

/// How many votes go out over the attempts of `trace`.
pub open spec fn votes_emitted(last_vote: int, min_interval: int, trace: Seq<Attempt>) -> nat
    decreases trace.len(),
{
    if trace.len() == 0 {
        0
    } else {
        let before = trace.drop_last();
        let emitted_before = votes_emitted(last_vote, min_interval, before);
        if attempt_emits(
            last_vote_after_all(last_vote, min_interval, before),
            min_interval,
            trace.last(),
        ) {
            emitted_before + 1
        } else {
            emitted_before
        }
    }
}

/// Whether the clock never runs backwards over `trace`.
pub open spec fn clock_monotonic(trace: Seq<Attempt>) -> bool {
    forall|i: int, j: int| 0 <= i <= j < trace.len() ==> trace[i].now <= trace[j].now
}

/// Once a vote has gone out during `trace`, the last vote's time lies within
/// the trace, and each vote but the first took a whole interval to come.
proof fn lemma_votes_spaced(last_vote: int, min_interval: int, trace: Seq<Attempt>)
    requires
        min_interval > 0,
        clock_monotonic(trace),
    ensures
        votes_emitted(last_vote, min_interval, trace) > 0 ==> {
            let last = last_vote_after_all(last_vote, min_interval, trace);
            let n = votes_emitted(last_vote, min_interval, trace);
            &&& last <= trace.last().now
            &&& trace[0].now + (n - 1) * min_interval <= last
        },
    decreases trace.len(),
{
    if trace.len() > 0 {
        let before = trace.drop_last();
        let a = trace.last();
        assert(clock_monotonic(before)) by {
            assert forall|i: int, j: int| 0 <= i <= j < before.len() implies before[i].now
                <= before[j].now by {
                assert(before[i] == trace[i] && before[j] == trace[j]);
            }
        }
        lemma_votes_spaced(last_vote, min_interval, before);
        let n_before = votes_emitted(last_vote, min_interval, before);
        let last_before = last_vote_after_all(last_vote, min_interval, before);
        if n_before > 0 {
            assert(before.last() == trace[before.len() - 1]);
            assert(before[0] == trace[0]);
        }
        if attempt_emits(last_before, min_interval, a) {
            if n_before > 0 {
                assert(trace[0].now + n_before * min_interval <= a.now) by (nonlinear_arith)
                    requires
                        trace[0].now + (n_before - 1) * min_interval <= last_before,
                        a.now - last_before >= min_interval,
                {}
            } else {
                assert((1 - 1) * min_interval == 0) by (nonlinear_arith);
            }
        }
    }
}

/// Over any run of attempts on a clock that does not run backwards, the votes
/// that go out number at most the elapsed time divided by the minimum
/// interval, plus one, however often an attempt is made.
pub proof fn lemma_vote_rate_bounded(last_vote: int, min_interval: int, trace: Seq<Attempt>)
    requires
        min_interval > 0,
        trace.len() > 0,
        clock_monotonic(trace),
    ensures
        votes_emitted(last_vote, min_interval, trace) * min_interval <= (trace.last().now
            - trace[0].now) + min_interval,
        votes_emitted(last_vote, min_interval, trace) <= (trace.last().now - trace[0].now)
            / min_interval + 1,
{
    lemma_votes_spaced(last_vote, min_interval, trace);
    let n: int = votes_emitted(last_vote, min_interval, trace) as int;
    let elapsed = trace.last().now - trace[0].now;
    assert(elapsed >= 0);
    if n > 0 {
        assert(n * min_interval <= elapsed + min_interval) by (nonlinear_arith)
            requires
                (n - 1) * min_interval <= elapsed,
        {}
        assert(n - 1 <= elapsed / min_interval) by (nonlinear_arith)
            requires
                (n - 1) * min_interval <= elapsed,
                min_interval > 0,
        {}
    } else {
        assert(0 * min_interval == 0) by (nonlinear_arith);
        assert(0 <= elapsed / min_interval) by (nonlinear_arith)
            requires
                elapsed >= 0,
                min_interval > 0,
        {}
    }
}

/// An attempt made before the interval has elapsed puts no vote out and
/// leaves the last vote's time as it was, whether or not it would succeed.
pub proof fn lemma_early_attempt_is_silent(last_vote: int, min_interval: int, a: Attempt)
    requires
        a.now - last_vote < min_interval,
    ensures
        !attempt_emits(last_vote, min_interval, a),
        last_vote_after(last_vote, min_interval, a) == last_vote,
{
}

} // verus!
