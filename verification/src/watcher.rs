//! The settlement watcher's decision logic: given the time and what one
//! poll of the chain client reported, decide whether the bundle is
//! confirmed settled, the deadline has passed, or polling continues.
//!
//! The polling loop itself suspends and sleeps, so it runs outside this
//! library and asks [`watcher_step`] after every poll. Chain-client
//! errors are treated as "not yet settled" and retried until the
//! deadline, never surfaced to the caller — see
//! [`lemma_watch_errors_are_pending`].

use vstd::prelude::*;

verus! {

/// What one poll of the chain client reported
#[derive(Clone, Copy, PartialEq, Eq, Structural, Debug)]
pub enum PollOutcome {
    /// The bundle was observed settled on chain
    Settled,
    /// The bundle was not yet observed settled
    NotYet,
    /// The chain client failed to answer
    ClientFailure,
}

/// What the watcher does after one poll
#[derive(Clone, Copy, PartialEq, Eq, Structural, Debug)]
pub enum WatcherStep {
    /// Settlement was observed: stop, the outcome is settled
    Confirmed,
    /// The deadline elapsed without settlement: stop, withhold credit
    Expired,
    /// Keep polling
    Retry,
}

/// The watcher's decision after one poll: settlement observed wins; an
/// elapsed deadline otherwise ends the watch; anything else — including
/// a chain-client failure — polls again.
pub open spec fn spec_watcher_step(now: u64, deadline: u64, poll: PollOutcome) -> WatcherStep {
    if poll is Settled {
        WatcherStep::Confirmed
    } else if now >= deadline {
        WatcherStep::Expired
    } else {
        WatcherStep::Retry
    }
}

/// Decide what the watcher does after one poll
pub fn watcher_step(now: u64, deadline: u64, poll: PollOutcome) -> (r: WatcherStep)
    ensures
        r == spec_watcher_step(now, deadline, poll),
        r is Confirmed <==> poll is Settled,
        r is Expired <==> !(poll is Settled) && now >= deadline,
        r is Retry <==> !(poll is Settled) && now < deadline,
{
    match poll {
        PollOutcome::Settled => WatcherStep::Confirmed,
        _ => {
            if now >= deadline {
                WatcherStep::Expired
            } else {
                WatcherStep::Retry
            }
        },
    }
}

/// The outcome of a whole watch over a trace of timed polls: true when
/// settlement is observed before the deadline ends the watch, false when
/// the deadline elapses first or the trace runs out.
pub open spec fn watch_outcome(deadline: u64, polls: Seq<(u64, PollOutcome)>) -> bool
    decreases polls.len(),
{
    if polls.len() == 0 {
        false
    } else {
        match spec_watcher_step(polls.first().0, deadline, polls.first().1) {
            WatcherStep::Confirmed => true,
            WatcherStep::Expired => false,
            WatcherStep::Retry => watch_outcome(deadline, polls.drop_first()),
        }
    }
}

/// A trace with every chain-client failure read as "not yet settled"
pub open spec fn reads_as_pending(polls: Seq<(u64, PollOutcome)>) -> Seq<(u64, PollOutcome)> {
    polls.map_values(
        |p: (u64, PollOutcome)|
            if p.1 is ClientFailure {
                (p.0, PollOutcome::NotYet)
            } else {
                p
            },
    )
}

/// Chain-client failures never change the outcome of a watch: the
/// watcher treats them exactly as "not yet settled" and retries.
pub proof fn lemma_watch_errors_are_pending(deadline: u64, polls: Seq<(u64, PollOutcome)>)
    ensures
        watch_outcome(deadline, polls) == watch_outcome(deadline, reads_as_pending(polls)),
    decreases polls.len(),
{
    if polls.len() > 0 {
        lemma_watch_errors_are_pending(deadline, polls.drop_first());
        assert(reads_as_pending(polls).drop_first() =~= reads_as_pending(polls.drop_first()));
    }
}

} // verus!
