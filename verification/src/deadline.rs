//! The one cancellable deadline of a buffer, kept on a `ThreadTimer`.

use std::time::Duration;
use thread_timer::{ThreadTimer, TimerCancelError, TimerStartError};
use vstd::prelude::*;

verus! {

/// `thread_timer::ThreadTimer`, carried as an opaque value.
#[verifier::external_type_specification]
#[verifier::external_body]
pub struct ExThreadTimer(thread_timer::ThreadTimer);

/// `thread_timer::TimerStartError`, carried as an opaque value.
#[verifier::external_type_specification]
#[verifier::external_body]
pub struct ExTimerStartError(thread_timer::TimerStartError);

/// `thread_timer::TimerCancelError`, carried as an opaque value.
#[verifier::external_type_specification]
#[verifier::external_body]
pub struct ExTimerCancelError(thread_timer::TimerCancelError);

/// `ThreadTimer::new` spawns the timer's wait thread and hands back an idle
/// timer. Nothing is claimed of the value.
pub assume_specification[ thread_timer::ThreadTimer::new ]() -> (timer: ThreadTimer);

/// `ThreadTimer::start` hands `f` to the wait thread, which runs it once
/// after `dur` unless the wait is cancelled first, or refuses with an error
/// when the timer is already waiting. Which of the two happens depends on
/// what the wait thread is doing, so nothing is claimed of the result. The
/// thunk is called with no arguments, so it must accept that call. A thunk
/// that panics takes the wait thread down with it, and every later `start`
/// on that timer panics too: thunks handed over from unverified code must
/// not panic.
pub assume_specification<F>[ thread_timer::ThreadTimer::start::<F> ](
    timer: &ThreadTimer,
    dur: Duration,
    f: F,
) -> (started: Result<(), TimerStartError>) where F: FnOnce() + Send + 'static
    requires
        f.requires(()),
;

/// `ThreadTimer::cancel` stops the current wait so that its thunk never
/// runs, or reports an error when there is no wait to stop. Which of the two
/// happens depends on what the wait thread is doing, so nothing is claimed of
/// the result.
pub assume_specification[ thread_timer::ThreadTimer::cancel ](timer: &ThreadTimer) -> (cancelled:
    Result<(), TimerCancelError>);

/// How one cancel-then-schedule cycle went.
#[derive(Clone, Copy, Debug, PartialEq, Eq, Structural)]
pub enum Rearm {
    /// No deadline was pending; a fresh one is now scheduled.
    Scheduled,
    /// The pending deadline was cancelled and a fresh one is now scheduled.
    Rescheduled,
    /// The timer did not take the new deadline.
    Refused,
}

/// The outcome of a cycle in which the cancel did or did not find a deadline
/// to drop and the timer did or did not take the new one.
pub open spec fn rearm_outcome(cancelled: bool, started: bool) -> Rearm {
    if !started {
        Rearm::Refused
    } else if cancelled {
        Rearm::Rescheduled
    } else {
        Rearm::Scheduled
    }
}

/// Names the outcome of one cancel-then-schedule cycle.
pub fn classify(cancelled: bool, started: bool) -> (outcome: Rearm)
    ensures
        outcome == rearm_outcome(cancelled, started),
{
    if !started {
        Rearm::Refused
    } else if cancelled {
        Rearm::Rescheduled
    } else {
        Rearm::Scheduled
    }
}

/// The deadline of one buffer: a timer and the cooldown it is armed with.
pub struct Deadline {
    timer: ThreadTimer,
    cooldown: Duration,
}

impl Deadline {
    /// The cooldown every deadline is scheduled with.
    pub closed spec fn cooldown(&self) -> Duration {
        self.cooldown
    }

    /// An idle deadline on a timer of its own.
    pub fn new(cooldown: Duration) -> (deadline: Self)
        ensures
            deadline.cooldown() == cooldown,
    {
        Deadline { timer: ThreadTimer::new(), cooldown }
    }

    /// One cancel-then-schedule cycle: drops the pending deadline, if there
    /// is one, and schedules `on_elapse` to run one full cooldown from now.
    /// Cancelling when nothing is pending is not an error.
    pub fn rearm<F>(&self, on_elapse: F) -> (outcome: Rearm) where F: FnOnce() + Send + 'static
        requires
            on_elapse.requires(()),
    {
        let cancelled = match self.timer.cancel() {
            Ok(_) => true,
            Err(_) => false,
        };
        let started = match self.timer.start(self.cooldown, on_elapse) {
            Ok(_) => true,
            Err(_) => false,
        };
        classify(cancelled, started)
    }
}

} // verus!
