//! The quiescence state machine that decides when a deadline is scheduled,
//! reset, or allowed to fire.

use vstd::prelude::*;

verus! {

/// Where the single logical deadline stands.
#[derive(Clone, Copy, Debug, PartialEq, Eq, Structural)]
pub enum Phase {
    /// No deadline is scheduled.
    Idle,
    /// A deadline is scheduled one cooldown after the latest activity.
    Armed,
    /// The deadline has elapsed and the flush is running.
    Firing,
}

/// What can happen to the controller.
#[derive(Clone, Copy, Debug, PartialEq, Eq, Structural)]
pub enum Signal {
    /// An item was appended to the accumulator.
    Activity,
    /// The scheduled deadline ran out.
    Elapse,
    /// The flush that an elapse started has finished.
    Flushed,
    /// The pending deadline, if any, is to be dropped.
    Cancel,
}

/// What the runtime has to do in answer to a signal.
#[derive(Clone, Copy, Debug, PartialEq, Eq, Structural)]
pub enum Command {
    /// Nothing to do.
    Nothing,
    /// Cancel the pending deadline, if any, then schedule a fresh one a full
    /// cooldown from now.
    Rearm,
    /// Take the accumulator's contents as a batch, emit it, leave the
    /// accumulator empty.
    Flush,
}

/// The controller's answer to one signal.
#[derive(Clone, Copy, Debug, PartialEq, Eq, Structural)]
pub struct Transition {
    pub next: Phase,
    pub command: Command,
}

/// The transition table.
///
/// Activity always leads to `Armed` and asks for a re-arm, whatever came
/// before: that is the debounce reset. Only an armed deadline can elapse, and
/// only a running flush can finish; a cancel drops an armed deadline and is
/// otherwise a no-op. Every other pair leaves the phase alone and asks for
/// nothing.
pub open spec fn transition(phase: Phase, signal: Signal) -> Transition {
    match (signal, phase) {
        (Signal::Activity, _) => Transition { next: Phase::Armed, command: Command::Rearm },
        (Signal::Elapse, Phase::Armed) => Transition { next: Phase::Firing, command: Command::Flush },
        (Signal::Flushed, Phase::Firing) => Transition { next: Phase::Idle, command: Command::Nothing },
        (Signal::Cancel, Phase::Armed) => Transition { next: Phase::Idle, command: Command::Nothing },
        _ => Transition { next: phase, command: Command::Nothing },
    }
}

/// Answers one signal: the next phase and what the runtime must do.
pub fn step(phase: Phase, signal: Signal) -> (t: Transition)
    ensures
        t == transition(phase, signal),
{
    match signal {
        Signal::Activity => Transition { next: Phase::Armed, command: Command::Rearm },
        Signal::Elapse => match phase {
            Phase::Armed => Transition { next: Phase::Firing, command: Command::Flush },
            _ => Transition { next: phase, command: Command::Nothing },
        },
        Signal::Flushed => match phase {
            Phase::Firing => Transition { next: Phase::Idle, command: Command::Nothing },
            _ => Transition { next: phase, command: Command::Nothing },
        },
        Signal::Cancel => match phase {
            Phase::Armed => Transition { next: Phase::Idle, command: Command::Nothing },
            _ => Transition { next: phase, command: Command::Nothing },
        },
    }
}

} // verus!
