//! The accumulator and the phase of its flush controller, as one value that
//! the ingestion side and the timer's callback share under a single lock.

use crate::controller::{step, Command, Phase, Signal};
use vstd::prelude::*;

verus! {

/// An item that was not accepted because no consumer is left to receive it.
/// The item is handed back.
pub struct SendFailure<T>(pub T);

/// What an engine is, to a specification.
pub struct EngineView<T> {
    /// The items accepted since the last flush, oldest first.
    pub pending: Seq<T>,
    /// The phase of the flush controller.
    pub phase: Phase,
    /// Whether batches can still reach a consumer.
    pub open: bool,
}

/// The accumulator together with the phase of its flush controller.
pub struct Engine<T> {
    pending: Vec<T>,
    phase: Phase,
    open: bool,
}

impl<T> View for Engine<T> {
    type V = EngineView<T>;

    closed spec fn view(&self) -> EngineView<T> {
        EngineView { pending: self.pending@, phase: self.phase, open: self.open }
    }
}

impl<T> Engine<T> {
    /// Between two operations the controller is never mid-flush, and a
    /// deadline is pending exactly when the accumulator holds something.
    pub open spec fn wf(&self) -> bool {
        &&& self@.phase != Phase::Firing
        &&& self@.phase == Phase::Armed <==> self@.pending.len() > 0
    }

    /// An empty accumulator with no deadline pending and the egress open.
    pub fn new() -> (engine: Self)
        ensures
            engine.wf(),
            engine@ == (EngineView { pending: Seq::<T>::empty(), phase: Phase::Idle, open: true }),
    {
        Engine { pending: Vec::new(), phase: Phase::Idle, open: true }
    }

    /// Takes one item in: appends it behind everything accepted before and
    /// asks for the deadline to be re-armed. Once the egress is closed the
    /// item is handed back instead and nothing changes.
    pub fn accept(&mut self, item: T) -> (admitted: Result<Command, SendFailure<T>>)
        requires
            old(self).wf(),
        ensures
            final(self).wf(),
            old(self)@.open ==> admitted == Ok::<Command, SendFailure<T>>(Command::Rearm)
                && final(self)@ == (EngineView {
                pending: old(self)@.pending.push(item),
                phase: Phase::Armed,
                open: true,
            }),
            !old(self)@.open ==> admitted == Err::<Command, SendFailure<T>>(SendFailure(item))
                && final(self)@ == old(self)@,
    {
        if !self.open {
            return Err(SendFailure(item));
        }
        let t = step(self.phase, Signal::Activity);
        self.pending.push(item);
        self.phase = t.next;
        Ok(t.command)
    }

    /// The deadline ran out: takes the accumulator's contents as the batch
    /// and leaves the accumulator empty and the controller idle, in one step.
    /// A fire that finds nothing accumulated emits nothing.
    pub fn elapse(&mut self) -> (batch: Option<Vec<T>>)
        requires
            old(self).wf(),
        ensures
            final(self).wf(),
            final(self)@ == (EngineView {
                pending: Seq::<T>::empty(),
                phase: Phase::Idle,
                open: old(self)@.open,
            }),
            old(self)@.pending.len() > 0 ==> batch.is_some() && batch.unwrap()@ == old(
                self,
            )@.pending,
            old(self)@.pending.len() == 0 ==> batch.is_none(),
    {
        let fired = step(self.phase, Signal::Elapse);
        match fired.command {
            Command::Flush => {
                let mut batch: Vec<T> = Vec::new();
                core::mem::swap(&mut self.pending, &mut batch);
                self.phase = step(fired.next, Signal::Flushed).next;
                Some(batch)
            },
            _ => {
                assert(self.pending@ =~= Seq::<T>::empty());
                None
            },
        }
    }

    /// Gives up the engine for what it still holds. This is no flush: the
    /// items were never emitted as a batch.
    pub fn into_pending(self) -> (items: Vec<T>)
        ensures
            items@ == self@.pending,
    {
        self.pending
    }

    /// Records that no consumer is left: from now on every item is refused.
    /// What is accumulated stays as it is.
    pub fn close(&mut self)
        requires
            old(self).wf(),
        ensures
            final(self).wf(),
            final(self)@ == (EngineView { open: false, ..old(self)@ }),
    {
        self.open = false;
    }

    /// The phase of the flush controller.
    pub fn phase(&self) -> (phase: Phase)
        ensures
            phase == self@.phase,
    {
        self.phase
    }

    /// Whether batches can still reach a consumer.
    pub fn is_open(&self) -> (open: bool)
        ensures
            open == self@.open,
    {
        self.open
    }

    /// How many items are accumulated.
    pub fn len(&self) -> (n: usize)
        ensures
            n == self@.pending.len(),
    {
        self.pending.len()
    }

    /// Whether nothing is accumulated.
    pub fn is_empty(&self) -> (empty: bool)
        ensures
            empty == (self@.pending.len() == 0),
    {
        self.pending.len() == 0
    }
}

} // verus!
