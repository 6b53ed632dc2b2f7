//! The engine driven by a clock that the caller reads: every item comes with
//! the instant of its submission, and a batch comes due once a full cooldown
//! has passed since the latest one.

use crate::controller::Phase;
use crate::engine::Engine;
use vstd::prelude::*;

verus! {

/// What a debouncer is, to a specification.
pub struct DebouncerView<T> {
    /// The quiet interval, in ticks of the caller's clock, that must follow
    /// the latest item before a batch is emitted.
    pub cooldown: u64,
    /// The items accepted since the last flush, oldest first.
    pub pending: Seq<T>,
    /// The instant of the most recent accepted item. It means nothing while
    /// nothing is pending.
    pub last_activity: u64,
}

impl<T> DebouncerView<T> {
    /// Whether a batch is due at `now`: something is pending, and at least a
    /// cooldown has passed since the most recent accepted item.
    pub open spec fn due(self, now: u64) -> bool {
        self.pending.len() > 0 && now - self.last_activity >= self.cooldown
    }
}

/// An engine together with the cooldown and the instant of the latest
/// activity, from which its one deadline follows.
pub struct Debouncer<T> {
    engine: Engine<T>,
    cooldown: u64,
    last_activity: u64,
}

impl<T> View for Debouncer<T> {
    type V = DebouncerView<T>;

    closed spec fn view(&self) -> DebouncerView<T> {
        DebouncerView {
            cooldown: self.cooldown,
            pending: self.engine@.pending,
            last_activity: self.last_activity,
        }
    }
}

impl<T> Debouncer<T> {
    /// The engine inside is well formed and its egress is open: batches are
    /// handed straight to the caller, so there is no consumer to lose.
    pub closed spec fn wf(&self) -> bool {
        self.engine.wf() && self.engine@.open
    }

    /// A debouncer that holds nothing.
    pub fn new(cooldown: u64) -> (debouncer: Self)
        ensures
            debouncer.wf(),
            debouncer@ == (DebouncerView {
                cooldown,
                pending: Seq::<T>::empty(),
                last_activity: 0,
            }),
    {
        Debouncer { engine: Engine::new(), cooldown, last_activity: 0 }
    }

    /// Lets the clock reach `now`. Emits what is pending as one batch if it
    /// has come due, and only then: no batch leaves while less than a
    /// cooldown has passed since the most recent accepted item.
    pub fn poll(&mut self, now: u64) -> (batch: Option<Vec<T>>)
        requires
            old(self).wf(),
        ensures
            final(self).wf(),
            batch.is_some() ==> now - old(self)@.last_activity >= old(self)@.cooldown,
            old(self)@.due(now) ==> batch.is_some() && batch.unwrap()@ == old(self)@.pending
                && final(self)@ == (DebouncerView { pending: Seq::<T>::empty(), ..old(self)@ }),
            !old(self)@.due(now) ==> batch.is_none() && final(self)@ == old(self)@,
    {
        if self.is_due(now) {
            self.engine.elapse()
        } else {
            None
        }
    }

    /// Accepts `item` at `now`. If what was pending had come due by then, it
    /// is emitted first and the item starts the next batch; otherwise the item
    /// joins what is pending. Either way the deadline moves to one cooldown
    /// after `now`.
    pub fn send(&mut self, item: T, now: u64) -> (batch: Option<Vec<T>>)
        requires
            old(self).wf(),
        ensures
            final(self).wf(),
            final(self)@.cooldown == old(self)@.cooldown,
            final(self)@.last_activity == now,
            batch.is_some() ==> now - old(self)@.last_activity >= old(self)@.cooldown,
            old(self)@.due(now) ==> batch.is_some() && batch.unwrap()@ == old(self)@.pending
                && final(self)@.pending == seq![item],
            !old(self)@.due(now) ==> batch.is_none() && final(self)@.pending == old(
                self,
            )@.pending.push(item),
    {
        let batch = self.poll(now);
        let _ = self.engine.accept(item);
        self.last_activity = now;
        batch
    }

    /// Gives up the debouncer for what it still holds. This is no flush: the
    /// items were never emitted as a batch.
    pub fn into_pending(self) -> (items: Vec<T>)
        ensures
            items@ == self@.pending,
    {
        self.engine.into_pending()
    }

    /// The quiet interval that must follow the latest item.
    pub fn cooldown(&self) -> (cooldown: u64)
        ensures
            cooldown == self@.cooldown,
    {
        self.cooldown
    }

    /// How many items are pending.
    pub fn len(&self) -> (n: usize)
        ensures
            n == self@.pending.len(),
    {
        self.engine.len()
    }

    /// Whether nothing is pending.
    pub fn is_empty(&self) -> (empty: bool)
        ensures
            empty == (self@.pending.len() == 0),
    {
        self.engine.is_empty()
    }

    /// Whether a batch is due at `now`.
    pub fn is_due(&self, now: u64) -> (due: bool)
        requires
            self.wf(),
        ensures
            due == self@.due(now),
    {
        match self.engine.phase() {
            Phase::Armed => now >= self.last_activity && now - self.last_activity >= self.cooldown,
            _ => false,
        }
    }
}

} // verus!
