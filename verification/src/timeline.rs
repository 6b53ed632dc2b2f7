//! What a whole schedule of timed submissions turns into: the batches that
//! have been emitted by a given instant, and what is still held back.

use crate::debouncer::Debouncer;
use crate::laws::conservation;
use vstd::prelude::*;

verus! {

/// One item and the instant, in ticks of the caller's clock, at which it was
/// submitted.
pub struct Arrival<T> {
    pub at: u64,
    pub item: T,
}

/// The outcome of replaying a schedule up to some instant.
pub struct Replay<T> {
    /// The batches emitted so far, in emission order.
    pub batches: Vec<Vec<T>>,
    /// The items accepted after the last emitted batch, still waiting for
    /// their cooldown to pass.
    pub held: Vec<T>,
}

/// The submitted items alone, in submission order.
pub open spec fn items<T>(arrivals: Seq<Arrival<T>>) -> Seq<T> {
    Seq::new(arrivals.len(), |i: int| arrivals[i].item)
}

/// The time between arrival `i` and the one before it.
pub open spec fn gap<T>(arrivals: Seq<Arrival<T>>, i: int) -> int {
    arrivals[i].at - arrivals[i - 1].at
}

/// Whether arrival `i` starts a new batch: it is the first of all, or it
/// came a cooldown or more after the one before it.
pub open spec fn opens_batch<T>(cooldown: u64, arrivals: Seq<Arrival<T>>, i: int) -> bool {
    i == 0 || gap(arrivals, i) >= cooldown
}

/// The arrivals cut into batches: a cut falls before every arrival that opens
/// a batch, and nowhere else.
pub open spec fn batches<T>(cooldown: u64, arrivals: Seq<Arrival<T>>) -> Seq<Seq<T>>
    decreases arrivals.len(),
{
    if arrivals.len() == 0 {
        Seq::empty()
    } else {
        let earlier = batches(cooldown, arrivals.drop_last());
        let item = arrivals.last().item;
        if opens_batch(cooldown, arrivals, arrivals.len() - 1) {
            earlier.push(seq![item])
        } else {
            earlier.drop_last().push(earlier.last().push(item))
        }
    }
}

/// Whether, at `now`, nothing is waiting any more: nothing was ever
/// submitted, or a cooldown or more has passed since the latest arrival.
pub open spec fn settled<T>(cooldown: u64, arrivals: Seq<Arrival<T>>, now: u64) -> bool {
    arrivals.len() == 0 || now - arrivals.last().at >= cooldown
}

/// The batches that have been emitted by `now`: all of them once the
/// schedule has settled, all but the last until then.
pub open spec fn emitted<T>(cooldown: u64, arrivals: Seq<Arrival<T>>, now: u64) -> Seq<Seq<T>> {
    if settled(cooldown, arrivals, now) {
        batches(cooldown, arrivals)
    } else {
        batches(cooldown, arrivals).drop_last()
    }
}

/// The items that are still held back at `now`: none once the schedule has
/// settled, the last batch until then.
pub open spec fn held<T>(cooldown: u64, arrivals: Seq<Arrival<T>>, now: u64) -> Seq<T> {
    if settled(cooldown, arrivals, now) {
        Seq::empty()
    } else {
        batches(cooldown, arrivals).last()
    }
}

/// Each batch as the sequence of its items.
pub open spec fn views<T>(batches: Seq<Vec<T>>) -> Seq<Seq<T>> {
    Seq::new(batches.len(), |k: int| batches[k]@)
}

/// Feeds the arrivals to a fresh debouncer in the order given, each at its
/// own instant, then lets the clock reach `until`.
pub fn replay<T>(cooldown: u64, arrivals: Vec<Arrival<T>>, until: u64) -> (outcome: Replay<T>)
    ensures
        views(outcome.batches@) == emitted(cooldown, arrivals@, until),
        outcome.held@ == held(cooldown, arrivals@, until),
        views(outcome.batches@).flatten() + outcome.held@ == items(arrivals@),
{
    let ghost all = arrivals@;
    let mut debouncer: Debouncer<T> = Debouncer::new(cooldown);
    let mut out: Vec<Vec<T>> = Vec::new();
    assert(views(out@) =~= Seq::<Seq<T>>::empty());
    for arrival in it: arrivals
        invariant
            it.seq() == all,
            debouncer.wf(),
            debouncer@.cooldown == cooldown,
            it.index() == 0 ==> out@.len() == 0 && debouncer@.pending.len() == 0,
            it.index() > 0 ==> {
                let seen = all.take(it.index());
                &&& views(out@) == batches(cooldown, seen).drop_last()
                &&& debouncer@.pending == batches(cooldown, seen).last()
                &&& debouncer@.last_activity == seen.last().at
                &&& batches(cooldown, seen).len() > 0
                &&& debouncer@.pending.len() > 0
            },
    {
        let ghost i = it.index();
        let ghost seen = all.take(i + 1);
        let ghost before = out@;
        let Arrival { at, item } = arrival;
        proof {
            assert(seen.drop_last() =~= all.take(i));
            assert(seen.last() == all[i]);
        }
        match debouncer.send(item, at) {
            Some(batch) => {
                out.push(batch);
                proof {
                    assert(views(out@) =~= views(before).push(batch@));
                    assert(batches(cooldown, seen).drop_last() =~= batches(
                        cooldown,
                        seen.drop_last(),
                    ));
                }
            },
            None => {
                proof {
                    if i > 0 {
                        assert(batches(cooldown, seen).drop_last() =~= batches(
                            cooldown,
                            seen.drop_last(),
                        ).drop_last());
                    } else {
                        assert(batches(cooldown, seen.drop_last()) =~= Seq::<Seq<T>>::empty());
                        assert(batches(cooldown, seen).drop_last() =~= Seq::<Seq<T>>::empty());
                        assert(views(out@) =~= Seq::<Seq<T>>::empty());
                        assert(debouncer@.pending =~= seq![item]);
                    }
                }
            },
        }
    }
    proof {
        assert(all.take(all.len() as int) =~= all);
    }
    let ghost before = out@;
    match debouncer.poll(until) {
        Some(batch) => {
            out.push(batch);
            proof {
                assert(views(out@) =~= views(before).push(batch@));
                assert(batches(cooldown, all) =~= batches(cooldown, all).drop_last().push(
                    batches(cooldown, all).last(),
                ));
            }
        },
        None => {
            proof {
                if all.len() == 0 {
                    assert(views(out@) =~= Seq::<Seq<T>>::empty());
                }
            }
        },
    }
    let held = debouncer.into_pending();
    proof {
        if settled(cooldown, all, until) {
            assert(held@ =~= Seq::<T>::empty());
        }
        conservation(cooldown, all, until);
    }
    Replay { batches: out, held }
}

} // verus!
