//! What holds of every schedule: where each item ends up, which arrivals
//! share a batch, where batches are cut, that nothing leaves early, and that
//! nothing is lost or doubled.

use crate::controller::{transition, Command, Phase, Signal, Transition};
use crate::timeline::{batches, emitted, gap, held, items, opens_batch, settled, Arrival};
use vstd::prelude::*;

verus! {

/// The index of the batch that holds arrival `i`: the number of arrivals
/// after the first, up to `i`, that open a batch.
pub open spec fn batch_of<T>(cooldown: u64, arrivals: Seq<Arrival<T>>, i: int) -> int
    decreases i,
{
    if i <= 0 {
        0
    } else if opens_batch(cooldown, arrivals, i) {
        batch_of(cooldown, arrivals, i - 1) + 1
    } else {
        batch_of(cooldown, arrivals, i - 1)
    }
}

/// The index of the arrival that opened the batch of arrival `i`.
pub open spec fn first_of<T>(cooldown: u64, arrivals: Seq<Arrival<T>>, i: int) -> int
    decreases i,
{
    if i <= 0 || opens_batch(cooldown, arrivals, i) {
        i
    } else {
        first_of(cooldown, arrivals, i - 1)
    }
}

/// The place of arrival `i` inside its batch.
pub open spec fn position<T>(cooldown: u64, arrivals: Seq<Arrival<T>>, i: int) -> int {
    i - first_of(cooldown, arrivals, i)
}

proof fn lemma_bounds<T>(cooldown: u64, arrivals: Seq<Arrival<T>>, i: int)
    requires
        0 <= i,
    ensures
        0 <= batch_of(cooldown, arrivals, i) <= i,
        0 <= first_of(cooldown, arrivals, i) <= i,
    decreases i,
{
    if i > 0 {
        lemma_bounds(cooldown, arrivals, i - 1);
    }
}

proof fn lemma_same_times<T>(cooldown: u64, a: Seq<Arrival<T>>, b: Seq<Arrival<T>>, i: int)
    requires
        0 <= i < a.len(),
        i < b.len(),
        forall|j: int| 0 <= j <= i ==> a[j].at == b[j].at,
    ensures
        batch_of(cooldown, a, i) == batch_of(cooldown, b, i),
        first_of(cooldown, a, i) == first_of(cooldown, b, i),
    decreases i,
{
    if i > 0 {
        lemma_same_times(cooldown, a, b, i - 1);
    }
}

proof fn lemma_shape<T>(cooldown: u64, arrivals: Seq<Arrival<T>>)
    requires
        arrivals.len() > 0,
    ensures
        batches(cooldown, arrivals).len() == batch_of(cooldown, arrivals, arrivals.len() - 1) + 1,
        batches(cooldown, arrivals).last().len() == arrivals.len() - first_of(
            cooldown,
            arrivals,
            arrivals.len() - 1,
        ),
    decreases arrivals.len(),
{
    let n = arrivals.len() as int;
    let prefix = arrivals.drop_last();
    if n > 1 {
        lemma_shape(cooldown, prefix);
        lemma_same_times(cooldown, prefix, arrivals, n - 2);
    } else {
        assert(batches(cooldown, prefix) =~= Seq::<Seq<T>>::empty());
    }
}

/// Every arrival has its place: arrival `i` stands in batch `batch_of(i)` at
/// `position(i)`, and that batch exists and is long enough.
pub proof fn placement<T>(cooldown: u64, arrivals: Seq<Arrival<T>>, i: int)
    requires
        0 <= i < arrivals.len(),
    ensures
        0 <= batch_of(cooldown, arrivals, i) < batches(cooldown, arrivals).len(),
        0 <= position(cooldown, arrivals, i) < batches(cooldown, arrivals)[batch_of(
            cooldown,
            arrivals,
            i,
        )].len(),
        batches(cooldown, arrivals)[batch_of(cooldown, arrivals, i)][position(
            cooldown,
            arrivals,
            i,
        )] == arrivals[i].item,
    decreases arrivals.len(),
{
    let n = arrivals.len() as int;
    let prefix = arrivals.drop_last();
    lemma_bounds(cooldown, arrivals, i);
    lemma_shape(cooldown, arrivals);
    if i < n - 1 {
        placement(cooldown, prefix, i);
        lemma_same_times(cooldown, prefix, arrivals, i);
        lemma_shape(cooldown, prefix);
        lemma_same_times(cooldown, prefix, arrivals, n - 2);
    }
}

proof fn lemma_monotone<T>(cooldown: u64, arrivals: Seq<Arrival<T>>, i: int, j: int)
    requires
        0 <= i <= j,
    ensures
        batch_of(cooldown, arrivals, i) <= batch_of(cooldown, arrivals, j),
    decreases j - i,
{
    if i < j {
        lemma_monotone(cooldown, arrivals, i, j - 1);
    }
}

proof fn lemma_closed<T>(cooldown: u64, arrivals: Seq<Arrival<T>>, i: int)
    requires
        0 <= i < arrivals.len() - 1,
        opens_batch(cooldown, arrivals, i + 1),
    ensures
        batches(cooldown, arrivals)[batch_of(cooldown, arrivals, i)].len() == position(
            cooldown,
            arrivals,
            i,
        ) + 1,
    decreases arrivals.len(),
{
    let n = arrivals.len() as int;
    let prefix = arrivals.drop_last();
    let earlier = batches(cooldown, prefix);
    let k = batch_of(cooldown, arrivals, i);
    lemma_bounds(cooldown, arrivals, i);
    lemma_shape(cooldown, prefix);
    lemma_same_times(cooldown, prefix, arrivals, n - 2);
    lemma_same_times(cooldown, prefix, arrivals, i);
    if i + 1 < n - 1 {
        assert(gap(prefix, i + 1) == gap(arrivals, i + 1));
        lemma_closed(cooldown, prefix, i);
        lemma_monotone(cooldown, arrivals, i + 1, n - 2);
        assert(k < earlier.len() - 1);
        assert(batches(cooldown, arrivals)[k] == earlier[k]);
    } else {
        assert(k == earlier.len() - 1);
        assert(batches(cooldown, arrivals)[k] == earlier.last());
    }
}

/// Coalescing. Arrivals `lo` to `hi` that follow one another by less than a
/// cooldown all stand in one batch, side by side and in submission order.
pub proof fn coalescing<T>(cooldown: u64, arrivals: Seq<Arrival<T>>, lo: int, hi: int)
    requires
        0 <= lo <= hi < arrivals.len(),
        forall|j: int| lo < j <= hi ==> #[trigger] gap(arrivals, j) < cooldown,
    ensures
        forall|j: int|
            lo <= j <= hi ==> {
                &&& #[trigger] batch_of(cooldown, arrivals, j) == batch_of(cooldown, arrivals, lo)
                &&& position(cooldown, arrivals, j) == position(cooldown, arrivals, lo) + (j - lo)
                &&& batches(cooldown, arrivals)[batch_of(cooldown, arrivals, lo)][position(
                    cooldown,
                    arrivals,
                    lo,
                ) + (j - lo)] == arrivals[j].item
            },
    decreases hi - lo,
{
    if lo < hi {
        coalescing(cooldown, arrivals, lo, hi - 1);
        assert(gap(arrivals, hi) < cooldown);
        assert(batch_of(cooldown, arrivals, hi) == batch_of(cooldown, arrivals, hi - 1));
        assert(first_of(cooldown, arrivals, hi) == first_of(cooldown, arrivals, hi - 1));
    }
    placement(cooldown, arrivals, hi);
    placement(cooldown, arrivals, lo);
}

/// Coalescing, for a whole schedule. When every arrival follows the one
/// before it by less than a cooldown, there is one batch and it holds every
/// item in submission order. It is emitted once the schedule has settled and
/// held back in full until then.
pub proof fn burst_is_one_batch<T>(cooldown: u64, arrivals: Seq<Arrival<T>>, now: u64)
    requires
        arrivals.len() > 0,
        forall|j: int| 0 < j < arrivals.len() ==> #[trigger] gap(arrivals, j) < cooldown,
    ensures
        batches(cooldown, arrivals) == seq![items(arrivals)],
        settled(cooldown, arrivals, now) ==> emitted(cooldown, arrivals, now) == seq![
            items(arrivals),
        ] && held(cooldown, arrivals, now) == Seq::<T>::empty(),
        !settled(cooldown, arrivals, now) ==> emitted(cooldown, arrivals, now) == Seq::<
            Seq<T>,
        >::empty() && held(cooldown, arrivals, now) == items(arrivals),
    decreases arrivals.len(),
{
    let prefix = arrivals.drop_last();
    if arrivals.len() > 1 {
        assert forall|j: int| 0 < j < prefix.len() implies #[trigger] gap(prefix, j) < cooldown by {
            assert(gap(arrivals, j) < cooldown);
        }
        burst_is_one_batch(cooldown, prefix, now);
        assert(gap(arrivals, arrivals.len() - 1) < cooldown);
        assert(items(arrivals) =~= items(prefix).push(arrivals.last().item));
        assert(batches(cooldown, arrivals) =~= seq![items(arrivals)]);
    } else {
        assert(batches(cooldown, prefix) =~= Seq::<Seq<T>>::empty());
        assert(items(arrivals) =~= seq![arrivals.last().item]);
        assert(batches(cooldown, arrivals) =~= seq![items(arrivals)]);
    }
    assert(seq![items(arrivals)].drop_last() =~= Seq::<Seq<T>>::empty());
}

/// Separation. An arrival that comes a cooldown or more after the one before
/// it starts a new batch, the next after the batch that the earlier arrival
/// ends.
pub proof fn separation<T>(cooldown: u64, arrivals: Seq<Arrival<T>>, i: int)
    requires
        0 < i < arrivals.len(),
        gap(arrivals, i) >= cooldown,
    ensures
        batch_of(cooldown, arrivals, i) == batch_of(cooldown, arrivals, i - 1) + 1,
        batch_of(cooldown, arrivals, i) < batches(cooldown, arrivals).len(),
        batches(cooldown, arrivals)[batch_of(cooldown, arrivals, i)].first() == arrivals[i].item,
        batches(cooldown, arrivals)[batch_of(cooldown, arrivals, i - 1)].last() == arrivals[i
            - 1].item,
{
    placement(cooldown, arrivals, i);
    placement(cooldown, arrivals, i - 1);
    lemma_closed(cooldown, arrivals, i - 1);
}

/// No premature flush. While less than a cooldown has passed since the most
/// recent arrival, nothing has been emitted since that arrival was accepted:
/// the batches emitted by `now` are those that were out at its instant.
pub proof fn no_premature_flush<T>(cooldown: u64, arrivals: Seq<Arrival<T>>, now: u64)
    requires
        arrivals.len() > 0,
        now - arrivals.last().at < cooldown,
    ensures
        emitted(cooldown, arrivals, now) == emitted(
            cooldown,
            arrivals.drop_last(),
            arrivals.last().at,
        ),
        held(cooldown, arrivals, now).len() > 0,
        held(cooldown, arrivals, now).last() == arrivals.last().item,
{
    let prefix = arrivals.drop_last();
    let earlier = batches(cooldown, prefix);
    if arrivals.len() > 1 {
        lemma_shape(cooldown, prefix);
        if opens_batch(cooldown, arrivals, arrivals.len() - 1) {
            assert(earlier.push(seq![arrivals.last().item]).drop_last() =~= earlier);
        } else {
            assert(earlier.drop_last().push(earlier.last().push(arrivals.last().item)).drop_last()
                =~= earlier.drop_last());
        }
    } else {
        assert(earlier =~= Seq::<Seq<T>>::empty());
        assert(earlier.push(seq![arrivals.last().item]).drop_last() =~= earlier);
    }
}

/// Conservation. The batches, laid end to end, are the submitted items in
/// submission order, so every item stands in exactly one batch, once. No
/// batch is empty. At every instant the emitted batches followed by what is
/// held back are all the items.
pub proof fn conservation<T>(cooldown: u64, arrivals: Seq<Arrival<T>>, now: u64)
    ensures
        batches(cooldown, arrivals).flatten() == items(arrivals),
        forall|k: int|
            0 <= k < batches(cooldown, arrivals).len() ==> (#[trigger] batches(
                cooldown,
                arrivals,
            )[k]).len() > 0,
        emitted(cooldown, arrivals, now).flatten() + held(cooldown, arrivals, now) == items(
            arrivals,
        ),
    decreases arrivals.len(),
{
    broadcast use Seq::lemma_flatten_push;

    let all = batches(cooldown, arrivals);
    if arrivals.len() == 0 {
        assert(all =~= Seq::<Seq<T>>::empty());
        assert(all.flatten() =~= items(arrivals));
    } else {
        let prefix = arrivals.drop_last();
        let earlier = batches(cooldown, prefix);
        let item = arrivals.last().item;
        conservation(cooldown, prefix, now);
        assert(items(arrivals) =~= items(prefix).push(item));
        if opens_batch(cooldown, arrivals, arrivals.len() - 1) {
            assert(all.flatten() =~= earlier.flatten() + seq![item]);
        } else {
            lemma_shape(cooldown, prefix);
            assert(earlier =~= earlier.drop_last().push(earlier.last()));
            assert(earlier.flatten() =~= earlier.drop_last().flatten() + earlier.last());
            assert(all.flatten() =~= earlier.drop_last().flatten() + earlier.last().push(item));
        }
        assert(all.flatten() =~= items(arrivals));
        assert(all =~= all.drop_last().push(all.last()));
        assert(all.flatten() =~= all.drop_last().flatten() + all.last());
    }
    assert(all.flatten() + Seq::<T>::empty() =~= all.flatten());
}

/// The debounce reset. Activity is a cancel followed by a fresh schedule:
/// whatever deadline stood before no longer counts.
pub proof fn activity_resets_the_deadline(phase: Phase)
    ensures
        transition(phase, Signal::Activity) == transition(
            transition(phase, Signal::Cancel).next,
            Signal::Activity,
        ),
        transition(phase, Signal::Activity) == (Transition {
            next: Phase::Armed,
            command: Command::Rearm,
        }),
{
}

/// Cancel idempotence. A cancel never asks for a flush, or for anything
/// else. With no deadline armed it changes nothing, and a second cancel
/// changes nothing after the first.
pub proof fn cancel_is_idempotent(phase: Phase)
    ensures
        transition(phase, Signal::Cancel).command == Command::Nothing,
        phase != Phase::Armed ==> transition(phase, Signal::Cancel).next == phase,
        transition(transition(phase, Signal::Cancel).next, Signal::Cancel) == transition(
            phase,
            Signal::Cancel,
        ),
{
}

} // verus!
