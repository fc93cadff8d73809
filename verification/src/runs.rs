//! Runs of pushes and pops on a sequence of items, and the order in which the
//! items come back.
//!
//! A container's operations are specified one call at a time. The functions
//! here put those single steps in a row, so that what holds of a whole run can
//! be stated and proved once for every container that takes the same steps.

use vstd::prelude::*;

verus! {

/// The items after each of `items` was pushed behind the back of `start`, the
/// first of them first.
pub open spec fn push_back_run<T>(start: Seq<T>, items: Seq<T>) -> Seq<T>
    decreases items.len(),
{
    if items.len() == 0 {
        start
    } else {
        push_back_run(start.push(items.first()), items.drop_first())
    }
}

/// The items after each of `items` was pushed before the front of `start`, the
/// first of them first.
pub open spec fn push_front_run<T>(start: Seq<T>, items: Seq<T>) -> Seq<T>
    decreases items.len(),
{
    if items.len() == 0 {
        start
    } else {
        push_front_run(start.insert(0, items.first()), items.drop_first())
    }
}

/// What `count` pops at the back of `start` return, the first pop first. A pop
/// from an empty sequence returns nothing.
pub open spec fn pop_back_run<T>(start: Seq<T>, count: nat) -> Seq<T>
    decreases count,
{
    if count == 0 || start.len() == 0 {
        Seq::empty()
    } else {
        seq![start.last()] + pop_back_run(start.drop_last(), (count - 1) as nat)
    }
}

/// The items that `count` pops at the back of `start` leave behind.
pub open spec fn after_pop_back_run<T>(start: Seq<T>, count: nat) -> Seq<T>
    decreases count,
{
    if count == 0 || start.len() == 0 {
        start
    } else {
        after_pop_back_run(start.drop_last(), (count - 1) as nat)
    }
}

/// What `count` pops at the front of `start` return, the first pop first. A
/// pop from an empty sequence returns nothing.
pub open spec fn pop_front_run<T>(start: Seq<T>, count: nat) -> Seq<T>
    decreases count,
{
    if count == 0 || start.len() == 0 {
        Seq::empty()
    } else {
        seq![start.first()] + pop_front_run(start.drop_first(), (count - 1) as nat)
    }
}

/// The items that `count` pops at the front of `start` leave behind.
pub open spec fn after_pop_front_run<T>(start: Seq<T>, count: nat) -> Seq<T>
    decreases count,
{
    if count == 0 || start.len() == 0 {
        start
    } else {
        after_pop_front_run(start.drop_first(), (count - 1) as nat)
    }
}

/// A run of one push or of one pop is the single step that the containers'
/// contracts speak of.
pub proof fn lemma_single_steps<T>(start: Seq<T>, item: T)
    ensures
        push_back_run(start, seq![item]) == start.push(item),
        push_front_run(start, seq![item]) == start.insert(0, item),
        start.len() > 0 ==> pop_back_run(start, 1) == seq![start.last()] && after_pop_back_run(
            start,
            1,
        ) == start.drop_last(),
        start.len() > 0 ==> pop_front_run(start, 1) == seq![start.first()]
            && after_pop_front_run(start, 1) == start.drop_first(),
        start.len() == 0 ==> pop_back_run(start, 1) == Seq::<T>::empty() && after_pop_back_run(
            start,
            1,
        ) == start,
        start.len() == 0 ==> pop_front_run(start, 1) == Seq::<T>::empty()
            && after_pop_front_run(start, 1) == start,
{
    reveal_with_fuel(push_back_run, 2);
    reveal_with_fuel(push_front_run, 2);
    reveal_with_fuel(pop_back_run, 2);
    reveal_with_fuel(pop_front_run, 2);
    reveal_with_fuel(after_pop_back_run, 2);
    reveal_with_fuel(after_pop_front_run, 2);
    assert(seq![item].first() == item);
    assert(seq![item].drop_first().len() == 0);
    if start.len() > 0 {
        assert(seq![start.last()] + Seq::<T>::empty() =~= seq![start.last()]);
        assert(seq![start.first()] + Seq::<T>::empty() =~= seq![start.first()]);
    }
}

/// Pushing items behind the back one by one appends them in the order given.
pub proof fn lemma_push_back_run<T>(start: Seq<T>, items: Seq<T>)
    ensures
        push_back_run(start, items) == start + items,
    decreases items.len(),
{
    if items.len() > 0 {
        lemma_push_back_run(start.push(items.first()), items.drop_first());
        assert(start.push(items.first()) + items.drop_first() =~= start + items);
    } else {
        assert(start + items =~= start);
    }
}

/// Pushing items before the front one by one puts them before the others in
/// the reverse of the order given.
pub proof fn lemma_push_front_run<T>(start: Seq<T>, items: Seq<T>)
    ensures
        push_front_run(start, items) == items.reverse() + start,
    decreases items.len(),
{
    if items.len() > 0 {
        lemma_push_front_run(start.insert(0, items.first()), items.drop_first());
        assert(items.drop_first().reverse() + start.insert(0, items.first()) =~= items.reverse()
            + start);
    } else {
        assert(items.reverse() + start =~= start);
    }
}

/// Pops at the back return the last `count` items, the last of them first, and
/// leave the others as they were.
pub proof fn lemma_pop_back_run<T>(start: Seq<T>, count: nat)
    requires
        count <= start.len(),
    ensures
        pop_back_run(start, count) == start.skip(start.len() - count).reverse(),
        after_pop_back_run(start, count) == start.take(start.len() - count),
    decreases count,
{
    if count == 0 || start.len() == 0 {
        assert(start.skip(start.len() - count).reverse() =~= Seq::<T>::empty());
        assert(start.take(start.len() - count) =~= start);
    } else {
        let rest = start.drop_last();
        lemma_pop_back_run(rest, (count - 1) as nat);
        assert(seq![start.last()] + rest.skip(rest.len() - (count - 1)).reverse() =~= start.skip(
            start.len() - count,
        ).reverse());
        assert(rest.take(rest.len() - (count - 1)) =~= start.take(start.len() - count));
    }
}

/// Pops at the front return the first `count` items in their order and leave
/// the others as they were.
pub proof fn lemma_pop_front_run<T>(start: Seq<T>, count: nat)
    requires
        count <= start.len(),
    ensures
        pop_front_run(start, count) == start.take(count as int),
        after_pop_front_run(start, count) == start.skip(count as int),
    decreases count,
{
    if count == 0 || start.len() == 0 {
        assert(start.take(count as int) =~= Seq::<T>::empty());
        assert(start.skip(count as int) =~= start);
    } else {
        let rest = start.drop_first();
        lemma_pop_front_run(rest, (count - 1) as nat);
        assert(seq![start.first()] + rest.take(count - 1) =~= start.take(count as int));
        assert(rest.skip(count - 1) =~= start.skip(count as int));
    }
}

/// Last in, first out at the back: as many pops as there were pushes return
/// the pushed items in reverse order and leave what was there before.
pub proof fn lemma_back_pops_reverse_back_pushes<T>(start: Seq<T>, items: Seq<T>)
    ensures
        pop_back_run(push_back_run(start, items), items.len()) == items.reverse(),
        after_pop_back_run(push_back_run(start, items), items.len()) == start,
{
    let filled = start + items;
    lemma_push_back_run(start, items);
    lemma_pop_back_run(filled, items.len());
    assert(filled.skip(filled.len() - items.len()) =~= items);
    assert(filled.take(filled.len() - items.len()) =~= start);
}

/// Last in, first out at the front: as many pops as there were pushes return
/// the pushed items in reverse order and leave what was there before.
pub proof fn lemma_front_pops_reverse_front_pushes<T>(start: Seq<T>, items: Seq<T>)
    ensures
        pop_front_run(push_front_run(start, items), items.len()) == items.reverse(),
        after_pop_front_run(push_front_run(start, items), items.len()) == start,
{
    let filled = items.reverse() + start;
    lemma_push_front_run(start, items);
    lemma_pop_front_run(filled, items.len());
    assert(filled.take(items.len() as int) =~= items.reverse());
    assert(filled.skip(items.len() as int) =~= start);
}

/// First in, first out: after pushes behind the back, pops at the front return
/// first what was there before and then the pushed items, each in the order of
/// its arrival.
pub proof fn lemma_front_pops_follow_back_pushes<T>(start: Seq<T>, items: Seq<T>)
    ensures
        pop_front_run(push_back_run(start, items), start.len() + items.len()) == start + items,
        after_pop_front_run(push_back_run(start, items), start.len() + items.len())
            == Seq::<T>::empty(),
{
    let filled = start + items;
    lemma_push_back_run(start, items);
    lemma_pop_front_run(filled, start.len() + items.len());
    assert(filled.take(filled.len() as int) =~= filled);
    assert(filled.skip(filled.len() as int) =~= Seq::<T>::empty());
}

} // verus!
