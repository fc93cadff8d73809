//! A first-in, first-out queue of fixed capacity.

use crate::capacity::{
    accepted_in_run, capacity_exceeded, capacity_exceeded_text, full, lemma_accepted_in_run,
    len_after_pop,
};
use crate::runs::{
    after_pop_front_run, lemma_front_pops_follow_back_pushes, pop_front_run, push_back_run,
};
use vstd::prelude::*;

verus! {

/// A queue that holds at most `cap` items. A new item enters at the start of
/// the buffer and the oldest item leaves from its end.
pub struct Queue<T> {
    cap: usize,
    data: Vec<T>,
}

impl<T> View for Queue<T> {
    type V = Seq<T>;

    /// The waiting items in order of arrival, the oldest first.
    closed spec fn view(&self) -> Seq<T> {
        self.data@.reverse()
    }
}

impl<T> Queue<T> {
    /// The largest number of items that the queue may hold.
    pub closed spec fn capacity(&self) -> nat {
        self.cap as nat
    }

    /// The queue never holds more items than its capacity.
    pub open spec fn well_formed(&self) -> bool {
        self@.len() <= self.capacity()
    }

    /// Whether the queue has no room for another item.
    pub open spec fn is_full(&self) -> bool {
        full(self@.len(), self.capacity())
    }

    /// An empty queue with room for `size` items.
    ///
    /// The buffer is reserved at once where the allocator grants it. Where it
    /// does not, the buffer grows as items arrive; the capacity is `size`
    /// either way.
    pub fn new(size: usize) -> (q: Self)
        ensures
            q.well_formed(),
            q.capacity() == size,
            q@ == Seq::<T>::empty(),
    {
        let mut data = Vec::new();
        let _ = data.try_reserve(size);
        Queue { cap: size, data }
    }

    /// Appends `item` behind the waiting items, unless the queue is full: then
    /// the queue stays as it is and the error is returned.
    pub fn push(&mut self, item: T) -> (result: Result<(), String>)
        requires
            old(self).well_formed(),
        ensures
            final(self).well_formed(),
            final(self).capacity() == old(self).capacity(),
            old(self).is_full() ==> final(self)@ == old(self)@ && (result matches Err(msg)
                && msg@ == capacity_exceeded_text()),
            !old(self).is_full() ==> final(self)@ == old(self)@.push(item) && result is Ok,
            result is Ok ==> final(self)@.len() == old(self)@.len() + 1,
    {
        if self.size() == self.cap {
            return Err(capacity_exceeded());
        }
        self.data.insert(0, item);
        Ok(())
    }

    /// Removes the oldest item and returns it, or returns `None` when the queue is empty.
    pub fn pop(&mut self) -> (item: Option<T>)
        requires
            old(self).well_formed(),
        ensures
            final(self).well_formed(),
            final(self).capacity() == old(self).capacity(),
            old(self)@.len() == 0 ==> item is None && final(self)@ == old(self)@,
            old(self)@.len() > 0 ==> item == Some(old(self)@.first()) && final(self)@ == old(
                self,
            )@.drop_first(),
            final(self)@.len() == len_after_pop(old(self)@.len()),
            final(self).capacity() > 0 ==> !final(self).is_full(),
    {
        if self.size() > 0 {
            self.data.pop()
        } else {
            None
        }
    }

    /// The oldest item, which the next `pop` returns, left in place, or `None`
    /// when the queue is empty.
    pub fn top(&self) -> (item: Option<&T>)
        ensures
            self@.len() == 0 ==> item is None,
            self@.len() > 0 ==> item == Some(&self@.first()),
    {
        self.data.last()
    }

    /// Whether no item is waiting.
    pub fn is_empty(&self) -> (empty: bool)
        ensures
            empty <==> self@.len() == 0,
    {
        self.size() == 0
    }

    /// The number of waiting items.
    pub fn size(&self) -> (n: usize)
        ensures
            n == self@.len(),
    {
        self.data.len()
    }

    /// The buffer as it lies in memory: the newest item first, the oldest last.
    pub fn as_slice(&self) -> (items: &[T])
        ensures
            items@ == self@.reverse(),
    {
        self.data.as_slice()
    }

    /// In a run of `count` pushes with no pop between them, the queue accepts
    /// the pushes for which it still has room and refuses every later one. A
    /// queue that starts empty so accepts as many pushes as its capacity and
    /// refuses the next.
    pub proof fn lemma_accepts_until_full(&self, count: nat)
        requires
            self.well_formed(),
        ensures
            accepted_in_run(self@.len(), self.capacity(), count).len() == count,
            forall|i: int|
                0 <= i < count ==> (#[trigger] accepted_in_run(
                    self@.len(),
                    self.capacity(),
                    count,
                )[i] <==> self@.len() + i < self.capacity()),
    {
        lemma_accepted_in_run(self@.len(), self.capacity(), count);
    }

    /// First in, first out: when `items` are pushed one by one into a queue
    /// that has room for them and the queue is then popped until it is empty,
    /// the pops return first the items that waited before and then `items`,
    /// each in the order of its arrival.
    pub proof fn lemma_round_trip(&self, items: Seq<T>)
        requires
            self.well_formed(),
            self@.len() + items.len() <= self.capacity(),
        ensures
            accepted_in_run(self@.len(), self.capacity(), items.len()) == Seq::new(
                items.len(),
                |i: int| true,
            ),
            pop_front_run(push_back_run(self@, items), self@.len() + items.len()) == self@
                + items,
            after_pop_front_run(push_back_run(self@, items), self@.len() + items.len())
                == Seq::<T>::empty(),
    {
        lemma_accepted_in_run(self@.len(), self.capacity(), items.len());
        assert(accepted_in_run(self@.len(), self.capacity(), items.len()) =~= Seq::new(
            items.len(),
            |i: int| true,
        ));
        lemma_front_pops_follow_back_pushes(self@, items);
    }
}

} // verus!
