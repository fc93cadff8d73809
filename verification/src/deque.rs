//! A double-ended queue of fixed capacity.

use crate::capacity::{
    accepted_in_run, capacity_exceeded, capacity_exceeded_text, full, lemma_accepted_in_run,
    len_after_pop,
};
use crate::runs::{
    after_pop_back_run, lemma_back_pops_reverse_back_pushes, pop_back_run, push_back_run,
};
use vstd::prelude::*;

verus! {

/// A double-ended queue that holds at most `cap` items. The front is the start
/// of the buffer and the back is its end.
pub struct Deque<T> {
    cap: usize,
    data: Vec<T>,
}

impl<T> View for Deque<T> {
    type V = Seq<T>;

    /// The items from the front to the back.
    closed spec fn view(&self) -> Seq<T> {
        self.data@
    }
}

impl<T> Deque<T> {
    /// The largest number of items that the deque may hold.
    pub closed spec fn capacity(&self) -> nat {
        self.cap as nat
    }

    /// The deque never holds more items than its capacity.
    pub open spec fn well_formed(&self) -> bool {
        self@.len() <= self.capacity()
    }

    /// Whether the deque has no room for another item.
    pub open spec fn is_full(&self) -> bool {
        full(self@.len(), self.capacity())
    }

    /// An empty deque with room for `size` items.
    ///
    /// The buffer is reserved at once where the allocator grants it. Where it
    /// does not, the buffer grows as items arrive; the capacity is `size`
    /// either way.
    pub fn new(size: usize) -> (d: Self)
        ensures
            d.well_formed(),
            d.capacity() == size,
            d@ == Seq::<T>::empty(),
    {
        let mut data = Vec::new();
        let _ = data.try_reserve(size);
        Deque { cap: size, data }
    }

    /// Puts `item` before the front, unless the deque is full: then the deque
    /// stays as it is and the error is returned.
    pub fn push_front(&mut self, item: T) -> (result: Result<(), String>)
        requires
            old(self).well_formed(),
        ensures
            final(self).well_formed(),
            final(self).capacity() == old(self).capacity(),
            old(self).is_full() ==> final(self)@ == old(self)@ && (result matches Err(msg)
                && msg@ == capacity_exceeded_text()),
            !old(self).is_full() ==> final(self)@ == old(self)@.insert(0, item) && result is Ok,
            result is Ok ==> final(self)@.len() == old(self)@.len() + 1,
    {
        if self.size() == self.cap {
            return Err(capacity_exceeded());
        }
        self.data.insert(0, item);

        Ok(())
    }

    /// Puts `item` behind the back, unless the deque is full: then the deque
    /// stays as it is and the error is returned.
    pub fn push_back(&mut self, item: T) -> (result: Result<(), String>)
        requires
            old(self).well_formed(),
        ensures
            final(self).well_formed(),
            final(self).capacity() == old(self).capacity(),
            old(self).is_full() ==> final(self)@ == old(self)@ && (result matches Err(msg)
                && msg@ == capacity_exceeded_text()),
            !old(self).is_full() ==> final(self)@ == old(self)@.push(item) && result is Ok,
            result is Ok ==> final(self)@.len() == old(self)@.len() + 1,
    {
        if self.size() == self.cap {
            return Err(capacity_exceeded());
        }
        self.data.push(item);

        Ok(())
    }

    /// Removes the front item and returns it, or returns `None` when the deque is empty.
    pub fn pop_front(&mut self) -> (item: Option<T>)
        requires
            old(self).well_formed(),
        ensures
            final(self).well_formed(),
            final(self).capacity() == old(self).capacity(),
            old(self)@.len() == 0 ==> item is None && final(self)@ == old(self)@,
            old(self)@.len() > 0 ==> item == Some(old(self)@.first()) && final(self)@ == old(
                self,
            )@.drop_first(),
            final(self)@.len() == len_after_pop(old(self)@.len()),
            final(self).capacity() > 0 ==> !final(self).is_full(),
    {
        if self.data.is_empty() {
            None
        } else {
            Some(self.data.remove(0))
        }
    }

    /// Removes the back item and returns it, or returns `None` when the deque is empty.
    pub fn pop_back(&mut self) -> (item: Option<T>)
        requires
            old(self).well_formed(),
        ensures
            final(self).well_formed(),
            final(self).capacity() == old(self).capacity(),
            old(self)@.len() == 0 ==> item is None && final(self)@ == old(self)@,
            old(self)@.len() > 0 ==> item == Some(old(self)@.last()) && final(self)@ == old(
                self,
            )@.drop_last(),
            final(self)@.len() == len_after_pop(old(self)@.len()),
            final(self).capacity() > 0 ==> !final(self).is_full(),
    {
        if self.data.is_empty() {
            None
        } else {
            self.data.pop()
        }
    }

    /// The front item, left in place, or `None` when the deque is empty.
    pub fn front(&self) -> (item: Option<&T>)
        ensures
            self@.len() == 0 ==> item is None,
            self@.len() > 0 ==> item == Some(&self@.first()),
    {
        self.data.first()
    }

    /// The back item, left in place, or `None` when the deque is empty.
    pub fn back(&self) -> (item: Option<&T>)
        ensures
            self@.len() == 0 ==> item is None,
            self@.len() > 0 ==> item == Some(&self@.last()),
    {
        self.data.last()
    }

    /// Whether the deque holds no item.
    pub fn is_empty(&self) -> (empty: bool)
        ensures
            empty <==> self@.len() == 0,
    {
        self.data.is_empty()
    }

    /// The number of items in the deque.
    pub fn size(&self) -> (n: usize)
        ensures
            n == self@.len(),
    {
        self.data.len()
    }

    /// The items from the front to the back.
    pub fn as_slice(&self) -> (items: &[T])
        ensures
            items@ == self@,
    {
        self.data.as_slice()
    }

    /// In a run of `count` pushes, at whichever end and with no pop between
    /// them, the deque accepts the pushes for which it still has room and
    /// refuses every later one. A deque that starts empty so accepts as many
    /// pushes as its capacity and refuses the next.
    pub proof fn lemma_accepts_until_full(&self, count: nat)
        requires
            self.well_formed(),
        ensures
            accepted_in_run(self@.len(), self.capacity(), count).len() == count,
            forall|i: int|
                0 <= i < count ==> (#[trigger] accepted_in_run(
                    self@.len(),
                    self.capacity(),
                    count,
                )[i] <==> self@.len() + i < self.capacity()),
    {
        lemma_accepted_in_run(self@.len(), self.capacity(), count);
    }

    /// Last in, first out at the back: when `items` are pushed one by one
    /// behind the back of a deque that has room for them and the back is then
    /// popped as many times, the pops return `items` in reverse order and the
    /// deque is left as it was before the pushes.
    pub proof fn lemma_back_round_trip(&self, items: Seq<T>)
        requires
            self.well_formed(),
            self@.len() + items.len() <= self.capacity(),
        ensures
            accepted_in_run(self@.len(), self.capacity(), items.len()) == Seq::new(
                items.len(),
                |i: int| true,
            ),
            pop_back_run(push_back_run(self@, items), items.len()) == items.reverse(),
            after_pop_back_run(push_back_run(self@, items), items.len()) == self@,
    {
        lemma_accepted_in_run(self@.len(), self.capacity(), items.len());
        assert(accepted_in_run(self@.len(), self.capacity(), items.len()) =~= Seq::new(
            items.len(),
            |i: int| true,
        ));
        lemma_back_pops_reverse_back_pushes(self@, items);
    }
}

} // verus!
