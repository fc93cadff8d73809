//! An unbounded last-in, first-out stack.

use crate::runs::{
    after_pop_back_run, lemma_back_pops_reverse_back_pushes, pop_back_run, push_back_run,
};
use vstd::prelude::*;

verus! {

/// A stack kept in a growable buffer. The bottom of the stack is the start of
/// the buffer and the top is its end; `top` caches the number of items.
pub struct Stack<T> {
    top: usize,
    data: Vec<T>,
}

impl<T> View for Stack<T> {
    type V = Seq<T>;

    /// The items from the bottom of the stack to its top.
    closed spec fn view(&self) -> Seq<T> {
        self.data@
    }
}

impl<T> Stack<T> {
    /// The cached counter equals the number of items in the buffer.
    pub closed spec fn well_formed(&self) -> bool {
        self.top == self.data@.len()
    }

    /// An empty stack.
    pub fn new() -> (s: Self)
        ensures
            s.well_formed(),
            s@ == Seq::<T>::empty(),
    {
        Self { top: 0, data: Vec::new() }
    }

    /// Puts `item` on top of the stack.
    pub fn push(&mut self, item: T)
        requires
            old(self).well_formed(),
        ensures
            final(self).well_formed(),
            final(self)@ == old(self)@.push(item),
    {
        self.data.push(item);
        proof {
            // The length of a buffer fits in `usize`, so the counter has room for it.
            assert(self.data@.len() == self.data.len());
        }
        self.top += 1;
    }

    /// Takes the top item off the stack, or returns `None` when the stack is empty.
    pub fn pop(&mut self) -> (item: Option<T>)
        requires
            old(self).well_formed(),
        ensures
            final(self).well_formed(),
            old(self)@.len() == 0 ==> item is None && final(self)@ == old(self)@,
            old(self)@.len() > 0 ==> item == Some(old(self)@.last()) && final(self)@ == old(
                self,
            )@.drop_last(),
    {
        if self.top == 0 {
            return None;
        }
        self.top -= 1;
        self.data.pop()
    }

    /// The top item, left in place, or `None` when the stack is empty.
    pub fn top(&self) -> (item: Option<&T>)
        requires
            self.well_formed(),
        ensures
            self@.len() == 0 ==> item is None,
            self@.len() > 0 ==> item == Some(&self@.last()),
    {
        if self.top == 0 {
            None
        } else {
            self.data.get(self.top - 1)
        }
    }

    /// Whether the stack holds no item.
    pub fn is_empty(&self) -> (empty: bool)
        requires
            self.well_formed(),
        ensures
            empty <==> self@.len() == 0,
    {
        self.top == 0
    }

    /// The number of items on the stack.
    pub fn size(&self) -> (n: usize)
        requires
            self.well_formed(),
        ensures
            n == self@.len(),
    {
        self.top
    }

    /// The items from the bottom of the stack to its top.
    pub fn as_slice(&self) -> (items: &[T])
        ensures
            items@ == self@,
    {
        self.data.as_slice()
    }

    /// Last in, first out: when `items` are pushed one by one and the stack is
    /// then popped as many times, the pops return `items` in reverse order and
    /// the stack is left as it was before the pushes.
    pub proof fn lemma_round_trip(&self, items: Seq<T>)
        ensures
            pop_back_run(push_back_run(self@, items), items.len()) == items.reverse(),
            after_pop_back_run(push_back_run(self@, items), items.len()) == self@,
    {
        lemma_back_pops_reverse_back_pushes(self@, items);
    }
}

} // verus!
