//! A singly linked sequence with access by position.

use crate::runs::{lemma_push_back_run, push_back_run};
use vstd::prelude::*;

verus! {

/// One item of the sequence. A node owns the node after it, so the nodes form
/// a chain without cycles that ends where `next` is `None`.
struct Node<T> {
    elem: T,
    next: Link<T>,
}

type Link<T> = Option<Box<Node<T>>>;

/// The items reachable from `link`, in the order of the links.
spec fn chain<T>(link: Link<T>) -> Seq<T>
    decreases link,
{
    match link {
        None => Seq::empty(),
        Some(node) => seq![node.elem] + chain(node.next),
    }
}

impl<T> Node<T> {
    /// A node that holds `elem` and has no successor.
    fn new(elem: T) -> (node: Self)
        ensures
            node.elem == elem,
            node.next is None,
    {
        Self { elem, next: None }
    }
}

/// Walks `index` nodes down the chain that starts at `link` and returns the
/// link that leads to the rest. Whatever the caller stores in that link ends up
/// behind the first `index` items, which stay as they are.
fn link_at<T>(link: &mut Link<T>, index: usize) -> (slot: &mut Link<T>)
    requires
        index <= chain(*old(link)).len(),
    ensures
        chain(*slot) == chain(*old(link)).skip(index as int),
        chain(*final(link)) == chain(*old(link)).take(index as int) + chain(*final(slot)),
{
    let ghost items = chain(*link);
    let mut curr = link;
    let mut hops: usize = 0;
    while hops < index
        invariant
            hops <= index <= items.len(),
            chain(*curr) == items.skip(hops as int),
            chain(*final(link)) == items.take(hops as int) + chain(*final(curr)),
        decreases index - hops,
    {
        let ghost passed = *final(curr);
        match curr {
            Some(node) => {
                proof {
                    assert(items.skip(hops as int)[0] == node.elem);
                    assert(chain(node.next) =~= items.skip(hops as int).skip(1));
                }
                curr = &mut node.next;
                proof {
                    // The node just passed keeps its item; only its link is still open.
                    assert(items.take(hops as int) + chain(passed) =~= items.take(hops as int + 1)
                        + chain(*final(curr)));
                }
            },
            None => {},
        }
        hops += 1;
    }
    curr
}

/// A sequence of items, each held in a node that owns the node after it.
pub struct LVec<T> {
    size: usize,
    head: Link<T>,
}

impl<T> View for LVec<T> {
    type V = Seq<T>;

    /// The items from the first to the last.
    closed spec fn view(&self) -> Seq<T> {
        chain(self.head)
    }
}

impl<T: Copy> LVec<T> {
    /// The cached size equals the number of nodes reachable from the head.
    pub closed spec fn well_formed(&self) -> bool {
        self.size == chain(self.head).len()
    }

    /// The position at which `insert` puts an item when asked for `index`:
    /// `index` itself, or the end of the sequence when `index` lies beyond it.
    pub open spec fn insert_position(items: Seq<T>, index: usize) -> int {
        if index >= items.len() {
            items.len() as int
        } else {
            index as int
        }
    }

    /// An empty sequence.
    pub fn new() -> (l: Self)
        ensures
            l.well_formed(),
            l@ == Seq::<T>::empty(),
    {
        Self { size: 0, head: None }
    }

    /// Removes every item.
    pub fn clear(&mut self)
        ensures
            final(self).well_formed(),
            final(self)@ == Seq::<T>::empty(),
    {
        self.size = 0;
        self.head = None;
    }

    /// The number of items.
    pub fn len(&self) -> (n: usize)
        requires
            self.well_formed(),
        ensures
            n == self@.len(),
    {
        self.size
    }

    /// Whether the sequence holds no item.
    pub fn is_empty(&self) -> (empty: bool)
        requires
            self.well_formed(),
        ensures
            empty <==> self@.len() == 0,
    {
        self.size == 0
    }

    /// Appends `elem` behind the last item.
    pub fn push(&mut self, elem: T)
        requires
            old(self).well_formed(),
            old(self)@.len() < usize::MAX,
        ensures
            final(self).well_formed(),
            final(self)@ == old(self)@.push(elem),
    {
        let node = Node::new(elem);
        let tail = link_at(&mut self.head, self.size);
        *tail = Some(Box::new(node));
        proof {
            assert(chain(*tail) =~= seq![elem]) by {
                reveal_with_fuel(chain, 2);
            }
            assert(old(self)@.take(old(self)@.len() as int) + seq![elem] =~= old(self)@.push(
                elem,
            ));
        }
        self.size += 1;
    }

    /// Moves every item of `other`, in order, behind the last item of `self`.
    pub fn append(&mut self, other: &mut Self)
        requires
            old(self).well_formed(),
            old(other).well_formed(),
            old(self)@.len() + old(other)@.len() <= usize::MAX,
        ensures
            final(self).well_formed(),
            final(other).well_formed(),
            final(self)@ == old(self)@ + old(other)@,
            final(other)@ == Seq::<T>::empty(),
            final(other)@.len() == 0,
    {
        loop
            invariant
                self.well_formed(),
                self@ + chain(other.head) == old(self)@ + old(other)@,
                old(self)@.len() + old(other)@.len() <= usize::MAX,
            ensures
                other.head is None,
            decreases chain(other.head).len(),
        {
            match other.head.take() {
                Some(node) => {
                    proof {
                        assert(self@.push(node.elem) + chain(node.next) =~= self@ + (seq![
                            node.elem,
                        ] + chain(node.next)));
                    }
                    self.push(node.elem);
                    other.head = node.next;
                },
                None => {
                    break ;
                },
            }
        }
        other.clear()
    }

    /// Puts `elem` before the item that stands at `index`, or behind the last
    /// item when `index` is not a position of the sequence.
    pub fn insert(&mut self, index: usize, elem: T)
        requires
            old(self).well_formed(),
            old(self)@.len() < usize::MAX,
        ensures
            final(self).well_formed(),
            final(self)@ == old(self)@.insert(Self::insert_position(old(self)@, index), elem),
            final(self)@.len() == old(self)@.len() + 1,
            final(self)@[Self::insert_position(old(self)@, index)] == elem,
    {
        let mut index = index;
        if index >= self.size {
            index = self.size
        }
        let mut node = Node::new(elem);
        let slot = link_at(&mut self.head, index);
        node.next = slot.take();
        *slot = Some(Box::new(node));
        proof {
            assert(old(self)@.take(index as int) + (seq![elem] + old(self)@.skip(index as int))
                =~= old(self)@.insert(index as int, elem));
        }
        self.size += 1;
    }

    /// Removes the last item and returns it, or returns `None` when the sequence is empty.
    pub fn pop(&mut self) -> (elem: Option<T>)
        requires
            old(self).well_formed(),
        ensures
            final(self).well_formed(),
            old(self)@.len() == 0 ==> elem is None && final(self)@ == old(self)@,
            old(self)@.len() > 0 ==> elem == Some(old(self)@.last()) && final(self)@ == old(
                self,
            )@.drop_last(),
    {
        if self.size == 0 {
            return None;
        }
        self.remove(self.size - 1)
    }

    /// Removes the item at `index` and returns it, or returns `None` when
    /// `index` is not a position of the sequence.
    pub fn remove(&mut self, index: usize) -> (elem: Option<T>)
        requires
            old(self).well_formed(),
        ensures
            final(self).well_formed(),
            index >= old(self)@.len() ==> elem is None && final(self)@ == old(self)@,
            index < old(self)@.len() ==> elem == Some(old(self)@[index as int]) && final(self)@
                == old(self)@.remove(index as int),
            elem is Some ==> final(self)@.len() == old(self)@.len() - 1,
    {
        if index >= self.size {
            return None;
        }
        let slot = link_at(&mut self.head, index);
        let node = slot.take().unwrap();
        *slot = node.next;
        proof {
            assert(old(self)@.skip(index as int)[0] == node.elem);
            assert(chain(node.next) =~= old(self)@.skip(index as int).skip(1));
            assert(old(self)@.take(index as int) + old(self)@.skip(index as int + 1) =~= old(
                self,
            )@.remove(index as int));
        }
        self.size -= 1;

        Some(node.elem)
    }

    /// The items from the first to the last, copied into a vector.
    pub fn to_vec(&self) -> (items: Vec<T>)
        ensures
            items@ == self@,
    {
        let mut items = Vec::new();
        let mut curr = &self.head;
        loop
            invariant
                items@ + chain(*curr) == self@,
            ensures
                *curr is None,
            decreases chain(*curr).len(),
        {
            match curr {
                Some(node) => {
                    proof {
                        assert(items@.push(node.elem) + chain(node.next) =~= items@ + (seq![
                            node.elem,
                        ] + chain(node.next)));
                    }
                    items.push(node.elem);
                    curr = &node.next;
                },
                None => {
                    break ;
                },
            }
        }
        items
    }

    /// After `insert(index, elem)` the item at the position of the insertion
    /// is `elem`, the sequence is one item longer, and removing the item at
    /// that position again gives back the sequence as it was.
    pub proof fn lemma_insert_then_read(&self, index: usize, elem: T)
        ensures
            0 <= Self::insert_position(self@, index) <= self@.len(),
            index <= self@.len() ==> Self::insert_position(self@, index) == index,
            self@.insert(Self::insert_position(self@, index), elem)[Self::insert_position(
                self@,
                index,
            )] == elem,
            self@.insert(Self::insert_position(self@, index), elem).len() == self@.len() + 1,
            self@.insert(Self::insert_position(self@, index), elem).remove(
                Self::insert_position(self@, index),
            ) == self@,
    {
        let at = Self::insert_position(self@, index);
        assert(self@.insert(at, elem).remove(at) =~= self@);
    }

    /// Removing the item at a position of the sequence makes the sequence
    /// exactly one item shorter and leaves the other items in their order.
    pub proof fn lemma_remove_shrinks_by_one(&self, index: usize)
        requires
            index < self@.len(),
        ensures
            self@.remove(index as int).len() == self@.len() - 1,
            self@.remove(index as int) == self@.take(index as int) + self@.skip(index + 1),
    {
        assert(self@.remove(index as int) =~= self@.take(index as int) + self@.skip(index + 1));
    }

    /// Popping is removing at the last position: both return the last item and
    /// leave the items before it.
    pub proof fn lemma_pop_is_remove_last(&self)
        requires
            self@.len() > 0,
        ensures
            self@.last() == self@[self@.len() - 1],
            self@.drop_last() == self@.remove(self@.len() - 1),
    {
        assert(self@.drop_last() =~= self@.remove(self@.len() - 1));
    }

    /// What `append` makes of `self` is what pushing each item of `other` in
    /// order would make of it: the items of `self` followed by those of `other`.
    pub proof fn lemma_append_is_push_run(&self, other: &Self)
        ensures
            push_back_run(self@, other@) == self@ + other@,
            (self@ + other@).len() == self@.len() + other@.len(),
    {
        lemma_push_back_run(self@, other@);
    }
}

} // verus!
