//! What the bounded containers share: when one of them is full, which pushes
//! of a run it accepts, and the error with which it refuses the others.

use vstd::prelude::*;

verus! {

/// The text of the error that a full container answers a push with.
pub open spec fn capacity_exceeded_text() -> Seq<char> {
    "Queue is full"@
}

/// The error that a full container answers a push with.
pub fn capacity_exceeded() -> (msg: String)
    ensures
        msg@ == capacity_exceeded_text(),
{
    "Queue is full".to_string()
}

/// Whether a container that holds `len` items and has room for `capacity` is
/// full. A full container refuses every push; any other accepts one.
pub open spec fn full(len: nat, capacity: nat) -> bool {
    len >= capacity
}

/// Which pushes of a run of `count` pushes are accepted, the first push first,
/// when the container holds `len` items before the run and nothing is popped
/// during it. An accepted push adds one item; a refused push adds none.
pub open spec fn accepted_in_run(len: nat, capacity: nat, count: nat) -> Seq<bool>
    decreases count,
{
    if count == 0 {
        Seq::empty()
    } else if full(len, capacity) {
        seq![false] + accepted_in_run(len, capacity, (count - 1) as nat)
    } else {
        seq![true] + accepted_in_run(len + 1, capacity, (count - 1) as nat)
    }
}

/// In a run of pushes, a container accepts exactly those for which it still
/// has room: the first `capacity - len` of them. It refuses every later one.
pub proof fn lemma_accepted_in_run(len: nat, capacity: nat, count: nat)
    requires
        len <= capacity,
    ensures
        accepted_in_run(len, capacity, count).len() == count,
        forall|i: int|
            0 <= i < count ==> (#[trigger] accepted_in_run(len, capacity, count)[i] <==> len + i
                < capacity),
    decreases count,
{
    if count > 0 {
        if full(len, capacity) {
            lemma_accepted_in_run(len, capacity, (count - 1) as nat);
        } else {
            lemma_accepted_in_run(len + 1, capacity, (count - 1) as nat);
        }
    }
}

/// A container that is filled from empty accepts as many pushes as its
/// capacity and refuses the one after them.
pub proof fn lemma_full_after_capacity_pushes(capacity: nat)
    ensures
        accepted_in_run(0, capacity, capacity + 1) == Seq::new(capacity, |i: int| true).push(
            false,
        ),
{
    lemma_accepted_in_run(0, capacity, capacity + 1);
    assert(accepted_in_run(0, capacity, capacity + 1) =~= Seq::new(capacity, |i: int| true).push(
        false,
    ));
}

/// The number of items that a pop leaves in a container that held `len`: one
/// fewer, or none as before when there was none to pop.
pub open spec fn len_after_pop(len: nat) -> nat {
    if len == 0 {
        0
    } else {
        (len - 1) as nat
    }
}

/// After any pop a container has room for one more item, whether or not the
/// pop found an item to return. Only a container without any capacity stays
/// full: it is empty and full at once.
pub proof fn lemma_room_after_pop(len: nat, capacity: nat)
    requires
        len <= capacity,
        capacity > 0,
    ensures
        !full(len_after_pop(len), capacity),
        accepted_in_run(len_after_pop(len), capacity, 1) == seq![true],
{
    lemma_accepted_in_run(len_after_pop(len), capacity, 1);
    assert(accepted_in_run(len_after_pop(len), capacity, 1) =~= seq![true]);
}

} // verus!
