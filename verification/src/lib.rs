//! Small linear containers with machine-checked contracts.
//!
//! - [`deque::Deque`]: a double-ended queue of fixed capacity.
//! - [`queue::Queue`]: a first-in, first-out queue of fixed capacity.
//! - [`stack::Stack`]: a last-in, first-out stack without a bound.
//! - [`lvec::LVec`]: a singly linked sequence with access by position.
//!
//! Each container is viewed as the mathematical sequence of its items, and the
//! contract of each operation says what the operation returns and what it makes
//! of that sequence. A container is `well_formed` from its construction on, and
//! every operation keeps it so.
//!
//! [`capacity`] holds what the bounded containers share, and [`runs`] what
//! holds of pushes and pops in a row: the order in which the items come back.

pub mod capacity;
pub mod deque;
pub mod lvec;
pub mod queue;
pub mod runs;
pub mod stack;
