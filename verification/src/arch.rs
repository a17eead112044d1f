//! What differs from one kind of target to the next: how the executor is
//! told that there is work, and what it does while there is none.

pub mod tock;
