//! A cooperative, single-threaded fiber runtime and its synchronization
//! primitives, written as verified state machines.
//!
//! Every suspension point is a function from the current state to the next
//! state and the hand-off to perform; the machine context switch itself is
//! left to the embedding program.

pub mod runtime;
pub mod task;
pub mod sync;
