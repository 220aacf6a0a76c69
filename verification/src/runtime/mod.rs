//! The runtime owns every task and mediates every context switch.
//!
//! A switch is performed by the embedding program. The runtime decides what
//! is switched to and with which payload, and records what came back.

use vstd::prelude::*;
use crate::task::packet::Packet;
use crate::task::BlockCause;
use crate::runtime::runtime::RuntimeView;

pub mod runtime;

verus! {

/// The payload a freshly primed task sends back to acknowledge that it has
/// taken its closure.
pub const INIT_ACK: usize = 42;

/// A context together with the word-sized payload handed over with it.
pub struct Transfer<C> {
    pub context: C,
    pub data: usize,
}

/// What a task hands to the scheduler when it gives up control: the context
/// to switch to and the packet that says why.
pub struct Handoff<C, R> {
    pub context: C,
    pub packet: Box<Packet<R>>,
}

/// The outcome of an operation that may have to suspend its caller.
pub enum Poll<T, K, C, R> {
    /// The operation is complete.
    Ready(T),
    /// The caller must perform this hand-off. The first field is what the
    /// caller keeps in order to go on once it runs again; how to go on is
    /// the operation's to say.
    Pending(K, Handoff<C, R>),
}

/// `to_base` is the hand-off by which the task executing in `pre` gives up
/// control with `packet`, and `post` is the runtime once it is made.
pub open spec fn hands_off<C, R>(
    pre: RuntimeView<C, R>,
    post: RuntimeView<C, R>,
    to_base: Handoff<C, R>,
    packet: Packet<R>,
) -> bool {
    &&& pre.base is Some
    &&& to_base.context == pre.base->0
    &&& *to_base.packet == packet
    &&& post == (RuntimeView { base: None, ..pre })
}

/// `to_base` is the hand-off by which the task executing in `pre` parks on
/// `cause`, and `post` is the runtime once it is made.
pub open spec fn parks<C, R>(
    pre: RuntimeView<C, R>,
    post: RuntimeView<C, R>,
    to_base: Handoff<C, R>,
    cause: BlockCause,
) -> bool {
    hands_off(pre, post, to_base, Packet::BlockOn(cause))
}

/// What the scheduler does in one turn of its drain loop.
pub enum Step<C> {
    /// Switch to the context handed out.
    Resume(Transfer<C>),
    /// Nothing is runnable, but parked tasks remain: turn again.
    Idle,
    /// Nothing is runnable and nothing is parked: the loop ends.
    Done,
}

} // verus!
