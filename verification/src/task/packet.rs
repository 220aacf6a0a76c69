//! Packets carry a task's intent to the scheduler across a context switch.

use vstd::prelude::*;
use crate::task::BlockCause;

verus! {

/// What a task tells the scheduler when it hands control back.
pub enum Packet<R> {
    /// The task wants to run again later.
    Yield,
    /// The task has registered itself as a waiter and must be parked.
    BlockOn(BlockCause),
    /// The task's function has returned this value.
    Result(Box<R>),
}

impl<R> Packet<R> {
    pub fn result(data: R) -> (p: Box<Self>)
        ensures
            *p == Packet::Result(Box::new(data)),
    {
        Box::new(Packet::Result(Box::new(data)))
    }

    pub fn _yield() -> (p: Box<Self>)
        ensures
            *p == Packet::<R>::Yield,
    {
        Box::new(Packet::Yield)
    }

    pub fn block_on(cause: BlockCause) -> (p: Box<Self>)
        ensures
            *p == Packet::<R>::BlockOn(cause),
    {
        Box::new(Packet::BlockOn(cause))
    }
}

} // verus!
