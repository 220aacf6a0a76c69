//! Task management: identities, states and the packets a task hands to the
//! scheduler when it gives up control.

use vstd::prelude::*;
use crate::runtime::{hands_off, Handoff, Transfer, INIT_ACK};
use crate::runtime::runtime::{Runtime, RuntimeView};
use crate::task::packet::Packet;
use crate::task::task::JoinHandle;

pub mod packet;
pub mod task;

verus! {

/// Why a task is parked.
#[derive(Debug, Clone, Copy, PartialEq, Eq, Structural)]
pub enum BlockCause {
    Lock,
    Channel,
    Notify,
    Semaphore,
    Barrier,
}

/// The executing task gives up control and asks to run again later. The
/// result is the hand-off to perform.
pub fn yield_now<C, R>(rt: &mut Runtime<C, R>) -> (to_base: Handoff<C, R>)
    requires
        old(rt)@.base is Some,
    ensures
        hands_off(old(rt)@, final(rt)@, to_base, Packet::Yield),
        final(rt).records_ok() == old(rt).records_ok(),
        old(rt).wf() ==> final(rt).wf(),
{
    rt.yield_to_base(Packet::_yield())
}

/// One turn of waiting for the task `id` to leave the runtime: while the
/// task is suspended the caller yields, with the hand-off returned; once it
/// is not, there is nothing to do.
pub fn wait<C, R>(rt: &mut Runtime<C, R>, id: usize) -> (to_base: Option<Handoff<C, R>>)
    requires
        old(rt)@.contexts.contains_key(id) ==> old(rt)@.base is Some,
    ensures
        final(rt).records_ok() == old(rt).records_ok(),
        old(rt).wf() ==> final(rt).wf(),
        old(rt)@.contexts.contains_key(id) ==> (to_base matches Some(h) && hands_off(
            old(rt)@,
            final(rt)@,
            h,
            Packet::Yield,
        )),
        !old(rt)@.contexts.contains_key(id) ==> to_base is None && final(rt)@ == old(rt)@,
{
    if rt.is_suspended(id) {
        Some(yield_now(rt))
    } else {
        None
    }
}

/// Spawns a task whose context has been primed; `primed` is what came back
/// from the first switch into it.
pub fn spawn<C, R>(rt: &mut Runtime<C, R>, primed: Transfer<C>) -> (handle: JoinHandle<R>)
    requires
        old(rt).wf(),
        old(rt)@.next_id < usize::MAX,
        primed.data == INIT_ACK,
    ensures
        final(rt).wf(),
        handle.task() == old(rt)@.next_id,
        final(rt)@ == old(rt)@.spawned(primed.context),
{
    rt.spawn(primed)
}

} // verus!
