//! A task is the scheduler's record of one fiber.

use vstd::prelude::*;
use crate::task::BlockCause;
use crate::task::packet::Packet;
use crate::runtime::{hands_off, Handoff, Poll, Transfer, INIT_ACK};
use crate::runtime::runtime::{Runtime, RuntimeView};
use std::marker::PhantomData;

verus! {

#[derive(Debug, Clone, Copy, PartialEq, Eq, Structural)]
pub enum TaskState {
    Ready,
    Running,
    BlockOn(BlockCause),
    Finished,
}

/// The cause a state parks on; `Lock` for a state that does not park.
pub open spec fn cause_of(state: TaskState) -> BlockCause {
    match state {
        TaskState::BlockOn(cause) => cause,
        _ => BlockCause::Lock,
    }
}

pub struct Task {
    pub id: usize,
    pub state: TaskState,
}

impl Task {
    /// Records a task whose context has been primed. `primed` is what came
    /// back from the first switch into the new context.
    pub fn new<C>(id: usize, primed: Transfer<C>) -> (r: (Task, C))
        requires
            primed.data == INIT_ACK,
        ensures
            r.0 == (Task { id, state: TaskState::Ready }),
            r.1 == primed.context,
    {
        (Task { id, state: TaskState::Ready }, primed.context)
    }

    pub fn id(&self) -> (id: usize)
        ensures
            id == self.id,
    {
        self.id
    }

    pub fn state(&self) -> (state: TaskState)
        ensures
            state == self.state,
    {
        self.state
    }

    pub fn trans_state(&mut self, new_state: TaskState)
        ensures
            *final(self) == (Task { id: old(self).id, state: new_state }),
    {
        self.state = new_state;
    }

    /// The scheduler's side of a switch into the task, up to the switch:
    /// takes the task's saved context out of the runtime and marks the task
    /// running. The result is what to switch to, with payload 0.
    pub fn resume<C, R>(&mut self, rt: &mut Runtime<C, R>) -> (to_task: Transfer<C>)
        requires
            old(self).state == TaskState::Ready,
            old(rt)@.contexts.contains_key(old(rt)@.cur_task),
        ensures
            *final(self) == (Task { id: old(self).id, state: TaskState::Running }),
            to_task == (Transfer { context: old(rt)@.contexts[old(rt)@.cur_task], data: 0 }),
            final(rt)@ == (RuntimeView {
                contexts: old(rt)@.contexts.remove(old(rt)@.cur_task),
                ..old(rt)@
            }),
            final(rt).records_ok() == old(rt).records_ok(),
    {
        let cx = rt.get_cur_cx().unwrap();
        self.state = TaskState::Running;
        Transfer { context: cx, data: 0 }
    }

    /// The scheduler's side of a switch into the task, from the moment
    /// control is back: saves the context the task left and acts on its
    /// packet. A result is stored and the context dropped; a yield makes
    /// the task ready; a block parks it on the packet's cause.
    pub fn resumed<C, R>(&mut self, rt: &mut Runtime<C, R>, from_task: Handoff<C, R>)
        requires
            old(self).state == TaskState::Running,
            !old(rt)@.contexts.contains_key(old(rt)@.cur_task),
            *from_task.packet is Result ==> !old(rt)@.results.contains_key(old(self).id),
        ensures
            final(self).id == old(self).id,
            final(rt).records_ok() == old(rt).records_ok(),
            match *from_task.packet {
                Packet::Result(value) => {
                    &&& final(self).state == TaskState::Finished
                    &&& final(rt)@ == (RuntimeView {
                        results: old(rt)@.results.insert(old(self).id, *value),
                        ..old(rt)@
                    })
                },
                Packet::Yield => {
                    &&& final(self).state == TaskState::Ready
                    &&& final(rt)@ == (RuntimeView {
                        contexts: old(rt)@.contexts.insert(old(rt)@.cur_task, from_task.context),
                        ..old(rt)@
                    })
                },
                Packet::BlockOn(cause) => {
                    &&& final(self).state == TaskState::BlockOn(cause)
                    &&& final(rt)@ == (RuntimeView {
                        contexts: old(rt)@.contexts.insert(old(rt)@.cur_task, from_task.context),
                        ..old(rt)@
                    })
                },
            },
    {
        let Handoff { context, packet } = from_task;
        rt.set_cur_cx(context);
        match *packet {
            Packet::Result(result) => {
                rt.set_result(self.id, *result);
                let dropped = rt.get_cur_cx();
                self.state = TaskState::Finished;
                proof {
                    assert(rt@.contexts =~= old(rt)@.contexts);
                }
            },
            Packet::Yield => {
                self.state = TaskState::Ready;
            },
            Packet::BlockOn(cause) => {
                self.state = TaskState::BlockOn(cause);
            },
        }
    }
}

/// The right to wait for one task and to take what it returned.
pub struct JoinHandle<R> {
    id: usize,
    marker: PhantomData<R>,
}

impl<R> JoinHandle<R> {
    /// The task this handle is for.
    pub closed spec fn task(&self) -> usize {
        self.id
    }

    pub(crate) fn new(id: usize) -> (h: Self)
        ensures
            h.task() == id,
    {
        JoinHandle { id, marker: PhantomData }
    }

    /// The id of the task this handle is for.
    pub fn id(&self) -> (id: usize)
        ensures
            id == self.task(),
    {
        self.id
    }

    /// Whether the task has finished, that is, its result is stored.
    pub fn is_finished<C>(&self, rt: &Runtime<C, R>) -> (b: bool)
        ensures
            b == rt@.results.contains_key(self.task()),
    {
        rt.has_result(self.id)
    }

    /// One attempt to join: while the task is suspended the caller yields
    /// and keeps the handle to join again; once it is not, its result is
    /// taken out of the runtime.
    pub fn join<C>(self, rt: &mut Runtime<C, R>) -> (r: Poll<R, JoinHandle<R>, C, R>)
        requires
            old(rt)@.contexts.contains_key(self.task()) ==> old(rt)@.base is Some,
            old(rt)@.contexts.contains_key(self.task()) || old(rt)@.results.contains_key(
                self.task(),
            ),
        ensures
            final(rt).records_ok() == old(rt).records_ok(),
            old(rt).wf() ==> final(rt).wf(),
            old(rt)@.contexts.contains_key(self.task()) ==> (r matches Poll::Pending(h, to_base) && {
                &&& h.task() == self.task()
                &&& hands_off(old(rt)@, final(rt)@, to_base, Packet::Yield)
            }),
            !old(rt)@.contexts.contains_key(self.task()) ==> (r matches Poll::Ready(value) && {
                &&& value == old(rt)@.results[self.task()]
                &&& final(rt)@ == (RuntimeView {
                    results: old(rt)@.results.remove(self.task()),
                    ..old(rt)@
                })
            }),
    {
        match crate::task::wait(rt, self.id) {
            Some(to_base) => Poll::Pending(self, to_base),
            None => Poll::Ready(rt.take_result(self.id).unwrap()),
        }
    }
}

} // verus!
