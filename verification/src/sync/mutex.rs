//! Non-reentrant mutual exclusion.

use vstd::prelude::*;
use std::collections::VecDeque;
use crate::runtime::{parks, Poll};
use crate::runtime::runtime::{Runtime, RuntimeView};
use crate::sync::{all_blocked, all_parked, lemma_park_tail, lemma_wake_head};
use crate::task::packet::Packet;
use crate::task::BlockCause;

verus! {

pub struct Mutex<T> {
    data: T,
    locked: bool,
    waiters: VecDeque<usize>,
}

pub struct MutexView<T> {
    pub data: T,
    pub locked: bool,
    /// The tasks parked on the mutex, first to arrive first.
    pub waiters: Seq<usize>,
}

/// The right to the value of a locked mutex, and the duty to unlock it.
pub struct MutexGuard {
    token: (),
}

impl<T> View for Mutex<T> {
    type V = MutexView<T>;

    closed spec fn view(&self) -> MutexView<T> {
        MutexView { data: self.data, locked: self.locked, waiters: self.waiters@ }
    }
}

impl<T> Mutex<T> {
    /// No task is parked on the mutex twice.
    pub open spec fn wf(&self) -> bool {
        self@.waiters.no_duplicates()
    }

    /// Every task waiting for the mutex is parked in `rt`.
    pub open spec fn parked<C, R>(&self, rt: RuntimeView<C, R>) -> bool {
        all_parked(self@.waiters, rt)
    }

    pub fn new(t: T) -> (m: Self)
        ensures
            m.wf(),
            m@ == (MutexView { data: t, locked: false, waiters: Seq::<usize>::empty() }),
    {
        Mutex { data: t, locked: false, waiters: VecDeque::new() }
    }

    /// Whether every task waiting for the mutex is parked in `rt`.
    pub fn is_parked<C, R>(&self, rt: &Runtime<C, R>) -> (b: bool)
        ensures
            b == self.parked(rt@),
    {
        all_blocked(&self.waiters, rt)
    }

    /// One attempt to lock. An unlocked mutex is taken at once, whoever
    /// waits for it. On a locked one the caller is queued behind the tasks
    /// already waiting and parks; it attempts again once it runs again.
    pub fn lock<C, R>(&mut self, rt: &mut Runtime<C, R>) -> (r: Poll<MutexGuard, (), C, R>)
        requires
            old(self).wf(),
            old(rt).wf(),
            old(self).parked(old(rt)@),
            old(self)@.locked ==> old(rt)@.in_task(),
        ensures
            final(self).wf(),
            final(rt).wf(),
            !old(self)@.locked ==> {
                &&& r is Ready
                &&& final(self)@ == (MutexView { locked: true, ..old(self)@ })
                &&& final(rt)@ == old(rt)@
            },
            old(self)@.locked ==> {
                &&& r is Pending
                &&& parks(old(rt)@, final(rt)@, r->Pending_1, BlockCause::Lock)
                &&& final(self)@ == (MutexView {
                    waiters: old(self)@.waiters.push(old(rt)@.cur_task),
                    ..old(self)@
                })
            },
    {
        if self.locked {
            proof {
                lemma_park_tail(self@.waiters, rt@, BlockCause::Lock, rt@.base->0);
            }
            self.waiters.push_back(rt.cur_task());
            let to_base = rt.yield_to_base(Packet::block_on(BlockCause::Lock));
            Poll::Pending((), to_base)
        } else {
            self.locked = true;
            Poll::Ready(MutexGuard { token: () })
        }
    }
}

impl MutexGuard {
    pub fn deref<'a, T>(&self, mutex: &'a Mutex<T>) -> (value: &'a T)
        requires
            mutex@.locked,
        ensures
            *value == mutex@.data,
    {
        &mutex.data
    }

    pub fn deref_mut<'a, T>(&mut self, mutex: &'a mut Mutex<T>) -> (value: &'a mut T)
        requires
            old(mutex)@.locked,
        ensures
            *value == old(mutex)@.data,
            final(mutex)@ == (MutexView { data: *final(value), ..old(mutex)@ }),
    {
        &mut mutex.data
    }

    /// Unlocks the mutex and wakes the task that has waited longest, if any
    /// waits.
    pub fn unlock<T, C, R>(self, mutex: &mut Mutex<T>, rt: &mut Runtime<C, R>)
        requires
            old(mutex).wf(),
            old(mutex)@.locked,
            old(rt).wf(),
            old(mutex).parked(old(rt)@),
        ensures
            final(mutex).wf(),
            final(rt).wf(),
            final(mutex).parked(final(rt)@),
            old(mutex)@.waiters.len() == 0 ==> {
                &&& final(mutex)@ == (MutexView { locked: false, ..old(mutex)@ })
                &&& final(rt)@ == old(rt)@
            },
            old(mutex)@.waiters.len() > 0 ==> {
                &&& final(mutex)@ == (MutexView {
                    locked: false,
                    waiters: old(mutex)@.waiters.drop_first(),
                    ..old(mutex)@
                })
                &&& final(rt)@ == old(rt)@.wake(old(mutex)@.waiters[0])
            },
    {
        mutex.locked = false;
        match mutex.waiters.pop_front() {
            Some(waiter_id) => {
                proof {
                    lemma_wake_head(old(mutex)@.waiters, rt@);
                    assert(mutex@.waiters =~= old(mutex)@.waiters.drop_first());
                }
                rt.wake_task(waiter_id);
            },
            None => {
                assert(mutex@.waiters =~= old(mutex)@.waiters);
            },
        }
    }
}

} // verus!
