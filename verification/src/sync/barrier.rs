//! A rendezvous point for a fixed number of tasks.

use vstd::prelude::*;
use std::collections::VecDeque;
use crate::runtime::{parks, Poll};
use crate::runtime::runtime::{Runtime, RuntimeView};
use crate::sync::{all_blocked, all_parked, lemma_park_tail, wake_all};
use crate::task::packet::Packet;
use crate::task::BlockCause;

verus! {

pub struct Barrier {
    threshold: usize,
    count: usize,
    waiters: VecDeque<usize>,
}

pub struct BarrierView {
    /// How many tasks must arrive for the barrier to open.
    pub threshold: usize,
    /// How many of them are still to arrive.
    pub count: usize,
    /// The tasks that have arrived and wait, first to arrive first.
    pub waiters: Seq<usize>,
}

#[derive(Debug)]
pub struct BarrierWaitResult {
    is_leader: bool,
}

impl View for Barrier {
    type V = BarrierView;

    closed spec fn view(&self) -> BarrierView {
        BarrierView { threshold: self.threshold, count: self.count, waiters: self.waiters@ }
    }
}

impl BarrierView {
    /// Those still to arrive and those waiting make up the threshold, and
    /// at least one is still to arrive.
    pub open spec fn wf(self) -> bool {
        &&& 0 < self.count
        &&& self.count + self.waiters.len() == self.threshold
        &&& self.waiters.no_duplicates()
    }
}

impl BarrierView {
    /// In each round exactly one arrival is the leader: the one that finds
    /// every other party waiting. It comes when exactly as many tasks have
    /// arrived as the threshold says, and not before.
    pub proof fn lemma_one_leader(self)
        requires
            self.wf(),
        ensures
            self.count == 1 <==> self.waiters.len() + 1 == self.threshold,
            self.waiters.len() < self.threshold,
    {
    }
}

impl Barrier {
    pub open spec fn wf(&self) -> bool {
        self@.wf()
    }

    /// Every waiting task is parked in `rt`.
    pub open spec fn parked<C, R>(&self, rt: RuntimeView<C, R>) -> bool {
        all_parked(self@.waiters, rt)
    }

    pub fn new(n: usize) -> (b: Self)
        requires
            n > 0,
        ensures
            b.wf(),
            b@ == (BarrierView { threshold: n, count: n, waiters: Seq::<usize>::empty() }),
    {
        Barrier { threshold: n, count: n, waiters: VecDeque::new() }
    }

    /// Whether every waiting task is parked in `rt`.
    pub fn is_parked<C, R>(&self, rt: &Runtime<C, R>) -> (b: bool)
        ensures
            b == self.parked(rt@),
    {
        all_blocked(&self.waiters, rt)
    }

    /// Arrives at the barrier. The task that arrives last opens it: the
    /// barrier is reset, every waiting task is woken in arrival order, and
    /// the caller goes on as the leader. Any other task is queued and
    /// parks; once it runs again it goes on with `wait_woken`.
    pub fn wait<C, R>(&mut self, rt: &mut Runtime<C, R>) -> (r: Poll<
        BarrierWaitResult,
        (),
        C,
        R,
    >)
        requires
            old(self).wf(),
            old(rt).wf(),
            old(self).parked(old(rt)@),
            old(self)@.count != 1 ==> old(rt)@.in_task(),
        ensures
            final(self).wf(),
            final(rt).wf(),
            old(self)@.count == 1 ==> {
                &&& r matches Poll::Ready(res)
                &&& res.leader()
                &&& final(self)@ == (BarrierView {
                    count: old(self)@.threshold,
                    waiters: Seq::<usize>::empty(),
                    ..old(self)@
                })
                &&& final(rt)@ == old(rt)@.wake_all(old(self)@.waiters)
                &&& final(self).parked(final(rt)@)
            },
            old(self)@.count != 1 ==> {
                &&& r is Pending
                &&& parks(old(rt)@, final(rt)@, r->Pending_1, BlockCause::Barrier)
                &&& final(self)@ == (BarrierView {
                    count: (old(self)@.count - 1) as usize,
                    waiters: old(self)@.waiters.push(old(rt)@.cur_task),
                    ..old(self)@
                })
            },
    {
        self.count -= 1;
        if self.count == 0 {
            self.count = self.threshold;
            wake_all(&mut self.waiters, rt);
            Poll::Ready(BarrierWaitResult { is_leader: true })
        } else {
            proof {
                lemma_park_tail(self@.waiters, rt@, BlockCause::Barrier, rt@.base->0);
            }
            self.waiters.push_back(rt.cur_task());
            let to_base = rt.yield_to_base(Packet::block_on(BlockCause::Barrier));
            Poll::Pending((), to_base)
        }
    }

    /// How a task that parked in `wait` goes on once the leader has woken
    /// it: it is not the leader.
    pub fn wait_woken(&self) -> (res: BarrierWaitResult)
        ensures
            !res.leader(),
    {
        BarrierWaitResult { is_leader: false }
    }

    /// With a threshold of one, every arrival is the last.
    pub proof fn lemma_single_party(&self)
        requires
            self.wf(),
            self@.threshold == 1,
        ensures
            self@.count == 1,
            self@.waiters.len() == 0,
    {
    }
}

impl BarrierWaitResult {
    /// Whether the caller opened the barrier.
    pub closed spec fn leader(&self) -> bool {
        self.is_leader
    }

    pub fn is_leader(&self) -> (b: bool)
        ensures
            b == self.leader(),
    {
        self.is_leader
    }
}

} // verus!
