//! Notification of waiting tasks, with one stored permit.

use vstd::prelude::*;
use std::collections::VecDeque;
use crate::runtime::{parks, Poll};
use crate::runtime::runtime::{Runtime, RuntimeView};
use crate::sync::{all_blocked, all_parked, lemma_park_tail, lemma_wake_head, wake_all};
use crate::task::packet::Packet;
use crate::task::BlockCause;

verus! {

pub struct Notify {
    waiters: VecDeque<usize>,
    permit: bool,
}

pub struct NotifyView {
    /// The tasks waiting to be notified, first to arrive first.
    pub waiters: Seq<usize>,
    /// Whether a notification is stored for the next task to wait.
    pub permit: bool,
}

impl View for Notify {
    type V = NotifyView;

    closed spec fn view(&self) -> NotifyView {
        NotifyView { waiters: self.waiters@, permit: self.permit }
    }
}

impl NotifyView {
    /// The state after a notification of the task that has waited longest.
    pub open spec fn after_notify_one(self) -> Self {
        if self.waiters.len() == 0 {
            NotifyView { permit: true, ..self }
        } else {
            NotifyView { waiters: self.waiters.drop_first(), ..self }
        }
    }

    /// The state after a notification of the task that has waited
    /// shortest.
    pub open spec fn after_notify_last(self) -> Self {
        if self.waiters.len() == 0 {
            NotifyView { permit: true, ..self }
        } else {
            NotifyView { waiters: self.waiters.drop_last(), ..self }
        }
    }

    /// The state after a task has asked to wait, `id` being the task.
    pub open spec fn after_wait(self, id: usize) -> Self {
        if self.permit {
            NotifyView { permit: false, ..self }
        } else {
            NotifyView { waiters: self.waiters.push(id), ..self }
        }
    }

    /// The permit is a single slot. With nobody waiting, any number of
    /// notifications leave what one leaves: a stored permit. The next wait
    /// consumes it without parking, and the wait after that parks.
    pub proof fn lemma_notifications_coalesce(self, first: usize, second: usize)
        requires
            self.waiters.len() == 0,
        ensures
            self.after_notify_one().permit,
            self.after_notify_one().after_notify_one() == self.after_notify_one(),
            self.after_notify_one().after_notify_last() == self.after_notify_one(),
            self.after_notify_one().after_wait(first) == (NotifyView { permit: false, ..self }),
            self.after_notify_one().after_wait(first).after_wait(second).waiters == seq![second],
    {
        assert(self.waiters =~= Seq::<usize>::empty());
        assert(self.waiters.push(second) =~= seq![second]);
    }
}

impl Notify {
    /// No task waits twice.
    pub open spec fn wf(&self) -> bool {
        self@.waiters.no_duplicates()
    }

    /// Every waiting task is parked in `rt`.
    pub open spec fn parked<C, R>(&self, rt: RuntimeView<C, R>) -> bool {
        all_parked(self@.waiters, rt)
    }

    pub fn new() -> (n: Self)
        ensures
            n.wf(),
            n@ == (NotifyView { waiters: Seq::<usize>::empty(), permit: false }),
    {
        Notify { waiters: VecDeque::new(), permit: false }
    }

    /// Whether every waiting task is parked in `rt`.
    pub fn is_parked<C, R>(&self, rt: &Runtime<C, R>) -> (b: bool)
        ensures
            b == self.parked(rt@),
    {
        all_blocked(&self.waiters, rt)
    }

    /// Waits for a notification. A stored permit is consumed and the caller
    /// goes on at once. Otherwise the caller is queued and parks; it goes
    /// on as soon as it runs again.
    pub fn wait<C, R>(&mut self, rt: &mut Runtime<C, R>) -> (r: Poll<(), (), C, R>)
        requires
            old(self).wf(),
            old(rt).wf(),
            old(self).parked(old(rt)@),
            !old(self)@.permit ==> old(rt)@.in_task(),
        ensures
            final(self).wf(),
            final(rt).wf(),
            final(self)@ == old(self)@.after_wait(old(rt)@.cur_task),
            old(self)@.permit ==> r is Ready && final(rt)@ == old(rt)@,
            !old(self)@.permit ==> r is Pending && parks(
                old(rt)@,
                final(rt)@,
                r->Pending_1,
                BlockCause::Notify,
            ),
    {
        if self.permit {
            self.permit = false;
            return Poll::Ready(());
        }
        proof {
            lemma_park_tail(self@.waiters, rt@, BlockCause::Notify, rt@.base->0);
        }
        self.waiters.push_back(rt.cur_task());
        let to_base = rt.yield_to_base(Packet::block_on(BlockCause::Notify));
        Poll::Pending((), to_base)
    }

    /// Wakes the task that has waited longest. With nobody waiting the
    /// notification is stored, once, for the next task to wait.
    pub fn notify_one<C, R>(&mut self, rt: &mut Runtime<C, R>)
        requires
            old(self).wf(),
            old(rt).wf(),
            old(self).parked(old(rt)@),
        ensures
            final(self).wf(),
            final(rt).wf(),
            final(self).parked(final(rt)@),
            final(self)@ == old(self)@.after_notify_one(),
            final(rt)@ == (if old(self)@.waiters.len() == 0 {
                old(rt)@
            } else {
                old(rt)@.wake(old(self)@.waiters[0])
            }),
    {
        match self.waiters.pop_front() {
            Some(id) => {
                proof {
                    lemma_wake_head(old(self)@.waiters, rt@);
                    assert(self@.waiters =~= old(self)@.waiters.drop_first());
                }
                rt.wake_task(id);
            },
            None => {
                self.permit = true;
                assert(self@.waiters =~= old(self)@.waiters);
            },
        }
    }

    /// Wakes the task that has waited shortest. With nobody waiting the
    /// notification is stored, once, for the next task to wait.
    pub fn notify_last<C, R>(&mut self, rt: &mut Runtime<C, R>)
        requires
            old(self).wf(),
            old(rt).wf(),
            old(self).parked(old(rt)@),
        ensures
            final(self).wf(),
            final(rt).wf(),
            final(self).parked(final(rt)@),
            final(self)@ == old(self)@.after_notify_last(),
            final(rt)@ == (if old(self)@.waiters.len() == 0 {
                old(rt)@
            } else {
                old(rt)@.wake(old(self)@.waiters.last())
            }),
    {
        match self.waiters.pop_back() {
            Some(id) => {
                proof {
                    let all = old(self)@.waiters;
                    let rest = all.drop_last();
                    assert(self@.waiters =~= rest);
                    assert forall|i: int| 0 <= i < rest.len() implies rt@.wake(
                        id,
                    ).blocked.contains_key(#[trigger] rest[i]) by {
                        assert(rest[i] == all[i]);
                        assert(all[i] != all[all.len() - 1]);
                    }
                    assert forall|i: int, j: int|
                        0 <= i < rest.len() && 0 <= j < rest.len() && i != j implies rest[i]
                        != rest[j] by {
                        assert(rest[i] == all[i] && rest[j] == all[j]);
                    }
                }
                rt.wake_task(id);
            },
            None => {
                self.permit = true;
                assert(self@.waiters =~= old(self)@.waiters);
            },
        }
    }

    /// Wakes every waiting task, longest wait first. Stores nothing.
    pub fn notify_waiters<C, R>(&mut self, rt: &mut Runtime<C, R>)
        requires
            old(self).wf(),
            old(rt).wf(),
            old(self).parked(old(rt)@),
        ensures
            final(self).wf(),
            final(rt).wf(),
            final(self).parked(final(rt)@),
            final(self)@ == (NotifyView { waiters: Seq::<usize>::empty(), ..old(self)@ }),
            final(rt)@ == old(rt)@.wake_all(old(self)@.waiters),
    {
        wake_all(&mut self.waiters, rt);
    }
}

} // verus!
