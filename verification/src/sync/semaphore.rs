//! A counting semaphore.

use vstd::prelude::*;
use std::collections::VecDeque;
use crate::runtime::{parks, Poll};
use crate::runtime::runtime::{Runtime, RuntimeView};
use crate::sync::{
    all_blocked, all_parked, lemma_park_tail, lemma_wake_next, lemma_wake_none, lemma_wake_rest,
    wake_all,
};
use crate::task::packet::Packet;
use crate::task::BlockCause;

verus! {

pub struct Semaphore {
    permits: usize,
    waiters: VecDeque<usize>,
    closed: bool,
}

pub struct SemaphoreView {
    /// The permits that can be acquired now.
    pub permits: usize,
    /// The tasks parked on the semaphore, first to arrive first.
    pub waiters: Seq<usize>,
    pub closed: bool,
}

/// A number of permits taken out of a semaphore, to be given back.
pub struct SemaphorePermit {
    permits: usize,
}

/// The semaphore has been closed.
#[derive(Debug)]
pub struct AcquireError;

#[derive(Debug)]
pub enum TryAcquireError {
    Closed,
    NoPermits,
}

/// The smaller of two numbers.
pub open spec fn min(a: int, b: int) -> int {
    if a <= b {
        a
    } else {
        b
    }
}

impl View for Semaphore {
    type V = SemaphoreView;

    closed spec fn view(&self) -> SemaphoreView {
        SemaphoreView { permits: self.permits, waiters: self.waiters@, closed: self.closed }
    }
}

impl SemaphoreView {
    /// The semaphore after one permit is taken out of it.
    pub open spec fn after_acquire(self) -> Self {
        SemaphoreView { permits: (self.permits - 1) as usize, ..self }
    }

    /// The semaphore after `n` permits are put into it and the waiters
    /// they are for are woken.
    pub open spec fn after_add(self, n: usize) -> Self {
        SemaphoreView {
            permits: (self.permits + n) as usize,
            waiters: self.waiters.skip(self.grants(n)),
            ..self
        }
    }

    /// The semaphore after up to `n` of its permits are forgotten.
    pub open spec fn after_forget(self, n: usize) -> Self {
        SemaphoreView { permits: (self.permits - min(self.permits as int, n as int)) as usize, ..self }
    }

    /// Permits are neither made nor lost by taking them and giving them
    /// back. With `held` permits in the hands of tasks: taking one moves it
    /// from the semaphore to the tasks, giving `n` back moves them from the
    /// tasks to the semaphore, and the sum stays what it was. Only adding
    /// and forgetting change the sum, by what is added and by what is
    /// forgotten.
    pub proof fn lemma_permits_conserved(self, held: nat, n: usize)
        ensures
            self.permits > 0 ==> self.after_acquire().permits + (held + 1) == self.permits + held,
            n <= held && self.permits + n <= usize::MAX ==> self.after_add(n).permits + (held - n)
                == self.permits + held,
            self.permits + n <= usize::MAX ==> self.after_add(n).permits + held == self.permits
                + held + n,
            self.after_forget(n).permits + held == self.permits + held - min(
                self.permits as int,
                n as int,
            ),
    {
    }

    /// How many waiters are woken when `n` permits are added: one for each
    /// permit then available, as far as tasks wait. Adding nothing wakes
    /// nobody.
    pub open spec fn grants(self, n: usize) -> int {
        if n == 0 {
            0
        } else {
            min(self.permits + n, self.waiters.len() as int)
        }
    }
}

impl Semaphore {
    pub const MAX_PERMITS: usize = 65535;

    /// The count is within bounds and no task is parked twice.
    pub open spec fn wf(&self) -> bool {
        &&& self@.permits <= Self::MAX_PERMITS
        &&& self@.waiters.no_duplicates()
    }

    /// Every task waiting for a permit is parked in `rt`.
    pub open spec fn parked<C, R>(&self, rt: RuntimeView<C, R>) -> bool {
        all_parked(self@.waiters, rt)
    }

    pub fn new(permits: usize) -> (s: Self)
        requires
            0 < permits <= Self::MAX_PERMITS,
        ensures
            s.wf(),
            s@ == (SemaphoreView { permits, waiters: Seq::<usize>::empty(), closed: false }),
    {
        Semaphore { permits, waiters: VecDeque::new(), closed: false }
    }

    /// Whether every task waiting for a permit is parked in `rt`.
    pub fn is_parked<C, R>(&self, rt: &Runtime<C, R>) -> (b: bool)
        ensures
            b == self.parked(rt@),
    {
        all_blocked(&self.waiters, rt)
    }

    pub fn available_permits(&self) -> (n: usize)
        ensures
            n == self@.permits,
    {
        self.permits
    }

    /// Adds `permits` permits and wakes one waiter for each permit then
    /// available, longest wait first. A woken waiter takes its permit when
    /// it runs again.
    pub fn add_permits<C, R>(&mut self, permits: usize, rt: &mut Runtime<C, R>)
        requires
            old(self).wf(),
            old(self)@.permits + permits <= Self::MAX_PERMITS,
            old(rt).wf(),
            old(self).parked(old(rt)@),
        ensures
            final(self).wf(),
            final(rt).wf(),
            final(self).parked(final(rt)@),
            final(self)@ == old(self)@.after_add(permits),
            final(rt)@ == old(rt)@.wake_all(old(self)@.waiters.take(old(self)@.grants(permits))),
    {
        let ghost all = self.waiters@;
        let ghost start = rt@;
        proof {
            lemma_wake_none(all, start);
        }
        if permits == 0 {
            return ;
        }
        self.permits += permits;
        let mut grants: usize = self.permits;
        let ghost mut k: int = 0;
        while grants > 0 && self.waiters.len() > 0
            invariant
                rt.wf(),
                0 <= k <= all.len(),
                k + grants == self.permits,
                all.no_duplicates(),
                all_parked(all, start),
                self.waiters@ == all.skip(k),
                rt@ == start.wake_all(all.take(k)),
                self.permits == old(self).permits + permits,
                self.closed == old(self).closed,
            decreases self.waiters@.len(),
        {
            let waiter = self.waiters.pop_front().unwrap();
            proof {
                assert(waiter == all[k]);
                lemma_wake_next(all, start, k);
            }
            rt.wake_task(waiter);
            grants -= 1;
            proof {
                assert(self.waiters@ =~= all.skip(k + 1));
                k = k + 1;
            }
        }
        proof {
            assert(k == old(self)@.grants(permits));
            lemma_wake_rest(all, start, k);
        }
    }

    /// Forgets up to `permits` of the available permits and says how many
    /// were forgotten.
    pub fn forget_permits(&mut self, permits: usize) -> (forgotten: usize)
        ensures
            forgotten == min(old(self)@.permits as int, permits as int),
            final(self)@ == old(self)@.after_forget(permits),
            old(self).wf() ==> final(self).wf(),
    {
        if permits == 0 || self.permits == 0 {
            return 0;
        }
        let actual_forgotten = if self.permits < permits {
            self.permits
        } else {
            permits
        };
        self.permits -= actual_forgotten;
        actual_forgotten
    }

    /// One attempt to take a permit. A closed semaphore gives none. An
    /// available permit is taken at once. Otherwise the caller is queued
    /// and parks; once it runs again it goes on with `acquire_woken`.
    pub fn acquire<C, R>(&mut self, rt: &mut Runtime<C, R>) -> (r: Poll<
        Result<SemaphorePermit, AcquireError>,
        (),
        C,
        R,
    >)
        requires
            old(self).wf(),
            old(rt).wf(),
            old(self).parked(old(rt)@),
            !old(self)@.closed && old(self)@.permits == 0 ==> old(rt)@.in_task(),
        ensures
            final(self).wf(),
            final(rt).wf(),
            old(self)@.closed ==> {
                &&& r matches Poll::Ready(Err(_))
                &&& final(self)@ == old(self)@
                &&& final(rt)@ == old(rt)@
            },
            !old(self)@.closed && old(self)@.permits > 0 ==> {
                &&& r matches Poll::Ready(Ok(p))
                &&& p.count() == 1
                &&& final(self)@ == old(self)@.after_acquire()
                &&& final(rt)@ == old(rt)@
            },
            !old(self)@.closed && old(self)@.permits == 0 ==> {
                &&& r is Pending
                &&& parks(old(rt)@, final(rt)@, r->Pending_1, BlockCause::Semaphore)
                &&& final(self)@ == (SemaphoreView {
                    waiters: old(self)@.waiters.push(old(rt)@.cur_task),
                    ..old(self)@
                })
            },
    {
        if self.closed {
            return Poll::Ready(Err(AcquireError));
        }
        if self.permits > 0 {
            self.permits -= 1;
            return Poll::Ready(Ok(SemaphorePermit { permits: 1 }));
        }
        proof {
            lemma_park_tail(self@.waiters, rt@, BlockCause::Semaphore, rt@.base->0);
        }
        self.waiters.push_back(rt.cur_task());
        let to_base = rt.yield_to_base(Packet::block_on(BlockCause::Semaphore));
        Poll::Pending((), to_base)
    }

    /// How a task that parked in `acquire` goes on once it has been woken:
    /// a closed semaphore gives no permit, otherwise the task takes the
    /// permit it was woken for.
    pub fn acquire_woken(&mut self) -> (r: Result<SemaphorePermit, AcquireError>)
        requires
            old(self)@.closed || old(self)@.permits > 0,
        ensures
            old(self).wf() ==> final(self).wf(),
            old(self)@.closed ==> r is Err && final(self)@ == old(self)@,
            !old(self)@.closed ==> {
                &&& r matches Ok(p)
                &&& p.count() == 1
                &&& final(self)@ == old(self)@.after_acquire()
            },
    {
        if self.closed {
            return Err(AcquireError);
        }
        self.permits -= 1;
        Ok(SemaphorePermit { permits: 1 })
    }

    /// Takes a permit if one is available, without ever parking.
    pub fn try_acquire(&mut self) -> (r: Result<SemaphorePermit, TryAcquireError>)
        ensures
            old(self).wf() ==> final(self).wf(),
            old(self)@.closed ==> {
                &&& r matches Err(TryAcquireError::Closed)
                &&& final(self)@ == old(self)@
            },
            !old(self)@.closed && old(self)@.permits == 0 ==> {
                &&& r matches Err(TryAcquireError::NoPermits)
                &&& final(self)@ == old(self)@
            },
            !old(self)@.closed && old(self)@.permits > 0 ==> {
                &&& r matches Ok(p)
                &&& p.count() == 1
                &&& final(self)@ == old(self)@.after_acquire()
            },
    {
        if self.closed {
            return Err(TryAcquireError::Closed);
        }
        if self.permits > 0 {
            self.permits -= 1;
            return Ok(SemaphorePermit { permits: 1 });
        }
        Err(TryAcquireError::NoPermits)
    }

    pub fn is_closed(&self) -> (b: bool)
        ensures
            b == self@.closed,
    {
        self.closed
    }

    /// Closes the semaphore and wakes every waiter; each of them is refused
    /// when it runs again. Closing a closed semaphore changes nothing.
    pub fn close<C, R>(&mut self, rt: &mut Runtime<C, R>)
        requires
            old(self).wf(),
            old(rt).wf(),
            old(self).parked(old(rt)@),
        ensures
            final(self).wf(),
            final(rt).wf(),
            final(self).parked(final(rt)@),
            old(self)@.closed ==> final(self)@ == old(self)@ && final(rt)@ == old(rt)@,
            !old(self)@.closed ==> {
                &&& final(self)@ == (SemaphoreView {
                    closed: true,
                    waiters: Seq::<usize>::empty(),
                    ..old(self)@
                })
                &&& final(rt)@ == old(rt)@.wake_all(old(self)@.waiters)
            },
    {
        if self.closed {
            return ;
        }
        self.closed = true;
        wake_all(&mut self.waiters, rt);
    }
}

impl SemaphorePermit {
    /// The number of permits held.
    pub closed spec fn count(&self) -> usize {
        self.permits
    }

    pub fn num_permits(&self) -> (n: usize)
        ensures
            n == self.count(),
    {
        self.permits
    }

    /// Drops the permits held without giving them back.
    pub fn forget(self) {
        let mut permit = self;
        permit.permits = 0;
    }

    /// Takes over the permits of `other`.
    pub fn merge(&mut self, other: Self)
        requires
            old(self).count() + other.count() <= usize::MAX,
        ensures
            final(self).count() == old(self).count() + other.count(),
    {
        let mut other = other;
        self.permits += other.permits;
        other.permits = 0;
    }

    /// Detaches `n` of the permits held into a permit of their own. Fails,
    /// changing nothing, if `n` is more than is held or more than 65535.
    pub fn split(&mut self, n: usize) -> (r: Option<Self>)
        ensures
            n <= 65535 && n <= old(self).count() ==> {
                &&& r matches Some(p)
                &&& p.count() == n
                &&& final(self).count() == old(self).count() - n
            },
            !(n <= 65535 && n <= old(self).count()) ==> {
                &&& r is None
                &&& final(self).count() == old(self).count()
            },
    {
        if n > 65535 {
            return None;
        }
        if n > self.permits {
            return None;
        }
        self.permits -= n;
        Some(SemaphorePermit { permits: n })
    }

    /// Gives the permits held back to the semaphore.
    pub fn release<C, R>(self, sem: &mut Semaphore, rt: &mut Runtime<C, R>)
        requires
            old(sem).wf(),
            old(sem)@.permits + self.count() <= Semaphore::MAX_PERMITS,
            old(rt).wf(),
            old(sem).parked(old(rt)@),
        ensures
            final(sem).wf(),
            final(rt).wf(),
            final(sem).parked(final(rt)@),
            final(sem)@ == old(sem)@.after_add(self.count()),
            final(rt)@ == old(rt)@.wake_all(
                old(sem)@.waiters.take(old(sem)@.grants(self.count())),
            ),
    {
        sem.add_permits(self.permits, rt);
    }
}

} // verus!
