//! A lock that admits many readers or one writer.

use vstd::prelude::*;
use std::collections::VecDeque;
use crate::runtime::{parks, Poll};
use crate::runtime::runtime::{Runtime, RuntimeView};
use crate::sync::{all_parked, lemma_park_tail, lemma_wake_next, lemma_wake_none, lemma_wake_rest};
use crate::task::packet::Packet;
use crate::task::BlockCause;

verus! {

#[derive(Debug, Clone, Copy, PartialEq, Eq, Structural)]
pub enum RwLockState {
    Unlocked,
    Read,
    Write,
}

#[derive(Debug, Clone, Copy, PartialEq, Eq, Structural)]
pub enum Access {
    Read,
    Write,
}

pub struct RwLock<T> {
    data: T,
    state: RwLockState,
    waiters: VecDeque<(usize, Access)>,
    reader_count: usize,
}

pub struct RwLockView<T> {
    pub data: T,
    pub state: RwLockState,
    /// The parked tasks with the access each asks for, first to arrive
    /// first.
    pub waiters: Seq<(usize, Access)>,
    pub reader_count: usize,
}

/// The right to read the value of a lock held for reading.
pub struct RwLockReadGuard {
    token: (),
}

/// The right to read and write the value of a lock held for writing.
pub struct RwLockWriteGuard {
    token: (),
}

/// The task ids of a waiter list.
pub open spec fn ids(waiters: Seq<(usize, Access)>) -> Seq<usize> {
    waiters.map_values(|w: (usize, Access)| w.0)
}

/// How many waiters at the front of the list ask for read access.
pub open spec fn leading_reads(waiters: Seq<(usize, Access)>) -> nat
    decreases waiters.len(),
{
    if waiters.len() == 0 || waiters[0].1 == Access::Write {
        0
    } else {
        1 + leading_reads(waiters.drop_first())
    }
}

/// How many waiters a release of the lock wakes: one writer at the front,
/// or else all the readers in front of the first writer.
pub open spec fn wake_count(waiters: Seq<(usize, Access)>) -> nat {
    if waiters.len() > 0 && waiters[0].1 == Access::Write {
        1
    } else {
        leading_reads(waiters)
    }
}

/// `leading_reads` is the length of the longest prefix of readers.
pub proof fn lemma_leading_reads(waiters: Seq<(usize, Access)>, k: int)
    requires
        0 <= k <= waiters.len(),
        forall|j: int| 0 <= j < k ==> (#[trigger] waiters[j]).1 == Access::Read,
        k < waiters.len() ==> waiters[k].1 == Access::Write,
    ensures
        leading_reads(waiters) == k,
    decreases k,
{
    if k > 0 {
        let rest = waiters.drop_first();
        assert(waiters[0].1 == Access::Read);
        assert forall|j: int| 0 <= j < k - 1 implies (#[trigger] rest[j]).1 == Access::Read by {
            assert(rest[j] == waiters[j + 1]);
        }
        lemma_leading_reads(rest, k - 1);
    }
}

impl<T> View for RwLock<T> {
    type V = RwLockView<T>;

    closed spec fn view(&self) -> RwLockView<T> {
        RwLockView {
            data: self.data,
            state: self.state,
            waiters: self.waiters@,
            reader_count: self.reader_count,
        }
    }
}

impl<T> RwLockView<T> {
    /// The lock is held for reading exactly while readers are counted, and
    /// no task is parked on it twice.
    pub open spec fn wf(self) -> bool {
        &&& self.state == RwLockState::Read <==> self.reader_count > 0
        &&& ids(self.waiters).no_duplicates()
    }
}

impl<T> RwLockView<T> {
    /// At any moment the lock is held by readers, of which there is at
    /// least one, or by a writer, or by nobody; readers are counted only
    /// while they hold it.
    pub proof fn lemma_states(self)
        requires
            self.wf(),
        ensures
            (self.state == RwLockState::Read && self.reader_count > 0) || (self.state
                == RwLockState::Write && self.reader_count == 0) || (self.state
                == RwLockState::Unlocked && self.reader_count == 0),
    {
    }
}

impl<T> RwLock<T> {
    pub open spec fn wf(&self) -> bool {
        self@.wf()
    }

    /// Every task waiting for the lock is parked in `rt`.
    pub open spec fn parked<C, R>(&self, rt: RuntimeView<C, R>) -> bool {
        all_parked(ids(self@.waiters), rt)
    }

    pub fn new(data: T) -> (l: Self)
        ensures
            l.wf(),
            l@ == (RwLockView {
                data,
                state: RwLockState::Unlocked,
                waiters: Seq::<(usize, Access)>::empty(),
                reader_count: 0,
            }),
    {
        let l = RwLock {
            data,
            state: RwLockState::Unlocked,
            waiters: VecDeque::new(),
            reader_count: 0,
        };
        assert(ids(l@.waiters) =~= Seq::<usize>::empty());
        l
    }

    /// How many readers hold the lock.
    pub fn reader_count(&self) -> (n: usize)
        ensures
            n == self@.reader_count,
    {
        self.reader_count
    }

    /// Whether every task waiting for the lock is parked in `rt`.
    pub fn is_parked<C, R>(&self, rt: &Runtime<C, R>) -> (b: bool)
        ensures
            b == self.parked(rt@),
    {
        let mut i: usize = 0;
        while i < self.waiters.len()
            invariant
                0 <= i <= self.waiters@.len(),
                forall|j: int| 0 <= j < i ==> rt@.blocked.contains_key(#[trigger] ids(self@.waiters)[j]),
            decreases self.waiters@.len() - i,
        {
            if !rt.is_blocked(self.waiters[i].0) {
                assert(!rt@.blocked.contains_key(ids(self@.waiters)[i as int]));
                return false;
            }
            i += 1;
        }
        true
    }

    /// One attempt to lock for reading. Unless a writer holds the lock the
    /// caller becomes one more reader. Otherwise it is queued as a reader
    /// and parks, to attempt again once it runs again.
    pub fn read<C, R>(&mut self, rt: &mut Runtime<C, R>) -> (r: Poll<RwLockReadGuard, (), C, R>)
        requires
            old(self).wf(),
            old(rt).wf(),
            old(self).parked(old(rt)@),
            old(self)@.state == RwLockState::Write ==> old(rt)@.in_task(),
            old(self)@.reader_count < usize::MAX,
        ensures
            final(self).wf(),
            final(rt).wf(),
            old(self)@.state != RwLockState::Write ==> {
                &&& r is Ready
                &&& final(self)@ == (RwLockView {
                    state: RwLockState::Read,
                    reader_count: (old(self)@.reader_count + 1) as usize,
                    ..old(self)@
                })
                &&& final(rt)@ == old(rt)@
            },
            old(self)@.state == RwLockState::Write ==> {
                &&& r is Pending
                &&& parks(old(rt)@, final(rt)@, r->Pending_1, BlockCause::Lock)
                &&& final(self)@ == (RwLockView {
                    waiters: old(self)@.waiters.push((old(rt)@.cur_task, Access::Read)),
                    ..old(self)@
                })
            },
    {
        if self.state == RwLockState::Write {
            proof {
                lemma_park_tail(ids(self@.waiters), rt@, BlockCause::Lock, rt@.base->0);
                assert(ids(self@.waiters.push((rt@.cur_task, Access::Read))) =~= ids(
                    self@.waiters,
                ).push(rt@.cur_task));
            }
            self.waiters.push_back((rt.cur_task(), Access::Read));
            let to_base = rt.yield_to_base(Packet::block_on(BlockCause::Lock));
            Poll::Pending((), to_base)
        } else {
            self.state = RwLockState::Read;
            self.reader_count += 1;
            Poll::Ready(RwLockReadGuard { token: () })
        }
    }

    /// One attempt to lock for writing. A lock that nobody holds is taken.
    /// Otherwise the caller is queued as a writer and parks, to attempt
    /// again once it runs again.
    pub fn write<C, R>(&mut self, rt: &mut Runtime<C, R>) -> (r: Poll<RwLockWriteGuard, (), C, R>)
        requires
            old(self).wf(),
            old(rt).wf(),
            old(self).parked(old(rt)@),
            old(self)@.state != RwLockState::Unlocked ==> old(rt)@.in_task(),
        ensures
            final(self).wf(),
            final(rt).wf(),
            old(self)@.state == RwLockState::Unlocked ==> {
                &&& r is Ready
                &&& final(self)@ == (RwLockView { state: RwLockState::Write, ..old(self)@ })
                &&& final(rt)@ == old(rt)@
            },
            old(self)@.state != RwLockState::Unlocked ==> {
                &&& r is Pending
                &&& parks(old(rt)@, final(rt)@, r->Pending_1, BlockCause::Lock)
                &&& final(self)@ == (RwLockView {
                    waiters: old(self)@.waiters.push((old(rt)@.cur_task, Access::Write)),
                    ..old(self)@
                })
            },
    {
        if self.state != RwLockState::Unlocked {
            proof {
                lemma_park_tail(ids(self@.waiters), rt@, BlockCause::Lock, rt@.base->0);
                assert(ids(self@.waiters.push((rt@.cur_task, Access::Write))) =~= ids(
                    self@.waiters,
                ).push(rt@.cur_task));
            }
            self.waiters.push_back((rt.cur_task(), Access::Write));
            let to_base = rt.yield_to_base(Packet::block_on(BlockCause::Lock));
            Poll::Pending((), to_base)
        } else {
            self.state = RwLockState::Write;
            Poll::Ready(RwLockWriteGuard { token: () })
        }
    }

    /// Wakes whom a release lets in: the writer at the front of the queue,
    /// or else every reader in front of the first writer. Who gets the lock
    /// is settled when the woken tasks attempt again.
    pub fn wake_up<C, R>(&mut self, rt: &mut Runtime<C, R>)
        requires
            old(self).wf(),
            old(self)@.state == RwLockState::Unlocked,
            old(rt).wf(),
            old(self).parked(old(rt)@),
        ensures
            final(self).wf(),
            final(rt).wf(),
            final(self).parked(final(rt)@),
            final(self)@ == (RwLockView {
                waiters: old(self)@.waiters.skip(wake_count(old(self)@.waiters) as int),
                ..old(self)@
            }),
            final(rt)@ == old(rt)@.wake_all(
                ids(old(self)@.waiters).take(wake_count(old(self)@.waiters) as int),
            ),
            wake_count(old(self)@.waiters) <= old(self)@.waiters.len(),
    {
        let ghost all = self.waiters@;
        let ghost start = rt@;
        let ghost mut k: int = 0;
        proof {
            assert(all.skip(0) =~= all);
            lemma_wake_none(ids(all), start);
        }
        if self.waiters.len() == 0 {
            proof {
                lemma_leading_reads(all, 0);
            }
        } else if self.waiters[0].1 == Access::Write {
            let (task_id, access) = self.waiters.pop_front().unwrap();
            proof {
                assert(task_id == ids(all)[0]);
                lemma_wake_next(ids(all), start, 0);
            }
            rt.wake_task(task_id);
            proof {
                k = 1;
                assert(self.waiters@ =~= all.skip(1));
            }
        } else {
            while self.waiters.len() > 0 && self.waiters[0].1 == Access::Read
                invariant
                    rt.wf(),
                    0 <= k <= all.len(),
                    all.len() > 0,
                    all[0].1 == Access::Read,
                    ids(all).no_duplicates(),
                    all_parked(ids(all), start),
                    self.waiters@ == all.skip(k),
                    rt@ == start.wake_all(ids(all).take(k)),
                    forall|j: int| 0 <= j < k ==> (#[trigger] all[j]).1 == Access::Read,
                    self.state == old(self).state,
                    self.reader_count == old(self).reader_count,
                    self.data == old(self).data,
                decreases self.waiters@.len(),
            {
                let (task_id, access) = self.waiters.pop_front().unwrap();
                proof {
                    assert(all.skip(k)[0] == all[k]);
                    assert(task_id == ids(all)[k]);
                    lemma_wake_next(ids(all), start, k);
                }
                rt.wake_task(task_id);
                proof {
                    assert(self.waiters@ =~= all.skip(k + 1));
                    k = k + 1;
                }
            }
            proof {
                if k < all.len() {
                    assert(all.skip(k)[0] == all[k]);
                }
                lemma_leading_reads(all, k);
            }
        }
        proof {
            assert(k == wake_count(all));
            lemma_wake_rest(ids(all), start, k);
            assert(ids(all.skip(k)) =~= ids(all).skip(k));
        }
    }
}

impl RwLockReadGuard {
    pub fn deref<'a, T>(&self, rwlock: &'a RwLock<T>) -> (value: &'a T)
        requires
            rwlock@.state == RwLockState::Read,
        ensures
            *value == rwlock@.data,
    {
        &rwlock.data
    }

    /// Gives up one reader's hold. The last reader to leave frees the lock
    /// and wakes whom that lets in.
    pub fn unlock<T, C, R>(self, rwlock: &mut RwLock<T>, rt: &mut Runtime<C, R>)
        requires
            old(rwlock).wf(),
            old(rwlock)@.state == RwLockState::Read,
            old(rt).wf(),
            old(rwlock).parked(old(rt)@),
        ensures
            final(rwlock).wf(),
            final(rt).wf(),
            final(rwlock).parked(final(rt)@),
            old(rwlock)@.reader_count > 1 ==> {
                &&& final(rwlock)@ == (RwLockView {
                    reader_count: (old(rwlock)@.reader_count - 1) as usize,
                    ..old(rwlock)@
                })
                &&& final(rt)@ == old(rt)@
            },
            old(rwlock)@.reader_count == 1 ==> {
                &&& final(rwlock)@ == (RwLockView {
                    state: RwLockState::Unlocked,
                    reader_count: 0,
                    waiters: old(rwlock)@.waiters.skip(wake_count(old(rwlock)@.waiters) as int),
                    ..old(rwlock)@
                })
                &&& final(rt)@ == old(rt)@.wake_all(
                    ids(old(rwlock)@.waiters).take(wake_count(old(rwlock)@.waiters) as int),
                )
            },
    {
        rwlock.reader_count -= 1;
        if rwlock.reader_count == 0 {
            rwlock.state = RwLockState::Unlocked;
            rwlock.wake_up(rt);
        }
    }
}

impl RwLockWriteGuard {
    pub fn deref<'a, T>(&self, rwlock: &'a RwLock<T>) -> (value: &'a T)
        requires
            rwlock@.state == RwLockState::Write,
        ensures
            *value == rwlock@.data,
    {
        &rwlock.data
    }

    pub fn deref_mut<'a, T>(&mut self, rwlock: &'a mut RwLock<T>) -> (value: &'a mut T)
        requires
            old(rwlock)@.state == RwLockState::Write,
        ensures
            *value == old(rwlock)@.data,
            final(rwlock)@ == (RwLockView { data: *final(value), ..old(rwlock)@ }),
    {
        &mut rwlock.data
    }

    /// Frees the lock and wakes whom that lets in.
    pub fn unlock<T, C, R>(self, rwlock: &mut RwLock<T>, rt: &mut Runtime<C, R>)
        requires
            old(rwlock).wf(),
            old(rwlock)@.state == RwLockState::Write,
            old(rt).wf(),
            old(rwlock).parked(old(rt)@),
        ensures
            final(rwlock).wf(),
            final(rt).wf(),
            final(rwlock).parked(final(rt)@),
            final(rwlock)@ == (RwLockView {
                state: RwLockState::Unlocked,
                waiters: old(rwlock)@.waiters.skip(wake_count(old(rwlock)@.waiters) as int),
                ..old(rwlock)@
            }),
            final(rt)@ == old(rt)@.wake_all(
                ids(old(rwlock)@.waiters).take(wake_count(old(rwlock)@.waiters) as int),
            ),
    {
        rwlock.state = RwLockState::Unlocked;
        rwlock.wake_up(rt);
    }
}

} // verus!
