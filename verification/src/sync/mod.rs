//! Synchronization primitives.
//!
//! Each primitive keeps the ids of the tasks parked on it in arrival order.
//! A task that cannot proceed is appended to such a list and handed a
//! `BlockOn` hand-off to perform; a releasing task pops ids and wakes them.

use vstd::prelude::*;
use std::collections::VecDeque;
use crate::runtime::runtime::{Runtime, RuntimeView};
use crate::task::BlockCause;

pub mod barrier;
pub mod mpsc;
pub mod mutex;
pub mod notify;
pub mod oneshot;
pub mod rwlock;
pub mod semaphore;

pub use barrier::Barrier;
pub use mutex::{Mutex, MutexGuard};
pub use notify::Notify;
pub use rwlock::{RwLock, RwLockReadGuard, RwLockWriteGuard};
pub use semaphore::Semaphore;

verus! {

/// Every task in `waiters` is parked in `rt`.
pub open spec fn all_parked<C, R>(waiters: Seq<usize>, rt: RuntimeView<C, R>) -> bool {
    forall|i: int| 0 <= i < waiters.len() ==> rt.blocked.contains_key(#[trigger] waiters[i])
}

/// Waking the head of a duplicate-free list of parked tasks leaves the rest
/// parked.
pub proof fn lemma_wake_head<C, R>(waiters: Seq<usize>, rt: RuntimeView<C, R>)
    requires
        waiters.len() > 0,
        waiters.no_duplicates(),
        all_parked(waiters, rt),
    ensures
        waiters.drop_first().no_duplicates(),
        all_parked(waiters.drop_first(), rt.wake(waiters[0])),
        !waiters.drop_first().contains(waiters[0]),
{
    let rest = waiters.drop_first();
    assert forall|i: int| 0 <= i < rest.len() implies rest[i] == waiters[i + 1] by {}
    assert forall|i: int| 0 <= i < rest.len() implies rt.wake(waiters[0]).blocked.contains_key(
        #[trigger] rest[i],
    ) by {
        assert(rest[i] == waiters[i + 1]);
    }
}

/// A running task is on no list of parked tasks; appending it keeps the
/// list duplicate-free, and once the task is parked the whole list is.
pub proof fn lemma_park_tail<C, R>(
    waiters: Seq<usize>,
    rt: RuntimeView<C, R>,
    cause: BlockCause,
    cx: C,
)
    requires
        rt.wf(),
        rt.running is Some,
        waiters.no_duplicates(),
        all_parked(waiters, rt),
    ensures
        !waiters.contains(rt.cur_task),
        waiters.push(rt.cur_task).no_duplicates(),
        all_parked(waiters.push(rt.cur_task), rt.park(cause, cx)),
{
    if waiters.contains(rt.cur_task) {
        let i = choose|i: int| 0 <= i < waiters.len() && waiters[i] == rt.cur_task;
        assert(rt.blocked.contains_key(waiters[i]));
    }
}

/// Waking the first `k` tasks of a duplicate-free list of parked tasks
/// leaves the next one parked, and waking that one too is waking the first
/// `k + 1`.
pub proof fn lemma_wake_next<C, R>(all: Seq<usize>, start: RuntimeView<C, R>, k: int)
    requires
        0 <= k < all.len(),
        all.no_duplicates(),
        all_parked(all, start),
    ensures
        start.wake_all(all.take(k)).blocked.contains_key(all[k]),
        start.wake_all(all.take(k)).wake(all[k]) == start.wake_all(all.take(k + 1)),
{
    let t0 = all.take(k);
    let t1 = all.take(k + 1);
    let id = all[k];
    assert(!t0.contains(id)) by {
        if t0.contains(id) {
            let i = choose|i: int| 0 <= i < t0.len() && t0[i] == id;
            assert(all[i] == all[k]);
        }
    }
    assert(start.blocked.contains_key(all[k]));
    assert(t1 =~= t0.push(id));
    assert(t1.to_set() =~= t0.to_set().insert(id)) by {
        assert forall|x: usize| t1.to_set().contains(x) <==> t0.to_set().insert(id).contains(
            x,
        ) by {
            if t1.contains(x) {
                let i = choose|i: int| 0 <= i < t1.len() && t1[i] == x;
                if i < k {
                    assert(t0[i] == x);
                }
            }
            if t0.contains(x) {
                let i = choose|i: int| 0 <= i < t0.len() && t0[i] == x;
                assert(t1[i] == x);
            }
            if x == id {
                assert(t1[k] == x);
            }
        }
    }
    assert((start.ready + t0).push(id) =~= start.ready + t1);
    assert(start.blocked.remove_keys(t0.to_set()).remove(id) =~= start.blocked.remove_keys(
        t1.to_set(),
    ));
}

/// Waking none of a list of tasks changes nothing.
pub proof fn lemma_wake_none<C, R>(all: Seq<usize>, start: RuntimeView<C, R>)
    ensures
        start.wake_all(all.take(0)) == start,
        all.skip(0) == all,
{
    assert(all.take(0) =~= Seq::<usize>::empty());
    assert(all.skip(0) =~= all);
    assert(start.ready + all.take(0) =~= start.ready);
    assert(all.take(0).to_set() =~= Set::<usize>::empty());
    assert(start.blocked.remove_keys(all.take(0).to_set()) =~= start.blocked);
}

/// After the first `k` tasks of a duplicate-free list of parked tasks are
/// woken, the rest are still parked.
pub proof fn lemma_wake_rest<C, R>(all: Seq<usize>, start: RuntimeView<C, R>, k: int)
    requires
        0 <= k <= all.len(),
        all.no_duplicates(),
        all_parked(all, start),
    ensures
        all.skip(k).no_duplicates(),
        all_parked(all.skip(k), start.wake_all(all.take(k))),
{
    let rest = all.skip(k);
    let woken = all.take(k);
    assert forall|i: int| 0 <= i < rest.len() implies start.wake_all(woken).blocked.contains_key(
        #[trigger] rest[i],
    ) by {
        assert(rest[i] == all[k + i]);
        if woken.contains(rest[i]) {
            let j = choose|j: int| 0 <= j < woken.len() && woken[j] == rest[i];
            assert(all[j] == all[k + i]);
        }
    }
}

/// Waking the tasks of one waiter list leaves the tasks of a list that
/// shares no task with it parked.
pub proof fn lemma_wake_spares_others<C, R>(
    other: Seq<usize>,
    woken: Seq<usize>,
    rt: RuntimeView<C, R>,
)
    requires
        all_parked(other, rt),
        forall|i: int, j: int|
            0 <= i < other.len() && 0 <= j < woken.len() ==> other[i] != woken[j],
    ensures
        all_parked(other, rt.wake_all(woken)),
{
    assert forall|i: int| 0 <= i < other.len() implies rt.wake_all(woken).blocked.contains_key(
        #[trigger] other[i],
    ) by {
        if woken.contains(other[i]) {
            let j = choose|j: int| 0 <= j < woken.len() && woken[j] == other[i];
            assert(other[i] != woken[j]);
        }
    }
}

/// A task that parks on one waiter list is on no other list of parked
/// tasks, and its parking leaves the tasks of every such list parked.
pub proof fn lemma_park_spares_others<C, R>(
    other: Seq<usize>,
    rt: RuntimeView<C, R>,
    cause: BlockCause,
    cx: C,
)
    requires
        rt.wf(),
        rt.running is Some,
        all_parked(other, rt),
    ensures
        !other.contains(rt.cur_task),
        all_parked(other, rt.park(cause, cx)),
{
    if other.contains(rt.cur_task) {
        let i = choose|i: int| 0 <= i < other.len() && other[i] == rt.cur_task;
        assert(rt.blocked.contains_key(other[i]));
    }
}

/// Wakes every task in `waiters`, front first, and empties the list.
pub fn wake_all<C, R>(waiters: &mut VecDeque<usize>, rt: &mut Runtime<C, R>)
    requires
        old(rt).wf(),
        old(waiters)@.no_duplicates(),
        all_parked(old(waiters)@, old(rt)@),
    ensures
        final(rt).wf(),
        final(waiters)@ == Seq::<usize>::empty(),
        final(rt)@ == old(rt)@.wake_all(old(waiters)@),
{
    let ghost all = waiters@;
    let ghost start = rt@;
    let ghost mut k: int = 0;
    proof {
        lemma_wake_none(all, start);
    }
    while waiters.len() > 0
        invariant
            rt.wf(),
            0 <= k <= all.len(),
            all.no_duplicates(),
            all_parked(all, start),
            waiters@ == all.skip(k),
            rt@ == start.wake_all(all.take(k)),
        decreases waiters@.len(),
    {
        let id = waiters.pop_front().unwrap();
        proof {
            assert(id == all[k]);
            lemma_wake_next(all, start, k);
        }
        rt.wake_task(id);
        proof {
            assert(waiters@ =~= all.skip(k + 1));
            k = k + 1;
        }
    }
    proof {
        assert(waiters@ =~= Seq::<usize>::empty());
        assert(all.take(k) =~= all);
    }
}

/// Whether every task in `waiters` is parked in `rt`.
pub fn all_blocked<C, R>(waiters: &VecDeque<usize>, rt: &Runtime<C, R>) -> (b: bool)
    ensures
        b == all_parked(waiters@, rt@),
{
    let mut i: usize = 0;
    while i < waiters.len()
        invariant
            0 <= i <= waiters@.len(),
            forall|j: int| 0 <= j < i ==> rt@.blocked.contains_key(#[trigger] waiters@[j]),
        decreases waiters@.len() - i,
    {
        if !rt.is_blocked(waiters[i]) {
            return false;
        }
        i += 1;
    }
    true
}

} // verus!
