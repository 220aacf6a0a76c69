//! The scheduler's tables and the operations on them.

use vstd::prelude::*;
use std::collections::{HashMap, VecDeque};
use crate::task::BlockCause;
use crate::task::packet::Packet;
use crate::task::task::{cause_of, JoinHandle, Task, TaskState};
use crate::runtime::{Handoff, Step, Transfer, INIT_ACK};

verus! {

broadcast use vstd::std_specs::hash::group_hash_axioms;

/// The scheduler of one thread: every task it tracks, the saved context of
/// each suspended task, and what finished tasks returned. `C` is the type
/// of a machine context and `R` the type of a task's result; the runtime
/// stores both and looks into neither.
pub struct Runtime<C, R> {
    base_cx: Option<C>,
    cxs: HashMap<usize, C>,
    running_tasks: VecDeque<Task>,
    blocking_tasks: HashMap<usize, Task>,
    running: Option<Task>,
    results: HashMap<usize, R>,
    cur_task: usize,
    next_id: usize,
}

/// The runtime as mathematics.
pub struct RuntimeView<C, R> {
    /// The runnable tasks, next to run first.
    pub ready: Seq<usize>,
    /// The parked tasks, each with what it parks on.
    pub blocked: Map<usize, BlockCause>,
    /// The task that has been switched to and has not been settled yet.
    pub running: Option<usize>,
    /// The saved context of every suspended task.
    pub contexts: Map<usize, C>,
    /// The scheduler's own context, held while a task executes.
    pub base: Option<C>,
    /// What finished tasks returned, until it is taken.
    pub results: Map<usize, R>,
    /// The task most recently switched to.
    pub cur_task: usize,
    /// The id the next spawned task gets.
    pub next_id: usize,
}

impl<C, R> RuntimeView<C, R> {
    /// Whether `id` is tracked as runnable, parked or running.
    pub open spec fn is_live(self, id: usize) -> bool {
        self.ready.contains(id) || self.blocked.contains_key(id) || self.running == Some(id)
    }

    /// The state of the task `id`, if the runtime tracks it.
    pub open spec fn state_of(self, id: usize) -> Option<TaskState> {
        if self.running == Some(id) {
            Some(TaskState::Running)
        } else if self.ready.contains(id) {
            Some(TaskState::Ready)
        } else if self.blocked.contains_key(id) {
            Some(TaskState::BlockOn(self.blocked[id]))
        } else if self.results.contains_key(id) {
            Some(TaskState::Finished)
        } else {
            None
        }
    }

    /// The tables are in order. A task is in at most one of them: queued
    /// as ready once, parked, or running. Exactly the queued and the parked
    /// tasks have a saved context. Every id in use has been handed out. A
    /// stored result belongs to a task that is in no table any more. The
    /// scheduler's context is held only while a task is switched to.
    pub open spec fn wf(self) -> bool {
        &&& self.ready.no_duplicates()
        &&& forall|i: int|
            0 <= i < self.ready.len() ==> {
                &&& !self.blocked.contains_key(#[trigger] self.ready[i])
                &&& self.contexts.contains_key(self.ready[i])
                &&& self.ready[i] < self.next_id
                &&& self.running != Some(self.ready[i])
            }
        &&& forall|id: usize| #[trigger]
            self.blocked.contains_key(id) ==> {
                &&& self.contexts.contains_key(id)
                &&& id < self.next_id
                &&& self.running != Some(id)
            }
        &&& forall|id: usize| #[trigger]
            self.contexts.contains_key(id) ==> self.ready.contains(id) || self.blocked.contains_key(
                id,
            )
        &&& forall|id: usize| #[trigger]
            self.results.contains_key(id) ==> {
                &&& id < self.next_id
                &&& !self.ready.contains(id)
                &&& !self.blocked.contains_key(id)
                &&& self.running != Some(id)
            }
        &&& self.running matches Some(id) ==> id == self.cur_task && id < self.next_id
        &&& self.base is Some ==> self.running is Some
    }

    /// A task is executing: it has been switched to and holds the
    /// scheduler's context to switch back to.
    pub open spec fn in_task(self) -> bool {
        &&& self.wf()
        &&& self.running is Some
        &&& self.base is Some
    }

    /// The runtime after the parked task `id` is woken.
    pub open spec fn wake(self, id: usize) -> Self {
        RuntimeView { ready: self.ready.push(id), blocked: self.blocked.remove(id), ..self }
    }

    /// The runtime after the task `id`, if there is one, is woken.
    pub open spec fn wake_opt(self, id: Option<usize>) -> Self {
        match id {
            Some(id) => self.wake(id),
            None => self,
        }
    }

    /// The runtime after the parked tasks `ids` are woken, in order.
    pub open spec fn wake_all(self, ids: Seq<usize>) -> Self {
        RuntimeView {
            ready: self.ready + ids,
            blocked: self.blocked.remove_keys(ids.to_set()),
            ..self
        }
    }

    /// The runtime after a task primed with context `cx` is spawned.
    pub open spec fn spawned(self, cx: C) -> Self {
        RuntimeView {
            ready: self.ready.push(self.next_id),
            contexts: self.contexts.insert(self.next_id, cx),
            next_id: (self.next_id + 1) as usize,
            ..self
        }
    }

    /// The runtime after the task at the front of the ready queue is
    /// switched to.
    pub open spec fn resume_front(self) -> Self {
        RuntimeView {
            ready: self.ready.drop_first(),
            running: Some(self.ready[0]),
            contexts: self.contexts.remove(self.ready[0]),
            cur_task: self.ready[0],
            ..self
        }
    }

    /// The runtime after the current task has yielded, its context saved as
    /// `cx`.
    pub open spec fn requeue(self, cx: C) -> Self {
        RuntimeView {
            ready: self.ready.push(self.cur_task),
            contexts: self.contexts.insert(self.cur_task, cx),
            running: None,
            ..self
        }
    }

    /// The runtime after the current task has returned `value`.
    pub open spec fn finish(self, value: R) -> Self {
        RuntimeView {
            results: self.results.insert(self.cur_task, value),
            running: None,
            ..self
        }
    }

    /// The runtime after the current task is parked on `cause`, its context
    /// saved as `cx`.
    pub open spec fn park(self, cause: BlockCause, cx: C) -> Self {
        RuntimeView {
            blocked: self.blocked.insert(self.cur_task, cause),
            contexts: self.contexts.insert(self.cur_task, cx),
            running: None,
            ..self
        }
    }
}

impl<C, R> RuntimeView<C, R> {
    /// At most one task is running at any time.
    pub proof fn lemma_one_running(self, a: usize, b: usize)
        requires
            self.state_of(a) == Some(TaskState::Running),
            self.state_of(b) == Some(TaskState::Running),
        ensures
            a == b,
    {
    }

    /// A tracked task is in exactly one place: it runs, or it is queued
    /// as ready once, or it is parked; and it has a saved context exactly
    /// when it does not run.
    pub proof fn lemma_one_place(self, id: usize)
        requires
            self.wf(),
            self.is_live(id),
        ensures
            self.running == Some(id) ==> !self.ready.contains(id) && !self.blocked.contains_key(id),
            self.ready.contains(id) ==> !self.blocked.contains_key(id),
            self.contexts.contains_key(id) <==> self.running != Some(id),
            !self.results.contains_key(id),
    {
        if self.ready.contains(id) {
            let i = choose|i: int| 0 <= i < self.ready.len() && self.ready[i] == id;
            assert(!self.blocked.contains_key(self.ready[i]));
        }
    }

    /// The ready queue is first in, first out. Appending a task, which is
    /// what a spawn, a yield and a wake do, leaves every queued task in
    /// front of it and in place; taking the front, which is what the
    /// scheduler does, moves every other task one place forward. So of two
    /// queued tasks the one queued first is resumed first.
    pub proof fn lemma_ready_fifo(ready: Seq<usize>, id: usize, i: int, j: int)
        requires
            0 <= i < j < ready.len(),
        ensures
            ready.push(id)[i] == ready[i],
            ready.push(id)[j] == ready[j],
            ready.push(id)[ready.len() as int] == id,
            ready.drop_first()[j - 1] == ready[j],
            i > 0 ==> ready.drop_first()[i - 1] == ready[i],
    {
    }

    /// A task that returns a value leaves the tables, and the value is kept
    /// under its id: the task is then finished, has no saved context, and
    /// a join of it finds exactly that value.
    pub proof fn lemma_finish_keeps_value(self, value: R)
        requires
            self.wf(),
            self.running is Some,
            self.base is None,
        ensures
            self.finish(value).wf(),
            self.finish(value).results.contains_key(self.cur_task),
            self.finish(value).results[self.cur_task] == value,
            !self.finish(value).contexts.contains_key(self.cur_task),
            self.finish(value).state_of(self.cur_task) == Some(TaskState::Finished),
    {
        let post = self.finish(value);
        if post.contexts.contains_key(self.cur_task) {
            if self.ready.contains(self.cur_task) {
                let i = choose|i: int| 0 <= i < self.ready.len() && self.ready[i] == self.cur_task;
                assert(self.running != Some(self.ready[i]));
            }
        }
        assert forall|id: usize| #[trigger] post.results.contains_key(id) implies {
            &&& id < post.next_id
            &&& !post.ready.contains(id)
            &&& !post.blocked.contains_key(id)
            &&& post.running != Some(id)
        } by {
            if id == self.cur_task {
                if self.ready.contains(id) {
                    let i = choose|i: int| 0 <= i < self.ready.len() && self.ready[i] == id;
                    assert(self.running != Some(self.ready[i]));
                }
            } else {
                assert(self.results.contains_key(id));
            }
        }
    }
}

impl<C, R> View for Runtime<C, R> {
    type V = RuntimeView<C, R>;

    closed spec fn view(&self) -> RuntimeView<C, R> {
        RuntimeView {
            ready: self.running_tasks@.map_values(|t: Task| t.id),
            blocked: self.blocking_tasks@.map_values(|t: Task| cause_of(t.state)),
            running: match self.running {
                Some(t) => Some(t.id),
                None => None,
            },
            contexts: self.cxs@,
            base: self.base_cx,
            results: self.results@,
            cur_task: self.cur_task,
            next_id: self.next_id,
        }
    }
}

impl<C, R> Runtime<C, R> {
    /// Every record sits where its state says.
    pub closed spec fn records_ok(&self) -> bool {
        &&& forall|i: int| 0 <= i < self.running_tasks@.len() ==> (#[trigger] self.running_tasks@[i]).state == TaskState::Ready
        &&& forall|id: usize| #[trigger] self.blocking_tasks@.contains_key(id) ==> {
            &&& self.blocking_tasks@[id].id == id
            &&& self.blocking_tasks@[id].state is BlockOn
        }
        &&& self.running matches Some(t) ==> t.state == TaskState::Running
    }

    /// The tables are in order and every record sits where its state says.
    pub open spec fn wf(&self) -> bool {
        &&& self.records_ok()
        &&& self@.wf()
    }

    /// A task is executing and the tables are in order.
    pub open spec fn in_task(&self) -> bool {
        &&& self.wf()
        &&& self@.in_task()
    }

    pub fn new() -> (rt: Self)
        ensures
            rt.wf(),
            rt@.ready == Seq::<usize>::empty(),
            rt@.blocked == Map::<usize, BlockCause>::empty(),
            rt@.running is None,
            rt@.contexts == Map::<usize, C>::empty(),
            rt@.base is None,
            rt@.results == Map::<usize, R>::empty(),
            rt@.cur_task == usize::MAX,
            rt@.next_id == 0,
    {
        let rt = Self {
            base_cx: None,
            cxs: HashMap::new(),
            running_tasks: VecDeque::new(),
            blocking_tasks: HashMap::new(),
            running: None,
            results: HashMap::new(),
            cur_task: usize::MAX,
            next_id: 0,
        };
        assert(rt@.ready =~= Seq::<usize>::empty());
        assert(rt@.blocked =~= Map::<usize, BlockCause>::empty());
        rt
    }

    pub fn cur_task(&self) -> (id: usize)
        ensures
            id == self@.cur_task,
    {
        self.cur_task
    }

    /// Hands out a fresh task id.
    pub fn next_id(&mut self) -> (id: usize)
        requires
            old(self)@.next_id < usize::MAX,
        ensures
            id == old(self)@.next_id,
            final(self)@ == (RuntimeView { next_id: (id + 1) as usize, ..old(self)@ }),
            final(self).records_ok() == old(self).records_ok(),
            old(self).wf() ==> final(self).wf(),
    {
        self.next_id += 1;
        self.next_id - 1
    }

    /// Takes the scheduler's context and pairs it with `packet`: the
    /// hand-off by which the executing task gives up control.
    pub fn yield_to_base(&mut self, packet: Box<Packet<R>>) -> (to_base: Handoff<C, R>)
        requires
            old(self)@.base is Some,
        ensures
            to_base.context == old(self)@.base->0,
            to_base.packet == packet,
            final(self)@ == (RuntimeView { base: None, ..old(self)@ }),
            final(self).records_ok() == old(self).records_ok(),
            old(self).wf() ==> final(self).wf(),
    {
        let base_cx = self.base_cx.take().unwrap();
        Handoff { context: base_cx, packet }
    }

    /// Moves a parked task to the back of the ready queue.
    pub fn wake_task(&mut self, id: usize)
        requires
            old(self).wf(),
            old(self)@.blocked.contains_key(id),
        ensures
            final(self).wf(),
            final(self)@ == old(self)@.wake(id),
    {
        let mut task = self.blocking_tasks.remove(&id).unwrap();
        task.trans_state(TaskState::Ready);
        self.running_tasks.push_back(task);
        proof {
            assert(self@.ready =~= old(self)@.ready.push(id));
            assert(self@.blocked =~= old(self)@.blocked.remove(id));
            Self::lemma_push_keeps_order(old(self)@.ready, id);
        }
    }

    /// Pushing an id that a duplicate-free queue does not hold keeps it
    /// duplicate-free, and the queue then holds exactly one id more.
    pub proof fn lemma_push_keeps_order(q: Seq<usize>, id: usize)
        requires
            q.no_duplicates(),
            !q.contains(id),
        ensures
            q.push(id).no_duplicates(),
            forall|x: usize| #[trigger] q.push(id).contains(x) <==> (q.contains(x) || x == id),
    {
        assert forall|x: usize| #[trigger] q.push(id).contains(x) <==> (q.contains(x) || x == id) by {
            if q.contains(x) {
                let i = choose|i: int| 0 <= i < q.len() && q[i] == x;
                assert(q.push(id)[i] == x);
            }
            if x == id {
                assert(q.push(id)[q.len() as int] == x);
            }
        }
    }

    /// Files a freshly primed task at the back of the ready queue.
    pub fn spawn(&mut self, primed: Transfer<C>) -> (handle: JoinHandle<R>)
        requires
            old(self).wf(),
            old(self)@.next_id < usize::MAX,
            primed.data == INIT_ACK,
        ensures
            final(self).wf(),
            handle.task() == old(self)@.next_id,
            final(self)@ == old(self)@.spawned(primed.context),
    {
        let id = self.next_id();
        let (task, init_cx) = Task::new(id, primed);
        self.running_tasks.push_back(task);
        self.cxs.insert(id, init_cx);
        proof {
            assert(self@.ready =~= old(self)@.ready.push(id));
            assert(self@.blocked =~= old(self)@.blocked);
            Self::lemma_push_keeps_order(old(self)@.ready, id);
        }
        JoinHandle::new(id)
    }

    /// Starts a run: spawns the root task. The scheduler must be at rest,
    /// with no task switched to.
    pub fn block_on(&mut self, primed: Transfer<C>) -> (root: JoinHandle<R>)
        requires
            old(self).wf(),
            old(self)@.running is None,
            old(self)@.next_id < usize::MAX,
            primed.data == INIT_ACK,
        ensures
            final(self).wf(),
            root.task() == old(self)@.next_id,
            final(self)@ == old(self)@.spawned(primed.context),
    {
        self.spawn(primed)
    }

    /// One turn of the drain loop, up to the switch: the task at the front
    /// of the ready queue becomes the current task and its context is
    /// handed out to be switched to. With nothing runnable the loop idles
    /// while tasks are parked and ends when none is.
    pub fn next_step(&mut self) -> (step: Step<C>)
        requires
            old(self).wf(),
            old(self)@.running is None,
        ensures
            final(self).wf(),
            old(self)@.ready.len() > 0 ==> {
                &&& step == Step::Resume(
                    Transfer { context: old(self)@.contexts[old(self)@.ready[0]], data: 0 },
                )
                &&& final(self)@ == old(self)@.resume_front()
            },
            old(self)@.ready.len() == 0 ==> {
                &&& final(self)@ == old(self)@
                &&& step == (if old(self)@.blocked.is_empty() {
                    Step::<C>::Done
                } else {
                    Step::<C>::Idle
                })
            },
    {
        match self.running_tasks.pop_front() {
            Some(mut task) => {
                self.cur_task = task.id();
                let to_task = task.resume(self);
                self.running = Some(task);
                proof {
                    let prev = old(self)@;
                    assert(prev.ready[0] == task.id);
                    assert(self@.ready =~= prev.ready.drop_first());
                    assert(self@.blocked =~= prev.blocked);
                    assert forall|i: int| 0 <= i < self@.ready.len() implies #[trigger] self@.ready[i]
                        == prev.ready[i + 1] by {}
                    assert forall|x: usize| #[trigger]
                        self@.contexts.contains_key(x) implies self@.ready.contains(x)
                        || self@.blocked.contains_key(x) by {
                        if prev.ready.contains(x) {
                            let i = choose|i: int| 0 <= i < prev.ready.len() && prev.ready[i] == x;
                            assert(self@.ready[i - 1] == x);
                        }
                    }
                }
                Step::Resume(to_task)
            },
            None => {
                proof {
                    assert(self@.ready =~= old(self)@.ready);
                    assert(self@.blocked.dom() =~= self.blocking_tasks@.dom());
                }
                if !self.blocking_tasks.is_empty() {
                    Step::Idle
                } else {
                    Step::Done
                }
            },
        }
    }

    /// One turn of the drain loop, from the moment control is back: files
    /// the current task by the packet it handed over. A result finishes the
    /// task and is kept for its join handle; a yield sends the task to the
    /// back of the ready queue; a block parks it.
    pub fn settle(&mut self, from_task: Handoff<C, R>)
        requires
            old(self).wf(),
            old(self)@.running is Some,
            old(self)@.base is None,
        ensures
            final(self).wf(),
            match *from_task.packet {
                Packet::Result(value) => final(self)@ == old(self)@.finish(*value),
                Packet::Yield => final(self)@ == old(self)@.requeue(from_task.context),
                Packet::BlockOn(cause) => final(self)@ == old(self)@.park(cause, from_task.context),
            },
    {
        let mut task = self.running.take().unwrap();
        let ghost prev = old(self)@;
        proof {
            assert(!prev.contexts.contains_key(prev.cur_task));
            assert(!prev.results.contains_key(prev.cur_task));
        }
        task.resumed(self, from_task);
        match task.state() {
            TaskState::Ready => {
                self.running_tasks.push_back(task);
                proof {
                    assert(self@.ready =~= prev.ready.push(prev.cur_task));
                    assert(self@.blocked =~= prev.blocked);
                    Self::lemma_push_keeps_order(prev.ready, prev.cur_task);
                }
            },
            TaskState::BlockOn(cause) => {
                let prior = self.blocking_tasks.insert(task.id(), task);
                proof {
                    assert(self@.ready =~= prev.ready);
                    assert(self@.blocked =~= prev.blocked.insert(prev.cur_task, cause));
                }
            },
            TaskState::Finished | TaskState::Running => {
                proof {
                    assert(self@.ready =~= prev.ready);
                    assert(self@.blocked =~= prev.blocked);
                }
            },
        }
    }

    /// Removes and returns the saved context of the current task.
    pub fn get_cur_cx(&mut self) -> (cx: Option<C>)
        ensures
            cx == (if old(self)@.contexts.contains_key(old(self)@.cur_task) {
                Some(old(self)@.contexts[old(self)@.cur_task])
            } else {
                None
            }),
            final(self)@ == (RuntimeView {
                contexts: old(self)@.contexts.remove(old(self)@.cur_task),
                ..old(self)@
            }),
            final(self).records_ok() == old(self).records_ok(),
    {
        self.cxs.remove(&self.cur_task)
    }

    /// Saves `cx` as the context of the current task.
    pub fn set_cur_cx(&mut self, cx: C)
        requires
            !old(self)@.contexts.contains_key(old(self)@.cur_task),
        ensures
            final(self)@ == (RuntimeView {
                contexts: old(self)@.contexts.insert(old(self)@.cur_task, cx),
                ..old(self)@
            }),
            final(self).records_ok() == old(self).records_ok(),
    {
        let prev = self.cxs.insert(self.cur_task, cx);
    }

    /// Stores the scheduler's context, which a task receives each time it
    /// is switched to.
    pub fn set_base_cx(&mut self, cx: C)
        requires
            old(self)@.base is None,
        ensures
            final(self)@ == (RuntimeView { base: Some(cx), ..old(self)@ }),
            final(self).records_ok() == old(self).records_ok(),
            old(self).wf() && old(self)@.running is Some ==> final(self)@.in_task() && final(self).wf(),
    {
        self.base_cx = Some(cx);
    }

    /// Takes the scheduler's context, if it is held.
    pub fn get_base_cx(&mut self) -> (cx: Option<C>)
        ensures
            cx == old(self)@.base,
            final(self)@ == (RuntimeView { base: None, ..old(self)@ }),
            final(self).records_ok() == old(self).records_ok(),
            old(self).wf() ==> final(self).wf(),
    {
        self.base_cx.take()
    }

    /// Stores what the task `id` returned.
    pub fn set_result(&mut self, id: usize, value: R)
        requires
            !old(self)@.results.contains_key(id),
        ensures
            final(self)@ == (RuntimeView {
                results: old(self)@.results.insert(id, value),
                ..old(self)@
            }),
            final(self).records_ok() == old(self).records_ok(),
    {
        let prev = self.results.insert(id, value);
    }

    /// Takes what the task `id` returned, if it has finished and the value
    /// has not been taken.
    pub fn take_result(&mut self, id: usize) -> (value: Option<R>)
        ensures
            value == (if old(self)@.results.contains_key(id) {
                Some(old(self)@.results[id])
            } else {
                None
            }),
            final(self)@ == (RuntimeView {
                results: old(self)@.results.remove(id),
                ..old(self)@
            }),
            final(self).records_ok() == old(self).records_ok(),
            old(self).wf() ==> final(self).wf(),
    {
        self.results.remove(&id)
    }

    /// Whether another task can be spawned: an id is left to give it.
    pub fn can_spawn(&self) -> (b: bool)
        ensures
            b == (self@.next_id < usize::MAX),
    {
        self.next_id < usize::MAX
    }

    /// Whether a task has been switched to and has not been settled yet.
    pub fn has_running(&self) -> (b: bool)
        ensures
            b == (self@.running is Some),
    {
        self.running.is_some()
    }

    /// Whether a task is executing: one has been switched to and holds the
    /// scheduler's context.
    pub fn is_in_task(&self) -> (b: bool)
        ensures
            b == (self@.running is Some && self@.base is Some),
    {
        self.running.is_some() && self.base_cx.is_some()
    }

    /// The state of the task `id`: running, ready, parked, or finished
    /// with its result not yet taken. `None` if the runtime knows no such
    /// task.
    pub fn task_state(&self, id: usize) -> (state: Option<TaskState>)
        requires
            self.wf(),
        ensures
            state == self@.state_of(id),
    {
        match &self.running {
            Some(task) => {
                if task.id() == id {
                    return Some(task.state());
                }
            },
            None => {},
        }
        let mut i: usize = 0;
        while i < self.running_tasks.len()
            invariant
                self.wf(),
                self@.running != Some(id),
                0 <= i <= self.running_tasks@.len(),
                forall|j: int| 0 <= j < i ==> (#[trigger] self.running_tasks@[j]).id != id,
            decreases self.running_tasks@.len() - i,
        {
            if self.running_tasks[i].id() == id {
                proof {
                    assert(self@.ready[i as int] == id);
                    assert(self@.ready.contains(id));
                    assert(self.running_tasks@[i as int].state == TaskState::Ready);
                }
                return Some(self.running_tasks[i].state());
            }
            i += 1;
        }
        proof {
            if self@.ready.contains(id) {
                let j = choose|j: int| 0 <= j < self@.ready.len() && self@.ready[j] == id;
                assert(self.running_tasks@[j].id == id);
            }
            assert(self@.blocked.dom() =~= self.blocking_tasks@.dom());
        }
        match self.blocking_tasks.get(&id) {
            Some(task) => Some(task.state()),
            None => {
                if self.results.contains_key(&id) {
                    Some(TaskState::Finished)
                } else {
                    None
                }
            },
        }
    }

    /// Whether the task `id` is parked.
    pub fn is_blocked(&self, id: usize) -> (b: bool)
        ensures
            b == self@.blocked.contains_key(id),
    {
        self.blocking_tasks.contains_key(&id)
    }

    /// Whether the task `id` is suspended, that is, has a saved context.
    pub fn is_suspended(&self, id: usize) -> (b: bool)
        ensures
            b == self@.contexts.contains_key(id),
    {
        self.cxs.contains_key(&id)
    }

    /// Whether the task `id` has finished and its value has not been taken.
    pub fn has_result(&self, id: usize) -> (b: bool)
        ensures
            b == self@.results.contains_key(id),
    {
        self.results.contains_key(&id)
    }
}

} // verus!
