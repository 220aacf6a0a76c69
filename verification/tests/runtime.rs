use fib::runtime::runtime::Runtime;
use fib::runtime::{Handoff, Poll, Step, Transfer, INIT_ACK};
use fib::task::packet::Packet;
use fib::task::task::{JoinHandle, Task, TaskState};
use fib::task::{spawn, wait, yield_now, BlockCause};

type Rt = Runtime<u32, i64>;

const BASE: u32 = 9000;

fn primed(cx: u32) -> Transfer<u32> {
    Transfer { context: cx, data: INIT_ACK }
}

/// Switches into the task at the front of the ready queue.
fn enter(rt: &mut Rt) -> (usize, u32) {
    match rt.next_step() {
        Step::Resume(to_task) => {
            assert_eq!(to_task.data, 0);
            rt.set_base_cx(BASE);
            (rt.cur_task(), to_task.context)
        }
        _ => panic!("a task must be runnable"),
    }
}

/// Hands the current task's packet to the scheduler.
fn leave(rt: &mut Rt, to_base: Handoff<u32, i64>, cx: u32) {
    assert_eq!(to_base.context, BASE);
    rt.settle(Handoff { context: cx, packet: to_base.packet });
}

#[test]
fn new_runtime_has_nothing_to_do() {
    let mut rt: Rt = Runtime::new();
    assert_eq!(rt.cur_task(), usize::MAX);
    assert!(!rt.is_in_task());
    assert!(matches!(rt.next_step(), Step::Done));
    let h = rt.block_on(primed(7));
    assert_eq!(h.id(), 0);
    assert!(rt.is_suspended(0));
    assert_eq!(rt.task_state(0), Some(TaskState::Ready));
    match rt.next_step() {
        Step::Resume(t) => {
            assert_eq!(t.context, 7);
            assert_eq!(t.data, 0);
        }
        _ => panic!("the root task must be resumed"),
    }
    assert_eq!(rt.cur_task(), 0);
    assert!(!rt.is_suspended(0));
    assert_eq!(rt.task_state(0), Some(TaskState::Running));
}

#[test]
fn ids_are_handed_out_in_order() {
    let mut rt: Rt = Runtime::new();
    assert_eq!(rt.next_id(), 0);
    assert_eq!(rt.next_id(), 1);
    let h: JoinHandle<i64> = spawn(&mut rt, primed(1));
    assert_eq!(h.id(), 2);
    assert!(!h.is_finished(&rt));
}

#[test]
fn task_record_starts_ready() {
    let (mut task, cx) = Task::new(3, primed(77));
    assert_eq!(cx, 77);
    assert_eq!(task.id(), 3);
    assert_eq!(task.state(), TaskState::Ready);
    task.trans_state(TaskState::BlockOn(BlockCause::Notify));
    assert_eq!(task.state(), TaskState::BlockOn(BlockCause::Notify));
    assert_eq!(task.id(), 3);
}

#[test]
fn task_resume_takes_the_context_and_acts_on_the_packet() {
    let mut rt: Rt = Runtime::new();
    rt.set_cur_cx(11);
    let (mut task, _) = Task::new(rt.cur_task(), primed(0));
    let to_task = task.resume(&mut rt);
    assert_eq!(to_task.context, 11);
    assert_eq!(to_task.data, 0);
    assert_eq!(task.state(), TaskState::Running);
    assert!(rt.get_cur_cx().is_none());
    task.resumed(&mut rt, Handoff { context: 12, packet: Packet::block_on(BlockCause::Channel) });
    assert_eq!(task.state(), TaskState::BlockOn(BlockCause::Channel));
    assert_eq!(rt.get_cur_cx(), Some(12));
    task.trans_state(TaskState::Running);
    task.resumed(&mut rt, Handoff { context: 13, packet: Packet::_yield() });
    assert_eq!(task.state(), TaskState::Ready);
    assert_eq!(rt.get_cur_cx(), Some(13));
    task.trans_state(TaskState::Running);
    task.resumed(&mut rt, Handoff { context: 14, packet: Packet::result(-5) });
    assert_eq!(task.state(), TaskState::Finished);
    assert_eq!(rt.get_cur_cx(), None);
    assert!(rt.has_result(task.id()));
    assert_eq!(rt.take_result(task.id()), Some(-5));
    assert_eq!(rt.take_result(task.id()), None);
}

#[test]
fn packets_say_what_they_were_built_from() {
    assert!(matches!(*Packet::<i64>::_yield(), Packet::Yield));
    assert!(matches!(*Packet::<i64>::block_on(BlockCause::Barrier), Packet::BlockOn(BlockCause::Barrier)));
    match *Packet::result(41i64) {
        Packet::Result(v) => assert_eq!(*v, 41),
        _ => panic!("a result packet carries the value"),
    }
}

#[test]
fn base_context_is_held_exactly_while_a_task_executes() {
    let mut rt: Rt = Runtime::new();
    assert_eq!(rt.get_base_cx(), None);
    rt.block_on(primed(1));
    let (id, cx) = enter(&mut rt);
    assert_eq!((id, cx), (0, 1));
    assert!(rt.is_in_task());
    let to_base = rt.yield_to_base(Packet::_yield());
    assert_eq!(to_base.context, BASE);
    assert!(!rt.is_in_task());
    rt.set_base_cx(BASE + 1);
    assert_eq!(rt.get_base_cx(), Some(BASE + 1));
    assert_eq!(rt.get_base_cx(), None);
}

#[test]
fn ready_queue_is_first_in_first_out() {
    let mut rt: Rt = Runtime::new();
    for cx in 0..3 {
        rt.spawn(primed(cx));
    }
    // 0 yields, 1 spawns 3 and yields, 2 yields: order is then 0 3 1 2
    let (id, cx) = enter(&mut rt);
    assert_eq!(id, 0);
    let h = yield_now(&mut rt);
    leave(&mut rt, h, cx);
    let (id, cx) = enter(&mut rt);
    assert_eq!(id, 1);
    let child: JoinHandle<i64> = spawn(&mut rt, primed(3));
    assert_eq!(child.id(), 3);
    let h = yield_now(&mut rt);
    leave(&mut rt, h, cx);
    let mut order = Vec::new();
    for _ in 0..4 {
        let (id, cx) = enter(&mut rt);
        order.push(id);
        let h = yield_now(&mut rt);
        leave(&mut rt, h, cx);
    }
    assert_eq!(order, vec![2, 0, 3, 1]);
}

#[test]
fn woken_task_goes_to_the_back_of_the_ready_queue() {
    let mut rt: Rt = Runtime::new();
    for cx in 0..3 {
        rt.spawn(primed(cx));
    }
    let (id, cx) = enter(&mut rt);
    assert_eq!(id, 0);
    let h = rt.yield_to_base(Packet::block_on(BlockCause::Notify));
    leave(&mut rt, h, cx);
    assert!(rt.is_blocked(0));
    assert!(rt.is_suspended(0));
    assert_eq!(rt.task_state(0), Some(TaskState::BlockOn(BlockCause::Notify)));
    let (id, cx1) = enter(&mut rt);
    assert_eq!(id, 1);
    rt.wake_task(0);
    assert!(!rt.is_blocked(0));
    assert_eq!(rt.task_state(0), Some(TaskState::Ready));
    let h = yield_now(&mut rt);
    leave(&mut rt, h, cx1);
    let mut order = Vec::new();
    for _ in 0..3 {
        let (id, cx) = enter(&mut rt);
        order.push(id);
        let h = yield_now(&mut rt);
        leave(&mut rt, h, cx);
    }
    assert_eq!(order, vec![2, 0, 1]);
}

#[test]
fn at_most_one_task_runs() {
    let mut rt: Rt = Runtime::new();
    for cx in 0..4 {
        rt.spawn(primed(cx));
    }
    for _ in 0..8 {
        let (id, cx) = enter(&mut rt);
        let running: Vec<usize> =
            (0..4).filter(|t| rt.task_state(*t) == Some(TaskState::Running)).collect();
        assert_eq!(running, vec![id]);
        let h = yield_now(&mut rt);
        leave(&mut rt, h, cx);
        let running = (0..4).filter(|t| rt.task_state(*t) == Some(TaskState::Running)).count();
        assert_eq!(running, 0);
    }
}

#[test]
fn loop_idles_while_tasks_are_parked_and_ends_when_none_is() {
    let mut rt: Rt = Runtime::new();
    rt.block_on(primed(0));
    let (_, cx) = enter(&mut rt);
    let h = rt.yield_to_base(Packet::block_on(BlockCause::Lock));
    leave(&mut rt, h, cx);
    assert!(matches!(rt.next_step(), Step::Idle));
    assert!(matches!(rt.next_step(), Step::Idle));
    rt.wake_task(0);
    let (id, _) = enter(&mut rt);
    assert_eq!(id, 0);
    let h = rt.yield_to_base(Packet::result(3));
    leave(&mut rt, h, 0);
    assert!(matches!(rt.next_step(), Step::Done));
    assert_eq!(rt.take_result(0), Some(3));
}

#[test]
fn join_yields_until_the_task_is_gone_and_returns_its_value() {
    let mut rt: Rt = Runtime::new();
    rt.block_on(primed(0));
    let (_, root_cx) = enter(&mut rt);
    let child: JoinHandle<i64> = spawn(&mut rt, primed(1));
    assert!(!child.is_finished(&rt));
    // the child is suspended: the root yields
    let child = match child.join(&mut rt) {
        Poll::Pending(h, to_base) => {
            assert!(matches!(*to_base.packet, Packet::Yield));
            leave(&mut rt, to_base, root_cx);
            h
        }
        Poll::Ready(_) => panic!("a suspended task cannot be joined yet"),
    };
    // the child runs and returns 1234
    let (id, _) = enter(&mut rt);
    assert_eq!(id, 1);
    let h = rt.yield_to_base(Packet::result(1234));
    leave(&mut rt, h, 1);
    assert!(child.is_finished(&rt));
    assert_eq!(rt.task_state(1), Some(TaskState::Finished));
    assert!(!rt.is_suspended(1));
    // the root runs again and gets exactly that value
    let (id, _) = enter(&mut rt);
    assert_eq!(id, 0);
    match child.join(&mut rt) {
        Poll::Ready(v) => assert_eq!(v, 1234),
        Poll::Pending(..) => panic!("a finished task is joined at once"),
    }
    assert!(!rt.has_result(1));
}

#[test]
fn wait_yields_only_for_a_suspended_task() {
    let mut rt: Rt = Runtime::new();
    rt.block_on(primed(0));
    let other: JoinHandle<i64> = spawn(&mut rt, primed(1));
    let (id, _) = enter(&mut rt);
    assert_eq!(id, 0);
    // the running task itself has no saved context
    assert!(wait(&mut rt, 0).is_none());
    assert!(wait(&mut rt, 17).is_none());
    assert!(rt.is_in_task());
    let to_base = wait(&mut rt, other.id()).unwrap();
    assert!(matches!(*to_base.packet, Packet::Yield));
    assert_eq!(to_base.context, BASE);
    assert!(!rt.is_in_task());
}
