use fib::runtime::runtime::Runtime;
use fib::runtime::{Handoff, Poll, Step, Transfer, INIT_ACK};
use fib::sync::Notify;
use fib::task::packet::Packet;
use fib::task::{yield_now, BlockCause};

type Rt = Runtime<u32, i64>;

const BASE: u32 = 9000;

fn runtime_with(tasks: usize) -> Rt {
    let mut rt: Rt = Runtime::new();
    for id in 0..tasks {
        rt.spawn(Transfer { context: id as u32, data: INIT_ACK });
    }
    rt
}

fn enter(rt: &mut Rt) -> usize {
    match rt.next_step() {
        Step::Resume(to_task) => {
            assert_eq!(to_task.data, 0);
            rt.set_base_cx(BASE);
            rt.cur_task()
        }
        _ => panic!("a task must be runnable"),
    }
}

fn leave(rt: &mut Rt, to_base: Handoff<u32, i64>) {
    assert_eq!(to_base.context, BASE);
    let cx = rt.cur_task() as u32;
    rt.settle(Handoff { context: cx, packet: to_base.packet });
}

fn pass(rt: &mut Rt) {
    let h = yield_now(rt);
    leave(rt, h);
}

/// Parks the first `n` tasks on `notify`, in order.
fn park(rt: &mut Rt, notify: &mut Notify, n: usize) {
    for id in 0..n {
        assert_eq!(enter(rt), id);
        match notify.wait(rt) {
            Poll::Pending((), to_base) => {
                assert!(matches!(*to_base.packet, Packet::BlockOn(BlockCause::Notify)));
                leave(rt, to_base);
            }
            Poll::Ready(()) => panic!("no permit is stored"),
        }
        assert!(rt.is_blocked(id));
    }
}

#[test]
fn notifications_without_waiters_store_one_permit() {
    let mut rt = runtime_with(1);
    let mut n = Notify::new();
    assert_eq!(enter(&mut rt), 0);
    n.notify_one(&mut rt);
    n.notify_one(&mut rt);
    n.notify_last(&mut rt);
    n.notify_one(&mut rt);
    // the next wait goes through, the one after it parks
    assert!(matches!(n.wait(&mut rt), Poll::Ready(())));
    assert!(matches!(n.wait(&mut rt), Poll::Pending(..)));
}

#[test]
fn notify_one_wakes_the_longest_waiter() {
    let mut rt = runtime_with(4);
    let mut n = Notify::new();
    park(&mut rt, &mut n, 3);
    assert_eq!(enter(&mut rt), 3);
    n.notify_one(&mut rt);
    assert!(!rt.is_blocked(0));
    assert!(rt.is_blocked(1));
    assert!(rt.is_blocked(2));
    assert!(n.is_parked(&rt));
    // no permit was stored: a waiter was there to take the notification
    n.notify_one(&mut rt);
    assert!(!rt.is_blocked(1));
    assert!(rt.is_blocked(2));
}

#[test]
fn notify_last_wakes_the_shortest_waiter() {
    let mut rt = runtime_with(4);
    let mut n = Notify::new();
    park(&mut rt, &mut n, 3);
    assert_eq!(enter(&mut rt), 3);
    n.notify_last(&mut rt);
    assert!(rt.is_blocked(0));
    assert!(rt.is_blocked(1));
    assert!(!rt.is_blocked(2));
    assert!(n.is_parked(&rt));
}

#[test]
fn notify_waiters_wakes_all_in_order_and_stores_nothing() {
    let mut rt = runtime_with(4);
    let mut n = Notify::new();
    park(&mut rt, &mut n, 3);
    assert_eq!(enter(&mut rt), 3);
    n.notify_waiters(&mut rt);
    assert!((0..3).all(|id| !rt.is_blocked(id)));
    // nothing is stored: the caller itself would park now
    n.notify_waiters(&mut rt);
    pass(&mut rt);
    let order: Vec<usize> = (0..3)
        .map(|_| {
            let id = enter(&mut rt);
            pass(&mut rt);
            id
        })
        .collect();
    assert_eq!(order, vec![0, 1, 2]);
    assert_eq!(enter(&mut rt), 3);
    assert!(matches!(n.wait(&mut rt), Poll::Pending(..)));
}

#[test]
fn waking_the_waiters_of_one_primitive_leaves_those_of_another_parked() {
    let mut rt = runtime_with(5);
    let mut first = Notify::new();
    let mut second = Notify::new();
    for id in 0..4 {
        assert_eq!(enter(&mut rt), id);
        let on = if id % 2 == 0 { &mut first } else { &mut second };
        match on.wait(&mut rt) {
            Poll::Pending((), to_base) => leave(&mut rt, to_base),
            Poll::Ready(()) => panic!("no permit is stored"),
        }
    }
    assert!(first.is_parked(&rt) && second.is_parked(&rt));
    assert_eq!(enter(&mut rt), 4);
    first.notify_waiters(&mut rt);
    assert!(!rt.is_blocked(0) && !rt.is_blocked(2));
    assert!(rt.is_blocked(1) && rt.is_blocked(3));
    assert!(first.is_parked(&rt) && second.is_parked(&rt));
    second.notify_one(&mut rt);
    assert!(!rt.is_blocked(1) && rt.is_blocked(3));
    assert!(second.is_parked(&rt));
}
