use fib::runtime::runtime::Runtime;
use fib::runtime::{Handoff, Poll, Step, Transfer, INIT_ACK};
use fib::sync::Barrier;
use fib::task::packet::Packet;
use fib::task::{yield_now, BlockCause};

type Rt = Runtime<u32, i64>;

const BASE: u32 = 9000;

fn runtime_with(tasks: usize) -> Rt {
    let mut rt: Rt = Runtime::new();
    for id in 0..tasks {
        rt.spawn(Transfer { context: id as u32, data: INIT_ACK });
    }
    rt
}

fn enter(rt: &mut Rt) -> usize {
    match rt.next_step() {
        Step::Resume(to_task) => {
            assert_eq!(to_task.data, 0);
            rt.set_base_cx(BASE);
            rt.cur_task()
        }
        _ => panic!("a task must be runnable"),
    }
}

fn leave(rt: &mut Rt, to_base: Handoff<u32, i64>) {
    assert_eq!(to_base.context, BASE);
    let cx = rt.cur_task() as u32;
    rt.settle(Handoff { context: cx, packet: to_base.packet });
}

fn pass(rt: &mut Rt) {
    let h = yield_now(rt);
    leave(rt, h);
}

#[test]
fn barrier_of_one_never_parks() {
    let mut rt = runtime_with(1);
    let mut b = Barrier::new(1);
    assert_eq!(enter(&mut rt), 0);
    for _ in 0..5 {
        match b.wait(&mut rt) {
            Poll::Ready(res) => assert!(res.is_leader()),
            Poll::Pending(..) => panic!("a barrier of one opens at once"),
        }
        assert!(rt.is_in_task());
    }
}

#[test]
fn exactly_one_of_four_is_the_leader() {
    // task 0 is the main task, 1 to 3 the participants, 4 to 8 unrelated workers
    let mut rt = runtime_with(9);
    let mut b = Barrier::new(4);
    let mut leaders = Vec::new();
    let mut followers = Vec::new();
    let mut worked = 0;
    // the main task lets the others run first
    assert_eq!(enter(&mut rt), 0);
    pass(&mut rt);
    for id in 1..4 {
        assert_eq!(enter(&mut rt), id);
        match b.wait(&mut rt) {
            Poll::Pending((), to_base) => {
                assert!(matches!(*to_base.packet, Packet::BlockOn(BlockCause::Barrier)));
                leave(&mut rt, to_base);
            }
            Poll::Ready(_) => panic!("the barrier opens with the fourth arrival"),
        }
    }
    // the workers make progress while the three are parked
    for id in 4..9 {
        assert_eq!(enter(&mut rt), id);
        worked += 1;
        let h = rt.yield_to_base(Packet::result(id as i64));
        leave(&mut rt, h);
        assert!((1..4).all(|p| rt.is_blocked(p)));
    }
    assert_eq!(worked, 5);
    assert!(b.is_parked(&rt));
    // the main task arrives last and opens the barrier
    assert_eq!(enter(&mut rt), 0);
    match b.wait(&mut rt) {
        Poll::Ready(res) => {
            assert!(res.is_leader());
            leaders.push(0);
        }
        Poll::Pending(..) => panic!("the fourth arrival opens the barrier"),
    }
    assert!((1..4).all(|p| !rt.is_blocked(p)));
    pass(&mut rt);
    for id in 1..4 {
        assert_eq!(enter(&mut rt), id);
        let res = b.wait_woken();
        assert!(!res.is_leader());
        followers.push(id);
        pass(&mut rt);
    }
    assert_eq!(leaders, vec![0]);
    assert_eq!(followers, vec![1, 2, 3]);
}

#[test]
fn barrier_can_be_used_again_once_it_has_opened() {
    let mut rt = runtime_with(2);
    let mut b = Barrier::new(2);
    for _ in 0..3 {
        assert_eq!(enter(&mut rt), 0);
        match b.wait(&mut rt) {
            Poll::Pending((), to_base) => leave(&mut rt, to_base),
            Poll::Ready(_) => panic!("the first arrival waits"),
        }
        assert_eq!(enter(&mut rt), 1);
        assert!(matches!(b.wait(&mut rt), Poll::Ready(_)));
        pass(&mut rt);
        // task 0 was woken first, so it is in front again
    }
}
