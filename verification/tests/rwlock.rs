use fib::runtime::runtime::Runtime;
use fib::runtime::{Handoff, Poll, Step, Transfer, INIT_ACK};
use fib::sync::{RwLock, RwLockReadGuard, RwLockWriteGuard};
use fib::task::packet::Packet;
use fib::task::{yield_now, BlockCause};

type Rt = Runtime<u32, i64>;

const BASE: u32 = 9000;

fn runtime_with(tasks: usize) -> Rt {
    let mut rt: Rt = Runtime::new();
    for id in 0..tasks {
        rt.spawn(Transfer { context: id as u32, data: INIT_ACK });
    }
    rt
}

fn enter(rt: &mut Rt) -> usize {
    match rt.next_step() {
        Step::Resume(to_task) => {
            assert_eq!(to_task.data, 0);
            rt.set_base_cx(BASE);
            rt.cur_task()
        }
        _ => panic!("a task must be runnable"),
    }
}

fn leave(rt: &mut Rt, to_base: Handoff<u32, i64>) {
    assert_eq!(to_base.context, BASE);
    let cx = rt.cur_task() as u32;
    rt.settle(Handoff { context: cx, packet: to_base.packet });
}

fn pass(rt: &mut Rt) {
    let h = yield_now(rt);
    leave(rt, h);
}

fn read_or_park(rt: &mut Rt, lock: &mut RwLock<i64>) -> Option<RwLockReadGuard> {
    match lock.read(rt) {
        Poll::Ready(g) => Some(g),
        Poll::Pending((), to_base) => {
            assert!(matches!(*to_base.packet, Packet::BlockOn(BlockCause::Lock)));
            leave(rt, to_base);
            None
        }
    }
}

fn write_or_park(rt: &mut Rt, lock: &mut RwLock<i64>) -> Option<RwLockWriteGuard> {
    match lock.write(rt) {
        Poll::Ready(g) => Some(g),
        Poll::Pending((), to_base) => {
            assert!(matches!(*to_base.packet, Packet::BlockOn(BlockCause::Lock)));
            leave(rt, to_base);
            None
        }
    }
}

#[test]
fn readers_share_the_lock_and_keep_a_writer_out() {
    let mut rt = runtime_with(3);
    let mut lock = RwLock::new(7i64);
    assert_eq!(enter(&mut rt), 0);
    let r0 = read_or_park(&mut rt, &mut lock).unwrap();
    pass(&mut rt);
    assert_eq!(enter(&mut rt), 1);
    let r1 = read_or_park(&mut rt, &mut lock).unwrap();
    assert_eq!(*r0.deref(&lock), 7);
    assert_eq!(*r1.deref(&lock), 7);
    pass(&mut rt);
    assert_eq!(enter(&mut rt), 2);
    assert!(write_or_park(&mut rt, &mut lock).is_none());
    assert!(rt.is_blocked(2));
    // the writer stays parked until the last reader has left
    assert_eq!(enter(&mut rt), 0);
    r0.unlock(&mut lock, &mut rt);
    assert!(rt.is_blocked(2));
    pass(&mut rt);
    assert_eq!(enter(&mut rt), 1);
    r1.unlock(&mut lock, &mut rt);
    assert!(!rt.is_blocked(2));
    pass(&mut rt);
    assert_eq!(enter(&mut rt), 0);
    pass(&mut rt);
    assert_eq!(enter(&mut rt), 2);
    let mut w = write_or_park(&mut rt, &mut lock).unwrap();
    *w.deref_mut(&mut lock) += 1;
    assert_eq!(*w.deref(&lock), 8);
}

#[test]
fn release_wakes_one_writer_or_the_readers_in_front_of_the_next_writer() {
    let mut rt = runtime_with(7);
    let mut lock = RwLock::new(0i64);
    assert_eq!(enter(&mut rt), 0);
    let w = write_or_park(&mut rt, &mut lock).unwrap();
    pass(&mut rt);
    // waiters in arrival order: R1 R2 W3 R4 W5 W6
    for id in 1..7 {
        assert_eq!(enter(&mut rt), id);
        let parked = match id {
            3 | 5 | 6 => write_or_park(&mut rt, &mut lock).is_none(),
            _ => read_or_park(&mut rt, &mut lock).is_none(),
        };
        assert!(parked);
    }
    assert!(lock.is_parked(&rt));
    let blocked = |rt: &Rt| (1..7).filter(|id| rt.is_blocked(*id)).collect::<Vec<usize>>();
    // the writer leaves: both readers at the front wake, nothing behind them
    assert_eq!(enter(&mut rt), 0);
    w.unlock(&mut lock, &mut rt);
    assert_eq!(blocked(&rt), vec![3, 4, 5, 6]);
    assert!(lock.is_parked(&rt));
    // nobody holds the lock: a release now wakes exactly the writer at the front
    lock.wake_up(&mut rt);
    assert_eq!(blocked(&rt), vec![4, 5, 6]);
    lock.wake_up(&mut rt);
    assert_eq!(blocked(&rt), vec![5, 6]);
    lock.wake_up(&mut rt);
    assert_eq!(blocked(&rt), vec![6]);
    lock.wake_up(&mut rt);
    assert_eq!(blocked(&rt), Vec::<usize>::new());
    lock.wake_up(&mut rt);
    assert_eq!(blocked(&rt), Vec::<usize>::new());
}

#[test]
fn ten_writers_and_ten_readers() {
    // tasks 0..10 write ten times each, tasks 10..20 read ten times each
    let mut rt = runtime_with(20);
    let mut lock = RwLock::new(0i64);
    let mut remaining = vec![10; 20];
    let mut last_seen = vec![0i64; 20];
    let mut finished = 0;
    while finished < 20 {
        let id = enter(&mut rt);
        if id < 10 {
            match write_or_park(&mut rt, &mut lock) {
                Some(mut w) => {
                    *w.deref_mut(&mut lock) += 1;
                    w.unlock(&mut lock, &mut rt);
                    remaining[id] -= 1;
                }
                None => continue,
            }
        } else {
            match read_or_park(&mut rt, &mut lock) {
                Some(r) => {
                    let seen = *r.deref(&lock);
                    assert!(0 <= seen && seen <= 100);
                    assert!(seen >= last_seen[id]);
                    last_seen[id] = seen;
                    r.unlock(&mut lock, &mut rt);
                    remaining[id] -= 1;
                }
                None => continue,
            }
        }
        if remaining[id] == 0 {
            finished += 1;
            let h = rt.yield_to_base(Packet::result(id as i64));
            leave(&mut rt, h);
        } else {
            pass(&mut rt);
        }
    }
    assert!(matches!(rt.next_step(), Step::Done));
    let mut rt = runtime_with(1);
    assert_eq!(enter(&mut rt), 0);
    let r = read_or_park(&mut rt, &mut lock).unwrap();
    assert_eq!(*r.deref(&lock), 100);
}
