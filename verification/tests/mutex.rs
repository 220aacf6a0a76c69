use fib::runtime::runtime::Runtime;
use fib::runtime::{Handoff, Poll, Step, Transfer, INIT_ACK};
use fib::sync::{Mutex, MutexGuard};
use fib::task::packet::Packet;
use fib::task::task::{JoinHandle, TaskState};
use fib::task::{spawn, yield_now, BlockCause};

type Rt = Runtime<u32, i64>;

const BASE: u32 = 9000;

struct World {
    rt: Rt,
    counter: Mutex<i64>,
    log: Vec<String>,
}

type Body = Box<dyn FnMut(&mut World) -> Handoff<u32, i64>>;

fn primed(id: usize) -> Transfer<u32> {
    Transfer { context: id as u32, data: INIT_ACK }
}

/// Runs the scheduler until nothing is runnable and nothing is parked.
fn drain(world: &mut World, bodies: &mut Vec<Option<Body>>) {
    loop {
        match world.rt.next_step() {
            Step::Resume(to_task) => {
                let id = world.rt.cur_task();
                assert_eq!(to_task.context, id as u32);
                assert_eq!(to_task.data, 0);
                world.rt.set_base_cx(BASE);
                assert!(world.rt.is_in_task());
                let mut body = bodies[id].take().unwrap();
                let to_base = body(world);
                bodies[id] = Some(body);
                assert_eq!(to_base.context, BASE);
                world.rt.settle(Handoff { context: id as u32, packet: to_base.packet });
            }
            Step::Idle => panic!("deadlock"),
            Step::Done => break,
        }
    }
}

/// A worker that locks, increments, yields, increments and unlocks,
/// `rounds` times.
fn worker(name: usize, rounds: usize) -> Body {
    let mut done = 0;
    let mut guard: Option<MutexGuard> = None;
    Box::new(move |w: &mut World| {
        loop {
            if let Some(mut g) = guard.take() {
                *g.deref_mut(&mut w.counter) += 1;
                w.log.push(format!("Task {} incremented counter to {}", name, *g.deref(&w.counter)));
                assert!(w.counter.is_parked(&w.rt));
                g.unlock(&mut w.counter, &mut w.rt);
                done += 1;
            }
            if done == rounds {
                return w.rt.yield_to_base(Packet::result(name as i64));
            }
            assert!(w.counter.is_parked(&w.rt));
            match w.counter.lock(&mut w.rt) {
                Poll::Ready(mut g) => {
                    *g.deref_mut(&mut w.counter) += 1;
                    w.log.push(format!(
                        "Task {} incremented counter to {}",
                        name,
                        *g.deref(&w.counter)
                    ));
                    guard = Some(g);
                    return yield_now(&mut w.rt);
                }
                Poll::Pending((), to_base) => return to_base,
            }
        }
    })
}

/// A root that joins every handle in turn, checks what each worker
/// returned, and then returns what the counter holds.
fn joiner(mut handles: Vec<JoinHandle<i64>>) -> Body {
    handles.reverse();
    let mut joined: Vec<i64> = Vec::new();
    Box::new(move |w: &mut World| {
        while let Some(h) = handles.pop() {
            match h.join(&mut w.rt) {
                Poll::Ready(v) => joined.push(v),
                Poll::Pending(h, to_base) => {
                    handles.push(h);
                    return to_base;
                }
            }
        }
        let expected: Vec<i64> = (1..=joined.len() as i64).collect();
        assert_eq!(joined, expected);
        let g = match w.counter.lock(&mut w.rt) {
            Poll::Ready(g) => g,
            Poll::Pending(..) => panic!("the mutex must be unlocked at the end"),
        };
        let value = *g.deref(&w.counter);
        w.log.push(format!("Final counter value: {}", value));
        g.unlock(&mut w.counter, &mut w.rt);
        w.rt.yield_to_base(Packet::result(value))
    })
}

fn run_counter(workers: usize, rounds: usize) -> (World, JoinHandle<i64>) {
    let mut world = World { rt: Runtime::new(), counter: Mutex::new(0), log: Vec::new() };
    let root = world.rt.block_on(primed(0));
    assert_eq!(root.id(), 0);
    let mut bodies: Vec<Option<Body>> = Vec::new();
    let mut handles = Vec::new();
    bodies.push(None);
    for i in 1..=workers {
        let h: JoinHandle<i64> = spawn(&mut world.rt, primed(i));
        assert_eq!(h.id(), i);
        handles.push(h);
        bodies.push(Some(worker(i, rounds)));
    }
    bodies[0] = Some(joiner(handles));
    drain(&mut world, &mut bodies);
    (world, root)
}

#[test]
fn test_entry() {
    let (mut world, root) = run_counter(9, 1);
    for line in world.log.iter() {
        println!("{}", line);
    }
    assert!(root.is_finished(&world.rt));
    assert_eq!(world.rt.take_result(root.id()), Some(18));
}

#[test]
fn counter_of_ten_tasks_reaches_one_hundred() {
    let (mut world, root) = run_counter(10, 5);
    assert_eq!(world.log.len(), 101);
    assert!(world.log[99].ends_with("incremented counter to 100"));
    assert_eq!(world.log[100], "Final counter value: 100");
    assert!(root.is_finished(&world.rt));
    assert_eq!(world.rt.task_state(root.id()), Some(TaskState::Finished));
    assert_eq!(world.rt.take_result(root.id()), Some(100));
    assert!(!root.is_finished(&world.rt));
    assert_eq!(world.rt.task_state(root.id()), None);
}

#[test]
fn lock_on_a_locked_mutex_parks_the_caller_in_arrival_order() {
    let mut rt: Rt = Runtime::new();
    let mut m = Mutex::new(5i64);
    for i in 0..3 {
        rt.spawn(primed(i));
    }
    // task 0 takes the lock and yields while holding it
    assert!(matches!(rt.next_step(), Step::Resume(_)));
    rt.set_base_cx(BASE);
    let g0 = match m.lock(&mut rt) {
        Poll::Ready(g) => g,
        Poll::Pending(..) => panic!("an unlocked mutex is taken at once"),
    };
    let h = yield_now(&mut rt);
    assert!(matches!(*h.packet, Packet::Yield));
    rt.settle(Handoff { context: 0, packet: h.packet });
    // tasks 1 and 2 park on it
    for id in 1..3usize {
        assert!(matches!(rt.next_step(), Step::Resume(_)));
        assert_eq!(rt.cur_task(), id);
        rt.set_base_cx(BASE);
        match m.lock(&mut rt) {
            Poll::Pending((), to_base) => {
                assert_eq!(to_base.context, BASE);
                assert!(matches!(*to_base.packet, Packet::BlockOn(BlockCause::Lock)));
                rt.settle(Handoff { context: id as u32, packet: to_base.packet });
            }
            Poll::Ready(_) => panic!("a locked mutex parks the caller"),
        }
        assert!(rt.is_blocked(id));
        assert_eq!(rt.task_state(id), Some(TaskState::BlockOn(BlockCause::Lock)));
    }
    assert!(m.is_parked(&rt));
    // task 0 runs again and unlocks: the longest waiter wakes, the other stays
    assert!(matches!(rt.next_step(), Step::Resume(_)));
    assert_eq!(rt.cur_task(), 0);
    rt.set_base_cx(BASE);
    assert_eq!(*g0.deref(&m), 5);
    g0.unlock(&mut m, &mut rt);
    assert!(!rt.is_blocked(1));
    assert!(rt.is_blocked(2));
    assert_eq!(rt.task_state(1), Some(TaskState::Ready));
    assert_eq!(rt.task_state(0), Some(TaskState::Running));
    assert!(m.is_parked(&rt));
}
