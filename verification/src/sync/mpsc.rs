//! Multi-producer, single-consumer channels, unbounded and bounded.
//!
//! The handles of a channel are capabilities; the state they share is a
//! `Chan`, which every operation takes beside the handle.

use vstd::prelude::*;
use std::collections::VecDeque;
use std::marker::PhantomData;
use crate::runtime::{parks, Poll};
use crate::runtime::runtime::{Runtime, RuntimeView};
use crate::sync::{
    all_blocked, all_parked, lemma_park_tail, lemma_wake_next, lemma_wake_none, lemma_wake_rest,
    wake_all,
};
use crate::task::packet::Packet;
use crate::task::BlockCause;

verus! {

#[derive(Debug)]
pub enum SendError<T> {
    Disconnected(T),
}

#[derive(Debug)]
pub enum TrySendError<T> {
    Full(T),
    Disconnected(T),
}

#[derive(Debug)]
pub enum RecvError {
    Disconnected,
}

#[derive(Debug)]
pub enum TryRecvError {
    Empty,
    Disconnected,
}

/// A channel as mathematics.
pub struct ChanView<T> {
    /// The items sent and not yet received, oldest first.
    pub buffer: Seq<T>,
    /// How many items the buffer may hold; `None` for no bound.
    pub capacity: Option<usize>,
    /// The senders parked on a full buffer, first to arrive first.
    pub sender_waiters: Seq<usize>,
    /// The receiver, if it is parked on an empty buffer.
    pub receiver_waiter: Option<usize>,
    pub closed: bool,
}

/// The sequence of at most one id that `id` stands for.
pub open spec fn opt_seq(id: Option<usize>) -> Seq<usize> {
    match id {
        Some(id) => seq![id],
        None => Seq::empty(),
    }
}

impl<T> ChanView<T> {
    /// Every task parked on the channel: the receiver, then the senders.
    pub open spec fn waiters(self) -> Seq<usize> {
        opt_seq(self.receiver_waiter) + self.sender_waiters
    }

    /// No task is parked on the channel twice, and only a bounded channel
    /// parks senders.
    pub open spec fn wf(self) -> bool {
        &&& self.waiters().no_duplicates()
        &&& self.capacity is None ==> self.sender_waiters.len() == 0
    }

    pub open spec fn is_full(self) -> bool {
        self.capacity matches Some(c) && self.buffer.len() >= c
    }

    /// How many parked tasks a successful send wakes: the receiver if it
    /// is parked, and the sender that has waited longest.
    pub open spec fn send_wakes(self) -> int {
        (if self.receiver_waiter is Some {
            1int
        } else {
            0int
        }) + (if self.sender_waiters.len() > 0 {
            1int
        } else {
            0int
        })
    }

    /// The channel after `item` is sent into it.
    pub open spec fn after_send(self, item: T) -> Self {
        ChanView {
            buffer: self.buffer.push(item),
            receiver_waiter: None,
            sender_waiters: if self.sender_waiters.len() > 0 {
                self.sender_waiters.drop_first()
            } else {
                self.sender_waiters
            },
            ..self
        }
    }

    /// How many parked tasks a successful receive wakes: the sender that
    /// has waited longest.
    pub open spec fn recv_wakes(self) -> int {
        if self.sender_waiters.len() > 0 {
            1
        } else {
            0
        }
    }

    /// The channel after its oldest item is received.
    pub open spec fn after_recv(self) -> Self {
        ChanView {
            buffer: self.buffer.drop_first(),
            sender_waiters: if self.sender_waiters.len() > 0 {
                self.sender_waiters.drop_first()
            } else {
                self.sender_waiters
            },
            ..self
        }
    }

    /// Delivery is first in, first out. A send leaves every buffered item
    /// in place and puts its own last; a receive takes the first and moves
    /// every other one place forward. So items leave in the order in which
    /// they entered, unchanged.
    pub proof fn lemma_fifo(self, item: T, i: int)
        requires
            0 <= i < self.buffer.len(),
        ensures
            self.after_send(item).buffer[i] == self.buffer[i],
            self.after_send(item).buffer.last() == item,
            self.after_send(item).buffer.len() == self.buffer.len() + 1,
            i > 0 ==> self.after_recv().buffer[i - 1] == self.buffer[i],
            self.after_recv().buffer.len() == self.buffer.len() - 1,
    {
    }

    /// A bounded channel takes as many items as its capacity says and is
    /// full then: the next sender parks. One receive makes room again.
    pub proof fn lemma_full_at_capacity(self)
        requires
            self.capacity is Some,
        ensures
            self.buffer.len() < self.capacity->0 ==> !self.is_full(),
            self.buffer.len() == self.capacity->0 ==> self.is_full(),
            self.buffer.len() == self.capacity->0 && self.buffer.len() > 0
                ==> !self.after_recv().is_full(),
    {
    }

    /// The channel after it is closed.
    pub open spec fn after_close(self) -> Self {
        ChanView {
            closed: true,
            receiver_waiter: None,
            sender_waiters: Seq::empty(),
            ..self
        }
    }
}

/// The state of an unbounded channel.
pub struct Channel<T> {
    buffer: VecDeque<T>,
    receiver_waiter: Option<usize>,
    closed: bool,
}

/// The state of a bounded channel.
pub struct SyncChannel<T> {
    buffer: VecDeque<T>,
    capacity: usize,
    sender_waiters: VecDeque<usize>,
    receiver_waiter: Option<usize>,
    closed: bool,
}

impl<T> View for Channel<T> {
    type V = ChanView<T>;

    closed spec fn view(&self) -> ChanView<T> {
        ChanView {
            buffer: self.buffer@,
            capacity: None,
            sender_waiters: Seq::empty(),
            receiver_waiter: self.receiver_waiter,
            closed: self.closed,
        }
    }
}

impl<T> View for SyncChannel<T> {
    type V = ChanView<T>;

    closed spec fn view(&self) -> ChanView<T> {
        ChanView {
            buffer: self.buffer@,
            capacity: Some(self.capacity),
            sender_waiters: self.sender_waiters@,
            receiver_waiter: self.receiver_waiter,
            closed: self.closed,
        }
    }
}

impl<T> Channel<T> {
    pub fn new() -> (ch: Self)
        ensures
            ch@.wf(),
            ch@ == (ChanView {
                buffer: Seq::<T>::empty(),
                capacity: None,
                sender_waiters: Seq::<usize>::empty(),
                receiver_waiter: None,
                closed: false,
            }),
    {
        let ch = Channel { buffer: VecDeque::new(), receiver_waiter: None, closed: false };
        proof {
            assert(ch@.waiters() =~= Seq::<usize>::empty());
        }
        ch
    }

    /// Whether the receiver, if it is parked on the channel, is parked in
    /// `rt`.
    pub fn is_parked<C, R>(&self, rt: &Runtime<C, R>) -> (b: bool)
        ensures
            b == all_parked(self@.waiters(), rt@),
    {
        proof {
            assert(self@.waiters() =~= opt_seq(self@.receiver_waiter));
        }
        match self.receiver_waiter {
            Some(id) => {
                let b = rt.is_blocked(id);
                proof {
                    assert(self@.waiters()[0] == id);
                }
                b
            },
            None => true,
        }
    }

    /// Appends `item` unless the channel is closed, and wakes the receiver
    /// if it is parked.
    pub fn send<C, R>(&mut self, item: T, rt: &mut Runtime<C, R>) -> (r: Result<
        (),
        TrySendError<T>,
    >)
        requires
            old(self)@.wf(),
            old(rt).wf(),
            all_parked(old(self)@.waiters(), old(rt)@),
        ensures
            final(self)@.wf(),
            final(rt).wf(),
            all_parked(final(self)@.waiters(), final(rt)@),
            old(self)@.closed ==> {
                &&& r == Err::<(), TrySendError<T>>(TrySendError::Disconnected(item))
                &&& final(self)@ == old(self)@
                &&& final(rt)@ == old(rt)@
            },
            !old(self)@.closed ==> {
                &&& r is Ok
                &&& final(self)@ == old(self)@.after_send(item)
                &&& final(rt)@ == old(rt)@.wake_all(
                    old(self)@.waiters().take(old(self)@.send_wakes()),
                )
            },
    {
        let ghost all = self@.waiters();
        let ghost start = rt@;
        proof {
            assert(all =~= opt_seq(self@.receiver_waiter));
            lemma_wake_rest(all, start, 0);
            lemma_wake_none(all, start);
        }
        if self.closed {
            return Err(TrySendError::Disconnected(item));
        }
        self.buffer.push_back(item);
        match self.receiver_waiter.take() {
            Some(waiter_id) => {
                proof {
                    assert(all[0] == waiter_id);
                    lemma_wake_next(all, start, 0);
                    lemma_wake_rest(all, start, 1);
                }
                rt.wake_task(waiter_id);
            },
            None => {},
        }
        proof {
            assert(self@.waiters() =~= Seq::<usize>::empty());
        }
        Ok(())
    }

    /// Takes the oldest item. With an empty buffer, says whether the
    /// channel is closed or merely empty.
    pub fn recv(&mut self) -> (r: Result<T, TryRecvError>)
        requires
            old(self)@.receiver_waiter is None,
        ensures
            old(self)@.buffer.len() > 0 ==> {
                &&& r == Ok::<T, TryRecvError>(old(self)@.buffer[0])
                &&& final(self)@ == old(self)@.after_recv()
            },
            old(self)@.buffer.len() == 0 ==> {
                &&& final(self)@ == old(self)@
                &&& if old(self)@.closed {
                    r matches Err(TryRecvError::Disconnected)
                } else {
                    r matches Err(TryRecvError::Empty)
                }
            },
    {
        if self.buffer.len() == 0 && self.closed {
            return Err(TryRecvError::Disconnected);
        }
        if self.buffer.len() == 0 {
            return Err(TryRecvError::Empty);
        }
        let item = self.buffer.pop_front().unwrap();
        proof {
            assert(self@.buffer =~= old(self)@.buffer.drop_first());
        }
        Ok(item)
    }

    pub fn is_closed(&self) -> (b: bool)
        ensures
            b == self@.closed,
    {
        self.closed
    }

    /// Closes the channel and wakes the receiver if it is parked.
    pub fn close<C, R>(&mut self, rt: &mut Runtime<C, R>)
        requires
            old(self)@.wf(),
            old(rt).wf(),
            all_parked(old(self)@.waiters(), old(rt)@),
        ensures
            final(self)@.wf(),
            final(rt).wf(),
            all_parked(final(self)@.waiters(), final(rt)@),
            final(self)@ == old(self)@.after_close(),
            final(rt)@ == old(rt)@.wake_all(old(self)@.waiters()),
    {
        let ghost all = self@.waiters();
        let ghost start = rt@;
        proof {
            assert(all =~= opt_seq(self@.receiver_waiter));
            lemma_wake_none(all, start);
        }
        self.closed = true;
        match self.receiver_waiter.take() {
            Some(recv_waiter) => {
                proof {
                    assert(all[0] == recv_waiter);
                    lemma_wake_next(all, start, 0);
                    assert(all.take(1) =~= all);
                }
                rt.wake_task(recv_waiter);
            },
            None => {
                assert(all.take(0) =~= all);
            },
        }
        proof {
            assert(self@.waiters() =~= Seq::<usize>::empty());
        }
    }

    /// Records the receiver as parked on the empty buffer.
    pub fn add_recv_waiter(&mut self, id: usize)
        requires
            old(self)@.receiver_waiter is None,
        ensures
            final(self)@ == (ChanView { receiver_waiter: Some(id), ..old(self)@ }),
    {
        self.receiver_waiter = Some(id);
    }
}

impl<T> SyncChannel<T> {
    pub fn new(capacity: usize) -> (ch: Self)
        ensures
            ch@.wf(),
            ch@ == (ChanView {
                buffer: Seq::<T>::empty(),
                capacity: Some(capacity),
                sender_waiters: Seq::<usize>::empty(),
                receiver_waiter: None,
                closed: false,
            }),
    {
        let ch = SyncChannel {
            buffer: VecDeque::with_capacity(capacity),
            capacity,
            sender_waiters: VecDeque::new(),
            receiver_waiter: None,
            closed: false,
        };
        proof {
            assert(ch@.waiters() =~= Seq::<usize>::empty());
        }
        ch
    }

    /// Whether every task parked on the channel is parked in `rt`.
    pub fn is_parked<C, R>(&self, rt: &Runtime<C, R>) -> (b: bool)
        ensures
            b == all_parked(self@.waiters(), rt@),
    {
        let ghost all = self@.waiters();
        let ghost senders = self@.sender_waiters;
        match self.receiver_waiter {
            Some(id) => {
                proof {
                    assert(all[0] == id);
                    assert forall|i: int| 0 <= i < senders.len() implies senders[i] == all[i + 1] by {}
                }
                if !rt.is_blocked(id) {
                    return false;
                }
                let b = all_blocked(&self.sender_waiters, rt);
                proof {
                    if b {
                        assert forall|i: int| 0 <= i < all.len() implies rt@.blocked.contains_key(
                            #[trigger] all[i],
                        ) by {
                            if i > 0 {
                                assert(all[i] == senders[i - 1]);
                            }
                        }
                    } else {
                        let i = choose|i: int|
                            0 <= i < senders.len() && !rt@.blocked.contains_key(senders[i]);
                        assert(all[i + 1] == senders[i]);
                    }
                }
                b
            },
            None => {
                proof {
                    assert(all =~= senders);
                }
                all_blocked(&self.sender_waiters, rt)
            },
        }
    }

    /// Appends `item` unless the channel is closed or full, and wakes the
    /// receiver if it is parked and the sender that has waited longest.
    pub fn send<C, R>(&mut self, item: T, rt: &mut Runtime<C, R>) -> (r: Result<
        (),
        TrySendError<T>,
    >)
        requires
            old(self)@.wf(),
            old(rt).wf(),
            all_parked(old(self)@.waiters(), old(rt)@),
        ensures
            final(self)@.wf(),
            final(rt).wf(),
            all_parked(final(self)@.waiters(), final(rt)@),
            old(self)@.closed ==> {
                &&& r == Err::<(), TrySendError<T>>(TrySendError::Disconnected(item))
                &&& final(self)@ == old(self)@
                &&& final(rt)@ == old(rt)@
            },
            !old(self)@.closed && old(self)@.is_full() ==> {
                &&& r == Err::<(), TrySendError<T>>(TrySendError::Full(item))
                &&& final(self)@ == old(self)@
                &&& final(rt)@ == old(rt)@
            },
            !old(self)@.closed && !old(self)@.is_full() ==> {
                &&& r is Ok
                &&& final(self)@ == old(self)@.after_send(item)
                &&& final(rt)@ == old(rt)@.wake_all(
                    old(self)@.waiters().take(old(self)@.send_wakes()),
                )
            },
    {
        let ghost all = self@.waiters();
        let ghost senders = self@.sender_waiters;
        let ghost start = rt@;
        let ghost mut k: int = 0;
        if self.closed {
            return Err(TrySendError::Disconnected(item));
        }
        if self.buffer.len() >= self.capacity {
            return Err(TrySendError::Full(item));
        }
        self.buffer.push_back(item);
        proof {
            lemma_wake_none(all, start);
        }
        match self.receiver_waiter.take() {
            Some(waiter_id) => {
                proof {
                    assert(all[0] == waiter_id);
                    lemma_wake_next(all, start, 0);
                    k = 1;
                }
                rt.wake_task(waiter_id);
            },
            None => {},
        }
        proof {
            assert(all.skip(k) =~= senders);
        }
        match self.sender_waiters.pop_front() {
            Some(sender_waiter) => {
                proof {
                    assert(all.skip(k)[0] == all[k]);
                    assert(all[k] == sender_waiter);
                    lemma_wake_next(all, start, k);
                    k = k + 1;
                }
                rt.wake_task(sender_waiter);
            },
            None => {},
        }
        proof {
            assert(k == old(self)@.send_wakes());
            assert(self@.sender_waiters =~= old(self)@.after_send(item).sender_waiters);
            assert(self@.waiters() =~= all.skip(k));
            lemma_wake_rest(all, start, k);
        }
        Ok(())
    }

    /// Takes the oldest item and wakes the sender that has waited longest.
    /// With an empty buffer, says whether the channel is closed or merely
    /// empty.
    pub fn recv<C, R>(&mut self, rt: &mut Runtime<C, R>) -> (r: Result<T, TryRecvError>)
        requires
            old(self)@.receiver_waiter is None,
            old(self)@.wf(),
            old(rt).wf(),
            all_parked(old(self)@.waiters(), old(rt)@),
        ensures
            final(self)@.wf(),
            final(rt).wf(),
            all_parked(final(self)@.waiters(), final(rt)@),
            old(self)@.buffer.len() > 0 ==> {
                &&& r == Ok::<T, TryRecvError>(old(self)@.buffer[0])
                &&& final(self)@ == old(self)@.after_recv()
                &&& final(rt)@ == old(rt)@.wake_all(
                    old(self)@.waiters().take(old(self)@.recv_wakes()),
                )
            },
            old(self)@.buffer.len() == 0 ==> {
                &&& final(self)@ == old(self)@
                &&& final(rt)@ == old(rt)@
                &&& if old(self)@.closed {
                    r matches Err(TryRecvError::Disconnected)
                } else {
                    r matches Err(TryRecvError::Empty)
                }
            },
    {
        let ghost all = self@.waiters();
        let ghost start = rt@;
        let ghost mut k: int = 0;
        if self.buffer.len() == 0 && self.closed {
            return Err(TryRecvError::Disconnected);
        }
        if self.buffer.len() == 0 {
            return Err(TryRecvError::Empty);
        }
        let item = self.buffer.pop_front().unwrap();
        proof {
            assert(self@.buffer =~= old(self)@.buffer.drop_first());
            assert(all =~= self@.sender_waiters);
            lemma_wake_none(all, start);
        }
        match self.sender_waiters.pop_front() {
            Some(sender_waiter) => {
                proof {
                    assert(all[0] == sender_waiter);
                    lemma_wake_next(all, start, 0);
                    k = 1;
                }
                rt.wake_task(sender_waiter);
            },
            None => {},
        }
        proof {
            assert(self@.sender_waiters =~= old(self)@.after_recv().sender_waiters);
            assert(self@.waiters() =~= all.skip(k));
            lemma_wake_rest(all, start, k);
        }
        Ok(item)
    }

    /// Records the receiver as parked on the empty buffer.
    pub fn add_recv_waiter(&mut self, id: usize)
        requires
            old(self)@.receiver_waiter is None,
        ensures
            final(self)@ == (ChanView { receiver_waiter: Some(id), ..old(self)@ }),
    {
        self.receiver_waiter = Some(id);
    }

    /// Queues a sender as parked on the full buffer.
    pub fn add_sender_waiter(&mut self, id: usize)
        requires
            !old(self)@.sender_waiters.contains(id),
        ensures
            final(self)@ == (ChanView {
                sender_waiters: old(self)@.sender_waiters.push(id),
                ..old(self)@
            }),
    {
        self.sender_waiters.push_back(id);
    }

    /// Closes the channel and wakes the receiver if it is parked and every
    /// parked sender.
    pub fn close<C, R>(&mut self, rt: &mut Runtime<C, R>)
        requires
            old(self)@.wf(),
            old(rt).wf(),
            all_parked(old(self)@.waiters(), old(rt)@),
        ensures
            final(self)@.wf(),
            final(rt).wf(),
            all_parked(final(self)@.waiters(), final(rt)@),
            final(self)@ == old(self)@.after_close(),
            final(rt)@ == old(rt)@.wake_all(old(self)@.waiters()),
    {
        let ghost all = self@.waiters();
        let ghost senders = self@.sender_waiters;
        let ghost start = rt@;
        let ghost mut k: int = 0;
        proof {
            lemma_wake_none(all, start);
        }
        self.closed = true;
        match self.receiver_waiter.take() {
            Some(recv_waiter) => {
                proof {
                    assert(all[0] == recv_waiter);
                    lemma_wake_next(all, start, 0);
                    k = 1;
                }
                rt.wake_task(recv_waiter);
            },
            None => {},
        }
        proof {
            assert(all.skip(k) =~= senders);
            lemma_wake_rest(all, start, k);
        }
        let ghost mid = rt@;
        wake_all(&mut self.sender_waiters, rt);
        proof {
            assert(self@.waiters() =~= Seq::<usize>::empty());
            assert(all.take(k) + senders =~= all);
            assert(mid.ready + senders =~= start.ready + all);
            assert(all.to_set() =~= all.take(k).to_set() + senders.to_set()) by {
                assert forall|x: usize| all.to_set().contains(x) <==> (all.take(k).to_set()
                    + senders.to_set()).contains(x) by {
                    if all.contains(x) {
                        let i = choose|i: int| 0 <= i < all.len() && all[i] == x;
                        if i < k {
                            assert(all.take(k)[i] == x);
                        } else {
                            assert(senders[i - k] == x);
                        }
                    }
                    if all.take(k).contains(x) {
                        let i = choose|i: int| 0 <= i < all.take(k).len() && all.take(k)[i] == x;
                        assert(all[i] == x);
                    }
                    if senders.contains(x) {
                        let i = choose|i: int| 0 <= i < senders.len() && senders[i] == x;
                        assert(all[i + k] == x);
                    }
                }
            }
            assert(mid.blocked.remove_keys(senders.to_set()) =~= start.blocked.remove_keys(
                all.to_set(),
            ));
        }
    }

    pub fn is_closed(&self) -> (b: bool)
        ensures
            b == self@.closed,
    {
        self.closed
    }
}

/// The two kinds of channel state.
enum Kind<T> {
    Unbounded(Channel<T>),
    Bounded(SyncChannel<T>),
}

/// The state that the handles of one channel share: the channel itself and
/// the number of senders alive.
pub struct Chan<T> {
    kind: Kind<T>,
    senders: usize,
}

/// The right to send into a channel.
pub struct Sender<T> {
    marker: PhantomData<T>,
}

/// The right to send into a bounded channel.
pub struct SyncSender<T> {
    inner: Sender<T>,
}

/// The right to receive from a channel.
pub struct Receiver<T> {
    marker: PhantomData<T>,
}

impl<T> View for Chan<T> {
    type V = ChanView<T>;

    closed spec fn view(&self) -> ChanView<T> {
        match self.kind {
            Kind::Unbounded(ch) => ch@,
            Kind::Bounded(ch) => ch@,
        }
    }
}

impl<T> Chan<T> {
    /// How many senders are alive.
    pub closed spec fn senders(&self) -> usize {
        self.senders
    }

    pub open spec fn wf(&self) -> bool {
        self@.wf()
    }

    /// Every task parked on the channel is parked in `rt`.
    pub open spec fn parked<C, R>(&self, rt: RuntimeView<C, R>) -> bool {
        all_parked(self@.waiters(), rt)
    }

    /// Whether every task parked on the channel is parked in `rt`.
    pub fn is_parked<C, R>(&self, rt: &Runtime<C, R>) -> (b: bool)
        ensures
            b == self.parked(rt@),
    {
        match &self.kind {
            Kind::Unbounded(ch) => ch.is_parked(rt),
            Kind::Bounded(ch) => ch.is_parked(rt),
        }
    }

    /// Appends `item` unless the channel is closed or full, and wakes the
    /// receiver if it is parked and the sender that has waited longest.
    pub fn send<C, R>(&mut self, item: T, rt: &mut Runtime<C, R>) -> (r: Result<
        (),
        TrySendError<T>,
    >)
        requires
            old(self).wf(),
            old(rt).wf(),
            old(self).parked(old(rt)@),
        ensures
            final(self).wf(),
            final(rt).wf(),
            final(self).parked(final(rt)@),
            final(self).senders() == old(self).senders(),
            old(self)@.closed ==> {
                &&& r == Err::<(), TrySendError<T>>(TrySendError::Disconnected(item))
                &&& final(self)@ == old(self)@
                &&& final(rt)@ == old(rt)@
            },
            !old(self)@.closed && old(self)@.is_full() ==> {
                &&& r == Err::<(), TrySendError<T>>(TrySendError::Full(item))
                &&& final(self)@ == old(self)@
                &&& final(rt)@ == old(rt)@
            },
            !old(self)@.closed && !old(self)@.is_full() ==> {
                &&& r is Ok
                &&& final(self)@ == old(self)@.after_send(item)
                &&& final(rt)@ == old(rt)@.wake_all(
                    old(self)@.waiters().take(old(self)@.send_wakes()),
                )
            },
    {
        match &mut self.kind {
            Kind::Unbounded(ch) => ch.send(item, rt),
            Kind::Bounded(ch) => ch.send(item, rt),
        }
    }

    /// Takes the oldest item and wakes the sender that has waited longest.
    /// With an empty buffer, says whether the channel is closed or merely
    /// empty.
    pub fn recv<C, R>(&mut self, rt: &mut Runtime<C, R>) -> (r: Result<T, TryRecvError>)
        requires
            old(self)@.receiver_waiter is None,
            old(self).wf(),
            old(rt).wf(),
            old(self).parked(old(rt)@),
        ensures
            final(self).wf(),
            final(rt).wf(),
            final(self).parked(final(rt)@),
            final(self).senders() == old(self).senders(),
            old(self)@.buffer.len() > 0 ==> {
                &&& r == Ok::<T, TryRecvError>(old(self)@.buffer[0])
                &&& final(self)@ == old(self)@.after_recv()
                &&& final(rt)@ == old(rt)@.wake_all(
                    old(self)@.waiters().take(old(self)@.recv_wakes()),
                )
            },
            old(self)@.buffer.len() == 0 ==> {
                &&& final(self)@ == old(self)@
                &&& final(rt)@ == old(rt)@
                &&& if old(self)@.closed {
                    r matches Err(TryRecvError::Disconnected)
                } else {
                    r matches Err(TryRecvError::Empty)
                }
            },
    {
        match &mut self.kind {
            Kind::Unbounded(ch) => {
                proof {
                    let all = ch@.waiters();
                    assert(all =~= Seq::<usize>::empty());
                    lemma_wake_none(all, rt@);
                    assert(ch@.after_recv().sender_waiters =~= ch@.sender_waiters);
                }
                ch.recv()
            },
            Kind::Bounded(ch) => ch.recv(rt),
        }
    }

    /// Records the receiver as parked on the empty buffer.
    pub fn add_recv_waiter(&mut self, id: usize)
        requires
            old(self)@.receiver_waiter is None,
        ensures
            final(self)@ == (ChanView { receiver_waiter: Some(id), ..old(self)@ }),
            final(self).senders() == old(self).senders(),
    {
        match &mut self.kind {
            Kind::Unbounded(ch) => ch.add_recv_waiter(id),
            Kind::Bounded(ch) => ch.add_recv_waiter(id),
        }
    }

    /// Queues a sender as parked on the full buffer. Only a bounded
    /// channel is ever full.
    pub fn add_sender_waiter(&mut self, id: usize)
        requires
            old(self)@.capacity is Some,
            !old(self)@.sender_waiters.contains(id),
        ensures
            final(self)@ == (ChanView {
                sender_waiters: old(self)@.sender_waiters.push(id),
                ..old(self)@
            }),
            final(self).senders() == old(self).senders(),
    {
        match &mut self.kind {
            Kind::Unbounded(ch) => {},
            Kind::Bounded(ch) => ch.add_sender_waiter(id),
        }
    }

    /// Closes the channel and wakes every task parked on it: the receiver,
    /// then the senders in arrival order.
    pub fn close<C, R>(&mut self, rt: &mut Runtime<C, R>)
        requires
            old(self).wf(),
            old(rt).wf(),
            old(self).parked(old(rt)@),
        ensures
            final(self).wf(),
            final(rt).wf(),
            final(self).parked(final(rt)@),
            final(self).senders() == old(self).senders(),
            final(self)@ == old(self)@.after_close(),
            final(rt)@ == old(rt)@.wake_all(old(self)@.waiters()),
    {
        match &mut self.kind {
            Kind::Unbounded(ch) => ch.close(rt),
            Kind::Bounded(ch) => ch.close(rt),
        }
    }

    pub fn is_closed(&self) -> (b: bool)
        ensures
            b == self@.closed,
    {
        match &self.kind {
            Kind::Unbounded(ch) => ch.is_closed(),
            Kind::Bounded(ch) => ch.is_closed(),
        }
    }

    /// Whether the receiver is recorded as parked on the channel.
    pub fn has_recv_waiter(&self) -> (b: bool)
        ensures
            b == (self@.receiver_waiter is Some),
    {
        match &self.kind {
            Kind::Unbounded(ch) => ch.receiver_waiter.is_some(),
            Kind::Bounded(ch) => ch.receiver_waiter.is_some(),
        }
    }

    /// How many senders are alive.
    pub fn sender_count(&self) -> (n: usize)
        ensures
            n == self.senders(),
    {
        self.senders
    }
}

/// Makes an unbounded channel: its one sender, its receiver and the state
/// they share.
pub fn channel<T>() -> (r: (Sender<T>, Receiver<T>, Chan<T>))
    ensures
        r.2.wf(),
        r.2.senders() == 1,
        r.2@ == (ChanView {
            buffer: Seq::<T>::empty(),
            capacity: None,
            sender_waiters: Seq::<usize>::empty(),
            receiver_waiter: None,
            closed: false,
        }),
{
    let chan = Chan { kind: Kind::Unbounded(Channel::new()), senders: 1 };
    (Sender { marker: PhantomData }, Receiver { marker: PhantomData }, chan)
}

/// Makes a channel that buffers at most `capacity` items: its one sender,
/// its receiver and the state they share.
pub fn sync_channel<T>(capacity: usize) -> (r: (SyncSender<T>, Receiver<T>, Chan<T>))
    ensures
        r.2.wf(),
        r.2.senders() == 1,
        r.2@ == (ChanView {
            buffer: Seq::<T>::empty(),
            capacity: Some(capacity),
            sender_waiters: Seq::<usize>::empty(),
            receiver_waiter: None,
            closed: false,
        }),
{
    let chan = Chan { kind: Kind::Bounded(SyncChannel::new(capacity)), senders: 1 };
    (
        SyncSender { inner: Sender { marker: PhantomData } },
        Receiver { marker: PhantomData },
        chan,
    )
}

impl<T> Sender<T> {
    /// One attempt to send. A closed channel hands the item back. An item
    /// that fits is appended. On a full buffer the caller is queued and
    /// parks, keeping the item to attempt again once it runs again.
    pub fn send<C, R>(&self, item: T, chan: &mut Chan<T>, rt: &mut Runtime<C, R>) -> (r: Poll<
        Result<(), SendError<T>>,
        T,
        C,
        R,
    >)
        requires
            old(chan).wf(),
            old(rt).wf(),
            old(chan).parked(old(rt)@),
            !old(chan)@.closed && old(chan)@.is_full() ==> old(rt)@.in_task(),
        ensures
            final(chan).wf(),
            final(rt).wf(),
            final(chan).senders() == old(chan).senders(),
            old(chan)@.closed ==> {
                &&& r matches Poll::Ready(Err(SendError::Disconnected(back)))
                &&& back == item
                &&& final(chan)@ == old(chan)@
                &&& final(rt)@ == old(rt)@
            },
            !old(chan)@.closed && !old(chan)@.is_full() ==> {
                &&& r matches Poll::Ready(Ok(_))
                &&& final(chan)@ == old(chan)@.after_send(item)
                &&& final(rt)@ == old(rt)@.wake_all(
                    old(chan)@.waiters().take(old(chan)@.send_wakes()),
                )
                &&& final(chan).parked(final(rt)@)
            },
            !old(chan)@.closed && old(chan)@.is_full() ==> {
                &&& r matches Poll::Pending(back, to_base)
                &&& back == item
                &&& parks(old(rt)@, final(rt)@, to_base, BlockCause::Channel)
                &&& final(chan)@ == (ChanView {
                    sender_waiters: old(chan)@.sender_waiters.push(old(rt)@.cur_task),
                    ..old(chan)@
                })
            },
    {
        match chan.send(item, rt) {
            Ok(()) => Poll::Ready(Ok(())),
            Err(TrySendError::Full(item_back)) => {
                proof {
                    let all = chan@.waiters();
                    let senders = chan@.sender_waiters;
                    let cur = rt@.cur_task;
                    lemma_park_tail(all, rt@, BlockCause::Channel, rt@.base->0);
                    if senders.contains(cur) {
                        let i = choose|i: int| 0 <= i < senders.len() && senders[i] == cur;
                        assert(all[i + opt_seq(chan@.receiver_waiter).len()] == cur);
                    }
                    assert(opt_seq(chan@.receiver_waiter) + senders.push(cur) =~= all.push(cur));
                }
                chan.add_sender_waiter(rt.cur_task());
                let to_base = rt.yield_to_base(Packet::block_on(BlockCause::Channel));
                Poll::Pending(item_back, to_base)
            },
            Err(TrySendError::Disconnected(item_back)) => Poll::Ready(
                Err(SendError::Disconnected(item_back)),
            ),
        }
    }

    /// Makes one more sender for the channel.
    pub fn clone(&self, chan: &mut Chan<T>) -> (s: Self)
        requires
            old(chan).senders() < usize::MAX,
        ensures
            final(chan)@ == old(chan)@,
            final(chan).senders() == old(chan).senders() + 1,
    {
        chan.senders += 1;
        Sender { marker: PhantomData }
    }

    /// Gives the sender up. When the last sender goes the channel is
    /// closed and every task parked on it is woken.
    pub fn disconnect<C, R>(self, chan: &mut Chan<T>, rt: &mut Runtime<C, R>)
        requires
            old(chan).senders() > 0,
            old(chan).wf(),
            old(rt).wf(),
            old(chan).parked(old(rt)@),
        ensures
            final(chan).wf(),
            final(rt).wf(),
            final(chan).parked(final(rt)@),
            final(chan).senders() == old(chan).senders() - 1,
            old(chan).senders() == 1 ==> {
                &&& final(chan)@ == old(chan)@.after_close()
                &&& final(rt)@ == old(rt)@.wake_all(old(chan)@.waiters())
            },
            old(chan).senders() != 1 ==> {
                &&& final(chan)@ == old(chan)@
                &&& final(rt)@ == old(rt)@
            },
    {
        if chan.senders == 1 {
            chan.close(rt);
        }
        chan.senders -= 1;
    }
}

impl<T> SyncSender<T> {
    /// One attempt to send. A closed channel hands the item back. An item
    /// that fits is appended. On a full buffer the caller is queued and
    /// parks, keeping the item to attempt again once it runs again.
    pub fn send<C, R>(&self, item: T, chan: &mut Chan<T>, rt: &mut Runtime<C, R>) -> (r: Poll<
        Result<(), SendError<T>>,
        T,
        C,
        R,
    >)
        requires
            old(chan).wf(),
            old(rt).wf(),
            old(chan).parked(old(rt)@),
            !old(chan)@.closed && old(chan)@.is_full() ==> old(rt)@.in_task(),
        ensures
            final(chan).wf(),
            final(rt).wf(),
            final(chan).senders() == old(chan).senders(),
            old(chan)@.closed ==> {
                &&& r matches Poll::Ready(Err(SendError::Disconnected(back)))
                &&& back == item
                &&& final(chan)@ == old(chan)@
                &&& final(rt)@ == old(rt)@
            },
            !old(chan)@.closed && !old(chan)@.is_full() ==> {
                &&& r matches Poll::Ready(Ok(_))
                &&& final(chan)@ == old(chan)@.after_send(item)
                &&& final(rt)@ == old(rt)@.wake_all(
                    old(chan)@.waiters().take(old(chan)@.send_wakes()),
                )
                &&& final(chan).parked(final(rt)@)
            },
            !old(chan)@.closed && old(chan)@.is_full() ==> {
                &&& r matches Poll::Pending(back, to_base)
                &&& back == item
                &&& parks(old(rt)@, final(rt)@, to_base, BlockCause::Channel)
                &&& final(chan)@ == (ChanView {
                    sender_waiters: old(chan)@.sender_waiters.push(old(rt)@.cur_task),
                    ..old(chan)@
                })
            },
    {
        self.inner.send(item, chan, rt)
    }

    /// Sends without ever parking: a full buffer hands the item back, as a
    /// closed channel does.
    pub fn try_send<C, R>(&self, item: T, chan: &mut Chan<T>, rt: &mut Runtime<C, R>) -> (r:
        Result<(), TrySendError<T>>)
        requires
            old(chan).wf(),
            old(rt).wf(),
            old(chan).parked(old(rt)@),
        ensures
            final(chan).wf(),
            final(rt).wf(),
            final(chan).parked(final(rt)@),
            final(chan).senders() == old(chan).senders(),
            old(chan)@.closed ==> {
                &&& r == Err::<(), TrySendError<T>>(TrySendError::Disconnected(item))
                &&& final(chan)@ == old(chan)@
                &&& final(rt)@ == old(rt)@
            },
            !old(chan)@.closed && old(chan)@.is_full() ==> {
                &&& r == Err::<(), TrySendError<T>>(TrySendError::Full(item))
                &&& final(chan)@ == old(chan)@
                &&& final(rt)@ == old(rt)@
            },
            !old(chan)@.closed && !old(chan)@.is_full() ==> {
                &&& r is Ok
                &&& final(chan)@ == old(chan)@.after_send(item)
                &&& final(rt)@ == old(rt)@.wake_all(
                    old(chan)@.waiters().take(old(chan)@.send_wakes()),
                )
            },
    {
        chan.send(item, rt)
    }

    /// Makes one more sender for the channel.
    pub fn clone(&self, chan: &mut Chan<T>) -> (s: Self)
        requires
            old(chan).senders() < usize::MAX,
        ensures
            final(chan)@ == old(chan)@,
            final(chan).senders() == old(chan).senders() + 1,
    {
        SyncSender { inner: self.inner.clone(chan) }
    }

    /// Gives the sender up. When the last sender goes the channel is
    /// closed and every task parked on it is woken.
    pub fn disconnect<C, R>(self, chan: &mut Chan<T>, rt: &mut Runtime<C, R>)
        requires
            old(chan).senders() > 0,
            old(chan).wf(),
            old(rt).wf(),
            old(chan).parked(old(rt)@),
        ensures
            final(chan).wf(),
            final(rt).wf(),
            final(chan).parked(final(rt)@),
            final(chan).senders() == old(chan).senders() - 1,
            old(chan).senders() == 1 ==> {
                &&& final(chan)@ == old(chan)@.after_close()
                &&& final(rt)@ == old(rt)@.wake_all(old(chan)@.waiters())
            },
            old(chan).senders() != 1 ==> {
                &&& final(chan)@ == old(chan)@
                &&& final(rt)@ == old(rt)@
            },
    {
        self.inner.disconnect(chan, rt)
    }
}

impl<T> Receiver<T> {
    /// One attempt to receive. The oldest item is taken if there is one.
    /// An empty closed channel is reported. On an empty open channel the
    /// caller is recorded as the parked receiver and parks, to attempt
    /// again once it runs again.
    pub fn recv<C, R>(&self, chan: &mut Chan<T>, rt: &mut Runtime<C, R>) -> (r: Poll<
        Result<T, RecvError>,
        (),
        C,
        R,
    >)
        requires
            old(chan)@.receiver_waiter is None,
            old(chan).wf(),
            old(rt).wf(),
            old(chan).parked(old(rt)@),
            old(chan)@.buffer.len() == 0 && !old(chan)@.closed ==> old(rt)@.in_task(),
        ensures
            final(chan).wf(),
            final(rt).wf(),
            final(chan).senders() == old(chan).senders(),
            old(chan)@.buffer.len() > 0 ==> {
                &&& r matches Poll::Ready(Ok(item))
                &&& item == old(chan)@.buffer[0]
                &&& final(chan)@ == old(chan)@.after_recv()
                &&& final(rt)@ == old(rt)@.wake_all(
                    old(chan)@.waiters().take(old(chan)@.recv_wakes()),
                )
                &&& final(chan).parked(final(rt)@)
            },
            old(chan)@.buffer.len() == 0 && old(chan)@.closed ==> {
                &&& r matches Poll::Ready(Err(RecvError::Disconnected))
                &&& final(chan)@ == old(chan)@
                &&& final(rt)@ == old(rt)@
            },
            old(chan)@.buffer.len() == 0 && !old(chan)@.closed ==> {
                &&& r is Pending
                &&& parks(old(rt)@, final(rt)@, r->Pending_1, BlockCause::Channel)
                &&& final(chan)@ == (ChanView {
                    receiver_waiter: Some(old(rt)@.cur_task),
                    ..old(chan)@
                })
            },
    {
        match chan.recv(rt) {
            Ok(item) => Poll::Ready(Ok(item)),
            Err(TryRecvError::Empty) => {
                proof {
                    let all = chan@.waiters();
                    let cur = rt@.cur_task;
                    lemma_park_tail(all, rt@, BlockCause::Channel, rt@.base->0);
                    assert(all =~= chan@.sender_waiters);
                    let next = seq![cur] + chan@.sender_waiters;
                    assert forall|i: int, j: int|
                        0 <= i < next.len() && 0 <= j < next.len() && i != j implies next[i]
                        != next[j] by {
                        if i > 0 {
                            assert(next[i] == all[i - 1]);
                        }
                        if j > 0 {
                            assert(next[j] == all[j - 1]);
                        }
                    }
                }
                chan.add_recv_waiter(rt.cur_task());
                let to_base = rt.yield_to_base(Packet::block_on(BlockCause::Channel));
                Poll::Pending((), to_base)
            },
            Err(TryRecvError::Disconnected) => Poll::Ready(Err(RecvError::Disconnected)),
        }
    }

    /// Receives without ever parking: an empty buffer is reported, as an
    /// empty closed channel is.
    pub fn try_recv<C, R>(&self, chan: &mut Chan<T>, rt: &mut Runtime<C, R>) -> (r: Result<
        T,
        TryRecvError,
    >)
        requires
            old(chan)@.receiver_waiter is None,
            old(chan).wf(),
            old(rt).wf(),
            old(chan).parked(old(rt)@),
        ensures
            final(chan).wf(),
            final(rt).wf(),
            final(chan).parked(final(rt)@),
            final(chan).senders() == old(chan).senders(),
            old(chan)@.buffer.len() > 0 ==> {
                &&& r == Ok::<T, TryRecvError>(old(chan)@.buffer[0])
                &&& final(chan)@ == old(chan)@.after_recv()
                &&& final(rt)@ == old(rt)@.wake_all(
                    old(chan)@.waiters().take(old(chan)@.recv_wakes()),
                )
            },
            old(chan)@.buffer.len() == 0 ==> {
                &&& final(chan)@ == old(chan)@
                &&& final(rt)@ == old(rt)@
                &&& if old(chan)@.closed {
                    r matches Err(TryRecvError::Disconnected)
                } else {
                    r matches Err(TryRecvError::Empty)
                }
            },
    {
        chan.recv(rt)
    }

    /// Gives the receiver up: the channel is closed and every task parked
    /// on it is woken.
    pub fn disconnect<C, R>(self, chan: &mut Chan<T>, rt: &mut Runtime<C, R>)
        requires
            old(chan).wf(),
            old(rt).wf(),
            old(chan).parked(old(rt)@),
        ensures
            final(chan).wf(),
            final(rt).wf(),
            final(chan).parked(final(rt)@),
            final(chan).senders() == old(chan).senders(),
            final(chan)@ == old(chan)@.after_close(),
            final(rt)@ == old(rt)@.wake_all(old(chan)@.waiters()),
    {
        chan.close(rt);
    }
}

} // verus!
