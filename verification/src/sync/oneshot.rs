//! A channel for a single value from a single sender to a single receiver.
//!
//! The two handles are capabilities; the state they share is a `Channel`,
//! which every operation takes beside the handle. An operation that
//! consumes its handle also does what giving the handle up does.

use vstd::prelude::*;
use std::marker::PhantomData;
use crate::runtime::{parks, Poll};
use crate::runtime::runtime::{Runtime, RuntimeView};
use crate::task::packet::Packet;
use crate::task::BlockCause;

verus! {

/// The state the two handles share.
pub struct Channel<T> {
    item: Option<T>,
    receiver_waiter: Option<usize>,
    closed: bool,
}

pub struct ChannelView<T> {
    /// The value sent and not yet received.
    pub item: Option<T>,
    /// The receiver, if it is parked.
    pub receiver_waiter: Option<usize>,
    pub closed: bool,
}

/// The right to send the value.
pub struct Sender<T> {
    marker: PhantomData<T>,
}

/// The right to receive the value.
pub struct Receiver<T> {
    marker: PhantomData<T>,
}

#[derive(Debug)]
pub enum RecvError {
    Closed,
}

#[derive(Debug)]
pub enum TryRecvError {
    Empty,
    Closed,
}

impl<T> View for Channel<T> {
    type V = ChannelView<T>;

    closed spec fn view(&self) -> ChannelView<T> {
        ChannelView {
            item: self.item,
            receiver_waiter: self.receiver_waiter,
            closed: self.closed,
        }
    }
}

impl<T> ChannelView<T> {
    /// The receiver, if it is parked on the channel, is parked in `rt`.
    pub open spec fn parked<C, R>(self, rt: RuntimeView<C, R>) -> bool {
        self.receiver_waiter matches Some(id) ==> rt.blocked.contains_key(id)
    }

    /// Whether a send now would store its value.
    pub open spec fn accepts(self) -> bool {
        !self.closed && self.item is None
    }

    /// The channel after a sender is done with it, having stored `item` if
    /// it stored anything.
    pub open spec fn sender_gone(self, item: Option<T>) -> Self {
        ChannelView { item, receiver_waiter: None, closed: true }
    }
}

impl<T> ChannelView<T> {
    /// The channel after the value it holds, if any, is taken.
    pub open spec fn taken(self) -> Self {
        ChannelView { item: None, ..self }
    }

    /// A value is sent once and received once. A send that stores its
    /// value closes the channel, so no later send stores another; the
    /// first receive takes the value unchanged and leaves the channel
    /// empty and closed, so no later receive finds one.
    pub proof fn lemma_delivered_once(self, item: T)
        requires
            self.accepts(),
        ensures
            self.sender_gone(Some(item)).item == Some(item),
            !self.sender_gone(Some(item)).accepts(),
            self.sender_gone(Some(item)).taken().item is None,
            self.sender_gone(Some(item)).taken().closed,
            !self.sender_gone(Some(item)).taken().accepts(),
    {
    }
}

impl<T> Channel<T> {
    /// Every task parked on the channel is parked in `rt`.
    pub open spec fn parked<C, R>(&self, rt: RuntimeView<C, R>) -> bool {
        self@.parked(rt)
    }

    /// Whether the receiver, if it is parked on the channel, is parked in
    /// `rt`.
    pub fn is_parked<C, R>(&self, rt: &Runtime<C, R>) -> (b: bool)
        ensures
            b == self.parked(rt@),
    {
        match self.receiver_waiter {
            Some(id) => rt.is_blocked(id),
            None => true,
        }
    }

    /// Marks the channel closed and wakes the receiver if it is parked:
    /// what the sender's going does.
    fn sender_dropped<C, R>(&mut self, rt: &mut Runtime<C, R>)
        requires
            old(rt).wf(),
            old(self).parked(old(rt)@),
        ensures
            final(rt).wf(),
            final(self)@ == old(self)@.sender_gone(old(self)@.item),
            final(rt)@ == old(rt)@.wake_opt(old(self)@.receiver_waiter),
    {
        self.closed = true;
        match self.receiver_waiter.take() {
            Some(receiver) => {
                rt.wake_task(receiver);
            },
            None => {},
        }
    }
}

/// Makes a one-shot channel: its sender, its receiver and the state they
/// share.
pub fn channel<T>() -> (r: (Sender<T>, Receiver<T>, Channel<T>))
    ensures
        r.2@ == (ChannelView { item: None::<T>, receiver_waiter: None, closed: false }),
{
    (
        Sender { marker: PhantomData },
        Receiver { marker: PhantomData },
        Channel { item: None, receiver_waiter: None, closed: false },
    )
}

impl<T> Sender<T> {
    /// Sends the value and gives the sender up. A channel that is closed
    /// or already holds a value hands `item` back. Either way the channel
    /// is closed afterwards and a parked receiver is woken.
    pub fn send<C, R>(self, item: T, chan: &mut Channel<T>, rt: &mut Runtime<C, R>) -> (r:
        Result<(), T>)
        requires
            old(rt).wf(),
            old(chan).parked(old(rt)@),
        ensures
            final(rt).wf(),
            final(chan).parked(final(rt)@),
            final(rt)@ == old(rt)@.wake_opt(old(chan)@.receiver_waiter),
            old(chan)@.accepts() ==> {
                &&& r is Ok
                &&& final(chan)@ == old(chan)@.sender_gone(Some(item))
            },
            !old(chan)@.accepts() ==> {
                &&& r == Err::<(), T>(item)
                &&& final(chan)@ == old(chan)@.sender_gone(old(chan)@.item)
            },
    {
        if chan.closed {
            chan.sender_dropped(rt);
            return Err(item);
        }
        if chan.item.is_some() {
            chan.sender_dropped(rt);
            return Err(item);
        }
        chan.item = Some(item);
        chan.sender_dropped(rt);
        Ok(())
    }

    pub fn is_closed(&self, chan: &Channel<T>) -> (b: bool)
        ensures
            b == chan@.closed,
    {
        chan.closed
    }

    /// Gives the sender up without sending: the channel is closed and a
    /// parked receiver is woken.
    pub fn disconnect<C, R>(self, chan: &mut Channel<T>, rt: &mut Runtime<C, R>)
        requires
            old(rt).wf(),
            old(chan).parked(old(rt)@),
        ensures
            final(rt).wf(),
            final(chan).parked(final(rt)@),
            final(chan)@ == old(chan)@.sender_gone(old(chan)@.item),
            final(rt)@ == old(rt)@.wake_opt(old(chan)@.receiver_waiter),
    {
        chan.sender_dropped(rt);
    }
}

impl<T> Receiver<T> {
    /// Whether no value waits to be received.
    pub fn is_empty(&self, chan: &Channel<T>) -> (b: bool)
        ensures
            b == (chan@.item is None),
    {
        chan.item.is_none()
    }

    /// Takes the value if it is there; otherwise says whether the channel
    /// is closed or merely empty.
    pub fn try_recv(&mut self, chan: &mut Channel<T>) -> (r: Result<T, TryRecvError>)
        ensures
            final(chan)@ == old(chan)@.taken(),
            match old(chan)@.item {
                Some(item) => r == Ok::<T, TryRecvError>(item),
                None => if old(chan)@.closed {
                    r matches Err(TryRecvError::Closed)
                } else {
                    r matches Err(TryRecvError::Empty)
                },
            },
    {
        match chan.item.take() {
            Some(item) => Ok(item),
            None => {
                if chan.closed {
                    Err(TryRecvError::Closed)
                } else {
                    Err(TryRecvError::Empty)
                }
            },
        }
    }

    /// One attempt to receive, which ends the receiver. A value that is
    /// there is taken; a closed channel without one is reported; either
    /// way the channel is closed afterwards. On an open empty channel the
    /// caller is recorded as the parked receiver and parks, keeping the
    /// receiver; once it runs again it goes on with `recv_woken`.
    pub fn blocking_recv<C, R>(self, chan: &mut Channel<T>, rt: &mut Runtime<C, R>) -> (r: Poll<
        Result<T, RecvError>,
        Receiver<T>,
        C,
        R,
    >)
        requires
            old(rt).wf(),
            old(chan)@.item is None && !old(chan)@.closed ==> old(rt)@.in_task(),
        ensures
            final(rt).wf(),
            match old(chan)@.item {
                Some(item) => {
                    &&& r matches Poll::Ready(Ok(got))
                    &&& got == item
                    &&& final(chan)@ == (ChannelView { item: None, closed: true, ..old(chan)@ })
                    &&& final(rt)@ == old(rt)@
                },
                None => if old(chan)@.closed {
                    &&& r matches Poll::Ready(Err(RecvError::Closed))
                    &&& final(chan)@ == old(chan)@
                    &&& final(rt)@ == old(rt)@
                } else {
                    &&& r is Pending
                    &&& parks(old(rt)@, final(rt)@, r->Pending_1, BlockCause::Channel)
                    &&& final(chan)@ == (ChannelView {
                        receiver_waiter: Some(old(rt)@.cur_task),
                        ..old(chan)@
                    })
                },
            },
    {
        match chan.item.take() {
            Some(item) => {
                chan.closed = true;
                return Poll::Ready(Ok(item));
            },
            None => {},
        }
        if chan.closed {
            return Poll::Ready(Err(RecvError::Closed));
        }
        chan.receiver_waiter = Some(rt.cur_task());
        let to_base = rt.yield_to_base(Packet::block_on(BlockCause::Channel));
        Poll::Pending(self, to_base)
    }

    /// How a receiver that parked in `blocking_recv` goes on once it has
    /// been woken, which ends it: the value is taken if it is there, and
    /// the channel is reported closed if it is not. The channel is closed
    /// afterwards.
    pub fn recv_woken(self, chan: &mut Channel<T>) -> (r: Result<T, RecvError>)
        ensures
            final(chan)@ == (ChannelView { item: None, closed: true, ..old(chan)@ }),
            match old(chan)@.item {
                Some(item) => r == Ok::<T, RecvError>(item),
                None => r matches Err(RecvError::Closed),
            },
    {
        chan.closed = true;
        match chan.item.take() {
            Some(item) => Ok(item),
            None => Err(RecvError::Closed),
        }
    }

    /// Gives the receiver up: the channel is closed.
    pub fn disconnect(self, chan: &mut Channel<T>)
        ensures
            final(chan)@ == (ChannelView { closed: true, ..old(chan)@ }),
    {
        chan.closed = true;
    }
}

} // verus!
