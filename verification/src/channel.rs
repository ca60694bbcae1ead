//! The dispatch channel: an unbounded first-in-first-out queue of messages
//! with a sending side and a receiving side, each of which can be dropped.
//!
//! The channel itself is plain sequential state. Whoever shares it between
//! threads guards it with a lock and holds that lock only for one `send` or
//! one `receive`.

use std::collections::VecDeque;
use vstd::prelude::*;
use crate::message::Message;

verus! {

/// The mathematical content of a channel: what is queued, oldest first, and
/// which of its two sides are still there.
pub struct ChannelView<J> {
    pub pending: Seq<Message<J>>,
    pub sender_open: bool,
    pub receiver_open: bool,
}

impl<J> ChannelView<J> {
    /// A fresh channel: nothing queued, both sides present.
    pub open spec fn empty() -> Self {
        ChannelView { pending: Seq::empty(), sender_open: true, receiver_open: true }
    }

    /// A message is accepted exactly while both sides are present.
    pub open spec fn accepts(self) -> bool {
        self.sender_open && self.receiver_open
    }

    /// The channel after `send(message)`.
    pub open spec fn after_send(self, message: Message<J>) -> Self {
        if self.accepts() {
            ChannelView { pending: self.pending.push(message), ..self }
        } else {
            self
        }
    }

    /// What `receive` hands out.
    pub open spec fn received(self) -> Received<J> {
        if self.pending.len() > 0 {
            Received::Message(self.pending[0])
        } else if self.sender_open {
            Received::WouldBlock
        } else {
            Received::Closed
        }
    }

    /// The channel after `receive`.
    pub open spec fn after_receive(self) -> Self {
        if self.pending.len() > 0 {
            ChannelView { pending: self.pending.skip(1), ..self }
        } else {
            self
        }
    }

    /// The channel after these messages have been sent, the first of them
    /// first.
    pub open spec fn after_sends(self, messages: Seq<Message<J>>) -> Self
        decreases messages.len(),
    {
        if messages.len() == 0 {
            self
        } else {
            self.after_sends(messages.drop_last()).after_send(messages.last())
        }
    }

    /// The channel after `count` receives.
    pub open spec fn after_receives(self, count: nat) -> Self
        decreases count,
    {
        if count == 0 {
            self
        } else {
            self.after_receives((count - 1) as nat).after_receive()
        }
    }

    /// What is sent on a channel that has both its sides queues up behind
    /// what is already there, in the order of sending.
    pub proof fn lemma_sends_queue_up(self, messages: Seq<Message<J>>)
        requires
            self.accepts(),
        ensures
            self.after_sends(messages) == (ChannelView {
                pending: self.pending + messages,
                ..self
            }),
        decreases messages.len(),
    {
        if messages.len() > 0 {
            self.lemma_sends_queue_up(messages.drop_last());
            assert(self.pending + messages =~= (self.pending + messages.drop_last()).push(
                messages.last(),
            ));
        } else {
            assert(self.pending + messages =~= self.pending);
        }
    }

    /// Receiving takes the queued messages off from the front, one at a
    /// time.
    pub proof fn lemma_receives_take_the_front(self, count: nat)
        requires
            count <= self.pending.len(),
        ensures
            self.after_receives(count) == (ChannelView {
                pending: self.pending.skip(count as int),
                ..self
            }),
            count > 0 ==> self.after_receives((count - 1) as nat).received() == Received::Message(
                self.pending[count - 1],
            ),
        decreases count,
    {
        if count > 0 {
            self.lemma_receives_take_the_front((count - 1) as nat);
            assert(self.pending.skip(count - 1).skip(1) =~= self.pending.skip(count as int));
        } else {
            assert(self.pending.skip(0) =~= self.pending);
        }
    }

    /// First in, first out: on a channel that has both its sides and holds
    /// nothing, the messages that are sent are the messages that are
    /// received, in the same order.
    pub proof fn law_first_in_first_out(self, messages: Seq<Message<J>>, k: int)
        requires
            self.accepts(),
            self.pending.len() == 0,
            0 <= k < messages.len(),
        ensures
            self.after_sends(messages).after_receives(k as nat).received() == Received::Message(
                messages[k],
            ),
            self.after_sends(messages).after_receives(messages.len()).pending.len() == 0,
    {
        self.lemma_sends_queue_up(messages);
        assert(self.pending + messages =~= messages);
        self.after_sends(messages).lemma_receives_take_the_front(k as nat + 1);
        self.after_sends(messages).lemma_receives_take_the_front(messages.len());
    }
}

/// Outcome of one attempt to take the oldest message.
#[derive(Debug)]
pub enum Received<J> {
    /// The oldest queued message, now removed from the queue.
    Message(Message<J>),
    /// Nothing is queued but the sending side is still there: a consumer
    /// waits and tries again once something has been sent.
    WouldBlock,
    /// Nothing is queued and the sending side is gone: nothing will ever
    /// arrive.
    Closed,
}

/// A `send` that was refused because the channel no longer accepts
/// messages. It carries the message back to the caller.
#[derive(Debug)]
pub struct SendError<J> {
    pub message: Message<J>,
}

/// The queue shared by the pool, which sends, and its workers, which
/// receive.
pub struct DispatchChannel<J> {
    queue: VecDeque<Message<J>>,
    sender_open: bool,
    receiver_open: bool,
}

impl<J> View for DispatchChannel<J> {
    type V = ChannelView<J>;

    closed spec fn view(&self) -> ChannelView<J> {
        ChannelView {
            pending: self.queue@,
            sender_open: self.sender_open,
            receiver_open: self.receiver_open,
        }
    }
}

impl<J> DispatchChannel<J> {
    /// Creates an empty channel with both sides present.
    pub fn new() -> (channel: Self)
        ensures
            channel@ == ChannelView::<J>::empty(),
    {
        DispatchChannel { queue: VecDeque::new(), sender_open: true, receiver_open: true }
    }

    /// Appends `message` behind everything already queued. Never waits.
    ///
    /// Refused, with the message handed back and the channel untouched,
    /// exactly when a side of the channel has been dropped.
    pub fn send(&mut self, message: Message<J>) -> (result: Result<(), SendError<J>>)
        ensures
            final(self)@ == old(self)@.after_send(message),
            old(self)@.accepts() ==> result is Ok,
            !old(self)@.accepts() ==> result == Err::<(), SendError<J>>(
                SendError { message },
            ),
    {
        if self.sender_open && self.receiver_open {
            self.queue.push_back(message);
            Ok(())
        } else {
            Err(SendError { message })
        }
    }

    /// Takes the oldest queued message, if there is one.
    ///
    /// Messages come out strictly in the order in which they were sent. On
    /// an empty queue the answer says whether waiting can help.
    pub fn receive(&mut self) -> (result: Received<J>)
        ensures
            result == old(self)@.received(),
            final(self)@ == old(self)@.after_receive(),
    {
        match self.queue.pop_front() {
            Some(message) => Received::Message(message),
            None => {
                if self.sender_open {
                    Received::WouldBlock
                } else {
                    Received::Closed
                }
            },
        }
    }

    /// Drops the sending side. What is queued stays receivable.
    pub fn close_sender(&mut self)
        ensures
            final(self)@ == (ChannelView { sender_open: false, ..old(self)@ }),
    {
        self.sender_open = false;
    }

    /// Drops the receiving side. From now on every `send` is refused.
    pub fn close_receiver(&mut self)
        ensures
            final(self)@ == (ChannelView { receiver_open: false, ..old(self)@ }),
    {
        self.receiver_open = false;
    }

    /// Number of queued messages.
    pub fn len(&self) -> (n: usize)
        ensures
            n == self@.pending.len(),
    {
        self.queue.len()
    }

    /// Whether nothing is queued.
    pub fn is_empty(&self) -> (b: bool)
        ensures
            b == (self@.pending.len() == 0),
    {
        self.queue.len() == 0
    }

    /// Whether the sending side is still there.
    pub fn sender_open(&self) -> (b: bool)
        ensures
            b == self@.sender_open,
    {
        self.sender_open
    }

    /// Whether the receiving side is still there.
    pub fn receiver_open(&self) -> (b: bool)
        ensures
            b == self@.receiver_open,
    {
        self.receiver_open
    }
}

} // verus!
