//! The bounded queue in front of an actor.
//!
//! A mailbox holds at most `capacity` messages and hands them out in the
//! order in which they came. A send to a full mailbox fails instead of
//! waiting; a closed mailbox takes nothing more, but still hands out what
//! it holds.

use std::collections::VecDeque;
use vstd::prelude::*;

verus! {

/// Number of messages that a mailbox holds unless told otherwise.
pub const DEFAULT_CAPACITY: usize = 32;

/// Why a send failed. The message comes back.
pub enum TrySendError<M> {
    /// The mailbox holds as many messages as it may.
    Full(M),
    /// The mailbox was closed.
    Closed(M),
}

/// Why a mailbox refuses a message.
#[derive(Clone, Copy, PartialEq, Eq, Structural)]
pub enum Refusal {
    Full,
    Closed,
}

/// What a receiver finds.
pub enum Delivery<M> {
    /// The oldest message.
    Message(M),
    /// Nothing waits, and more may come.
    Empty,
    /// Nothing waits, and nothing more will come.
    Closed,
}

/// A bounded first-in first-out queue of messages.
pub struct Mailbox<M> {
    queue: VecDeque<M>,
    capacity: usize,
    closed: bool,
    handles: usize,
}

/// A mailbox as plain values.
pub struct MailboxView<M> {
    /// The messages in flight, oldest first.
    pub pending: Seq<M>,
    pub capacity: nat,
    pub closed: bool,
    /// Number of handles through which messages can be sent.
    pub handles: nat,
}

impl<M> MailboxView<M> {
    /// The capacity is positive and bounds the messages in flight.
    pub open spec fn wf(self) -> bool {
        0 < self.capacity && self.pending.len() <= self.capacity
    }

    /// Why the next send fails, if it does. A closed mailbox says so
    /// whether or not it is full.
    pub open spec fn refusal(self) -> Option<Refusal> {
        if self.closed {
            Some(Refusal::Closed)
        } else if self.pending.len() >= self.capacity {
            Some(Refusal::Full)
        } else {
            None
        }
    }

    /// The mailbox after a send of `message`: the message goes to the back
    /// where the mailbox takes it, and nothing changes where it does not.
    pub open spec fn offer(self, message: M) -> Self {
        if self.refusal() is None {
            MailboxView { pending: self.pending.push(message), ..self }
        } else {
            self
        }
    }

    /// The mailbox after one receive.
    pub open spec fn take(self) -> Self {
        if self.pending.len() > 0 {
            MailboxView { pending: self.pending.drop_first(), ..self }
        } else {
            self
        }
    }

    /// The mailbox after it was closed.
    pub open spec fn close(self) -> Self {
        MailboxView { closed: true, ..self }
    }

    /// The mailbox after one more handle was made.
    pub open spec fn attach(self) -> Self {
        MailboxView { handles: self.handles + 1, ..self }
    }

    /// The mailbox after a handle was dropped: the drop of the last
    /// handle closes it.
    pub open spec fn detach(self) -> Self {
        if self.handles <= 1 {
            MailboxView { handles: 0, closed: true, ..self }
        } else {
            MailboxView { handles: (self.handles - 1) as nat, ..self }
        }
    }

    /// The mailbox after sends of `messages`, in order.
    pub open spec fn offer_all(self, messages: Seq<M>) -> Self
        decreases messages.len(),
    {
        if messages.len() == 0 {
            self
        } else {
            self.offer_all(messages.drop_last()).offer(messages.last())
        }
    }

    /// The places, among `messages`, of the messages that the mailbox
    /// takes when they are sent in order.
    pub open spec fn taken_of(self, messages: Seq<M>) -> Seq<int>
        decreases messages.len(),
    {
        if messages.len() == 0 {
            Seq::empty()
        } else {
            let before = self.taken_of(messages.drop_last());
            if self.offer_all(messages.drop_last()).refusal() is None {
                before.push(messages.len() - 1)
            } else {
                before
            }
        }
    }
}

/// Whatever is sent, the messages in flight never exceed the capacity.
pub proof fn lemma_capacity_bounds_in_flight<M>(mailbox: MailboxView<M>, messages: Seq<M>)
    requires
        mailbox.wf(),
    ensures
        mailbox.offer_all(messages).wf(),
        mailbox.offer_all(messages).pending.len() <= mailbox.capacity,
        mailbox.offer_all(messages).capacity == mailbox.capacity,
        mailbox.offer_all(messages).closed == mailbox.closed,
    decreases messages.len(),
{
    if messages.len() > 0 {
        lemma_capacity_bounds_in_flight(mailbox, messages.drop_last());
    }
}

/// An open, empty mailbox takes as many messages as its capacity, in
/// order, and nothing is lost or doubled.
pub proof fn lemma_offers_in_order<M>(mailbox: MailboxView<M>, messages: Seq<M>)
    requires
        mailbox.wf(),
        !mailbox.closed,
        mailbox.pending.len() == 0,
        messages.len() <= mailbox.capacity,
    ensures
        mailbox.offer_all(messages).pending == messages,
        mailbox.offer_all(messages).capacity == mailbox.capacity,
        !mailbox.offer_all(messages).closed,
    decreases messages.len(),
{
    if messages.len() > 0 {
        lemma_offers_in_order(mailbox, messages.drop_last());
        assert(messages.drop_last().push(messages.last()) =~= messages);
    } else {
        assert(mailbox.pending =~= messages);
    }
}

/// An open mailbox with room for all of `messages` takes each of them, in
/// order, behind what it holds.
pub proof fn lemma_offers_with_room<M>(mailbox: MailboxView<M>, messages: Seq<M>)
    requires
        mailbox.wf(),
        !mailbox.closed,
        mailbox.pending.len() + messages.len() <= mailbox.capacity,
    ensures
        mailbox.offer_all(messages).pending == mailbox.pending + messages,
        mailbox.offer_all(messages).capacity == mailbox.capacity,
        !mailbox.offer_all(messages).closed,
    decreases messages.len(),
{
    if messages.len() > 0 {
        lemma_offers_with_room(mailbox, messages.drop_last());
        assert((mailbox.pending + messages.drop_last()).push(messages.last()) =~= mailbox.pending
            + messages);
    } else {
        assert(mailbox.pending + messages =~= mailbox.pending);
    }
}

/// The messages at the places `places` of `messages`.
pub open spec fn picked<M>(messages: Seq<M>, places: Seq<int>) -> Seq<M> {
    Seq::new(places.len(), |k: int| messages[places[k]])
}

/// Whatever the state of a mailbox, sends are neither reordered nor
/// doubled: the queue after the sends is the queue before them followed
/// by the messages that were taken, each once and in the order in which
/// they were sent.
pub proof fn lemma_sends_keep_their_order<M>(mailbox: MailboxView<M>, messages: Seq<M>)
    ensures
        mailbox.offer_all(messages).pending == mailbox.pending + picked(
            messages,
            mailbox.taken_of(messages),
        ),
        forall|k: int|
            0 <= k < mailbox.taken_of(messages).len() ==> 0 <= #[trigger] mailbox.taken_of(
                messages,
            )[k] < messages.len(),
        forall|a: int, b: int|
            0 <= a < b < mailbox.taken_of(messages).len() ==> mailbox.taken_of(messages)[a]
                < mailbox.taken_of(messages)[b],
    decreases messages.len(),
{
    if messages.len() == 0 {
        assert(mailbox.pending + picked(messages, mailbox.taken_of(messages)) =~= mailbox.pending);
    } else {
        let front = messages.drop_last();
        lemma_sends_keep_their_order(mailbox, front);
        let before = mailbox.taken_of(front);
        let taken = mailbox.taken_of(messages);
        assert forall|k: int| 0 <= k < before.len() implies front[before[k]] == messages[before[k]] by {}
        if mailbox.offer_all(front).refusal() is None {
            assert(taken == before.push(messages.len() - 1));
            assert(picked(messages, taken) =~= picked(front, before).push(messages.last()));
            assert(mailbox.offer_all(messages).pending =~= mailbox.pending + picked(
                messages,
                taken,
            ));
        } else {
            assert(picked(messages, taken) =~= picked(front, before));
        }
    }
}

/// Without a receiver, an open and empty mailbox takes exactly as many
/// messages as its capacity: each of them is accepted, and the send that
/// follows is refused as full.
pub proof fn lemma_one_too_many_is_full<M>(mailbox: MailboxView<M>, messages: Seq<M>)
    requires
        mailbox.wf(),
        !mailbox.closed,
        mailbox.pending.len() == 0,
        messages.len() == mailbox.capacity + 1,
    ensures
        forall|i: int|
            0 <= i < mailbox.capacity ==> (#[trigger] mailbox.offer_all(
                messages.take(i),
            )).refusal() is None,
        mailbox.offer_all(messages.take(mailbox.capacity as int)).refusal() == Some(Refusal::Full),
        mailbox.offer_all(messages).pending == messages.take(mailbox.capacity as int),
{
    assert forall|i: int| 0 <= i <= mailbox.capacity implies (#[trigger] mailbox.offer_all(
        messages.take(i),
    )).pending.len() == i && !mailbox.offer_all(messages.take(i)).closed && mailbox.offer_all(
        messages.take(i),
    ).capacity == mailbox.capacity by {
        lemma_offers_in_order(mailbox, messages.take(i));
    }
    let full = mailbox.offer_all(messages.take(mailbox.capacity as int));
    lemma_offers_in_order(mailbox, messages.take(mailbox.capacity as int));
    assert(messages.drop_last() =~= messages.take(mailbox.capacity as int));
}

/// The mailbox after `count` handles were dropped.
pub open spec fn after_drops<M>(mailbox: MailboxView<M>, count: nat) -> MailboxView<M>
    decreases count,
{
    if count == 0 {
        mailbox
    } else {
        after_drops(mailbox, (count - 1) as nat).detach()
    }
}

/// Dropping every handle closes the mailbox; as long as a handle is left,
/// the drops do not close it. The messages in flight stay.
pub proof fn lemma_last_drop_closes<M>(mailbox: MailboxView<M>, count: nat)
    requires
        mailbox.wf(),
    ensures
        after_drops(mailbox, count).wf(),
        after_drops(mailbox, count).pending == mailbox.pending,
        count >= mailbox.handles && count > 0 ==> after_drops(mailbox, count).closed,
        count < mailbox.handles ==> after_drops(mailbox, count).closed == mailbox.closed
            && after_drops(mailbox, count).handles == mailbox.handles - count,
    decreases count,
{
    if count > 0 {
        lemma_last_drop_closes(mailbox, (count - 1) as nat);
    }
}

/// What was sent first is received first.
pub proof fn lemma_first_in_first_out<M>(mailbox: MailboxView<M>, first: M, second: M)
    requires
        mailbox.wf(),
        !mailbox.closed,
        mailbox.pending.len() + 2 <= mailbox.capacity,
    ensures
        mailbox.offer(first).offer(second).pending == mailbox.pending.push(first).push(second),
        mailbox.pending.len() == 0 ==> mailbox.offer(first).offer(second).pending[0] == first
            && mailbox.offer(first).offer(second).take().pending[0] == second,
{
}

impl<M> View for Mailbox<M> {
    type V = MailboxView<M>;

    closed spec fn view(&self) -> MailboxView<M> {
        MailboxView {
            pending: self.queue@,
            capacity: self.capacity as nat,
            closed: self.closed,
            handles: self.handles as nat,
        }
    }
}

impl<M> Mailbox<M> {
    /// The capacity is positive and bounds the messages in flight.
    pub open spec fn wf(&self) -> bool {
        self@.wf()
    }

    /// An open, empty mailbox for `capacity` messages, with one handle.
    pub fn new(capacity: usize) -> (mailbox: Self)
        requires
            capacity > 0,
        ensures
            mailbox.wf(),
            mailbox@.pending == Seq::<M>::empty(),
            mailbox@.capacity == capacity,
            !mailbox@.closed,
            mailbox@.handles == 1,
    {
        Mailbox { queue: VecDeque::new(), capacity, closed: false, handles: 1 }
    }

    /// An open, empty mailbox of the default capacity, with one handle.
    pub fn with_default_capacity() -> (mailbox: Self)
        ensures
            mailbox.wf(),
            mailbox@.pending == Seq::<M>::empty(),
            mailbox@.capacity == 32,
            !mailbox@.closed,
            mailbox@.handles == 1,
    {
        Mailbox::new(DEFAULT_CAPACITY)
    }

    /// Number of messages in flight.
    pub fn len(&self) -> (n: usize)
        ensures
            n == self@.pending.len(),
    {
        self.queue.len()
    }

    /// Whether no message is in flight.
    pub fn is_empty(&self) -> (empty: bool)
        ensures
            empty == (self@.pending.len() == 0),
    {
        self.queue.len() == 0
    }

    /// Number of messages that the mailbox may hold.
    pub fn capacity(&self) -> (n: usize)
        ensures
            n == self@.capacity,
    {
        self.capacity
    }

    /// Whether the mailbox was closed.
    pub fn is_closed(&self) -> (closed: bool)
        ensures
            closed == self@.closed,
    {
        self.closed
    }

    /// Sends without waiting. The message goes to the back of the queue;
    /// a closed or full mailbox hands it back.
    pub fn try_send(&mut self, message: M) -> (sent: Result<(), TrySendError<M>>)
        requires
            old(self).wf(),
        ensures
            final(self).wf(),
            final(self)@ == old(self)@.offer(message),
            match sent {
                Ok(()) => old(self)@.refusal() is None,
                Err(TrySendError::Closed(m)) => old(self)@.refusal() == Some(Refusal::Closed) && m
                    == message,
                Err(TrySendError::Full(m)) => old(self)@.refusal() == Some(Refusal::Full) && m
                    == message,
            },
    {
        if self.closed {
            return Err(TrySendError::Closed(message));
        }
        if self.queue.len() >= self.capacity {
            return Err(TrySendError::Full(message));
        }
        self.queue.push_back(message);
        Ok(())
    }

    /// Receives without waiting: the oldest message, or word that nothing
    /// waits and whether more may come.
    pub fn try_recv(&mut self) -> (delivery: Delivery<M>)
        requires
            old(self).wf(),
        ensures
            final(self).wf(),
            final(self)@ == old(self)@.take(),
            match delivery {
                Delivery::Message(m) => old(self)@.pending.len() > 0 && m == old(self)@.pending[0],
                Delivery::Empty => old(self)@.pending.len() == 0 && !old(self)@.closed,
                Delivery::Closed => old(self)@.pending.len() == 0 && old(self)@.closed,
            },
    {
        match self.queue.pop_front() {
            Some(m) => {
                assert(self.queue@ =~= old(self).queue@.drop_first());
                Delivery::Message(m)
            },
            None => if self.closed {
                Delivery::Closed
            } else {
                Delivery::Empty
            },
        }
    }

    /// Number of handles through which messages can be sent.
    pub fn handles(&self) -> (n: usize)
        ensures
            n == self@.handles,
    {
        self.handles
    }

    /// Counts one more handle. Says whether it could be counted, which it
    /// cannot where the count has reached the largest number.
    pub fn attach(&mut self) -> (counted: bool)
        requires
            old(self).wf(),
        ensures
            final(self).wf(),
            counted == (old(self)@.handles < usize::MAX),
            counted ==> final(self)@ == old(self)@.attach(),
            !counted ==> final(self)@ == old(self)@,
    {
        if self.handles < usize::MAX {
            self.handles = self.handles + 1;
            true
        } else {
            false
        }
    }

    /// Counts a handle as dropped. The drop of the last handle closes the
    /// mailbox; what it holds can still be received.
    pub fn detach(&mut self)
        requires
            old(self).wf(),
        ensures
            final(self).wf(),
            final(self)@ == old(self)@.detach(),
    {
        if self.handles <= 1 {
            self.handles = 0;
            self.closed = true;
        } else {
            self.handles = self.handles - 1;
        }
    }

    /// Closes the mailbox. What it holds can still be received.
    pub fn close(&mut self)
        requires
            old(self).wf(),
        ensures
            final(self).wf(),
            final(self)@ == old(self)@.close(),
    {
        self.closed = true;
    }
}

} // verus!
