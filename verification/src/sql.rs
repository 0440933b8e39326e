//! The SQL poll actor: on every tick a query is run and its result goes
//! to the subscribers.
//!
//! The database is not here. The driver runs the query and hands over what
//! it got: a message made of the rows, or the text of the error.

use crate::error::{ActorError, ActorResultVoid, ProtocolKind, SqlError};
use crate::mailbox::{Delivery, Mailbox, MailboxView};
use vstd::std_specs::convert::FromSpec;
use crate::runtime::{ActorServiceMessage, ErrorHandler};
use crate::subscription::{
    accepting, all_wf, delivered_to, lemma_emit_order_of_a_run, mailbox_views, open_ones, publish,
    FanOut,
};
use crate::text::concat2;
use vstd::prelude::*;

verus! {

/// The SQL poll actor.
pub struct SqLiteQueryActor<T> {
    key: String,
    interval_ms: u64,
    subscribers: Vec<Mailbox<T>>,
    stopped: bool,
}

/// A poll actor as plain values.
pub struct PollerView<T> {
    pub key: Seq<char>,
    pub interval_ms: u64,
    /// The mailboxes of the subscribers, in the order in which they
    /// subscribed.
    pub subscribers: Seq<MailboxView<T>>,
    pub stopped: bool,
}

impl<T> View for SqLiteQueryActor<T> {
    type V = PollerView<T>;

    closed spec fn view(&self) -> PollerView<T> {
        PollerView {
            key: self.key@,
            interval_ms: self.interval_ms,
            subscribers: mailbox_views(self.subscribers@),
            stopped: self.stopped,
        }
    }
}

/// Whether `after` is the actor `before` after a poll whose result is
/// `message`. A stopped actor stays as it is. Otherwise the stale
/// subscribers are off the list, and each of the others, in order, was
/// offered one copy of the message.
pub open spec fn polled<T: Clone>(before: PollerView<T>, after: PollerView<T>, message: T) -> bool {
    if before.stopped {
        after == before
    } else {
        &&& after.key == before.key
        &&& after.interval_ms == before.interval_ms
        &&& !after.stopped
        &&& after.subscribers.len() == open_ones(before.subscribers).len()
        &&& forall|i: int|
            0 <= i < after.subscribers.len() ==> delivered_to(
                #[trigger] open_ones(before.subscribers)[i],
                after.subscribers[i],
                message,
            )
    }
}

/// Whether no mailbox of the list is closed.
pub open spec fn all_open<T>(views: Seq<MailboxView<T>>) -> bool {
    forall|i: int| 0 <= i < views.len() ==> !(#[trigger] views[i]).closed
}

/// Whether a poll finds the actor polling and every subscriber open, so
/// that none is taken off the list.
pub open spec fn finds_all_open<T>(state: PollerView<T>) -> bool {
    !state.stopped && all_open(state.subscribers)
}

/// Where no mailbox is closed, the open ones are all of them.
pub proof fn lemma_open_ones_of_open<T>(views: Seq<MailboxView<T>>)
    requires
        all_open(views),
    ensures
        open_ones(views) == views,
    decreases views.len(),
{
    reveal(Seq::filter);
    if views.len() > 0 {
        assert forall|i: int| 0 <= i < views.drop_last().len() implies !(
        #[trigger] views.drop_last()[i]).closed by {
            assert(views.drop_last()[i] == views[i]);
        }
        lemma_open_ones_of_open(views.drop_last());
        assert(!views[views.len() - 1].closed);
        assert(views.drop_last().push(views.last()) =~= views);
    } else {
        assert(open_ones(views) =~= views);
    }
}

/// Over any run of polls, a subscriber that stays subscribed is offered
/// one copy of the message of each poll, in the order of the polls, and
/// no message of an earlier poll again: where `states[j]` is the actor
/// before poll `j` and `states[j + 1]` after it, the mailbox of
/// subscriber `i` at the end is the one at the beginning after sends of
/// the copies, in order.
pub proof fn lemma_polls_arrive_in_order<T: Clone>(
    states: Seq<PollerView<T>>,
    messages: Seq<T>,
    i: int,
)
    requires
        states.len() == messages.len() + 1,
        forall|j: int|
            0 <= j < messages.len() ==> polled(#[trigger] states[j], states[j + 1], messages[j]),
        forall|j: int| 0 <= j < messages.len() ==> finds_all_open(#[trigger] states[j]),
        0 <= i < states[0].subscribers.len(),
    ensures
        states.last().subscribers.len() == states[0].subscribers.len(),
        exists|copies: Seq<T>|
            {
                &&& copies.len() == messages.len()
                &&& forall|j: int|
                    0 <= j < messages.len() ==> cloned(messages[j], #[trigger] copies[j])
                &&& states.last().subscribers[i] == #[trigger] states[0].subscribers[i].offer_all(
                    copies,
                )
            },
{
    assert forall|j: int| 0 <= j <= messages.len() implies (#[trigger] states[j]).subscribers.len()
        == states[0].subscribers.len() by {
        lemma_count_stays(states, messages, j);
    }
    let stages = Seq::new(states.len(), |j: int| states[j].subscribers[i]);
    assert forall|j: int| 0 <= j < messages.len() implies delivered_to(
        stages[j],
        stages[j + 1],
        #[trigger] messages[j],
    ) by {
        assert(polled(states[j], states[j + 1], messages[j]));
        assert(finds_all_open(states[j]));
        lemma_open_ones_of_open(states[j].subscribers);
        assert(states[j].subscribers.len() == states[0].subscribers.len());
        assert(states[j + 1].subscribers.len() == states[0].subscribers.len());
        assert(delivered_to(
            open_ones(states[j].subscribers)[i],
            states[j + 1].subscribers[i],
            messages[j],
        ));
    }
    lemma_emit_order_of_a_run(stages, messages);
}

/// Polls that find every subscriber open keep the number of subscribers.
proof fn lemma_count_stays<T: Clone>(states: Seq<PollerView<T>>, messages: Seq<T>, k: int)
    requires
        states.len() == messages.len() + 1,
        forall|j: int|
            0 <= j < messages.len() ==> polled(#[trigger] states[j], states[j + 1], messages[j]),
        forall|j: int| 0 <= j < messages.len() ==> finds_all_open(#[trigger] states[j]),
        0 <= k <= messages.len(),
    ensures
        states[k].subscribers.len() == states[0].subscribers.len(),
    decreases k,
{
    if k > 0 {
        lemma_count_stays(states, messages, k - 1);
        assert(polled(states[k - 1], states[k], messages[k - 1]));
        assert(finds_all_open(states[k - 1]));
        lemma_open_ones_of_open(states[k - 1].subscribers);
    }
}

/// The message of a query that failed.
pub open spec fn query_fault(detail: Seq<char>) -> Seq<char> {
    "SqLiteQueryWorker error: "@ + detail
}

/// The error record for a query that failed.
pub fn query_error(error: SqlError) -> (reported: ActorError)
    ensures
        reported matches ActorError::ProtocolError(ProtocolKind::Sql, m) && m@ == query_fault(
            error.0@,
        ),
{
    ActorError::ProtocolError(ProtocolKind::Sql, concat2("SqLiteQueryWorker error: ", error.0.as_str()))
}

impl<T: Clone> SqLiteQueryActor<T> {
    /// The mailboxes of the subscribers are well formed.
    pub closed spec fn wf(&self) -> bool {
        all_wf(self.subscribers@)
    }

    /// An actor without subscribers that polls every `interval_ms`
    /// milliseconds.
    pub fn new(key: String, interval_ms: u64) -> (actor: Self)
        ensures
            actor.wf(),
            actor@ == (PollerView {
                key: key@,
                interval_ms,
                subscribers: Seq::<MailboxView<T>>::empty(),
                stopped: false,
            }),
    {
        let subscribers: Vec<Mailbox<T>> = Vec::new();
        assert(mailbox_views(subscribers@) =~= Seq::<MailboxView<T>>::empty());
        SqLiteQueryActor { key, interval_ms, subscribers, stopped: false }
    }

    /// The key of the actor.
    pub fn key(&self) -> (key: &String)
        ensures
            key@ == self@.key,
    {
        &self.key
    }

    /// The interval between two polls, in milliseconds.
    pub fn interval_ms(&self) -> (interval: u64)
        ensures
            interval == self@.interval_ms,
    {
        self.interval_ms
    }

    /// Number of subscribers.
    pub fn subscriber_count(&self) -> (n: usize)
        ensures
            n == self@.subscribers.len(),
    {
        self.subscribers.len()
    }

    /// Puts a subscriber behind the others.
    pub fn subscribe(&mut self, recipient: Mailbox<T>)
        requires
            old(self).wf(),
            recipient.wf(),
        ensures
            final(self).wf(),
            final(self)@ == (PollerView {
                subscribers: old(self)@.subscribers.push(recipient@),
                ..old(self)@
            }),
    {
        let ghost before = self.subscribers@;
        self.subscribers.push(recipient);
        proof {
            assert(mailbox_views(self.subscribers@) =~= mailbox_views(before).push(recipient@));
            assert forall|i: int| 0 <= i < self.subscribers@.len() implies (
            #[trigger] self.subscribers@[i]).wf() by {
                if i < before.len() {
                    assert(self.subscribers@[i] == before[i]);
                }
            }
        }
    }

    /// Takes the result of a poll: the stale subscribers are taken off
    /// the list, and each of the others gets one copy of the message. A
    /// stopped actor hands out nothing.
    pub fn on_rows(&mut self, message: &T) -> (report: FanOut)
        requires
            old(self).wf(),
        ensures
            final(self).wf(),
            final(self)@.key == old(self)@.key,
            final(self)@.interval_ms == old(self)@.interval_ms,
            final(self)@.stopped == old(self)@.stopped,
            polled(old(self)@, final(self)@, *message),
            old(self)@.stopped ==> final(self)@ == old(self)@ && report.delivered == 0
                && report.dropped == 0,
            !old(self)@.stopped ==> {
                &&& final(self)@.subscribers.len() == open_ones(old(self)@.subscribers).len()
                &&& forall|i: int|
                    0 <= i < final(self)@.subscribers.len() ==> delivered_to(
                        #[trigger] open_ones(old(self)@.subscribers)[i],
                        final(self)@.subscribers[i],
                        *message,
                    )
                &&& report.delivered == accepting(open_ones(old(self)@.subscribers))
                &&& report.delivered + report.dropped == final(self)@.subscribers.len()
            },
    {
        if self.stopped {
            return FanOut { delivered: 0, dropped: 0 };
        }
        let ghost before = self.subscribers@;
        let report = publish(message, &mut self.subscribers);
        proof {
            assert forall|i: int| 0 <= i < self.subscribers@.len() implies delivered_to(
                #[trigger] open_ones(mailbox_views(before))[i],
                mailbox_views(self.subscribers@)[i],
                *message,
            ) by {
                assert(mailbox_views(self.subscribers@)[i] == self.subscribers@[i]@);
            }
        }
        report
    }

    /// Takes the rows of a poll: the message is made of exactly these
    /// rows, and goes out as [`SqLiteQueryActor::on_rows`] hands it out.
    pub fn on_batch<R>(&mut self, rows: Vec<R>) -> (report: FanOut) where T: From<Vec<R>>
        requires
            old(self).wf(),
        ensures
            final(self).wf(),
            exists|message: T| #[trigger]
                polled(old(self)@, final(self)@, message) && (T::obeys_from_spec() ==> message
                    == T::from_spec(rows)),
            old(self)@.stopped ==> final(self)@ == old(self)@ && report.delivered == 0
                && report.dropped == 0,
            !old(self)@.stopped ==> {
                &&& report.delivered == accepting(open_ones(old(self)@.subscribers))
                &&& report.delivered + report.dropped == final(self)@.subscribers.len()
            },
    {
        let message = T::from(rows);
        let report = self.on_rows(&message);
        assert(polled(old(self)@, self@, message));
        report
    }

    /// Takes the error of a poll: it goes to the sink as an SQL protocol
    /// error, and the actor goes on.
    pub fn on_query_error(&self, error: SqlError, sink: &mut ErrorHandler) -> (taken: bool)
        requires
            old(sink).wf(),
        ensures
            final(sink).wf(),
            taken == (old(sink).pending().len() < 100),
            final(sink).pending().len() == old(sink).pending().len() + if taken {
                1int
            } else {
                0int
            },
            old(sink).pending().is_prefix_of(final(sink).pending()),
            taken ==> final(sink).pending().last().reason() == query_fault(error.0@)
                && final(sink).pending().last() matches ActorError::ProtocolError(
                ProtocolKind::Sql,
                _,
            ),
    {
        sink.report(query_error(error))
    }

    /// Marks subscriber `i` as stale: its mailbox is closed, so that the
    /// next poll takes it off the list.
    pub fn close_subscriber(&mut self, i: usize)
        requires
            old(self).wf(),
            i < old(self)@.subscribers.len(),
        ensures
            final(self).wf(),
            final(self)@ == (PollerView {
                subscribers: old(self)@.subscribers.update(
                    i as int,
                    old(self)@.subscribers[i as int].close(),
                ),
                ..old(self)@
            }),
    {
        let ghost before = self.subscribers@;
        self.subscribers[i].close();
        proof {
            assert forall|k: int| 0 <= k < before.len() && k != i implies self.subscribers@[k]
                == before[k] by {}
            assert(mailbox_views(self.subscribers@) =~= mailbox_views(before).update(
                i as int,
                mailbox_views(before)[i as int].close(),
            ));
        }
    }

    /// Receives for subscriber `i`: the oldest message in its mailbox.
    pub fn receive(&mut self, i: usize) -> (delivery: Delivery<T>)
        requires
            old(self).wf(),
            i < old(self)@.subscribers.len(),
        ensures
            final(self).wf(),
            final(self)@ == (PollerView {
                subscribers: old(self)@.subscribers.update(
                    i as int,
                    old(self)@.subscribers[i as int].take(),
                ),
                ..old(self)@
            }),
            match delivery {
                Delivery::Message(m) => old(self)@.subscribers[i as int].pending.len() > 0 && m
                    == old(self)@.subscribers[i as int].pending[0],
                Delivery::Empty => old(self)@.subscribers[i as int].pending.len() == 0 && !old(
                    self,
                )@.subscribers[i as int].closed,
                Delivery::Closed => old(self)@.subscribers[i as int].pending.len() == 0 && old(
                    self,
                )@.subscribers[i as int].closed,
            },
    {
        let ghost before = self.subscribers@;
        let delivery = self.subscribers[i].try_recv();
        proof {
            assert forall|k: int| 0 <= k < before.len() && k != i implies self.subscribers@[k]
                == before[k] by {}
            assert(mailbox_views(self.subscribers@) =~= mailbox_views(before).update(
                i as int,
                mailbox_views(before)[i as int].take(),
            ));
        }
        delivery
    }

    /// Takes a service message. A start does nothing, for the actor polls
    /// from its start on; a stop ends the polling. Neither fails.
    pub fn handle(&mut self, message: ActorServiceMessage) -> (done: ActorResultVoid)
        requires
            old(self).wf(),
        ensures
            final(self).wf(),
            done is Ok,
            final(self)@ == (PollerView {
                stopped: old(self)@.stopped || message == ActorServiceMessage::Stop,
                ..old(self)@
            }),
    {
        match message {
            ActorServiceMessage::Start => {},
            ActorServiceMessage::Stop => {
                self.stopped = true;
            },
        }
        Ok(())
    }
}

} // verus!
