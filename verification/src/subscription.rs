//! Fan-out from a producer to its subscribers.
//!
//! A subscriber is the mailbox of a consumer. A producer hands a copy of
//! each message to every subscriber, in the order in which the subscribers
//! came, by a send that does not wait: a full mailbox drops the message, a
//! closed one is stale and is taken off the list before the next send.

use crate::mailbox::{Mailbox, MailboxView};
use vstd::prelude::*;

verus! {

/// The views of a list of mailboxes.
pub open spec fn mailbox_views<M>(boxes: Seq<Mailbox<M>>) -> Seq<MailboxView<M>> {
    boxes.map_values(|b: Mailbox<M>| b@)
}

/// Every mailbox of the list is well formed.
pub open spec fn all_wf<M>(boxes: Seq<Mailbox<M>>) -> bool {
    forall|i: int| 0 <= i < boxes.len() ==> (#[trigger] boxes[i]).wf()
}

/// The open mailboxes of a list, in order.
pub open spec fn open_ones<M>(views: Seq<MailboxView<M>>) -> Seq<MailboxView<M>> {
    views.filter(|v: MailboxView<M>| !v.closed)
}

/// Number of mailboxes of a list that take a message now.
pub open spec fn accepting<M>(views: Seq<MailboxView<M>>) -> nat
    decreases views.len(),
{
    if views.len() == 0 {
        0
    } else {
        accepting(views.drop_last()) + if views.last().refusal() is None {
            1nat
        } else {
            0nat
        }
    }
}

/// What one send to one subscriber did.
pub open spec fn delivered_to<M: Clone>(
    before: MailboxView<M>,
    after: MailboxView<M>,
    message: M,
) -> bool {
    exists|copy: M| cloned(message, copy) && after == before.offer(copy)
}

/// How a fan-out went.
#[derive(Debug, Clone, Copy, PartialEq, Eq, Structural)]
pub struct FanOut {
    /// Subscribers that took the message.
    pub delivered: usize,
    /// Subscribers that were full or closed.
    pub dropped: usize,
}

/// Takes the closed mailboxes off the list. The others keep their order.
pub fn prune<M>(subscribers: &mut Vec<Mailbox<M>>) -> (pruned: usize)
    requires
        all_wf(old(subscribers)@),
    ensures
        all_wf(final(subscribers)@),
        mailbox_views(final(subscribers)@) == open_ones(mailbox_views(old(subscribers)@)),
        pruned == old(subscribers)@.len() - final(subscribers)@.len(),
{
    let ghost before = mailbox_views(subscribers@);
    let mut kept: Vec<Mailbox<M>> = Vec::new();
    let mut pruned: usize = 0;
    let total = subscribers.len();
    assert(mailbox_views(kept@) =~= open_ones(before.take(0))) by {
        reveal(Seq::filter);
        assert(before.take(0) =~= Seq::empty());
    }
    let mut i: usize = 0;
    while subscribers.len() > 0
        invariant
            i + subscribers.len() == total,
            total == before.len(),
            pruned + kept.len() == i,
            all_wf(subscribers@),
            all_wf(kept@),
            mailbox_views(subscribers@) == before.skip(i as int),
            mailbox_views(kept@) == open_ones(before.take(i as int)),
        decreases subscribers.len(),
    {
        let ghost rest = subscribers@;
        let ghost held = kept@;
        let first = subscribers.remove(0);
        proof {
            assert(first == rest[0]);
            assert(first.wf());
            assert(first@ == before[i as int]) by {
                assert(mailbox_views(rest)[0] == before.skip(i as int)[0]);
            }
            assert(mailbox_views(subscribers@) =~= before.skip(i + 1)) by {
                assert forall|k: int| 0 <= k < subscribers@.len() implies mailbox_views(
                    subscribers@,
                )[k] == before.skip(i + 1)[k] by {
                    assert(subscribers@[k] == rest[k + 1]);
                    assert(mailbox_views(rest)[k + 1] == before.skip(i as int)[k + 1]);
                }
            }
            assert forall|k: int| 0 <= k < subscribers@.len() implies (
            #[trigger] subscribers@[k]).wf() by {
                assert(subscribers@[k] == rest[k + 1]);
            }
            assert(before.take(i + 1).drop_last() =~= before.take(i as int));
            assert(before.take(i + 1).last() == before[i as int]);
            reveal(Seq::filter);
        }
        if first.is_closed() {
            pruned += 1;
        } else {
            kept.push(first);
            proof {
                assert(mailbox_views(kept@) =~= mailbox_views(held).push(first@));
                assert forall|k: int| 0 <= k < kept@.len() implies (#[trigger] kept@[k]).wf() by {
                    if k < held.len() {
                        assert(kept@[k] == held[k]);
                    }
                }
            }
        }
        i += 1;
    }
    proof {
        assert(before.take(total as int) =~= before);
    }
    *subscribers = kept;
    pruned
}

/// Hands a copy of `message` to every subscriber, in order, without
/// waiting. Each open subscriber with room gets exactly one copy, at the
/// back of its queue; the others stay as they are.
pub fn fan_out<M: Clone>(message: &M, subscribers: &mut Vec<Mailbox<M>>) -> (report: FanOut)
    requires
        all_wf(old(subscribers)@),
    ensures
        all_wf(final(subscribers)@),
        final(subscribers)@.len() == old(subscribers)@.len(),
        forall|i: int|
            0 <= i < old(subscribers)@.len() ==> delivered_to(
                (#[trigger] old(subscribers)@[i])@,
                final(subscribers)@[i]@,
                *message,
            ),
        report.delivered == accepting(mailbox_views(old(subscribers)@)),
        report.delivered + report.dropped == old(subscribers)@.len(),
{
    let mut delivered: usize = 0;
    let mut dropped: usize = 0;
    let n = subscribers.len();
    let mut i: usize = 0;
    let ghost before_all = mailbox_views(subscribers@);
    assert(before_all.take(0) =~= Seq::<MailboxView<M>>::empty());
    while i < n
        invariant
            i <= n,
            n == subscribers@.len(),
            n == old(subscribers)@.len(),
            before_all == mailbox_views(old(subscribers)@),
            delivered == accepting(before_all.take(i as int)),
            delivered + dropped == i,
            all_wf(subscribers@),
            forall|k: int|
                0 <= k < i ==> delivered_to(
                    (#[trigger] old(subscribers)@[k])@,
                    subscribers@[k]@,
                    *message,
                ),
            forall|k: int| i <= k < n ==> subscribers@[k] == old(subscribers)@[k],
        decreases n - i,
    {
        let copy = message.clone();
        let ghost before = subscribers@;
        let sent = subscribers[i].try_send(copy);
        proof {
            assert(before[i as int] == old(subscribers)@[i as int]);
            assert(before_all.take(i + 1).drop_last() =~= before_all.take(i as int));
            assert(before_all.take(i + 1).last() == before[i as int]@);
            assert(cloned(*message, copy));
            assert(subscribers@[i as int]@ == before[i as int]@.offer(copy));
            assert forall|k: int| 0 <= k < n && k != i implies subscribers@[k] == before[k] by {}
            assert forall|k: int| 0 <= k < n implies (#[trigger] subscribers@[k]).wf() by {
                if k != i {
                    assert(subscribers@[k] == before[k]);
                }
            }
        }
        match sent {
            Ok(()) => {
                delivered += 1;
            },
            Err(_) => {
                dropped += 1;
            },
        }
        i += 1;
    }
    assert(before_all.take(n as int) =~= before_all);
    FanOut { delivered, dropped }
}

/// Takes the stale subscribers off the list and hands a copy of `message`
/// to each of the others.
pub fn publish<M: Clone>(message: &M, subscribers: &mut Vec<Mailbox<M>>) -> (report: FanOut)
    requires
        all_wf(old(subscribers)@),
    ensures
        all_wf(final(subscribers)@),
        final(subscribers)@.len() == open_ones(mailbox_views(old(subscribers)@)).len(),
        forall|i: int|
            0 <= i < final(subscribers)@.len() ==> delivered_to(
                (#[trigger] open_ones(mailbox_views(old(subscribers)@))[i]),
                final(subscribers)@[i]@,
                *message,
            ),
        report.delivered == accepting(open_ones(mailbox_views(old(subscribers)@))),
        report.delivered + report.dropped == final(subscribers)@.len(),
{
    prune(subscribers);
    let ghost open = subscribers@;
    let report = fan_out(message, subscribers);
    proof {
        assert forall|i: int| 0 <= i < subscribers@.len() implies delivered_to(
            (#[trigger] open_ones(mailbox_views(old(subscribers)@))[i]),
            subscribers@[i]@,
            *message,
        ) by {
            assert(mailbox_views(open)[i] == open[i]@);
            assert(delivered_to(open[i]@, subscribers@[i]@, *message));
        }
    }
    report
}

/// A subscriber sees the messages of its producer in the order in which
/// they were emitted, each of them once: after two emissions to an open
/// subscriber with room for both, its queue ends with the copy of the first
/// and then the copy of the second, and holds nothing else that is new.
pub proof fn lemma_emit_order<M: Clone>(
    before: MailboxView<M>,
    between: MailboxView<M>,
    after: MailboxView<M>,
    first: M,
    second: M,
)
    requires
        before.wf(),
        !before.closed,
        before.pending.len() + 2 <= before.capacity,
        delivered_to(before, between, first),
        delivered_to(between, after, second),
    ensures
        after.pending.len() == before.pending.len() + 2,
        after.pending.take(before.pending.len() as int) == before.pending,
        cloned(first, after.pending[before.pending.len() as int]),
        cloned(second, after.pending[before.pending.len() as int + 1]),
{
    let c1 = choose|copy: M| cloned(first, copy) && between == before.offer(copy);
    let c2 = choose|copy: M| cloned(second, copy) && after == between.offer(copy);
    assert(after.pending =~= before.pending.push(c1).push(c2));
    assert(after.pending.take(before.pending.len() as int) =~= before.pending);
}

/// Over any run of emissions a subscriber is offered one copy of each
/// message, in the order of the emissions: where `stages[j]` is its
/// mailbox before emission `j` and `stages[j + 1]` after it, the mailbox
/// at the end is the one at the beginning after sends of the copies, in
/// order. With [`crate::mailbox::lemma_sends_keep_their_order`], what the
/// subscriber finds is in emit order and holds nothing twice.
pub proof fn lemma_emit_order_of_a_run<M: Clone>(stages: Seq<MailboxView<M>>, messages: Seq<M>)
    requires
        stages.len() == messages.len() + 1,
        forall|j: int|
            0 <= j < messages.len() ==> delivered_to(
                stages[j],
                stages[j + 1],
                #[trigger] messages[j],
            ),
    ensures
        exists|copies: Seq<M>|
            {
                &&& copies.len() == messages.len()
                &&& forall|j: int|
                    0 <= j < messages.len() ==> cloned(messages[j], #[trigger] copies[j])
                &&& stages.last() == #[trigger] stages[0].offer_all(copies)
            },
    decreases messages.len(),
{
    if messages.len() == 0 {
        let copies = Seq::<M>::empty();
        assert(stages.last() == stages[0].offer_all(copies));
    } else {
        let n = messages.len() - 1;
        let front = messages.drop_last();
        let early = stages.drop_last();
        assert forall|j: int| 0 <= j < front.len() implies delivered_to(
            early[j],
            early[j + 1],
            #[trigger] front[j],
        ) by {
            assert(delivered_to(stages[j], stages[j + 1], messages[j]));
        }
        lemma_emit_order_of_a_run(early, front);
        let held = choose|copies: Seq<M>|
            {
                &&& copies.len() == front.len()
                &&& forall|j: int| 0 <= j < front.len() ==> cloned(front[j], #[trigger] copies[j])
                &&& early.last() == #[trigger] early[0].offer_all(copies)
            };
        assert(delivered_to(stages[n], stages[n + 1], messages[n]));
        let copy = choose|copy: M| cloned(messages[n], copy) && stages[n + 1] == stages[n].offer(copy);
        let copies = held.push(copy);
        assert(copies.drop_last() =~= held);
        assert(stages.last() == stages[0].offer_all(copies));
        assert forall|j: int| 0 <= j < messages.len() implies cloned(
            messages[j],
            #[trigger] copies[j],
        ) by {
            if j < n {
                assert(cloned(front[j], held[j]));
            }
        }
    }
}

} // verus!
