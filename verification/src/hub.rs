//! The merged stream's subscribers. Every subscriber has a mailbox of its
//! own and receives every event that is published after it subscribed, in
//! the order of publication. Beside the events, and apart from them, it
//! receives the failures of backends: a failure never ends the stream.

use vstd::prelude::*;
use crate::discovery::{event_views, DiscoveryEvent, DiscoveryEventView};
use crate::protocol::BackendFailure;

verus! {

/// Number the hub hands to a subscriber.
pub type SubscriberId = usize;

/// The subscribers' queues after `items` were handed to the hub: while the
/// stream is live every queue grows by all of them, in order; once it has
/// ended nothing changes.
pub open spec fn delivered<E>(queues: Seq<Seq<E>>, items: Seq<E>, ended: bool) -> Seq<Seq<E>> {
    if ended {
        queues
    } else {
        queues.map_values(|q: Seq<E>| q + items)
    }
}

/// Handing nothing to the hub changes nothing.
pub proof fn lemma_delivered_nothing<E>(queues: Seq<Seq<E>>, ended: bool)
    ensures
        delivered(queues, Seq::<E>::empty(), ended) == queues,
{
    let out = delivered(queues, Seq::<E>::empty(), ended);
    assert forall|s: int| 0 <= s < queues.len() implies out[s] == queues[s] by {
        assert(queues[s] + Seq::<E>::empty() =~= queues[s]);
    }
    assert(out =~= queues);
}

/// What waits for one subscriber.
pub struct Mailbox {
    events: Vec<DiscoveryEvent>,
    failures: Vec<BackendFailure>,
}

/// Fans the merged stream out to its subscribers.
pub struct EventHub {
    boxes: Vec<Mailbox>,
    closed: bool,
}

impl View for EventHub {
    type V = Seq<Seq<DiscoveryEventView>>;

    /// For every subscriber, the events that wait for it.
    closed spec fn view(&self) -> Seq<Seq<DiscoveryEventView>> {
        self.boxes@.map_values(|m: Mailbox| event_views(m.events@))
    }
}

impl EventHub {
    /// For every subscriber, the failures that wait for it.
    pub closed spec fn failures(&self) -> Seq<Seq<BackendFailure>> {
        self.boxes@.map_values(|m: Mailbox| m.failures@)
    }

    /// Whether the stream has ended: nothing is published any more.
    pub closed spec fn ended(&self) -> bool {
        self.closed
    }

    /// A hub without subscribers, its stream live.
    pub fn new() -> (r: EventHub)
        ensures
            r@ == Seq::<Seq<DiscoveryEventView>>::empty(),
            r.failures() == Seq::<Seq<BackendFailure>>::empty(),
            !r.ended(),
    {
        let r = EventHub { boxes: Vec::new(), closed: false };
        assert(r@ =~= Seq::<Seq<DiscoveryEventView>>::empty());
        assert(r.failures() =~= Seq::<Seq<BackendFailure>>::empty());
        r
    }

    /// Number of subscribers.
    pub fn subscriber_count(&self) -> (r: usize)
        ensures
            r == self@.len(),
            r == self.failures().len(),
    {
        self.boxes.len()
    }

    /// Whether the stream has ended.
    pub fn is_closed(&self) -> (r: bool)
        ensures
            r == self.ended(),
    {
        self.closed
    }

    /// Adds a subscriber. Its mailbox starts out empty; the other
    /// subscribers' mailboxes are untouched.
    pub fn subscribe(&mut self) -> (r: SubscriberId)
        ensures
            r == old(self)@.len(),
            final(self)@ == old(self)@.push(Seq::<DiscoveryEventView>::empty()),
            final(self).failures() == old(self).failures().push(Seq::<BackendFailure>::empty()),
            final(self).ended() == old(self).ended(),
    {
        let id = self.boxes.len();
        let mailbox = Mailbox { events: Vec::new(), failures: Vec::new() };
        assert(event_views(mailbox.events@) =~= Seq::<DiscoveryEventView>::empty());
        self.boxes.push(mailbox);
        assert(self@ =~= old(self)@.push(Seq::<DiscoveryEventView>::empty()));
        assert(self.failures() =~= old(self).failures().push(Seq::<BackendFailure>::empty()));
        id
    }

    /// Publishes an event: while the stream is live every subscriber's
    /// mailbox grows by the event; once it has ended nothing changes.
    pub fn publish(&mut self, event: &DiscoveryEvent)
        ensures
            final(self).ended() == old(self).ended(),
            final(self).failures() == old(self).failures(),
            final(self)@ == delivered(old(self)@, seq![event@], old(self).ended()),
    {
        if self.closed {
            return ;
        }
        let mut i: usize = 0;
        while i < self.boxes.len()
            invariant
                i <= self.boxes.len(),
                self.closed == old(self).closed,
                !self.closed,
                self@.len() == old(self)@.len(),
                self.failures() == old(self).failures(),
                forall|s: int| 0 <= s < i ==> #[trigger] self@[s] == old(self)@[s].push(event@),
                forall|s: int| i <= s < self@.len() ==> #[trigger] self@[s] == old(self)@[s],
            decreases self.boxes.len() - i,
        {
            let ghost prior = self@;
            let ghost prior_boxes = self.boxes@;
            let copy = event.duplicate();
            self.boxes[i].events.push(copy);
            proof {
                assert(self@.len() == prior.len());
                assert(self@[i as int] =~= prior[i as int].push(event@));
                assert forall|s: int| 0 <= s < self@.len() && s != i implies #[trigger] self@[s]
                    == prior[s] by {
                    assert(self.boxes@[s] == prior_boxes[s]);
                }
                assert forall|s: int| 0 <= s <= i implies #[trigger] self@[s] == old(self)@[s].push(
                    event@,
                ) by {
                    if s < i {
                        assert(prior[s] == old(self)@[s].push(event@));
                    } else {
                        assert(prior[s] == old(self)@[s]);
                    }
                }
                assert forall|s: int| i < s < self@.len() implies #[trigger] self@[s] == old(self)@[s] by {
                    assert(prior[s] == old(self)@[s]);
                }
                assert(self.failures() =~= old(self).failures()) by {
                    assert forall|s: int| 0 <= s < self.boxes@.len() implies self.boxes@[s].failures
                        == prior_boxes[s].failures by {}
                }
            }
            i = i + 1;
        }
        proof {
            let target = delivered(old(self)@, seq![event@], false);
            assert forall|s: int| 0 <= s < self@.len() implies self@[s] == target[s] by {
                assert(old(self)@[s].push(event@) =~= old(self)@[s] + seq![event@]);
            }
            assert(self@ =~= target);
        }
    }

    /// Publishes a batch of events, in order.
    pub fn publish_all(&mut self, events: &Vec<DiscoveryEvent>)
        ensures
            final(self).ended() == old(self).ended(),
            final(self).failures() == old(self).failures(),
            final(self)@ == delivered(old(self)@, event_views(events@), old(self).ended()),
    {
        let mut k: usize = 0;
        proof {
            assert(event_views(events@).take(0) =~= Seq::<DiscoveryEventView>::empty());
            lemma_delivered_nothing(self@, self.ended());
        }
        while k < events.len()
            invariant
                k <= events.len(),
                self.ended() == old(self).ended(),
                self.failures() == old(self).failures(),
                self@ == delivered(
                    old(self)@,
                    event_views(events@).take(k as int),
                    old(self).ended(),
                ),
            decreases events.len() - k,
        {
            let ghost prior = self@;
            self.publish(&events[k]);
            proof {
                let sent = event_views(events@).take(k as int);
                let more = event_views(events@).take(k + 1);
                let target = delivered(old(self)@, more, old(self).ended());
                assert(more =~= sent.push(events@[k as int]@));
                assert forall|s: int| 0 <= s < self@.len() implies self@[s] == target[s] by {
                    if !old(self).ended() {
                        assert(prior[s] == old(self)@[s] + sent);
                        assert(self@[s] == prior[s] + seq![events@[k as int]@]);
                        assert(self@[s] =~= old(self)@[s] + more);
                    }
                }
                assert(self@ =~= target);
            }
            k = k + 1;
        }
        proof {
            assert(event_views(events@).take(events@.len() as int) =~= event_views(events@));
        }
    }

    /// Tells every subscriber of a backend's failure, apart from the
    /// events: while the stream is live every subscriber's list of
    /// failures grows by this one, and no event is added or removed.
    pub fn notify(&mut self, failure: BackendFailure)
        ensures
            final(self).ended() == old(self).ended(),
            final(self)@ == old(self)@,
            final(self).failures() == delivered(
                old(self).failures(),
                seq![failure],
                old(self).ended(),
            ),
    {
        if self.closed {
            return ;
        }
        let mut i: usize = 0;
        while i < self.boxes.len()
            invariant
                i <= self.boxes.len(),
                self.closed == old(self).closed,
                !self.closed,
                self@ == old(self)@,
                self.failures().len() == old(self).failures().len(),
                forall|s: int|
                    0 <= s < i ==> #[trigger] self.failures()[s] == old(self).failures()[s].push(
                        failure,
                    ),
                forall|s: int|
                    i <= s < self.failures().len() ==> #[trigger] self.failures()[s] == old(self).failures()[s],
            decreases self.boxes.len() - i,
        {
            let ghost prior = self.failures();
            let ghost prior_boxes = self.boxes@;
            self.boxes[i].failures.push(failure);
            proof {
                assert(self.failures().len() == prior.len());
                assert(self.failures()[i as int] =~= prior[i as int].push(failure));
                assert forall|s: int|
                    0 <= s < self.failures().len() && s != i implies #[trigger] self.failures()[s]
                    == prior[s] by {
                    assert(self.boxes@[s] == prior_boxes[s]);
                }
                assert forall|s: int| 0 <= s <= i implies #[trigger] self.failures()[s] == old(self).failures()[s].push(failure) by {
                    if s < i {
                        assert(prior[s] == old(self).failures()[s].push(failure));
                    } else {
                        assert(prior[s] == old(self).failures()[s]);
                    }
                }
                assert forall|s: int|
                    i < s < self.failures().len() implies #[trigger] self.failures()[s] == old(self).failures()[s] by {
                    assert(prior[s] == old(self).failures()[s]);
                }
                assert(self@ =~= old(self)@) by {
                    assert forall|s: int| 0 <= s < self.boxes@.len() implies self.boxes@[s].events
                        == prior_boxes[s].events by {}
                }
            }
            i = i + 1;
        }
        proof {
            let target = delivered(old(self).failures(), seq![failure], false);
            assert forall|s: int| 0 <= s < self.failures().len() implies self.failures()[s]
                == target[s] by {
                assert(old(self).failures()[s].push(failure) =~= old(self).failures()[s]
                    + seq![failure]);
            }
            assert(self.failures() =~= target);
        }
    }

    /// Tells every subscriber of a batch of failures, in order.
    pub fn notify_all(&mut self, failures: &Vec<BackendFailure>)
        ensures
            final(self).ended() == old(self).ended(),
            final(self)@ == old(self)@,
            final(self).failures() == delivered(
                old(self).failures(),
                failures@,
                old(self).ended(),
            ),
    {
        let mut k: usize = 0;
        proof {
            assert(failures@.take(0) =~= Seq::<BackendFailure>::empty());
            lemma_delivered_nothing(self.failures(), self.ended());
        }
        while k < failures.len()
            invariant
                k <= failures.len(),
                self.ended() == old(self).ended(),
                self@ == old(self)@,
                self.failures() == delivered(
                    old(self).failures(),
                    failures@.take(k as int),
                    old(self).ended(),
                ),
            decreases failures.len() - k,
        {
            let ghost prior = self.failures();
            self.notify(failures[k]);
            proof {
                let sent = failures@.take(k as int);
                let more = failures@.take(k + 1);
                let target = delivered(old(self).failures(), more, old(self).ended());
                assert(more =~= sent.push(failures@[k as int]));
                assert forall|s: int| 0 <= s < self.failures().len() implies self.failures()[s]
                    == target[s] by {
                    if !old(self).ended() {
                        assert(prior[s] == old(self).failures()[s] + sent);
                        assert(self.failures()[s] == prior[s] + seq![failures@[k as int]]);
                        assert(self.failures()[s] =~= old(self).failures()[s] + more);
                    }
                }
                assert(self.failures() =~= target);
            }
            k = k + 1;
        }
        proof {
            assert(failures@.take(failures@.len() as int) =~= failures@);
        }
    }

    /// Hands a subscriber the events that wait for it, in the order of
    /// publication, and empties that part of its mailbox. An unknown
    /// subscriber gets nothing.
    pub fn drain(&mut self, subscriber: SubscriberId) -> (r: Vec<DiscoveryEvent>)
        ensures
            final(self).ended() == old(self).ended(),
            final(self).failures() == old(self).failures(),
            subscriber < old(self)@.len() ==> event_views(r@) == old(self)@[subscriber as int]
                && final(self)@ == old(self)@.update(
                subscriber as int,
                Seq::<DiscoveryEventView>::empty(),
            ),
            subscriber >= old(self)@.len() ==> r@.len() == 0 && final(self)@ == old(self)@,
    {
        let mut batch: Vec<DiscoveryEvent> = Vec::new();
        if subscriber < self.boxes.len() {
            assert(event_views(batch@) =~= Seq::<DiscoveryEventView>::empty());
            core::mem::swap(&mut self.boxes[subscriber].events, &mut batch);
            assert(self@ =~= old(self)@.update(
                subscriber as int,
                Seq::<DiscoveryEventView>::empty(),
            ));
            assert(self.failures() =~= old(self).failures());
        }
        batch
    }

    /// Hands a subscriber the failures that wait for it, oldest first, and
    /// empties that part of its mailbox. An unknown subscriber gets nothing.
    pub fn drain_failures(&mut self, subscriber: SubscriberId) -> (r: Vec<BackendFailure>)
        ensures
            final(self).ended() == old(self).ended(),
            final(self)@ == old(self)@,
            subscriber < old(self).failures().len() ==> r@ == old(self).failures()[subscriber as int] && final(self).failures() == old(self).failures().update(subscriber as int, Seq::<BackendFailure>::empty()),
            subscriber >= old(self).failures().len() ==> r@.len() == 0 && final(self).failures()
                == old(self).failures(),
    {
        let mut batch: Vec<BackendFailure> = Vec::new();
        if subscriber < self.boxes.len() {
            core::mem::swap(&mut self.boxes[subscriber].failures, &mut batch);
            assert(self.failures() =~= old(self).failures().update(
                subscriber as int,
                Seq::<BackendFailure>::empty(),
            ));
            assert(self@ =~= old(self)@);
        }
        batch
    }

    /// Ends the stream. What was published stays in the mailboxes; nothing
    /// more is added.
    pub fn close(&mut self)
        ensures
            final(self).ended(),
            final(self)@ == old(self)@,
            final(self).failures() == old(self).failures(),
    {
        self.closed = true;
    }
}

} // verus!
