//! The stream between a background worker and an open response: events go in
//! at one end and come out at the other in the same order, and the end of the
//! stream is seen once the worker is done and everything has come out.

use vstd::prelude::*;
use std::collections::VecDeque;

verus! {

/// What the consumer finds.
#[derive(Debug, PartialEq, Eq)]
pub enum Polled {
    /// The next event.
    Item(Vec<u8>),
    /// Nothing yet; the producer is still at work.
    Pending,
    /// The producer is done and every event has been taken.
    Finished,
}

/// What waits after a poll: everything but the oldest event.
pub open spec fn after_poll(pending: Seq<Seq<u8>>) -> Seq<Seq<u8>> {
    if pending.len() > 0 {
        pending.skip(1)
    } else {
        pending
    }
}

/// The stream.
pub struct StreamChannel {
    queue: VecDeque<Vec<u8>>,
    closed: bool,
}

impl StreamChannel {
    /// The events that were sent and not yet taken, oldest first.
    pub closed spec fn pending(&self) -> Seq<Seq<u8>> {
        Seq::new(self.queue@.len(), |i: int| self.queue@[i]@)
    }

    /// Whether the producer is done.
    pub closed spec fn closed(&self) -> bool {
        self.closed
    }

    /// An open stream without events.
    pub fn new() -> (s: StreamChannel)
        ensures
            s.pending() == Seq::<Seq<u8>>::empty(),
            !s.closed(),
    {
        let s = StreamChannel { queue: VecDeque::new(), closed: false };
        assert(s.pending() =~= Seq::<Seq<u8>>::empty());
        s
    }

    /// The producer sends an event: it goes behind those that wait. There is
    /// no bound on how many wait. An event that is sent after the producer
    /// said it was done is dropped, and `false` says so.
    pub fn send(&mut self, event: Vec<u8>) -> (accepted: bool)
        ensures
            accepted == !old(self).closed(),
            final(self).closed() == old(self).closed(),
            final(self).pending() == if old(self).closed() {
                old(self).pending()
            } else {
                old(self).pending().push(event@)
            },
    {
        if self.closed {
            false
        } else {
            self.queue.push_back(event);
            assert(self.pending() =~= old(self).pending().push(event@));
            true
        }
    }

    /// The producer is done, in success or in failure. What waits stays.
    pub fn close(&mut self)
        ensures
            final(self).closed(),
            final(self).pending() == old(self).pending(),
    {
        self.closed = true;
    }

    /// The consumer takes the oldest event that waits. Where none waits, the
    /// stream is finished if the producer is done, and pending if not.
    pub fn poll(&mut self) -> (p: Polled)
        ensures
            final(self).closed() == old(self).closed(),
            final(self).pending() == after_poll(old(self).pending()),
            match p {
                Polled::Item(event) => old(self).pending().len() > 0 && event@ == old(self).pending()[0],
                Polled::Pending => old(self).pending().len() == 0 && !old(self).closed(),
                Polled::Finished => old(self).pending().len() == 0 && old(self).closed(),
            },
    {
        match self.queue.pop_front() {
            Some(event) => {
                assert(self.pending() =~= old(self).pending().skip(1));
                Polled::Item(event)
            },
            None => {
                assert(self.pending() =~= old(self).pending());
                if self.closed {
                    Polled::Finished
                } else {
                    Polled::Pending
                }
            },
        }
    }
}

/// The stream keeps the order: an event that is sent comes out after all
/// that waited before it, and before any that is sent after it.
pub proof fn lemma_order_preserved(pending: Seq<Seq<u8>>, event: Seq<u8>)
    ensures
        pending.len() > 0 ==> pending.push(event)[0] == pending[0] && after_poll(
            pending.push(event),
        ) == after_poll(pending).push(event),
        pending.len() == 0 ==> pending.push(event)[0] == event && after_poll(pending.push(event))
            == pending,
{
    if pending.len() > 0 {
        assert(pending.push(event).skip(1) =~= pending.skip(1).push(event));
    } else {
        assert(pending.push(event).skip(1) =~= pending);
    }
}

} // verus!
