//! Bounded first-in-first-out queues of envelopes.

use crate::message::{Envelope, EnvelopeView};
use std::collections::VecDeque;
use vstd::prelude::*;

verus! {

/// Why a queue did not take an envelope.
#[derive(Debug, Clone, Copy, PartialEq, Eq, Structural)]
pub enum QueueError {
    /// The queue holds as many envelopes as its capacity allows.
    Full,
    /// The queue was closed and takes nothing any more.
    Closed,
}

/// An envelope handed back by a queue that did not take it.
#[derive(Debug)]
pub struct Rejected {
    pub reason: QueueError,
    pub item: Envelope,
}

/// The values of a sequence of envelopes.
pub open spec fn views(items: Seq<Envelope>) -> Seq<EnvelopeView> {
    items.map_values(|e: Envelope| e@)
}

/// One direction of the relay: an ordered, bounded queue of envelopes.
///
/// Envelopes leave in the order in which they entered, so the order of the
/// messages of each origin is kept. A closed queue takes nothing new but can
/// still be emptied.
#[derive(Debug)]
pub struct RelayQueue {
    items: VecDeque<Envelope>,
    limit: usize,
    closed: bool,
}

impl View for RelayQueue {
    type V = Seq<EnvelopeView>;

    closed spec fn view(&self) -> Seq<EnvelopeView> {
        views(self.items@)
    }
}

impl RelayQueue {
    /// The most envelopes the queue holds at once.
    pub closed spec fn limit(&self) -> nat {
        self.limit as nat
    }

    /// Whether the queue was closed.
    pub closed spec fn closed(&self) -> bool {
        self.closed
    }

    /// The queue holds no more than its capacity.
    pub closed spec fn wf(&self) -> bool {
        self.items@.len() <= self.limit
    }

    /// Room left before the queue is full.
    pub open spec fn room(&self) -> nat {
        (self.limit() - self@.len()) as nat
    }

    /// What follows from well-formedness: the bound on the length.
    pub proof fn lemma_bounded(&self)
        requires
            self.wf(),
        ensures
            self@.len() <= self.limit(),
            self.limit() <= usize::MAX,
    {
    }

    /// An empty, open queue that holds at most `capacity` envelopes.
    pub fn new(capacity: usize) -> (out: RelayQueue)
        ensures
            out.wf(),
            out@ == Seq::<EnvelopeView>::empty(),
            out.limit() == capacity,
            !out.closed(),
    {
        let out = RelayQueue { items: VecDeque::new(), limit: capacity, closed: false };
        assert(out@ =~= Seq::<EnvelopeView>::empty());
        out
    }

    /// Number of envelopes waiting.
    pub fn len(&self) -> (out: usize)
        ensures
            out == self@.len(),
    {
        self.items.len()
    }

    /// Whether no envelope is waiting.
    pub fn is_empty(&self) -> (out: bool)
        ensures
            out == (self@.len() == 0),
    {
        self.items.len() == 0
    }

    /// The most envelopes the queue holds at once.
    pub fn capacity(&self) -> (out: usize)
        ensures
            out == self.limit(),
    {
        self.limit
    }

    /// Whether the queue was closed.
    pub fn is_closed(&self) -> (out: bool)
        ensures
            out == self.closed(),
    {
        self.closed
    }

    /// Closes the queue; what waits in it stays.
    pub fn close(&mut self)
        requires
            old(self).wf(),
        ensures
            final(self).wf(),
            final(self).closed(),
            final(self)@ == old(self)@,
            final(self).limit() == old(self).limit(),
    {
        self.closed = true;
    }

    /// Appends an envelope without waiting.
    ///
    /// A closed queue hands the envelope back with `Closed`; an open queue
    /// that is full hands it back with `Full`; otherwise the envelope becomes
    /// the last of the queue. Nothing else changes.
    pub fn try_push(&mut self, item: Envelope) -> (out: Result<(), Rejected>)
        requires
            old(self).wf(),
        ensures
            final(self).wf(),
            final(self).limit() == old(self).limit(),
            final(self).closed() == old(self).closed(),
            old(self).closed() ==> out is Err && out->Err_0.reason == QueueError::Closed,
            !old(self).closed() && old(self)@.len() >= old(self).limit() ==> out is Err
                && out->Err_0.reason == QueueError::Full,
            !old(self).closed() && old(self)@.len() < old(self).limit() ==> out is Ok,
            out is Err ==> out->Err_0.item@ == item@ && final(self)@ == old(self)@,
            out is Ok ==> final(self)@ == old(self)@.push(item@),
    {
        if self.closed {
            Err(Rejected { reason: QueueError::Closed, item })
        } else if self.items.len() >= self.limit {
            Err(Rejected { reason: QueueError::Full, item })
        } else {
            let ghost value = item@;
            self.items.push_back(item);
            assert(self@ =~= old(self)@.push(value));
            Ok(())
        }
    }

    /// Takes the first envelope without waiting.
    ///
    /// Gives `None`, and changes nothing, exactly when the queue is empty.
    pub fn try_pop(&mut self) -> (out: Option<Envelope>)
        requires
            old(self).wf(),
        ensures
            final(self).wf(),
            final(self).limit() == old(self).limit(),
            final(self).closed() == old(self).closed(),
            old(self)@.len() == 0 ==> out is None && final(self)@ == old(self)@,
            old(self)@.len() > 0 ==> out is Some && out->Some_0@ == old(self)@[0] && final(
                self
            )@ == old(self)@.drop_first(),
    {
        let out = self.items.pop_front();
        assert(self@ =~= if old(self)@.len() == 0 {
            old(self)@
        } else {
            old(self)@.drop_first()
        });
        out
    }
}

} // verus!
