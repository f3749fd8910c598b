//! The coordination loop: a pass-through relay from the inbound queue to the
//! outbound queue.
//!
//! The functions here never wait. They report why nothing more can be moved,
//! and the caller sleeps on that condition instead of polling.

use crate::message::{from_origin, EnvelopeView};
use crate::queue::{QueueError, RelayQueue};
use vstd::prelude::*;

verus! {

/// What one step of the coordinator did.
#[derive(Debug, Clone, Copy, PartialEq, Eq, Structural)]
pub enum RelayStep {
    /// The first inbound envelope became the last outbound envelope.
    Forwarded,
    /// Nothing waits inbound; suspend until data or a shutdown arrives.
    Idle,
    /// The outbound queue is full; suspend until a consumer has made room.
    Stalled,
    /// A queue is gone: the outbound queue is closed, or the inbound queue is
    /// closed and empty. The loop ends.
    Failed(QueueError),
}

/// The step that the coordinator takes on queues in the given condition.
pub open spec fn next_step(
    waiting: nat,
    inbound_closed: bool,
    outbound_len: nat,
    outbound_limit: nat,
    outbound_closed: bool,
) -> RelayStep {
    if outbound_closed {
        RelayStep::Failed(QueueError::Closed)
    } else if waiting == 0 {
        if inbound_closed {
            RelayStep::Failed(QueueError::Closed)
        } else {
            RelayStep::Idle
        }
    } else if outbound_len >= outbound_limit {
        RelayStep::Stalled
    } else {
        RelayStep::Forwarded
    }
}

/// How many envelopes one drain moves: all that wait, as far as there is
/// room, and none into a closed queue.
pub open spec fn moved(waiting: nat, room: nat, outbound_closed: bool) -> nat {
    if outbound_closed {
        0
    } else if waiting <= room {
        waiting
    } else {
        room
    }
}

/// How many envelopes still wait inbound after `cycles` drains, when before
/// each drain the consumers have left `room` free places in the open
/// outbound queue and nothing new arrives.
pub open spec fn left_after(waiting: nat, room: nat, cycles: nat) -> nat
    decreases cycles,
{
    if cycles == 0 {
        waiting
    } else {
        left_after((waiting - moved(waiting, room, false)) as nat, room, (cycles - 1) as nat)
    }
}

/// The outcome of a drain.
#[derive(Debug, Clone, Copy, PartialEq, Eq, Structural)]
pub struct Drained {
    /// How many envelopes were forwarded.
    pub forwarded: usize,
    /// Why the drain stopped; never `Forwarded`.
    pub stopped: RelayStep,
}

/// Forwards the first inbound envelope to the outbound queue, if that can be
/// done now, and says what happened. Unless the step is `Forwarded` both
/// queues stay as they were, so no envelope is ever lost.
pub fn relay_one(inbound: &mut RelayQueue, outbound: &mut RelayQueue) -> (out: RelayStep)
    requires
        old(inbound).wf(),
        old(outbound).wf(),
    ensures
        final(inbound).wf(),
        final(outbound).wf(),
        final(inbound).limit() == old(inbound).limit(),
        final(inbound).closed() == old(inbound).closed(),
        final(outbound).limit() == old(outbound).limit(),
        final(outbound).closed() == old(outbound).closed(),
        out == next_step(
            old(inbound)@.len(),
            old(inbound).closed(),
            old(outbound)@.len(),
            old(outbound).limit(),
            old(outbound).closed(),
        ),
        out == RelayStep::Forwarded ==> final(inbound)@ == old(inbound)@.drop_first()
            && final(outbound)@ == old(outbound)@.push(old(inbound)@[0]),
        out != RelayStep::Forwarded ==> final(inbound)@ == old(inbound)@ && final(outbound)@
            == old(outbound)@,
{
    if outbound.is_closed() {
        return RelayStep::Failed(QueueError::Closed);
    }
    if inbound.is_empty() {
        if inbound.is_closed() {
            return RelayStep::Failed(QueueError::Closed);
        }
        return RelayStep::Idle;
    }
    if outbound.len() >= outbound.capacity() {
        return RelayStep::Stalled;
    }
    match inbound.try_pop() {
        Some(item) => match outbound.try_push(item) {
            Ok(()) => RelayStep::Forwarded,
            Err(rejected) => RelayStep::Failed(rejected.reason),
        },
        None => RelayStep::Idle,
    }
}

/// Forwards inbound envelopes in order until nothing more can be moved.
///
/// Exactly `moved(..)` envelopes leave the front of the inbound queue and
/// join the end of the outbound queue, in the same order. The drain always
/// comes to an end and reports the condition the caller has to wait for.
pub fn drain(inbound: &mut RelayQueue, outbound: &mut RelayQueue) -> (out: Drained)
    requires
        old(inbound).wf(),
        old(outbound).wf(),
    ensures
        final(inbound).wf(),
        final(outbound).wf(),
        final(inbound).limit() == old(inbound).limit(),
        final(inbound).closed() == old(inbound).closed(),
        final(outbound).limit() == old(outbound).limit(),
        final(outbound).closed() == old(outbound).closed(),
        out.forwarded == moved(old(inbound)@.len(), old(outbound).room(), old(outbound).closed()),
        final(inbound)@ == old(inbound)@.skip(out.forwarded as int),
        final(outbound)@ == old(outbound)@ + old(inbound)@.take(out.forwarded as int),
        final(outbound)@ + final(inbound)@ == old(outbound)@ + old(inbound)@,
        out.stopped != RelayStep::Forwarded,
        out.stopped == next_step(
            final(inbound)@.len(),
            final(inbound).closed(),
            final(outbound)@.len(),
            final(outbound).limit(),
            final(outbound).closed(),
        ),
{
    let mut count: usize = 0;
    let mut stopped = RelayStep::Forwarded;
    proof {
        old(inbound).lemma_bounded();
        old(outbound).lemma_bounded();
        assert(old(inbound)@.skip(0) =~= old(inbound)@);
        assert(old(outbound)@ + old(inbound)@.take(0) =~= old(outbound)@);
    }
    while stopped == RelayStep::Forwarded
        invariant
            inbound.wf(),
            outbound.wf(),
            inbound.limit() == old(inbound).limit(),
            inbound.closed() == old(inbound).closed(),
            outbound.limit() == old(outbound).limit(),
            outbound.closed() == old(outbound).closed(),
            count <= old(inbound)@.len(),
            old(inbound)@.len() <= usize::MAX,
            outbound.closed() ==> count == 0,
            old(outbound)@.len() <= old(outbound).limit(),
            inbound@ == old(inbound)@.skip(count as int),
            outbound@ == old(outbound)@ + old(inbound)@.take(count as int),
            stopped != RelayStep::Forwarded ==> stopped == next_step(
                inbound@.len(),
                inbound.closed(),
                outbound@.len(),
                outbound.limit(),
                outbound.closed(),
            ),
        decreases inbound@.len() + if stopped == RelayStep::Forwarded { 1int } else { 0int },
    {
        stopped = relay_one(inbound, outbound);
        if stopped == RelayStep::Forwarded {
            assert(inbound@ =~= old(inbound)@.skip(count as int + 1));
            assert(outbound@ =~= old(outbound)@ + old(inbound)@.take(count as int + 1));
            count = count + 1;
        }
    }
    proof {
        outbound.lemma_bounded();
        assert(outbound@.len() == old(outbound)@.len() + count);
        assert(inbound@.len() == old(inbound)@.len() - count);
        assert(outbound@ + inbound@ =~= old(outbound)@ + old(inbound)@);
    }
    Drained { forwarded: count, stopped }
}

/// Order law: a drain moves a front part of the inbound queue behind what
/// already waits outbound, so for every origin the messages still come in
/// the order in which that origin submitted them, whether they were moved or
/// still wait.
pub proof fn lemma_origin_order(
    outbound: Seq<EnvelopeView>,
    inbound: Seq<EnvelopeView>,
    n: int,
    origin: u64,
)
    requires
        0 <= n <= inbound.len(),
    ensures
        from_origin(outbound + inbound.take(n), origin) + from_origin(inbound.skip(n), origin)
            == from_origin(outbound, origin) + from_origin(inbound, origin),
{
    let keep = |e: EnvelopeView| e.origin == origin;
    Seq::filter_distributes_over_add(outbound, inbound.take(n), keep);
    Seq::filter_distributes_over_add(inbound.take(n), inbound.skip(n), keep);
    assert(inbound.take(n) + inbound.skip(n) =~= inbound);
    assert((from_origin(outbound, origin) + from_origin(inbound.take(n), origin)) + from_origin(
        inbound.skip(n),
        origin,
    ) =~= from_origin(outbound, origin) + (from_origin(inbound.take(n), origin) + from_origin(
        inbound.skip(n),
        origin,
    )));
}

/// Progress law: with at least one free place per cycle, a burst of any size
/// is drained after finitely many cycles. After `cycles` cycles with `room`
/// free places each, `waiting - cycles * room` envelopes are left, or none
/// where that is negative; so `waiting` cycles always suffice.
pub proof fn lemma_burst_drains(waiting: nat, room: nat, cycles: nat)
    ensures
        left_after(waiting, room, cycles) == if waiting >= cycles * room {
            (waiting - cycles * room) as nat
        } else {
            0nat
        },
        room >= 1 && cycles >= waiting ==> left_after(waiting, room, cycles) == 0,
    decreases cycles,
{
    if cycles > 0 {
        let rest = (waiting - moved(waiting, room, false)) as nat;
        lemma_burst_drains(rest, room, (cycles - 1) as nat);
        assert((cycles - 1) * room + room == cycles * room) by (nonlinear_arith);
        assert((cycles - 1) * room >= 0) by (nonlinear_arith)
            requires
                cycles >= 1,
                room >= 0,
        ;
    } else {
        assert(cycles * room == 0) by (nonlinear_arith)
            requires
                cycles == 0,
        ;
    }
    if room >= 1 && cycles >= waiting {
        assert(cycles * room >= waiting) by (nonlinear_arith)
            requires
                room >= 1,
                cycles >= waiting,
        ;
    }
}

} // verus!
