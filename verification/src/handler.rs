//! The life of one client connection.
//!
//! A connection is counted in the registry from the moment it opens until its
//! first close, fault or shutdown, and never again after that. While it is
//! open, every payload message it receives is queued for the coordinator and
//! echoed to its own client; control frames are neither queued nor echoed.

use crate::message::{carries_payload, Envelope, EnvelopeView, Message, MessageView};
use crate::queue::{QueueError, RelayQueue};
use crate::registry::{Registry, RegistryError};
use vstd::prelude::*;

verus! {

/// Where a connection stands in its life.
#[derive(Debug, Clone, Copy, PartialEq, Eq, Structural)]
pub enum ConnState {
    /// Messages are received, queued and echoed.
    Open,
    /// The server has asked the client to leave and waits for the close.
    Closing,
    /// Ended by a close or a shutdown.
    Closed,
    /// Ended by a fault.
    Errored,
}

/// What a close code means to the server.
#[derive(Debug, Clone, Copy, PartialEq, Eq, Structural)]
pub enum CloseClass {
    /// The client is done with the connection (code 1000).
    Normal,
    /// The client is leaving, for instance navigating away (code 1001).
    GoingAway,
    /// The closing handshake failed and no status was obtained (code 1006).
    AbnormalNoStatus,
    /// Any other code.
    Other,
}

/// How a connection comes to its end.
#[derive(Debug, Clone, Copy, PartialEq, Eq, Structural)]
pub enum Ending {
    /// The close event of the connection.
    Close,
    /// A fault on the connection.
    Fault,
    /// A shutdown forced by the server.
    Shutdown,
}

/// What the handler decided about one received message.
#[derive(Debug, Clone, Copy, PartialEq, Eq, Structural)]
pub enum Outcome {
    /// Queued for the coordinator; to be sent back to the client.
    Echo,
    /// Neither queued nor sent back.
    Ignored,
    /// The inbound queue is full; the message waits with the caller.
    Busy,
    /// The inbound queue is closed; the message cannot be relayed.
    Unavailable,
}

/// The handler's answer to one received message.
#[derive(Debug, PartialEq, Eq)]
pub enum Reply {
    /// The message was queued; send the carried copy back to the client.
    Echo(Message),
    /// A control frame, or a connection that is not open: nothing to do.
    Ignored,
    /// The inbound queue is full. The message is handed back untouched; offer
    /// it again once the coordinator has made room.
    Busy(Message),
    /// The inbound queue is closed. The message is handed back untouched.
    Unavailable(Message),
}

impl Reply {
    /// The decision a reply stands for.
    pub open spec fn outcome(&self) -> Outcome {
        match *self {
            Reply::Echo(_) => Outcome::Echo,
            Reply::Ignored => Outcome::Ignored,
            Reply::Busy(_) => Outcome::Busy,
            Reply::Unavailable(_) => Outcome::Unavailable,
        }
    }

    /// The message a reply carries, if any.
    pub open spec fn carried(&self) -> Option<MessageView> {
        match *self {
            Reply::Echo(m) => Some(m@),
            Reply::Ignored => None,
            Reply::Busy(m) => Some(m@),
            Reply::Unavailable(m) => Some(m@),
        }
    }
}

/// The class of a close code.
pub open spec fn class_of(code: u16) -> CloseClass {
    if code == 1000 {
        CloseClass::Normal
    } else if code == 1001 {
        CloseClass::GoingAway
    } else if code == 1006 {
        CloseClass::AbnormalNoStatus
    } else {
        CloseClass::Other
    }
}

/// A connection in this state still holds its count in the registry.
pub open spec fn live(state: ConnState) -> bool {
    state == ConnState::Open || state == ConnState::Closing
}

/// The state after the server asked the client to leave: an open connection
/// is closing, any other stays as it is.
pub open spec fn asked(state: ConnState) -> ConnState {
    if state == ConnState::Open {
        ConnState::Closing
    } else {
        state
    }
}

/// The state after an ending: the first ending of a live connection decides,
/// later ones change nothing.
pub open spec fn ended(state: ConnState, how: Ending) -> ConnState {
    if live(state) {
        match how {
            Ending::Close => ConnState::Closed,
            Ending::Fault => ConnState::Errored,
            Ending::Shutdown => ConnState::Closed,
        }
    } else {
        state
    }
}

/// How many registry counts a run of endings gives up, starting in `state`.
pub open spec fn given_up(state: ConnState, endings: Seq<Ending>) -> nat
    decreases endings.len(),
{
    if endings.len() == 0 {
        0
    } else {
        (if live(state) {
            1nat
        } else {
            0nat
        }) + given_up(ended(state, endings[0]), endings.drop_first())
    }
}

/// The decision about a message `m` received in `state`, with `waiting`
/// envelopes in an inbound queue of capacity `limit`.
pub open spec fn decide(
    state: ConnState,
    m: MessageView,
    waiting: nat,
    limit: nat,
    closed: bool,
) -> Outcome {
    if state != ConnState::Open || !carries_payload(m) {
        Outcome::Ignored
    } else if closed {
        Outcome::Unavailable
    } else if waiting >= limit {
        Outcome::Busy
    } else {
        Outcome::Echo
    }
}

/// The payload messages among `msgs`, in order: what an open connection
/// echoes when it receives `msgs`.
pub open spec fn echoes(msgs: Seq<MessageView>) -> Seq<MessageView> {
    msgs.filter(|m: MessageView| carries_payload(m))
}

/// The envelopes that an open connection `origin` queues when it receives
/// `msgs`.
pub open spec fn submissions(origin: u64, msgs: Seq<MessageView>) -> Seq<EnvelopeView> {
    echoes(msgs).map_values(|m: MessageView| EnvelopeView { origin, message: m })
}

/// The values of a sequence of messages.
pub open spec fn message_views(msgs: Seq<Message>) -> Seq<MessageView> {
    msgs.map_values(|m: Message| m@)
}

/// What an open connection echoes for `msgs`; any other connection echoes
/// nothing.
pub open spec fn echoes_in(state: ConnState, msgs: Seq<MessageView>) -> Seq<MessageView> {
    if state == ConnState::Open {
        echoes(msgs)
    } else {
        Seq::empty()
    }
}

/// What an open connection queues for `msgs`; any other connection queues
/// nothing.
pub open spec fn submissions_in(state: ConnState, origin: u64, msgs: Seq<MessageView>) -> Seq<
    EnvelopeView,
> {
    if state == ConnState::Open {
        submissions(origin, msgs)
    } else {
        Seq::empty()
    }
}

/// What became of a run of messages handled one after the other.
#[derive(Debug)]
pub struct Burst {
    /// The messages to send back to the client, in order.
    pub echoes: Vec<Message>,
    /// How many messages of the run were handled. The run stops early at the
    /// first message that the inbound queue did not take.
    pub handled: usize,
}

/// Classifies a close code.
pub fn classify_close(code: u16) -> (out: CloseClass)
    ensures
        out == class_of(code),
{
    if code == 1000 {
        CloseClass::Normal
    } else if code == 1001 {
        CloseClass::GoingAway
    } else if code == 1006 {
        CloseClass::AbnormalNoStatus
    } else {
        CloseClass::Other
    }
}

/// One client connection as the server sees it.
#[derive(Debug)]
pub struct Connection {
    id: u64,
    peer: String,
    state: ConnState,
}

impl Connection {
    /// The id given at open; it never changes.
    pub closed spec fn ident(&self) -> u64 {
        self.id
    }

    /// The remote peer as recorded at open; it never changes.
    pub closed spec fn peer_name(&self) -> Seq<char> {
        self.peer@
    }

    /// The current state.
    pub closed spec fn phase(&self) -> ConnState {
        self.state
    }

    /// Opens a connection under `id` and counts it in the registry.
    ///
    /// Fails with `Saturated`, leaving the registry as it was, exactly when
    /// the registry cannot count any further.
    pub fn on_open(id: u64, peer: String, registry: &mut Registry) -> (out: Result<
        Connection,
        RegistryError,
    >)
        ensures
            old(registry)@ < u64::MAX ==> out is Ok && out->Ok_0.ident() == id
                && out->Ok_0.peer_name() == peer@ && out->Ok_0.phase() == ConnState::Open
                && final(registry)@ == old(registry)@ + 1,
            old(registry)@ >= u64::MAX ==> out is Err && out->Err_0 == RegistryError::Saturated
                && final(registry)@ == old(registry)@,
    {
        match registry.increment() {
            Ok(()) => Ok(Connection { id, peer, state: ConnState::Open }),
            Err(e) => Err(e),
        }
    }

    /// The id given at open.
    pub fn id(&self) -> (out: u64)
        ensures
            out == self.ident(),
    {
        self.id
    }

    /// The remote peer as recorded at open.
    pub fn peer(&self) -> (out: &String)
        ensures
            out@ == self.peer_name(),
    {
        &self.peer
    }

    /// The current state.
    pub fn state(&self) -> (out: ConnState)
        ensures
            out == self.phase(),
    {
        self.state
    }

    /// Whether the connection still holds its count in the registry.
    pub fn is_live(&self) -> (out: bool)
        ensures
            out == live(self.phase()),
    {
        match self.state {
            ConnState::Open => true,
            ConnState::Closing => true,
            _ => false,
        }
    }

    /// Handles one received message.
    ///
    /// On an open connection a payload message is appended to the inbound
    /// queue under this connection's id and a copy comes back to be echoed.
    /// Where the queue is full or closed the message is handed back and the
    /// queue stays as it was. Control frames, and anything received while the
    /// connection is not open, leave the queue untouched and are not echoed.
    pub fn on_message(&self, msg: Message, inbound: &mut RelayQueue) -> (out: Reply)
        requires
            old(inbound).wf(),
        ensures
            final(inbound).wf(),
            final(inbound).limit() == old(inbound).limit(),
            final(inbound).closed() == old(inbound).closed(),
            out.outcome() == decide(
                self.phase(),
                msg@,
                old(inbound)@.len(),
                old(inbound).limit(),
                old(inbound).closed(),
            ),
            out.carried() == if out.outcome() == Outcome::Ignored {
                None
            } else {
                Some(msg@)
            },
            final(inbound)@ == if out.outcome() == Outcome::Echo {
                old(inbound)@.push(EnvelopeView { origin: self.ident(), message: msg@ })
            } else {
                old(inbound)@
            },
    {
        if !msg.is_payload() {
            return Reply::Ignored;
        }
        match self.state {
            ConnState::Open => {},
            _ => {
                return Reply::Ignored;
            },
        }
        let echo = msg.duplicate();
        match inbound.try_push(Envelope { origin: self.id, message: msg }) {
            Ok(()) => Reply::Echo(echo),
            Err(rejected) => match rejected.reason {
                QueueError::Full => Reply::Busy(rejected.item.message),
                QueueError::Closed => Reply::Unavailable(rejected.item.message),
            },
        }
    }

    /// Handles a run of received messages in order, stopping at the first
    /// one that the inbound queue does not take.
    ///
    /// The echoes are exactly the payload messages among those handled, in
    /// the order received, and the same messages are appended to the inbound
    /// queue under this connection's id. A run stops early only where the next
    /// message would get `Busy` or `Unavailable`.
    pub fn on_burst(&self, msgs: &Vec<Message>, inbound: &mut RelayQueue) -> (out: Burst)
        requires
            old(inbound).wf(),
        ensures
            final(inbound).wf(),
            final(inbound).limit() == old(inbound).limit(),
            final(inbound).closed() == old(inbound).closed(),
            out.handled <= msgs.len(),
            message_views(out.echoes@) == echoes_in(
                self.phase(),
                message_views(msgs@).take(out.handled as int),
            ),
            final(inbound)@ == old(inbound)@ + submissions_in(
                self.phase(),
                self.ident(),
                message_views(msgs@).take(out.handled as int),
            ),
            out.handled < msgs.len() ==> {
                let next = decide(
                    self.phase(),
                    msgs[out.handled as int]@,
                    final(inbound)@.len(),
                    final(inbound).limit(),
                    final(inbound).closed(),
                );
                next == Outcome::Busy || next == Outcome::Unavailable
            },
            self.phase() == ConnState::Open && !old(inbound).closed() && old(inbound)@.len()
                + echoes(message_views(msgs@)).len() <= old(inbound).limit() ==> out.handled
                == msgs.len() && message_views(out.echoes@) == echoes(message_views(msgs@)),
    {
        let ghost all = message_views(msgs@);
        let mut echoed: Vec<Message> = Vec::new();
        let mut i: usize = 0;
        let mut stalled = false;
        assert(all.take(0) =~= Seq::<MessageView>::empty());
        assert(message_views(echoed@) =~= echoes_in(self.phase(), all.take(0)));
        assert(inbound@ =~= old(inbound)@ + submissions_in(
            self.phase(),
            self.ident(),
            all.take(0),
        ));
        while i < msgs.len() && !stalled
            invariant
                i <= msgs.len(),
                all == message_views(msgs@),
                inbound.wf(),
                inbound.limit() == old(inbound).limit(),
                inbound.closed() == old(inbound).closed(),
                message_views(echoed@) == echoes_in(self.phase(), all.take(i as int)),
                inbound@ == old(inbound)@ + submissions_in(
                    self.phase(),
                    self.ident(),
                    all.take(i as int),
                ),
                stalled ==> i < msgs.len() && ({
                    let next = decide(
                        self.phase(),
                        msgs[i as int]@,
                        inbound@.len(),
                        inbound.limit(),
                        inbound.closed(),
                    );
                    next == Outcome::Busy || next == Outcome::Unavailable
                }),
            decreases msgs.len() - i + if stalled { 0int } else { 1int },
        {
            let ghost before = echoed@;
            proof {
                lemma_echoes_push(all.take(i as int), all[i as int]);
                assert(all.take(i as int + 1) =~= all.take(i as int).push(all[i as int]));
            }
            match self.on_message(msgs[i].duplicate(), inbound) {
                Reply::Echo(m) => {
                    echoed.push(m);
                    assert(message_views(echoed@) =~= message_views(before).push(all[i as int]));
                    assert(inbound@ =~= old(inbound)@ + submissions_in(
                        self.phase(),
                        self.ident(),
                        all.take(i as int + 1),
                    ));
                    i = i + 1;
                },
                Reply::Ignored => {
                    i = i + 1;
                },
                Reply::Busy(_) => {
                    stalled = true;
                },
                Reply::Unavailable(_) => {
                    stalled = true;
                },
            }
        }
        proof {
            if self.phase() == ConnState::Open && !old(inbound).closed() && old(inbound)@.len()
                + echoes(all).len() <= old(inbound).limit() {
                lemma_burst_completes(
                    all,
                    i as int,
                    old(inbound)@.len(),
                    old(inbound).limit(),
                    false,
                );
            }
        }
        Burst { echoes: echoed, handled: i }
    }

    /// Takes the next envelope from the outbound queue, if one waits.
    ///
    /// The outbound queue is a mailbox with competing consumers: an envelope
    /// is claimed by the one connection that takes it and is not seen by the
    /// others. Only live connections claim anything.
    pub fn poll_outbound(&self, outbound: &mut RelayQueue) -> (out: Option<Envelope>)
        requires
            old(outbound).wf(),
        ensures
            final(outbound).wf(),
            final(outbound).limit() == old(outbound).limit(),
            final(outbound).closed() == old(outbound).closed(),
            live(self.phase()) && old(outbound)@.len() > 0 ==> out is Some && out->Some_0@
                == old(outbound)@[0] && final(outbound)@ == old(outbound)@.drop_first(),
            !(live(self.phase()) && old(outbound)@.len() > 0) ==> out is None && final(outbound)@
                == old(outbound)@,
    {
        if self.is_live() {
            outbound.try_pop()
        } else {
            None
        }
    }

    /// Asks the client to leave: an open connection becomes `Closing` and
    /// keeps its count until its end arrives. Other states stay.
    pub fn begin_close(&mut self)
        ensures
            final(self).ident() == old(self).ident(),
            final(self).peer_name() == old(self).peer_name(),
            final(self).phase() == asked(old(self).phase()),
    {
        match self.state {
            ConnState::Open => {
                self.state = ConnState::Closing;
            },
            _ => {},
        }
    }

    /// Ends the connection in the way `how` says and gives up its registry
    /// count if it still holds one.
    ///
    /// A live connection reaches its terminal state and the registry counts
    /// one less. Should the registry already stand at zero, it stays at zero
    /// and `BelowZero` is reported. A connection that has ended before keeps
    /// its state and the registry is not touched.
    pub fn finish(&mut self, how: Ending, registry: &mut Registry) -> (out: Result<
        (),
        RegistryError,
    >)
        ensures
            final(self).ident() == old(self).ident(),
            final(self).peer_name() == old(self).peer_name(),
            final(self).phase() == ended(old(self).phase(), how),
            !live(final(self).phase()),
            final(registry)@ == if live(old(self).phase()) && old(registry)@ > 0 {
                (old(registry)@ - 1) as nat
            } else {
                old(registry)@
            },
            out is Err <==> live(old(self).phase()) && old(registry)@ == 0,
            out is Err ==> out->Err_0 == RegistryError::BelowZero,
    {
        if !self.is_live() {
            return Ok(());
        }
        self.state = match how {
            Ending::Close => ConnState::Closed,
            Ending::Fault => ConnState::Errored,
            Ending::Shutdown => ConnState::Closed,
        };
        registry.decrement()
    }

    /// The close event: classifies the code and ends the connection as
    /// [`Connection::finish`] does with `Ending::Close`.
    pub fn on_close(&mut self, code: u16, registry: &mut Registry) -> (out: Result<
        CloseClass,
        RegistryError,
    >)
        ensures
            final(self).ident() == old(self).ident(),
            final(self).peer_name() == old(self).peer_name(),
            final(self).phase() == ended(old(self).phase(), Ending::Close),
            final(registry)@ == if live(old(self).phase()) && old(registry)@ > 0 {
                (old(registry)@ - 1) as nat
            } else {
                old(registry)@
            },
            live(old(self).phase()) && old(registry)@ == 0 ==> out is Err && out->Err_0
                == RegistryError::BelowZero,
            !(live(old(self).phase()) && old(registry)@ == 0) ==> out is Ok && out->Ok_0
                == class_of(code),
    {
        match self.finish(Ending::Close, registry) {
            Ok(()) => Ok(classify_close(code)),
            Err(e) => Err(e),
        }
    }

    /// A fault on the connection: fatal to this connection only. Ends it as
    /// [`Connection::finish`] does with `Ending::Fault`.
    pub fn on_error(&mut self, registry: &mut Registry) -> (out: Result<(), RegistryError>)
        ensures
            final(self).ident() == old(self).ident(),
            final(self).peer_name() == old(self).peer_name(),
            final(self).phase() == ended(old(self).phase(), Ending::Fault),
            final(registry)@ == if live(old(self).phase()) && old(registry)@ > 0 {
                (old(registry)@ - 1) as nat
            } else {
                old(registry)@
            },
            out is Err <==> live(old(self).phase()) && old(registry)@ == 0,
            out is Err ==> out->Err_0 == RegistryError::BelowZero,
    {
        self.finish(Ending::Fault, registry)
    }

    /// A forced shutdown: ends the connection as [`Connection::finish`] does
    /// with `Ending::Shutdown`, so that no count is left behind.
    pub fn on_shutdown(&mut self, registry: &mut Registry) -> (out: Result<(), RegistryError>)
        ensures
            final(self).ident() == old(self).ident(),
            final(self).peer_name() == old(self).peer_name(),
            final(self).phase() == ended(old(self).phase(), Ending::Shutdown),
            final(registry)@ == if live(old(self).phase()) && old(registry)@ > 0 {
                (old(registry)@ - 1) as nat
            } else {
                old(registry)@
            },
            out is Err <==> live(old(self).phase()) && old(registry)@ == 0,
            out is Err ==> out->Err_0 == RegistryError::BelowZero,
    {
        self.finish(Ending::Shutdown, registry)
    }
}

/// Single-release law: however many closes, faults and shutdowns reach a
/// connection, and in whatever order, a live connection gives up exactly one
/// registry count, at the first of them, and a connection that has ended
/// gives up none.
pub proof fn lemma_single_release(state: ConnState, endings: Seq<Ending>)
    ensures
        given_up(state, endings) == if live(state) && endings.len() > 0 {
            1nat
        } else {
            0nat
        },
    decreases endings.len(),
{
    if endings.len() > 0 {
        lemma_single_release(ended(state, endings[0]), endings.drop_first());
    }
}

/// Receiving one more message adds it to the echoes exactly when it carries
/// a payload.
pub proof fn lemma_echoes_push(msgs: Seq<MessageView>, m: MessageView)
    ensures
        echoes(msgs.push(m)) == if carries_payload(m) {
            echoes(msgs).push(m)
        } else {
            echoes(msgs)
        },
{
    reveal(Seq::filter);
    assert(msgs.push(m).drop_last() =~= msgs);
}

/// The echoes of the first messages of a run are no more than those of the
/// whole run.
pub proof fn lemma_echoes_prefix(msgs: Seq<MessageView>, k: int)
    requires
        0 <= k <= msgs.len(),
    ensures
        echoes(msgs.take(k)).len() <= echoes(msgs).len(),
    decreases msgs.len(),
{
    if k == msgs.len() {
        assert(msgs.take(k) =~= msgs);
    } else {
        let front = msgs.drop_last();
        assert(front.take(k) =~= msgs.take(k));
        assert(front.push(msgs.last()) =~= msgs);
        lemma_echoes_push(front, msgs.last());
        lemma_echoes_prefix(front, k);
    }
}

/// Echo law: an open connection whose inbound queue is open and has room for
/// every payload of a run handles the whole run. By the contract of
/// [`Connection::on_burst`] the client then gets back exactly the payload
/// messages it sent, in the order sent, with none dropped, and control frames
/// are neither echoed nor queued.
pub proof fn lemma_burst_completes(
    msgs: Seq<MessageView>,
    handled: int,
    waiting: nat,
    limit: nat,
    closed: bool,
)
    requires
        0 <= handled <= msgs.len(),
        !closed,
        waiting + echoes(msgs).len() <= limit,
        handled < msgs.len() ==> {
            let next = decide(
                ConnState::Open,
                msgs[handled],
                waiting + echoes(msgs.take(handled)).len(),
                limit,
                closed,
            );
            next == Outcome::Busy || next == Outcome::Unavailable
        },
    ensures
        handled == msgs.len(),
        echoes(msgs.take(handled)) == echoes(msgs),
{
    if handled < msgs.len() {
        lemma_echoes_push(msgs.take(handled), msgs[handled]);
        assert(msgs.take(handled + 1) =~= msgs.take(handled).push(msgs[handled]));
        lemma_echoes_prefix(msgs, handled + 1);
    }
    assert(msgs.take(msgs.len() as int) =~= msgs);
}

} // verus!
