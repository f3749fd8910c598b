//! Messages exchanged with clients and the envelopes that carry them through
//! the relay.

use vstd::prelude::*;

verus! {

/// One logical message as delivered by the wire protocol.
///
/// `Text` and `Binary` carry a payload. `Ping`, `Pong` and `Close` are control
/// frames: they steer the connection and never travel through the relay.
#[derive(Debug, PartialEq, Eq)]
pub enum Message {
    Text(String),
    Binary(Vec<u8>),
    Ping,
    Pong,
    Close(u16, String),
}

/// Mathematical value of a [`Message`].
pub enum MessageView {
    Text(Seq<char>),
    Binary(Seq<u8>),
    Ping,
    Pong,
    Close(u16, Seq<char>),
}

impl View for Message {
    type V = MessageView;

    open spec fn view(&self) -> MessageView {
        match *self {
            Message::Text(s) => MessageView::Text(s@),
            Message::Binary(b) => MessageView::Binary(b@),
            Message::Ping => MessageView::Ping,
            Message::Pong => MessageView::Pong,
            Message::Close(code, reason) => MessageView::Close(code, reason@),
        }
    }
}

/// A message view carries a payload exactly when it is text or binary.
pub open spec fn carries_payload(m: MessageView) -> bool {
    m is Text || m is Binary
}

impl Message {
    /// Tells payload messages from control frames.
    pub fn is_payload(&self) -> (out: bool)
        ensures
            out == carries_payload(self@),
    {
        match self {
            Message::Text(_) => true,
            Message::Binary(_) => true,
            _ => false,
        }
    }

    /// Tells control frames from payload messages.
    pub fn is_control(&self) -> (out: bool)
        ensures
            out == !carries_payload(self@),
    {
        !self.is_payload()
    }

    /// An independent copy with the same value.
    pub fn duplicate(&self) -> (out: Message)
        ensures
            out@ == self@,
    {
        match self {
            Message::Text(s) => Message::Text(s.clone()),
            Message::Binary(b) => {
                let copy = b.clone();
                assert(copy@ =~= b@);
                Message::Binary(copy)
            },
            Message::Ping => Message::Ping,
            Message::Pong => Message::Pong,
            Message::Close(code, reason) => Message::Close(*code, reason.clone()),
        }
    }
}

/// A payload message together with the id of the connection it came from.
#[derive(Debug, PartialEq, Eq)]
pub struct Envelope {
    pub origin: u64,
    pub message: Message,
}

/// Mathematical value of an [`Envelope`].
pub struct EnvelopeView {
    pub origin: u64,
    pub message: MessageView,
}

impl View for Envelope {
    type V = EnvelopeView;

    open spec fn view(&self) -> EnvelopeView {
        EnvelopeView { origin: self.origin, message: self.message@ }
    }
}

/// The messages of `items` that came from connection `origin`, in order.
pub open spec fn from_origin(items: Seq<EnvelopeView>, origin: u64) -> Seq<EnvelopeView> {
    items.filter(|e: EnvelopeView| e.origin == origin)
}

} // verus!
