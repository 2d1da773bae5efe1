//! The server side of one session: accept the peer's stream, then read a
//! frame and answer it with the fixed echo reply, until anything fails.

use crate::exchange::{Action, ActionModel, Event, EventModel};
use crate::frame::{decode_length, encode, frame_of};
use vstd::bytes::{
    lemma_auto_spec_u32_to_from_le_bytes, spec_u32_from_le_bytes, spec_u32_to_le_bytes,
};
use vstd::prelude::*;

verus! {

/// Where a connection handler stands.
#[derive(Debug, Clone, Copy, PartialEq, Eq, Structural)]
pub enum HandlerState {
    /// Waiting for the peer's first bidirectional stream.
    AwaitStream,
    /// Waiting for the length field of the next frame.
    AwaitLength,
    /// Waiting for a payload of the given length.
    AwaitPayload(u32),
    /// Waiting for the echo reply to be written.
    Replying,
    /// Terminal: the stream failed or ended.
    Closed,
}

/// The payload of the reply sent for every frame received.
pub open spec fn echo_reply() -> Seq<u8> {
    seq![1u8, 2u8, 3u8, 4u8]
}

/// The next state and action of a handler in state `s` on event `e`.
pub open spec fn handler_next(s: HandlerState, e: EventModel) -> (HandlerState, ActionModel) {
    let close = (HandlerState::Closed, ActionModel::Finish);
    match s {
        HandlerState::AwaitStream => match e {
            EventModel::StreamAccepted => (HandlerState::AwaitLength, ActionModel::ReadExact(4)),
            _ => close,
        },
        HandlerState::AwaitLength => match e {
            EventModel::Received(b) => if b.len() == 4 {
                let n = spec_u32_from_le_bytes(b);
                (HandlerState::AwaitPayload(n), ActionModel::ReadExact(n as nat))
            } else {
                close
            },
            _ => close,
        },
        HandlerState::AwaitPayload(n) => match e {
            EventModel::Received(b) => if b.len() == n {
                (HandlerState::Replying, ActionModel::WriteAll(frame_of(echo_reply())))
            } else {
                close
            },
            _ => close,
        },
        HandlerState::Replying => match e {
            EventModel::Sent => (HandlerState::AwaitLength, ActionModel::ReadExact(4)),
            _ => close,
        },
        HandlerState::Closed => close,
    }
}

/// The decision logic for one accepted session. It owns nothing shared with
/// any other handler.
pub struct ConnectionHandler {
    pub state: HandlerState,
}

impl ConnectionHandler {
    /// A handler for a newly accepted session, and its first action.
    pub fn new() -> (r: (ConnectionHandler, Action))
        ensures
            r.0.state == HandlerState::AwaitStream,
            r.1@ == ActionModel::AcceptStream,
    {
        (ConnectionHandler { state: HandlerState::AwaitStream }, Action::AcceptStream)
    }

    /// Whether the handler has reached its terminal state.
    pub fn is_closed(&self) -> (r: bool)
        ensures
            r == (self.state == HandlerState::Closed),
    {
        self.state == HandlerState::Closed
    }

    /// Takes the outcome of the last action and returns the next one.
    pub fn step(&mut self, event: &Event) -> (a: Action)
        ensures
            (final(self).state, a@) == handler_next(old(self).state, event@),
    {
        let (next, action) = match (self.state, event) {
            (HandlerState::AwaitStream, Event::StreamAccepted) => (
                HandlerState::AwaitLength,
                Action::ReadExact(4),
            ),
            (HandlerState::AwaitLength, Event::Received(b)) if b.len() == 4 => {
                let field: [u8; 4] = [b[0], b[1], b[2], b[3]];
                assert(field@ =~= b@);
                let n = decode_length(&field);
                (HandlerState::AwaitPayload(n), Action::ReadExact(n))
            },
            (HandlerState::AwaitPayload(n), Event::Received(b)) if b.len() as u64 == n as u64 => {
                let reply: Vec<u8> = vec![1u8, 2u8, 3u8, 4u8];
                assert(reply@ =~= echo_reply());
                match encode(reply.as_slice()) {
                    Ok(bytes) => (HandlerState::Replying, Action::WriteAll(bytes)),
                    Err(_) => (HandlerState::Closed, Action::Finish),
                }
            },
            (HandlerState::Replying, Event::Sent) => (HandlerState::AwaitLength, Action::ReadExact(4)),
            _ => (HandlerState::Closed, Action::Finish),
        };
        self.state = next;
        action
    }
}

/// Serving one frame: a handler waiting for a length field that receives the
/// field and then the payload of any frame writes the echo reply frame and
/// waits for the next length field once the reply is sent. The reply depends
/// neither on the payload's size or content nor on anything outside this
/// handler.
pub proof fn lemma_echo_exchange(payload: Seq<u8>)
    requires
        payload.len() <= u32::MAX,
    ensures
        ({
            let field = frame_of(payload).subrange(0, 4);
            let n = payload.len() as u32;
            let length = handler_next(HandlerState::AwaitLength, EventModel::Received(field));
            let served = handler_next(length.0, EventModel::Received(payload));
            &&& length == (HandlerState::AwaitPayload(n), ActionModel::ReadExact(payload.len()))
            &&& served == (HandlerState::Replying, ActionModel::WriteAll(frame_of(echo_reply())))
            &&& handler_next(served.0, EventModel::Sent) == (
                HandlerState::AwaitLength,
                ActionModel::ReadExact(4),
            )
        }),
{
    lemma_auto_spec_u32_to_from_le_bytes();
    assert(frame_of(payload).subrange(0, 4) =~= spec_u32_to_le_bytes(payload.len() as u32));
}

/// A handler whose read comes back short or fails closes, and once closed it
/// serves no further frame whatever happens next.
pub proof fn lemma_short_read_closes(s: HandlerState, e: EventModel)
    ensures
        s == HandlerState::AwaitLength && !(e matches EventModel::Received(b) && b.len() == 4)
            ==> handler_next(s, e) == (HandlerState::Closed, ActionModel::Finish),
        s matches HandlerState::AwaitPayload(n) && !(e matches EventModel::Received(b) && b.len() == n)
            ==> handler_next(s, e) == (HandlerState::Closed, ActionModel::Finish),
        handler_next(HandlerState::Closed, e) == (HandlerState::Closed, ActionModel::Finish),
{
}

} // verus!
