//! The server's accept loop: one independent handler per accepted session,
//! until the listener shuts down.

use crate::exchange::{ActionModel, EventModel};
use crate::frame::frame_of;
use crate::handler::{echo_reply, handler_next, lemma_echo_exchange, HandlerState};
use vstd::prelude::*;

verus! {

/// What the listener's accept call yielded.
#[derive(Debug, Clone, Copy, PartialEq, Eq, Structural)]
pub enum AcceptOutcome {
    /// A new session was accepted.
    Session,
    /// The listener yields no further sessions.
    Shutdown,
}

/// What the accept loop does next.
#[derive(Debug, Clone, Copy, PartialEq, Eq, Structural)]
pub enum DispatchAction {
    /// Start an independent handler for the session and accept again at once.
    SpawnAndAccept,
    /// Leave the accept loop normally.
    Stop,
}

/// The accept loop's decision on what an accept call yielded.
pub open spec fn dispatch_next(o: AcceptOutcome) -> DispatchAction {
    match o {
        AcceptOutcome::Session => DispatchAction::SpawnAndAccept,
        AcceptOutcome::Shutdown => DispatchAction::Stop,
    }
}

/// Decides what the accept loop does after an accept call. The decision
/// depends on nothing that a handler does.
pub fn dispatch(o: AcceptOutcome) -> (r: DispatchAction)
    ensures
        r == dispatch_next(o),
{
    match o {
        AcceptOutcome::Session => DispatchAction::SpawnAndAccept,
        AcceptOutcome::Shutdown => DispatchAction::Stop,
    }
}

/// After a handler closes on an error, the server still starts a handler for
/// the next session, and that handler accepts its stream and answers a frame
/// with the echo reply.
pub proof fn lemma_server_survives_handler_error(
    failed: HandlerState,
    e: EventModel,
    payload: Seq<u8>,
)
    requires
        handler_next(failed, e).0 == HandlerState::Closed,
        payload.len() <= u32::MAX,
    ensures
        dispatch_next(AcceptOutcome::Session) == DispatchAction::SpawnAndAccept,
        handler_next(HandlerState::AwaitStream, EventModel::StreamAccepted) == (
            HandlerState::AwaitLength,
            ActionModel::ReadExact(4),
        ),
        ({
            let length = handler_next(
                HandlerState::AwaitLength,
                EventModel::Received(frame_of(payload).subrange(0, 4)),
            );
            handler_next(length.0, EventModel::Received(payload)) == (
                HandlerState::Replying,
                ActionModel::WriteAll(frame_of(echo_reply())),
            )
        }),
{
    lemma_echo_exchange(payload);
}

} // verus!
