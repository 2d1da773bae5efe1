//! What a peer's decision logic hands to the code that owns the stream, and
//! what that code reports back once the work is done.

use vstd::prelude::*;

verus! {

/// The outcome of the last piece of stream work.
#[derive(Debug, Clone, PartialEq, Eq)]
pub enum Event {
    /// The peer offered its first bidirectional stream.
    StreamAccepted,
    /// An exact-length read completed with these bytes.
    Received(Vec<u8>),
    /// A write of all the requested bytes completed.
    Sent,
    /// The stream or session ended, or an I/O error occurred.
    Failed,
}

/// The next piece of stream work to perform.
#[derive(Debug, Clone, PartialEq, Eq)]
pub enum Action {
    /// Wait for the peer to offer a bidirectional stream.
    AcceptStream,
    /// Read exactly this many bytes.
    ReadExact(u32),
    /// Write all of these bytes.
    WriteAll(Vec<u8>),
    /// Stop working on this stream.
    Finish,
}

/// Mathematical model of an `Event`.
pub enum EventModel {
    StreamAccepted,
    Received(Seq<u8>),
    Sent,
    Failed,
}

/// Mathematical model of an `Action`.
pub enum ActionModel {
    AcceptStream,
    ReadExact(nat),
    WriteAll(Seq<u8>),
    Finish,
}

impl View for Event {
    type V = EventModel;

    open spec fn view(&self) -> EventModel {
        match self {
            Event::StreamAccepted => EventModel::StreamAccepted,
            Event::Received(b) => EventModel::Received(b@),
            Event::Sent => EventModel::Sent,
            Event::Failed => EventModel::Failed,
        }
    }
}

impl View for Action {
    type V = ActionModel;

    open spec fn view(&self) -> ActionModel {
        match self {
            Action::AcceptStream => ActionModel::AcceptStream,
            Action::ReadExact(n) => ActionModel::ReadExact(*n as nat),
            Action::WriteAll(b) => ActionModel::WriteAll(b@),
            Action::Finish => ActionModel::Finish,
        }
    }
}

} // verus!
