//! The client side: one stream, sixteen request/response turns whose zero
//! payloads double in size from one byte to 32768 bytes.

use crate::exchange::{Action, ActionModel, Event, EventModel};
use crate::frame::{decode_length, encode, frame_of};
use crate::handler::echo_reply;
use vstd::bytes::{
    lemma_auto_spec_u32_to_from_le_bytes, spec_u32_from_le_bytes, spec_u32_to_le_bytes,
};
use vstd::prelude::*;

verus! {

/// Number of request/response turns in a client run.
pub const EXCHANGES: u32 = 16;

/// Two to the power `n`.
pub open spec fn pow2(n: nat) -> nat
    decreases n,
{
    if n == 0 {
        1
    } else {
        2 * pow2((n - 1) as nat)
    }
}

/// The payload sent in turn `round`: `2^round` zero bytes.
pub open spec fn request_payload(round: nat) -> Seq<u8> {
    Seq::new(pow2(round), |i: int| 0u8)
}

/// Payload size of turn `round`.
pub fn payload_size(round: u32) -> (r: usize)
    requires
        round < EXCHANGES,
    ensures
        r == pow2(round as nat),
        r <= 32768,
{
    let mut size: usize = 1;
    let mut i: u32 = 0;
    while i < round
        invariant
            i <= round < 16,
            size == pow2(i as nat),
        decreases round - i,
    {
        proof {
            lemma_pow2_bounds((i + 1) as nat);
        }
        size = size * 2;
        i = i + 1;
    }
    proof {
        lemma_pow2_bounds(i as nat);
    }
    size
}

proof fn lemma_pow2_bounds(n: nat)
    requires
        n < 16,
    ensures
        1 <= pow2(n) <= 32768,
    decreases n,
{
    reveal_with_fuel(pow2, 17);
    if n > 0 {
        lemma_pow2_bounds((n - 1) as nat);
    }
}

/// The sizes of all turns, in the order they are sent.
pub fn test_sizes() -> (r: Vec<usize>)
    ensures
        r@.len() == EXCHANGES,
        forall|i: int| 0 <= i < EXCHANGES ==> r@[i] == pow2(i as nat),
{
    let mut sizes: Vec<usize> = Vec::new();
    let mut round: u32 = 0;
    while round < EXCHANGES
        invariant
            round <= EXCHANGES,
            sizes@.len() == round,
            forall|i: int| 0 <= i < round ==> sizes@[i] == pow2(i as nat),
        decreases EXCHANGES - round,
    {
        let s = payload_size(round);
        sizes.push(s);
        round = round + 1;
    }
    sizes
}

/// The zero payload of turn `round`.
pub fn test_payload(round: u32) -> (r: Vec<u8>)
    requires
        round < EXCHANGES,
    ensures
        r@ == request_payload(round as nat),
{
    let size = payload_size(round);
    let mut payload: Vec<u8> = Vec::new();
    while payload.len() < size
        invariant
            payload@.len() <= size,
            forall|i: int| 0 <= i < payload@.len() ==> payload@[i] == 0u8,
        decreases size - payload@.len(),
    {
        payload.push(0u8);
    }
    assert(payload@ =~= request_payload(round as nat));
    payload
}

/// Where a client run stands.
#[derive(Debug, Clone, Copy, PartialEq, Eq, Structural)]
pub enum ClientState {
    /// The request frame of this turn is being written.
    Sending(u32),
    /// Waiting for the length field of this turn's reply.
    AwaitLength(u32),
    /// Waiting for this turn's reply payload of the given length.
    AwaitPayload(u32, u32),
    /// Terminal: every turn completed.
    Done,
    /// Terminal: a turn failed and the run is aborted.
    Failed,
}

/// The frame written in turn `round`.
pub open spec fn request_frame(round: nat) -> Seq<u8> {
    frame_of(request_payload(round))
}

/// The state and action that begin turn `round`, or end the run after the
/// last turn.
pub open spec fn begin_turn(round: nat) -> (ClientState, ActionModel) {
    if round < EXCHANGES {
        (ClientState::Sending(round as u32), ActionModel::WriteAll(request_frame(round)))
    } else {
        (ClientState::Done, ActionModel::Finish)
    }
}

/// The next state and action of a client in state `s` on event `e`.
pub open spec fn client_next(s: ClientState, e: EventModel) -> (ClientState, ActionModel) {
    let fail = (ClientState::Failed, ActionModel::Finish);
    match s {
        ClientState::Sending(r) => match e {
            EventModel::Sent => (ClientState::AwaitLength(r), ActionModel::ReadExact(4)),
            _ => fail,
        },
        ClientState::AwaitLength(r) => match e {
            EventModel::Received(b) => if b.len() == 4 {
                let n = spec_u32_from_le_bytes(b);
                (ClientState::AwaitPayload(r, n), ActionModel::ReadExact(n as nat))
            } else {
                fail
            },
            _ => fail,
        },
        ClientState::AwaitPayload(r, n) => match e {
            EventModel::Received(b) => if b.len() == n {
                begin_turn(r as nat + 1)
            } else {
                fail
            },
            _ => fail,
        },
        ClientState::Done => (ClientState::Done, ActionModel::Finish),
        ClientState::Failed => fail,
    }
}

/// The decision logic of a client run over one stream.
pub struct ClientDriver {
    pub state: ClientState,
}

impl ClientDriver {
    /// The state and write action of turn `round`, or the end of the run.
    fn begin(round: u32) -> (r: (ClientState, Action))
        requires
            round <= EXCHANGES,
        ensures
            (r.0, r.1@) == begin_turn(round as nat),
    {
        if round < EXCHANGES {
            let payload = test_payload(round);
            proof {
                lemma_pow2_bounds(round as nat);
            }
            match encode(payload.as_slice()) {
                Ok(bytes) => (ClientState::Sending(round), Action::WriteAll(bytes)),
                Err(_) => (ClientState::Failed, Action::Finish),
            }
        } else {
            (ClientState::Done, Action::Finish)
        }
    }

    /// A driver at the start of a run, and the write of the first request.
    pub fn new() -> (r: (ClientDriver, Action))
        ensures
            (r.0.state, r.1@) == begin_turn(0),
    {
        let (state, action) = Self::begin(0);
        (ClientDriver { state }, action)
    }

    /// Whether every turn completed.
    pub fn is_done(&self) -> (r: bool)
        ensures
            r == (self.state == ClientState::Done),
    {
        self.state == ClientState::Done
    }

    /// Whether the run was aborted.
    pub fn is_failed(&self) -> (r: bool)
        ensures
            r == (self.state == ClientState::Failed),
    {
        self.state == ClientState::Failed
    }

    /// Takes the outcome of the last action and returns the next one.
    pub fn step(&mut self, event: &Event) -> (a: Action)
        ensures
            (final(self).state, a@) == client_next(old(self).state, event@),
    {
        let (next, action) = match (self.state, event) {
            (ClientState::Sending(r), Event::Sent) => (ClientState::AwaitLength(r), Action::ReadExact(4)),
            (ClientState::AwaitLength(r), Event::Received(b)) if b.len() == 4 => {
                let field: [u8; 4] = [b[0], b[1], b[2], b[3]];
                assert(field@ =~= b@);
                let n = decode_length(&field);
                (ClientState::AwaitPayload(r, n), Action::ReadExact(n))
            },
            (ClientState::AwaitPayload(r, n), Event::Received(b)) if b.len() as u64 == n as u64 => {
                if r < EXCHANGES - 1 {
                    Self::begin(r + 1)
                } else {
                    (ClientState::Done, Action::Finish)
                }
            },
            (ClientState::Done, _) => (ClientState::Done, Action::Finish),
            _ => (ClientState::Failed, Action::Finish),
        };
        self.state = next;
        action
    }
}

/// The state and action after one turn whose reply is the echo server's
/// reply frame, delivered as the length field and then the payload.
pub open spec fn after_echo_turn(s: ClientState) -> (ClientState, ActionModel) {
    let reply = frame_of(echo_reply());
    let sent = client_next(s, EventModel::Sent);
    let length = client_next(sent.0, EventModel::Received(reply.subrange(0, 4)));
    client_next(length.0, EventModel::Received(reply.subrange(4, 8)))
}

/// The state and action of a client run after `k` turns answered by an echo
/// server.
pub open spec fn after_echo_turns(k: nat) -> (ClientState, ActionModel)
    decreases k,
{
    if k == 0 {
        begin_turn(0)
    } else {
        after_echo_turn(after_echo_turns((k - 1) as nat).0)
    }
}

/// One turn against an echo server: the request frame is written, then
/// exactly four bytes of length field and the four reply bytes are read, and
/// the next turn begins.
pub proof fn lemma_echo_turn(round: nat)
    requires
        round < EXCHANGES,
    ensures
        ({
            let reply = frame_of(echo_reply());
            let sent = client_next(ClientState::Sending(round as u32), EventModel::Sent);
            let length = client_next(sent.0, EventModel::Received(reply.subrange(0, 4)));
            &&& sent == (ClientState::AwaitLength(round as u32), ActionModel::ReadExact(4))
            &&& length == (ClientState::AwaitPayload(round as u32, 4), ActionModel::ReadExact(4))
            &&& reply.subrange(4, 8) == echo_reply()
            &&& after_echo_turn(ClientState::Sending(round as u32)) == begin_turn(round + 1)
        }),
{
    lemma_auto_spec_u32_to_from_le_bytes();
    let reply = frame_of(echo_reply());
    assert(reply.subrange(0, 4) =~= spec_u32_to_le_bytes(4));
    assert(reply.subrange(4, 8) =~= echo_reply());
}

/// A run against an echo server performs exactly sixteen turns, turn `i`
/// writing the frame of `2^i` zero bytes, and then finishes successfully.
pub proof fn lemma_escalation(k: nat)
    requires
        k <= EXCHANGES,
    ensures
        after_echo_turns(k) == begin_turn(k),
        k == EXCHANGES ==> after_echo_turns(k) == (ClientState::Done, ActionModel::Finish),
    decreases k,
{
    if k > 0 {
        lemma_escalation((k - 1) as nat);
        lemma_echo_turn((k - 1) as nat);
    }
}

/// The payload sizes of the sixteen turns, in order.
pub proof fn lemma_turn_sizes()
    ensures
        Seq::new(EXCHANGES as nat, |i: int| request_payload(i as nat).len())
            == seq![1nat, 2, 4, 8, 16, 32, 64, 128, 256, 512, 1024, 2048, 4096, 8192, 16384, 32768],
{
    reveal_with_fuel(pow2, 17);
    assert(Seq::new(EXCHANGES as nat, |i: int| request_payload(i as nat).len())
        =~= seq![1nat, 2, 4, 8, 16, 32, 64, 128, 256, 512, 1024, 2048, 4096, 8192, 16384, 32768]);
}

} // verus!
