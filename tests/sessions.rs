use quic_echo::client::{payload_size, test_payload, test_sizes, ClientDriver, ClientState, EXCHANGES};
use quic_echo::dispatcher::{dispatch, AcceptOutcome, DispatchAction};
use quic_echo::exchange::{Action, Event};
use quic_echo::handler::{ConnectionHandler, HandlerState};
use std::collections::VecDeque;

const ECHO_FRAME: [u8; 8] = [4, 0, 0, 0, 1, 2, 3, 4];

/// Performs a read action against an in-memory byte queue.
fn read(queue: &mut VecDeque<u8>, n: u32) -> Event {
    if queue.len() < n as usize {
        queue.clear();
        return Event::Failed;
    }
    Event::Received(queue.drain(..n as usize).collect())
}

/// Runs a client against a handler over two in-memory byte queues and
/// returns the payload sizes the handler saw.
fn run_pair() -> (ClientDriver, ConnectionHandler, Vec<usize>) {
    let (mut client, mut c_action) = ClientDriver::new();
    let (mut handler, first) = ConnectionHandler::new();
    assert_eq!(first, Action::AcceptStream);
    let mut h_action = handler.step(&Event::StreamAccepted);
    let mut to_server: VecDeque<u8> = VecDeque::new();
    let mut to_client: VecDeque<u8> = VecDeque::new();
    let mut seen = Vec::new();
    for _ in 0..10_000 {
        match c_action.clone() {
            Action::WriteAll(bytes) => {
                to_server.extend(bytes);
                c_action = client.step(&Event::Sent);
            }
            Action::ReadExact(n) if to_client.len() >= n as usize => {
                let ev = read(&mut to_client, n);
                c_action = client.step(&ev);
            }
            Action::Finish => return (client, handler, seen),
            _ => {}
        }
        match h_action.clone() {
            Action::WriteAll(bytes) => {
                to_client.extend(bytes);
                h_action = handler.step(&Event::Sent);
            }
            Action::ReadExact(n) if to_server.len() >= n as usize => {
                if let HandlerState::AwaitPayload(_) = handler.state {
                    seen.push(n as usize);
                }
                let ev = read(&mut to_server, n);
                h_action = handler.step(&ev);
            }
            _ => {}
        }
    }
    panic!("run did not finish");
}

#[test]
fn sizes_double_from_one_to_32768() {
    let expected: Vec<usize> = vec![
        1, 2, 4, 8, 16, 32, 64, 128, 256, 512, 1024, 2048, 4096, 8192, 16384, 32768,
    ];
    assert_eq!(test_sizes(), expected);
    assert_eq!(payload_size(0), 1);
    assert_eq!(payload_size(15), 32768);
    assert_eq!(EXCHANGES, 16);
}

#[test]
fn test_payload_is_zero_filled() {
    assert_eq!(test_payload(0), vec![0u8]);
    let p = test_payload(10);
    assert_eq!(p.len(), 1024);
    assert!(p.iter().all(|b| *b == 0));
}

#[test]
fn client_first_action_writes_one_zero_byte_frame() {
    let (client, action) = ClientDriver::new();
    assert_eq!(client.state, ClientState::Sending(0));
    assert_eq!(action, Action::WriteAll(vec![1, 0, 0, 0, 0]));
}

#[test]
fn escalation_against_echo_handler() {
    let (client, handler, seen) = run_pair();
    assert!(client.is_done());
    assert!(!client.is_failed());
    assert_eq!(seen, test_sizes());
    assert_eq!(handler.state, HandlerState::AwaitLength);
}

#[test]
fn client_reads_length_then_reply_each_turn() {
    let (mut client, _) = ClientDriver::new();
    assert_eq!(client.step(&Event::Sent), Action::ReadExact(4));
    assert_eq!(client.step(&Event::Received(vec![4, 0, 0, 0])), Action::ReadExact(4));
    assert_eq!(client.state, ClientState::AwaitPayload(0, 4));
    let next = client.step(&Event::Received(vec![1, 2, 3, 4]));
    assert_eq!(next, Action::WriteAll(vec![2, 0, 0, 0, 0, 0]));
    assert_eq!(client.state, ClientState::Sending(1));
}

#[test]
fn client_aborts_on_failure() {
    let (mut client, _) = ClientDriver::new();
    client.step(&Event::Sent);
    assert_eq!(client.step(&Event::Failed), Action::Finish);
    assert!(client.is_failed());
    assert_eq!(client.step(&Event::Sent), Action::Finish);
    assert!(client.is_failed());
}

#[test]
fn client_aborts_on_short_reply() {
    let (mut client, _) = ClientDriver::new();
    client.step(&Event::Sent);
    client.step(&Event::Received(vec![4, 0, 0, 0]));
    assert_eq!(client.step(&Event::Received(vec![1, 2])), Action::Finish);
    assert!(client.is_failed());
}

#[test]
fn handler_echoes_fixed_reply_for_any_frame() {
    let (mut handler, _) = ConnectionHandler::new();
    assert_eq!(handler.step(&Event::StreamAccepted), Action::ReadExact(4));
    assert_eq!(handler.step(&Event::Received(vec![3, 0, 0, 0])), Action::ReadExact(3));
    assert_eq!(
        handler.step(&Event::Received(vec![9, 9, 9])),
        Action::WriteAll(ECHO_FRAME.to_vec())
    );
    assert_eq!(handler.step(&Event::Sent), Action::ReadExact(4));
    assert_eq!(handler.step(&Event::Received(vec![0, 0, 0, 0])), Action::ReadExact(0));
    assert_eq!(
        handler.step(&Event::Received(vec![])),
        Action::WriteAll(ECHO_FRAME.to_vec())
    );
}

#[test]
fn handler_closes_on_short_payload() {
    let (mut handler, _) = ConnectionHandler::new();
    handler.step(&Event::StreamAccepted);
    handler.step(&Event::Received(vec![8, 0, 0, 0]));
    assert_eq!(handler.step(&Event::Received(vec![1, 2, 3])), Action::Finish);
    assert!(handler.is_closed());
    assert_eq!(handler.step(&Event::Received(vec![8, 0, 0, 0])), Action::Finish);
    assert!(handler.is_closed());
}

#[test]
fn handler_closes_when_no_stream_arrives() {
    let (mut handler, _) = ConnectionHandler::new();
    assert_eq!(handler.step(&Event::Failed), Action::Finish);
    assert!(handler.is_closed());
}

#[test]
fn handlers_are_isolated() {
    let (mut a, _) = ConnectionHandler::new();
    let (mut b, _) = ConnectionHandler::new();
    a.step(&Event::StreamAccepted);
    b.step(&Event::StreamAccepted);
    b.step(&Event::Received(vec![0, 1, 0, 0]));
    assert_eq!(a.step(&Event::Failed), Action::Finish);
    assert!(a.is_closed());
    assert_eq!(b.state, HandlerState::AwaitPayload(256));
    assert_eq!(
        b.step(&Event::Received(vec![0u8; 256])),
        Action::WriteAll(ECHO_FRAME.to_vec())
    );
}

#[test]
fn dispatcher_keeps_accepting_after_handler_error() {
    let (mut failed, _) = ConnectionHandler::new();
    failed.step(&Event::Failed);
    assert!(failed.is_closed());
    assert_eq!(dispatch(AcceptOutcome::Session), DispatchAction::SpawnAndAccept);
    let (_client, next, seen) = run_pair();
    assert_eq!(seen.len(), 16);
    assert!(!next.is_closed());
    assert_eq!(dispatch(AcceptOutcome::Shutdown), DispatchAction::Stop);
}
