use ws_udp_bridge::connection::{Action, Event, Fault, State};
use ws_udp_bridge::message::Message;
use ws_udp_bridge::relay::{AcceptAction, Relay};
use ws_udp_bridge::startup::{advance, Stage};

fn established(relay: &mut Relay) -> usize {
    let id = match relay.on_accept(true) {
        AcceptAction::Spawn(id) => id,
        AcceptAction::Halt => panic!("a serving relay accepts"),
    };
    assert_eq!(relay.dispatch(id, Event::Started), Action::Upgrade);
    assert_eq!(relay.dispatch(id, Event::Upgraded), Action::Receive);
    id
}

#[test]
fn new_relay_serves_and_is_empty() {
    let relay = Relay::new();
    assert!(relay.is_listening());
    assert_eq!(relay.connection_count(), 0);
    assert_eq!(relay.state_of(0), None);
}

#[test]
fn accepted_connections_are_numbered_in_order() {
    let mut relay = Relay::new();
    assert_eq!(relay.on_accept(true), AcceptAction::Spawn(0));
    assert_eq!(relay.on_accept(true), AcceptAction::Spawn(1));
    assert_eq!(relay.on_accept(true), AcceptAction::Spawn(2));
    assert_eq!(relay.connection_count(), 3);
    assert_eq!(relay.state_of(0), Some(State::Accepted));
    assert_eq!(relay.state_of(2), Some(State::Accepted));
    assert_eq!(relay.state_of(3), None);
    assert!(relay.is_listening());
}

#[test]
fn accept_does_not_wait_for_open_connections() {
    let mut relay = Relay::new();
    let first = established(&mut relay);
    assert_eq!(relay.state_of(first), Some(State::Relaying));
    assert_eq!(relay.on_accept(true), AcceptAction::Spawn(1));
    assert_eq!(relay.state_of(first), Some(State::Relaying));
}

#[test]
fn accept_error_is_fatal() {
    let mut relay = Relay::new();
    let id = established(&mut relay);
    assert_eq!(relay.on_accept(false), AcceptAction::Halt);
    assert!(!relay.is_listening());
    assert_eq!(relay.on_accept(true), AcceptAction::Halt);
    assert!(!relay.is_listening());
    assert_eq!(relay.connection_count(), 1);
    assert_eq!(relay.state_of(id), Some(State::Relaying));
}

#[test]
fn unknown_connection_is_told_to_stop() {
    let mut relay = Relay::new();
    assert_eq!(relay.dispatch(5, Event::Started), Action::Stop);
    assert_eq!(relay.connection_count(), 0);
    assert!(relay.is_listening());
}

#[test]
fn failed_handshake_leaves_other_connections_alone() {
    let mut relay = Relay::new();
    assert_eq!(relay.on_accept(true), AcceptAction::Spawn(0));
    assert_eq!(relay.on_accept(true), AcceptAction::Spawn(1));
    assert_eq!(relay.dispatch(0, Event::Started), Action::Upgrade);
    assert_eq!(relay.dispatch(1, Event::Started), Action::Upgrade);
    assert_eq!(relay.dispatch(0, Event::UpgradeFailed), Action::ReportAndStop(Fault::Handshake));
    assert_eq!(relay.state_of(0), Some(State::Closed));
    assert_eq!(relay.state_of(1), Some(State::Handshaking));
    assert_eq!(relay.dispatch(1, Event::Upgraded), Action::Receive);
    assert_eq!(
        relay.dispatch(1, Event::Received(Message::Binary(vec![42]))),
        Action::Send(vec![42])
    );
    assert!(relay.is_listening());
    let later = established(&mut relay);
    assert_eq!(later, 2);
    assert_eq!(
        relay.dispatch(later, Event::Received(Message::Text(b"hi".to_vec()))),
        Action::Send(b"hi".to_vec())
    );
}

#[test]
fn two_connections_each_send_their_own_datagram() {
    for a_first in [true, false] {
        let mut relay = Relay::new();
        let a = established(&mut relay);
        let b = established(&mut relay);
        let mut datagrams: Vec<Vec<u8>> = Vec::new();
        let order = if a_first { [(a, b'A'), (b, b'B')] } else { [(b, b'B'), (a, b'A')] };
        for (id, byte) in order {
            match relay.dispatch(id, Event::Received(Message::Binary(vec![byte]))) {
                Action::Send(bytes) => datagrams.push(bytes),
                other => panic!("expected a datagram, got {:?}", other),
            }
        }
        assert_eq!(datagrams.len(), 2);
        assert!(datagrams.contains(&b"A".to_vec()));
        assert!(datagrams.contains(&b"B".to_vec()));
        assert_eq!(relay.state_of(a), Some(State::Relaying));
        assert_eq!(relay.state_of(b), Some(State::Relaying));
    }
}

#[test]
fn send_failure_on_one_connection_keeps_both_open() {
    let mut relay = Relay::new();
    let a = established(&mut relay);
    let b = established(&mut relay);
    assert_eq!(
        relay.dispatch(a, Event::Received(Message::Text(b"lost".to_vec()))),
        Action::Send(b"lost".to_vec())
    );
    assert_eq!(relay.dispatch(a, Event::SendFailed), Action::ReportAndReceive(Fault::Send));
    assert_eq!(relay.state_of(a), Some(State::Relaying));
    assert_eq!(relay.state_of(b), Some(State::Relaying));
    assert_eq!(
        relay.dispatch(a, Event::Received(Message::Text(b"next".to_vec()))),
        Action::Send(b"next".to_vec())
    );
}

#[test]
fn text_ping_then_close() {
    let mut relay = Relay::new();
    let id = established(&mut relay);
    assert_eq!(
        relay.dispatch(id, Event::Received(Message::Text(b"ping".to_vec()))),
        Action::Send(b"ping".to_vec())
    );
    assert_eq!(relay.dispatch(id, Event::Sent), Action::Receive);
    assert_eq!(relay.dispatch(id, Event::Received(Message::Close(None))), Action::Stop);
    assert_eq!(relay.state_of(id), Some(State::Closed));
    assert_eq!(relay.dispatch(id, Event::Ended), Action::Stop);
    assert!(relay.is_listening());
    assert_eq!(relay.on_accept(true), AcceptAction::Spawn(1));
    assert_eq!(relay.state_of(1), Some(State::Accepted));
}

#[test]
fn read_error_closes_only_its_connection() {
    let mut relay = Relay::new();
    let a = established(&mut relay);
    let b = established(&mut relay);
    assert_eq!(relay.dispatch(a, Event::ReadFailed), Action::ReportAndStop(Fault::Read));
    assert_eq!(relay.state_of(a), Some(State::Closed));
    assert_eq!(relay.state_of(b), Some(State::Relaying));
}

#[test]
fn startup_serves_after_three_good_steps() {
    let stage = advance(Stage::BindListener, true);
    assert_eq!(stage, Stage::BindSender);
    let stage = advance(stage, true);
    assert_eq!(stage, Stage::ConnectSender);
    let stage = advance(stage, true);
    assert_eq!(stage, Stage::Serving);
    assert_eq!(advance(stage, true), Stage::Serving);
    assert_eq!(advance(stage, false), Stage::Serving);
}

#[test]
fn startup_fails_at_the_first_bad_step() {
    assert_eq!(advance(Stage::BindListener, false), Stage::Failed);
    assert_eq!(advance(Stage::BindSender, false), Stage::Failed);
    assert_eq!(advance(Stage::ConnectSender, false), Stage::Failed);
    assert_eq!(advance(Stage::Failed, true), Stage::Failed);
    assert_eq!(advance(Stage::Failed, false), Stage::Failed);
}

#[test]
fn interleaved_connections_behave_as_if_alone() {
    let own = |tag: u8| {
        vec![
            Event::Started,
            Event::Upgraded,
            Event::Received(Message::Binary(vec![tag, 1])),
            Event::Sent,
            Event::Received(Message::Ping(vec![tag])),
            Event::Received(Message::Text(vec![tag, 2])),
            Event::SendFailed,
            Event::Received(Message::Close(None)),
        ]
    };
    let mut relay = Relay::new();
    let mut queues: Vec<Vec<Event>> = Vec::new();
    for tag in 0..3u8 {
        assert_eq!(relay.on_accept(true), AcceptAction::Spawn(usize::from(tag)));
        let mut events = own(tag);
        events.reverse();
        queues.push(events);
    }
    queues[1] = vec![Event::UpgradeFailed, Event::Started];
    let mut sent: Vec<Vec<Vec<u8>>> = vec![Vec::new(), Vec::new(), Vec::new()];
    let mut turn = 0;
    while queues.iter().any(|q| !q.is_empty()) {
        let id = turn % 3;
        turn += 1;
        if let Some(event) = queues[id].pop() {
            if let Action::Send(bytes) = relay.dispatch(id, event) {
                sent[id].push(bytes);
            }
        }
    }
    assert_eq!(sent[0], vec![vec![0, 1], vec![0, 2]]);
    assert!(sent[1].is_empty());
    assert_eq!(sent[2], vec![vec![2, 1], vec![2, 2]]);
    for tag in [0u8, 2u8] {
        let alone = ws_udp_bridge::connection::run(State::Accepted, own(tag));
        assert_eq!(alone, (State::Closed, sent[usize::from(tag)].clone()));
    }
    assert_eq!(relay.state_of(0), Some(State::Closed));
    assert_eq!(relay.state_of(1), Some(State::Closed));
    assert_eq!(relay.state_of(2), Some(State::Closed));
    assert!(relay.is_listening());
}
