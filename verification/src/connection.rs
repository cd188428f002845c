//! One connection, from the accepted stream to its end.
//!
//! The handler of a connection is a state machine. Its driver performs the
//! action that the last step asked for and reports the outcome as the next
//! event. The handler never waits on a datagram: a send that failed is
//! reported and the connection reads on.

use vstd::prelude::*;
use crate::message::Message;

verus! {

/// Where a connection stands.
#[derive(Clone, Copy, Debug, PartialEq, Eq, Structural)]
pub enum State {
    /// The stream was accepted; nothing has been done with it yet.
    Accepted,
    /// The upgrade handshake is running.
    Handshaking,
    /// The handshake succeeded; messages are read and forwarded.
    Relaying,
    /// The connection is over.
    Closed,
}

/// What went wrong, for the record that the driver writes.
#[derive(Clone, Copy, Debug, PartialEq, Eq, Structural)]
pub enum Fault {
    /// The upgrade handshake failed.
    Handshake,
    /// Reading the next message failed.
    Read,
    /// Sending a datagram failed.
    Send,
}

/// What the driver reports to the handler.
#[derive(Debug, PartialEq, Eq)]
pub enum Event {
    /// The handler was started on its stream.
    Started,
    /// The upgrade handshake succeeded.
    Upgraded,
    /// The upgrade handshake failed.
    UpgradeFailed,
    /// A message arrived.
    Received(Message),
    /// Reading the next message failed.
    ReadFailed,
    /// The stream ended.
    Ended,
    /// The datagram was handed to the socket.
    Sent,
    /// The socket refused the datagram.
    SendFailed,
}

/// What the handler asks of its driver.
#[derive(Debug, PartialEq, Eq)]
pub enum Action {
    /// Run the upgrade handshake.
    Upgrade,
    /// Read the next message.
    Receive,
    /// Send these bytes as one datagram, and report how it went.
    Send(Vec<u8>),
    /// Record the fault, then read the next message.
    ReportAndReceive(Fault),
    /// Record the fault, then drop the connection.
    ReportAndStop(Fault),
    /// Drop the connection.
    Stop,
    /// Nothing new: the event was not one that the state awaits.
    Wait,
}

/// An action with the datagram's payload as a sequence of bytes.
pub enum ActionView {
    Upgrade,
    Receive,
    Send(Seq<u8>),
    ReportAndReceive(Fault),
    ReportAndStop(Fault),
    Stop,
    Wait,
}

impl View for Action {
    type V = ActionView;

    open spec fn view(&self) -> ActionView {
        match *self {
            Action::Upgrade => ActionView::Upgrade,
            Action::Receive => ActionView::Receive,
            Action::Send(bytes) => ActionView::Send(bytes@),
            Action::ReportAndReceive(f) => ActionView::ReportAndReceive(f),
            Action::ReportAndStop(f) => ActionView::ReportAndStop(f),
            Action::Stop => ActionView::Stop,
            Action::Wait => ActionView::Wait,
        }
    }
}

impl ActionView {
    /// The payload of the datagram that the action sends, if it sends one.
    pub open spec fn datagram(self) -> Option<Seq<u8>> {
        match self {
            ActionView::Send(bytes) => Some(bytes),
            _ => None,
        }
    }
}

/// The state that follows `state` on `event`.
///
/// The only moves are: accepted to handshaking when the handler starts;
/// handshaking to relaying or closed as the handshake succeeds or fails;
/// relaying to closed on a close message, a read error or the end of the
/// stream. On every other event the state stays.
pub open spec fn next_state(state: State, event: Event) -> State {
    match (state, event) {
        (State::Accepted, Event::Started) => State::Handshaking,
        (State::Handshaking, Event::Upgraded) => State::Relaying,
        (State::Handshaking, Event::UpgradeFailed) => State::Closed,
        (State::Relaying, Event::Received(m)) => if m is Close {
            State::Closed
        } else {
            State::Relaying
        },
        (State::Relaying, Event::ReadFailed) => State::Closed,
        (State::Relaying, Event::Ended) => State::Closed,
        _ => state,
    }
}

/// The action that `state` answers `event` with.
pub open spec fn action_for(state: State, event: Event) -> ActionView {
    match (state, event) {
        (State::Closed, _) => ActionView::Stop,
        (State::Accepted, Event::Started) => ActionView::Upgrade,
        (State::Handshaking, Event::Upgraded) => ActionView::Receive,
        (State::Handshaking, Event::UpgradeFailed) => ActionView::ReportAndStop(Fault::Handshake),
        (State::Relaying, Event::Received(m)) => match m.forwarded() {
            Some(bytes) => ActionView::Send(bytes),
            None => if m is Close {
                ActionView::Stop
            } else {
                ActionView::Receive
            },
        },
        (State::Relaying, Event::ReadFailed) => ActionView::ReportAndStop(Fault::Read),
        (State::Relaying, Event::Ended) => ActionView::Stop,
        (State::Relaying, Event::Sent) => ActionView::Receive,
        (State::Relaying, Event::SendFailed) => ActionView::ReportAndReceive(Fault::Send),
        _ => ActionView::Wait,
    }
}

/// One step of the handler: the next state and the action to perform.
pub fn step(state: State, event: Event) -> (r: (State, Action))
    ensures
        r.0 == next_state(state, event),
        r.1@ == action_for(state, event),
{
    match state {
        State::Closed => (State::Closed, Action::Stop),
        State::Accepted => match event {
            Event::Started => (State::Handshaking, Action::Upgrade),
            _ => (State::Accepted, Action::Wait),
        },
        State::Handshaking => match event {
            Event::Upgraded => (State::Relaying, Action::Receive),
            Event::UpgradeFailed => (State::Closed, Action::ReportAndStop(Fault::Handshake)),
            _ => (State::Handshaking, Action::Wait),
        },
        State::Relaying => match event {
            Event::Received(m) => {
                let closing = m.is_close();
                match m.translate() {
                    Some(bytes) => (State::Relaying, Action::Send(bytes)),
                    None => if closing {
                        (State::Closed, Action::Stop)
                    } else {
                        (State::Relaying, Action::Receive)
                    },
                }
            },
            Event::ReadFailed => (State::Closed, Action::ReportAndStop(Fault::Read)),
            Event::Ended => (State::Closed, Action::Stop),
            Event::Sent => (State::Relaying, Action::Receive),
            Event::SendFailed => (State::Relaying, Action::ReportAndReceive(Fault::Send)),
            _ => (State::Relaying, Action::Wait),
        },
    }
}

/// The state that a handler in `state` reaches on the events, in order.
pub open spec fn state_after(state: State, events: Seq<Event>) -> State
    decreases events.len(),
{
    if events.len() == 0 {
        state
    } else {
        next_state(state_after(state, events.drop_last()), events.last())
    }
}

/// The payloads of the datagrams that a handler in `state` asks to send on
/// the events, in the order in which it asks.
pub open spec fn datagrams(state: State, events: Seq<Event>) -> Seq<Seq<u8>>
    decreases events.len(),
{
    if events.len() == 0 {
        Seq::empty()
    } else {
        let before = events.drop_last();
        match action_for(state_after(state, before), events.last()).datagram() {
            Some(bytes) => datagrams(state, before).push(bytes),
            None => datagrams(state, before),
        }
    }
}

/// The payloads held in a list of byte vectors.
pub open spec fn payloads(list: Seq<Vec<u8>>) -> Seq<Seq<u8>> {
    list.map_values(|bytes: Vec<u8>| bytes@)
}

/// The events of receiving the messages one after the other.
pub open spec fn received(msgs: Seq<Message>) -> Seq<Event> {
    msgs.map_values(|m: Message| Event::Received(m))
}

/// Runs a handler over a whole trace of events and collects, in order, the
/// payloads of the datagrams it asks to send.
pub fn run(state: State, events: Vec<Event>) -> (r: (State, Vec<Vec<u8>>))
    ensures
        r.0 == state_after(state, events@),
        payloads(r.1@) == datagrams(state, events@),
{
    let mut current = state;
    let mut out: Vec<Vec<u8>> = Vec::new();
    let ghost all = events@;
    for event in it: events
        invariant
            it.seq() == all,
            current == state_after(state, all.take(it.index() as int)),
            payloads(out@) == datagrams(state, all.take(it.index() as int)),
    {
        let ghost i = it.index() as int;
        assert(all.take(i + 1).drop_last() =~= all.take(i));
        let (next, action) = step(current, event);
        current = next;
        if let Action::Send(bytes) = action {
            out.push(bytes);
        }
    }
    assert(all.take(all.len() as int) =~= all);
    (current, out)
}

/// The handler moves only along its four arrows: accepted to handshaking,
/// handshaking to relaying, handshaking to closed, relaying to closed. A
/// closed connection stays closed and asks for nothing but to be dropped.
pub proof fn lemma_only_listed_transitions(state: State, event: Event)
    ensures
        ({
            let next = next_state(state, event);
            ||| next == state
            ||| (state == State::Accepted && next == State::Handshaking)
            ||| (state == State::Handshaking && next == State::Relaying)
            ||| (state == State::Handshaking && next == State::Closed)
            ||| (state == State::Relaying && next == State::Closed)
        }),
        state == State::Closed ==> next_state(state, event) == State::Closed && action_for(
            state,
            event,
        ) == ActionView::Stop,
        action_for(state, event).datagram() is Some ==> state == State::Relaying && event is Received,
{
}

/// A relaying connection that receives only text and binary messages asks
/// for one datagram per message, in the order of arrival, each with the
/// bytes of its message, and goes on relaying.
pub proof fn lemma_data_messages_forwarded_in_order(msgs: Seq<Message>)
    requires
        forall|i: int| 0 <= i < msgs.len() ==> (#[trigger] msgs[i]).is_data(),
    ensures
        state_after(State::Relaying, received(msgs)) == State::Relaying,
        datagrams(State::Relaying, received(msgs)) == msgs.map_values(|m: Message| m.data()),
        datagrams(State::Relaying, received(msgs)).len() == msgs.len(),
    decreases msgs.len(),
{
    if msgs.len() > 0 {
        let before = msgs.drop_last();
        lemma_data_messages_forwarded_in_order(before);
        assert(received(msgs).drop_last() =~= received(before));
    }
}

/// Ping, pong and close messages never give a datagram, in whatever state
/// they reach the handler and however many there are.
pub proof fn lemma_control_messages_send_nothing(state: State, msgs: Seq<Message>)
    requires
        forall|i: int| 0 <= i < msgs.len() ==> (#[trigger] msgs[i]).is_control(),
    ensures
        datagrams(state, received(msgs)) == Seq::<Seq<u8>>::empty(),
    decreases msgs.len(),
{
    if msgs.len() > 0 {
        let before = msgs.drop_last();
        lemma_control_messages_send_nothing(state, before);
        assert(received(msgs).drop_last() =~= received(before));
    }
}

/// A failed send leaves the connection as it was: the state is the one
/// before the failure, no datagram is added or lost, and a relaying
/// connection answers the next text or binary message with its datagram.
pub proof fn lemma_send_failure_keeps_relaying(state: State, events: Seq<Event>, m: Message)
    ensures
        state_after(state, events.push(Event::SendFailed)) == state_after(state, events),
        datagrams(state, events.push(Event::SendFailed)) == datagrams(state, events),
        state_after(state, events) == State::Relaying && m.is_data() ==> action_for(
            state_after(state, events.push(Event::SendFailed)),
            Event::Received(m),
        ) == ActionView::Send(m.data()),
{
    let after = events.push(Event::SendFailed);
    assert(after.drop_last() =~= events);
}

/// Whether a send failed or succeeded makes no difference to anything that
/// follows on the connection: with the same events before and after, the
/// state reached and the datagrams asked for are the same.
pub proof fn lemma_send_outcome_is_irrelevant(state: State, before: Seq<Event>, after: Seq<Event>)
    ensures
        state_after(state, before.push(Event::SendFailed) + after) == state_after(
            state,
            before.push(Event::Sent) + after,
        ),
        datagrams(state, before.push(Event::SendFailed) + after) == datagrams(
            state,
            before.push(Event::Sent) + after,
        ),
    decreases after.len(),
{
    let failed = before.push(Event::SendFailed) + after;
    let sent = before.push(Event::Sent) + after;
    if after.len() == 0 {
        assert(failed.drop_last() =~= before);
        assert(sent.drop_last() =~= before);
    } else {
        lemma_send_outcome_is_irrelevant(state, before, after.drop_last());
        assert(failed.drop_last() =~= before.push(Event::SendFailed) + after.drop_last());
        assert(sent.drop_last() =~= before.push(Event::Sent) + after.drop_last());
    }
}

/// The datagram payload that an event stands for on a relaying connection:
/// the bytes of a received text or binary message, and nothing for any other
/// event.
pub open spec fn payload_of(event: Event) -> Option<Seq<u8>> {
    match event {
        Event::Received(m) => m.forwarded(),
        _ => None,
    }
}

/// Whether the event ends a relaying connection: a close message, a read
/// error, or the end of the stream.
pub open spec fn ends_stream(event: Event) -> bool {
    match event {
        Event::Received(m) => m is Close,
        Event::ReadFailed => true,
        Event::Ended => true,
        _ => false,
    }
}

/// A trace may be cut anywhere: the second part runs from the state that the
/// first part reached, and the datagrams of the whole are those of the first
/// part followed by those of the second.
pub proof fn lemma_trace_splits(state: State, first: Seq<Event>, second: Seq<Event>)
    ensures
        state_after(state, first + second) == state_after(state_after(state, first), second),
        datagrams(state, first + second) == datagrams(state, first) + datagrams(
            state_after(state, first),
            second,
        ),
    decreases second.len(),
{
    if second.len() > 0 {
        let shorter = second.drop_last();
        lemma_trace_splits(state, first, shorter);
        assert((first + second).drop_last() =~= first + shorter);
    }
}

/// A closed connection stays closed and sends nothing, whatever is reported
/// to it.
pub proof fn lemma_closed_connection_is_silent(events: Seq<Event>)
    ensures
        state_after(State::Closed, events) == State::Closed,
        datagrams(State::Closed, events) == Seq::<Seq<u8>>::empty(),
    decreases events.len(),
{
    if events.len() > 0 {
        lemma_closed_connection_is_silent(events.drop_last());
    }
}

/// As long as nothing ends the stream, a relaying connection goes on
/// relaying, and its datagrams are exactly the text and binary messages it
/// received: one each, in the order of arrival, with the message's bytes.
/// Pings, pongs, raw frames and the outcomes of sends add nothing and take
/// nothing away.
pub proof fn lemma_relaying_forwards_every_data_message(events: Seq<Event>)
    requires
        forall|i: int| 0 <= i < events.len() ==> !ends_stream(#[trigger] events[i]),
    ensures
        state_after(State::Relaying, events) == State::Relaying,
        datagrams(State::Relaying, events) == events.filter_map(|e: Event| payload_of(e)),
    decreases events.len(),
{
    if events.len() > 0 {
        lemma_relaying_forwards_every_data_message(events.drop_last());
    }
}

/// Once a close message, a read error or the end of the stream has come,
/// the connection is closed and nothing more is sent: the datagrams of the
/// whole trace are those of the messages that came before.
pub proof fn lemma_nothing_is_sent_after_the_end(
    before: Seq<Event>,
    end: Event,
    after: Seq<Event>,
)
    requires
        forall|i: int| 0 <= i < before.len() ==> !ends_stream(#[trigger] before[i]),
        ends_stream(end),
    ensures
        state_after(State::Relaying, before.push(end) + after) == State::Closed,
        datagrams(State::Relaying, before.push(end) + after) == before.filter_map(
            |e: Event| payload_of(e),
        ),
{
    lemma_relaying_forwards_every_data_message(before);
    let ended = before.push(end);
    assert(ended.drop_last() =~= before);
    lemma_trace_splits(State::Relaying, ended, after);
    lemma_closed_connection_is_silent(after);
}

} // verus!
