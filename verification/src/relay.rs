//! The accept loop and the connections it has started.
//!
//! The relay knows whether its listener still serves and where each
//! connection stands. Every accepted stream gets a handler of its own and the
//! loop accepts again at once. An event of one connection changes that
//! connection and nothing else.
//!
//! How many connections are open at once is not limited: nothing here turns
//! a peer away, so a flood of peers is bounded only by what the machine can
//! hold. A connection keeps its number after it has closed, and the relay
//! keeps one state for every connection it ever accepted.

use vstd::prelude::*;
use crate::connection::{
    action_for, datagrams, next_state, state_after, step, Action, ActionView, Event, State,
};
use crate::message::Message;

verus! {

/// What the accept loop does after an attempt to accept.
#[derive(Clone, Copy, Debug, PartialEq, Eq, Structural)]
pub enum AcceptAction {
    /// Start a handler with this number on the accepted stream, and accept
    /// again without waiting for it.
    Spawn(usize),
    /// Stop serving and hand the listener's error to the caller.
    Halt,
}

/// The relay's accept loop together with the state of every connection it
/// has accepted, numbered in the order of acceptance.
pub struct Relay {
    listening: bool,
    connections: Vec<State>,
}

/// A relay as contracts see it.
pub struct RelayView {
    /// Whether the listener still serves.
    pub listening: bool,
    /// The state of each connection, by its number.
    pub connections: Seq<State>,
}

impl RelayView {
    /// Whether `id` numbers a connection of the relay.
    pub open spec fn knows(self, id: int) -> bool {
        0 <= id < self.connections.len()
    }

    /// The relay after an attempt to accept that succeeded (`accepted`) or
    /// failed. A serving relay gains one connection on success; a failure is
    /// final; a relay that has stopped serving takes no more connections.
    pub open spec fn accept(self, accepted: bool) -> RelayView {
        if self.listening && accepted {
            RelayView { listening: true, connections: self.connections.push(State::Accepted) }
        } else {
            RelayView { listening: false, connections: self.connections }
        }
    }

    /// What the accept loop does on that attempt.
    pub open spec fn accept_action(self, accepted: bool) -> AcceptAction {
        if self.listening && accepted {
            AcceptAction::Spawn(self.connections.len() as usize)
        } else {
            AcceptAction::Halt
        }
    }

    /// The relay after connection `id` has taken `event`.
    pub open spec fn dispatch(self, id: int, event: Event) -> RelayView {
        if self.knows(id) {
            RelayView {
                listening: self.listening,
                connections: self.connections.update(id, next_state(self.connections[id], event)),
            }
        } else {
            self
        }
    }

    /// What connection `id` answers `event` with. A number that the relay
    /// never gave out is answered like a closed connection.
    pub open spec fn answer(self, id: int, event: Event) -> ActionView {
        if self.knows(id) {
            action_for(self.connections[id], event)
        } else {
            ActionView::Stop
        }
    }
}

impl View for Relay {
    type V = RelayView;

    closed spec fn view(&self) -> RelayView {
        RelayView { listening: self.listening, connections: self.connections@ }
    }
}

impl Relay {
    /// A serving relay without connections.
    pub fn new() -> (r: Relay)
        ensures
            r@.listening,
            r@.connections == Seq::<State>::empty(),
    {
        Relay { listening: true, connections: Vec::new() }
    }

    /// Whether the listener still serves.
    pub fn is_listening(&self) -> (r: bool)
        ensures
            r == self@.listening,
    {
        self.listening
    }

    /// How many connections the relay has accepted so far.
    pub fn connection_count(&self) -> (r: usize)
        ensures
            r == self@.connections.len(),
    {
        self.connections.len()
    }

    /// The state of connection `id`, if the relay gave that number out.
    pub fn state_of(&self, id: usize) -> (r: Option<State>)
        ensures
            r == (if self@.knows(id as int) {
                Some(self@.connections[id as int])
            } else {
                None
            }),
    {
        if id < self.connections.len() {
            Some(self.connections[id])
        } else {
            None
        }
    }

    /// Takes the outcome of one attempt to accept.
    ///
    /// On success a serving relay starts a new connection in the accepted
    /// state, under the next free number, and keeps serving; the connections
    /// it already has are untouched. On failure it stops serving for good.
    pub fn on_accept(&mut self, accepted: bool) -> (r: AcceptAction)
        ensures
            final(self)@ == old(self)@.accept(accepted),
            r == old(self)@.accept_action(accepted),
    {
        if self.listening && accepted {
            let id = self.connections.len();
            self.connections.push(State::Accepted);
            AcceptAction::Spawn(id)
        } else {
            self.listening = false;
            AcceptAction::Halt
        }
    }

    /// Hands `event` to connection `id` and returns what its handler asks
    /// for. Only that connection changes.
    pub fn dispatch(&mut self, id: usize, event: Event) -> (r: Action)
        ensures
            final(self)@ == old(self)@.dispatch(id as int, event),
            r@ == old(self)@.answer(id as int, event),
    {
        if id < self.connections.len() {
            let (next, action) = step(self.connections[id], event);
            self.connections.set(id, next);
            action
        } else {
            Action::Stop
        }
    }
}

/// A serving relay never refuses a connection for the sake of those it has:
/// whatever their number and state, a successful accept starts one more and
/// leaves the others as they were, and the relay keeps serving.
pub proof fn lemma_accept_never_waits(r: RelayView)
    requires
        r.listening,
    ensures
        r.accept(true).listening,
        r.accept(true).connections.len() == r.connections.len() + 1,
        r.accept(true).connections.last() == State::Accepted,
        forall|id: int| r.knows(id) ==> r.accept(true).connections[id] == r.connections[id],
{
}

/// A failed accept is final: the relay stops serving, and no later outcome
/// makes it serve or take a connection again.
pub proof fn lemma_accept_failure_is_final(r: RelayView, later: bool)
    ensures
        !r.accept(false).listening,
        r.accept(false).accept(later) == r.accept(false),
        r.accept(false).accept_action(later) == AcceptAction::Halt,
        r.accept(false).connections == r.connections,
{
}

/// An event of one connection changes nothing for another: the other's
/// state and its answer to any event are what they were, the listener is
/// untouched, and the two events may be taken in either order.
pub proof fn lemma_connections_are_independent(
    r: RelayView,
    a: int,
    on_a: Event,
    b: int,
    on_b: Event,
)
    requires
        a != b,
    ensures
        r.dispatch(a, on_a).listening == r.listening,
        r.dispatch(a, on_a).connections.len() == r.connections.len(),
        r.knows(b) ==> r.dispatch(a, on_a).connections[b] == r.connections[b],
        r.dispatch(a, on_a).answer(b, on_b) == r.answer(b, on_b),
        r.dispatch(a, on_a).dispatch(b, on_b) == r.dispatch(b, on_b).dispatch(a, on_a),
{
    assert(r.dispatch(a, on_a).dispatch(b, on_b).connections =~= r.dispatch(b, on_b).dispatch(
        a,
        on_a,
    ).connections);
}

/// A handshake that fails on one connection closes that connection only.
/// Another connection that is still in its handshake completes it and then
/// forwards text and binary messages as if nothing had happened, and the
/// relay goes on accepting: the next accepted stream starts as any other.
pub proof fn lemma_failed_handshake_is_contained(r: RelayView, a: int, b: int, m: Message)
    requires
        r.knows(a),
        r.knows(b),
        a != b,
        r.connections[a] == State::Handshaking,
        r.connections[b] == State::Handshaking,
        m.is_data(),
    ensures
        ({
            let failed = r.dispatch(a, Event::UpgradeFailed);
            let upgraded = failed.dispatch(b, Event::Upgraded);
            &&& failed.connections[a] == State::Closed
            &&& failed.connections[b] == State::Handshaking
            &&& failed.listening == r.listening
            &&& failed.answer(b, Event::Upgraded) == ActionView::Receive
            &&& upgraded.connections[b] == State::Relaying
            &&& upgraded.answer(b, Event::Received(m)) == ActionView::Send(m.data())
            &&& upgraded.dispatch(b, Event::Received(m)).connections[b] == State::Relaying
            &&& r.listening ==> failed.accept(true).listening && failed.accept(true).connections
                == failed.connections.push(State::Accepted)
        }),
{
}

/// One thing that happens to a relay: an attempt to accept with its outcome,
/// or an event of the connection with the given number.
pub enum Occurrence {
    Accept(bool),
    Connection(int, Event),
}

impl Occurrence {
    /// The event, where the occurrence is an event of connection `id`.
    pub open spec fn event_of(self, id: int) -> Option<Event> {
        match self {
            Occurrence::Connection(on, event) => if on == id {
                Some(event)
            } else {
                None
            },
            Occurrence::Accept(_) => None,
        }
    }
}

/// The events of connection `id` among the occurrences, in order.
pub open spec fn events_of(id: int, trace: Seq<Occurrence>) -> Seq<Event> {
    trace.filter_map(|o: Occurrence| o.event_of(id))
}

impl RelayView {
    /// The relay after one occurrence.
    pub open spec fn take(self, occurrence: Occurrence) -> RelayView {
        match occurrence {
            Occurrence::Accept(accepted) => self.accept(accepted),
            Occurrence::Connection(id, event) => self.dispatch(id, event),
        }
    }

    /// The relay after the occurrences, in order.
    pub open spec fn after(self, trace: Seq<Occurrence>) -> RelayView
        decreases trace.len(),
    {
        if trace.len() == 0 {
            self
        } else {
            self.after(trace.drop_last()).take(trace.last())
        }
    }

    /// The payloads of the datagrams that connection `id` asks to send over
    /// the occurrences, in the order in which it asks.
    pub open spec fn sent_by(self, id: int, trace: Seq<Occurrence>) -> Seq<Seq<u8>>
        decreases trace.len(),
    {
        if trace.len() == 0 {
            Seq::empty()
        } else {
            let earlier = self.sent_by(id, trace.drop_last());
            match trace.last().event_of(id) {
                Some(event) => match self.after(trace.drop_last()).answer(id, event).datagram() {
                    Some(bytes) => earlier.push(bytes),
                    None => earlier,
                },
                None => earlier,
            }
        }
    }
}

/// However the accepts and the events of all connections interleave, a
/// connection goes through the states and asks for the datagrams that its
/// own events alone would bring about, in their order. What happens to the
/// listener or to any other connection, a failure too, does not show in it.
pub proof fn lemma_connection_sees_only_its_own_events(
    r: RelayView,
    id: int,
    trace: Seq<Occurrence>,
)
    requires
        r.knows(id),
    ensures
        r.after(trace).knows(id),
        r.after(trace).connections[id] == state_after(r.connections[id], events_of(id, trace)),
        r.sent_by(id, trace) == datagrams(r.connections[id], events_of(id, trace)),
    decreases trace.len(),
{
    if trace.len() > 0 {
        let before = trace.drop_last();
        lemma_connection_sees_only_its_own_events(r, id, before);
        if let Some(event) = trace.last().event_of(id) {
            let own = events_of(id, before) + seq![event];
            assert(own.drop_last() =~= events_of(id, before));
        }
    }
}

/// Two relaying connections that each receive one text or binary message
/// give two datagrams, one with each message's bytes, whichever of the two
/// messages comes first; and the relay ends up the same either way.
pub proof fn lemma_two_connections_one_message_each(
    r: RelayView,
    a: int,
    on_a: Message,
    b: int,
    on_b: Message,
)
    requires
        r.knows(a),
        r.knows(b),
        a != b,
        r.connections[a] == State::Relaying,
        r.connections[b] == State::Relaying,
        on_a.is_data(),
        on_b.is_data(),
    ensures
        ({
            let first = Occurrence::Connection(a, Event::Received(on_a));
            let second = Occurrence::Connection(b, Event::Received(on_b));
            &&& r.sent_by(a, seq![first, second]) == seq![on_a.data()]
            &&& r.sent_by(b, seq![first, second]) == seq![on_b.data()]
            &&& r.sent_by(a, seq![second, first]) == seq![on_a.data()]
            &&& r.sent_by(b, seq![second, first]) == seq![on_b.data()]
            &&& r.after(seq![first, second]) == r.after(seq![second, first])
            &&& r.after(seq![first, second]).connections[a] == State::Relaying
            &&& r.after(seq![first, second]).connections[b] == State::Relaying
        }),
{
    let first = Occurrence::Connection(a, Event::Received(on_a));
    let second = Occurrence::Connection(b, Event::Received(on_b));
    let none = Seq::<Occurrence>::empty();
    assert(seq![first, second].drop_last() =~= seq![first]);
    assert(seq![second, first].drop_last() =~= seq![second]);
    assert(seq![first].drop_last() =~= none);
    assert(seq![second].drop_last() =~= none);
    assert(r.sent_by(a, none) =~= Seq::<Seq<u8>>::empty());
    assert(r.sent_by(b, none) =~= Seq::<Seq<u8>>::empty());
    lemma_connections_are_independent(r, a, Event::Received(on_a), b, Event::Received(on_b));
    assert(r.sent_by(a, seq![first]) =~= seq![on_a.data()]);
    assert(r.sent_by(b, seq![first]) =~= Seq::<Seq<u8>>::empty());
    assert(r.sent_by(a, seq![second]) =~= Seq::<Seq<u8>>::empty());
    assert(r.sent_by(b, seq![second]) =~= seq![on_b.data()]);
}

} // verus!
