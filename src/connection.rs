//! The life of one relayed connection, as a state machine driven by the
//! outcomes of the handshake and of each read.
use vstd::prelude::*;
use crate::listener::{ListenerAction, ListenerEvent, ListenerState, listener_step};
use crate::message::{IncomingMessage, forwarded, forwarded_payload, kind_of};

verus! {

/// A frame read from the connection, reduced to what the relay looks at.
pub enum Frame {
    /// A text frame: its raw text, and what that text decoded to (`None`
    /// where it is not a well-formed message).
    Text { text: String, message: Option<IncomingMessage> },
    Binary,
    Ping,
    Pong,
    Close,
    /// An unparsed frame.
    Raw,
}

/// What happened on the connection since the last step.
pub enum ConnectionEvent {
    /// The WebSocket handshake did not complete.
    HandshakeFailed,
    /// The next frame arrived.
    Received(Frame),
    /// Reading the next frame failed.
    ReadFailed,
    /// The stream ended.
    StreamEnded,
}

/// `Open` from accept until the connection ends; `Closed` is terminal.
#[derive(Clone, Copy, Debug, PartialEq, Eq, Structural)]
pub enum ConnectionState {
    Open,
    Closed,
}

/// Whether an event ends the connection.
pub open spec fn ends_connection(event: ConnectionEvent) -> bool {
    !(event is Received)
}

/// What one event forwards to the webview: only a text frame on an open
/// connection, by the routing rule of [`forwarded`].
pub open spec fn emitted_by(state: ConnectionState, event: ConnectionEvent) -> Option<Seq<char>> {
    match (state, event) {
        (ConnectionState::Open, ConnectionEvent::Received(Frame::Text { text, message })) =>
            forwarded(text@, message),
        _ => None,
    }
}

/// The state after one event.
pub open spec fn next_state(state: ConnectionState, event: ConnectionEvent) -> ConnectionState {
    if ends_connection(event) {
        ConnectionState::Closed
    } else {
        state
    }
}

/// The state reached from `state` after `events`, in order.
pub open spec fn state_after(state: ConnectionState, events: Seq<ConnectionEvent>) -> ConnectionState
    decreases events.len(),
{
    if events.len() == 0 {
        state
    } else {
        next_state(state_after(state, events.drop_last()), events.last())
    }
}

/// The payloads forwarded from `state` over `events`, in order.
pub open spec fn emitted_after(state: ConnectionState, events: Seq<ConnectionEvent>) -> Seq<Seq<char>>
    decreases events.len(),
{
    if events.len() == 0 {
        Seq::empty()
    } else {
        let before = emitted_after(state, events.drop_last());
        match emitted_by(state_after(state, events.drop_last()), events.last()) {
            Some(p) => before.push(p),
            None => before,
        }
    }
}

/// The relay of one connection.
pub struct Connection {
    pub state: ConnectionState,
}

impl Connection {
    /// A connection just accepted.
    pub fn new() -> (r: Connection)
        ensures
            r.state == ConnectionState::Open,
    {
        Connection { state: ConnectionState::Open }
    }

    /// Whether frames are still to be read.
    pub fn is_open(&self) -> (r: bool)
        ensures
            r == (self.state == ConnectionState::Open),
    {
        self.state == ConnectionState::Open
    }

    /// Takes one event and returns the payload to deliver under
    /// `RELAY_EVENT`, if any.
    pub fn on_event(&mut self, event: &ConnectionEvent) -> (r: Option<String>)
        ensures
            final(self).state == next_state(old(self).state, *event),
            r matches Some(p) ==> emitted_by(old(self).state, *event) == Some(p@),
            r is None ==> emitted_by(old(self).state, *event) is None,
    {
        match event {
            ConnectionEvent::Received(frame) => {
                if self.state == ConnectionState::Open {
                    match frame {
                        Frame::Text { text, message } => forwarded_payload(text, message),
                        _ => None,
                    }
                } else {
                    None
                }
            },
            _ => {
                self.state = ConnectionState::Closed;
                None
            },
        }
    }

    /// Takes events in order, as [`Connection::on_event`] does one by one,
    /// and returns the payloads delivered, in order.
    pub fn on_events(&mut self, events: &Vec<ConnectionEvent>) -> (r: Vec<String>)
        ensures
            final(self).state == state_after(old(self).state, events@),
            r@.map_values(|p: String| p@) == emitted_after(old(self).state, events@),
    {
        let ghost start = self.state;
        let mut out: Vec<String> = Vec::new();
        let mut i: usize = 0;
        while i < events.len()
            invariant
                i <= events@.len(),
                self.state == state_after(start, events@.subrange(0, i as int)),
                out@.map_values(|p: String| p@) == emitted_after(start, events@.subrange(0, i as int)),
            decreases events@.len() - i,
        {
            let ghost done = events@.subrange(0, i as int);
            let ghost state = self.state;
            let payload = self.on_event(&events[i]);
            proof {
                assert(events@.subrange(0, i + 1).drop_last() =~= done);
                assert(events@.subrange(0, i + 1).last() == events@[i as int]);
            }
            match payload {
                Some(p) => {
                    out.push(p);
                    assert(out@.map_values(|p: String| p@) =~= emitted_after(start, done).push(p@));
                },
                None => {},
            }
            i = i + 1;
        }
        assert(events@.subrange(0, events@.len() as int) =~= events@);
        out
    }
}

/// Whether an event is a text frame whose message names a recognised action.
pub open spec fn is_relayed(event: ConnectionEvent) -> bool {
    event matches ConnectionEvent::Received(Frame::Text { message: Some(m), .. })
        && kind_of(m.action@) is Some
}

/// The raw text of a text frame.
pub open spec fn raw_text(event: ConnectionEvent) -> Seq<char> {
    match event {
        ConnectionEvent::Received(Frame::Text { text, .. }) => text@,
        _ => Seq::empty(),
    }
}

/// On an open connection that receives frames and nothing that ends it,
/// each frame whose message is `addEntry` or `setLocalStorage` is forwarded
/// exactly once, as its raw text, in the order received; every other frame
/// (undecodable, without a recognised action, or not text) forwards nothing,
/// and the connection stays open throughout.
pub proof fn lemma_relays_recognised_frames_in_order(events: Seq<ConnectionEvent>)
    requires
        forall|i: int| 0 <= i < events.len() ==> !ends_connection(#[trigger] events[i]),
    ensures
        state_after(ConnectionState::Open, events) == ConnectionState::Open,
        emitted_after(ConnectionState::Open, events)
            == events.filter(|e: ConnectionEvent| is_relayed(e)).map_values(|e: ConnectionEvent| raw_text(e)),
    decreases events.len(),
{
    reveal(Seq::filter);
    let pred = |e: ConnectionEvent| is_relayed(e);
    let text_of = |e: ConnectionEvent| raw_text(e);
    if events.len() > 0 {
        let before = events.drop_last();
        assert forall|i: int| 0 <= i < before.len() implies !ends_connection(#[trigger] before[i]) by {
            assert(before[i] == events[i]);
        }
        lemma_relays_recognised_frames_in_order(before);
        assert(!ends_connection(events[events.len() - 1]));
        if pred(events.last()) {
            assert(events.filter(pred).map_values(text_of)
                =~= before.filter(pred).map_values(text_of).push(raw_text(events.last())));
        } else {
            assert(events.filter(pred) == before.filter(pred));
        }
    }
}

/// Running two stretches of events one after the other is running their
/// concatenation.
pub proof fn lemma_run_concat(state: ConnectionState, first: Seq<ConnectionEvent>, second: Seq<ConnectionEvent>)
    ensures
        state_after(state, first + second) == state_after(state_after(state, first), second),
        emitted_after(state, first + second)
            == emitted_after(state, first) + emitted_after(state_after(state, first), second),
    decreases second.len(),
{
    if second.len() == 0 {
        assert(first + second =~= first);
        assert(emitted_after(state, first) + Seq::empty() =~= emitted_after(state, first));
    } else {
        lemma_run_concat(state, first, second.drop_last());
        assert((first + second).drop_last() =~= first + second.drop_last());
        assert((first + second).last() == second.last());
        let mid = state_after(state, first);
        match emitted_by(state_after(mid, second.drop_last()), second.last()) {
            Some(p) => {
                assert(emitted_after(state, first) + emitted_after(mid, second.drop_last()).push(p)
                    =~= (emitted_after(state, first) + emitted_after(mid, second.drop_last())).push(p));
            },
            None => {},
        }
    }
}

/// A closed connection stays closed and forwards nothing, whatever follows.
pub proof fn lemma_closed_is_final(events: Seq<ConnectionEvent>)
    ensures
        state_after(ConnectionState::Closed, events) == ConnectionState::Closed,
        emitted_after(ConnectionState::Closed, events) == Seq::<Seq<char>>::empty(),
    decreases events.len(),
{
    if events.len() > 0 {
        lemma_closed_is_final(events.drop_last());
    }
}

/// A connection whose handshake fails is closed at once and forwards
/// nothing, whatever else arrives on it; the listener, whose reaction to an
/// accepted connection depends on nothing of that connection, stays
/// listening and goes on to accept the next.
pub proof fn lemma_failed_handshake_is_contained(later: Seq<ConnectionEvent>)
    ensures
        state_after(ConnectionState::Open, seq![ConnectionEvent::HandshakeFailed] + later)
            == ConnectionState::Closed,
        emitted_after(ConnectionState::Open, seq![ConnectionEvent::HandshakeFailed] + later)
            == Seq::<Seq<char>>::empty(),
        listener_step(ListenerState::Listening, ListenerEvent::Accepted)
            == (ListenerState::Listening, ListenerAction::SpawnRelay),
{
    let first = seq![ConnectionEvent::HandshakeFailed];
    assert(first.drop_last() =~= Seq::<ConnectionEvent>::empty());
    assert(emitted_after(ConnectionState::Open, first.drop_last()) == Seq::<Seq<char>>::empty());
    assert(emitted_after(ConnectionState::Open, first) == Seq::<Seq<char>>::empty());
    lemma_run_concat(ConnectionState::Open, first, later);
    lemma_closed_is_final(later);
    assert(Seq::<Seq<char>>::empty() + Seq::<Seq<char>>::empty() =~= Seq::<Seq<char>>::empty());
}

/// Connections are independent: among connections in `states`, a read
/// error or the end of the stream on connection `n` closes `n` and leaves
/// every other connection `m` in its state, to forward from its later
/// events exactly what it would have forwarded otherwise.
pub proof fn lemma_connections_are_independent(
    states: Seq<ConnectionState>,
    n: int,
    m: int,
    event: ConnectionEvent,
    later: Seq<ConnectionEvent>,
)
    requires
        0 <= n < states.len(),
        0 <= m < states.len(),
        n != m,
        ends_connection(event),
    ensures
        ({
            let after = states.update(n, next_state(states[n], event));
            &&& after[n] == ConnectionState::Closed
            &&& after[m] == states[m]
            &&& state_after(after[m], later) == state_after(states[m], later)
            &&& emitted_after(after[m], later) == emitted_after(states[m], later)
        }),
{
}

} // verus!
