//! How the listener reacts to binding its address and to each accept.
use vstd::prelude::*;

verus! {

/// The loopback address and port the listener binds.
pub const LISTEN_ADDR: &'static str = "127.0.0.1:8422";

/// `Binding` until the address is bound, `Listening` while accepting,
/// `Stopped` once accepting has ended.
#[derive(Clone, Copy, Debug, PartialEq, Eq, Structural)]
pub enum ListenerState {
    Binding,
    Listening,
    Stopped,
}

/// The outcome of the listener's last operation.
#[derive(Clone, Copy, Debug, PartialEq, Eq, Structural)]
pub enum ListenerEvent {
    Bound,
    BindFailed,
    Accepted,
    AcceptFailed,
}

/// What the caller does next.
#[derive(Clone, Copy, Debug, PartialEq, Eq, Structural)]
pub enum ListenerAction {
    /// Wait for the next connection.
    AcceptNext,
    /// Hand the new connection to a relay of its own, then wait for the next.
    SpawnRelay,
    /// The address could not be bound: end the process with an error.
    Abort,
    /// Accept no more connections.
    Stop,
}

/// The listener's reaction to an event: the next state and the action.
pub open spec fn listener_step(state: ListenerState, event: ListenerEvent) -> (ListenerState, ListenerAction) {
    match (state, event) {
        (ListenerState::Binding, ListenerEvent::Bound) => (ListenerState::Listening, ListenerAction::AcceptNext),
        (ListenerState::Binding, ListenerEvent::BindFailed) => (ListenerState::Stopped, ListenerAction::Abort),
        (ListenerState::Listening, ListenerEvent::Accepted) => (ListenerState::Listening, ListenerAction::SpawnRelay),
        _ => (ListenerState::Stopped, ListenerAction::Stop),
    }
}

/// The listening side of the relay.
pub struct Listener {
    pub state: ListenerState,
}

impl Listener {
    /// A listener that has yet to bind its address.
    pub fn new() -> (r: Listener)
        ensures
            r.state == ListenerState::Binding,
    {
        Listener { state: ListenerState::Binding }
    }

    /// Takes the outcome of the last bind or accept and returns what to do next.
    pub fn on_event(&mut self, event: ListenerEvent) -> (r: ListenerAction)
        ensures
            (final(self).state, r) == listener_step(old(self).state, event),
    {
        let (state, action) = match (self.state, event) {
            (ListenerState::Binding, ListenerEvent::Bound) => (ListenerState::Listening, ListenerAction::AcceptNext),
            (ListenerState::Binding, ListenerEvent::BindFailed) => (ListenerState::Stopped, ListenerAction::Abort),
            (ListenerState::Listening, ListenerEvent::Accepted) => (ListenerState::Listening, ListenerAction::SpawnRelay),
            _ => (ListenerState::Stopped, ListenerAction::Stop),
        };
        self.state = state;
        action
    }
}

} // verus!
