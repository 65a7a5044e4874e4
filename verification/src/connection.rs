//! One connection's life: from its registration to the one cleanup that
//! follows the end of its reading or of its writing.

use vstd::prelude::*;
use crate::broker::{farewells, Broker};
use crate::conduit::{notes_of, Conduit, Fanout, Note};
use crate::ident::{is_random_uuid, ClientId};
use crate::session::{departures_of, Departure};

verus! {

/// Where a connection stands.
#[derive(Clone, Copy, Debug, PartialEq, Eq, Structural)]
pub enum ConnectionState {
    /// Accepted, not yet registered.
    Connecting,
    /// Registered; frames are read and written.
    Active,
    /// Reading or writing has ended; the cleanup runs.
    Closing,
    /// Cleaned up; nothing is left of the connection.
    Closed,
}

/// What happened to a connection.
#[derive(Clone, Copy, Debug, PartialEq, Eq, Structural)]
pub enum ConnectionEvent {
    /// The registry took the connection in.
    Registered,
    /// The registry turned the connection away.
    Refused,
    /// Reading or writing has ended: an error, a close, a closed queue.
    DutyEnded,
    /// The cleanup is done.
    CleanedUp,
}

/// What is to be done for a connection next.
#[derive(Clone, Copy, Debug, PartialEq, Eq, Structural)]
pub enum ConnectionCommand {
    Nothing,
    /// Start reading and writing.
    Serve,
    /// Stop the duty that still runs, unregister the client and take its
    /// games off the table.
    CleanUp,
    /// Let go of what the connection holds.
    Release,
}

/// The state that follows `state` on `event`, and what is to be done.
pub open spec fn next(state: ConnectionState, event: ConnectionEvent) -> (
    ConnectionState,
    ConnectionCommand,
) {
    match (state, event) {
        (ConnectionState::Connecting, ConnectionEvent::Registered) => (
            ConnectionState::Active,
            ConnectionCommand::Serve,
        ),
        (ConnectionState::Connecting, ConnectionEvent::Refused) => (
            ConnectionState::Closed,
            ConnectionCommand::Release,
        ),
        (ConnectionState::Active, ConnectionEvent::DutyEnded) => (
            ConnectionState::Closing,
            ConnectionCommand::CleanUp,
        ),
        (ConnectionState::Closing, ConnectionEvent::CleanedUp) => (
            ConnectionState::Closed,
            ConnectionCommand::Release,
        ),
        _ => (state, ConnectionCommand::Nothing),
    }
}

/// The state after a run of events.
pub open spec fn state_after(state: ConnectionState, events: Seq<ConnectionEvent>) -> ConnectionState
    decreases events.len(),
{
    if events.len() == 0 {
        state
    } else {
        next(state_after(state, events.drop_last()), events.last()).0
    }
}

/// How often a run of events calls for the cleanup.
pub open spec fn cleanups(state: ConnectionState, events: Seq<ConnectionEvent>) -> nat
    decreases events.len(),
{
    if events.len() == 0 {
        0
    } else {
        let before = state_after(state, events.drop_last());
        let more: nat = if next(before, events.last()).1 == ConnectionCommand::CleanUp {
            1
        } else {
            0
        };
        cleanups(state, events.drop_last()) + more
    }
}

/// Whatever happens to a connection, in whatever order, the cleanup is
/// called for at most once: not before the connection has served, and
/// exactly once by the time it is closing.
pub proof fn lemma_cleanup_once(events: Seq<ConnectionEvent>)
    ensures
        cleanups(ConnectionState::Connecting, events) <= 1,
        state_after(ConnectionState::Connecting, events) == ConnectionState::Connecting
            || state_after(ConnectionState::Connecting, events) == ConnectionState::Active
            ==> cleanups(ConnectionState::Connecting, events) == 0,
        state_after(ConnectionState::Connecting, events) == ConnectionState::Closing ==> cleanups(
            ConnectionState::Connecting,
            events,
        ) == 1,
    decreases events.len(),
{
    if events.len() > 0 {
        lemma_cleanup_once(events.drop_last());
    }
}

/// Decides what follows `event` in `state`.
pub fn step(state: ConnectionState, event: ConnectionEvent) -> (r: (
    ConnectionState,
    ConnectionCommand,
))
    ensures
        r == next(state, event),
{
    match (state, event) {
        (ConnectionState::Connecting, ConnectionEvent::Registered) => (
            ConnectionState::Active,
            ConnectionCommand::Serve,
        ),
        (ConnectionState::Connecting, ConnectionEvent::Refused) => (
            ConnectionState::Closed,
            ConnectionCommand::Release,
        ),
        (ConnectionState::Active, ConnectionEvent::DutyEnded) => (
            ConnectionState::Closing,
            ConnectionCommand::CleanUp,
        ),
        (ConnectionState::Closing, ConnectionEvent::CleanedUp) => (
            ConnectionState::Closed,
            ConnectionCommand::Release,
        ),
        _ => (state, ConnectionCommand::Nothing),
    }
}

/// The mathematical model of a connection.
pub struct ConnectionView {
    pub id: Option<ClientId>,
    pub state: ConnectionState,
}

/// One connection, as its handler sees it.
#[derive(Debug)]
pub struct Connection {
    id: Option<ClientId>,
    state: ConnectionState,
}

impl View for Connection {
    type V = ConnectionView;

    closed spec fn view(&self) -> ConnectionView {
        ConnectionView { id: self.id, state: self.state }
    }
}

impl Connection {
    #[verifier::type_invariant]
    closed spec fn inv(self) -> bool {
        &&& self.state == ConnectionState::Active ==> self.id is Some
        &&& self.state == ConnectionState::Active || self.state == ConnectionState::Closed
    }

    /// Registers a new connection with the broker. The connection is
    /// active under its new identifier, that of a random UUID, or closed
    /// where the registry turned it away; that cannot happen while no
    /// client is connected under a random UUID.
    pub fn open(broker: &mut Broker, outbound: Conduit) -> (c: Connection)
        ensures
            final(broker)@.sessions == old(broker)@.sessions,
            match c@.id {
                Some(id) => c@.state == ConnectionState::Active && is_random_uuid(id.0) && !old(broker)@.registry.connected(id) && final(broker)@.registry == old(broker)@.registry.register(id),
                None => c@.state == ConnectionState::Closed && final(broker)@.registry == old(broker)@.registry && old(broker)@.registry.holds_random_id(),
            },
    {
        let id = broker.connect(outbound);
        let event = match id {
            Some(_) => ConnectionEvent::Registered,
            None => ConnectionEvent::Refused,
        };
        let (state, _) = step(ConnectionState::Connecting, event);
        Connection { id, state }
    }

    /// The identifier under which the connection is registered.
    pub fn id(&self) -> (id: Option<ClientId>)
        ensures
            id == self@.id,
            self@.state == ConnectionState::Active ==> id is Some,
    {
        proof {
            use_type_invariant(self);
        }
        self.id
    }

    pub fn state(&self) -> (state: ConnectionState)
        ensures
            state == self@.state,
            state == ConnectionState::Active || state == ConnectionState::Closed,
    {
        proof {
            use_type_invariant(self);
        }
        self.state
    }

    /// Hands a frame of the client to the broker. A connection that is
    /// closed has nothing done for it.
    pub fn receive(&self, broker: &mut Broker, text: &str) -> (done: Vec<Fanout>)
        ensures
            self@.state == ConnectionState::Active ==> self@.id is Some && final(broker)@ == old(broker)@.receive(self@.id->Some_0, text@).broker && notes_of(done@) == old(broker)@.receive(self@.id->Some_0, text@).notes,
            self@.state != ConnectionState::Active ==> final(broker)@ == old(broker)@ && notes_of(done@) == Seq::<Note>::empty(),
    {
        proof {
            use_type_invariant(self);
        }
        match (self.state, self.id) {
            (ConnectionState::Active, Some(id)) => broker.handle_frame(id, text),
            _ => {
                let done: Vec<Fanout> = Vec::new();
                assert(notes_of(done@) =~= Seq::<Note>::empty());
                done
            },
        }
    }

    /// Ends the connection once its reading or its writing has ended. An
    /// active connection is cleaned up and closed; one that is closed
    /// already has nothing done for it, so that the cleanup runs once
    /// however often the end is reported.
    pub fn close(&mut self, broker: &mut Broker) -> (done: Vec<Fanout>)
        ensures
            final(self)@.id == old(self)@.id,
            final(self)@.state == ConnectionState::Closed,
            old(self)@.state == ConnectionState::Active ==> old(self)@.id is Some && final(broker)@ == old(broker)@.depart(old(self)@.id->Some_0) && exists|deps: Seq<Departure>|
                departures_of(deps, old(broker)@.sessions, old(self)@.id->Some_0) && notes_of(done@) == #[trigger] farewells(deps, final(broker)@.registry),
            old(self)@.state != ConnectionState::Active ==> final(broker)@ == old(broker)@
                && notes_of(done@) == Seq::<Note>::empty(),
    {
        proof {
            use_type_invariant(&*self);
        }
        let (closing, command) = step(self.state, ConnectionEvent::DutyEnded);
        match (command, self.id) {
            (ConnectionCommand::CleanUp, Some(id)) => {
                let done = broker.disconnect(id);
                let (closed, _) = step(closing, ConnectionEvent::CleanedUp);
                *self = Connection { id: self.id, state: closed };
                done
            },
            _ => {
                let done: Vec<Fanout> = Vec::new();
                assert(notes_of(done@) =~= Seq::<Note>::empty());
                done
            },
        }
    }
}

} // verus!
