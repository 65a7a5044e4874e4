//! The broker: the registry of clients and the table of games side by
//! side, and what each request of a client does to them.

use vstd::prelude::*;
use crate::client::{
    action_of, frame_of, frame_text, state_update, ActionView, ClientAction,
    ClientMessage, MessageView,
};
use crate::conduit::{notes_of, Conduit, Fanout, Note};
use crate::game::GameState;
use crate::ident::{is_random_uuid, ClientId, SessionId};
use crate::lobby::{among, roster_ids, roster_message};
use crate::registry::{lemma_unregister_twice, BroadcastScope, ClientRegistry, RegistryView};
use crate::session::{
    after_departure, after_move, departures_of, move_refusal, table_wf, Departure, SessionTable,
    Sessions,
};

verus! {

/// The mathematical model of the broker.
pub struct BrokerView {
    pub registry: RegistryView,
    pub sessions: Sessions,
}

/// What a request did: the broker after it and the texts that went out.
pub struct Effect {
    pub broker: BrokerView,
    pub notes: Seq<Note>,
}

/// The players of `g` who are told of its state: both, each once.
pub open spec fn audience(g: GameState) -> Seq<ClientId> {
    if g.players[0] == g.players[1] {
        seq![g.players[0]]
    } else {
        seq![g.players[0], g.players[1]]
    }
}

/// Those of `recipients` that are connected.
pub open spec fn reached(recipients: Seq<ClientId>, registry: RegistryView) -> Seq<ClientId> {
    recipients.filter(among(registry.clients))
}

/// The notice that tells the player left behind in a game that the game
/// is gone.
pub open spec fn farewell(d: Departure, registry: RegistryView) -> Note {
    Note {
        text: frame_text(MessageView::OpponentLeft { session_id: d.session_id }),
        targets: reached(seq![d.opponent], registry),
    }
}

/// The notices for a list of departures.
pub open spec fn farewells(deps: Seq<Departure>, registry: RegistryView) -> Seq<Note> {
    Seq::new(deps.len(), |k: int| farewell(deps[k], registry))
}

impl BrokerView {
    pub open spec fn wf(self) -> bool {
        self.registry.wf() && table_wf(self.sessions)
    }

    /// What the action `a` of `client` does.
    ///
    /// A chat message goes to every connected client but `client`. A
    /// move that the table accepts changes the game, and the new state
    /// goes to the game's players; a move that it refuses changes
    /// nothing, and the reason goes to `client` alone. Joining and
    /// leaving the lobby change its members, and the new list goes to the
    /// members, and to `client` when it left.
    pub open spec fn act(self, client: ClientId, a: ActionView) -> Effect {
        match a {
            ActionView::ChatMessage { content } => Effect {
                broker: self,
                notes: seq![
                    Note {
                        text: frame_text(MessageView::ChatMessage { from: client, content }),
                        targets: self.registry.targets(client, BroadcastScope::AllExceptSender),
                    },
                ],
            },
            ActionView::MakeMove { session_id, x, y } => match move_refusal(
                self.sessions,
                session_id,
                client,
                x as int,
                y as int,
            ) {
                None => {
                    let game = self.sessions[session_id].after(x as int, y as int);
                    Effect {
                        broker: BrokerView {
                            registry: self.registry,
                            sessions: after_move(self.sessions, session_id, client, x as int, y as int),
                        },
                        notes: seq![
                            Note {
                                text: frame_text(state_update(session_id, game)),
                                targets: reached(audience(game), self.registry),
                            },
                        ],
                    }
                },
                Some(e) => Effect {
                    broker: self,
                    notes: seq![
                        Note {
                            text: frame_text(MessageView::Error { message: e.message() }),
                            targets: reached(seq![client], self.registry),
                        },
                    ],
                },
            },
            ActionView::JoinLobby { name } => if self.registry.connected(client) {
                let registry = self.registry.join(client, name);
                Effect {
                    broker: BrokerView { registry, sessions: self.sessions },
                    notes: seq![
                        Note {
                            text: frame_text(roster_message(registry.lobby)),
                            targets: roster_ids(registry.lobby),
                        },
                    ],
                }
            } else {
                Effect { broker: self, notes: Seq::empty() }
            },
            ActionView::LeaveLobby => if self.registry.connected(client) {
                let registry = self.registry.leave(client);
                Effect {
                    broker: BrokerView { registry, sessions: self.sessions },
                    notes: seq![
                        Note {
                            text: frame_text(roster_message(registry.lobby)),
                            targets: roster_ids(registry.lobby) + seq![client],
                        },
                    ],
                }
            } else {
                Effect { broker: self, notes: Seq::empty() }
            },
        }
    }

    /// What a frame of `client` does: the action that it asks for, or
    /// nothing where it is malformed.
    pub open spec fn receive(self, client: ClientId, text: Seq<char>) -> Effect {
        match action_of(frame_of(text)) {
            Some(a) => self.act(client, a),
            None => Effect { broker: self, notes: Seq::empty() },
        }
    }

    /// The broker after `client` is gone: it is connected no more, is no
    /// member of the lobby, and every game in which it played is off the
    /// table.
    pub open spec fn depart(self, client: ClientId) -> BrokerView {
        BrokerView {
            registry: self.registry.unregister(client),
            sessions: after_departure(self.sessions, client),
        }
    }
}

/// Cleaning up after a client a second time changes nothing.
pub proof fn lemma_depart_twice(b: BrokerView, client: ClientId)
    ensures
        b.depart(client).depart(client) == b.depart(client),
{
    lemma_unregister_twice(b.registry, client);
    assert(after_departure(after_departure(b.sessions, client), client) =~= after_departure(
        b.sessions,
        client,
    ));
}

/// The broker.
pub struct Broker {
    pub registry: ClientRegistry,
    pub sessions: SessionTable,
}

impl View for Broker {
    type V = BrokerView;

    open spec fn view(&self) -> BrokerView {
        BrokerView { registry: self.registry@, sessions: self.sessions@ }
    }
}

fn one(done: Fanout) -> (list: Vec<Fanout>)
    ensures
        notes_of(list@) == seq![done@],
{
    let mut list: Vec<Fanout> = Vec::new();
    list.push(done);
    assert(notes_of(list@) =~= seq![done@]);
    list
}

fn none() -> (list: Vec<Fanout>)
    ensures
        notes_of(list@) == Seq::<Note>::empty(),
{
    let list: Vec<Fanout> = Vec::new();
    assert(notes_of(list@) =~= Seq::<Note>::empty());
    list
}

impl Broker {
    /// A broker without clients or games.
    pub fn new() -> (broker: Broker)
        ensures
            broker@.registry == RegistryView::empty(),
            broker@.sessions == Map::<SessionId, GameState>::empty(),
            broker@.wf(),
    {
        Broker { registry: ClientRegistry::new(), sessions: SessionTable::new() }
    }

    /// Takes in a new connection under a fresh random identifier, the
    /// identifier of a random UUID, and hands the identifier back. The
    /// connection is turned away, and nothing changes, only where the
    /// identifier drawn is in use; that cannot happen while no client is
    /// connected under a random UUID. The games are left alone.
    pub fn connect(&mut self, outbound: Conduit) -> (r: Option<ClientId>)
        ensures
            final(self)@.sessions == old(self)@.sessions,
            final(self)@.registry.wf(),
            match r {
                Some(id) => is_random_uuid(id.0) && !old(self)@.registry.connected(id) && final(self)@.registry == old(self)@.registry.register(id),
                None => final(self)@.registry == old(self)@.registry && old(self)@.registry.holds_random_id(),
            },
    {
        self.registry.connect(outbound)
    }

    /// Does what `action`, asked for by `client_id`, calls for, and
    /// reports the texts that went out.
    pub fn handle_action(&mut self, client_id: ClientId, action: ClientAction) -> (done: Vec<
        Fanout,
    >)
        ensures
            final(self)@ == old(self)@.act(client_id, action@).broker,
            notes_of(done@) == old(self)@.act(client_id, action@).notes,
    {
        match action {
            ClientAction::ChatMessage { content } => {
                let text = ClientMessage::chat_message(client_id, content).to_frame();
                one(self.registry.broadcast(client_id, text, BroadcastScope::AllExceptSender))
            },
            ClientAction::MakeMove { session_id, x, y } => {
                match self.sessions.make_move(session_id, client_id, x, y) {
                    Ok(shot) => {
                        let text = ClientMessage::game_state_update(&shot).to_frame();
                        let (first, second) = shot.players();
                        let mut recipients: Vec<ClientId> = Vec::new();
                        recipients.push(first);
                        if second != first {
                            recipients.push(second);
                        }
                        assert(recipients@ =~= audience(shot@.1));
                        one(self.registry.notify(&recipients, text))
                    },
                    Err(e) => {
                        let text = ClientMessage::error(e.to_string()).to_frame();
                        let mut recipients: Vec<ClientId> = Vec::new();
                        recipients.push(client_id);
                        assert(recipients@ =~= seq![client_id]);
                        one(self.registry.notify(&recipients, text))
                    },
                }
            },
            ClientAction::JoinLobby { name } => {
                match self.registry.join_lobby(client_id, name) {
                    Ok(done) => one(done),
                    Err(_) => none(),
                }
            },
            ClientAction::LeaveLobby => {
                match self.registry.leave_lobby(client_id) {
                    Ok(done) => one(done),
                    Err(_) => none(),
                }
            },
        }
    }

    /// Reads the frame `text` of `client_id` and does what it asks for. A
    /// malformed frame is dropped: nothing changes and nothing goes out.
    pub fn handle_frame(&mut self, client_id: ClientId, text: &str) -> (done: Vec<Fanout>)
        ensures
            final(self)@ == old(self)@.receive(client_id, text@).broker,
            notes_of(done@) == old(self)@.receive(client_id, text@).notes,
    {
        match ClientAction::decode(text) {
            Some(action) => self.handle_action(client_id, action),
            None => none(),
        }
    }

    /// Cleans up after the connection `client_id`: the client is
    /// unregistered, every game in which it played is taken off the
    /// table, and the player left behind in each is told so if still
    /// connected. A second call for the same client changes nothing and
    /// tells nobody.
    pub fn disconnect(&mut self, client_id: ClientId) -> (done: Vec<Fanout>)
        ensures
            final(self)@ == old(self)@.depart(client_id),
            final(self)@.wf(),
            exists|deps: Seq<Departure>|
                departures_of(deps, old(self)@.sessions, client_id) && notes_of(done@)
                    == #[trigger] farewells(deps, final(self)@.registry),
    {
        self.registry.unregister(client_id);
        let notes = self.sessions.remove_player_sessions(client_id);
        let mut done: Vec<Fanout> = Vec::new();
        let mut i: usize = 0;
        while i < notes.len()
            invariant
                i <= notes@.len(),
                done@.len() == i,
                forall|k: int|
                    0 <= k < i ==> (#[trigger] done@[k])@ == farewell(notes@[k], self.registry@),
            decreases notes@.len() - i,
        {
            let text = ClientMessage::opponent_left(notes[i].session_id).to_frame();
            let mut recipients: Vec<ClientId> = Vec::new();
            recipients.push(notes[i].opponent);
            assert(recipients@ =~= seq![notes@[i as int].opponent]);
            done.push(self.registry.notify(&recipients, text));
            i += 1;
        }
        assert(notes_of(done@) =~= farewells(notes@, self.registry@));
        done
    }
}

} // verus!
