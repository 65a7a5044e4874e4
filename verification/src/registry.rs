//! The registry of connected clients: who is connected, who is in the
//! lobby, and the fan-out of messages to them.

use vstd::prelude::*;
use crate::client::{frame_text, ClientMessage};
use crate::conduit::{deliver, handle_ids, position, ClientHandle, Conduit, Fanout};
use crate::ident::{is_random_uuid, ClientId};
use crate::lobby::{
    among, connected_members, distinct_ids, has_member, lemma_with_player, lemma_without, roster_ids,
    roster_message, with_player, without, Lobby, Player, PlayerView, Roster,
};
use crate::seqs::{
    lemma_filter_drops_one, lemma_filter_keeps_all, lemma_filter_members,
    lemma_filter_no_duplicates, lemma_filter_step,
};

verus! {

/// Who a broadcast goes to.
#[derive(Clone, Copy, Debug, PartialEq, Eq, Structural)]
pub enum BroadcastScope {
    /// Every connected client but the sender.
    AllExceptSender,
    /// Every member of the lobby, the sender too if it is one.
    LobbyOnly,
}

/// Why a message did not reach a client's queue.
#[derive(Clone, Copy, Debug, PartialEq, Eq, Structural)]
pub enum SendError {
    /// No client is connected under that identifier.
    Unknown,
    /// The client's queue is closed.
    Closed,
}

/// The test that every client but `id` passes.
pub open spec fn not_client(id: ClientId) -> spec_fn(ClientId) -> bool {
    |c: ClientId| c != id
}

/// The clients of `clients` other than `id`.
pub open spec fn drop_client(clients: Seq<ClientId>, id: ClientId) -> Seq<ClientId> {
    clients.filter(not_client(id))
}

/// The mathematical model of the registry.
pub struct RegistryView {
    /// The connected clients, in the order in which they were registered.
    pub clients: Seq<ClientId>,
    /// The members of the lobby, in the order in which they joined.
    pub lobby: Roster,
}

impl RegistryView {
    pub open spec fn empty() -> RegistryView {
        RegistryView { clients: Seq::empty(), lobby: Seq::empty() }
    }

    /// No client is connected twice, no client is in the lobby twice, and
    /// every member of the lobby is connected.
    pub open spec fn wf(self) -> bool {
        &&& self.clients.no_duplicates()
        &&& distinct_ids(self.lobby)
        &&& forall|i: int|
            0 <= i < self.lobby.len() ==> self.clients.contains((#[trigger] self.lobby[i]).id)
    }

    pub open spec fn connected(self, id: ClientId) -> bool {
        self.clients.contains(id)
    }

    pub open spec fn in_lobby(self, id: ClientId) -> bool {
        has_member(self.lobby, id)
    }

    /// Some connected client goes under the identifier of a random UUID:
    /// only then can a freshly drawn identifier be in use.
    pub open spec fn holds_random_id(self) -> bool {
        exists|c: ClientId| #[trigger] self.connected(c) && is_random_uuid(c.0)
    }

    /// The registry after `id` asked to be taken in: registered, unless
    /// the identifier is in use.
    pub open spec fn accept(self, id: ClientId) -> RegistryView {
        if self.connected(id) {
            self
        } else {
            self.register(id)
        }
    }

    pub open spec fn register(self, id: ClientId) -> RegistryView {
        RegistryView { clients: self.clients.push(id), lobby: self.lobby }
    }

    pub open spec fn unregister(self, id: ClientId) -> RegistryView {
        RegistryView { clients: drop_client(self.clients, id), lobby: without(self.lobby, id) }
    }

    pub open spec fn join(self, id: ClientId, name: Seq<char>) -> RegistryView {
        if self.connected(id) {
            RegistryView {
                clients: self.clients,
                lobby: with_player(self.lobby, PlayerView { id, name }),
            }
        } else {
            self
        }
    }

    pub open spec fn leave(self, id: ClientId) -> RegistryView {
        RegistryView { clients: self.clients, lobby: without(self.lobby, id) }
    }

    /// The clients that a broadcast of `sender` in `scope` goes to, in
    /// order.
    pub open spec fn targets(self, sender: ClientId, scope: BroadcastScope) -> Seq<ClientId> {
        match scope {
            BroadcastScope::AllExceptSender => drop_client(self.clients, sender),
            BroadcastScope::LobbyOnly => roster_ids(self.lobby),
        }
    }
}

/// A broadcast to all but the sender reaches exactly the connected
/// clients other than the sender; a broadcast to the lobby reaches exactly
/// its members, the sender among them if it is one.
pub proof fn lemma_broadcast_scope(v: RegistryView, sender: ClientId, client: ClientId)
    ensures
        v.targets(sender, BroadcastScope::AllExceptSender).contains(client) <==> v.connected(client)
            && client != sender,
        !v.targets(sender, BroadcastScope::AllExceptSender).contains(sender),
        v.targets(sender, BroadcastScope::LobbyOnly).contains(client) <==> v.in_lobby(client),
        v.in_lobby(sender) ==> v.targets(sender, BroadcastScope::LobbyOnly).contains(sender),
{
    lemma_filter_members(v.clients, not_client(sender));
    lemma_roster_ids(v.lobby, client);
    lemma_roster_ids(v.lobby, sender);
}

/// The identifiers of a roster are those of its members.
pub proof fn lemma_roster_ids(roster: Roster, id: ClientId)
    ensures
        roster_ids(roster).contains(id) <==> has_member(roster, id),
{
    let ids = roster_ids(roster);
    if ids.contains(id) {
        let k = choose|k: int| 0 <= k < ids.len() && ids[k] == id;
        assert(roster[k].id == id);
    }
    if has_member(roster, id) {
        let k = choose|k: int| 0 <= k < roster.len() && (#[trigger] roster[k]).id == id;
        assert(ids[k] == id);
    }
}

/// Unregistering a client a second time changes nothing.
pub proof fn lemma_unregister_twice(v: RegistryView, id: ClientId)
    ensures
        v.unregister(id).unregister(id) == v.unregister(id),
        !v.unregister(id).connected(id),
        !v.unregister(id).in_lobby(id),
{
    let pred = not_client(id);
    let once = drop_client(v.clients, id);
    lemma_filter_members(v.clients, pred);
    assert forall|i: int| 0 <= i < once.len() implies pred(#[trigger] once[i]) by {
        assert(once.contains(once[i]));
    }
    lemma_filter_keeps_all(once, pred);
    lemma_without(v.lobby, id);
    lemma_without(without(v.lobby, id), id);
}

/// Dropping a client from a list without duplicates removes its one
/// entry, and changes nothing where it has none.
pub proof fn lemma_drop_client(clients: Seq<ClientId>, id: ClientId, i: int)
    requires
        clients.no_duplicates(),
    ensures
        0 <= i < clients.len() && clients[i] == id ==> drop_client(clients, id) == clients.remove(i),
        !clients.contains(id) ==> drop_client(clients, id) == clients,
{
    let pred = not_client(id);
    if 0 <= i < clients.len() && clients[i] == id {
        assert forall|j: int| 0 <= j < clients.len() && j != i implies pred(
            #[trigger] clients[j],
        ) by {}
        lemma_filter_drops_one(clients, pred, i);
    }
    if !clients.contains(id) {
        assert forall|j: int| 0 <= j < clients.len() implies pred(#[trigger] clients[j]) by {
            if clients[j] == id {
                assert(clients.contains(id));
            }
        }
        lemma_filter_keeps_all(clients, pred);
    }
}

/// Unregistering keeps the registry well formed and leaves no trace of
/// the client.
pub proof fn lemma_unregister(v: RegistryView, id: ClientId)
    requires
        v.wf(),
    ensures
        v.unregister(id).wf(),
        !v.unregister(id).connected(id),
        !v.unregister(id).in_lobby(id),
{
    lemma_registry_wf(v, id, Seq::empty());
    lemma_unregister_twice(v, id);
}

/// Every operation of the registry keeps it well formed.
pub proof fn lemma_registry_wf(v: RegistryView, id: ClientId, name: Seq<char>)
    requires
        v.wf(),
    ensures
        !v.connected(id) ==> v.register(id).wf(),
        v.unregister(id).wf(),
        v.join(id, name).wf(),
        v.leave(id).wf(),
{
    if !v.connected(id) {
        let r = v.register(id);
        assert forall|i: int| 0 <= i < r.lobby.len() implies r.clients.contains(
            (#[trigger] r.lobby[i]).id,
        ) by {
            let k = choose|k: int| 0 <= k < v.clients.len() && v.clients[k] == v.lobby[i].id;
            assert(r.clients[k] == v.lobby[i].id);
        }
    }
    lemma_without(v.lobby, id);
    let pred = not_client(id);
    lemma_filter_members(v.clients, pred);
    lemma_filter_no_duplicates(v.clients, pred);
    let w = without(v.lobby, id);
    assert forall|i: int| 0 <= i < w.len() implies v.clients.contains((#[trigger] w[i]).id)
        && w[i].id != id by {
        assert(has_member(v.lobby, w[i].id));
        let k = choose|k: int| 0 <= k < v.lobby.len() && (#[trigger] v.lobby[k]).id == w[i].id;
        assert(v.clients.contains(v.lobby[k].id));
        if w[i].id == id {
            assert(has_member(w, id));
        }
    }
    assert forall|i: int| 0 <= i < w.len() implies drop_client(v.clients, id).contains(
        (#[trigger] w[i]).id,
    ) by {
        assert(v.clients.contains(w[i].id) && w[i].id != id);
    }
    if v.connected(id) {
        lemma_with_player(v.lobby, PlayerView { id, name });
    }
}

/// In a well-formed registry every member of the lobby is connected, so
/// a fan-out to the lobby leaves nobody out.
pub proof fn lemma_lobby_connected(v: RegistryView)
    requires
        v.wf(),
    ensures
        connected_members(v.lobby, v.clients) == roster_ids(v.lobby),
{
    let ids = roster_ids(v.lobby);
    let pred = among(v.clients);
    assert forall|i: int| 0 <= i < ids.len() implies pred(#[trigger] ids[i]) by {
        assert(v.clients.contains(v.lobby[i].id));
    }
    lemma_filter_keeps_all(ids, pred);
}

/// The registry of connected clients.
pub struct ClientRegistry {
    clients: Vec<ClientHandle>,
    lobby: Lobby,
}

impl View for ClientRegistry {
    type V = RegistryView;

    closed spec fn view(&self) -> RegistryView {
        RegistryView { clients: handle_ids(self.clients@), lobby: self.lobby@ }
    }
}

impl ClientRegistry {
    #[verifier::type_invariant]
    closed spec fn inv(self) -> bool {
        self@.wf()
    }

    /// A registry without clients.
    pub fn new() -> (registry: ClientRegistry)
        ensures
            registry@ == RegistryView::empty(),
            registry@.wf(),
    {
        let registry = ClientRegistry { clients: Vec::new(), lobby: Lobby::new() };
        assert(registry@.clients =~= Seq::<ClientId>::empty());
        registry
    }

    /// Whether a client is connected under `client_id`.
    pub fn is_connected(&self, client_id: ClientId) -> (found: bool)
        ensures
            found == self@.connected(client_id),
            self@.wf(),
    {
        proof {
            use_type_invariant(self);
        }
        match position(&self.clients, client_id) {
            Some(i) => {
                assert(handle_ids(self.clients@)[i as int] == client_id);
                true
            },
            None => false,
        }
    }

    /// Whether `client_id` is a member of the lobby.
    pub fn in_lobby(&self, client_id: ClientId) -> (found: bool)
        ensures
            found == self@.in_lobby(client_id),
    {
        self.lobby.contains(client_id)
    }

    /// The name under which `client_id` is in the lobby.
    pub fn display_name(&self, client_id: ClientId) -> (name: Option<String>)
        ensures
            match name {
                Some(n) => exists|i: int|
                    0 <= i < self@.lobby.len() && #[trigger] self@.lobby[i] == (PlayerView {
                        id: client_id,
                        name: n@,
                    }),
                None => !self@.in_lobby(client_id),
            },
    {
        let name = self.lobby.name_of(client_id);
        proof {
            if name is Some {
                let n = name->Some_0;
                let i = choose|i: int|
                    0 <= i < self.lobby@.len() && #[trigger] self.lobby@[i] == (PlayerView {
                        id: client_id,
                        name: n@,
                    });
                assert(self@.lobby[i] == (PlayerView { id: client_id, name: n@ }));
            }
        }
        name
    }

    /// The number of connected clients.
    pub fn len(&self) -> (n: usize)
        ensures
            n == self@.clients.len(),
    {
        self.clients.len()
    }

    /// The message that lists the members of the lobby.
    pub fn player_list(&self) -> (m: ClientMessage)
        ensures
            m@ == roster_message(self@.lobby),
    {
        self.lobby.player_list()
    }

    /// Takes in a new connection under `client_id`, which is not in use.
    pub fn register(&mut self, client_id: ClientId, outbound: Conduit)
        requires
            !old(self)@.connected(client_id),
        ensures
            final(self)@ == old(self)@.register(client_id),
            final(self)@.wf(),
    {
        proof {
            use_type_invariant(&*self);
            lemma_registry_wf(self@, client_id, Seq::empty());
        }
        let mut taken = ClientRegistry::new();
        core::mem::swap(self, &mut taken);
        let ClientRegistry { mut clients, lobby } = taken;
        clients.push(ClientHandle::new(client_id, outbound));
        assert(handle_ids(clients@) =~= old(self)@.clients.push(client_id));
        *self = ClientRegistry { clients, lobby };
    }

    /// Takes in a new connection under `client_id` and hands the
    /// identifier back, unless a client is connected under it already:
    /// then the connection is turned away and nothing changes.
    pub fn accept(&mut self, client_id: ClientId, outbound: Conduit) -> (r: Option<ClientId>)
        ensures
            final(self)@.wf(),
            final(self)@ == old(self)@.accept(client_id),
            r == if old(self)@.connected(client_id) {
                None
            } else {
                Some(client_id)
            },
    {
        proof {
            use_type_invariant(&*self);
        }
        if self.is_connected(client_id) {
            None
        } else {
            self.register(client_id, outbound);
            Some(client_id)
        }
    }

    /// Takes in a new connection under a fresh random identifier, and
    /// hands the identifier back. The identifier is that of a random
    /// UUID. The connection is turned away, and nothing changes, only
    /// where the identifier drawn is in use; that cannot happen while no
    /// client is connected under a random UUID.
    pub fn connect(&mut self, outbound: Conduit) -> (r: Option<ClientId>)
        ensures
            final(self)@.wf(),
            match r {
                Some(id) => is_random_uuid(id.0) && !old(self)@.connected(id) && final(self)@
                    == old(self)@.register(id),
                None => final(self)@ == old(self)@ && old(self)@.holds_random_id(),
            },
    {
        let id = ClientId::generate();
        self.accept(id, outbound)
    }

    /// Forgets the connection `client_id`: it is connected no more and is
    /// no member of the lobby. Nothing changes where it was not connected.
    pub fn unregister(&mut self, client_id: ClientId)
        ensures
            final(self)@ == old(self)@.unregister(client_id),
            final(self)@.wf(),
            !final(self)@.connected(client_id),
            !final(self)@.in_lobby(client_id),
    {
        proof {
            use_type_invariant(&*self);
        }
        let ghost before = self@;
        let ghost goal = before.unregister(client_id);
        let mut taken = ClientRegistry::new();
        core::mem::swap(self, &mut taken);
        let ClientRegistry { mut clients, mut lobby } = taken;
        let ghost ids = handle_ids(clients@);
        match position(&clients, client_id) {
            Some(i) => {
                clients.remove(i);
                assert(handle_ids(clients@) == goal.clients) by {
                    assert(ids[i as int] == client_id);
                    lemma_drop_client(ids, client_id, i as int);
                    assert(handle_ids(clients@) =~= ids.remove(i as int));
                }
            },
            None => {
                assert(handle_ids(clients@) == goal.clients) by {
                    lemma_drop_client(ids, client_id, 0);
                }
            },
        }
        lobby.remove_player(client_id);
        proof {
            lemma_unregister(before, client_id);
        }
        *self = ClientRegistry { clients, lobby };
    }

    /// Offers `message` to the queue of `client_id`.
    ///
    /// The error is `Unknown` exactly when no such client is connected.
    /// Otherwise the queue decides: `Closed` tells that it refused.
    pub fn send_to(&self, client_id: ClientId, message: String) -> (r: Result<(), SendError>)
        ensures
            r == Err::<(), SendError>(SendError::Unknown) <==> !self@.connected(client_id),
    {
        match position(&self.clients, client_id) {
            None => Err(SendError::Unknown),
            Some(i) => {
                assert(handle_ids(self.clients@)[i as int] == client_id);
                if self.clients[i].send(message) {
                    Ok(())
                } else {
                    Err(SendError::Closed)
                }
            },
        }
    }

    /// The handles that a broadcast of `sender_id` in `scope` goes to: a
    /// copy of the registry's own, to be used once the registry is let go.
    pub fn snapshot(&self, sender_id: ClientId, scope: BroadcastScope) -> (targets: Vec<
        ClientHandle,
    >)
        ensures
            handle_ids(targets@) == self@.targets(sender_id, scope),
            self@.wf(),
    {
        proof {
            use_type_invariant(self);
        }
        match scope {
            BroadcastScope::LobbyOnly => {
                proof {
                    lemma_lobby_connected(self@);
                }
                self.lobby.snapshot(&self.clients)
            },
            BroadcastScope::AllExceptSender => {
                let ghost ids = handle_ids(self.clients@);
                let ghost pred = not_client(sender_id);
                let mut targets: Vec<ClientHandle> = Vec::new();
                let mut i: usize = 0;
                proof {
                    reveal(Seq::filter);
                    assert(ids.take(0) =~= Seq::<ClientId>::empty());
                    assert(handle_ids(targets@) =~= ids.take(0).filter(pred));
                }
                while i < self.clients.len()
                    invariant
                        i <= self.clients@.len(),
                        ids == handle_ids(self.clients@),
                        pred == not_client(sender_id),
                        handle_ids(targets@) == ids.take(i as int).filter(pred),
                    decreases self.clients@.len() - i,
                {
                    proof {
                        lemma_filter_step(ids, pred, i as int);
                    }
                    if self.clients[i].id != sender_id {
                        let ghost before = handle_ids(targets@);
                        targets.push(self.clients[i].share());
                        proof {
                            assert(handle_ids(targets@) =~= before.push(ids[i as int]));
                        }
                    }
                    i += 1;
                }
                proof {
                    assert(ids.take(i as int) =~= ids);
                }
                targets
            },
        }
    }

    /// Offers `message` to every client that `scope` names: all connected
    /// clients but `sender_id`, or all members of the lobby. A queue that
    /// refuses does not stop the others being tried.
    pub fn broadcast(&self, sender_id: ClientId, message: String, scope: BroadcastScope) -> (done:
        Fanout)
        ensures
            done.text@ == message@,
            done.targets() == self@.targets(sender_id, scope),
            self@.wf(),
    {
        let targets = self.snapshot(sender_id, scope);
        deliver(&targets, message)
    }

    /// Offers `message` to those of `recipients` that are connected, in
    /// the order given.
    pub fn notify(&self, recipients: &Vec<ClientId>, message: String) -> (done: Fanout)
        ensures
            done.text@ == message@,
            done.targets() == recipients@.filter(among(self@.clients)),
            self@.wf(),
    {
        proof {
            use_type_invariant(self);
        }
        let ghost pred = among(handle_ids(self.clients@));
        let mut targets: Vec<ClientHandle> = Vec::new();
        let mut i: usize = 0;
        proof {
            reveal(Seq::filter);
            assert(recipients@.take(0) =~= Seq::<ClientId>::empty());
            assert(handle_ids(targets@) =~= recipients@.take(0).filter(pred));
        }
        while i < recipients.len()
            invariant
                i <= recipients@.len(),
                pred == among(handle_ids(self.clients@)),
                handle_ids(targets@) == recipients@.take(i as int).filter(pred),
            decreases recipients@.len() - i,
        {
            proof {
                lemma_filter_step(recipients@, pred, i as int);
            }
            match position(&self.clients, recipients[i]) {
                Some(k) => {
                    let ghost before = handle_ids(targets@);
                    targets.push(self.clients[k].share());
                    proof {
                        assert(handle_ids(self.clients@)[k as int] == recipients@[i as int]);
                        assert(handle_ids(targets@) =~= before.push(recipients@[i as int]));
                    }
                },
                None => {},
            }
            i += 1;
        }
        proof {
            assert(recipients@.take(i as int) =~= recipients@);
        }
        deliver(&targets, message)
    }

    /// Makes the connected client `client_id` a member of the lobby under
    /// `display_name` and tells every member, the new one too, who is in
    /// the lobby now. A client that is not connected is refused with
    /// `Unknown`, and nothing changes.
    pub fn join_lobby(&mut self, client_id: ClientId, display_name: String) -> (r: Result<
        Fanout,
        SendError,
    >)
        ensures
            final(self)@.wf(),
            final(self)@ == old(self)@.join(client_id, display_name@),
            match r {
                Ok(done) => old(self)@.connected(client_id) && done.text@ == frame_text(
                    roster_message(final(self)@.lobby),
                ) && done.targets() == roster_ids(final(self)@.lobby),
                Err(e) => e == SendError::Unknown && !old(self)@.connected(client_id),
            },
    {
        proof {
            use_type_invariant(&*self);
            lemma_registry_wf(self@, client_id, display_name@);
        }
        if !self.is_connected(client_id) {
            return Err(SendError::Unknown);
        }
        let mut taken = ClientRegistry::new();
        core::mem::swap(self, &mut taken);
        let ClientRegistry { clients, mut lobby } = taken;
        let done = lobby.join_lobby(Player { id: client_id, name: display_name }, &clients);
        *self = ClientRegistry { clients, lobby };
        proof {
            lemma_lobby_connected(self@);
        }
        Ok(done)
    }

    /// Takes the connected client `client_id` out of the lobby and tells
    /// the members that remain, and then the one who left, who is in the
    /// lobby now. A client that is not connected is refused with
    /// `Unknown`, and nothing changes.
    pub fn leave_lobby(&mut self, client_id: ClientId) -> (r: Result<Fanout, SendError>)
        ensures
            final(self)@.wf(),
            match r {
                Ok(done) => old(self)@.connected(client_id) && final(self)@ == old(self)@.leave(
                    client_id,
                ) && done.text@ == frame_text(roster_message(final(self)@.lobby))
                    && done.targets() == roster_ids(final(self)@.lobby) + seq![client_id],
                Err(e) => e == SendError::Unknown && !old(self)@.connected(client_id)
                    && final(self)@ == old(self)@,
            },
    {
        proof {
            use_type_invariant(&*self);
            lemma_registry_wf(self@, client_id, Seq::empty());
        }
        if !self.is_connected(client_id) {
            return Err(SendError::Unknown);
        }
        let mut taken = ClientRegistry::new();
        core::mem::swap(self, &mut taken);
        let ClientRegistry { clients, mut lobby } = taken;
        let done = lobby.leave_lobby(client_id, &clients);
        *self = ClientRegistry { clients, lobby };
        proof {
            lemma_lobby_connected(self@);
        }
        Ok(done)
    }
}

} // verus!
