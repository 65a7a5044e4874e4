//! The lobby: the clients who have asked to be seen, each under a name.

use vstd::prelude::*;
use crate::client::{frame_text, ClientMessage, MessageView};
use crate::conduit::{deliver, handle_ids, position, ClientHandle, Fanout};
use crate::ident::ClientId;
use crate::seqs::{lemma_filter_drops_one, lemma_filter_keeps_all, lemma_filter_step};

verus! {

/// One member of the lobby.
#[derive(Debug)]
pub struct Player {
    pub id: ClientId,
    pub name: String,
}

/// The mathematical model of a lobby member.
pub struct PlayerView {
    pub id: ClientId,
    pub name: Seq<char>,
}

impl View for Player {
    type V = PlayerView;

    open spec fn view(&self) -> PlayerView {
        PlayerView { id: self.id, name: self.name@ }
    }
}

impl Clone for Player {
    fn clone(&self) -> (copy: Player)
        ensures
            copy@ == self@,
    {
        Player { id: self.id, name: self.name.clone() }
    }
}

/// The mathematical model of the lobby: its members in the order in which
/// they joined.
pub type Roster = Seq<PlayerView>;

/// The views of a list of players.
pub open spec fn roster_of(players: Seq<Player>) -> Roster {
    players.map_values(|p: Player| p@)
}

pub open spec fn roster_ids(roster: Roster) -> Seq<ClientId> {
    roster.map_values(|p: PlayerView| p.id)
}

/// No two members share an identifier.
pub open spec fn distinct_ids(roster: Roster) -> bool {
    forall|i: int, j: int|
        0 <= i < j < roster.len() ==> (#[trigger] roster[i]).id != (#[trigger] roster[j]).id
}

pub open spec fn has_member(roster: Roster, id: ClientId) -> bool {
    exists|i: int| 0 <= i < roster.len() && (#[trigger] roster[i]).id == id
}

/// The test that every member but `id` passes.
pub open spec fn not_player(id: ClientId) -> spec_fn(PlayerView) -> bool {
    |p: PlayerView| p.id != id
}

/// The test that the clients among `connected` pass.
pub open spec fn among(connected: Seq<ClientId>) -> spec_fn(ClientId) -> bool {
    |c: ClientId| connected.contains(c)
}

/// The roster without the member `id`.
pub open spec fn without(roster: Roster, id: ClientId) -> Roster {
    roster.filter(not_player(id))
}

/// The roster in which `player` is the member who joined last.
pub open spec fn with_player(roster: Roster, player: PlayerView) -> Roster {
    without(roster, player.id).push(player)
}

/// The members of the roster that are among `connected`, in the order of
/// the roster.
pub open spec fn connected_members(roster: Roster, connected: Seq<ClientId>) -> Seq<ClientId> {
    roster_ids(roster).filter(among(connected))
}

/// The message that lists the members of a roster.
pub open spec fn roster_message(roster: Roster) -> MessageView {
    MessageView::PlayerList { players: roster }
}

/// Taking a member out leaves the others as they were, and nobody under
/// that identifier.
pub proof fn lemma_without(roster: Roster, id: ClientId)
    ensures
        !has_member(without(roster, id), id),
        forall|k: int|
            0 <= k < without(roster, id).len() ==> has_member(
                roster,
                (#[trigger] without(roster, id)[k]).id,
            ),
        forall|other: ClientId|
            other != id ==> (has_member(without(roster, id), other) <==> has_member(roster, other)),
        distinct_ids(roster) ==> distinct_ids(without(roster, id)),
        !has_member(roster, id) ==> without(roster, id) == roster,
    decreases roster.len(),
{
    reveal(Seq::filter);
    let pred = not_player(id);
    let w = without(roster, id);
    if roster.len() > 0 {
        let t = roster.drop_last();
        let x = roster.last();
        let wt = without(t, id);
        lemma_without(t, id);
        assert(w == if pred(x) {
            wt.push(x)
        } else {
            wt
        });
        assert forall|k: int| 0 <= k < w.len() implies has_member(roster, (#[trigger] w[k]).id) by {
            if k < wt.len() {
                assert(has_member(t, wt[k].id));
                let j = choose|j: int| 0 <= j < t.len() && (#[trigger] t[j]).id == wt[k].id;
                assert(roster[j].id == w[k].id);
            } else {
                assert(roster[roster.len() - 1].id == w[k].id);
            }
        }
        assert forall|other: ClientId| other != id implies (has_member(w, other) <==> has_member(
            roster,
            other,
        )) by {
            if has_member(w, other) {
                let k = choose|k: int| 0 <= k < w.len() && (#[trigger] w[k]).id == other;
                assert(has_member(roster, w[k].id));
            }
            if has_member(roster, other) {
                let j = choose|j: int| 0 <= j < roster.len() && (#[trigger] roster[j]).id == other;
                if j == roster.len() - 1 {
                    assert(w[wt.len() as int].id == other);
                } else {
                    assert(t[j].id == other);
                    assert(has_member(t, other));
                    assert(has_member(wt, other));
                    let k = choose|k: int| 0 <= k < wt.len() && (#[trigger] wt[k]).id == other;
                    assert(w[k].id == other);
                }
            }
        }
        if has_member(w, id) {
            let k = choose|k: int| 0 <= k < w.len() && (#[trigger] w[k]).id == id;
            if k < wt.len() {
                assert(wt[k].id == id);
                assert(has_member(wt, id));
            }
        }
        if distinct_ids(roster) {
            assert forall|i: int, j: int| 0 <= i < j < t.len() implies (#[trigger] t[i]).id != (
            #[trigger] t[j]).id by {
                assert(t[i] == roster[i] && t[j] == roster[j]);
            }
            assert forall|i: int, j: int| 0 <= i < j < w.len() implies (#[trigger] w[i]).id != (
            #[trigger] w[j]).id by {
                if j == wt.len() {
                    assert(has_member(t, wt[i].id));
                    let n = choose|n: int| 0 <= n < t.len() && (#[trigger] t[n]).id == wt[i].id;
                    assert(roster[n].id == wt[i].id);
                    assert(roster[roster.len() - 1] == x);
                } else {
                    assert(wt[i] == w[i] && wt[j] == w[j]);
                }
            }
        }
        if !has_member(roster, id) {
            assert forall|i: int| 0 <= i < roster.len() implies pred(#[trigger] roster[i]) by {
                if roster[i].id == id {
                    assert(has_member(roster, id));
                }
            }
            lemma_filter_keeps_all(roster, pred);
        }
    } else {
        assert(w =~= roster);
    }
}

/// Adding a member keeps the identifiers distinct.
pub proof fn lemma_with_player(roster: Roster, player: PlayerView)
    requires
        distinct_ids(roster),
    ensures
        distinct_ids(with_player(roster, player)),
        has_member(with_player(roster, player), player.id),
        forall|other: ClientId|
            other != player.id ==> (has_member(with_player(roster, player), other) <==> has_member(
                roster,
                other,
            )),
{
    lemma_without(roster, player.id);
    let w = without(roster, player.id);
    let n = with_player(roster, player);
    assert forall|i: int, j: int| 0 <= i < j < n.len() implies (#[trigger] n[i]).id != (
    #[trigger] n[j]).id by {
        if j == w.len() {
            if w[i].id == player.id {
                assert(has_member(w, player.id));
            }
        } else {
            assert(n[i] == w[i] && n[j] == w[j]);
        }
    }
    assert(n[w.len() as int].id == player.id);
    assert forall|other: ClientId| other != player.id implies (has_member(n, other) <==> has_member(
        roster,
        other,
    )) by {
        if has_member(n, other) {
            let k = choose|k: int| 0 <= k < n.len() && (#[trigger] n[k]).id == other;
            assert(w[k].id == other);
            assert(has_member(w, other));
        }
        if has_member(roster, other) {
            assert(has_member(w, other));
            let k = choose|k: int| 0 <= k < w.len() && (#[trigger] w[k]).id == other;
            assert(n[k].id == other);
        }
    }
}

/// The lobby.
#[derive(Debug)]
pub struct Lobby {
    players: Vec<Player>,
}

impl View for Lobby {
    type V = Roster;

    closed spec fn view(&self) -> Roster {
        roster_of(self.players@)
    }
}

impl Lobby {
    #[verifier::type_invariant]
    closed spec fn inv(self) -> bool {
        distinct_ids(roster_of(self.players@))
    }

    /// A lobby without members.
    pub fn new() -> (lobby: Lobby)
        ensures
            lobby@ == Seq::<PlayerView>::empty(),
    {
        let lobby = Lobby { players: Vec::new() };
        assert(lobby@ =~= Seq::<PlayerView>::empty());
        lobby
    }

    fn find(&self, player_id: ClientId) -> (found: Option<usize>)
        ensures
            distinct_ids(self@),
            match found {
                Some(i) => i < self.players@.len() && self.players@[i as int].id == player_id,
                None => !has_member(self@, player_id),
            },
    {
        proof {
            use_type_invariant(self);
        }
        let mut i: usize = 0;
        while i < self.players.len()
            invariant
                i <= self.players@.len(),
                distinct_ids(roster_of(self.players@)),
                forall|k: int| 0 <= k < i ==> (#[trigger] self.players@[k]).id != player_id,
            decreases self.players@.len() - i,
        {
            if self.players[i].id == player_id {
                return Some(i);
            }
            i += 1;
        }
        proof {
            if has_member(self@, player_id) {
                let k = choose|k: int|
                    0 <= k < self@.len() && (#[trigger] self@[k]).id == player_id;
                assert(self.players@[k].id == player_id);
            }
        }
        None
    }

    /// Whether `player_id` is a member.
    pub fn contains(&self, player_id: ClientId) -> (found: bool)
        ensures
            found == has_member(self@, player_id),
            distinct_ids(self@),
    {
        match self.find(player_id) {
            Some(i) => {
                assert(self@[i as int].id == player_id);
                true
            },
            None => false,
        }
    }

    /// The name under which `player_id` is a member.
    pub fn name_of(&self, player_id: ClientId) -> (name: Option<String>)
        ensures
            match name {
                Some(n) => exists|i: int|
                    0 <= i < self@.len() && #[trigger] self@[i] == (PlayerView {
                        id: player_id,
                        name: n@,
                    }),
                None => !has_member(self@, player_id),
            },
    {
        match self.find(player_id) {
            Some(i) => {
                let name = self.players[i].name.clone();
                assert(self@[i as int] == (PlayerView { id: player_id, name: name@ }));
                Some(name)
            },
            None => None,
        }
    }

    /// The number of members.
    pub fn len(&self) -> (n: usize)
        ensures
            n == self@.len(),
    {
        self.players.len()
    }

    /// A copy of the members, in the order in which they joined.
    pub fn members(&self) -> (list: Vec<Player>)
        ensures
            roster_of(list@) == self@,
    {
        let mut list: Vec<Player> = Vec::new();
        let mut i: usize = 0;
        while i < self.players.len()
            invariant
                i <= self.players@.len(),
                list@.len() == i,
                forall|k: int| 0 <= k < i ==> (#[trigger] list@[k])@ == self.players@[k]@,
            decreases self.players@.len() - i,
        {
            list.push(self.players[i].clone());
            i += 1;
        }
        assert(roster_of(list@) =~= self@);
        list
    }

    /// Takes the member `player_id` out, if there is one.
    pub fn remove_player(&mut self, player_id: ClientId)
        ensures
            final(self)@ == without(old(self)@, player_id),
            distinct_ids(final(self)@),
            !has_member(final(self)@, player_id),
    {
        proof {
            use_type_invariant(&*self);
            lemma_without(self@, player_id);
        }
        match self.find(player_id) {
            None => {},
            Some(i) => {
                let ghost before = self@;
                let mut players: Vec<Player> = Vec::new();
                proof {
                    assert(roster_of(players@) =~= Seq::<PlayerView>::empty());
                }
                core::mem::swap(&mut self.players, &mut players);
                players.remove(i);
                proof {
                    let pred = not_player(player_id);
                    assert forall|j: int| 0 <= j < before.len() && j != i implies pred(
                        #[trigger] before[j],
                    ) by {
                        if j < i {
                            assert(before[j].id != before[i as int].id);
                        } else {
                            assert(before[i as int].id != before[j].id);
                        }
                    }
                    lemma_filter_drops_one(before, pred, i as int);
                    assert(roster_of(players@) =~= before.remove(i as int));
                }
                self.players = players;
            },
        }
    }

    /// Makes `player` a member. A member with the same identifier gives
    /// way to the new one.
    pub fn add_player(&mut self, player: Player)
        ensures
            final(self)@ == with_player(old(self)@, player@),
            distinct_ids(final(self)@),
            has_member(final(self)@, player.id),
    {
        proof {
            use_type_invariant(&*self);
            lemma_with_player(self@, player@);
        }
        self.remove_player(player.id);
        let ghost rest = self@;
        let mut players: Vec<Player> = Vec::new();
        proof {
            assert(roster_of(players@) =~= Seq::<PlayerView>::empty());
        }
        core::mem::swap(&mut self.players, &mut players);
        players.push(player);
        proof {
            assert(roster_of(players@) =~= rest.push(player@));
        }
        self.players = players;
    }

    /// The handles of the members that are among `clients`, in the order
    /// of the lobby: what a fan-out to the lobby is handed.
    pub fn snapshot(&self, clients: &Vec<ClientHandle>) -> (targets: Vec<ClientHandle>)
        ensures
            handle_ids(targets@) == connected_members(self@, handle_ids(clients@)),
    {
        let ghost ids = roster_ids(self@);
        let ghost connected = handle_ids(clients@);
        let ghost pred = among(connected);
        let mut targets: Vec<ClientHandle> = Vec::new();
        let mut i: usize = 0;
        proof {
            reveal(Seq::filter);
            assert(ids.take(0) =~= Seq::<ClientId>::empty());
            assert(handle_ids(targets@) =~= ids.take(0).filter(pred));
        }
        while i < self.players.len()
            invariant
                i <= self.players@.len(),
                ids == roster_ids(roster_of(self.players@)),
                connected == handle_ids(clients@),
                pred == among(connected),
                handle_ids(targets@) == ids.take(i as int).filter(pred),
            decreases self.players@.len() - i,
        {
            proof {
                lemma_filter_step(ids, pred, i as int);
            }
            match position(clients, self.players[i].id) {
                Some(k) => {
                    let ghost before = handle_ids(targets@);
                    targets.push(clients[k].share());
                    proof {
                        assert(connected[k as int] == ids[i as int]);
                        assert(handle_ids(targets@) =~= before.push(ids[i as int]));
                    }
                },
                None => {},
            }
            i += 1;
        }
        proof {
            assert(ids.take(i as int) =~= ids);
        }
        targets
    }

    /// Offers `message` to every member that is among `clients`.
    pub fn broadcast_message(&self, message: String, clients: &Vec<ClientHandle>) -> (done: Fanout)
        ensures
            done.text@ == message@,
            done.targets() == connected_members(self@, handle_ids(clients@)),
    {
        let targets = self.snapshot(clients);
        deliver(&targets, message)
    }

    /// The message that lists the members.
    pub fn player_list(&self) -> (m: ClientMessage)
        ensures
            m@ == roster_message(self@),
    {
        ClientMessage::player_list(self.members())
    }

    /// Makes `player` a member and tells every member, the new one too,
    /// who is in the lobby now.
    pub fn join_lobby(&mut self, player: Player, clients: &Vec<ClientHandle>) -> (done: Fanout)
        ensures
            final(self)@ == with_player(old(self)@, player@),
            distinct_ids(final(self)@),
            done.text@ == frame_text(roster_message(final(self)@)),
            done.targets() == connected_members(final(self)@, handle_ids(clients@)),
    {
        self.add_player(player);
        let text = self.player_list().to_frame();
        self.broadcast_message(text, clients)
    }

    /// Takes the member `player_id` out and tells the members that remain,
    /// and then the one who left if it is among `clients`, who is in the
    /// lobby now.
    pub fn leave_lobby(&mut self, player_id: ClientId, clients: &Vec<ClientHandle>) -> (done:
        Fanout)
        ensures
            final(self)@ == without(old(self)@, player_id),
            distinct_ids(final(self)@),
            done.text@ == frame_text(roster_message(final(self)@)),
            done.targets() == connected_members(final(self)@, handle_ids(clients@)) + (
            if handle_ids(clients@).contains(player_id) {
                seq![player_id]
            } else {
                Seq::<ClientId>::empty()
            }),
    {
        self.remove_player(player_id);
        let text = self.player_list().to_frame();
        let mut targets = self.snapshot(clients);
        let ghost members = handle_ids(targets@);
        match position(clients, player_id) {
            Some(k) => {
                targets.push(clients[k].share());
                proof {
                    assert(handle_ids(clients@)[k as int] == player_id);
                    assert(handle_ids(targets@) =~= members + seq![player_id]);
                }
            },
            None => {
                proof {
                    assert(handle_ids(targets@) =~= members + Seq::<ClientId>::empty());
                }
            },
        }
        deliver(&targets, text)
    }
}

} // verus!
