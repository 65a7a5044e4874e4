//! The table of games: every game in progress under its identifier, with
//! at most one unfinished game for each client.

use vstd::prelude::*;
use crate::board::{Board, Cell};
use crate::game::{Game, GameError, GameState};
use crate::ident::{is_random_uuid, ClientId, SessionId};

verus! {

/// The mathematical model of the table: the games by their identifiers.
pub type Sessions = Map<SessionId, GameState>;

/// `client` plays in a game of `m` that has not ended.
pub open spec fn busy(m: Sessions, client: ClientId) -> bool {
    exists|sid: SessionId|
        m.dom().contains(sid) && !(#[trigger] m[sid]).is_over() && m[sid].has_player(client)
}

/// What holds of every table: each game is one that play can reach, and
/// no client plays in two unfinished games.
pub open spec fn table_wf(m: Sessions) -> bool {
    &&& forall|sid: SessionId| m.dom().contains(sid) ==> (#[trigger] m[sid]).wf()
    &&& forall|s1: SessionId, s2: SessionId, c: ClientId|
        m.dom().contains(s1) && m.dom().contains(s2) && s1 != s2 && !m[s1].is_over()
            && !m[s2].is_over() && #[trigger] m[s1].has_player(c) ==> !(#[trigger] m[s2].has_player(
            c,
        ))
}

/// Some game of `m` goes under the identifier of a random UUID: only then
/// can a freshly drawn identifier be in use.
pub open spec fn holds_random_id(m: Sessions) -> bool {
    exists|id: SessionId| #[trigger] m.dom().contains(id) && is_random_uuid(id.0)
}

/// The refusal, if any, that meets the opening of a game under `id`
/// between `a` and `b`.
pub open spec fn open_refusal(m: Sessions, id: SessionId, a: ClientId, b: ClientId) -> Option<
    GameError,
> {
    if busy(m, a) || busy(m, b) {
        Some(GameError::AlreadyInSession)
    } else if m.dom().contains(id) {
        Some(GameError::SessionIdTaken)
    } else {
        None
    }
}

/// The table after a game under `id` between `a` and `b` was asked for.
pub open spec fn after_open(m: Sessions, id: SessionId, a: ClientId, b: ClientId) -> Sessions {
    if open_refusal(m, id, a, b) is None {
        m.insert(id, GameState::fresh(a, b))
    } else {
        m
    }
}

/// The refusal, if any, that meets `client`'s move to `(x, y)` in the game
/// `sid`.
pub open spec fn move_refusal(m: Sessions, sid: SessionId, client: ClientId, x: int, y: int) -> Option<
    GameError,
> {
    if !m.dom().contains(sid) {
        Some(GameError::SessionNotFound)
    } else {
        m[sid].rejection(client, x, y)
    }
}

/// The table after `client` asked for a move to `(x, y)` in the game `sid`.
pub open spec fn after_move(m: Sessions, sid: SessionId, client: ClientId, x: int, y: int) -> Sessions {
    if move_refusal(m, sid, client, x, y) is None {
        m.insert(sid, m[sid].after(x, y))
    } else {
        m
    }
}

/// The games of `m` in which `client` plays.
pub open spec fn sessions_of(m: Sessions, client: ClientId) -> Set<SessionId> {
    Set::new(|sid: SessionId| m.dom().contains(sid) && m[sid].has_player(client))
}

/// The table after `client` has left: every game with that player is gone.
pub open spec fn after_departure(m: Sessions, client: ClientId) -> Sessions {
    m.remove_keys(sessions_of(m, client))
}

/// The other player of `g`, seen from `client`.
pub open spec fn opponent_of(g: GameState, client: ClientId) -> ClientId {
    if g.players[0] == client {
        g.players[1]
    } else {
        g.players[0]
    }
}

/// A game that ended because a player left, and the player who is left
/// behind.
#[derive(Clone, Copy, Debug, PartialEq, Eq, Structural)]
pub struct Departure {
    pub session_id: SessionId,
    pub opponent: ClientId,
}

/// The notices in `notes` tell, once for each game of `client` in `m`,
/// who the other player was.
pub open spec fn departures_of(notes: Seq<Departure>, m: Sessions, client: ClientId) -> bool {
    &&& forall|k: int|
        0 <= k < notes.len() ==> {
            &&& sessions_of(m, client).contains((#[trigger] notes[k]).session_id)
            &&& notes[k].opponent == opponent_of(m[notes[k].session_id], client)
        }
    &&& forall|sid: SessionId| #[trigger]
        sessions_of(m, client).contains(sid) ==> exists|k: int|
            0 <= k < notes.len() && (#[trigger] notes[k]).session_id == sid
    &&& forall|j: int, k: int|
        0 <= j < k < notes.len() ==> (#[trigger] notes[j]).session_id != (
        #[trigger] notes[k]).session_id
}

/// An unchangeable copy of one game's state, to be sent to its players.
#[derive(Clone, Copy, Debug)]
pub struct GameSnapshot {
    session_id: SessionId,
    game: Game,
}

impl View for GameSnapshot {
    type V = (SessionId, GameState);

    closed spec fn view(&self) -> (SessionId, GameState) {
        (self.session_id, self.game@)
    }
}

impl GameSnapshot {
    pub fn session_id(&self) -> (id: SessionId)
        ensures
            id == self@.0,
    {
        self.session_id
    }

    pub fn board(&self) -> (board: Board)
        ensures
            board@ == self@.1.board,
    {
        self.game.board()
    }

    /// The mark that is to move.
    pub fn turn(&self) -> (turn: Cell)
        ensures
            turn == self@.1.turn,
            turn.is_mark(),
    {
        self.game.turn()
    }

    pub fn winner(&self) -> (winner: Option<Cell>)
        ensures
            winner == self@.1.winner,
    {
        self.game.get_winner()
    }

    pub fn is_draw(&self) -> (draw: bool)
        ensures
            draw == self@.1.is_draw,
    {
        self.game.is_draw()
    }

    pub fn game_over(&self) -> (over: bool)
        ensures
            over == self@.1.is_over(),
    {
        self.game.is_over()
    }

    /// The player of `X`, then the player of `O`.
    pub fn players(&self) -> (players: (ClientId, ClientId))
        ensures
            players.0 == self@.1.players[0],
            players.1 == self@.1.players[1],
    {
        self.game.players()
    }
}

/// One entry of the table.
#[derive(Clone, Copy, Debug)]
struct GameSession {
    id: SessionId,
    game: Game,
}

spec fn distinct(s: Seq<GameSession>) -> bool {
    forall|i: int, j: int| 0 <= i < j < s.len() ==> (#[trigger] s[i]).id != (#[trigger] s[j]).id
}

spec fn has_id(s: Seq<GameSession>, id: SessionId) -> bool {
    exists|i: int| 0 <= i < s.len() && (#[trigger] s[i]).id == id
}

spec fn index_of(s: Seq<GameSession>, id: SessionId) -> int {
    choose|i: int| 0 <= i < s.len() && (#[trigger] s[i]).id == id
}

spec fn model(s: Seq<GameSession>) -> Sessions {
    Map::new(|id: SessionId| has_id(s, id), |id: SessionId| s[index_of(s, id)].game@)
}

proof fn lemma_model_empty()
    ensures
        model(Seq::<GameSession>::empty()) == Map::<SessionId, GameState>::empty(),
        distinct(Seq::<GameSession>::empty()),
        table_wf(model(Seq::<GameSession>::empty())),
{
    assert(model(Seq::<GameSession>::empty()) =~= Map::<SessionId, GameState>::empty());
}

proof fn lemma_model_at(s: Seq<GameSession>, i: int)
    requires
        distinct(s),
        0 <= i < s.len(),
    ensures
        model(s).dom().contains(s[i].id),
        model(s)[s[i].id] == s[i].game@,
{
    assert(has_id(s, s[i].id));
    let j = index_of(s, s[i].id);
    assert(j == i);
}

proof fn lemma_model_index(s: Seq<GameSession>, id: SessionId) -> (k: int)
    requires
        distinct(s),
        model(s).dom().contains(id),
    ensures
        0 <= k < s.len(),
        s[k].id == id,
        model(s)[id] == s[k].game@,
{
    index_of(s, id)
}

proof fn lemma_model_push(s: Seq<GameSession>, x: GameSession)
    requires
        distinct(s),
        !model(s).dom().contains(x.id),
    ensures
        distinct(s.push(x)),
        model(s.push(x)) == model(s).insert(x.id, x.game@),
{
    let t = s.push(x);
    assert forall|i: int, j: int| 0 <= i < j < t.len() implies (#[trigger] t[i]).id != (
    #[trigger] t[j]).id by {
        if j == s.len() {
            assert(t[i] == s[i]);
            if s[i].id == x.id {
                assert(has_id(s, x.id));
            }
        } else {
            assert(t[i] == s[i] && t[j] == s[j]);
        }
    }
    assert forall|id: SessionId| model(t).dom().contains(id) <==> model(s).insert(
        x.id,
        x.game@,
    ).dom().contains(id) by {
        if has_id(t, id) {
            let k = index_of(t, id);
            if k < s.len() {
                assert(s[k].id == id);
            }
        }
        if has_id(s, id) {
            let k = index_of(s, id);
            assert(t[k].id == id);
        }
        if id == x.id {
            assert(t[s.len() as int].id == id);
        }
    }
    assert forall|id: SessionId| model(t).dom().contains(id) implies #[trigger] model(t)[id]
        == model(s).insert(x.id, x.game@)[id] by {
        let k = lemma_model_index(t, id);
        if k < s.len() {
            assert(t[k] == s[k]);
            lemma_model_at(s, k);
        }
    }
    assert(model(t) =~= model(s).insert(x.id, x.game@));
}

proof fn lemma_model_update(s: Seq<GameSession>, i: int, x: GameSession)
    requires
        distinct(s),
        0 <= i < s.len(),
        x.id == s[i].id,
    ensures
        distinct(s.update(i, x)),
        model(s.update(i, x)) == model(s).insert(x.id, x.game@),
{
    let t = s.update(i, x);
    assert forall|a: int, b: int| 0 <= a < b < t.len() implies (#[trigger] t[a]).id != (
    #[trigger] t[b]).id by {
        assert(t[a].id == s[a].id && t[b].id == s[b].id);
    }
    assert forall|id: SessionId| model(t).dom().contains(id) <==> model(s).insert(
        x.id,
        x.game@,
    ).dom().contains(id) by {
        if has_id(t, id) {
            let k = index_of(t, id);
            assert(s[k].id == id);
        }
        if has_id(s, id) {
            let k = index_of(s, id);
            assert(t[k].id == id);
        }
        if id == x.id {
            assert(t[i].id == id);
        }
    }
    assert forall|id: SessionId| model(t).dom().contains(id) implies #[trigger] model(t)[id]
        == model(s).insert(x.id, x.game@)[id] by {
        let k = lemma_model_index(t, id);
        if k != i {
            assert(t[k] == s[k]);
            lemma_model_at(s, k);
        }
    }
    assert(model(t) =~= model(s).insert(x.id, x.game@));
}

/// The table of games.
pub struct SessionTable {
    sessions: Vec<GameSession>,
}

impl View for SessionTable {
    type V = Sessions;

    closed spec fn view(&self) -> Sessions {
        model(self.sessions@)
    }
}

impl SessionTable {
    #[verifier::type_invariant]
    closed spec fn inv(self) -> bool {
        distinct(self.sessions@) && table_wf(model(self.sessions@))
    }

    /// A table without games.
    pub fn new() -> (table: SessionTable)
        ensures
            table@ == Map::<SessionId, GameState>::empty(),
            table_wf(table@),
    {
        let table = SessionTable { sessions: Vec::new() };
        assert(table@ =~= Map::<SessionId, GameState>::empty());
        table
    }

    fn find(&self, session_id: SessionId) -> (found: Option<usize>)
        ensures
            distinct(self.sessions@),
            table_wf(self@),
            match found {
                Some(i) => i < self.sessions@.len() && self.sessions@[i as int].id == session_id
                    && self@.dom().contains(session_id) && self@[session_id]
                    == self.sessions@[i as int].game@,
                None => !self@.dom().contains(session_id),
            },
    {
        proof {
            use_type_invariant(self);
        }
        let mut i: usize = 0;
        while i < self.sessions.len()
            invariant
                i <= self.sessions@.len(),
                distinct(self.sessions@),
                table_wf(model(self.sessions@)),
                forall|k: int| 0 <= k < i ==> (#[trigger] self.sessions@[k]).id != session_id,
            decreases self.sessions@.len() - i,
        {
            if self.sessions[i].id == session_id {
                proof {
                    lemma_model_at(self.sessions@, i as int);
                }
                return Some(i);
            }
            i += 1;
        }
        proof {
            if self@.dom().contains(session_id) {
                let k = lemma_model_index(self.sessions@, session_id);
            }
        }
        None
    }

    /// Whether `client` plays in a game that has not ended.
    pub fn is_busy(&self, client: ClientId) -> (found: bool)
        ensures
            found == busy(self@, client),
            table_wf(self@),
    {
        proof {
            use_type_invariant(self);
        }
        let mut i: usize = 0;
        while i < self.sessions.len()
            invariant
                i <= self.sessions@.len(),
                distinct(self.sessions@),
                table_wf(model(self.sessions@)),
                forall|k: int|
                    0 <= k < i ==> (#[trigger] self.sessions@[k]).game@.is_over()
                        || !self.sessions@[k].game@.has_player(client),
            decreases self.sessions@.len() - i,
        {
            if !self.sessions[i].game.is_over() && self.sessions[i].game.has_player(client) {
                proof {
                    lemma_model_at(self.sessions@, i as int);
                    let sid = self.sessions@[i as int].id;
                    assert(self@.dom().contains(sid) && !self@[sid].is_over() && self@[sid].has_player(
                        client,
                    ));
                }
                return true;
            }
            i += 1;
        }
        proof {
            if busy(self@, client) {
                let sid = choose|sid: SessionId|
                    self@.dom().contains(sid) && !(#[trigger] self@[sid]).is_over()
                        && self@[sid].has_player(client);
                let k = lemma_model_index(self.sessions@, sid);
                assert(self.sessions@[k].game@.is_over() || !self.sessions@[k].game@.has_player(
                    client,
                ));
            }
        }
        false
    }

    /// Opens a game under `id`, in which `player_a` plays `X` and moves
    /// first.
    ///
    /// The game is refused with `AlreadyInSession` when one of the two
    /// still plays in an unfinished game, else with `SessionIdTaken` when
    /// the table holds a game under `id`.
    pub fn open_session(&mut self, id: SessionId, player_a: ClientId, player_b: ClientId) -> (r:
        Result<SessionId, GameError>)
        ensures
            table_wf(old(self)@),
            table_wf(final(self)@),
            r == match open_refusal(old(self)@, id, player_a, player_b) {
                Some(e) => Err::<SessionId, GameError>(e),
                None => Ok(id),
            },
            final(self)@ == after_open(old(self)@, id, player_a, player_b),
    {
        proof {
            use_type_invariant(&*self);
        }
        if self.is_busy(player_a) || self.is_busy(player_b) {
            return Err(GameError::AlreadyInSession);
        }
        if self.find(id).is_some() {
            return Err(GameError::SessionIdTaken);
        }
        let entry = GameSession { id, game: Game::new(player_a, player_b) };
        proof {
            lemma_model_push(self.sessions@, entry);
            lemma_open_keeps_wf(self@, id, player_a, player_b);
            lemma_model_empty();
        }
        let mut sessions: Vec<GameSession> = Vec::new();
        core::mem::swap(&mut self.sessions, &mut sessions);
        sessions.push(entry);
        self.sessions = sessions;
        Ok(id)
    }

    /// Pairs `player_a`, who plays `X` and moves first, with `player_b` in
    /// a new game under a fresh random identifier.
    ///
    /// The game is refused with `AlreadyInSession` exactly when one of the
    /// two still plays in an unfinished game, and otherwise only if the
    /// identifier drawn, that of a random UUID, is in use; that cannot
    /// happen while no game goes under a random UUID.
    pub fn create_session(&mut self, player_a: ClientId, player_b: ClientId) -> (r: Result<
        SessionId,
        GameError,
    >)
        ensures
            table_wf(old(self)@),
            table_wf(final(self)@),
            busy(old(self)@, player_a) || busy(old(self)@, player_b) <==> r == Err::<
                SessionId,
                GameError,
            >(GameError::AlreadyInSession),
            match r {
                Ok(id) => is_random_uuid(id.0) && !old(self)@.dom().contains(id) && final(self)@
                    == old(self)@.insert(id, GameState::fresh(player_a, player_b)),
                Err(e) => final(self)@ == old(self)@ && (e == GameError::AlreadyInSession || (e
                    == GameError::SessionIdTaken && holds_random_id(old(self)@))),
            },
    {
        let id = SessionId::generate();
        self.open_session(id, player_a, player_b)
    }

    /// Asks for `client_id`'s move to row `x`, column `y` in the game
    /// `session_id`, and hands back the state of the game after it.
    ///
    /// The move is refused with `SessionNotFound` when the table holds no
    /// such game, and else as the game refuses it. A refused move changes
    /// nothing.
    pub fn make_move(&mut self, session_id: SessionId, client_id: ClientId, x: usize, y: usize) -> (r:
        Result<GameSnapshot, GameError>)
        ensures
            table_wf(old(self)@),
            table_wf(final(self)@),
            match r {
                Ok(shot) => move_refusal(old(self)@, session_id, client_id, x as int, y as int)
                    is None && shot@ == (session_id, old(self)@[session_id].after(x as int, y as int)),
                Err(e) => move_refusal(old(self)@, session_id, client_id, x as int, y as int)
                    == Some(e),
            },
            final(self)@ == after_move(old(self)@, session_id, client_id, x as int, y as int),
            r is Ok <==> old(self)@.dom().contains(session_id) && old(self)@[session_id].legal(
                client_id,
                x as int,
                y as int,
            ),
            r is Err ==> final(self)@ == old(self)@,
    {
        let found = self.find(session_id);
        match found {
            None => Err(GameError::SessionNotFound),
            Some(i) => {
                let mut game = self.sessions[i].game;
                match game.play(client_id, x, y) {
                    Err(e) => Err(e),
                    Ok(_) => {
                        let entry = GameSession { id: session_id, game };
                        proof {
                            lemma_model_update(self.sessions@, i as int, entry);
                            lemma_move_keeps_wf(self@, session_id, client_id, x as int, y as int);
                        }
                        let mut sessions: Vec<GameSession> = Vec::new();
                        proof {
                            lemma_model_empty();
                        }
                        core::mem::swap(&mut self.sessions, &mut sessions);
                        sessions[i] = entry;
                        self.sessions = sessions;
                        Ok(GameSnapshot { session_id, game })
                    },
                }
            },
        }
    }

    /// The state of the game `session_id`, if the table holds it.
    pub fn snapshot(&self, session_id: SessionId) -> (r: Option<GameSnapshot>)
        ensures
            table_wf(self@),
            match r {
                Some(shot) => self@.dom().contains(session_id) && shot@ == (
                    session_id,
                    self@[session_id],
                ),
                None => !self@.dom().contains(session_id),
            },
    {
        match self.find(session_id) {
            None => None,
            Some(i) => Some(GameSnapshot { session_id, game: self.sessions[i].game }),
        }
    }

    /// Ends every game in which `client_id` plays and takes it off the
    /// table. The notices name each such game once, with the player who is
    /// left behind and is to be told.
    pub fn remove_player_sessions(&mut self, client_id: ClientId) -> (notes: Vec<Departure>)
        ensures
            table_wf(old(self)@),
            table_wf(final(self)@),
            final(self)@ == after_departure(old(self)@, client_id),
            departures_of(notes@, old(self)@, client_id),
    {
        proof {
            use_type_invariant(&*self);
        }
        let mut kept: Vec<GameSession> = Vec::new();
        let mut notes: Vec<Departure> = Vec::new();
        let ghost all = self.sessions@;
        let ghost mut kept_from: Seq<int> = Seq::empty();
        let ghost mut note_from: Seq<int> = Seq::empty();
        let mut i: usize = 0;
        while i < self.sessions.len()
            invariant
                i <= all.len(),
                all == self.sessions@,
                distinct(all),
                kept_from.len() == kept@.len(),
                note_from.len() == notes@.len(),
                forall|k: int|
                    0 <= k < kept@.len() ==> 0 <= (#[trigger] kept_from[k]) < i && kept@[k]
                        == all[kept_from[k]] && !all[kept_from[k]].game@.has_player(client_id),
                forall|j: int, k: int|
                    0 <= j < k < kept@.len() ==> (#[trigger] kept_from[j]) < (#[trigger] kept_from[k]),
                forall|k: int|
                    0 <= k < notes@.len() ==> 0 <= (#[trigger] note_from[k]) < i && notes@[k].session_id
                        == all[note_from[k]].id && all[note_from[k]].game@.has_player(client_id)
                        && notes@[k].opponent == opponent_of(all[note_from[k]].game@, client_id),
                forall|j: int, k: int|
                    0 <= j < k < notes@.len() ==> (#[trigger] note_from[j]) < (#[trigger] note_from[k]),
                forall|n: int|
                    0 <= n < i ==> if (#[trigger] all[n]).game@.has_player(client_id) {
                        exists|k: int| 0 <= k < notes@.len() && #[trigger] note_from[k] == n
                    } else {
                        exists|k: int| 0 <= k < kept@.len() && #[trigger] kept_from[k] == n
                    },
            decreases all.len() - i,
        {
            let entry = self.sessions[i];
            let ghost kept_before = kept_from;
            let ghost note_before = note_from;
            if entry.game.has_player(client_id) {
                let (first, second) = entry.game.players();
                let opponent = if first == client_id {
                    second
                } else {
                    first
                };
                notes.push(Departure { session_id: entry.id, opponent });
                proof {
                    note_from = note_from.push(i as int);
                    assert(note_from[notes@.len() - 1] == i);
                }
            } else {
                kept.push(entry);
                proof {
                    kept_from = kept_from.push(i as int);
                    assert(kept_from[kept@.len() - 1] == i);
                }
            }
            proof {
                assert forall|n: int| 0 <= n < i + 1 implies if (#[trigger] all[n]).game@.has_player(
                    client_id,
                ) {
                    exists|k: int| 0 <= k < notes@.len() && #[trigger] note_from[k] == n
                } else {
                    exists|k: int| 0 <= k < kept@.len() && #[trigger] kept_from[k] == n
                } by {
                    if n < i {
                        if all[n].game@.has_player(client_id) {
                            let k = choose|k: int|
                                0 <= k < note_before.len() && #[trigger] note_before[k] == n;
                            assert(note_from[k] == n);
                        } else {
                            let k = choose|k: int|
                                0 <= k < kept_before.len() && #[trigger] kept_before[k] == n;
                            assert(kept_from[k] == n);
                        }
                    }
                }
            }
            i += 1;
        }
        proof {
            let m = model(all);
            let gone = sessions_of(m, client_id);
            assert forall|a: int, b: int| 0 <= a < b < kept@.len() implies (#[trigger] kept@[a]).id
                != (#[trigger] kept@[b]).id by {
                assert(kept_from[a] < kept_from[b]);
            }
            assert forall|id: SessionId| model(kept@).dom().contains(id) <==> m.remove_keys(
                gone,
            ).dom().contains(id) by {
                if has_id(kept@, id) {
                    let k = index_of(kept@, id);
                    lemma_model_at(all, kept_from[k]);
                }
                if m.dom().contains(id) && !gone.contains(id) {
                    let n = lemma_model_index(all, id);
                    let k = choose|k: int| 0 <= k < kept@.len() && #[trigger] kept_from[k] == n;
                    assert(kept@[k].id == id);
                }
            }
            assert forall|id: SessionId| model(kept@).dom().contains(id) implies #[trigger] model(
                kept@,
            )[id] == m.remove_keys(gone)[id] by {
                let k = lemma_model_index(kept@, id);
                lemma_model_at(all, kept_from[k]);
            }
            assert(model(kept@) =~= after_departure(m, client_id));
            assert forall|k: int| 0 <= k < notes@.len() implies {
                &&& gone.contains((#[trigger] notes@[k]).session_id)
                &&& notes@[k].opponent == opponent_of(m[notes@[k].session_id], client_id)
            } by {
                lemma_model_at(all, note_from[k]);
            }
            assert forall|sid: SessionId| #[trigger] gone.contains(sid) implies exists|k: int|
                0 <= k < notes@.len() && (#[trigger] notes@[k]).session_id == sid by {
                let n = lemma_model_index(all, sid);
                let k = choose|k: int| 0 <= k < notes@.len() && #[trigger] note_from[k] == n;
                assert(notes@[k].session_id == sid);
            }
            assert forall|j: int, k: int| 0 <= j < k < notes@.len() implies (
            #[trigger] notes@[j]).session_id != (#[trigger] notes@[k]).session_id by {
                assert(note_from[j] < note_from[k]);
            }
            lemma_departure_keeps_wf(m, client_id);
        }
        self.sessions = kept;
        notes
    }

    /// The number of games on the table.
    pub fn len(&self) -> (n: usize)
        ensures
            n == self@.dom().len(),
            self@.dom().finite(),
    {
        proof {
            use_type_invariant(self);
            lemma_model_size(self.sessions@);
        }
        self.sessions.len()
    }
}

proof fn lemma_model_size(s: Seq<GameSession>)
    requires
        distinct(s),
    ensures
        model(s).dom().finite(),
        model(s).dom().len() == s.len(),
    decreases s.len(),
{
    if s.len() == 0 {
        assert(model(s).dom() =~= Set::<SessionId>::empty());
    } else {
        let t = s.drop_last();
        let x = s.last();
        assert forall|i: int, j: int| 0 <= i < j < t.len() implies (#[trigger] t[i]).id != (
        #[trigger] t[j]).id by {
            assert(t[i] == s[i] && t[j] == s[j]);
        }
        lemma_model_size(t);
        if model(t).dom().contains(x.id) {
            let k = lemma_model_index(t, x.id);
            assert(s[k].id == s[s.len() - 1].id);
        }
        lemma_model_push(t, x);
        assert(t.push(x) =~= s);
    }
}

/// Opening a game keeps the table well formed.
pub proof fn lemma_open_keeps_wf(m: Sessions, id: SessionId, a: ClientId, b: ClientId)
    requires
        table_wf(m),
    ensures
        table_wf(after_open(m, id, a, b)),
{
    let n = after_open(m, id, a, b);
    if open_refusal(m, id, a, b) is None {
        let fresh = GameState::fresh(a, b);
        assert(fresh.wf());
        assert forall|s1: SessionId, s2: SessionId, c: ClientId|
            n.dom().contains(s1) && n.dom().contains(s2) && s1 != s2 && !n[s1].is_over()
                && !n[s2].is_over() && #[trigger] n[s1].has_player(c) implies !(
        #[trigger] n[s2].has_player(c)) by {
            if s1 == id {
                if n[s2].has_player(c) {
                    assert(m.dom().contains(s2) && !m[s2].is_over() && m[s2].has_player(c));
                    assert(busy(m, c));
                }
            } else if s2 == id {
                if n[s2].has_player(c) {
                    assert(m.dom().contains(s1) && !m[s1].is_over() && m[s1].has_player(c));
                    assert(busy(m, c));
                }
            } else {
                assert(m[s1].has_player(c));
                if n[s2].has_player(c) {
                    assert(m[s2].has_player(c));
                }
            }
        }
    }
}

/// A move keeps the table well formed.
pub proof fn lemma_move_keeps_wf(m: Sessions, sid: SessionId, client: ClientId, x: int, y: int)
    requires
        table_wf(m),
        0 <= x,
        0 <= y,
    ensures
        table_wf(after_move(m, sid, client, x, y)),
{
    let n = after_move(m, sid, client, x, y);
    if move_refusal(m, sid, client, x, y) is None {
        crate::game::lemma_step_keeps_wf(m[sid], client, x, y);
        assert forall|s1: SessionId, s2: SessionId, c: ClientId|
            n.dom().contains(s1) && n.dom().contains(s2) && s1 != s2 && !n[s1].is_over()
                && !n[s2].is_over() && #[trigger] n[s1].has_player(c) implies !(
        #[trigger] n[s2].has_player(c)) by {
            assert(m[s1].has_player(c));
            if n[s2].has_player(c) {
                assert(m[s2].has_player(c));
            }
        }
    }
}

/// Once a client has left, a move in any of its games finds no game; a
/// second departure of the same client changes nothing.
pub proof fn lemma_departed_games_are_gone(
    m: Sessions,
    client: ClientId,
    sid: SessionId,
    mover: ClientId,
    x: int,
    y: int,
)
    requires
        m.dom().contains(sid),
        m[sid].has_player(client),
    ensures
        move_refusal(after_departure(m, client), sid, mover, x, y) == Some(
            GameError::SessionNotFound,
        ),
        after_departure(after_departure(m, client), client) == after_departure(m, client),
        !busy(after_departure(m, client), client),
{
    let n = after_departure(m, client);
    assert(sessions_of(m, client).contains(sid));
    assert(after_departure(n, client) =~= n);
}

/// A departure keeps the table well formed.
pub proof fn lemma_departure_keeps_wf(m: Sessions, client: ClientId)
    requires
        table_wf(m),
    ensures
        table_wf(after_departure(m, client)),
{
    let n = after_departure(m, client);
    assert forall|s1: SessionId, s2: SessionId, c: ClientId|
        n.dom().contains(s1) && n.dom().contains(s2) && s1 != s2 && !n[s1].is_over()
            && !n[s2].is_over() && #[trigger] n[s1].has_player(c) implies !(
    #[trigger] n[s2].has_player(c)) by {
        assert(m[s1].has_player(c));
        if n[s2].has_player(c) {
            assert(m[s2].has_player(c));
        }
    }
}

} // verus!
