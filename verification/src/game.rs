//! One game between two players: whose turn it is, which moves are
//! accepted, and how the game ends.

use vstd::prelude::*;
use vstd::string::*;
use crate::board::{
    apply_move, board_text, empty_grid, filled, has_line, is_grid, lemma_local_check_is_scan, move_error,
    outcome_at, place, scan_draw, scan_winner, Board, Cell, Grid, MoveError, MoveOutcome,
};
use crate::ident::ClientId;

verus! {

/// Why a request on a game or on the table of games was refused.
#[derive(Clone, Copy, Debug, PartialEq, Eq, Structural)]
pub enum GameError {
    /// The table holds no game with that identifier.
    SessionNotFound,
    /// The acting client is not the player whose mark is to move.
    NotYourTurn,
    /// The game has been won or drawn.
    GameOver,
    /// The row or the column is 3 or more.
    OutOfBounds,
    /// The targeted square already holds a mark.
    CellOccupied,
    /// One of the two players is still in a game that has not ended.
    AlreadyInSession,
    /// The table already holds a game with the identifier drawn for the
    /// new one.
    SessionIdTaken,
}

/// The game error that a refusal of the board stands for.
pub open spec fn game_error_of(e: MoveError) -> GameError {
    match e {
        MoveError::OutOfBounds => GameError::OutOfBounds,
        MoveError::CellOccupied => GameError::CellOccupied,
    }
}

impl GameError {
    /// The message that tells a client of this refusal.
    pub open spec fn message(self) -> Seq<char> {
        match self {
            GameError::SessionNotFound => "session not found"@,
            GameError::NotYourTurn => "not your turn"@,
            GameError::GameOver => "game over"@,
            GameError::OutOfBounds => "out of bounds"@,
            GameError::CellOccupied => "cell occupied"@,
            GameError::AlreadyInSession => "already in session"@,
            GameError::SessionIdTaken => "session id taken"@,
        }
    }

    pub fn from_move_error(e: MoveError) -> (r: GameError)
        ensures
            r == game_error_of(e),
    {
        match e {
            MoveError::OutOfBounds => GameError::OutOfBounds,
            MoveError::CellOccupied => GameError::CellOccupied,
        }
    }

    pub fn to_string(&self) -> (s: String)
        ensures
            s@ == self.message(),
    {
        let text = match self {
            GameError::SessionNotFound => "session not found",
            GameError::NotYourTurn => "not your turn",
            GameError::GameOver => "game over",
            GameError::OutOfBounds => "out of bounds",
            GameError::CellOccupied => "cell occupied",
            GameError::AlreadyInSession => "already in session",
            GameError::SessionIdTaken => "session id taken",
        };
        String::from_str(text)
    }
}

/// The mathematical model of a game.
pub struct GameState {
    /// The two players; the first one plays `X` and moves first.
    pub players: Seq<ClientId>,
    pub board: Grid,
    pub turn: Cell,
    pub winner: Option<Cell>,
    pub is_draw: bool,
}

impl GameState {
    /// A game before its first move.
    pub open spec fn fresh(player_x: ClientId, player_o: ClientId) -> GameState {
        GameState {
            players: seq![player_x, player_o],
            board: empty_grid(),
            turn: Cell::X,
            winner: None,
            is_draw: false,
        }
    }

    pub open spec fn is_over(self) -> bool {
        self.winner is Some || self.is_draw
    }

    /// The player whose mark is to move.
    pub open spec fn current_player(self) -> ClientId {
        if self.turn == Cell::X {
            self.players[0]
        } else {
            self.players[1]
        }
    }

    pub open spec fn has_player(self, client: ClientId) -> bool {
        self.players[0] == client || self.players[1] == client
    }

    /// The number of moves accepted so far.
    pub open spec fn moves(self) -> nat {
        filled(self.board)
    }

    /// What holds of every game that play can reach: `X` moves on even
    /// counts of marks, and the recorded end of the game is the one that a
    /// scan of the whole board finds.
    pub open spec fn wf(self) -> bool {
        &&& self.players.len() == 2
        &&& is_grid(self.board)
        &&& self.turn.is_mark()
        &&& (self.turn == Cell::X <==> filled(self.board) % 2 == 0)
        &&& !(has_line(self.board, Cell::X) && has_line(self.board, Cell::O))
        &&& self.winner == scan_winner(self.board)
        &&& self.is_draw == scan_draw(self.board)
    }

    /// The four conditions under which a move is accepted.
    pub open spec fn legal(self, player: ClientId, x: int, y: int) -> bool {
        &&& !self.is_over()
        &&& player == self.current_player()
        &&& x < 3 && y < 3
        &&& self.board[x][y] == Cell::Empty
    }

    /// The refusal, if any, that meets `player`'s move to `(x, y)`.
    pub open spec fn rejection(self, player: ClientId, x: int, y: int) -> Option<GameError> {
        if self.is_over() {
            Some(GameError::GameOver)
        } else if player != self.current_player() {
            Some(GameError::NotYourTurn)
        } else {
            match move_error(self.board, x, y) {
                Some(e) => Some(game_error_of(e)),
                None => None,
            }
        }
    }

    /// The game after the mark to move has been placed at `(x, y)`.
    pub open spec fn after(self, x: int, y: int) -> GameState {
        let board = place(self.board, x, y, self.turn);
        let outcome = outcome_at(board, x, y, self.turn);
        GameState {
            players: self.players,
            board,
            turn: self.turn.opponent(),
            winner: outcome.winner,
            is_draw: outcome.draw,
        }
    }

    /// The game after `player` has asked for a move to `(x, y)`.
    pub open spec fn step(self, player: ClientId, x: int, y: int) -> GameState {
        if self.rejection(player, x, y) is None {
            self.after(x, y)
        } else {
            self
        }
    }

    /// What `player` is told of a move to `(x, y)`.
    pub open spec fn verdict(self, player: ClientId, x: int, y: int) -> Result<
        MoveOutcome,
        GameError,
    > {
        match self.rejection(player, x, y) {
            Some(e) => Err(e),
            None => Ok(MoveOutcome { winner: self.after(x, y).winner, draw: self.after(x, y).is_draw }),
        }
    }
}

/// A mark on an empty square counts one more.
pub proof fn lemma_place_fills(g: Grid, x: int, y: int, mark: Cell)
    requires
        is_grid(g),
        0 <= x < 3,
        0 <= y < 3,
        g[x][y] == Cell::Empty,
        mark.is_mark(),
    ensures
        is_grid(place(g, x, y, mark)),
        filled(place(g, x, y, mark)) == filled(g) + 1,
{
    let h = place(g, x, y, mark);
    assert forall|r: int, c: int| 0 <= r < 3 && 0 <= c < 3 implies #[trigger] h[r][c] == (if r == x
        && c == y {
        mark
    } else {
        g[r][c]
    }) by {}
}

/// A legal move leads from a reachable game to a reachable game, with
/// the turn passed on and one more mark on the board.
pub proof fn lemma_step_keeps_wf(s: GameState, player: ClientId, x: int, y: int)
    requires
        s.wf(),
        0 <= x,
        0 <= y,
    ensures
        s.step(player, x, y).wf(),
        s.rejection(player, x, y) is None <==> s.legal(player, x, y),
        s.legal(player, x, y) ==> s.step(player, x, y).moves() == s.moves() + 1,
        s.legal(player, x, y) ==> s.step(player, x, y).turn == s.turn.opponent(),
        !s.legal(player, x, y) ==> s.step(player, x, y) == s,
{
    if s.rejection(player, x, y) is None {
        lemma_place_fills(s.board, x, y, s.turn);
        lemma_local_check_is_scan(s.board, s.turn, x, y);
        let h = place(s.board, x, y, s.turn);
        assert forall|r: int, c: int| 0 <= r < 3 && 0 <= c < 3 implies #[trigger] h[r][c] == (if r
            == x && c == y {
            s.turn
        } else {
            s.board[r][c]
        }) by {}
        assert(!has_line(h, s.turn.opponent()));
    }
}

/// One request for a move: who asks, and for which square.
pub struct Attempt {
    pub player: ClientId,
    pub x: nat,
    pub y: nat,
}

/// The game after a run of requests, each accepted or refused in turn.
pub open spec fn replay(s: GameState, attempts: Seq<Attempt>) -> GameState
    decreases attempts.len(),
{
    if attempts.len() == 0 {
        s
    } else {
        let last = attempts.last();
        replay(s, attempts.drop_last()).step(last.player, last.x as int, last.y as int)
    }
}

/// How many requests of a run are accepted.
pub open spec fn accepted(s: GameState, attempts: Seq<Attempt>) -> nat
    decreases attempts.len(),
{
    if attempts.len() == 0 {
        0
    } else {
        let last = attempts.last();
        let one: nat = if replay(s, attempts.drop_last()).legal(
            last.player,
            last.x as int,
            last.y as int,
        ) {
            1
        } else {
            0
        };
        accepted(s, attempts.drop_last()) + one
    }
}

/// The turn alternates strictly: after any run of requests on a new game,
/// of which `n` are accepted, `X` is to move if `n` is even and `O` if it
/// is odd; refused requests do not count. The board holds `n` marks.
pub proof fn lemma_turn_alternates(player_x: ClientId, player_o: ClientId, attempts: Seq<Attempt>)
    ensures
        replay(GameState::fresh(player_x, player_o), attempts).wf(),
        replay(GameState::fresh(player_x, player_o), attempts).moves() == accepted(
            GameState::fresh(player_x, player_o),
            attempts,
        ),
        replay(GameState::fresh(player_x, player_o), attempts).turn == if accepted(
            GameState::fresh(player_x, player_o),
            attempts,
        ) % 2 == 0 {
            Cell::X
        } else {
            Cell::O
        },
    decreases attempts.len(),
{
    let start = GameState::fresh(player_x, player_o);
    if attempts.len() == 0 {
        assert(start.wf());
    } else {
        let last = attempts.last();
        lemma_turn_alternates(player_x, player_o, attempts.drop_last());
        lemma_step_keeps_wf(
            replay(start, attempts.drop_last()),
            last.player,
            last.x as int,
            last.y as int,
        );
    }
}

/// Of two different clients that ask for a move in the same state of a
/// game, at most one is accepted: when one is, the other is told that it
/// is not its turn, and once the game is over both are told so. The one
/// accepted cannot move again at once in a game between two clients.
pub proof fn lemma_one_mover(s: GameState, a: Attempt, b: Attempt)
    requires
        s.wf(),
        a.player != b.player,
    ensures
        !(s.legal(a.player, a.x as int, a.y as int) && s.legal(b.player, b.x as int, b.y as int)),
        s.legal(a.player, a.x as int, a.y as int) ==> s.rejection(
            b.player,
            b.x as int,
            b.y as int,
        ) == Some(GameError::NotYourTurn),
        s.is_over() ==> s.rejection(a.player, a.x as int, a.y as int) == Some(GameError::GameOver)
            && s.rejection(b.player, b.x as int, b.y as int) == Some(GameError::GameOver),
        s.legal(a.player, a.x as int, a.y as int) && s.players[0] != s.players[1] ==> {
            let after = s.step(a.player, a.x as int, a.y as int);
            after.rejection(a.player, b.x as int, b.y as int) == Some(GameError::NotYourTurn)
                || after.rejection(a.player, b.x as int, b.y as int) == Some(GameError::GameOver)
        },
{
}

/// One game: two players, a board, the mark to move and how the game
/// ended, if it has.
#[derive(Clone, Copy, Debug)]
pub struct Game {
    players: [ClientId; 2],
    board: Board,
    turn: Cell,
    winner: Option<Cell>,
    is_draw: bool,
}

impl View for Game {
    type V = GameState;

    closed spec fn view(&self) -> GameState {
        GameState {
            players: seq![self.players[0], self.players[1]],
            board: self.board@,
            turn: self.turn,
            winner: self.winner,
            is_draw: self.is_draw,
        }
    }
}

impl Game {
    #[verifier::type_invariant]
    closed spec fn reachable(self) -> bool {
        self@.wf()
    }

    /// A new game: `player1_id` plays `X` and moves first.
    pub fn new(player1_id: ClientId, player2_id: ClientId) -> (g: Game)
        ensures
            g@ == GameState::fresh(player1_id, player2_id),
            g@.wf(),
    {
        let g = Game {
            players: [player1_id, player2_id],
            board: Board::new(),
            turn: Cell::X,
            winner: None,
            is_draw: false,
        };
        assert(g@.players =~= seq![player1_id, player2_id]);
        g
    }

    /// Asks for `player_id`'s move to row `x`, column `y`.
    ///
    /// The move is accepted when the game is not over, `player_id` is the
    /// player to move, the target lies on the board and is empty. The
    /// square then takes the player's mark, the end of the game is
    /// recorded if the move brought it, and the turn passes on. A refused
    /// move changes nothing.
    pub fn play(&mut self, player_id: ClientId, x: usize, y: usize) -> (r: Result<
        MoveOutcome,
        GameError,
    >)
        ensures
            old(self)@.wf(),
            final(self)@.wf(),
            r == old(self)@.verdict(player_id, x as int, y as int),
            final(self)@ == old(self)@.step(player_id, x as int, y as int),
            r is Ok <==> old(self)@.legal(player_id, x as int, y as int),
            r is Err ==> final(self)@ == old(self)@,
            r is Ok ==> final(self)@.turn == old(self)@.turn.opponent(),
            r is Ok ==> final(self)@.moves() == old(self)@.moves() + 1,
    {
        proof {
            use_type_invariant(&*self);
            lemma_step_keeps_wf(self@, player_id, x as int, y as int);
        }
        if self.is_over() {
            return Err(GameError::GameOver);
        }
        if player_id != self.current_player_id() {
            return Err(GameError::NotYourTurn);
        }
        let mut board = self.board;
        match apply_move(&mut board, self.turn, x, y) {
            Err(e) => Err(GameError::from_move_error(e)),
            Ok(outcome) => {
                *self = Game {
                    players: self.players,
                    board,
                    turn: self.turn.other(),
                    winner: outcome.winner,
                    is_draw: outcome.draw,
                };
                assert(self@.players =~= old(self)@.players);
                Ok(outcome)
            },
        }
    }

    /// The player whose mark is to move.
    pub fn current_player_id(&self) -> (id: ClientId)
        ensures
            id == self@.current_player(),
    {
        match self.turn {
            Cell::X => self.players[0],
            _ => self.players[1],
        }
    }

    /// What the check through `(x, y)` finds for the mark that moved last.
    pub fn check_game_state(&self, x: usize, y: usize) -> (outcome: MoveOutcome)
        requires
            x < 3,
            y < 3,
        ensures
            outcome == outcome_at(self@.board, x as int, y as int, self@.turn.opponent()),
    {
        if self.board.wins_at(x, y, self.turn.other()) {
            MoveOutcome { winner: Some(self.turn.other()), draw: false }
        } else {
            MoveOutcome { winner: None, draw: self.board.is_full() }
        }
    }

    /// The printed board.
    pub fn to_string(&self) -> (text: String)
        ensures
            text@ == board_text(self@.board),
    {
        self.board.to_string()
    }

    /// Whether the game has been won or drawn.
    pub fn is_over(&self) -> (over: bool)
        ensures
            over == self@.is_over(),
    {
        self.winner.is_some() || self.is_draw
    }

    /// The mark that won, if one did.
    pub fn get_winner(&self) -> (winner: Option<Cell>)
        ensures
            winner == self@.winner,
    {
        self.winner
    }

    pub fn is_draw(&self) -> (draw: bool)
        ensures
            draw == self@.is_draw,
    {
        self.is_draw
    }

    /// The mark that is to move.
    pub fn turn(&self) -> (turn: Cell)
        ensures
            turn == self@.turn,
            turn.is_mark(),
    {
        proof {
            use_type_invariant(self);
        }
        self.turn
    }

    pub fn board(&self) -> (board: Board)
        ensures
            board@ == self@.board,
    {
        self.board
    }

    /// The player of `X`, then the player of `O`.
    pub fn players(&self) -> (players: (ClientId, ClientId))
        ensures
            players.0 == self@.players[0],
            players.1 == self@.players[1],
            self@.players.len() == 2,
    {
        (self.players[0], self.players[1])
    }

    pub fn has_player(&self, client: ClientId) -> (found: bool)
        ensures
            found == self@.has_player(client),
    {
        self.players[0] == client || self.players[1] == client
    }
}

} // verus!
