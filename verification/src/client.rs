//! What clients and the broker say to each other: the actions that a
//! client asks for, the messages that the broker sends, and their JSON
//! text.

use vstd::prelude::*;
use vstd::string::*;
use crate::board::{board_text, Cell};
use crate::game::GameState;
use crate::ident::{session_id_of, uuid_parse, uuid_text, ClientId, SessionId};
use crate::lobby::{Player, PlayerView};
use crate::session::GameSnapshot;
use crate::wire::{
    json_document, json_number_member, json_string, json_text_member, number_member, parse, quote,
    same_text, text_member,
};

verus! {

/// A message from the broker to a client.
#[derive(Debug)]
pub enum ClientMessage {
    /// What another client said.
    ChatMessage { from: ClientId, content: String },
    /// The state of a game after a move.
    GameStateUpdate {
        session_id: SessionId,
        board: String,
        turn: Cell,
        game_over: bool,
        winner: Option<Cell>,
    },
    /// The members of the lobby.
    PlayerList { players: Vec<Player> },
    /// Why the client's own request was refused.
    Error { message: String },
    /// The other player of the client's game has left; the game is gone.
    OpponentLeft { session_id: SessionId },
}

/// The mathematical model of a message.
pub enum MessageView {
    ChatMessage { from: ClientId, content: Seq<char> },
    GameStateUpdate {
        session_id: SessionId,
        board: Seq<char>,
        turn: Cell,
        game_over: bool,
        winner: Option<Cell>,
    },
    PlayerList { players: Seq<PlayerView> },
    Error { message: Seq<char> },
    OpponentLeft { session_id: SessionId },
}

impl View for ClientMessage {
    type V = MessageView;

    open spec fn view(&self) -> MessageView {
        match self {
            ClientMessage::ChatMessage { from, content } => MessageView::ChatMessage {
                from: *from,
                content: content@,
            },
            ClientMessage::GameStateUpdate {
                session_id,
                board,
                turn,
                game_over,
                winner,
            } => MessageView::GameStateUpdate {
                session_id: *session_id,
                board: board@,
                turn: *turn,
                game_over: *game_over,
                winner: *winner,
            },
            ClientMessage::PlayerList { players } => MessageView::PlayerList {
                players: players@.map_values(|p: Player| p@),
            },
            ClientMessage::Error { message } => MessageView::Error { message: message@ },
            ClientMessage::OpponentLeft { session_id } => MessageView::OpponentLeft {
                session_id: *session_id,
            },
        }
    }
}

/// The update that tells of the game `g` under `session_id`.
pub open spec fn state_update(session_id: SessionId, g: GameState) -> MessageView {
    MessageView::GameStateUpdate {
        session_id,
        board: board_text(g.board),
        turn: g.turn,
        game_over: g.is_over(),
        winner: g.winner,
    }
}

/// The JSON text of an identifier: its UUID text as a JSON string.
pub open spec fn id_json(bits: u128) -> Option<Seq<char>> {
    json_string(uuid_text(bits))
}

/// The JSON text of a mark.
pub open spec fn mark_json(mark: Cell) -> Seq<char> {
    match mark {
        Cell::X => "\"X\""@,
        Cell::O => "\"O\""@,
        Cell::Empty => "\" \""@,
    }
}

/// The JSON text of a winner: the mark, or `null`.
pub open spec fn winner_json(winner: Option<Cell>) -> Seq<char> {
    match winner {
        Some(mark) => mark_json(mark),
        None => "null"@,
    }
}

pub open spec fn bool_json(b: bool) -> Seq<char> {
    if b {
        "true"@
    } else {
        "false"@
    }
}

/// The frame of a chat message around the JSON texts of the sender's
/// identifier and of what was said.
pub open spec fn chat_layout(id_json: Seq<char>, body_json: Seq<char>) -> Seq<char> {
    "{\"type\":\"ChatMessage\",\"from\":"@ + id_json + ",\"content\":"@ + body_json + "}"@
}

/// The frame of a game's state around the JSON texts of the game's
/// identifier and of its printed board.
pub open spec fn update_layout(
    id_json: Seq<char>,
    board_json: Seq<char>,
    turn: Cell,
    game_over: bool,
    winner: Option<Cell>,
) -> Seq<char> {
    "{\"type\":\"GameStateUpdate\",\"session_id\":"@ + id_json + ",\"board\":"@ + board_json
        + ",\"turn\":"@ + mark_json(turn) + ",\"game_over\":"@ + bool_json(game_over)
        + ",\"winner\":"@ + winner_json(winner) + "}"@
}

/// One entry of a player list around the JSON texts of the player's
/// identifier and name.
pub open spec fn entry_layout(id_json: Seq<char>, name_json: Seq<char>) -> Seq<char> {
    "{\"id\":"@ + id_json + ",\"name\":"@ + name_json + "}"@
}

/// The texts `entries`, in order, with a comma between neighbours.
pub open spec fn joined(entries: Seq<Seq<char>>) -> Seq<char>
    decreases entries.len(),
{
    if entries.len() == 0 {
        Seq::empty()
    } else if entries.len() == 1 {
        entries[0]
    } else {
        joined(entries.drop_last()) + ","@ + entries.last()
    }
}

/// The frame of a player list around its entries.
pub open spec fn list_layout(entries: Seq<Seq<char>>) -> Seq<char> {
    "{\"type\":\"PlayerList\",\"players\":["@ + joined(entries) + "]}"@
}

/// The frame of an error around the JSON text of its message.
pub open spec fn error_layout(body_json: Seq<char>) -> Seq<char> {
    "{\"type\":\"Error\",\"message\":"@ + body_json + "}"@
}

/// The frame of the notice that an opponent left, around the JSON text
/// of the game's identifier.
pub open spec fn farewell_layout(id_json: Seq<char>) -> Seq<char> {
    "{\"type\":\"OpponentLeft\",\"session_id\":"@ + id_json + "}"@
}

/// The views of a list of texts.
pub open spec fn texts_of(list: Seq<String>) -> Seq<Seq<char>> {
    list.map_values(|s: String| s@)
}

/// The JSON text of one entry of a player list.
pub open spec fn player_json(p: PlayerView) -> Option<Seq<char>> {
    match (id_json(p.id.0), json_string(p.name)) {
        (Some(id), Some(name)) => Some(entry_layout(id, name)),
        _ => None,
    }
}

/// The JSON texts of the entries of a player list, in order; `None` where
/// one of them cannot be written.
pub open spec fn players_json(ps: Seq<PlayerView>) -> Option<Seq<Seq<char>>>
    decreases ps.len(),
{
    if ps.len() == 0 {
        Some(Seq::empty())
    } else {
        match (players_json(ps.drop_last()), player_json(ps.last())) {
            (Some(head), Some(entry)) => Some(head.push(entry)),
            _ => None,
        }
    }
}

/// The JSON text that carries a message to a client; `None` where one of
/// its strings cannot be written as JSON.
pub open spec fn wire_text(m: MessageView) -> Option<Seq<char>> {
    match m {
        MessageView::ChatMessage { from, content } => match (id_json(from.0), json_string(content)) {
            (Some(id), Some(body)) => Some(chat_layout(id, body)),
            _ => None,
        },
        MessageView::GameStateUpdate { session_id, board, turn, game_over, winner } => match (
            id_json(session_id.0),
            json_string(board),
        ) {
            (Some(id), Some(grid)) => Some(update_layout(id, grid, turn, game_over, winner)),
            _ => None,
        },
        MessageView::PlayerList { players } => match players_json(players) {
            Some(entries) => Some(list_layout(entries)),
            None => None,
        },
        MessageView::Error { message } => match json_string(message) {
            Some(body) => Some(error_layout(body)),
            None => None,
        },
        MessageView::OpponentLeft { session_id } => match id_json(session_id.0) {
            Some(id) => Some(farewell_layout(id)),
            None => None,
        },
    }
}

/// The text of the frame that carries a message: its JSON text, or the
/// empty text where that cannot be written.
pub open spec fn frame_text(m: MessageView) -> Seq<char> {
    match wire_text(m) {
        Some(text) => text,
        None => Seq::empty(),
    }
}

/// A list of players whose beginning cannot be written cannot be written.
pub proof fn lemma_players_json_prefix(ps: Seq<PlayerView>, n: int)
    requires
        0 <= n <= ps.len(),
        players_json(ps.take(n)) is None,
    ensures
        players_json(ps) is None,
    decreases ps.len() - n,
{
    if n < ps.len() {
        assert(ps.take(n + 1).drop_last() =~= ps.take(n));
        lemma_players_json_prefix(ps, n + 1);
    } else {
        assert(ps.take(n) =~= ps);
    }
}

fn mark_text(mark: Cell) -> (s: &'static str)
    ensures
        s@ == mark_json(mark),
{
    match mark {
        Cell::X => "\"X\"",
        Cell::O => "\"O\"",
        Cell::Empty => "\" \"",
    }
}

fn id_text(bits_text: String) -> (r: Option<String>)
    ensures
        r.deep_view() == json_string(bits_text@),
{
    quote(bits_text.as_str())
}

/// Lays out the frame of a chat message around the JSON texts of the
/// sender's identifier and of what was said.
pub fn chat_frame(id_json: &str, body_json: &str) -> (text: String)
    ensures
        text@ == chat_layout(id_json@, body_json@),
{
    let mut text = String::from_str("{\"type\":\"ChatMessage\",\"from\":");
    text.append(id_json);
    text.append(",\"content\":");
    text.append(body_json);
    text.append("}");
    text
}

/// Lays out the frame of a game's state around the JSON texts of the
/// game's identifier and of its printed board.
pub fn update_frame(
    id_json: &str,
    board_json: &str,
    turn: Cell,
    game_over: bool,
    winner: Option<Cell>,
) -> (text: String)
    ensures
        text@ == update_layout(id_json@, board_json@, turn, game_over, winner),
{
    let mut text = String::from_str("{\"type\":\"GameStateUpdate\",\"session_id\":");
    text.append(id_json);
    text.append(",\"board\":");
    text.append(board_json);
    text.append(",\"turn\":");
    text.append(mark_text(turn));
    text.append(",\"game_over\":");
    text.append(
        if game_over {
            "true"
        } else {
            "false"
        },
    );
    text.append(",\"winner\":");
    text.append(
        match winner {
            Some(mark) => mark_text(mark),
            None => "null",
        },
    );
    text.append("}");
    text
}

/// Lays out one entry of a player list around the JSON texts of the
/// player's identifier and name.
pub fn entry_frame(id_json: &str, name_json: &str) -> (text: String)
    ensures
        text@ == entry_layout(id_json@, name_json@),
{
    let mut text = String::from_str("{\"id\":");
    text.append(id_json);
    text.append(",\"name\":");
    text.append(name_json);
    text.append("}");
    text
}

/// Lays out the frame of a player list around its entries, with a comma
/// between neighbours.
pub fn list_frame(entries: &Vec<String>) -> (text: String)
    ensures
        text@ == list_layout(texts_of(entries@)),
{
    let ghost all = texts_of(entries@);
    let mut list = String::new();
    let mut i: usize = 0;
    assert(all.take(0) =~= Seq::<Seq<char>>::empty());
    while i < entries.len()
        invariant
            i <= entries@.len(),
            all == texts_of(entries@),
            list@ == joined(all.take(i as int)),
        decreases entries@.len() - i,
    {
        proof {
            assert(all.take(i + 1).drop_last() =~= all.take(i as int));
            assert(all.take(i + 1).last() == entries@[i as int]@);
        }
        if i > 0 {
            list.append(",");
        }
        list.append(entries[i].as_str());
        assert(list@ =~= joined(all.take(i + 1)));
        i += 1;
    }
    assert(all.take(i as int) =~= all);
    let mut text = String::from_str("{\"type\":\"PlayerList\",\"players\":[");
    text.append(list.as_str());
    text.append("]}");
    text
}

/// Lays out the frame of an error around the JSON text of its message.
pub fn error_frame(body_json: &str) -> (text: String)
    ensures
        text@ == error_layout(body_json@),
{
    let mut text = String::from_str("{\"type\":\"Error\",\"message\":");
    text.append(body_json);
    text.append("}");
    text
}

/// Lays out the frame of the notice that an opponent left, around the
/// JSON text of the game's identifier.
pub fn farewell_frame(id_json: &str) -> (text: String)
    ensures
        text@ == farewell_layout(id_json@),
{
    let mut text = String::from_str("{\"type\":\"OpponentLeft\",\"session_id\":");
    text.append(id_json);
    text.append("}");
    text
}

fn encode_player(p: &Player) -> (r: Option<String>)
    ensures
        r.deep_view() == player_json(p@),
{
    let id = match id_text(p.id.text()) {
        Some(t) => t,
        None => {
            return None;
        },
    };
    let name = match quote(p.name.as_str()) {
        Some(t) => t,
        None => {
            return None;
        },
    };
    Some(entry_frame(id.as_str(), name.as_str()))
}

fn encode_players(players: &Vec<Player>) -> (r: Option<Vec<String>>)
    ensures
        match r {
            Some(entries) => players_json(players@.map_values(|p: Player| p@)) == Some(
                texts_of(entries@),
            ),
            None => players_json(players@.map_values(|p: Player| p@)) is None,
        },
{
    let ghost ps = players@.map_values(|p: Player| p@);
    let mut entries: Vec<String> = Vec::new();
    let mut i: usize = 0;
    assert(ps.take(0) =~= Seq::<PlayerView>::empty());
    assert(texts_of(entries@) =~= Seq::<Seq<char>>::empty());
    while i < players.len()
        invariant
            i <= players@.len(),
            ps == players@.map_values(|p: Player| p@),
            players_json(ps.take(i as int)) == Some(texts_of(entries@)),
        decreases players@.len() - i,
    {
        proof {
            assert(ps.take(i + 1).drop_last() =~= ps.take(i as int));
            assert(ps.take(i + 1).last() == players@[i as int]@);
        }
        match encode_player(&players[i]) {
            None => {
                proof {
                    lemma_players_json_prefix(ps, i + 1);
                }
                return None;
            },
            Some(entry) => {
                let ghost before = texts_of(entries@);
                entries.push(entry);
                assert(texts_of(entries@) =~= before.push(entry@));
            },
        }
        i += 1;
    }
    assert(ps.take(i as int) =~= ps);
    Some(entries)
}

impl ClientMessage {
    /// The message that hands `content`, said by `from`, to other clients.
    pub fn chat_message(from: ClientId, content: String) -> (m: ClientMessage)
        ensures
            m@ == (MessageView::ChatMessage { from, content: content@ }),
    {
        ClientMessage::ChatMessage { from, content }
    }

    /// The message that tells the players of a game its state.
    pub fn game_state_update(state: &GameSnapshot) -> (m: ClientMessage)
        ensures
            m@ == state_update(state@.0, state@.1),
    {
        ClientMessage::GameStateUpdate {
            session_id: state.session_id(),
            board: state.board().to_string(),
            turn: state.turn(),
            game_over: state.game_over(),
            winner: state.winner(),
        }
    }

    /// The message that lists the members of the lobby.
    pub fn player_list(players: Vec<Player>) -> (m: ClientMessage)
        ensures
            m@ == (MessageView::PlayerList { players: players@.map_values(|p: Player| p@) }),
    {
        ClientMessage::PlayerList { players }
    }

    /// The message that tells a client why its request was refused.
    pub fn error(message: String) -> (m: ClientMessage)
        ensures
            m@ == (MessageView::Error { message: message@ }),
    {
        ClientMessage::Error { message }
    }

    /// The message that tells a client that its opponent has left.
    pub fn opponent_left(session_id: SessionId) -> (m: ClientMessage)
        ensures
            m@ == (MessageView::OpponentLeft { session_id }),
    {
        ClientMessage::OpponentLeft { session_id }
    }

    /// The text of the frame that carries the message: its JSON text, or
    /// the empty text where that cannot be written.
    pub fn to_frame(&self) -> (text: String)
        ensures
            text@ == frame_text(self@),
    {
        match self.encode() {
            Some(text) => text,
            None => String::new(),
        }
    }

    /// The JSON text of the message, or `None` where one of its strings
    /// cannot be written as JSON.
    pub fn encode(&self) -> (r: Option<String>)
        ensures
            r.deep_view() == wire_text(self@),
    {
        match self {
            ClientMessage::ChatMessage { from, content } => {
                let id = match id_text(from.text()) {
                    Some(t) => t,
                    None => {
                        return None;
                    },
                };
                let body = match quote(content.as_str()) {
                    Some(t) => t,
                    None => {
                        return None;
                    },
                };
                Some(chat_frame(id.as_str(), body.as_str()))
            },
            ClientMessage::GameStateUpdate { session_id, board, turn, game_over, winner } => {
                let id = match id_text(session_id.text()) {
                    Some(t) => t,
                    None => {
                        return None;
                    },
                };
                let grid = match quote(board.as_str()) {
                    Some(t) => t,
                    None => {
                        return None;
                    },
                };
                Some(update_frame(id.as_str(), grid.as_str(), *turn, *game_over, *winner))
            },
            ClientMessage::PlayerList { players } => {
                match encode_players(players) {
                    Some(entries) => Some(list_frame(&entries)),
                    None => None,
                }
            },
            ClientMessage::Error { message } => {
                match quote(message.as_str()) {
                    Some(body) => Some(error_frame(body.as_str())),
                    None => None,
                }
            },
            ClientMessage::OpponentLeft { session_id } => {
                match id_text(session_id.text()) {
                    Some(id) => Some(farewell_frame(id.as_str())),
                    None => None,
                }
            },
        }
    }
}

/// What a client asks the broker to do.
#[derive(Debug)]
pub enum ClientAction {
    /// Say `content` to the other clients.
    ChatMessage { content: String },
    /// Place the client's mark at row `x`, column `y` of a game.
    MakeMove { session_id: SessionId, x: usize, y: usize },
    /// Enter the lobby under `name`.
    JoinLobby { name: String },
    /// Leave the lobby.
    LeaveLobby,
}

/// The mathematical model of an action.
pub enum ActionView {
    ChatMessage { content: Seq<char> },
    MakeMove { session_id: SessionId, x: usize, y: usize },
    JoinLobby { name: Seq<char> },
    LeaveLobby,
}

impl View for ClientAction {
    type V = ActionView;

    open spec fn view(&self) -> ActionView {
        match self {
            ClientAction::ChatMessage { content } => ActionView::ChatMessage { content: content@ },
            ClientAction::MakeMove { session_id, x, y } => ActionView::MakeMove {
                session_id: *session_id,
                x: *x,
                y: *y,
            },
            ClientAction::JoinLobby { name } => ActionView::JoinLobby { name: name@ },
            ClientAction::LeaveLobby => ActionView::LeaveLobby,
        }
    }
}

/// The row or column that a number of a frame stands for.
pub open spec fn coordinate(n: Option<u64>) -> Option<usize> {
    match n {
        Some(v) => if v <= usize::MAX {
            Some(v as usize)
        } else {
            None
        },
        None => None,
    }
}

/// The members of a frame that an action is read from.
pub struct Frame {
    /// The member `type`.
    pub kind: Option<Seq<char>>,
    /// The member `content`.
    pub content: Option<Seq<char>>,
    /// The member `session_id`, read as a UUID.
    pub session_id: Option<SessionId>,
    /// The member `x`.
    pub x: Option<u64>,
    /// The member `y`.
    pub y: Option<u64>,
    /// The member `name`.
    pub name: Option<Seq<char>>,
}

/// The members that a JSON document holds for a frame.
pub open spec fn frame_in(doc: serde_json::Value) -> Frame {
    Frame {
        kind: json_text_member(doc, "type"@),
        content: json_text_member(doc, "content"@),
        session_id: match json_text_member(doc, "session_id"@) {
            Some(id) => session_id_of(uuid_parse(id)),
            None => None,
        },
        x: json_number_member(doc, "x"@),
        y: json_number_member(doc, "y"@),
        name: json_text_member(doc, "name"@),
    }
}

/// The frame of a text that is no JSON: no member at all.
pub open spec fn no_frame() -> Frame {
    Frame { kind: None, content: None, session_id: None, x: None, y: None, name: None }
}

/// The members that the JSON text of a frame holds.
pub open spec fn frame_of(text: Seq<char>) -> Frame {
    match json_document(text) {
        Some(doc) => frame_in(doc),
        None => no_frame(),
    }
}

/// The action that the members of a frame ask for; `None` where the kind
/// is unknown or a member that the kind needs is missing.
pub open spec fn action_of(f: Frame) -> Option<ActionView> {
    match f.kind {
        None => None,
        Some(kind) => if kind == "ChatMessage"@ {
            match f.content {
                Some(content) => Some(ActionView::ChatMessage { content }),
                None => None,
            }
        } else if kind == "MakeMove"@ {
            match (f.session_id, coordinate(f.x), coordinate(f.y)) {
                (Some(session_id), Some(x), Some(y)) => Some(
                    ActionView::MakeMove { session_id, x, y },
                ),
                _ => None,
            }
        } else if kind == "JoinLobby"@ {
            match f.name {
                Some(name) => Some(ActionView::JoinLobby { name }),
                None => None,
            }
        } else if kind == "LeaveLobby"@ {
            Some(ActionView::LeaveLobby)
        } else {
            None
        },
    }
}

/// The view of an action that may be missing.
pub open spec fn action_view(a: Option<ClientAction>) -> Option<ActionView> {
    match a {
        Some(action) => Some(action@),
        None => None,
    }
}

fn to_coordinate(n: Option<u64>) -> (r: Option<usize>)
    ensures
        r == coordinate(n),
{
    match n {
        Some(v) => if v <= usize::MAX as u64 {
            Some(v as usize)
        } else {
            None
        },
        None => None,
    }
}

impl ClientAction {
    /// The action that says `content`.
    pub fn chat_message(content: String) -> (a: ClientAction)
        ensures
            a@ == (ActionView::ChatMessage { content: content@ }),
    {
        ClientAction::ChatMessage { content }
    }

    /// The action that asks for a move to row `x`, column `y` of the game
    /// `session_id`.
    pub fn make_move(session_id: SessionId, x: usize, y: usize) -> (a: ClientAction)
        ensures
            a@ == (ActionView::MakeMove { session_id, x, y }),
    {
        ClientAction::MakeMove { session_id, x, y }
    }

    /// The action that the members of a frame ask for.
    pub fn from_members(
        kind: Option<String>,
        content: Option<String>,
        session_id: Option<SessionId>,
        x: Option<u64>,
        y: Option<u64>,
        name: Option<String>,
    ) -> (a: Option<ClientAction>)
        ensures
            action_view(a) == action_of(
                Frame {
                    kind: kind.deep_view(),
                    content: content.deep_view(),
                    session_id,
                    x,
                    y,
                    name: name.deep_view(),
                },
            ),
    {
        let kind = match kind {
            Some(k) => k,
            None => {
                return None;
            },
        };
        if same_text(kind.as_str(), "ChatMessage") {
            match content {
                Some(content) => Some(ClientAction::chat_message(content)),
                None => None,
            }
        } else if same_text(kind.as_str(), "MakeMove") {
            match (session_id, to_coordinate(x), to_coordinate(y)) {
                (Some(session_id), Some(x), Some(y)) => Some(
                    ClientAction::make_move(session_id, x, y),
                ),
                _ => None,
            }
        } else if same_text(kind.as_str(), "JoinLobby") {
            match name {
                Some(name) => Some(ClientAction::JoinLobby { name }),
                None => None,
            }
        } else if same_text(kind.as_str(), "LeaveLobby") {
            Some(ClientAction::LeaveLobby)
        } else {
            None
        }
    }

    /// Reads an action from the JSON text of a frame; `None` where the
    /// text is malformed.
    pub fn decode(text: &str) -> (a: Option<ClientAction>)
        ensures
            action_view(a) == action_of(frame_of(text@)),
    {
        let doc = match parse(text) {
            Some(doc) => doc,
            None => {
                return None;
            },
        };
        let kind = text_member(&doc, "type");
        let content = text_member(&doc, "content");
        let session_id = match text_member(&doc, "session_id") {
            Some(id) => SessionId::parse(id.as_str()),
            None => None,
        };
        let x = number_member(&doc, "x");
        let y = number_member(&doc, "y");
        let name = text_member(&doc, "name");
        ClientAction::from_members(kind, content, session_id, x, y, name)
    }
}

} // verus!
