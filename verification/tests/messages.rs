use footbored::board::Cell;
use footbored::client::{
    chat_frame, entry_frame, error_frame, farewell_frame, list_frame, update_frame, ClientAction,
    ClientMessage,
};
use footbored::ident::{ClientId, SessionId};
use footbored::lobby::Player;
use footbored::session::SessionTable;
use footbored::wire::{number_member, parse, quote, same_text, text_member};

const ID_1: &str = "00000000-0000-0000-0000-000000000001";
const ID_2: &str = "00000000-0000-0000-0000-000000000002";

fn parsed(text: &str) -> serde_json::Value {
    serde_json::from_str(text).expect("the frame is JSON")
}

#[test]
fn quote_writes_a_json_string() {
    assert_eq!(quote("hi"), Some("\"hi\"".to_string()));
    assert_eq!(quote(""), Some("\"\"".to_string()));
    assert_eq!(quote("a\"b\\c\nd"), Some("\"a\\\"b\\\\c\\nd\"".to_string()));
    assert_eq!(quote("\u{1}é"), Some("\"\\u0001é\"".to_string()));
}

#[test]
fn same_text_compares_contents() {
    assert!(same_text("MakeMove", "MakeMove"));
    assert!(!same_text("MakeMove", "makemove"));
    assert!(!same_text("", " "));
}

#[test]
fn chat_message_frame() {
    let m = ClientMessage::chat_message(ClientId(1), "hello \"you\"".to_string());
    let text = m.to_frame();
    assert_eq!(
        text,
        format!("{{\"type\":\"ChatMessage\",\"from\":\"{}\",\"content\":\"hello \\\"you\\\"\"}}", ID_1)
    );
    assert_eq!(m.encode(), Some(text.clone()));
    let v = parsed(&text);
    assert_eq!(v["type"], "ChatMessage");
    assert_eq!(v["from"], ID_1);
    assert_eq!(v["content"], "hello \"you\"");
}

#[test]
fn game_state_update_frame() {
    let mut table = SessionTable::new();
    table.open_session(SessionId(2), ClientId(1), ClientId(3)).unwrap();
    let shot = table.make_move(SessionId(2), ClientId(1), 0, 1).unwrap();
    let text = ClientMessage::game_state_update(&shot).to_frame();
    assert_eq!(
        text,
        format!(
            "{{\"type\":\"GameStateUpdate\",\"session_id\":\"{}\",\"board\":\" |X| \\n | | \\n | | \",\"turn\":\"O\",\"game_over\":false,\"winner\":null}}",
            ID_2
        )
    );
    let v = parsed(&text);
    assert_eq!(v["type"], "GameStateUpdate");
    assert_eq!(v["session_id"], ID_2);
    assert_eq!(v["board"], " |X| \n | | \n | | ");
    assert_eq!(v["turn"], "O");
    assert_eq!(v["game_over"], false);
    assert!(v["winner"].is_null());
}

#[test]
fn game_state_update_frame_of_a_won_game() {
    let mut table = SessionTable::new();
    table.open_session(SessionId(2), ClientId(1), ClientId(3)).unwrap();
    let moves = [(1, 0, 0), (3, 1, 1), (1, 0, 1), (3, 2, 2), (1, 0, 2)];
    let mut last = None;
    for &(p, x, y) in &moves {
        last = Some(table.make_move(SessionId(2), ClientId(p), x, y).unwrap());
    }
    let text = ClientMessage::game_state_update(&last.unwrap()).to_frame();
    let v = parsed(&text);
    assert_eq!(v["board"], "X|X|X\n |O| \n | |O");
    assert_eq!(v["turn"], "O");
    assert_eq!(v["game_over"], true);
    assert_eq!(v["winner"], "X");
    assert!(text.ends_with(",\"turn\":\"O\",\"game_over\":true,\"winner\":\"X\"}"));
}

#[test]
fn player_list_frame() {
    let none = ClientMessage::player_list(Vec::new()).to_frame();
    assert_eq!(none, "{\"type\":\"PlayerList\",\"players\":[]}");
    let one = ClientMessage::player_list(vec![Player { id: ClientId(1), name: "ann".to_string() }])
        .to_frame();
    assert_eq!(
        one,
        format!("{{\"type\":\"PlayerList\",\"players\":[{{\"id\":\"{}\",\"name\":\"ann\"}}]}}", ID_1)
    );
    let two = ClientMessage::player_list(vec![
        Player { id: ClientId(2), name: "b\\o".to_string() },
        Player { id: ClientId(1), name: "ann".to_string() },
    ])
    .to_frame();
    assert_eq!(
        two,
        format!(
            "{{\"type\":\"PlayerList\",\"players\":[{{\"id\":\"{}\",\"name\":\"b\\\\o\"}},{{\"id\":\"{}\",\"name\":\"ann\"}}]}}",
            ID_2, ID_1
        )
    );
    let v = parsed(&two);
    assert_eq!(v["players"][0]["name"], "b\\o");
    assert_eq!(v["players"][1]["id"], ID_1);
    assert_eq!(v["players"].as_array().map(|a| a.len()), Some(2));
}

#[test]
fn error_and_opponent_left_frames() {
    assert_eq!(
        ClientMessage::error("not your turn".to_string()).to_frame(),
        "{\"type\":\"Error\",\"message\":\"not your turn\"}"
    );
    assert_eq!(
        ClientMessage::opponent_left(SessionId(2)).to_frame(),
        format!("{{\"type\":\"OpponentLeft\",\"session_id\":\"{}\"}}", ID_2)
    );
}

#[test]
fn update_fields_follow_the_snapshot() {
    let mut table = SessionTable::new();
    table.open_session(SessionId(2), ClientId(1), ClientId(3)).unwrap();
    let shot = table.snapshot(SessionId(2)).unwrap();
    match ClientMessage::game_state_update(&shot) {
        ClientMessage::GameStateUpdate { session_id, board, turn, game_over, winner } => {
            assert_eq!(session_id, SessionId(2));
            assert_eq!(board, " | | \n | | \n | | ");
            assert_eq!(turn, Cell::X);
            assert!(!game_over);
            assert_eq!(winner, None);
        }
        other => panic!("unexpected message {:?}", other),
    }
}

fn decoded(text: &str) -> String {
    format!("{:?}", ClientAction::decode(text))
}

#[test]
fn decode_reads_each_action() {
    assert_eq!(
        decoded("{\"type\":\"ChatMessage\",\"content\":\"hi there\"}"),
        "Some(ChatMessage { content: \"hi there\" })"
    );
    assert_eq!(
        decoded(&format!("{{\"type\":\"MakeMove\",\"session_id\":\"{}\",\"x\":1,\"y\":2}}", ID_2)),
        "Some(MakeMove { session_id: SessionId(2), x: 1, y: 2 })"
    );
    assert_eq!(
        decoded("{\"type\":\"JoinLobby\",\"name\":\"ann\"}"),
        "Some(JoinLobby { name: \"ann\" })"
    );
    assert_eq!(decoded("{\"type\":\"LeaveLobby\"}"), "Some(LeaveLobby)");
    assert_eq!(
        decoded(" { \"content\" : \"a\\nb\", \"extra\": [1, 2], \"type\" : \"ChatMessage\" } "),
        "Some(ChatMessage { content: \"a\\nb\" })"
    );
}

#[test]
fn decode_keeps_coordinates_outside_the_board() {
    assert_eq!(
        decoded(&format!("{{\"type\":\"MakeMove\",\"session_id\":\"{}\",\"x\":3,\"y\":70}}", ID_1)),
        "Some(MakeMove { session_id: SessionId(1), x: 3, y: 70 })"
    );
}

#[test]
fn decode_drops_malformed_frames() {
    let malformed = [
        "",
        "hello",
        "/message hi",
        "[]",
        "42",
        "{\"type\":\"ChatMessage\"",
        "{}",
        "{\"type\":7}",
        "{\"type\":\"Shout\",\"content\":\"hi\"}",
        "{\"type\":\"chatmessage\",\"content\":\"hi\"}",
        "{\"type\":\"ChatMessage\"}",
        "{\"type\":\"ChatMessage\",\"content\":5}",
        "{\"type\":\"JoinLobby\"}",
        "{\"type\":\"JoinLobby\",\"name\":null}",
        "{\"type\":\"MakeMove\",\"x\":1,\"y\":2}",
        "{\"type\":\"MakeMove\",\"session_id\":\"nope\",\"x\":1,\"y\":2}",
        "{\"type\":\"MakeMove\",\"session_id\":\"00000000-0000-0000-0000-000000000001\",\"y\":2}",
        "{\"type\":\"MakeMove\",\"session_id\":\"00000000-0000-0000-0000-000000000001\",\"x\":1}",
        "{\"type\":\"MakeMove\",\"session_id\":\"00000000-0000-0000-0000-000000000001\",\"x\":-1,\"y\":2}",
        "{\"type\":\"MakeMove\",\"session_id\":\"00000000-0000-0000-0000-000000000001\",\"x\":1.5,\"y\":2}",
        "{\"type\":\"MakeMove\",\"session_id\":\"00000000-0000-0000-0000-000000000001\",\"x\":\"1\",\"y\":2}",
        "{\"type\":\"MakeMove\",\"session_id\":5,\"x\":1,\"y\":2}",
    ];
    for text in malformed {
        assert!(ClientAction::decode(text).is_none(), "{}", text);
    }
}

#[test]
fn from_members_decides_by_kind() {
    let s = |t: &str| Some(t.to_string());
    assert_eq!(
        format!("{:?}", ClientAction::from_members(s("ChatMessage"), s("yo"), None, None, None, None)),
        "Some(ChatMessage { content: \"yo\" })"
    );
    assert_eq!(
        format!(
            "{:?}",
            ClientAction::from_members(
                s("MakeMove"),
                s("ignored"),
                Some(SessionId(5)),
                Some(0),
                Some(2),
                s("ignored")
            )
        ),
        "Some(MakeMove { session_id: SessionId(5), x: 0, y: 2 })"
    );
    assert_eq!(
        format!("{:?}", ClientAction::from_members(s("JoinLobby"), None, None, None, None, s("ann"))),
        "Some(JoinLobby { name: \"ann\" })"
    );
    assert_eq!(
        format!("{:?}", ClientAction::from_members(s("LeaveLobby"), None, None, None, None, None)),
        "Some(LeaveLobby)"
    );
    assert!(ClientAction::from_members(None, s("yo"), None, None, None, None).is_none());
    assert!(ClientAction::from_members(s("ChatMessage"), None, None, None, None, s("x")).is_none());
    assert!(ClientAction::from_members(s("MakeMove"), None, None, Some(1), Some(1), None).is_none());
    assert!(
        ClientAction::from_members(s("MakeMove"), None, Some(SessionId(1)), None, Some(1), None)
            .is_none()
    );
    assert!(
        ClientAction::from_members(s("MakeMove"), None, Some(SessionId(1)), Some(1), None, None)
            .is_none()
    );
    assert!(ClientAction::from_members(s("JoinLobby"), s("x"), None, None, None, None).is_none());
    assert!(ClientAction::from_members(s("Other"), s("x"), None, None, None, s("x")).is_none());
}

#[test]
fn action_constructors() {
    assert_eq!(
        format!("{:?}", ClientAction::chat_message("hi".to_string())),
        "ChatMessage { content: \"hi\" }"
    );
    assert_eq!(
        format!("{:?}", ClientAction::make_move(SessionId(3), 2, 1)),
        "MakeMove { session_id: SessionId(3), x: 2, y: 1 }"
    );
}

#[test]
fn frames_are_laid_out_around_the_given_texts() {
    assert_eq!(
        chat_frame("ID", "BODY"),
        "{\"type\":\"ChatMessage\",\"from\":ID,\"content\":BODY}"
    );
    assert_eq!(
        update_frame("ID", "GRID", Cell::O, false, None),
        "{\"type\":\"GameStateUpdate\",\"session_id\":ID,\"board\":GRID,\"turn\":\"O\",\"game_over\":false,\"winner\":null}"
    );
    assert_eq!(
        update_frame("", "", Cell::X, true, Some(Cell::O)),
        "{\"type\":\"GameStateUpdate\",\"session_id\":,\"board\":,\"turn\":\"X\",\"game_over\":true,\"winner\":\"O\"}"
    );
    assert_eq!(entry_frame("ID", "NAME"), "{\"id\":ID,\"name\":NAME}");
    assert_eq!(error_frame("BODY"), "{\"type\":\"Error\",\"message\":BODY}");
    assert_eq!(
        farewell_frame("ID"),
        "{\"type\":\"OpponentLeft\",\"session_id\":ID}"
    );
}

#[test]
fn list_frame_puts_commas_between_entries() {
    let list = |entries: &[&str]| {
        list_frame(&entries.iter().map(|e| e.to_string()).collect())
    };
    assert_eq!(list(&[]), "{\"type\":\"PlayerList\",\"players\":[]}");
    assert_eq!(list(&["A"]), "{\"type\":\"PlayerList\",\"players\":[A]}");
    assert_eq!(list(&["A", "B"]), "{\"type\":\"PlayerList\",\"players\":[A,B]}");
    assert_eq!(list(&["A", "", "C"]), "{\"type\":\"PlayerList\",\"players\":[A,,C]}");
}

#[test]
fn members_are_read_from_a_parsed_document() {
    let doc = parse("{\"a\":\"text\",\"n\":7,\"neg\":-1,\"f\":1.5,\"o\":{\"a\":\"in\"}}")
        .expect("the text is JSON");
    assert_eq!(text_member(&doc, "a"), Some("text".to_string()));
    assert_eq!(text_member(&doc, "n"), None);
    assert_eq!(text_member(&doc, "missing"), None);
    assert_eq!(text_member(&doc, "o"), None);
    assert_eq!(number_member(&doc, "n"), Some(7));
    assert_eq!(number_member(&doc, "neg"), None);
    assert_eq!(number_member(&doc, "f"), None);
    assert_eq!(number_member(&doc, "a"), None);
    assert_eq!(number_member(&doc, "missing"), None);
    let list = parse("[\"a\"]").expect("the text is JSON");
    assert_eq!(text_member(&list, "a"), None);
    assert_eq!(number_member(&list, "0"), None);
    assert!(parse("").is_none());
    assert!(parse("{\"a\":1} x").is_none());
    assert!(parse("{a:1}").is_none());
}
