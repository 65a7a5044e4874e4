use footbored::conduit::{deliver, position, ClientHandle, Delivery, Fanout};
use footbored::ident::ClientId;
use footbored::lobby::{Lobby, Player};
use footbored::registry::{BroadcastScope, ClientRegistry, SendError};
use tokio::sync::mpsc::{unbounded_channel, UnboundedReceiver};

const A: ClientId = ClientId(1);
const B: ClientId = ClientId(2);
const C: ClientId = ClientId(3);
const ID_A: &str = "00000000-0000-0000-0000-000000000001";
const ID_B: &str = "00000000-0000-0000-0000-000000000002";
const ID_C: &str = "00000000-0000-0000-0000-000000000003";

fn join(registry: &mut ClientRegistry, id: ClientId) -> UnboundedReceiver<String> {
    let (tx, rx) = unbounded_channel();
    assert!(!registry.is_connected(id));
    registry.register(id, tx);
    rx
}

fn drain(rx: &mut UnboundedReceiver<String>) -> Vec<String> {
    let mut out = Vec::new();
    while let Ok(text) = rx.try_recv() {
        out.push(text);
    }
    out
}

fn targets(done: &Fanout) -> Vec<ClientId> {
    done.deliveries.iter().map(|d| d.to).collect()
}

fn all_delivered(done: &Fanout) -> bool {
    done.deliveries.iter().all(|d| d.delivered)
}

fn list(entries: &[(&str, &str)]) -> String {
    let inner: Vec<String> =
        entries.iter().map(|(id, name)| format!("{{\"id\":\"{}\",\"name\":\"{}\"}}", id, name)).collect();
    format!("{{\"type\":\"PlayerList\",\"players\":[{}]}}", inner.join(","))
}

#[test]
fn register_and_unregister() {
    let mut registry = ClientRegistry::new();
    assert_eq!(registry.len(), 0);
    let _a = join(&mut registry, A);
    let _b = join(&mut registry, B);
    assert!(registry.is_connected(A) && registry.is_connected(B) && !registry.is_connected(C));
    assert_eq!(registry.len(), 2);
    registry.unregister(A);
    assert!(!registry.is_connected(A) && registry.is_connected(B));
    assert_eq!(registry.len(), 1);
}

#[test]
fn unregistering_twice_is_the_same_as_once() {
    let mut registry = ClientRegistry::new();
    let _a = join(&mut registry, A);
    let _b = join(&mut registry, B);
    registry.join_lobby(A, "ann".to_string()).unwrap();
    registry.join_lobby(B, "bob".to_string()).unwrap();
    registry.unregister(A);
    let after_once = (registry.len(), registry.in_lobby(A), registry.in_lobby(B), registry.player_list().to_frame());
    registry.unregister(A);
    let after_twice = (registry.len(), registry.in_lobby(A), registry.in_lobby(B), registry.player_list().to_frame());
    assert_eq!(after_once, after_twice);
    assert_eq!(after_once, (1, false, true, list(&[(ID_B, "bob")])));
    registry.unregister(C);
    assert_eq!(registry.len(), 1);
}

#[test]
fn connect_draws_a_fresh_identifier() {
    let mut registry = ClientRegistry::new();
    let (tx1, _rx1) = unbounded_channel();
    let (tx2, _rx2) = unbounded_channel();
    let first = registry.connect(tx1).unwrap();
    let second = registry.connect(tx2).unwrap();
    assert_ne!(first, second);
    assert!(registry.is_connected(first) && registry.is_connected(second));
    assert_eq!(registry.len(), 2);
}

#[test]
fn send_to_reaches_the_clients_queue() {
    let mut registry = ClientRegistry::new();
    let mut a = join(&mut registry, A);
    let mut b = join(&mut registry, B);
    assert_eq!(registry.send_to(A, "one".to_string()), Ok(()));
    assert_eq!(registry.send_to(A, "two".to_string()), Ok(()));
    assert_eq!(drain(&mut a), vec!["one".to_string(), "two".to_string()]);
    assert!(drain(&mut b).is_empty());
}

#[test]
fn send_to_an_unknown_client_fails() {
    let mut registry = ClientRegistry::new();
    assert_eq!(registry.send_to(A, "x".to_string()), Err(SendError::Unknown));
    let _a = join(&mut registry, A);
    registry.unregister(A);
    assert_eq!(registry.send_to(A, "x".to_string()), Err(SendError::Unknown));
}

#[test]
fn send_to_a_closed_queue_fails() {
    let mut registry = ClientRegistry::new();
    let a = join(&mut registry, A);
    drop(a);
    assert_eq!(registry.send_to(A, "x".to_string()), Err(SendError::Closed));
    let mut b = join(&mut registry, B);
    b.close();
    assert_eq!(registry.send_to(B, "x".to_string()), Err(SendError::Closed));
}

#[test]
fn broadcast_to_all_leaves_out_the_sender() {
    let mut registry = ClientRegistry::new();
    let mut a = join(&mut registry, A);
    let mut b = join(&mut registry, B);
    let mut c = join(&mut registry, C);
    let done = registry.broadcast(B, "hi".to_string(), BroadcastScope::AllExceptSender);
    assert_eq!(done.text, "hi");
    assert_eq!(targets(&done), vec![A, C]);
    assert!(all_delivered(&done));
    assert_eq!(drain(&mut a), vec!["hi".to_string()]);
    assert!(drain(&mut b).is_empty());
    assert_eq!(drain(&mut c), vec!["hi".to_string()]);
    let from_stranger = registry.broadcast(ClientId(9), "yo".to_string(), BroadcastScope::AllExceptSender);
    assert_eq!(targets(&from_stranger), vec![A, B, C]);
}

#[test]
fn broadcast_to_the_lobby_includes_the_sender() {
    let mut registry = ClientRegistry::new();
    let mut a = join(&mut registry, A);
    let mut b = join(&mut registry, B);
    let mut c = join(&mut registry, C);
    registry.join_lobby(C, "cy".to_string()).unwrap();
    registry.join_lobby(A, "ann".to_string()).unwrap();
    drain(&mut a);
    drain(&mut c);
    let done = registry.broadcast(A, "hi".to_string(), BroadcastScope::LobbyOnly);
    assert_eq!(targets(&done), vec![C, A]);
    assert!(all_delivered(&done));
    assert_eq!(drain(&mut a), vec!["hi".to_string()]);
    assert!(drain(&mut b).is_empty());
    assert_eq!(drain(&mut c), vec!["hi".to_string()]);
    let from_outside = registry.broadcast(B, "yo".to_string(), BroadcastScope::LobbyOnly);
    assert_eq!(targets(&from_outside), vec![C, A]);
}

#[test]
fn a_closed_queue_does_not_stop_a_broadcast() {
    let mut registry = ClientRegistry::new();
    let a = join(&mut registry, A);
    let mut b = join(&mut registry, B);
    let mut c = join(&mut registry, C);
    drop(a);
    let done = registry.broadcast(ClientId(9), "hi".to_string(), BroadcastScope::AllExceptSender);
    assert_eq!(
        done.deliveries,
        vec![
            Delivery { to: A, delivered: false },
            Delivery { to: B, delivered: true },
            Delivery { to: C, delivered: true },
        ]
    );
    assert_eq!(drain(&mut b), vec!["hi".to_string()]);
    assert_eq!(drain(&mut c), vec!["hi".to_string()]);
}

#[test]
fn snapshot_outlives_the_registry() {
    let mut registry = ClientRegistry::new();
    let mut a = join(&mut registry, A);
    let mut b = join(&mut registry, B);
    let snapshot = registry.snapshot(A, BroadcastScope::AllExceptSender);
    registry.unregister(B);
    drop(registry);
    let done = deliver(&snapshot, "late".to_string());
    assert_eq!(targets(&done), vec![B]);
    assert!(all_delivered(&done));
    assert_eq!(drain(&mut b), vec!["late".to_string()]);
    assert!(drain(&mut a).is_empty());
}

#[test]
fn joining_the_lobby_tells_every_member() {
    let mut registry = ClientRegistry::new();
    let mut a = join(&mut registry, A);
    let mut b = join(&mut registry, B);
    let mut c = join(&mut registry, C);
    let first = registry.join_lobby(A, "ann".to_string()).unwrap();
    assert_eq!(targets(&first), vec![A]);
    assert_eq!(first.text, list(&[(ID_A, "ann")]));
    let second = registry.join_lobby(B, "bob".to_string()).unwrap();
    assert_eq!(targets(&second), vec![A, B]);
    assert_eq!(second.text, list(&[(ID_A, "ann"), (ID_B, "bob")]));
    assert!(registry.in_lobby(A) && registry.in_lobby(B) && !registry.in_lobby(C));
    assert_eq!(registry.display_name(B), Some("bob".to_string()));
    assert_eq!(registry.display_name(C), None);
    assert_eq!(drain(&mut a), vec![list(&[(ID_A, "ann")]), list(&[(ID_A, "ann"), (ID_B, "bob")])]);
    assert_eq!(drain(&mut b), vec![list(&[(ID_A, "ann"), (ID_B, "bob")])]);
    assert!(drain(&mut c).is_empty());
}

#[test]
fn joining_again_renames_the_member() {
    let mut registry = ClientRegistry::new();
    let _a = join(&mut registry, A);
    let _b = join(&mut registry, B);
    registry.join_lobby(A, "ann".to_string()).unwrap();
    registry.join_lobby(B, "bob".to_string()).unwrap();
    let done = registry.join_lobby(A, "anna".to_string()).unwrap();
    assert_eq!(done.text, list(&[(ID_B, "bob"), (ID_A, "anna")]));
    assert_eq!(targets(&done), vec![B, A]);
    assert_eq!(registry.display_name(A), Some("anna".to_string()));
}

#[test]
fn leaving_the_lobby_tells_the_members_and_the_leaver() {
    let mut registry = ClientRegistry::new();
    let mut a = join(&mut registry, A);
    let mut b = join(&mut registry, B);
    let _c = join(&mut registry, C);
    registry.join_lobby(A, "ann".to_string()).unwrap();
    registry.join_lobby(B, "bob".to_string()).unwrap();
    registry.join_lobby(C, "cy".to_string()).unwrap();
    drain(&mut a);
    drain(&mut b);
    let done = registry.leave_lobby(A).unwrap();
    assert_eq!(targets(&done), vec![B, C, A]);
    assert_eq!(done.text, list(&[(ID_B, "bob"), (ID_C, "cy")]));
    assert!(!registry.in_lobby(A));
    assert!(registry.is_connected(A));
    assert_eq!(drain(&mut a), vec![list(&[(ID_B, "bob"), (ID_C, "cy")])]);
    assert_eq!(drain(&mut b), vec![list(&[(ID_B, "bob"), (ID_C, "cy")])]);
    let again = registry.leave_lobby(A).unwrap();
    assert_eq!(targets(&again), vec![B, C, A]);
    assert_eq!(again.text, list(&[(ID_B, "bob"), (ID_C, "cy")]));
}

#[test]
fn the_lobby_is_closed_to_unknown_clients() {
    let mut registry = ClientRegistry::new();
    let mut a = join(&mut registry, A);
    registry.join_lobby(A, "ann".to_string()).unwrap();
    drain(&mut a);
    assert_eq!(registry.join_lobby(B, "bob".to_string()).err(), Some(SendError::Unknown));
    assert_eq!(registry.leave_lobby(B).err(), Some(SendError::Unknown));
    assert!(!registry.in_lobby(B));
    assert_eq!(registry.player_list().to_frame(), list(&[(ID_A, "ann")]));
    assert!(drain(&mut a).is_empty());
}

#[test]
fn notify_reaches_the_connected_recipients_in_order() {
    let mut registry = ClientRegistry::new();
    let mut a = join(&mut registry, A);
    let mut b = join(&mut registry, B);
    let done = registry.notify(&vec![B, C, A, B], "n".to_string());
    assert_eq!(targets(&done), vec![B, A, B]);
    assert_eq!(drain(&mut a), vec!["n".to_string()]);
    assert_eq!(drain(&mut b), vec!["n".to_string(), "n".to_string()]);
    assert!(registry.notify(&Vec::new(), "n".to_string()).deliveries.is_empty());
}

#[test]
fn lobby_keeps_one_entry_for_each_identifier() {
    let mut lobby = Lobby::new();
    assert_eq!(lobby.len(), 0);
    lobby.add_player(Player { id: A, name: "ann".to_string() });
    lobby.add_player(Player { id: B, name: "bob".to_string() });
    lobby.add_player(Player { id: A, name: "anna".to_string() });
    assert_eq!(lobby.len(), 2);
    assert!(lobby.contains(A) && lobby.contains(B) && !lobby.contains(C));
    assert_eq!(lobby.name_of(A), Some("anna".to_string()));
    assert_eq!(lobby.name_of(C), None);
    let members: Vec<(ClientId, String)> = lobby.members().into_iter().map(|p| (p.id, p.name)).collect();
    assert_eq!(members, vec![(B, "bob".to_string()), (A, "anna".to_string())]);
    lobby.remove_player(C);
    assert_eq!(lobby.len(), 2);
    lobby.remove_player(B);
    lobby.remove_player(B);
    assert_eq!(lobby.len(), 1);
    assert_eq!(lobby.player_list().to_frame(), list(&[(ID_A, "anna")]));
}

#[test]
fn lobby_fan_out_skips_members_without_a_connection() {
    let (tx_a, mut a) = unbounded_channel();
    let (tx_c, mut c) = unbounded_channel();
    let clients = vec![ClientHandle::new(C, tx_c), ClientHandle::new(A, tx_a)];
    assert_eq!(position(&clients, A), Some(1));
    assert_eq!(position(&clients, B), None);
    let mut lobby = Lobby::new();
    let first = lobby.join_lobby(Player { id: A, name: "ann".to_string() }, &clients);
    assert_eq!(targets(&first), vec![A]);
    let second = lobby.join_lobby(Player { id: B, name: "bob".to_string() }, &clients);
    assert_eq!(targets(&second), vec![A]);
    assert_eq!(second.text, list(&[(ID_A, "ann"), (ID_B, "bob")]));
    let third = lobby.join_lobby(Player { id: C, name: "cy".to_string() }, &clients);
    assert_eq!(targets(&third), vec![A, C]);
    let said = lobby.broadcast_message("hello".to_string(), &clients);
    assert_eq!(said.text, "hello");
    assert_eq!(targets(&said), vec![A, C]);
    let left = lobby.leave_lobby(A, &clients);
    assert_eq!(targets(&left), vec![C, A]);
    assert_eq!(left.text, list(&[(ID_B, "bob"), (ID_C, "cy")]));
    let gone = lobby.leave_lobby(B, &clients);
    assert_eq!(targets(&gone), vec![C]);
    assert_eq!(drain(&mut a).len(), 5);
    assert_eq!(drain(&mut c).len(), 4);
    let handles = lobby.snapshot(&clients);
    assert_eq!(handles.len(), 1);
    assert_eq!(handles[0].id, C);
    assert!(handles[0].share().send("direct".to_string()));
    assert_eq!(drain(&mut c), vec!["direct".to_string()]);
}

#[test]
fn accept_takes_a_free_identifier_only() {
    let mut registry = ClientRegistry::new();
    let (tx_a, mut a) = unbounded_channel();
    let (tx_b, mut b) = unbounded_channel();
    let (tx_c, _c) = unbounded_channel();
    assert_eq!(registry.accept(A, tx_a), Some(A));
    assert_eq!(registry.accept(A, tx_b), None);
    assert_eq!(registry.len(), 1);
    assert_eq!(registry.send_to(A, "kept".to_string()), Ok(()));
    assert_eq!(drain(&mut a), vec!["kept".to_string()]);
    assert!(drain(&mut b).is_empty());
    assert_eq!(registry.accept(B, tx_c), Some(B));
    assert!(registry.is_connected(A) && registry.is_connected(B));
}

#[test]
fn the_first_connection_is_always_taken_in() {
    for _ in 0..20 {
        let mut registry = ClientRegistry::new();
        let (tx, _rx) = unbounded_channel();
        let id = registry.connect(tx).expect("an empty registry holds no identifier");
        assert_eq!(id.0 & 0x0000_0000_0000_f000_c000_0000_0000_0000, 0x0000_0000_0000_4000_8000_0000_0000_0000);
        assert!(registry.is_connected(id));
        assert_eq!(registry.len(), 1);
    }
}
