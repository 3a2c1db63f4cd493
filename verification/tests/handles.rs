use rustysignal::conn::{ConnId, ConnTable};
use rustysignal::network::Network;
use rustysignal::room::Room;
use rustysignal::text::split_url_arguments;

#[test]
fn slots_are_never_reused() {
    let mut table = ConnTable::new();
    let a = table.connect();
    let b = table.connect();
    assert_eq!(a, ConnId(0));
    assert_eq!(b, ConnId(1));
    table.disconnect(a);
    assert!(!table.is_live(a));
    assert!(table.is_live(b));
    let c = table.connect();
    assert_eq!(c, ConnId(2));
    assert!(!table.is_live(a));
}

#[test]
fn identity_slot_starts_unset() {
    let mut table = ConnTable::new();
    let a = table.connect();
    assert_eq!(table.identity_of(a), None);
    table.set_identity(a, "alice");
    assert_eq!(table.identity_of(a), Some("alice".to_string()));
    table.disconnect(a);
    // a closed slot keeps its identity; only liveness changes
    assert_eq!(table.identity_of(a), Some("alice".to_string()));
}

#[test]
fn stale_index_is_reported_not_live() {
    let table = ConnTable::new();
    assert!(!table.is_live(ConnId(7)));
}

#[test]
fn room_starts_empty_and_appends() {
    let mut room = Room::new("r");
    assert_eq!(room.name, "r");
    assert!(room.nodes.is_empty());
    room.add_node(ConnId(3));
    room.add_node(ConnId(5));
    assert_eq!(room.nodes, vec![ConnId(3), ConnId(5)]);
}

#[test]
fn open_without_user_keyword_registers_nobody() {
    let mut net = Network::default();
    let conn = net.connect();
    let args = split_url_arguments("x=1&y=2");
    let replies = net.on_open(conn, &args);
    assert!(replies.is_empty());
    assert_eq!(net.size(), 0);
    assert!(net.rooms.is_empty());
}

#[test]
fn open_with_user_but_no_room_keyword() {
    let mut net = Network::default();
    let conn = net.connect();
    let args = split_url_arguments("user=alice&x=y");
    let replies = net.on_open(conn, &args);
    assert!(replies.is_empty());
    assert_eq!(net.lookup("alice"), Some(conn));
    assert!(net.rooms.is_empty());
}

#[test]
fn open_joins_existing_room() {
    let mut net = Network::default();
    let a = net.connect();
    let b = net.connect();
    net.on_open(a, &split_url_arguments("user=alice&room=r"));
    net.on_open(b, &split_url_arguments("user=bob&room=r"));
    assert_eq!(net.rooms.len(), 1);
    assert_eq!(net.rooms[0].nodes, vec![a, b]);
}

#[test]
fn refused_username_leaves_identity_unset() {
    let mut net = Network::default();
    let a = net.connect();
    let b = net.connect();
    assert!(net.add_user("alice", a).is_ok());
    assert!(net.add_user("alice", b).is_err());
    assert_eq!(net.conns.identity_of(b), None);
    assert_eq!(net.conns.identity_of(a), Some("alice".to_string()));
}
