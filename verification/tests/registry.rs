use rustysignal::network::{Network, NetworkError};
use rustysignal::text::split_url_arguments;
use rustysignal::text::str_eq;

#[test]
fn username_claimed_once() {
    let mut net = Network::default();
    let a = net.connect();
    let b = net.connect();
    assert!(net.add_user("alice", a).is_ok());
    assert_eq!(net.add_user("alice", b), Err(NetworkError::UsernameTaken));
    assert_eq!(net.size(), 1);
    // the original mapping is unchanged
    assert_eq!(net.lookup("alice"), Some(a));
}

#[test]
fn unregister_frees_the_name() {
    let mut net = Network::default();
    let a = net.connect();
    assert!(net.add_user("alice", a).is_ok());
    net.remove("alice");
    assert_eq!(net.lookup("alice"), None);
    assert_eq!(net.size(), 0);
    let b = net.connect();
    assert!(net.add_user("alice", b).is_ok());
    assert_eq!(net.lookup("alice"), Some(b));
}

#[test]
fn remove_is_idempotent() {
    let mut net = Network::default();
    let a = net.connect();
    assert!(net.add_user("alice", a).is_ok());
    net.remove("alice");
    net.remove("alice");
    assert_eq!(net.size(), 0);
}

#[test]
fn create_room_is_idempotent() {
    let mut net = Network::default();
    net.create_room("lobby");
    net.create_room("lobby");
    assert_eq!(net.rooms.len(), 1);
    assert_eq!(net.rooms[0].name, "lobby");
    assert_eq!(net.find_room("lobby"), Some(0));
}

#[test]
fn join_keeps_duplicates() {
    let mut net = Network::default();
    let a = net.connect();
    net.create_room("lobby");
    net.add_user_to_room("lobby", a);
    net.add_user_to_room("lobby", a);
    assert_eq!(net.rooms[0].nodes.len(), 2);
    assert_eq!(net.rooms[0].nodes[0], a);
    assert_eq!(net.rooms[0].nodes[1], a);
}

#[test]
fn lookup_skips_closed_connection() {
    let mut net = Network::default();
    let a = net.connect();
    assert!(net.add_user("alice", a).is_ok());
    net.conns.disconnect(a);
    // the name is still bound, but resolves to absent
    assert_eq!(net.lookup("alice"), None);
    assert_eq!(net.size(), 1);
}

#[test]
fn subscription_store_overwrites() {
    let mut net = Network::default();
    let a = net.connect();
    assert!(net.add_user("alice", a).is_ok());
    net.set_vapid_path("keys/private.pem");
    net.add_subscription("first-descriptor", a);
    net.add_subscription("second-descriptor", a);
    assert_eq!(net.pushmap.len(), 1);
    let req = net.send_push("bob", "alice").expect("descriptor stored");
    assert_eq!(req.subscription, "second-descriptor");
    assert_eq!(req.vapid_path, "keys/private.pem");
    assert_eq!(req.sender, "bob");
}

#[test]
fn push_to_unknown_endpoint_is_silent() {
    let mut net = Network::default();
    assert!(net.send_push("alice", "nobody").is_none());
}

#[test]
fn split_flat_key_value_list() {
    let args = split_url_arguments("user=alice&room=lobby");
    assert_eq!(args, vec!["user", "alice", "room", "lobby"]);
}

#[test]
fn split_empty_and_edge_segments() {
    assert_eq!(split_url_arguments(""), vec![""]);
    assert_eq!(split_url_arguments("a&&b"), vec!["a", "", "b"]);
    assert_eq!(split_url_arguments("x="), vec!["x", ""]);
}

#[test]
fn str_eq_matches_rust_equality() {
    assert!(str_eq("one-to-room", "one-to-room"));
    assert!(!str_eq("one-to-room", "one-to-roomy"));
    assert!(!str_eq("", "a"));
    assert!(str_eq("", ""));
}
