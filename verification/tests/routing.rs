use rustysignal::conn::ConnId;
use rustysignal::network::Network;
use rustysignal::server::parse_envelope;
use rustysignal::text::split_url_arguments;

const HELP: &str = "Invalid protocol, valid protocols include: \n                            'one-to-self'\n                            'one-to-one'\n                            'one-to-room'\n                            'one-to-all'";

fn open(net: &mut Network, resource: &str) -> (ConnId, Vec<(ConnId, String)>) {
    let conn = net.connect();
    let args = split_url_arguments(resource);
    assert!(args.len() >= 3);
    let replies = net.on_open(conn, &args);
    (conn, replies)
}

fn sends_of(net: &mut Network, sender: ConnId, text: &str) -> Vec<(ConnId, String)> {
    let (sends, _) = net.on_message(sender, text).expect("message handled");
    sends
}

#[test]
fn envelope_fields_are_extracted() {
    let env = parse_envelope(
        "{\"protocol\":\"one-to-room\",\"room\":\"r\",\"from\":\"alice\",\"endpoint\":\"bob\",\"action\":\"subscribe-push\",\"subscriptionData\":\"d\"}",
    );
    assert_eq!(env.protocol.as_deref(), Some("one-to-room"));
    assert_eq!(env.room.as_deref(), Some("r"));
    assert_eq!(env.from.as_deref(), Some("alice"));
    assert_eq!(env.endpoint.as_deref(), Some("bob"));
    assert_eq!(env.action.as_deref(), Some("subscribe-push"));
    assert_eq!(env.subscription_data.as_deref(), Some("d"));
}

#[test]
fn envelope_of_malformed_text_is_empty() {
    let env = parse_envelope("this is not json");
    assert!(env.protocol.is_none());
    assert!(env.room.is_none());
    assert!(env.endpoint.is_none());
    assert!(env.from.is_none());
    assert!(env.action.is_none());
    assert!(env.subscription_data.is_none());
}

#[test]
fn second_alice_is_refused() {
    let mut net = Network::default();
    let (a, replies_a) = open(&mut net, "user=alice&room=lobby");
    assert!(replies_a.is_empty());
    let (b, replies_b) = open(&mut net, "user=alice&room=lobby");
    assert_eq!(replies_b, vec![(b, "The username is taken".to_string())]);
    assert_eq!(net.lookup("alice"), Some(a));
    assert_eq!(net.size(), 1);
}

#[test]
fn one_to_self_echoes_to_sender_only() {
    let mut net = Network::default();
    let (a, _) = open(&mut net, "user=alice&room=lobby");
    let (_b, _) = open(&mut net, "user=bob&room=lobby");
    let text = "{\"protocol\":\"one-to-self\",\"from\":\"alice\"}";
    let sends = sends_of(&mut net, a, text);
    assert_eq!(sends, vec![(a, text.to_string())]);
}

#[test]
fn one_to_room_excludes_sender_by_identity() {
    let mut net = Network::default();
    let (a, _) = open(&mut net, "user=alice&room=r");
    let (b, _) = open(&mut net, "user=bob&room=r");
    let text = "{\"protocol\":\"one-to-room\",\"room\":\"r\",\"from\":\"alice\"}";
    let sends = sends_of(&mut net, a, text);
    assert_eq!(sends, vec![(b, text.to_string())]);
}

#[test]
fn room_broadcast_skips_closed_member() {
    let mut net = Network::default();
    let (a, _) = open(&mut net, "user=alice&room=r");
    let (b, _) = open(&mut net, "user=bob&room=r");
    let (c, _) = open(&mut net, "user=carol&room=r");
    net.on_close(b);
    let text = "{\"protocol\":\"one-to-room\",\"room\":\"r\",\"from\":\"alice\"}";
    let sends = sends_of(&mut net, a, text);
    // three members, one closed, the sender self-excluded: one delivery
    assert_eq!(sends, vec![(c, text.to_string())]);
    assert_eq!(net.rooms[0].nodes.len(), 3);
}

#[test]
fn one_to_room_without_room_field() {
    let mut net = Network::default();
    let (a, _) = open(&mut net, "user=alice&room=r");
    let sends = sends_of(&mut net, a, "{\"protocol\":\"one-to-room\"}");
    assert_eq!(sends, vec![(a, "No field 'room' provided".to_string())]);
}

#[test]
fn one_to_room_to_unknown_room_sends_nothing() {
    let mut net = Network::default();
    let (a, _) = open(&mut net, "user=alice&room=r");
    let sends = sends_of(&mut net, a, "{\"protocol\":\"one-to-room\",\"room\":\"elsewhere\"}");
    assert!(sends.is_empty());
}

#[test]
fn one_to_one_reaches_the_endpoint() {
    let mut net = Network::default();
    let (a, _) = open(&mut net, "user=alice&room=r");
    let (b, _) = open(&mut net, "user=bob&room=r");
    let text = "{\"protocol\":\"one-to-one\",\"endpoint\":\"bob\",\"from\":\"alice\"}";
    let sends = sends_of(&mut net, a, text);
    assert_eq!(sends, vec![(b, text.to_string())]);
}

#[test]
fn one_to_one_to_unknown_endpoint() {
    let mut net = Network::default();
    let (a, _) = open(&mut net, "user=alice&room=r");
    let sends = sends_of(&mut net, a, "{\"protocol\":\"one-to-one\",\"endpoint\":\"bob\"}");
    assert_eq!(
        sends,
        vec![(a, "Could not find a node with that name".to_string())]
    );
}

#[test]
fn one_to_one_without_endpoint_field() {
    let mut net = Network::default();
    let (a, _) = open(&mut net, "user=alice&room=r");
    let sends = sends_of(&mut net, a, "{\"protocol\":\"one-to-one\"}");
    assert_eq!(sends, vec![(a, "No field 'endpoint' provided".to_string())]);
}

#[test]
fn unknown_protocol_gets_help_text() {
    let mut net = Network::default();
    let (a, _) = open(&mut net, "user=alice&room=r");
    let sends = sends_of(&mut net, a, "{\"protocol\":\"unknown\"}");
    assert_eq!(sends, vec![(a, HELP.to_string())]);
}

#[test]
fn malformed_message_gets_help_text() {
    let mut net = Network::default();
    let (a, _) = open(&mut net, "user=alice&room=r");
    let sends = sends_of(&mut net, a, "not json at all");
    assert_eq!(sends, vec![(a, HELP.to_string())]);
}

#[test]
fn one_to_all_reaches_every_live_registered_connection() {
    let mut net = Network::default();
    let (a, _) = open(&mut net, "user=alice&room=r");
    let (b, _) = open(&mut net, "user=bob&room=r");
    let (c, _) = open(&mut net, "user=carol&room=r");
    net.on_close(c);
    let text = "{\"protocol\":\"one-to-all\"}";
    let sends = sends_of(&mut net, a, text);
    assert_eq!(sends, vec![(a, text.to_string()), (b, text.to_string())]);
}

#[test]
fn subscribe_push_then_connection_request() {
    let mut net = Network::default();
    net.set_vapid_path("private.pem");
    let (a, _) = open(&mut net, "user=alice&room=r");
    let (b, _) = open(&mut net, "user=bob&room=r");
    let (sends, push) = net
        .on_message(
            b,
            "{\"action\":\"subscribe-push\",\"subscriptionData\":\"bob-descriptor\"}",
        )
        .expect("registered sender");
    assert!(push.is_none());
    // no protocol tag: the main dispatch falls through to the help text
    assert_eq!(sends.len(), 1);
    let (sends2, push2) = net
        .on_message(a, "{\"action\":\"connection-request\",\"endpoint\":\"bob\"}")
        .expect("registered sender");
    assert_eq!(sends2.len(), 1);
    let req = push2.expect("bob has a descriptor");
    assert_eq!(req.subscription, "bob-descriptor");
    assert_eq!(req.vapid_path, "private.pem");
    assert_eq!(req.sender, "alice");
}

#[test]
fn connection_request_without_descriptor_is_silent() {
    let mut net = Network::default();
    let (a, _) = open(&mut net, "user=alice&room=r");
    let (sends, push) = net
        .on_message(a, "{\"action\":\"connection-request\",\"endpoint\":\"bob\"}")
        .expect("registered sender");
    assert!(push.is_none());
    assert_eq!(sends.len(), 1);
}

#[test]
fn push_actions_need_an_identity() {
    let mut net = Network::default();
    let a = net.connect();
    // never registered: the push sub-protocol refuses to act
    let r = net.on_message(
        a,
        "{\"action\":\"subscribe-push\",\"subscriptionData\":\"d\"}",
    );
    assert!(r.is_none());
}

#[test]
fn close_releases_identity_and_keeps_rooms() {
    let mut net = Network::default();
    let (a, _) = open(&mut net, "user=alice&room=r");
    net.on_close(a);
    assert_eq!(net.lookup("alice"), None);
    assert_eq!(net.size(), 0);
    assert_eq!(net.rooms.len(), 1);
    let (b, _) = open(&mut net, "user=alice&room=r");
    assert_eq!(net.lookup("alice"), Some(b));
}
