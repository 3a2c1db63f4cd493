//! The message-level behaviour of the relay: the envelope a client sends, the
//! push sub-protocol, the main protocol dispatch, and the registration side
//! channel that runs on connection open and close.
//!
//! No delivery happens here. Every decision is returned as plain values: a
//! list of `(receiver, text)` pairs for the transport to send, and an optional
//! push request for the push collaborator to carry out.

use vstd::prelude::*;
use vstd::pervasive::unreached;
use crate::conn::{opt_view, ConnId};
use crate::network::{
    has_push, has_room, has_user, push_value, remove_user_rel, room_index, rooms_unique,
    set_push_rel, user_conn, Network, PushRequest,
};
use crate::room::Room;
use crate::text::str_eq;

verus! {

/// The structured message a connection sends: the protocol tag and the
/// mode-dependent fields, each absent when the message lacks it or when the
/// message is not a JSON object at all.
pub struct Envelope {
    pub protocol: Option<String>,
    pub room: Option<String>,
    pub endpoint: Option<String>,
    pub from: Option<String>,
    pub action: Option<String>,
    pub subscription_data: Option<String>,
}

/// The string field stored under `key` in the JSON object `text` encodes, or
/// `None` when `text` is not a JSON object, lacks the key, or holds a
/// non-string value there. A pure function of the two arguments.
pub uninterp spec fn json_str_field(text: Seq<char>, key: Seq<char>) -> Option<Seq<char>>;

/// Relies on serde_json::from_str::<Value> together with Value::get and
/// Value::as_str: for a fixed message and key the extracted string field is a
/// function of those two arguments alone, and a malformed message yields no
/// field, exactly as an envelope with every field absent would.
#[verifier::external_body]
fn json_field(text: &str, key: &str) -> (r: Option<String>)
    ensures
        opt_view(r) == json_str_field(text@, key@),
{
    match serde_json::from_str::<serde_json::Value>(text) {
        Ok(v) => v.get(key).and_then(|f| f.as_str()).map(|s| s.to_string()),
        Err(_) => None,
    }
}

/// The envelope `env` holds exactly the recognized string fields of `text`.
pub open spec fn env_matches(env: Envelope, text: Seq<char>) -> bool {
    &&& opt_view(env.protocol) == json_str_field(text, "protocol"@)
    &&& opt_view(env.room) == json_str_field(text, "room"@)
    &&& opt_view(env.endpoint) == json_str_field(text, "endpoint"@)
    &&& opt_view(env.from) == json_str_field(text, "from"@)
    &&& opt_view(env.action) == json_str_field(text, "action"@)
    &&& opt_view(env.subscription_data) == json_str_field(text, "subscriptionData"@)
}

/// Extracts the recognized fields of one inbound message; a message that is
/// not JSON degrades to an envelope with every field absent.
pub fn parse_envelope(text: &str) -> (env: Envelope)
    ensures
        env_matches(env, text@),
{
    Envelope {
        protocol: json_field(text, "protocol"),
        room: json_field(text, "room"),
        endpoint: json_field(text, "endpoint"),
        from: json_field(text, "from"),
        action: json_field(text, "action"),
        subscription_data: json_field(text, "subscriptionData"),
    }
}

/// Whether the optional string holds exactly `s`.
pub fn opt_is(o: &Option<String>, s: &str) -> (r: bool)
    ensures
        r == (opt_view(*o) == Some(s@)),
{
    match o {
        Some(t) => str_eq(t.as_str(), s),
        None => false,
    }
}

/// The view of a delivery list: each pair as (receiver, text view).
pub open spec fn deliveries_view(v: Seq<(ConnId, String)>) -> Seq<(ConnId, Seq<char>)> {
    v.map_values(|d: (ConnId, String)| (d.0, d.1@))
}

/// The help text returned for an unrecognized or missing protocol tag.
pub open spec fn help_text() -> Seq<char> {
    "Invalid protocol, valid protocols include: \n                            'one-to-self'\n                            'one-to-one'\n                            'one-to-room'\n                            'one-to-all'"@
}

/// What a one-to-all broadcast delivers: `text` once to every entry of the
/// username registry whose connection is still live, in registry order.
pub open spec fn broadcast_sends(net: Network, m: Seq<(String, ConnId)>, text: Seq<char>) -> Seq<
    (ConnId, Seq<char>),
>
    decreases m.len(),
{
    if m.len() == 0 {
        Seq::empty()
    } else {
        broadcast_sends(net, m.drop_last(), text) + (if net.conn_live(m.last().1) {
            seq![(m.last().1, text)]
        } else {
            Seq::empty()
        })
    }
}

/// A room member receives a one-to-room text: its connection is live, it has
/// claimed an identity, and that identity is not the `from` the sender named.
pub open spec fn room_recipient(net: Network, c: ConnId, from: Option<Seq<char>>) -> bool {
    &&& net.conn_live(c)
    &&& match net.conn_identity(c) {
        Some(o) => from != Some(o),
        None => false,
    }
}

/// What a one-to-room broadcast delivers: `text` once to every recipient
/// among the members, in member order; closed members are skipped.
pub open spec fn room_sends(
    net: Network,
    members: Seq<ConnId>,
    from: Option<Seq<char>>,
    text: Seq<char>,
) -> Seq<(ConnId, Seq<char>)>
    decreases members.len(),
{
    if members.len() == 0 {
        Seq::empty()
    } else {
        room_sends(net, members.drop_last(), from, text) + (if room_recipient(
            net,
            members.last(),
            from,
        ) {
            seq![(members.last(), text)]
        } else {
            Seq::empty()
        })
    }
}

/// The full dispatch table: every delivery one inbound envelope causes, as a
/// function of the protocol tag and the mode-dependent fields.
pub open spec fn connection_plan(
    net: Network,
    sender: ConnId,
    proto: Option<Seq<char>>,
    room: Option<Seq<char>>,
    endpoint: Option<Seq<char>>,
    from: Option<Seq<char>>,
    text: Seq<char>,
) -> Seq<(ConnId, Seq<char>)> {
    if proto == Some("one-to-all"@) {
        broadcast_sends(net, net.nodemap@, text)
    } else if proto == Some("one-to-self"@) {
        seq![(sender, text)]
    } else if proto == Some("one-to-room"@) {
        match room {
            Some(rn) => if has_room(net.rooms@, rn) {
                room_sends(net, net.rooms@[room_index(net.rooms@, rn)].nodes@, from, text)
            } else {
                Seq::empty()
            },
            None => seq![(sender, "No field 'room' provided"@)],
        }
    } else if proto == Some("one-to-one"@) {
        match endpoint {
            Some(e) => match net.registered_live(e) {
                Some(c) => seq![(c, text)],
                None => seq![(sender, "Could not find a node with that name"@)],
            },
            None => seq![(sender, "No field 'endpoint' provided"@)],
        }
    } else {
        seq![(sender, help_text())]
    }
}

/// A single reply back to one connection.
fn reply(target: ConnId, msg: &str) -> (v: Vec<(ConnId, String)>)
    ensures
        deliveries_view(v@) == seq![(target, msg@)],
{
    let mut v: Vec<(ConnId, String)> = Vec::new();
    v.push((target, msg.to_owned()));
    proof {
        assert(deliveries_view(v@) =~~= seq![(target, msg@)]);
    }
    v
}

/// How the push sub-protocol changes the network and what it asks the push
/// collaborator to deliver.
pub open spec fn push_effect_rel(
    before: Network,
    after: Network,
    sender: ConnId,
    action: Option<Seq<char>>,
    sub_data: Option<Seq<char>>,
    endpoint: Option<Seq<char>>,
    p: Option<PushRequest>,
) -> bool {
    if action == Some("subscribe-push"@) {
        match sub_data {
            Some(d) => p is None && subscribe_effect(before, after, sender, d),
            None => p is None && after == before,
        }
    } else if action == Some("connection-request"@) {
        &&& after == before
        &&& match endpoint {
            Some(e) => push_reply(before, sender, e, p),
            None => p is None,
        }
    } else {
        after == before && p is None
    }
}

/// A subscription write: the sender's slot and the push store now hold the
/// descriptor under the sender's identity; nothing else moved.
pub open spec fn subscribe_effect(
    before: Network,
    after: Network,
    sender: ConnId,
    d: Seq<char>,
) -> bool {
    &&& after.nodemap == before.nodemap
    &&& after.rooms == before.rooms
    &&& after.vapid_path == before.vapid_path
    &&& after.conns.slots@.len() == before.conns.slots@.len()
    &&& after.conns.subscription_view(sender) == Some(d)
    &&& after.conns.identity_view(sender) == before.conns.identity_view(sender)
    &&& after.conns.live(sender) == before.conns.live(sender)
    &&& forall|j: int|
        0 <= j < after.conns.slots@.len() && j != sender.0 as int ==> after.conns.slots@[j]
            == before.conns.slots@[j]
    &&& match before.conn_identity(sender) {
        Some(k) => set_push_rel(before.pushmap@, after.pushmap@, k, d),
        None => false,
    }
}

/// A connection request: a push request carrying the stored descriptor, the
/// credential and the sender's identity, or nothing when no descriptor is
/// stored for the endpoint.
pub open spec fn push_reply(
    net: Network,
    sender: ConnId,
    e: Seq<char>,
    p: Option<PushRequest>,
) -> bool {
    match p {
        Some(pr) => {
            &&& has_push(net.pushmap@, e)
            &&& pr.subscription@ == push_value(net.pushmap@, e)
            &&& pr.vapid_path@ == net.vapid_path@
            &&& Some(pr.sender@) == net.conn_identity(sender)
        },
        None => !has_push(net.pushmap@, e),
    }
}

/// A successful registration of `k` for connection `c`: the mapping appended,
/// the identity slot claimed, nothing else in the table moved.
pub open spec fn register_effect(before: Network, after: Network, k: Seq<char>, c: ConnId) -> bool {
    &&& !has_user(before.nodemap@, k)
    &&& after.nodemap@.len() == before.nodemap@.len() + 1
    &&& forall|j: int| 0 <= j < before.nodemap@.len() ==> after.nodemap@[j] == before.nodemap@[j]
    &&& after.nodemap@.last().0@ == k
    &&& after.nodemap@.last().1 == c
    &&& has_user(after.nodemap@, k) && user_conn(after.nodemap@, k) == c
    &&& after.conns.slots@.len() == before.conns.slots@.len()
    &&& after.conns.identity_view(c) == Some(k)
    &&& after.conns.live(c) == before.conns.live(c)
    &&& after.conns.subscription_view(c) == before.conns.subscription_view(c)
    &&& forall|j: int|
        0 <= j < after.conns.slots@.len() && j != c.0 as int ==> after.conns.slots@[j]
            == before.conns.slots@[j]
}

/// A create-then-join of room `n` by connection `c`: the room exists, `c`
/// stands at the end of its member list, every other room is untouched.
pub open spec fn join_effect(before: Seq<Room>, after: Seq<Room>, n: Seq<char>, c: ConnId) -> bool {
    if has_room(before, n) {
        &&& after.len() == before.len()
        &&& after[room_index(before, n)].name == before[room_index(before, n)].name
        &&& after[room_index(before, n)].nodes@ == before[room_index(before, n)].nodes@.push(c)
        &&& forall|j: int|
            0 <= j < after.len() && j != room_index(before, n) ==> after[j] == before[j]
    } else {
        &&& after.len() == before.len() + 1
        &&& forall|j: int| 0 <= j < before.len() ==> after[j] == before[j]
        &&& after[before.len() as int].name@ == n
        &&& after[before.len() as int].nodes@ == seq![c]
    }
}

impl Network {
    /// The main protocol dispatch: decides every `(receiver, text)` pair one
    /// inbound envelope causes, without performing any delivery.
    pub fn handle_connection_request(&self, sender: ConnId, env: &Envelope, text: &str) -> (sends:
        Vec<(ConnId, String)>)
        requires
            self.wf(),
        ensures
            deliveries_view(sends@) == connection_plan(
                *self,
                sender,
                opt_view(env.protocol),
                opt_view(env.room),
                opt_view(env.endpoint),
                opt_view(env.from),
                text@,
            ),
    {
        if opt_is(&env.protocol, "one-to-all") {
            let mut sends: Vec<(ConnId, String)> = Vec::new();
            let mut i: usize = 0;
            proof {
                assert(self.nodemap@.take(0) =~= Seq::<(String, ConnId)>::empty());
                assert(deliveries_view(sends@) =~~= broadcast_sends(
                    *self,
                    self.nodemap@.take(0),
                    text@,
                ));
            }
            while i < self.nodemap.len()
                invariant
                    i <= self.nodemap@.len(),
                    deliveries_view(sends@) == broadcast_sends(
                        *self,
                        self.nodemap@.take(i as int),
                        text@,
                    ),
                decreases self.nodemap@.len() - i,
            {
                let ghost pre = sends@;
                let c = self.nodemap[i].1;
                if self.conns.is_live(c) {
                    sends.push((c, text.to_owned()));
                }
                proof {
                    assert(self.nodemap@.take(i as int + 1).drop_last() =~= self.nodemap@.take(
                        i as int,
                    ));
                    assert(self.nodemap@.take(i as int + 1).last() == self.nodemap@[i as int]);
                    assert(deliveries_view(sends@) =~~= broadcast_sends(
                        *self,
                        self.nodemap@.take(i as int + 1),
                        text@,
                    ));
                }
                i += 1;
            }
            proof {
                assert(self.nodemap@.take(self.nodemap@.len() as int) =~= self.nodemap@);
            }
            sends
        } else if opt_is(&env.protocol, "one-to-self") {
            reply(sender, text)
        } else if opt_is(&env.protocol, "one-to-room") {
            match &env.room {
                Some(room_name) => {
                    match self.find_room(room_name.as_str()) {
                        Some(ri) => {
                            proof {
                                let rs = self.rooms@;
                                let w = room_index(rs, room_name@);
                                assert(has_room(rs, room_name@));
                                assert(rs[w].name@ == room_name@);
                                assert(w == ri as int);
                            }
                            let ghost members = self.rooms@[ri as int].nodes@;
                            let mut sends: Vec<(ConnId, String)> = Vec::new();
                            let mut i: usize = 0;
                            proof {
                                assert(members.take(0) =~= Seq::<ConnId>::empty());
                                assert(deliveries_view(sends@) =~~= room_sends(
                                    *self,
                                    members.take(0),
                                    opt_view(env.from),
                                    text@,
                                ));
                            }
                            while i < self.rooms[ri].nodes.len()
                                invariant
                                    self.wf(),
                                    ri < self.rooms@.len(),
                                    members == self.rooms@[ri as int].nodes@,
                                    i <= members.len(),
                                    deliveries_view(sends@) == room_sends(
                                        *self,
                                        members.take(i as int),
                                        opt_view(env.from),
                                        text@,
                                    ),
                                decreases members.len() - i,
                            {
                                let ghost pre = sends@;
                                let c = self.rooms[ri].nodes[i];
                                if self.conns.is_live(c) {
                                    match self.conns.identity_of(c) {
                                        Some(o) => {
                                            let excluded = match &env.from {
                                                Some(f) => str_eq(o.as_str(), f.as_str()),
                                                None => false,
                                            };
                                            if !excluded {
                                                sends.push((c, text.to_owned()));
                                            }
                                        },
                                        None => {},
                                    }
                                }
                                proof {
                                    assert(members.take(i as int + 1).drop_last() =~= members.take(
                                        i as int,
                                    ));
                                    assert(members.take(i as int + 1).last() == members[i as int]);
                                    assert(deliveries_view(sends@) =~~= room_sends(
                                        *self,
                                        members.take(i as int + 1),
                                        opt_view(env.from),
                                        text@,
                                    ));
                                }
                                i += 1;
                            }
                            proof {
                                assert(members.take(members.len() as int) =~= members);
                            }
                            sends
                        },
                        None => {
                            let v: Vec<(ConnId, String)> = Vec::new();
                            proof {
                                assert(deliveries_view(v@) =~~= Seq::<(ConnId, Seq<char>)>::empty());
                            }
                            v
                        },
                    }
                },
                None => reply(sender, "No field 'room' provided"),
            }
        } else if opt_is(&env.protocol, "one-to-one") {
            match &env.endpoint {
                Some(ep) => {
                    match self.lookup(ep.as_str()) {
                        Some(c) => reply(c, text),
                        None => reply(sender, "Could not find a node with that name"),
                    }
                },
                None => reply(sender, "No field 'endpoint' provided"),
            }
        } else {
            reply(
                sender,
                "Invalid protocol, valid protocols include: \n                            'one-to-self'\n                            'one-to-one'\n                            'one-to-room'\n                            'one-to-all'",
            )
        }
    }

    /// The push sub-protocol, keyed by the `action` field and independent of
    /// the main dispatch: records a subscription, or asks for one push
    /// delivery.
    pub fn handle_push_requests(&mut self, sender: ConnId, env: &Envelope) -> (p: Option<
        PushRequest,
    >)
        requires
            old(self).wf(),
            old(self).valid_conn(sender),
            opt_view(env.action) == Some("subscribe-push"@) && env.subscription_data is Some ==> old(
                self,
            ).conn_identity(sender) is Some,
            opt_view(env.action) == Some("connection-request"@) && env.endpoint is Some ==> old(
                self,
            ).conn_identity(sender) is Some,
        ensures
            final(self).wf(),
            final(self).conns.slots@.len() == old(self).conns.slots@.len(),
            push_effect_rel(
                *old(self),
                *final(self),
                sender,
                opt_view(env.action),
                opt_view(env.subscription_data),
                opt_view(env.endpoint),
                p,
            ),
    {
        if opt_is(&env.action, "subscribe-push") {
            match &env.subscription_data {
                Some(data) => {
                    self.add_subscription(data.as_str(), sender);
                    None
                },
                None => None,
            }
        } else if opt_is(&env.action, "connection-request") {
            match &env.endpoint {
                Some(endpoint) => {
                    let owner = match self.conns.identity_of(sender) {
                        Some(o) => o,
                        None => unreached(),
                    };
                    self.send_push(owner.as_str(), endpoint.as_str())
                },
                None => None,
            }
        } else {
            None
        }
    }

    /// Handles one inbound text message: the push sub-protocol first, then
    /// the main dispatch, as two independent dispatchers run in sequence.
    /// Returns `None` exactly on the inputs where the push sub-protocol
    /// demands an identity the sender has not claimed.
    pub fn on_message(&mut self, sender: ConnId, text: &str) -> (r: Option<
        (Vec<(ConnId, String)>, Option<PushRequest>),
    >)
        requires
            old(self).wf(),
            old(self).valid_conn(sender),
        ensures
            final(self).wf(),
            ({
                let action = json_str_field(text@, "action"@);
                let sub_data = json_str_field(text@, "subscriptionData"@);
                let endpoint = json_str_field(text@, "endpoint"@);
                let needs_identity = (action == Some("subscribe-push"@) && sub_data is Some) || (
                action == Some("connection-request"@) && endpoint is Some);
                &&& (r is Some <==> !(needs_identity && old(self).conn_identity(sender) is None))
                &&& (r is None ==> *final(self) == *old(self))
                &&& match r {
                    Some(pair) => {
                        &&& push_effect_rel(
                            *old(self),
                            *final(self),
                            sender,
                            action,
                            sub_data,
                            endpoint,
                            pair.1,
                        )
                        &&& deliveries_view(pair.0@) == connection_plan(
                            *final(self),
                            sender,
                            json_str_field(text@, "protocol"@),
                            json_str_field(text@, "room"@),
                            endpoint,
                            json_str_field(text@, "from"@),
                            text@,
                        )
                    },
                    None => true,
                }
            }),
    {
        let env = parse_envelope(text);
        let needs_identity = (opt_is(&env.action, "subscribe-push") && env.subscription_data.is_some())
            || (opt_is(&env.action, "connection-request") && env.endpoint.is_some());
        if needs_identity {
            let has_id = match self.conns.identity_of(sender) {
                Some(_) => true,
                None => false,
            };
            if !has_id {
                return None;
            }
        }
        let p = self.handle_push_requests(sender, &env);
        let sends = self.handle_connection_request(sender, &env, text);
        Some((sends, p))
    }

    /// The registration side channel on connection open: positions 0/1 of the
    /// handshake argument list may claim a username, positions 2/3 may create
    /// and join a room. A refused username is answered with a fixed reply and
    /// the connection stays open, unregistered.
    pub fn on_open(&mut self, conn: ConnId, args: &Vec<String>) -> (replies: Vec<(ConnId, String)>)
        requires
            old(self).wf(),
            old(self).valid_conn(conn),
            args@.len() >= 3,
            args@[2]@ == "room"@ ==> args@.len() >= 4,
        ensures
            final(self).wf(),
            final(self).pushmap == old(self).pushmap,
            final(self).vapid_path == old(self).vapid_path,
            (if args@[0]@ == "user"@ {
                if has_user(old(self).nodemap@, args@[1]@) {
                    &&& final(self).nodemap == old(self).nodemap
                    &&& final(self).conns == old(self).conns
                    &&& deliveries_view(replies@) == seq![(conn, "The username is taken"@)]
                } else {
                    &&& register_effect(*old(self), *final(self), args@[1]@, conn)
                    &&& deliveries_view(replies@) == Seq::<(ConnId, Seq<char>)>::empty()
                }
            } else {
                &&& final(self).nodemap == old(self).nodemap
                &&& final(self).conns == old(self).conns
                &&& deliveries_view(replies@) == Seq::<(ConnId, Seq<char>)>::empty()
            }),
            (if args@[2]@ == "room"@ {
                join_effect(old(self).rooms@, final(self).rooms@, args@[3]@, conn)
            } else {
                final(self).rooms == old(self).rooms
            }),
    {
        let mut replies: Vec<(ConnId, String)> = Vec::new();
        proof {
            assert(deliveries_view(replies@) =~~= Seq::<(ConnId, Seq<char>)>::empty());
        }
        if str_eq(args[0].as_str(), "user") {
            match self.add_user(args[1].as_str(), conn) {
                Ok(()) => {},
                Err(_) => {
                    replies.push((conn, "The username is taken".to_owned()));
                    proof {
                        assert(deliveries_view(replies@) =~~= seq![
                            (conn, "The username is taken"@),
                        ]);
                    }
                },
            }
        }
        if str_eq(args[2].as_str(), "room") {
            let ghost mid = *self;
            self.create_room(args[3].as_str());
            let ghost created = *self;
            self.add_user_to_room(args[3].as_str(), conn);
            proof {
                let n = args@[3]@;
                if has_room(mid.rooms@, n) {
                    assert(created.rooms@ == mid.rooms@);
                    assert(join_effect(mid.rooms@, self.rooms@, n, conn));
                } else {
                    let li = mid.rooms@.len() as int;
                    assert(created.rooms@[li].name@ == n);
                    let w = room_index(created.rooms@, n);
                    assert(created.rooms@[w].name@ == n);
                    assert(rooms_unique(created.rooms@));
                    assert(w == li);
                    assert(created.rooms@[li].nodes@.push(conn) =~= seq![conn]);
                    assert(join_effect(mid.rooms@, self.rooms@, n, conn));
                }
            }
        }
        replies
    }

    /// The close-side bookkeeping: the claimed identity, if any, is released,
    /// and the slot goes dead. Room memberships stay and are skipped at
    /// delivery time.
    pub fn on_close(&mut self, conn: ConnId)
        requires
            old(self).wf(),
            old(self).valid_conn(conn),
        ensures
            final(self).wf(),
            !final(self).conn_live(conn),
            final(self).rooms == old(self).rooms,
            final(self).pushmap == old(self).pushmap,
            final(self).vapid_path == old(self).vapid_path,
            final(self).conns.slots@.len() == old(self).conns.slots@.len(),
            final(self).conns.identity_view(conn) == old(self).conns.identity_view(conn),
            forall|j: int|
                0 <= j < final(self).conns.slots@.len() && j != conn.0 as int ==> final(self).conns.slots@[j]
                    == old(self).conns.slots@[j],
            match old(self).conn_identity(conn) {
                Some(k) => remove_user_rel(old(self).nodemap@, final(self).nodemap@, k) && !has_user(
                    final(self).nodemap@,
                    k,
                ),
                None => final(self).nodemap == old(self).nodemap,
            },
    {
        match self.conns.identity_of(conn) {
            Some(owner) => self.remove(owner.as_str()),
            None => {},
        }
        self.conns.disconnect(conn);
    }
}

/// A one-to-room broadcast delivers the text exactly to the live, named, not
/// self-excluded members: a member whose connection has closed receives
/// nothing and causes no error, and every other member receives the text
/// once per membership entry.
pub proof fn lemma_room_sends_members(
    net: Network,
    members: Seq<ConnId>,
    from: Option<Seq<char>>,
    text: Seq<char>,
)
    ensures
        room_sends(net, members, from, text) == members.filter(
            |c: ConnId| room_recipient(net, c, from),
        ).map_values(|c: ConnId| (c, text)),
    decreases members.len(),
{
    reveal(Seq::filter);
    let pred = |c: ConnId| room_recipient(net, c, from);
    if members.len() == 0 {
        assert(room_sends(net, members, from, text) =~~= members.filter(pred).map_values(
            |c: ConnId| (c, text),
        ));
    } else {
        lemma_room_sends_members(net, members.drop_last(), from, text);
        assert(room_sends(net, members, from, text) =~~= members.filter(pred).map_values(
            |c: ConnId| (c, text),
        ));
    }
}

} // verus!
