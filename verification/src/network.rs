//! The network: the connection table, the username registry, the room
//! registry and the push subscription store, with the invariants that keep
//! every key unique.

use vstd::prelude::*;
use crate::conn::{ConnId, ConnTable};
use crate::room::Room;
use crate::text::str_eq;

verus! {

/// Why a registration is refused.
#[derive(Clone, Copy, PartialEq, Eq, Structural, Debug)]
pub enum NetworkError {
    /// The identity is already claimed by an earlier, still-present
    /// registration.
    UsernameTaken,
}

/// Everything the external push-delivery collaborator needs for one
/// best-effort notification: the target's subscription descriptor, the
/// signing credential, and the name of the user asking to connect.
pub struct PushRequest {
    pub subscription: String,
    pub vapid_path: String,
    pub sender: String,
}

/// Some entry of the username registry carries identity `k`.
pub open spec fn has_user(m: Seq<(String, ConnId)>, k: Seq<char>) -> bool {
    exists|i: int| 0 <= i < m.len() && m[i].0@ == k
}

/// The index of the entry carrying identity `k` (unique under `users_unique`).
pub open spec fn user_index(m: Seq<(String, ConnId)>, k: Seq<char>) -> int {
    choose|i: int| 0 <= i < m.len() && m[i].0@ == k
}

/// The connection registered under identity `k`.
pub open spec fn user_conn(m: Seq<(String, ConnId)>, k: Seq<char>) -> ConnId {
    m[user_index(m, k)].1
}

/// No two entries of the username registry carry the same identity.
pub open spec fn users_unique(m: Seq<(String, ConnId)>) -> bool {
    forall|i: int, j: int|
        #![auto]
        0 <= i < m.len() && 0 <= j < m.len() && m[i].0@ == m[j].0@ ==> i == j
}

/// Some room carries the name `n`.
pub open spec fn has_room(rs: Seq<Room>, n: Seq<char>) -> bool {
    exists|i: int| 0 <= i < rs.len() && rs[i].name@ == n
}

/// The index of the room named `n` (unique under `rooms_unique`).
pub open spec fn room_index(rs: Seq<Room>, n: Seq<char>) -> int {
    choose|i: int| 0 <= i < rs.len() && rs[i].name@ == n
}

/// No two rooms carry the same name.
pub open spec fn rooms_unique(rs: Seq<Room>) -> bool {
    forall|i: int, j: int|
        #![auto]
        0 <= i < rs.len() && 0 <= j < rs.len() && rs[i].name@ == rs[j].name@ ==> i == j
}

/// Some entry of the push store carries identity `k`.
pub open spec fn has_push(m: Seq<(String, String)>, k: Seq<char>) -> bool {
    exists|i: int| 0 <= i < m.len() && m[i].0@ == k
}

/// The index of the push entry keyed `k` (unique under `pushes_unique`).
pub open spec fn push_index(m: Seq<(String, String)>, k: Seq<char>) -> int {
    choose|i: int| 0 <= i < m.len() && m[i].0@ == k
}

/// The subscription descriptor stored for identity `k`.
pub open spec fn push_value(m: Seq<(String, String)>, k: Seq<char>) -> Seq<char> {
    m[push_index(m, k)].1@
}

/// No two entries of the push store carry the same identity.
pub open spec fn pushes_unique(m: Seq<(String, String)>) -> bool {
    forall|i: int, j: int|
        #![auto]
        0 <= i < m.len() && 0 <= j < m.len() && m[i].0@ == m[j].0@ ==> i == j
}

/// How one removal changes the username registry: the entry keyed `k` leaves,
/// a missing key changes nothing.
pub open spec fn remove_user_rel(
    before: Seq<(String, ConnId)>,
    after: Seq<(String, ConnId)>,
    k: Seq<char>,
) -> bool {
    if has_user(before, k) {
        after == before.remove(user_index(before, k))
    } else {
        after == before
    }
}

/// How one create changes the room list: a new empty room appears at the end
/// when the name is free, nothing changes when it is taken.
pub open spec fn create_room_rel(before: Seq<Room>, after: Seq<Room>, n: Seq<char>) -> bool {
    if has_room(before, n) {
        after == before
    } else {
        &&& after.len() == before.len() + 1
        &&& forall|j: int| 0 <= j < before.len() ==> after[j] == before[j]
        &&& after[before.len() as int].name@ == n
        &&& after[before.len() as int].nodes@.len() == 0
    }
}

/// How one subscription write changes the push store: the descriptor for `k`
/// is overwritten in place, or appended when `k` was absent.
pub open spec fn set_push_rel(
    before: Seq<(String, String)>,
    after: Seq<(String, String)>,
    k: Seq<char>,
    v: Seq<char>,
) -> bool {
    if has_push(before, k) {
        &&& after.len() == before.len()
        &&& after[push_index(before, k)].0@ == k
        &&& after[push_index(before, k)].1@ == v
        &&& forall|j: int|
            0 <= j < after.len() && j != push_index(before, k) ==> after[j] == before[j]
    } else {
        &&& after.len() == before.len() + 1
        &&& forall|j: int| 0 <= j < before.len() ==> after[j] == before[j]
        &&& after[before.len() as int].0@ == k
        &&& after[before.len() as int].1@ == v
    }
}

/// The process-wide registry context.
pub struct Network {
    pub conns: ConnTable,
    pub nodemap: Vec<(String, ConnId)>,
    pub rooms: Vec<Room>,
    pub pushmap: Vec<(String, String)>,
    pub vapid_path: String,
}

impl Network {
    pub open spec fn valid_conn(&self, c: ConnId) -> bool {
        self.conns.valid(c)
    }

    pub open spec fn conn_live(&self, c: ConnId) -> bool {
        self.conns.live(c)
    }

    pub open spec fn conn_identity(&self, c: ConnId) -> Option<Seq<char>> {
        self.conns.identity_view(c)
    }

    /// The registries are well formed: every key occurs at most once.
    pub open spec fn wf(&self) -> bool {
        &&& users_unique(self.nodemap@)
        &&& rooms_unique(self.rooms@)
        &&& pushes_unique(self.pushmap@)
    }

    /// Identity `k` currently resolves to a live connection.
    pub open spec fn registered_live(&self, k: Seq<char>) -> Option<ConnId> {
        if has_user(self.nodemap@, k) && self.conn_live(user_conn(self.nodemap@, k)) {
            Some(user_conn(self.nodemap@, k))
        } else {
            None
        }
    }

    /// The index of the username entry carrying `owner`, if any.
    fn find_user(&self, owner: &str) -> (r: Option<usize>)
        ensures
            match r {
                Some(i) => i < self.nodemap@.len() && self.nodemap@[i as int].0@ == owner@,
                None => !has_user(self.nodemap@, owner@),
            },
    {
        let mut i: usize = 0;
        while i < self.nodemap.len()
            invariant
                i <= self.nodemap@.len(),
                forall|j: int| 0 <= j < i ==> self.nodemap@[j].0@ != owner@,
            decreases self.nodemap@.len() - i,
        {
            if str_eq(self.nodemap[i].0.as_str(), owner) {
                return Some(i);
            }
            i += 1;
        }
        None
    }

    /// The index of the room named `room_name`, if any.
    pub fn find_room(&self, room_name: &str) -> (r: Option<usize>)
        ensures
            match r {
                Some(i) => i < self.rooms@.len() && self.rooms@[i as int].name@ == room_name@,
                None => !has_room(self.rooms@, room_name@),
            },
    {
        let mut i: usize = 0;
        while i < self.rooms.len()
            invariant
                i <= self.rooms@.len(),
                forall|j: int| 0 <= j < i ==> self.rooms@[j].name@ != room_name@,
            decreases self.rooms@.len() - i,
        {
            if str_eq(self.rooms[i].name.as_str(), room_name) {
                return Some(i);
            }
            i += 1;
        }
        None
    }

    /// The index of the push entry keyed `owner`, if any.
    fn find_push(&self, owner: &str) -> (r: Option<usize>)
        ensures
            match r {
                Some(i) => i < self.pushmap@.len() && self.pushmap@[i as int].0@ == owner@,
                None => !has_push(self.pushmap@, owner@),
            },
    {
        let mut i: usize = 0;
        while i < self.pushmap.len()
            invariant
                i <= self.pushmap@.len(),
                forall|j: int| 0 <= j < i ==> self.pushmap@[j].0@ != owner@,
            decreases self.pushmap@.len() - i,
        {
            if str_eq(self.pushmap[i].0.as_str(), owner) {
                return Some(i);
            }
            i += 1;
        }
        None
    }

    /// Opens a fresh connection slot; the transport calls this when a
    /// connection is accepted.
    pub fn connect(&mut self) -> (c: ConnId)
        requires
            old(self).wf(),
        ensures
            final(self).wf(),
            final(self).valid_conn(c),
            final(self).conn_live(c),
            final(self).conn_identity(c) is None,
            c.0 == old(self).conns.slots@.len(),
            final(self).conns.slots@.len() == old(self).conns.slots@.len() + 1,
            forall|j: int|
                0 <= j < old(self).conns.slots@.len() ==> final(self).conns.slots@[j] == old(
                    self,
                ).conns.slots@[j],
            final(self).nodemap == old(self).nodemap,
            final(self).rooms == old(self).rooms,
            final(self).pushmap == old(self).pushmap,
            final(self).vapid_path == old(self).vapid_path,
    {
        self.conns.connect()
    }

    /// Registers `owner` for connection `conn`. A taken username is refused
    /// and nothing changes; otherwise the connection's identity slot is set
    /// and the mapping inserted at the end of the registry.
    pub fn add_user(&mut self, owner: &str, conn: ConnId) -> (r: Result<(), NetworkError>)
        requires
            old(self).wf(),
            old(self).valid_conn(conn),
        ensures
            final(self).wf(),
            final(self).rooms == old(self).rooms,
            final(self).pushmap == old(self).pushmap,
            final(self).vapid_path == old(self).vapid_path,
            match r {
                Ok(()) => {
                    &&& !has_user(old(self).nodemap@, owner@)
                    &&& final(self).nodemap@.len() == old(self).nodemap@.len() + 1
                    &&& forall|j: int|
                        0 <= j < old(self).nodemap@.len() ==> final(self).nodemap@[j] == old(
                            self,
                        ).nodemap@[j]
                    &&& final(self).nodemap@.last().0@ == owner@
                    &&& final(self).nodemap@.last().1 == conn
                    &&& has_user(final(self).nodemap@, owner@)
                    &&& user_conn(final(self).nodemap@, owner@) == conn
                    &&& final(self).conns.slots@.len() == old(self).conns.slots@.len()
                    &&& final(self).conn_identity(conn) == Some(owner@)
                    &&& final(self).conn_live(conn) == old(self).conn_live(conn)
                    &&& final(self).conns.subscription_view(conn) == old(self).conns.subscription_view(
                        conn,
                    )
                    &&& forall|j: int|
                        0 <= j < final(self).conns.slots@.len() && j != conn.0 as int
                            ==> final(self).conns.slots@[j] == old(self).conns.slots@[j]
                },
                Err(e) => {
                    &&& e == NetworkError::UsernameTaken
                    &&& has_user(old(self).nodemap@, owner@)
                    &&& *final(self) == *old(self)
                },
            },
    {
        match self.find_user(owner) {
            Some(_) => Err(NetworkError::UsernameTaken),
            None => {
                self.conns.set_identity(conn, owner);
                self.nodemap.push((owner.to_owned(), conn));
                proof {
                    let m = self.nodemap@;
                    assert forall|i: int, j: int|
                        #![auto]
                        0 <= i < m.len() && 0 <= j < m.len() && m[i].0@ == m[j].0@ implies i
                        == j by {
                        if i < m.len() - 1 && j == m.len() - 1 {
                            assert(has_user(old(self).nodemap@, owner@));
                        }
                        if j < m.len() - 1 && i == m.len() - 1 {
                            assert(has_user(old(self).nodemap@, owner@));
                        }
                    }
                    let w = user_index(m, owner@);
                    assert(m[m.len() - 1].0@ == owner@);
                    assert(has_user(m, owner@));
                    assert(m[w].0@ == owner@ && m[m.len() - 1].0@ == owner@ ==> w == m.len() - 1);
                }
                Ok(())
            },
        }
    }

    /// Removes the registration keyed `owner`; a missing key is a no-op, so a
    /// double disconnect is safe.
    pub fn remove(&mut self, owner: &str)
        requires
            old(self).wf(),
        ensures
            final(self).wf(),
            !has_user(final(self).nodemap@, owner@),
            remove_user_rel(old(self).nodemap@, final(self).nodemap@, owner@),
            final(self).conns == old(self).conns,
            final(self).rooms == old(self).rooms,
            final(self).pushmap == old(self).pushmap,
            final(self).vapid_path == old(self).vapid_path,
    {
        match self.find_user(owner) {
            Some(i) => {
                proof {
                    let m = self.nodemap@;
                    assert(has_user(m, owner@));
                    let w = user_index(m, owner@);
                    assert(m[w].0@ == owner@);
                    assert(w == i as int);
                }
                self.nodemap.remove(i);
                proof {
                    let before = old(self).nodemap@;
                    let after = self.nodemap@;
                    assert forall|j: int| 0 <= j < after.len() implies after[j].0@ != owner@ by {
                        if j < i as int {
                            assert(after[j] == before[j]);
                        } else {
                            assert(after[j] == before[j + 1]);
                        }
                    }
                    assert forall|p: int, q: int|
                        #![auto]
                        0 <= p < after.len() && 0 <= q < after.len() && after[p].0@ == after[q].0@
                        implies p == q by {
                        let p0 = if p < i as int { p } else { p + 1 };
                        let q0 = if q < i as int { q } else { q + 1 };
                        assert(after[p] == before[p0]);
                        assert(after[q] == before[q0]);
                    }
                }
            },
            None => {},
        }
    }

    /// The number of registrations the network currently holds.
    pub fn size(&self) -> (n: usize)
        ensures
            n == self.nodemap@.len(),
    {
        self.nodemap.len()
    }

    /// Resolves an identity to its live connection: absent when the name is
    /// unclaimed or the claiming connection has already closed.
    pub fn lookup(&self, owner: &str) -> (r: Option<ConnId>)
        requires
            self.wf(),
        ensures
            r == self.registered_live(owner@),
    {
        match self.find_user(owner) {
            Some(i) => {
                proof {
                    let m = self.nodemap@;
                    let w = user_index(m, owner@);
                    assert(has_user(m, owner@));
                    assert(m[w].0@ == owner@);
                    assert(w == i as int);
                }
                let c = self.nodemap[i].1;
                if self.conns.is_live(c) {
                    Some(c)
                } else {
                    None
                }
            },
            None => None,
        }
    }

    /// Inserts an empty room keyed `room_name` when absent; an existing room
    /// is left untouched (not an error).
    pub fn create_room(&mut self, room_name: &str)
        requires
            old(self).wf(),
        ensures
            final(self).wf(),
            has_room(final(self).rooms@, room_name@),
            create_room_rel(old(self).rooms@, final(self).rooms@, room_name@),
            final(self).conns == old(self).conns,
            final(self).nodemap == old(self).nodemap,
            final(self).pushmap == old(self).pushmap,
            final(self).vapid_path == old(self).vapid_path,
    {
        match self.find_room(room_name) {
            Some(_) => {},
            None => {
                self.rooms.push(Room::new(room_name));
                proof {
                    let rs = self.rooms@;
                    assert forall|i: int, j: int|
                        #![auto]
                        0 <= i < rs.len() && 0 <= j < rs.len() && rs[i].name@ == rs[j].name@
                        implies i == j by {
                        if i < rs.len() - 1 && j == rs.len() - 1 {
                            assert(has_room(old(self).rooms@, room_name@));
                        }
                        if j < rs.len() - 1 && i == rs.len() - 1 {
                            assert(has_room(old(self).rooms@, room_name@));
                        }
                    }
                    assert(rs[rs.len() - 1].name@ == room_name@);
                }
            },
        }
    }

    /// Appends `conn` to the member list of an existing room; callers create
    /// the room first. Joining twice adds two entries by design.
    pub fn add_user_to_room(&mut self, room_name: &str, conn: ConnId)
        requires
            old(self).wf(),
            has_room(old(self).rooms@, room_name@),
        ensures
            final(self).wf(),
            final(self).rooms@.len() == old(self).rooms@.len(),
            ({
                let i = room_index(old(self).rooms@, room_name@);
                &&& final(self).rooms@[i].name == old(self).rooms@[i].name
                &&& final(self).rooms@[i].nodes@ == old(self).rooms@[i].nodes@.push(conn)
                &&& forall|j: int|
                    0 <= j < final(self).rooms@.len() && j != i ==> final(self).rooms@[j] == old(self).rooms@[j]
            }),
            final(self).conns == old(self).conns,
            final(self).nodemap == old(self).nodemap,
            final(self).pushmap == old(self).pushmap,
            final(self).vapid_path == old(self).vapid_path,
    {
        match self.find_room(room_name) {
            Some(i) => {
                proof {
                    let rs = self.rooms@;
                    let w = room_index(rs, room_name@);
                    assert(rs[w].name@ == room_name@);
                    assert(w == i as int);
                }
                let room = &mut self.rooms[i];
                room.add_node(conn);
            },
            None => {
                proof {
                    assert(false);
                }
            },
        }
    }

    /// Records push subscription data for the identity `conn` has claimed; a
    /// later subscription for the same identity overwrites the earlier one.
    pub fn add_subscription(&mut self, subscription: &str, conn: ConnId)
        requires
            old(self).wf(),
            old(self).valid_conn(conn),
            old(self).conn_identity(conn) is Some,
        ensures
            final(self).wf(),
            final(self).nodemap == old(self).nodemap,
            final(self).rooms == old(self).rooms,
            final(self).vapid_path == old(self).vapid_path,
            final(self).conns.slots@.len() == old(self).conns.slots@.len(),
            final(self).conns.subscription_view(conn) == Some(subscription@),
            final(self).conn_identity(conn) == old(self).conn_identity(conn),
            final(self).conn_live(conn) == old(self).conn_live(conn),
            forall|j: int|
                0 <= j < final(self).conns.slots@.len() && j != conn.0 as int ==> final(self).conns.slots@[j]
                    == old(self).conns.slots@[j],
            set_push_rel(
                old(self).pushmap@,
                final(self).pushmap@,
                old(self).conn_identity(conn)->Some_0,
                subscription@,
            ),
    {
        let owner = match self.conns.identity_of(conn) {
            Some(o) => o,
            None => unreached(),
        };
        self.conns.set_subscription(conn, subscription);
        match self.find_push(owner.as_str()) {
            Some(i) => {
                proof {
                    let m = self.pushmap@;
                    let w = push_index(m, owner@);
                    assert(has_push(m, owner@));
                    assert(m[w].0@ == owner@);
                    assert(w == i as int);
                }
                self.pushmap[i] = (owner, subscription.to_owned());
            },
            None => {
                self.pushmap.push((owner, subscription.to_owned()));
                proof {
                    let m = self.pushmap@;
                    assert forall|i: int, j: int|
                        #![auto]
                        0 <= i < m.len() && 0 <= j < m.len() && m[i].0@ == m[j].0@ implies i
                        == j by {
                        if i < m.len() - 1 && j == m.len() - 1 {
                            assert(has_push(old(self).pushmap@, owner@));
                        }
                        if j < m.len() - 1 && i == m.len() - 1 {
                            assert(has_push(old(self).pushmap@, owner@));
                        }
                    }
                }
            },
        }
    }

    /// Stores the path of the credential the push collaborator signs with;
    /// configured once at startup.
    pub fn set_vapid_path(&mut self, vapid_path: &str)
        requires
            old(self).wf(),
        ensures
            final(self).wf(),
            final(self).vapid_path@ == vapid_path@,
            final(self).conns == old(self).conns,
            final(self).nodemap == old(self).nodemap,
            final(self).rooms == old(self).rooms,
            final(self).pushmap == old(self).pushmap,
    {
        self.vapid_path = vapid_path.to_owned();
    }

    /// Decides one push delivery: the descriptor stored for `endpoint`, the
    /// credential, and the requesting user's name. An absent descriptor is a
    /// silent no-op, not an error.
    pub fn send_push(&self, sender: &str, endpoint: &str) -> (r: Option<PushRequest>)
        requires
            self.wf(),
        ensures
            match r {
                Some(p) => {
                    &&& has_push(self.pushmap@, endpoint@)
                    &&& p.subscription@ == push_value(self.pushmap@, endpoint@)
                    &&& p.vapid_path@ == self.vapid_path@
                    &&& p.sender@ == sender@
                },
                None => !has_push(self.pushmap@, endpoint@),
            },
    {
        match self.find_push(endpoint) {
            Some(i) => {
                proof {
                    let m = self.pushmap@;
                    let w = push_index(m, endpoint@);
                    assert(has_push(m, endpoint@));
                    assert(m[w].0@ == endpoint@);
                    assert(w == i as int);
                }
                let subscription = self.pushmap[i].1.clone();
                Some(
                    PushRequest {
                        subscription,
                        vapid_path: self.vapid_path.clone(),
                        sender: sender.to_owned(),
                    },
                )
            },
            None => None,
        }
    }
}

impl Default for Network {
    /// An empty network: no connections, no registrations, no rooms, no
    /// subscriptions, and no credential path yet.
    fn default() -> (n: Network)
        ensures
            n.wf(),
            n.conns.slots@.len() == 0,
            n.nodemap@.len() == 0,
            n.rooms@.len() == 0,
            n.pushmap@.len() == 0,
            n.vapid_path@ == Seq::<char>::empty(),
    {
        Network {
            conns: ConnTable::new(),
            nodemap: Vec::new(),
            rooms: Vec::new(),
            pushmap: Vec::new(),
            vapid_path: String::new(),
        }
    }
}

/// At most one registration carries a given identity: two entries that agree
/// on the identity are the same entry.
pub proof fn lemma_registration_unique(m: Seq<(String, ConnId)>, k: Seq<char>, i: int, j: int)
    requires
        users_unique(m),
        0 <= i < m.len(),
        0 <= j < m.len(),
        m[i].0@ == k,
        m[j].0@ == k,
    ensures
        i == j,
{
}

/// Once the registration keyed `k` is removed, no entry carries `k` any more,
/// and the registry is still well formed, so a fresh registration of `k` is
/// owed success.
pub proof fn lemma_unregister_frees_identity(
    before: Seq<(String, ConnId)>,
    after: Seq<(String, ConnId)>,
    k: Seq<char>,
)
    requires
        users_unique(before),
        remove_user_rel(before, after, k),
    ensures
        !has_user(after, k),
        users_unique(after),
{
    if has_user(before, k) {
        let i = user_index(before, k);
        assert(before[i].0@ == k);
        assert(after == before.remove(i));
        assert forall|j: int| 0 <= j < after.len() implies after[j].0@ != k by {
            if j < i {
                assert(after[j] == before[j]);
            } else {
                assert(after[j] == before[j + 1]);
            }
        }
        assert forall|p: int, q: int|
            #![auto]
            0 <= p < after.len() && 0 <= q < after.len() && after[p].0@ == after[q].0@ implies p
            == q by {
            let p0 = if p < i { p } else { p + 1 };
            let q0 = if q < i { q } else { q + 1 };
            assert(after[p] == before[p0]);
            assert(after[q] == before[q0]);
        }
    }
}

/// Creating a room is idempotent: the second create with the same name
/// changes nothing, and exactly one room carries the name afterwards.
pub proof fn lemma_create_room_idempotent(r0: Seq<Room>, r1: Seq<Room>, r2: Seq<Room>, n: Seq<char>)
    requires
        rooms_unique(r0),
        create_room_rel(r0, r1, n),
        create_room_rel(r1, r2, n),
    ensures
        r2 == r1,
        has_room(r1, n),
        forall|i: int, j: int|
            #![auto]
            0 <= i < r1.len() && 0 <= j < r1.len() && r1[i].name@ == n && r1[j].name@ == n ==> i
                == j,
{
    if has_room(r0, n) {
        assert(r1 == r0);
    } else {
        assert(r1[r0.len() as int].name@ == n);
        assert(has_room(r1, n));
        assert forall|i: int, j: int|
            #![auto]
            0 <= i < r1.len() && 0 <= j < r1.len() && r1[i].name@ == n && r1[j].name@ == n implies i
            == j by {
            if i < r0.len() {
                assert(r1[i] == r0[i]);
                assert(has_room(r0, n));
            }
            if j < r0.len() {
                assert(r1[j] == r0[j]);
                assert(has_room(r0, n));
            }
        }
    }
}

} // verus!
