//! The connection table: one slot per transport-level connection.
//!
//! The registries never hold a pointer to a connection; they hold a bare index
//! into this table. A slot is never reused, so an index kept by a registry
//! after its connection closed simply resolves to a dead slot, and every
//! lookup reports such an index as absent instead of touching anything stale.

use vstd::prelude::*;

verus! {

/// Index of one connection slot in the table.
#[derive(Clone, Copy, PartialEq, Eq, Structural, Debug)]
pub struct ConnId(pub usize);

/// One client channel: live until the transport closes it, an identity slot
/// that stays unset until a registration claims it, and the most recent push
/// subscription data the client offered.
pub struct ConnSlot {
    pub live: bool,
    pub identity: Option<String>,
    pub subscription: Option<String>,
}

/// The arena of connection slots, indexed by `ConnId`.
pub struct ConnTable {
    pub slots: Vec<ConnSlot>,
}

/// The view of an optional string as an optional character sequence.
pub open spec fn opt_view(o: Option<String>) -> Option<Seq<char>> {
    match o {
        Some(s) => Some(s@),
        None => None,
    }
}

/// Clones an optional string.
fn clone_opt(o: &Option<String>) -> (r: Option<String>)
    ensures
        r == *o,
{
    match o {
        Some(s) => Some(s.clone()),
        None => None,
    }
}

impl ConnTable {
    pub open spec fn valid(&self, c: ConnId) -> bool {
        (c.0 as int) < self.slots@.len()
    }

    pub open spec fn live(&self, c: ConnId) -> bool {
        self.valid(c) && self.slots@[c.0 as int].live
    }

    pub open spec fn identity_view(&self, c: ConnId) -> Option<Seq<char>> {
        opt_view(self.slots@[c.0 as int].identity)
    }

    pub open spec fn subscription_view(&self, c: ConnId) -> Option<Seq<char>> {
        opt_view(self.slots@[c.0 as int].subscription)
    }

    pub fn new() -> (t: ConnTable)
        ensures
            t.slots@.len() == 0,
    {
        ConnTable { slots: Vec::new() }
    }

    /// Opens a fresh slot for a connection the transport just accepted.
    pub fn connect(&mut self) -> (c: ConnId)
        ensures
            c.0 == old(self).slots@.len(),
            final(self).slots@.len() == old(self).slots@.len() + 1,
            forall|j: int|
                0 <= j < old(self).slots@.len() ==> final(self).slots@[j] == old(self).slots@[j],
            final(self).live(c),
            final(self).identity_view(c) is None,
            final(self).subscription_view(c) is None,
    {
        let c = ConnId(self.slots.len());
        self.slots.push(ConnSlot { live: true, identity: None, subscription: None });
        c
    }

    /// Marks a slot closed; from now on its index resolves to absent.
    pub fn disconnect(&mut self, c: ConnId)
        requires
            old(self).valid(c),
        ensures
            final(self).slots@.len() == old(self).slots@.len(),
            !final(self).live(c),
            final(self).identity_view(c) == old(self).identity_view(c),
            final(self).subscription_view(c) == old(self).subscription_view(c),
            forall|j: int|
                0 <= j < final(self).slots@.len() && j != c.0 as int ==> final(self).slots@[j] == old(
                    self,
                ).slots@[j],
    {
        let identity = clone_opt(&self.slots[c.0].identity);
        let subscription = clone_opt(&self.slots[c.0].subscription);
        self.slots[c.0] = ConnSlot { live: false, identity, subscription };
    }

    /// Whether `c` names a slot whose connection is still open; total, so a
    /// stale or out-of-range index is reported as not live.
    pub fn is_live(&self, c: ConnId) -> (r: bool)
        ensures
            r == self.live(c),
    {
        c.0 < self.slots.len() && self.slots[c.0].live
    }

    /// The identity the slot holds, or `None` for an unregistered connection.
    pub fn identity_of(&self, c: ConnId) -> (r: Option<String>)
        requires
            self.valid(c),
        ensures
            opt_view(r) == self.identity_view(c),
    {
        clone_opt(&self.slots[c.0].identity)
    }

    /// The subscription data the slot holds, if any was offered.
    pub fn subscription_of(&self, c: ConnId) -> (r: Option<String>)
        requires
            self.valid(c),
        ensures
            opt_view(r) == self.subscription_view(c),
    {
        clone_opt(&self.slots[c.0].subscription)
    }

    /// Claims the slot's identity; only a successful registration calls this.
    pub fn set_identity(&mut self, c: ConnId, owner: &str)
        requires
            old(self).valid(c),
        ensures
            final(self).slots@.len() == old(self).slots@.len(),
            final(self).identity_view(c) == Some(owner@),
            final(self).live(c) == old(self).live(c),
            final(self).subscription_view(c) == old(self).subscription_view(c),
            forall|j: int|
                0 <= j < final(self).slots@.len() && j != c.0 as int ==> final(self).slots@[j] == old(
                    self,
                ).slots@[j],
    {
        let live = self.slots[c.0].live;
        let subscription = clone_opt(&self.slots[c.0].subscription);
        self.slots[c.0] = ConnSlot { live, identity: Some(owner.to_owned()), subscription };
    }

    /// Stores the slot's push subscription data, replacing any earlier value.
    pub fn set_subscription(&mut self, c: ConnId, data: &str)
        requires
            old(self).valid(c),
        ensures
            final(self).slots@.len() == old(self).slots@.len(),
            final(self).subscription_view(c) == Some(data@),
            final(self).live(c) == old(self).live(c),
            final(self).identity_view(c) == old(self).identity_view(c),
            forall|j: int|
                0 <= j < final(self).slots@.len() && j != c.0 as int ==> final(self).slots@[j] == old(
                    self,
                ).slots@[j],
    {
        let live = self.slots[c.0].live;
        let identity = clone_opt(&self.slots[c.0].identity);
        self.slots[c.0] = ConnSlot { live, identity, subscription: Some(data.to_owned()) };
    }
}

} // verus!
