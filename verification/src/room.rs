//! Rooms: named, persistent groups of connections for one-to-room broadcast.

use vstd::prelude::*;
use crate::conn::ConnId;

verus! {

/// A named group of connections. Membership is an ordered list of connection
/// indices; joining twice leaves two entries by design, and a member whose
/// connection has closed is skipped at delivery time, never removed.
pub struct Room {
    pub name: String,
    pub nodes: Vec<ConnId>,
}

impl Room {
    /// An empty room with the given name.
    pub fn new(name: &str) -> (r: Room)
        ensures
            r.name@ == name@,
            r.nodes@.len() == 0,
    {
        Room { name: name.to_owned(), nodes: Vec::new() }
    }

    /// Appends a member; duplicates are allowed.
    pub fn add_node(&mut self, c: ConnId)
        ensures
            final(self).name == old(self).name,
            final(self).nodes@ == old(self).nodes@.push(c),
    {
        self.nodes.push(c);
    }
}

} // verus!
