use vstd::prelude::*;

use std::collections::HashMap;

verus! {

broadcast use vstd::std_specs::hash::group_hash_axioms;

/// The outbound channel of each open connection, by connection id.
pub struct ConnectionRegistry<T> {
    peers: HashMap<u64, T>,
}

impl<T> View for ConnectionRegistry<T> {
    type V = Map<u64, T>;

    closed spec fn view(&self) -> Map<u64, T> {
        self.peers@
    }
}

impl<T> ConnectionRegistry<T> {
    /// A registry with no connection.
    pub fn new() -> (r: Self)
        ensures
            r@ == Map::<u64, T>::empty(),
    {
        ConnectionRegistry { peers: HashMap::new() }
    }

    /// Records the channel of connection `id`, in place of any earlier one.
    pub fn register(&mut self, id: u64, channel: T)
        ensures
            final(self)@ == old(self)@.insert(id, channel),
    {
        self.peers.insert(id, channel);
    }

    /// Forgets connection `id`, and hands back its channel if it had one.
    pub fn unregister(&mut self, id: u64) -> (r: Option<T>)
        ensures
            final(self)@ == old(self)@.remove(id),
            match r {
                Some(c) => old(self)@.contains_key(id) && old(self)@[id] == c,
                None => !old(self)@.contains_key(id),
            },
    {
        self.peers.remove(&id)
    }

    /// The channel of connection `id`.
    pub fn get(&self, id: u64) -> (r: Option<&T>)
        ensures
            match r {
                Some(c) => self@.contains_key(id) && self@[id] == *c,
                None => !self@.contains_key(id),
            },
    {
        self.peers.get(&id)
    }
}

} // verus!
