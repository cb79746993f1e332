//! The bijection between locally scoped and server-assigned entity identifiers.
//!
//! Every process keeps one [`EntityMap`].  A client inserts a pair whenever the
//! server assigns a global identifier to one of its local objects, or whenever
//! it instantiates a local mirror of an object announced by the server.  Both
//! lookup directions are backed by a hash map, so each is a single table probe.

use vstd::prelude::*;
use std::collections::HashMap;

verus! {

broadcast use vstd::std_specs::hash::group_hash_axioms;

/// A locally scoped entity identifier, meaningful only inside one process's
/// scene graph.
#[derive(Clone, Copy, Debug, PartialEq, Eq, Hash, Structural)]
pub struct ClientEntity(pub u64);

/// A globally scoped entity identifier, allocated exclusively by the server
/// and unique for the lifetime of the session.
#[derive(Clone, Copy, Debug, PartialEq, Eq, Hash, Structural)]
pub struct ServerEntity(pub u64);

impl DeepView for ClientEntity {
    type V = ClientEntity;

    open spec fn deep_view(&self) -> ClientEntity {
        *self
    }
}

impl DeepView for ServerEntity {
    type V = ServerEntity;

    open spec fn deep_view(&self) -> ServerEntity {
        *self
    }
}

/// The forward map after a bijective insert of the pair `(c, s)`: `c` now maps
/// to `s`, and any older pair that used `c` or `s` is gone (last write wins).
pub open spec fn bimap_insert(m: Map<u64, u64>, c: u64, s: u64) -> Map<u64, u64> {
    Map::new(
        |k: u64| k == c || (m.contains_key(k) && m[k] != s),
        |k: u64| if k == c { s } else { m[k] },
    )
}

/// The reverse direction of a forward map, as a partial lookup.
pub open spec fn right_lookup(m: Map<u64, u64>, s: u64) -> Option<u64> {
    if exists|c: u64| m.contains_key(c) && m[c] == s {
        Some(choose|c: u64| m.contains_key(c) && m[c] == s)
    } else {
        None
    }
}

/// No two keys of the forward map share a value.
pub open spec fn view_injective(m: Map<u64, u64>) -> bool {
    forall|c1: u64, c2: u64|
        m.contains_key(c1) && m.contains_key(c2) && #[trigger] m[c1] == #[trigger] m[c2] ==> c1
            == c2
}

/// A bijection between [`ClientEntity`] and [`ServerEntity`] identifiers.
///
/// The abstract value (the view) is the forward map from client identifier to
/// server identifier; well-formedness guarantees that the internal reverse
/// table is exactly its inverse, so the view alone determines every lookup.
pub struct EntityMap {
    left: HashMap<u64, u64>,
    right: HashMap<u64, u64>,
}

impl View for EntityMap {
    type V = Map<u64, u64>;

    closed spec fn view(&self) -> Map<u64, u64> {
        self.left@
    }
}

impl EntityMap {
    /// The two internal tables are inverses of one another.
    pub closed spec fn wf(self) -> bool {
        &&& forall|c: u64|
            #[trigger] self.left@.contains_key(c) ==> self.right@.contains_key(self.left@[c])
                && self.right@[self.left@[c]] == c
        &&& forall|s: u64|
            #[trigger] self.right@.contains_key(s) ==> self.left@.contains_key(self.right@[s])
                && self.left@[self.right@[s]] == s
    }

    /// An empty map.
    pub fn new() -> (r: Self)
        ensures
            r.wf(),
            r@ == Map::<u64, u64>::empty(),
    {
        EntityMap { left: HashMap::new(), right: HashMap::new() }
    }

    /// The number of pairs currently registered.
    pub fn len(&self) -> (n: usize)
        ensures
            n == self@.len(),
    {
        self.left.len()
    }

    /// Registers the pair `(c, s)`, unconditionally: an older pair claiming
    /// either identifier is discarded, so the map stays a bijection (last
    /// write wins).
    pub fn insert(&mut self, c: ClientEntity, s: ServerEntity)
        requires
            old(self).wf(),
        ensures
            final(self).wf(),
            final(self)@ == bimap_insert(old(self)@, c.0, s.0),
    {
        let stale_s: Option<u64> = match self.left.get(&c.0) {
            Some(v) => Some(*v),
            None => None,
        };
        if let Some(s_old) = stale_s {
            self.right.remove(&s_old);
        }
        let stale_c: Option<u64> = match self.right.get(&s.0) {
            Some(v) => Some(*v),
            None => None,
        };
        if let Some(c_old) = stale_c {
            self.left.remove(&c_old);
        }
        self.left.insert(c.0, s.0);
        self.right.insert(s.0, c.0);
        proof {
            assert(self.left@ =~= bimap_insert(old(self)@, c.0, s.0));
        }
    }

    /// The server identifier assigned to a local entity, if any.
    pub fn get_by_left(&self, c: &ClientEntity) -> (r: Option<ServerEntity>)
        ensures
            match r {
                Some(s) => self@.contains_key(c.0) && self@[c.0] == s.0,
                None => !self@.contains_key(c.0),
            },
    {
        match self.left.get(&c.0) {
            Some(s) => Some(ServerEntity(*s)),
            None => None,
        }
    }

    /// The local entity that a server identifier is bound to, if any.
    pub fn get_by_right(&self, s: &ServerEntity) -> (r: Option<ClientEntity>)
        requires
            self.wf(),
        ensures
            match r {
                Some(c) => right_lookup(self@, s.0) == Some(c.0),
                None => right_lookup(self@, s.0) is None,
            },
            match r {
                Some(c) => self@.contains_key(c.0) && self@[c.0] == s.0,
                None => forall|c: u64| #[trigger] self@.contains_key(c) ==> self@[c] != s.0,
            },
    {
        let r = match self.right.get(&s.0) {
            Some(c) => Some(ClientEntity(*c)),
            None => None,
        };
        proof {
            match r {
                Some(c) => {
                    assert(self.left@.contains_key(c.0) && self.left@[c.0] == s.0);
                    let w = choose|k: u64| self@.contains_key(k) && self@[k] == s.0;
                    assert(self.right@[self@[w]] == w);
                },
                None => {
                    assert forall|c: u64| #[trigger] self@.contains_key(c) implies self@[c]
                        != s.0 by {
                        assert(self.right@.contains_key(self.left@[c]));
                    }
                },
            }
        }
        r
    }

    /// Law: a well-formed entity map is a bijection.  Any client entity with
    /// an entry maps to exactly one server entity, looking that server entity
    /// up again yields the same client entity, and no two client entities
    /// share a server entity.
    pub proof fn lemma_bijection(self, c: u64)
        requires
            self.wf(),
            self@.contains_key(c),
        ensures
            right_lookup(self@, self@[c]) == Some(c),
            view_injective(self@),
    {
        assert forall|c1: u64, c2: u64|
            self@.contains_key(c1) && self@.contains_key(c2) && #[trigger] self@[c1]
                == #[trigger] self@[c2] implies c1 == c2 by {
            assert(self.right@[self@[c1]] == c1);
            assert(self.right@[self@[c2]] == c2);
        }
        let w = choose|k: u64| self@.contains_key(k) && self@[k] == self@[c];
        assert(self@.contains_key(c) && self@[c] == self@[c]);
    }
}

} // verus!
