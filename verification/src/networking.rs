//! The client-server replication protocol.
//!
//! The server is a pure relay with an identifier allocator: it owns no scene
//! state of its own.  Each client owns a local scene (models and players), an
//! [`crate::entity_map::EntityMap`], and runs one replication pass per frame:
//! inbound messages are applied first, then locally originated creations and
//! mutations are collected for sending.

use vstd::prelude::*;

use crate::entity_map::{ClientEntity, EntityMap};
use crate::networking::player_client::PlayerRec;
use crate::{ModelBundle, ModelData, ModelData2, ModelDataView};

pub mod laws;
pub mod model_client;
pub mod model_server;
pub mod player_client;
pub mod player_server;

verus! {

/// What a pure relay emits: one copy of `msg` for every connected peer except
/// the sender, in connection order.
pub open spec fn relay_except<M>(clients: Seq<ClientId>, sender: ClientId, msg: M) -> Seq<
    (ClientId, M),
>
    decreases clients.len(),
{
    if clients.len() == 0 {
        Seq::empty()
    } else {
        let rest = relay_except(clients.drop_first(), sender, msg);
        if clients.first() == sender {
            rest
        } else {
            seq![(clients.first(), msg)] + rest
        }
    }
}

/// Identifier of a connected peer, assigned by the transport layer.
pub type ClientId = u64;

/// Delivery quality of an outbound message: `OrderedReliable` messages arrive
/// exactly once and in send order, `Unreliable` messages are best-effort.
#[derive(Clone, Copy, Debug, PartialEq, Eq, Structural)]
pub enum ChannelType {
    OrderedReliable,
    Unreliable,
}

/// Marker for a participant's avatar object.
#[derive(Clone, Copy, Debug, PartialEq, Eq, Structural)]
pub struct Player;

/// Tag on a model instantiated from a network message: its creation must not
/// be announced back to the server.
#[derive(Clone, Copy, Debug, PartialEq, Eq, Structural)]
pub struct IgnoreModelAdd;

/// Tag suppressing mutation broadcasts for a model.
#[derive(Clone, Copy, Debug, PartialEq, Eq, Structural)]
pub struct IgnoreModelChanged;

/// Tag on a player mirror instantiated from a network message: its creation
/// must not be announced back to the server.
#[derive(Clone, Copy, Debug, PartialEq, Eq, Structural)]
pub struct IgnorePlayerAdd;

/// Tag suppressing mutation broadcasts for a player.
#[derive(Clone, Copy, Debug, PartialEq, Eq, Structural)]
pub struct IgnorePlayerChanged;

/// One replicated scene object as a client's replication layer sees it.
///
/// `networked` marks an object this client itself placed under replication;
/// mirrors of remote objects are not networked, so no outbound scan picks them
/// up.  `newly_networked` and `changed` are the per-frame change-detection
/// flags; applying an inbound mutation overwrites the data fields without
/// raising `changed`, which is what keeps a received update from being echoed
/// back out in the same frame.
#[derive(Debug)]
pub struct LocalModel {
    pub entity: ClientEntity,
    pub data: ModelData,
    pub networked: bool,
    pub newly_networked: bool,
    pub changed: bool,
    pub ignore_add: Option<IgnoreModelAdd>,
    pub ignore_changed: Option<IgnoreModelChanged>,
}

/// Mathematical model of [`LocalModel`].
#[verifier::ext_equal]
pub struct LocalModelView {
    pub entity: ClientEntity,
    pub data: ModelDataView,
    pub networked: bool,
    pub newly_networked: bool,
    pub changed: bool,
    pub ignore_add: bool,
    pub ignore_changed: bool,
}

impl View for LocalModel {
    type V = LocalModelView;

    open spec fn view(&self) -> LocalModelView {
        LocalModelView {
            entity: self.entity,
            data: self.data@,
            networked: self.networked,
            newly_networked: self.newly_networked,
            changed: self.changed,
            ignore_add: self.ignore_add is Some,
            ignore_changed: self.ignore_changed is Some,
        }
    }
}

impl DeepView for LocalModel {
    type V = LocalModelView;

    open spec fn deep_view(&self) -> LocalModelView {
        self.view()
    }
}

/// A client's whole replication state: its entity map, its local scene
/// records, and the allocator for fresh local entity identifiers.
pub struct ClientState {
    pub entity_map: EntityMap,
    pub models: Vec<LocalModel>,
    pub players: Vec<PlayerRec>,
    pub next_entity: u64,
}

/// Mathematical model of [`ClientState`].
#[verifier::ext_equal]
pub struct ClientStateView {
    pub entity_map: Map<u64, u64>,
    pub models: Seq<LocalModelView>,
    pub players: Seq<PlayerRec>,
    pub next_entity: u64,
}

impl View for ClientState {
    type V = ClientStateView;

    open spec fn view(&self) -> ClientStateView {
        ClientStateView {
            entity_map: self.entity_map@,
            models: self.models.deep_view(),
            players: self.players@,
            next_entity: self.next_entity,
        }
    }
}

/// Every record's entity identifier was allocated below `next_entity`, and no
/// two records (model or player) share one.
pub open spec fn state_ids_ok(v: ClientStateView) -> bool {
    &&& forall|i: int|
        0 <= i < v.models.len() ==> (#[trigger] v.models[i]).entity.0 < v.next_entity
    &&& forall|i: int|
        0 <= i < v.players.len() ==> (#[trigger] v.players[i]).entity.0 < v.next_entity
    &&& forall|i: int, j: int|
        0 <= i < j < v.models.len() ==> (#[trigger] v.models[i]).entity != (
        #[trigger] v.models[j]).entity
    &&& forall|i: int, j: int|
        0 <= i < j < v.players.len() ==> (#[trigger] v.players[i]).entity != (
        #[trigger] v.players[j]).entity
    &&& forall|i: int, j: int|
        0 <= i < v.models.len() && 0 <= j < v.players.len() ==> (#[trigger] v.models[i]).entity
            != (#[trigger] v.players[j]).entity
}

/// There is a model record for entity `e`.
pub open spec fn has_model(ms: Seq<LocalModelView>, e: ClientEntity) -> bool {
    exists|i: int| 0 <= i < ms.len() && (#[trigger] ms[i]).entity == e
}

/// The index of the model record for entity `e` (meaningful when `has_model`).
pub open spec fn model_index(ms: Seq<LocalModelView>, e: ClientEntity) -> int {
    choose|i: int| 0 <= i < ms.len() && (#[trigger] ms[i]).entity == e
}

/// There is a player record for entity `e`.
pub open spec fn has_player(ps: Seq<PlayerRec>, e: ClientEntity) -> bool {
    exists|i: int| 0 <= i < ps.len() && (#[trigger] ps[i]).entity == e
}

/// The index of the player record for entity `e` (meaningful when `has_player`).
pub open spec fn player_index(ps: Seq<PlayerRec>, e: ClientEntity) -> int {
    choose|i: int| 0 <= i < ps.len() && (#[trigger] ps[i]).entity == e
}

/// The state after a client placed a new object under replication itself:
/// the record is networked and freshly so, carries no ignore tags, and the
/// entity map is untouched (registration happens only when the server answers).
pub open spec fn spec_spawn_model(v: ClientStateView, data: ModelDataView) -> ClientStateView {
    ClientStateView {
        entity_map: v.entity_map,
        models: v.models.push(
            LocalModelView {
                entity: ClientEntity(v.next_entity),
                data,
                networked: true,
                newly_networked: true,
                changed: false,
                ignore_add: false,
                ignore_changed: false,
            },
        ),
        players: v.players,
        next_entity: (v.next_entity + 1) as u64,
    }
}

/// A record after a local edit: the mutable payload fields are overwritten and
/// the change flag is raised, so the next outbound scan picks the object up.
pub open spec fn spec_local_edit(m: LocalModelView, d: ModelData2) -> LocalModelView {
    LocalModelView {
        entity: m.entity,
        data: m.data.with_delta(d),
        networked: m.networked,
        newly_networked: m.newly_networked,
        changed: true,
        ignore_add: m.ignore_add,
        ignore_changed: m.ignore_changed,
    }
}

/// The state after a local edit of the model for entity `e`; without such a
/// model the state is unchanged.
pub open spec fn spec_mutate_model(
    v: ClientStateView,
    e: ClientEntity,
    d: ModelData2,
) -> ClientStateView {
    if has_model(v.models, e) {
        let i = model_index(v.models, e);
        ClientStateView {
            entity_map: v.entity_map,
            models: v.models.update(i, spec_local_edit(v.models[i], d)),
            players: v.players,
            next_entity: v.next_entity,
        }
    } else {
        v
    }
}

impl ClientState {
    /// The entity map is a bijection and all record identifiers are distinct.
    pub open spec fn wf(self) -> bool {
        &&& self.entity_map.wf()
        &&& state_ids_ok(self@)
    }

    /// A fresh client with no records and no registrations.
    pub fn new() -> (r: Self)
        ensures
            r.wf(),
            r@ == (ClientStateView {
                entity_map: Map::<u64, u64>::empty(),
                models: Seq::<LocalModelView>::empty(),
                players: Seq::<PlayerRec>::empty(),
                next_entity: 0,
            }),
    {
        let r = ClientState {
            entity_map: EntityMap::new(),
            models: Vec::new(),
            players: Vec::new(),
            next_entity: 0,
        };
        proof {
            assert(r@ =~~= (ClientStateView {
                entity_map: Map::<u64, u64>::empty(),
                models: Seq::<LocalModelView>::empty(),
                players: Seq::<PlayerRec>::empty(),
                next_entity: 0,
            }));
        }
        r
    }

    /// The index of the model record for `entity`, if there is one.
    pub fn find_model(&self, entity: ClientEntity) -> (r: Option<usize>)
        requires
            self.wf(),
        ensures
            match r {
                Some(i) => i < self@.models.len() && self@.models[i as int].entity == entity
                    && i == model_index(self@.models, entity),
                None => !has_model(self@.models, entity),
            },
    {
        let mut i: usize = 0;
        while i < self.models.len()
            invariant
                self.wf(),
                i <= self@.models.len(),
                forall|j: int| 0 <= j < i ==> (#[trigger] self@.models[j]).entity != entity,
            decreases self@.models.len() - i,
        {
            if self.models[i].entity.0 == entity.0 {
                proof {
                    assert(self@.models[i as int].entity == entity);
                    assert(has_model(self@.models, entity));
                    let k = model_index(self@.models, entity);
                    assert(0 <= k < self@.models.len() && self@.models[k].entity == entity);
                    if k < i as int {
                        assert(self@.models[k].entity != self@.models[i as int].entity);
                    } else if k > i as int {
                        assert(self@.models[i as int].entity != self@.models[k].entity);
                    }
                }
                return Some(i);
            }
            i = i + 1;
        }
        None
    }

    /// The index of the player record for `entity`, if there is one.
    pub fn find_player(&self, entity: ClientEntity) -> (r: Option<usize>)
        requires
            self.wf(),
        ensures
            match r {
                Some(i) => i < self@.players.len() && self@.players[i as int].entity == entity
                    && i == player_index(self@.players, entity),
                None => !has_player(self@.players, entity),
            },
    {
        let mut i: usize = 0;
        while i < self.players.len()
            invariant
                self.wf(),
                i <= self@.players.len(),
                forall|j: int| 0 <= j < i ==> (#[trigger] self@.players[j]).entity != entity,
            decreases self@.players.len() - i,
        {
            if self.players[i].entity.0 == entity.0 {
                proof {
                    assert(self@.players[i as int].entity == entity);
                    assert(has_player(self@.players, entity));
                    let k = player_index(self@.players, entity);
                    assert(0 <= k < self@.players.len() && self@.players[k].entity == entity);
                    if k < i as int {
                        assert(self@.players[k].entity != self@.players[i as int].entity);
                    } else if k > i as int {
                        assert(self@.players[i as int].entity != self@.players[k].entity);
                    }
                }
                return Some(i);
            }
            i = i + 1;
        }
        None
    }

    /// Places a new object under replication: the local record is created
    /// networked and freshly networked, so the next outbound scan announces it
    /// to the server.  Returns the new local entity.
    pub fn spawn_model(&mut self, bundle: ModelBundle) -> (e: ClientEntity)
        requires
            old(self).wf(),
            old(self).next_entity < u64::MAX,
        ensures
            final(self).wf(),
            final(self)@ == spec_spawn_model(old(self)@, bundle@),
            e == ClientEntity(old(self)@.next_entity),
    {
        let entity = ClientEntity(self.next_entity);
        let data = bundle.data();
        self.models.push(
            LocalModel {
                entity,
                data,
                networked: true,
                newly_networked: true,
                changed: false,
                ignore_add: None,
                ignore_changed: None,
            },
        );
        self.next_entity = self.next_entity + 1;
        proof {
            assert(self@ =~~= spec_spawn_model(old(self)@, bundle@));
        }
        entity
    }

    /// A local edit of a replicated object: overwrites the mutable payload
    /// fields and raises the change flag.  Returns whether the object exists.
    pub fn mutate_model(&mut self, entity: ClientEntity, delta: ModelData2) -> (found: bool)
        requires
            old(self).wf(),
        ensures
            final(self).wf(),
            final(self)@ == spec_mutate_model(old(self)@, entity, delta),
            found == has_model(old(self)@.models, entity),
    {
        match self.find_model(entity) {
            Some(i) => {
                self.models[i].data.transform = delta.transform;
                self.models[i].data.color128 = delta.color128;
                self.models[i].data.render_layer = delta.render_layer;
                self.models[i].changed = true;
                proof {
                    assert(self@ =~~= spec_mutate_model(old(self)@, entity, delta));
                }
                true
            },
            None => {
                proof {
                    assert(self@ =~~= spec_mutate_model(old(self)@, entity, delta));
                }
                false
            },
        }
    }
}

/// A model record once this frame's change detection has been consumed.
pub open spec fn spec_model_flags_cleared(m: LocalModelView) -> LocalModelView {
    LocalModelView {
        entity: m.entity,
        data: m.data,
        networked: m.networked,
        newly_networked: false,
        changed: false,
        ignore_add: m.ignore_add,
        ignore_changed: m.ignore_changed,
    }
}

/// A player record once this frame's change detection has been consumed.
pub open spec fn spec_player_flags_cleared(p: PlayerRec) -> PlayerRec {
    PlayerRec { newly_networked: false, changed: false, ..p }
}

impl ClientState {
    /// Consumes this frame's change detection: once the outbound scans have
    /// run, every creation and mutation flag drops, so the next frame reports
    /// only what changes between now and then.
    pub fn clear_frame_flags(&mut self)
        requires
            old(self).wf(),
        ensures
            final(self).wf(),
            final(self)@ == (ClientStateView {
                entity_map: old(self)@.entity_map,
                models: Seq::new(
                    old(self)@.models.len(),
                    |i: int| spec_model_flags_cleared(old(self)@.models[i]),
                ),
                players: Seq::new(
                    old(self)@.players.len(),
                    |i: int| spec_player_flags_cleared(old(self)@.players[i]),
                ),
                next_entity: old(self)@.next_entity,
            }),
    {
        let ghost orig_models = old(self)@.models;
        let ghost orig_players = old(self)@.players;
        let n = self.models.len();
        let mut i: usize = 0;
        proof {
            assert(self@.models =~= Seq::new(
                orig_models.len(),
                |j: int|
                    if j < 0 {
                        spec_model_flags_cleared(orig_models[j])
                    } else {
                        orig_models[j]
                    },
            ));
        }
        while i < n
            invariant
                old(self).wf(),
                n == self@.models.len(),
                i <= n,
                self.entity_map == old(self).entity_map,
                self@.players == old(self)@.players,
                self@.next_entity == old(self)@.next_entity,
                orig_models == old(self)@.models,
                self@.models == Seq::new(
                    orig_models.len(),
                    |j: int|
                        if j < i {
                            spec_model_flags_cleared(orig_models[j])
                        } else {
                            orig_models[j]
                        },
                ),
            decreases n - i,
        {
            let ghost pre = self@.models;
            self.models[i].newly_networked = false;
            self.models[i].changed = false;
            proof {
                assert forall|j: int|
                    0 <= j < pre.len() && j != i implies #[trigger] self@.models[j] == pre[j] by {}
                assert(self@.models[i as int] =~~= spec_model_flags_cleared(
                    orig_models[i as int],
                )) by {
                    assert(pre[i as int] == orig_models[i as int]);
                }
            }
            i = i + 1;
            proof {
                assert(self@.models =~~= Seq::new(
                    orig_models.len(),
                    |j: int|
                        if j < i {
                            spec_model_flags_cleared(orig_models[j])
                        } else {
                            orig_models[j]
                        },
                ));
            }
        }
        proof {
            assert(self@.models =~= Seq::new(
                orig_models.len(),
                |i: int| spec_model_flags_cleared(orig_models[i]),
            ));
        }
        let m = self.players.len();
        let mut k: usize = 0;
        while k < m
            invariant
                old(self).wf(),
                m == self@.players.len(),
                k <= m,
                self.entity_map == old(self).entity_map,
                self@.next_entity == old(self)@.next_entity,
                orig_players == old(self)@.players,
                self@.players.len() == orig_players.len(),
                self@.models == Seq::new(
                    orig_models.len(),
                    |i: int| spec_model_flags_cleared(orig_models[i]),
                ),
                forall|j: int|
                    0 <= j < k ==> self@.players[j] == spec_player_flags_cleared(orig_players[j]),
                forall|j: int| k <= j < orig_players.len() ==> self@.players[j] == orig_players[j],
            decreases m - k,
        {
            self.players[k].newly_networked = false;
            self.players[k].changed = false;
            k = k + 1;
        }
        proof {
            assert(self@ =~~= (ClientStateView {
                entity_map: old(self)@.entity_map,
                models: Seq::new(
                    orig_models.len(),
                    |i: int| spec_model_flags_cleared(orig_models[i]),
                ),
                players: Seq::new(
                    orig_players.len(),
                    |i: int| spec_player_flags_cleared(orig_players[i]),
                ),
                next_entity: old(self)@.next_entity,
            }));
            assert forall|j: int| 0 <= j < self@.models.len() implies (
            #[trigger] self@.models[j]).entity == old(self)@.models[j].entity by {}
            assert forall|j: int| 0 <= j < self@.players.len() implies (
            #[trigger] self@.players[j]).entity == old(self)@.players[j].entity by {}
        }
    }
}

/// The server's replication state: a fresh-identifier allocator and the set of
/// connected peers.  The server mirrors no scene state — it is a pure relay.
pub struct ServerState {
    pub next_entity: u64,
    pub clients: Vec<ClientId>,
}

/// Mathematical model of [`ServerState`].
#[verifier::ext_equal]
pub struct ServerStateView {
    pub next_entity: u64,
    pub clients: Seq<ClientId>,
}

impl View for ServerState {
    type V = ServerStateView;

    open spec fn view(&self) -> ServerStateView {
        ServerStateView { next_entity: self.next_entity, clients: self.clients@ }
    }
}

impl ServerState {
    /// No peer is listed twice.
    pub open spec fn wf(self) -> bool {
        forall|i: int, j: int|
            0 <= i < j < self@.clients.len() ==> #[trigger] self@.clients[i]
                != #[trigger] self@.clients[j]
    }

    /// A fresh server with no connected peers.
    pub fn new() -> (r: Self)
        ensures
            r.wf(),
            r@ == (ServerStateView { next_entity: 0, clients: Seq::<ClientId>::empty() }),
    {
        let r = ServerState { next_entity: 0, clients: Vec::new() };
        proof {
            assert(r@ =~~= (ServerStateView { next_entity: 0, clients: Seq::<ClientId>::empty() }));
        }
        r
    }

    /// Whether `id` is a connected peer.
    pub fn is_connected(&self, id: ClientId) -> (r: bool)
        ensures
            r == self@.clients.contains(id),
    {
        let mut i: usize = 0;
        while i < self.clients.len()
            invariant
                i <= self@.clients.len(),
                forall|j: int| 0 <= j < i ==> self@.clients[j] != id,
            decreases self@.clients.len() - i,
        {
            if self.clients[i] == id {
                return true;
            }
            i = i + 1;
        }
        proof {
            assert(!self@.clients.contains(id));
        }
        false
    }

    /// Registers a newly connected peer; a peer already listed is not listed
    /// twice.
    pub fn register_client(&mut self, id: ClientId)
        requires
            old(self).wf(),
        ensures
            final(self).wf(),
            final(self)@.next_entity == old(self)@.next_entity,
            final(self)@.clients == if old(self)@.clients.contains(id) {
                old(self)@.clients
            } else {
                old(self)@.clients.push(id)
            },
    {
        if !self.is_connected(id) {
            self.clients.push(id);
        }
    }
}

} // verus!

