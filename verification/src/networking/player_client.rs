//! Client side of player (avatar) replication.
//!
//! Each client owns exactly one local player, spawned at startup from the
//! headset pose and re-synchronized to it every frame.  Remote players are
//! mirrored as non-local records tagged [`IgnorePlayerAdd`].

use vstd::prelude::*;

use crate::Transform;
use crate::entity_map::{bimap_insert, right_lookup, ClientEntity, ServerEntity};
use crate::networking::player_server::{PlayerMsgServer, PlayerMsgServerView};
use crate::networking::{
    has_player, player_index, ChannelType, ClientId, ClientState, ClientStateView,
    IgnorePlayerAdd, IgnorePlayerChanged, Player,
};
use crate::voice::PlayerHead;

verus! {

/// Marker for the one player record this process itself animates.
#[derive(Clone, Copy, Debug, PartialEq, Eq, Structural)]
pub struct LocalPlayer;

/// One replicated player as a client's replication layer sees it.
///
/// `changed` is raised only by a local pose update; applying an inbound
/// mutation overwrites `transform` without raising it, which keeps a received
/// update from being echoed back out in the same frame.
#[derive(Clone, Copy, Debug)]
pub struct PlayerRec {
    pub entity: ClientEntity,
    pub player: Player,
    pub transform: Transform,
    pub networked: bool,
    pub newly_networked: bool,
    pub changed: bool,
    pub local: Option<LocalPlayer>,
    pub ignore_add: Option<IgnorePlayerAdd>,
    pub ignore_changed: Option<IgnorePlayerChanged>,
    pub head: Option<PlayerHead>,
}

impl DeepView for PlayerRec {
    type V = PlayerRec;

    open spec fn deep_view(&self) -> PlayerRec {
        *self
    }
}

/// Messages addressed to a client about players (sent by the server).
#[derive(Clone, Copy, Debug, PartialEq, Eq, Structural)]
pub enum PlayerMsgClient {
    /// A peer's player appeared: instantiate a local mirror.
    PlayerAdded(ServerEntity, Transform),
    /// A peer's player moved: overwrite the mirror's transform.
    PlayerChanged(ServerEntity, Transform),
    /// The server assigned a global identifier to this client's own player.
    EntityMap(ServerEntity, ClientEntity),
    /// A late joiner needs every player: answer with a catch-up bundle
    /// addressed to it.
    GetAllPlayers(ClientId),
}

impl DeepView for PlayerMsgClient {
    type V = PlayerMsgClient;

    open spec fn deep_view(&self) -> PlayerMsgClient {
        *self
    }
}

/// The state after the server registered this client's own player.
pub open spec fn spec_player_entity_map_msg(
    v: ClientStateView,
    se: ServerEntity,
    ce: ClientEntity,
) -> ClientStateView {
    ClientStateView {
        entity_map: bimap_insert(v.entity_map, ce.0, se.0),
        models: v.models,
        players: v.players,
        next_entity: v.next_entity,
    }
}

/// The state after an inbound player creation: a fresh mirror record carries
/// the announced pose, is tagged [`IgnorePlayerAdd`] so its creation is never
/// announced back, and is registered under the announced global identifier.
pub open spec fn spec_player_added_msg(
    v: ClientStateView,
    se: ServerEntity,
    t: Transform,
) -> ClientStateView {
    ClientStateView {
        entity_map: bimap_insert(v.entity_map, v.next_entity, se.0),
        models: v.models,
        players: v.players.push(
            PlayerRec {
                entity: ClientEntity(v.next_entity),
                player: Player,
                transform: t,
                networked: true,
                newly_networked: true,
                changed: false,
                local: None,
                ignore_add: Some(IgnorePlayerAdd),
                ignore_changed: None,
                head: None,
            },
        ),
        next_entity: (v.next_entity + 1) as u64,
    }
}

/// The state after an inbound player pose update: the mirror's transform is
/// overwritten in place and its change flag stays down, so the update is not
/// echoed back out.  An unregistered identifier drops the message.
pub open spec fn spec_player_changed_msg(
    v: ClientStateView,
    se: ServerEntity,
    t: Transform,
) -> ClientStateView {
    match right_lookup(v.entity_map, se.0) {
        Some(c) => {
            let ce = ClientEntity(c);
            if has_player(v.players, ce) {
                let i = player_index(v.players, ce);
                ClientStateView {
                    entity_map: v.entity_map,
                    models: v.models,
                    players: v.players.update(
                        i,
                        PlayerRec { transform: t, ..v.players[i] },
                    ),
                    next_entity: v.next_entity,
                }
            } else {
                v
            }
        },
        None => v,
    }
}

/// This record owes the server a creation announcement.
pub open spec fn player_announces_creation(p: PlayerRec) -> bool {
    p.networked && p.newly_networked && p.ignore_add is None
}

/// This record carries an unsent locally originated pose change (whether or
/// not it is registered yet).
pub open spec fn player_locally_changed(p: PlayerRec) -> bool {
    p.networked && p.changed && p.ignore_changed is None
}

/// This record owes the server a pose announcement: it is locally changed and
/// its registration has arrived.
pub open spec fn player_announces_mutation(p: PlayerRec, em: Map<u64, u64>) -> bool {
    player_locally_changed(p) && em.contains_key(p.entity.0)
}

/// This record belongs in a catch-up bundle: locally originated and already
/// registered.
pub open spec fn player_reports_catch_up(p: PlayerRec, em: Map<u64, u64>) -> bool {
    p.networked && p.ignore_add is None && em.contains_key(p.entity.0)
}

/// The client state transition for one inbound player message (a catch-up
/// request reads the state but moves nothing).
pub open spec fn spec_apply_player_client_msg(
    v: ClientStateView,
    m: PlayerMsgClient,
) -> ClientStateView {
    match m {
        PlayerMsgClient::PlayerAdded(se, t) => spec_player_added_msg(v, se, t),
        PlayerMsgClient::PlayerChanged(se, t) => spec_player_changed_msg(v, se, t),
        PlayerMsgClient::EntityMap(se, ce) => spec_player_entity_map_msg(v, se, ce),
        PlayerMsgClient::GetAllPlayers(_) => v,
    }
}

/// The catch-up bundle a client reports for players: its own players (those
/// not instantiated from a network message) that already have an assigned
/// global identifier, paired with their pose.
pub open spec fn spec_catch_up_players(ps: Seq<PlayerRec>, em: Map<u64, u64>) -> Seq<
    (ServerEntity, Transform),
>
    decreases ps.len(),
{
    if ps.len() == 0 {
        Seq::empty()
    } else {
        let p = ps.first();
        let rest = spec_catch_up_players(ps.drop_first(), em);
        if player_reports_catch_up(p, em) {
            seq![(ServerEntity(em[p.entity.0]), p.transform)] + rest
        } else {
            rest
        }
    }
}

/// The player creation announcements owed the server this frame.
pub open spec fn spec_player_added_msgs(ps: Seq<PlayerRec>) -> Seq<PlayerMsgServerView>
    decreases ps.len(),
{
    if ps.len() == 0 {
        Seq::empty()
    } else {
        let p = ps.first();
        let rest = spec_player_added_msgs(ps.drop_first());
        if player_announces_creation(p) {
            seq![PlayerMsgServerView::PlayerAdded(p.entity, p.transform)] + rest
        } else {
            rest
        }
    }
}

/// The player pose announcements owed the server this frame: one per changed,
/// registered player not tagged [`IgnorePlayerChanged`].  A player whose
/// registration is still pending contributes nothing.
pub open spec fn spec_player_changed_msgs(ps: Seq<PlayerRec>, em: Map<u64, u64>) -> Seq<
    PlayerMsgServerView,
>
    decreases ps.len(),
{
    if ps.len() == 0 {
        Seq::empty()
    } else {
        let p = ps.first();
        let rest = spec_player_changed_msgs(ps.drop_first(), em);
        if player_announces_mutation(p, em) {
            seq![
                PlayerMsgServerView::PlayerChanged(ServerEntity(em[p.entity.0]), p.transform),
            ] + rest
        } else {
            rest
        }
    }
}

impl PlayerMsgClient {
    /// Protocol-level identifier of this message family.
    pub fn get_type_name() -> (r: String)
        ensures
            r@ == "stereokit_bevy::networking::PlayerMsgClient"@,
    {
        "stereokit_bevy::networking::PlayerMsgClient".to_owned()
    }

    /// Creations, registrations and catch-up requests arrive exactly once and
    /// in order; pose updates go best-effort.
    pub fn channel_type(&self) -> (r: ChannelType)
        ensures
            r == (match *self {
                PlayerMsgClient::PlayerAdded(_, _) => ChannelType::OrderedReliable,
                PlayerMsgClient::PlayerChanged(_, _) => ChannelType::Unreliable,
                PlayerMsgClient::EntityMap(_, _) => ChannelType::OrderedReliable,
                PlayerMsgClient::GetAllPlayers(_) => ChannelType::OrderedReliable,
            }),
    {
        match self {
            PlayerMsgClient::PlayerAdded(_, _) => ChannelType::OrderedReliable,
            PlayerMsgClient::PlayerChanged(_, _) => ChannelType::Unreliable,
            PlayerMsgClient::EntityMap(_, _) => ChannelType::OrderedReliable,
            PlayerMsgClient::GetAllPlayers(_) => ChannelType::OrderedReliable,
        }
    }

    /// Applies one inbound player message and returns what must be sent back
    /// to the server (non-empty only for a catch-up request).
    pub fn client(self, state: &mut ClientState) -> (out: Vec<PlayerMsgServer>)
        requires
            old(state).wf(),
            old(state).next_entity < u64::MAX,
        ensures
            final(state).wf(),
            final(state)@ == spec_apply_player_client_msg(old(state)@, self),
            match self {
                PlayerMsgClient::PlayerAdded(se, t) => final(state)@ == spec_player_added_msg(
                    old(state)@,
                    se,
                    t,
                ) && out@.len() == 0,
                PlayerMsgClient::PlayerChanged(se, t) => final(state)@ == spec_player_changed_msg(
                    old(state)@,
                    se,
                    t,
                ) && out@.len() == 0,
                PlayerMsgClient::EntityMap(se, ce) => final(state)@ == spec_player_entity_map_msg(
                    old(state)@,
                    se,
                    ce,
                ) && out@.len() == 0,
                PlayerMsgClient::GetAllPlayers(cid) => final(state)@ == old(state)@
                    && out.deep_view() == seq![
                    PlayerMsgServerView::AllPlayerData(
                        cid,
                        spec_catch_up_players(old(state)@.players, old(state)@.entity_map),
                    ),
                ],
            },
    {
        match self {
            PlayerMsgClient::PlayerAdded(server_entity, transform) => {
                player_added_msg(state, server_entity, transform);
                Vec::new()
            },
            PlayerMsgClient::PlayerChanged(server_entity, transform) => {
                player_changed_msg(state, server_entity, transform);
                Vec::new()
            },
            PlayerMsgClient::EntityMap(server_entity, client_entity) => {
                state.entity_map.insert(client_entity, server_entity);
                proof {
                    assert(state@ =~~= spec_player_entity_map_msg(
                        old(state)@,
                        server_entity,
                        client_entity,
                    ));
                }
                Vec::new()
            },
            PlayerMsgClient::GetAllPlayers(client_id) => {
                let msg = get_all_players_msg(state, client_id);
                let mut out: Vec<PlayerMsgServer> = Vec::new();
                out.push(msg);
                proof {
                    assert(out.deep_view() =~= seq![
                        PlayerMsgServerView::AllPlayerData(
                            client_id,
                            spec_catch_up_players(old(state)@.players, old(state)@.entity_map),
                        ),
                    ]);
                }
                out
            },
        }
    }
}

/// Spawns this process's own player record from the current headset pose.
pub fn spawn_player(state: &mut ClientState, transform: Transform) -> (e: ClientEntity)
    requires
        old(state).wf(),
        old(state).next_entity < u64::MAX,
    ensures
        final(state).wf(),
        final(state)@ == (ClientStateView {
            entity_map: old(state)@.entity_map,
            models: old(state)@.models,
            players: old(state)@.players.push(
                PlayerRec {
                    entity: ClientEntity(old(state)@.next_entity),
                    player: Player,
                    transform,
                    networked: true,
                    newly_networked: true,
                    changed: false,
                    local: Some(LocalPlayer),
                    ignore_add: None,
                    ignore_changed: None,
                    head: None,
                },
            ),
            next_entity: (old(state)@.next_entity + 1) as u64,
        }),
        e == ClientEntity(old(state)@.next_entity),
{
    let entity = ClientEntity(state.next_entity);
    state.players.push(
        PlayerRec {
            entity,
            player: Player,
            transform,
            networked: true,
            newly_networked: true,
            changed: false,
            local: Some(LocalPlayer),
            ignore_add: None,
            ignore_changed: None,
            head: None,
        },
    );
    state.next_entity = state.next_entity + 1;
    proof {
        assert(state@ =~~= (ClientStateView {
            entity_map: old(state)@.entity_map,
            models: old(state)@.models,
            players: old(state)@.players.push(state@.players.last()),
            next_entity: (old(state)@.next_entity + 1) as u64,
        }));
    }
    entity
}

/// A player record after this frame's pose synchronization: the tracked head
/// pose carries only a position and an orientation, so exactly those two parts
/// of the stored transform are overwritten — the scale stays as it is — and
/// only the player records this process both animates and replicates move.
pub open spec fn spec_synced(p: PlayerRec, t: Transform) -> PlayerRec {
    if p.local is Some && p.networked {
        PlayerRec {
            transform: Transform {
                translation: t.translation,
                rotation: t.rotation,
                scale: p.transform.scale,
            },
            changed: true,
            ..p
        }
    } else {
        p
    }
}

/// Copies the freshly tracked head pose's position and orientation into every
/// networked local player record and raises its change flag, so the next
/// outbound scan reports the new pose.  The stored scale is not part of the
/// head pose and is left untouched.
pub fn sync_player(state: &mut ClientState, transform: Transform)
    requires
        old(state).wf(),
    ensures
        final(state).wf(),
        final(state)@ == (ClientStateView {
            entity_map: old(state)@.entity_map,
            models: old(state)@.models,
            players: Seq::new(
                old(state)@.players.len(),
                |i: int| spec_synced(old(state)@.players[i], transform),
            ),
            next_entity: old(state)@.next_entity,
        }),
{
    let ghost orig = old(state)@.players;
    let n = state.players.len();
    let mut i: usize = 0;
    while i < n
        invariant
            old(state).wf(),
            n == state@.players.len(),
            i <= n,
            state.entity_map == old(state).entity_map,
            state@.models == old(state)@.models,
            state@.next_entity == old(state)@.next_entity,
            orig == old(state)@.players,
            state@.players.len() == orig.len(),
            forall|j: int| 0 <= j < i ==> state@.players[j] == spec_synced(orig[j], transform),
            forall|j: int| i <= j < orig.len() ==> state@.players[j] == orig[j],
        decreases n - i,
    {
        if state.players[i].local.is_some() && state.players[i].networked {
            state.players[i].transform.translation = transform.translation;
            state.players[i].transform.rotation = transform.rotation;
            state.players[i].changed = true;
        }
        i = i + 1;
    }
    proof {
        assert(state@ =~~= (ClientStateView {
            entity_map: old(state)@.entity_map,
            models: old(state)@.models,
            players: Seq::new(orig.len(), |j: int| spec_synced(orig[j], transform)),
            next_entity: old(state)@.next_entity,
        }));
        assert forall|j: int| 0 <= j < state@.players.len() implies (
        #[trigger] state@.players[j]).entity == old(state)@.players[j].entity by {}
    }
}

/// Instantiates a mirror for a remote peer's player and registers the
/// announced identifier pair.
pub fn player_added_msg(state: &mut ClientState, server_entity: ServerEntity, transform: Transform)
    requires
        old(state).wf(),
        old(state).next_entity < u64::MAX,
    ensures
        final(state).wf(),
        final(state)@ == spec_player_added_msg(old(state)@, server_entity, transform),
{
    let entity = ClientEntity(state.next_entity);
    state.players.push(
        PlayerRec {
            entity,
            player: Player,
            transform,
            networked: true,
            newly_networked: true,
            changed: false,
            local: None,
            ignore_add: Some(IgnorePlayerAdd),
            ignore_changed: None,
            head: None,
        },
    );
    state.next_entity = state.next_entity + 1;
    state.entity_map.insert(entity, server_entity);
    proof {
        assert(state@ =~~= spec_player_added_msg(old(state)@, server_entity, transform));
    }
}

/// Applies an inbound pose update to the mirrored player, if its identifier is
/// registered; an unregistered or unknown identifier drops the message.
pub fn player_changed_msg(state: &mut ClientState, server_entity: ServerEntity, transform: Transform)
    requires
        old(state).wf(),
    ensures
        final(state).wf(),
        final(state)@ == spec_player_changed_msg(old(state)@, server_entity, transform),
{
    let client_entity = state.entity_map.get_by_right(&server_entity);
    if let Some(client_entity) = client_entity {
        if let Some(i) = state.find_player(client_entity) {
            state.players[i].transform = transform;
            proof {
                assert(state@ =~~= spec_player_changed_msg(
                    old(state)@,
                    server_entity,
                    transform,
                ));
                assert forall|j: int| 0 <= j < state@.players.len() implies (
                #[trigger] state@.players[j]).entity == old(state)@.players[j].entity by {}
            }
        } else {
            proof {
                assert(state@ =~~= spec_player_changed_msg(
                    old(state)@,
                    server_entity,
                    transform,
                ));
            }
        }
    } else {
        proof {
            assert(state@ =~~= spec_player_changed_msg(old(state)@, server_entity, transform));
        }
    }
}

/// Builds the player catch-up bundle addressed to the late joiner `client_id`.
///
/// Mirrors of remote players are not reported (their owner reports them), and
/// a player whose registration is still pending is skipped.
pub fn get_all_players_msg(state: &ClientState, client_id: ClientId) -> (msg: PlayerMsgServer)
    requires
        state.wf(),
    ensures
        msg@ == PlayerMsgServerView::AllPlayerData(
            client_id,
            spec_catch_up_players(state@.players, state@.entity_map),
        ),
{
    let ghost em = state@.entity_map;
    let ghost all = state@.players;
    let mut players: Vec<(ServerEntity, Transform)> = Vec::new();
    let mut i: usize = 0;
    proof {
        assert(all.skip(0) =~= all);
    }
    while i < state.players.len()
        invariant
            state.wf(),
            i <= state@.players.len(),
            all == state@.players,
            em == state@.entity_map,
            players@ + spec_catch_up_players(all.skip(i as int), em) == spec_catch_up_players(
                all,
                em,
            ),
        decreases state@.players.len() - i,
    {
        proof {
            assert(all.skip(i as int).first() == all[i as int]);
            assert(all.skip(i as int).drop_first() =~= all.skip(i as int + 1));
        }
        let ghost pre = players@;
        let p = &state.players[i];
        if p.networked && p.ignore_add.is_none() {
            if let Some(server_entity) = state.entity_map.get_by_left(&p.entity) {
                players.push((server_entity, p.transform));
                proof {
                    assert(pre.push((server_entity, all[i as int].transform))
                        + spec_catch_up_players(all.skip(i as int + 1), em) =~= pre + (seq![
                        (server_entity, all[i as int].transform),
                    ] + spec_catch_up_players(all.skip(i as int + 1), em)));
                }
            }
        }
        i = i + 1;
    }
    proof {
        assert(all.skip(all.len() as int) =~= Seq::empty());
        assert(players@ + Seq::<(ServerEntity, Transform)>::empty() =~= players@);
    }
    PlayerMsgServer::AllPlayerData(client_id, players)
}

/// Collects the player creation announcements owed this frame.  Mirrors tagged
/// [`IgnorePlayerAdd`] were instantiated from a network message and are never
/// announced.
pub fn player_added(state: &ClientState) -> (out: Vec<PlayerMsgServer>)
    requires
        state.wf(),
    ensures
        out.deep_view() == spec_player_added_msgs(state@.players),
{
    let ghost all = state@.players;
    let mut out: Vec<PlayerMsgServer> = Vec::new();
    let mut i: usize = 0;
    proof {
        assert(all.skip(0) =~= all);
    }
    while i < state.players.len()
        invariant
            state.wf(),
            i <= state@.players.len(),
            all == state@.players,
            out.deep_view() + spec_player_added_msgs(all.skip(i as int)) == spec_player_added_msgs(
                all,
            ),
        decreases state@.players.len() - i,
    {
        proof {
            assert(all.skip(i as int).first() == all[i as int]);
            assert(all.skip(i as int).drop_first() =~= all.skip(i as int + 1));
        }
        let ghost pre = out.deep_view();
        let p = &state.players[i];
        if p.networked && p.newly_networked && p.ignore_add.is_none() {
            out.push(PlayerMsgServer::PlayerAdded(p.entity, p.transform));
            proof {
                assert(out.deep_view() =~= pre.push(
                    PlayerMsgServerView::PlayerAdded(all[i as int].entity, all[i as int].transform),
                ));
                assert(pre.push(
                    PlayerMsgServerView::PlayerAdded(all[i as int].entity, all[i as int].transform),
                ) + spec_player_added_msgs(all.skip(i as int + 1)) =~= pre + (seq![
                    PlayerMsgServerView::PlayerAdded(all[i as int].entity, all[i as int].transform),
                ] + spec_player_added_msgs(all.skip(i as int + 1))));
            }
        }
        i = i + 1;
    }
    proof {
        assert(all.skip(all.len() as int) =~= Seq::empty());
        assert(out.deep_view() + Seq::<PlayerMsgServerView>::empty() =~= out.deep_view());
    }
    out
}

/// Collects the player pose announcements owed this frame.
pub fn player_changed(state: &ClientState) -> (out: Vec<PlayerMsgServer>)
    requires
        state.wf(),
    ensures
        out.deep_view() == spec_player_changed_msgs(state@.players, state@.entity_map),
{
    let ghost em = state@.entity_map;
    let ghost all = state@.players;
    let mut out: Vec<PlayerMsgServer> = Vec::new();
    let mut i: usize = 0;
    proof {
        assert(all.skip(0) =~= all);
    }
    while i < state.players.len()
        invariant
            state.wf(),
            i <= state@.players.len(),
            all == state@.players,
            em == state@.entity_map,
            out.deep_view() + spec_player_changed_msgs(all.skip(i as int), em)
                == spec_player_changed_msgs(all, em),
        decreases state@.players.len() - i,
    {
        proof {
            assert(all.skip(i as int).first() == all[i as int]);
            assert(all.skip(i as int).drop_first() =~= all.skip(i as int + 1));
        }
        let ghost pre = out.deep_view();
        let p = &state.players[i];
        if p.networked && p.changed && p.ignore_changed.is_none() {
            if let Some(server_entity) = state.entity_map.get_by_left(&p.entity) {
                out.push(PlayerMsgServer::PlayerChanged(server_entity, p.transform));
                proof {
                    assert(out.deep_view() =~= pre.push(
                        PlayerMsgServerView::PlayerChanged(server_entity, all[i as int].transform),
                    ));
                    assert(pre.push(
                        PlayerMsgServerView::PlayerChanged(server_entity, all[i as int].transform),
                    ) + spec_player_changed_msgs(all.skip(i as int + 1), em) =~= pre + (seq![
                        PlayerMsgServerView::PlayerChanged(server_entity, all[i as int].transform),
                    ] + spec_player_changed_msgs(all.skip(i as int + 1), em)));
                }
            }
        }
        i = i + 1;
    }
    proof {
        assert(all.skip(all.len() as int) =~= Seq::empty());
        assert(out.deep_view() + Seq::<PlayerMsgServerView>::empty() =~= out.deep_view());
    }
    out
}

} // verus!
