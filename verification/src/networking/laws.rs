//! Machine-checked laws of the replication scheme: what the relay guarantees
//! each peer, what applying a creation does to a client, that a late joiner's
//! catch-up is complete, that unregistered mutations are dropped, and that
//! nothing a client receives is echoed back out.

use vstd::prelude::*;

use crate::entity_map::{ClientEntity, ServerEntity};
use crate::networking::model_client::{
    model_announces_creation, model_announces_mutation, model_locally_changed,
    spec_apply_model_client_msg, spec_catch_up_models, spec_model_added_msg,
    spec_model_added_msgs, spec_model_changed_msgs, ModelMsgClientView,
};
use crate::networking::model_server::ModelMsgServerView;
use crate::networking::player_client::{
    player_announces_creation, player_announces_mutation, player_locally_changed,
    spec_apply_player_client_msg, spec_catch_up_players, spec_player_added_msg,
    spec_player_added_msgs, spec_player_changed_msgs, PlayerMsgClient, PlayerRec,
};
use crate::networking::player_server::PlayerMsgServerView;
use crate::networking::{
    relay_except, spec_model_flags_cleared, spec_mutate_model, spec_spawn_model, state_ids_ok,
    ClientId, ClientStateView, LocalModelView, ServerStateView,
};
use crate::{ModelData2, ModelDataView, Transform};

verus! {

/// This record is registered under the global identifier `se`.
pub open spec fn registered_as(m: LocalModelView, em: Map<u64, u64>, se: ServerEntity) -> bool {
    em.contains_key(m.entity.0) && em[m.entity.0] == se.0
}

/// This player record is registered under the global identifier `se`.
pub open spec fn player_registered_as(p: PlayerRec, em: Map<u64, u64>, se: ServerEntity) -> bool {
    em.contains_key(p.entity.0) && em[p.entity.0] == se.0
}

/// Some bundled object carries the global identifier `s`.
pub open spec fn bundle_has_id(list: Seq<(ServerEntity, ModelDataView)>, s: ServerEntity) -> bool {
    exists|j: int| 0 <= j < list.len() && (#[trigger] list[j]).0 == s
}

/// A creation-scan over models with nothing to announce is empty.
proof fn lemma_model_added_scan_empty(ms: Seq<LocalModelView>)
    requires
        forall|i: int| 0 <= i < ms.len() ==> !model_announces_creation(#[trigger] ms[i]),
    ensures
        spec_model_added_msgs(ms) == Seq::<ModelMsgServerView>::empty(),
    decreases ms.len(),
{
    if ms.len() > 0 {
        let rest = ms.drop_first();
        assert(!model_announces_creation(ms[0]));
        assert forall|i: int| 0 <= i < rest.len() implies !model_announces_creation(
            #[trigger] rest[i],
        ) by {
            assert(rest[i] == ms[i + 1]);
        }
        lemma_model_added_scan_empty(rest);
    }
}

/// A mutation-scan over models with nothing to announce is empty.
proof fn lemma_model_changed_scan_empty(ms: Seq<LocalModelView>, em: Map<u64, u64>)
    requires
        forall|i: int| 0 <= i < ms.len() ==> !model_announces_mutation(#[trigger] ms[i], em),
    ensures
        spec_model_changed_msgs(ms, em) == Seq::<ModelMsgServerView>::empty(),
    decreases ms.len(),
{
    if ms.len() > 0 {
        let rest = ms.drop_first();
        assert(!model_announces_mutation(ms[0], em));
        assert forall|i: int| 0 <= i < rest.len() implies !model_announces_mutation(
            #[trigger] rest[i],
            em,
        ) by {
            assert(rest[i] == ms[i + 1]);
        }
        lemma_model_changed_scan_empty(rest, em);
    }
}

/// A creation-scan over players with nothing to announce is empty.
proof fn lemma_player_added_scan_empty(ps: Seq<PlayerRec>)
    requires
        forall|i: int| 0 <= i < ps.len() ==> !player_announces_creation(#[trigger] ps[i]),
    ensures
        spec_player_added_msgs(ps) == Seq::<PlayerMsgServerView>::empty(),
    decreases ps.len(),
{
    if ps.len() > 0 {
        let rest = ps.drop_first();
        assert(!player_announces_creation(ps[0]));
        assert forall|i: int| 0 <= i < rest.len() implies !player_announces_creation(
            #[trigger] rest[i],
        ) by {
            assert(rest[i] == ps[i + 1]);
        }
        lemma_player_added_scan_empty(rest);
    }
}

/// A pose-scan over players with nothing to announce is empty.
proof fn lemma_player_changed_scan_empty(ps: Seq<PlayerRec>, em: Map<u64, u64>)
    requires
        forall|i: int| 0 <= i < ps.len() ==> !player_announces_mutation(#[trigger] ps[i], em),
    ensures
        spec_player_changed_msgs(ps, em) == Seq::<PlayerMsgServerView>::empty(),
    decreases ps.len(),
{
    if ps.len() > 0 {
        let rest = ps.drop_first();
        assert(!player_announces_mutation(ps[0], em));
        assert forall|i: int| 0 <= i < rest.len() implies !player_announces_mutation(
            #[trigger] rest[i],
            em,
        ) by {
            assert(rest[i] == ps[i + 1]);
        }
        lemma_player_changed_scan_empty(rest, em);
    }
}

/// Law: a mutation of an object whose registration is still pending is
/// silently dropped.  While every locally changed model is unregistered, the
/// outbound mutation scan sends nothing at all (and, being a verified total
/// function, it cannot panic either).
pub proof fn lemma_pending_mutation_dropped(ms: Seq<LocalModelView>, em: Map<u64, u64>)
    requires
        forall|i: int|
            0 <= i < ms.len() && (#[trigger] ms[i]).changed ==> !em.contains_key(ms[i].entity.0),
    ensures
        spec_model_changed_msgs(ms, em) == Seq::<ModelMsgServerView>::empty(),
{
    assert forall|i: int| 0 <= i < ms.len() implies !model_announces_mutation(
        #[trigger] ms[i],
        em,
    ) by {}
    lemma_model_changed_scan_empty(ms, em);
}

/// Law (self-origin echo suppression, models): a client with no locally
/// originated work pending — no unannounced creation and no unsent local
/// change — still has none after applying any message received from the
/// server.  The outbound scans of that frame therefore send nothing, in
/// particular not the state it just received and applied.
pub proof fn lemma_echo_suppression_models(v: ClientStateView, m: ModelMsgClientView)
    requires
        forall|i: int|
            0 <= i < v.models.len() ==> !model_announces_creation(#[trigger] v.models[i])
                && !model_locally_changed(v.models[i]),
    ensures
        spec_model_added_msgs(spec_apply_model_client_msg(v, m).models) == Seq::<
            ModelMsgServerView,
        >::empty(),
        spec_model_changed_msgs(
            spec_apply_model_client_msg(v, m).models,
            spec_apply_model_client_msg(v, m).entity_map,
        ) == Seq::<ModelMsgServerView>::empty(),
{
    let v2 = spec_apply_model_client_msg(v, m);
    assert forall|i: int| 0 <= i < v2.models.len() implies !model_announces_creation(
        #[trigger] v2.models[i],
    ) && !model_locally_changed(v2.models[i]) by {
        match m {
            ModelMsgClientView::ModelAdded(se, data) => {
                if i < v.models.len() {
                    assert(v2.models[i] == v.models[i]);
                }
            },
            ModelMsgClientView::ModelChanged(se, d) => {
                if i < v.models.len() && v2.models[i] != v.models[i] {
                    assert(!model_announces_creation(v.models[i]));
                    assert(!model_locally_changed(v.models[i]));
                }
            },
            ModelMsgClientView::EntityMap(se, ce) => {},
            ModelMsgClientView::GetAllModelData(cid) => {},
        }
    }
    assert forall|i: int| 0 <= i < v2.models.len() implies !model_announces_mutation(
        #[trigger] v2.models[i],
        v2.entity_map,
    ) by {}
    lemma_model_added_scan_empty(v2.models);
    lemma_model_changed_scan_empty(v2.models, v2.entity_map);
}

/// Law (self-origin echo suppression, players): the player analog of
/// [`lemma_echo_suppression_models`].
pub proof fn lemma_echo_suppression_players(v: ClientStateView, m: PlayerMsgClient)
    requires
        forall|i: int|
            0 <= i < v.players.len() ==> !player_announces_creation(#[trigger] v.players[i])
                && !player_locally_changed(v.players[i]),
    ensures
        spec_player_added_msgs(spec_apply_player_client_msg(v, m).players) == Seq::<
            PlayerMsgServerView,
        >::empty(),
        spec_player_changed_msgs(
            spec_apply_player_client_msg(v, m).players,
            spec_apply_player_client_msg(v, m).entity_map,
        ) == Seq::<PlayerMsgServerView>::empty(),
{
    let v2 = spec_apply_player_client_msg(v, m);
    assert forall|i: int| 0 <= i < v2.players.len() implies !player_announces_creation(
        #[trigger] v2.players[i],
    ) && !player_locally_changed(v2.players[i]) by {
        match m {
            PlayerMsgClient::PlayerAdded(se, t) => {
                if i < v.players.len() {
                    assert(v2.players[i] == v.players[i]);
                }
            },
            PlayerMsgClient::PlayerChanged(se, t) => {
                if i < v.players.len() && v2.players[i] != v.players[i] {
                    assert(!player_announces_creation(v.players[i]));
                    assert(!player_locally_changed(v.players[i]));
                }
            },
            PlayerMsgClient::EntityMap(se, ce) => {},
            PlayerMsgClient::GetAllPlayers(cid) => {},
        }
    }
    assert forall|i: int| 0 <= i < v2.players.len() implies !player_announces_mutation(
        #[trigger] v2.players[i],
        v2.entity_map,
    ) by {}
    lemma_player_added_scan_empty(v2.players);
    lemma_player_changed_scan_empty(v2.players, v2.entity_map);
}

/// Law: a relay reaches every connected peer but the sender exactly once, with
/// the unchanged message, and never reaches the sender.
pub proof fn lemma_relay_exactly_once<M>(clients: Seq<ClientId>, sender: ClientId, msg: M)
    requires
        forall|i: int, j: int|
            0 <= i < j < clients.len() ==> #[trigger] clients[i] != #[trigger] clients[j],
    ensures
        ({
            let out = relay_except(clients, sender, msg);
            &&& forall|k: int|
                0 <= k < out.len() ==> (#[trigger] out[k]).1 == msg && out[k].0 != sender
                    && clients.contains(out[k].0)
            &&& forall|k1: int, k2: int|
                0 <= k1 < k2 < out.len() ==> (#[trigger] out[k1]).0 != (#[trigger] out[k2]).0
            &&& forall|c: ClientId|
                clients.contains(c) && c != sender ==> exists|k: int|
                    0 <= k < out.len() && (#[trigger] out[k]).0 == c
        }),
    decreases clients.len(),
{
    let out = relay_except(clients, sender, msg);
    if clients.len() == 0 {
        assert forall|c: ClientId| clients.contains(c) && c != sender implies exists|k: int|
            0 <= k < out.len() && (#[trigger] out[k]).0 == c by {
            assert(false);
        }
    } else {
        let h = clients.first();
        let rest = clients.drop_first();
        assert forall|i: int, j: int| 0 <= i < j < rest.len() implies #[trigger] rest[i]
            != #[trigger] rest[j] by {
            assert(rest[i] == clients[i + 1]);
            assert(rest[j] == clients[j + 1]);
        }
        lemma_relay_exactly_once(rest, sender, msg);
        let out_rest = relay_except(rest, sender, msg);
        assert forall|i: int| 0 <= i < rest.len() implies clients.contains(#[trigger] rest[i]) by {
            assert(clients[i + 1] == rest[i]);
        }
        assert forall|c: ClientId| rest.contains(c) implies clients.contains(c) by {
            let w = choose|i: int| 0 <= i < rest.len() && rest[i] == c;
            assert(clients[w + 1] == c);
        }
        if h == sender {
            assert(out == out_rest);
            assert forall|c: ClientId| clients.contains(c) && c != sender implies exists|k: int|
                0 <= k < out.len() && (#[trigger] out[k]).0 == c by {
                let w = choose|i: int| 0 <= i < clients.len() && clients[i] == c;
                assert(w != 0);
                assert(rest[w - 1] == c);
                assert(rest.contains(c));
            }
        } else {
            assert(out == seq![(h, msg)] + out_rest);
            assert(out[0] == (h, msg));
            assert(clients[0] == h);
            assert(clients.contains(h));
            // no element of the tail relay targets h: h does not occur in rest
            assert forall|i: int| 0 <= i < rest.len() implies rest[i] != h by {
                assert(rest[i] == clients[i + 1]);
                assert(clients[0] != clients[i + 1]);
            }
            assert forall|k: int| 0 <= k < out.len() implies (#[trigger] out[k]).1 == msg
                && out[k].0 != sender && clients.contains(out[k].0) by {
                if k > 0 {
                    assert(out[k] == out_rest[k - 1]);
                    assert(rest.contains(out_rest[k - 1].0));
                }
            }
            assert forall|k1: int, k2: int| 0 <= k1 < k2 < out.len() implies (
            #[trigger] out[k1]).0 != (#[trigger] out[k2]).0 by {
                if k1 == 0 {
                    assert(out[k2] == out_rest[k2 - 1]);
                    assert(rest.contains(out_rest[k2 - 1].0));
                    let w = choose|i: int| 0 <= i < rest.len() && rest[i] == out_rest[k2 - 1].0;
                    assert(rest[w] != h);
                } else {
                    assert(out[k1] == out_rest[k1 - 1]);
                    assert(out[k2] == out_rest[k2 - 1]);
                }
            }
            assert forall|c: ClientId| clients.contains(c) && c != sender implies exists|k: int|
                0 <= k < out.len() && (#[trigger] out[k]).0 == c by {
                if c == h {
                    assert(out[0].0 == c);
                } else {
                    let w = choose|i: int| 0 <= i < clients.len() && clients[i] == c;
                    assert(w != 0);
                    assert(rest[w - 1] == c);
                    assert(rest.contains(c));
                    let k = choose|k: int| 0 <= k < out_rest.len() && (#[trigger] out_rest[k]).0
                        == c;
                    assert(out[k + 1] == out_rest[k]);
                    assert(out[k + 1].0 == c);
                }
            }
        }
    }
}

/// The catch-up bundle read without the mirror-tag filter: one pair per
/// networked, registered record.
pub open spec fn catch_up_registered_models(ms: Seq<LocalModelView>, em: Map<u64, u64>) -> Seq<
    (ServerEntity, ModelDataView),
>
    decreases ms.len(),
{
    if ms.len() == 0 {
        Seq::empty()
    } else {
        let m = ms.first();
        let rest = catch_up_registered_models(ms.drop_first(), em);
        if m.networked && em.contains_key(m.entity.0) {
            seq![(ServerEntity(em[m.entity.0]), m.data)] + rest
        } else {
            rest
        }
    }
}

/// No networked model record carries the mirror tag.  This holds of every
/// state the library's own transitions build: mirrors are born non-networked,
/// and nothing networks a tagged record.
pub open spec fn networked_models_untagged(ms: Seq<LocalModelView>) -> bool {
    forall|i: int| 0 <= i < ms.len() && (#[trigger] ms[i]).networked ==> !ms[i].ignore_add
}

/// Law (catch-up bundle contents): while no networked record carries the
/// mirror tag, the reported bundle holds exactly one pair per networked,
/// registered object — the plain reading of the catch-up obligation.
pub proof fn lemma_catch_up_lists_registered_models(ms: Seq<LocalModelView>, em: Map<u64, u64>)
    requires
        networked_models_untagged(ms),
    ensures
        spec_catch_up_models(ms, em) == catch_up_registered_models(ms, em),
    decreases ms.len(),
{
    if ms.len() > 0 {
        let rest = ms.drop_first();
        assert(!(ms[0].networked && ms[0].ignore_add));
        assert forall|i: int|
            0 <= i < rest.len() && (#[trigger] rest[i]).networked implies !rest[i].ignore_add by {
            assert(rest[i] == ms[i + 1]);
        }
        lemma_catch_up_lists_registered_models(rest, em);
    }
}

/// Law: every transition of the library keeps networked model records free of
/// the mirror tag — a spawned record is networked and untagged, a mirror is
/// tagged and not networked, and no transition moves either flag — so
/// [`lemma_catch_up_lists_registered_models`] applies to every state the
/// library builds.
pub proof fn lemma_networked_models_stay_untagged(
    v: ClientStateView,
    m: ModelMsgClientView,
    data: ModelDataView,
    e: ClientEntity,
    d: ModelData2,
)
    requires
        networked_models_untagged(v.models),
    ensures
        networked_models_untagged(spec_apply_model_client_msg(v, m).models),
        networked_models_untagged(spec_spawn_model(v, data).models),
        networked_models_untagged(spec_mutate_model(v, e, d).models),
        networked_models_untagged(
            Seq::new(v.models.len(), |i: int| spec_model_flags_cleared(v.models[i])),
        ),
{
    let va = spec_apply_model_client_msg(v, m);
    assert forall|i: int|
        0 <= i < va.models.len() && (#[trigger] va.models[i]).networked implies !va.models[i].ignore_add by {
        match m {
            ModelMsgClientView::ModelAdded(se, dd) => {
                if i < v.models.len() {
                    assert(va.models[i] == v.models[i]);
                }
            },
            ModelMsgClientView::ModelChanged(se, dd) => {
                if i < v.models.len() && va.models[i] != v.models[i] {
                    assert(!(v.models[i].networked && v.models[i].ignore_add));
                }
            },
            ModelMsgClientView::EntityMap(se, ce) => {},
            ModelMsgClientView::GetAllModelData(cid) => {},
        }
    }
    let vs = spec_spawn_model(v, data);
    assert forall|i: int|
        0 <= i < vs.models.len() && (#[trigger] vs.models[i]).networked implies !vs.models[i].ignore_add by {
        if i < v.models.len() {
            assert(vs.models[i] == v.models[i]);
        }
    }
    let vm = spec_mutate_model(v, e, d);
    assert forall|i: int|
        0 <= i < vm.models.len() && (#[trigger] vm.models[i]).networked implies !vm.models[i].ignore_add by {
        if vm.models[i] != v.models[i] {
            assert(!(v.models[i].networked && v.models[i].ignore_add));
        }
    }
}

/// The player catch-up bundle read without the mirror-tag filter: one pair per
/// networked, registered record.
pub open spec fn catch_up_registered_players(ps: Seq<PlayerRec>, em: Map<u64, u64>) -> Seq<
    (ServerEntity, Transform),
>
    decreases ps.len(),
{
    if ps.len() == 0 {
        Seq::empty()
    } else {
        let p = ps.first();
        let rest = catch_up_registered_players(ps.drop_first(), em);
        if p.networked && em.contains_key(p.entity.0) {
            seq![(ServerEntity(em[p.entity.0]), p.transform)] + rest
        } else {
            rest
        }
    }
}

/// Law (player catch-up bundle contents): on states without mirror records the
/// reported bundle holds exactly one pair per networked, registered player.
///
/// The hypothesis is essential here, unlike for models: a mirror of a remote
/// player is networked *and* tagged, so on a state holding such a mirror the
/// unfiltered reading would bundle it too, and a late joiner would receive a
/// duplicate record from every peer that mirrors the same player.  The
/// implemented filter reports each player exactly once — by its owner.
pub proof fn lemma_catch_up_lists_registered_players(ps: Seq<PlayerRec>, em: Map<u64, u64>)
    requires
        forall|i: int|
            0 <= i < ps.len() && (#[trigger] ps[i]).networked ==> ps[i].ignore_add is None,
    ensures
        spec_catch_up_players(ps, em) == catch_up_registered_players(ps, em),
    decreases ps.len(),
{
    if ps.len() > 0 {
        let rest = ps.drop_first();
        assert(!(ps[0].networked && ps[0].ignore_add is Some));
        assert forall|i: int|
            0 <= i < rest.len() && (#[trigger] rest[i]).networked implies rest[i].ignore_add
            is None by {
            assert(rest[i] == ps[i + 1]);
        }
        lemma_catch_up_lists_registered_players(rest, em);
    }
}

/// A creation scan ignores a record with nothing to announce, wherever it is
/// appended.
proof fn lemma_added_scan_push(ms: Seq<LocalModelView>, rec: LocalModelView)
    requires
        !model_announces_creation(rec),
    ensures
        spec_model_added_msgs(ms.push(rec)) == spec_model_added_msgs(ms),
    decreases ms.len(),
{
    if ms.len() == 0 {
        assert(ms.push(rec).first() == rec);
        assert(ms.push(rec).drop_first() =~= Seq::<LocalModelView>::empty());
        assert(ms =~= Seq::<LocalModelView>::empty());
        assert(spec_model_added_msgs(ms.push(rec)) == spec_model_added_msgs(
            Seq::<LocalModelView>::empty(),
        ));
    } else {
        assert(ms.push(rec).first() == ms.first());
        assert(ms.push(rec).drop_first() =~= ms.drop_first().push(rec));
        lemma_added_scan_push(ms.drop_first(), rec);
        assert(spec_model_added_msgs(ms.push(rec).drop_first()) == spec_model_added_msgs(
            ms.drop_first(),
        ));
    }
}

/// Law (creation round trip): when client `sender` announces a new object and
/// the server assigns it the next global identifier, the rebroadcast carries
/// the identifier and the original payload to every other connected peer
/// exactly once — never back to the sender — and any peer that applies its
/// copy ends up with exactly one local mirror registered under the new
/// identifier, carrying that payload and tagged so it is never re-announced.
pub proof fn lemma_creation_round_trip(
    sv: ServerStateView,
    sender: ClientId,
    data: ModelDataView,
    peer: ClientId,
    rv: ClientStateView,
)
    requires
        forall|i: int, j: int|
            0 <= i < j < sv.clients.len() ==> #[trigger] sv.clients[i] != #[trigger] sv.clients[j],
        sv.clients.contains(peer),
        peer != sender,
        state_ids_ok(rv),
        rv.next_entity < u64::MAX,
    ensures
        ({
            let se = ServerEntity(sv.next_entity);
            let broadcast = relay_except(
                sv.clients,
                sender,
                ModelMsgClientView::ModelAdded(se, data),
            );
            let v2 = spec_model_added_msg(rv, se, data);
            let mi = rv.models.len() as int;
            &&& exists|k: int| 0 <= k < broadcast.len() && (#[trigger] broadcast[k]).0 == peer
            &&& forall|k: int|
                0 <= k < broadcast.len() ==> (#[trigger] broadcast[k]).1
                    == ModelMsgClientView::ModelAdded(se, data) && broadcast[k].0 != sender
            &&& forall|k1: int, k2: int|
                0 <= k1 < k2 < broadcast.len() ==> (#[trigger] broadcast[k1]).0 != (
                #[trigger] broadcast[k2]).0
            &&& v2.models.len() == rv.models.len() + 1
            &&& v2.models[mi].data == data
            &&& v2.models[mi].ignore_add
            &&& registered_as(v2.models[mi], v2.entity_map, se)
            &&& forall|i: int|
                0 <= i < v2.models.len() && i != mi ==> !(#[trigger] registered_as(
                    v2.models[i],
                    v2.entity_map,
                    se,
                ))
            &&& spec_model_added_msgs(v2.models) == spec_model_added_msgs(rv.models)
        }),
{
    let se = ServerEntity(sv.next_entity);
    lemma_relay_exactly_once(sv.clients, sender, ModelMsgClientView::ModelAdded(se, data));
    lemma_creation_applied(rv, se, data);
    let v2 = spec_model_added_msg(rv, se, data);
    let mi = rv.models.len() as int;
    assert(v2.models =~= rv.models.push(v2.models[mi]));
    lemma_added_scan_push(rv.models, v2.models[mi]);
}

/// What one applied creation does to a client's registrations: a single fresh
/// mirror appears, registered under the announced identifier and under it
/// alone; every pre-existing record is untouched, keeps its registrations
/// under all other identifiers, and loses any claim to the announced one
/// (last write wins).
pub proof fn lemma_creation_applied(v: ClientStateView, se: ServerEntity, data: ModelDataView)
    requires
        state_ids_ok(v),
        v.next_entity < u64::MAX,
    ensures
        ({
            let v2 = spec_model_added_msg(v, se, data);
            let mi = v.models.len() as int;
            &&& state_ids_ok(v2)
            &&& v2.next_entity == v.next_entity + 1
            &&& v2.players == v.players
            &&& v2.models.len() == v.models.len() + 1
            &&& forall|i: int| 0 <= i < v.models.len() ==> #[trigger] v2.models[i] == v.models[i]
            &&& v2.models[mi].data == data
            &&& v2.models[mi].ignore_add
            &&& !v2.models[mi].networked
            &&& !v2.models[mi].changed
            &&& v2.models[mi].entity.0 == v.next_entity
            &&& forall|s: ServerEntity|
                #[trigger] registered_as(v2.models[mi], v2.entity_map, s) <==> s == se
            &&& forall|i: int, s: ServerEntity|
                0 <= i < v.models.len() ==> (#[trigger] registered_as(
                    v2.models[i],
                    v2.entity_map,
                    s,
                ) <==> registered_as(v.models[i], v.entity_map, s) && s != se)
        }),
{
    let v2 = spec_model_added_msg(v, se, data);
    let mi = v.models.len() as int;
    assert forall|s: ServerEntity| #[trigger] registered_as(v2.models[mi], v2.entity_map, s)
        <==> s == se by {
        assert(v2.entity_map.contains_key(v.next_entity));
        assert(v2.entity_map[v.next_entity] == se.0);
    }
    assert forall|i: int, s: ServerEntity| 0 <= i < v.models.len() implies (
    #[trigger] registered_as(v2.models[i], v2.entity_map, s) <==> registered_as(
        v.models[i],
        v.entity_map,
        s,
    ) && s != se) by {
        assert(v2.models[i] == v.models[i]);
        assert(v.models[i].entity.0 < v.next_entity);
    }
}

/// A player creation scan ignores a record with nothing to announce, wherever
/// it is appended.
proof fn lemma_player_added_scan_push(ps: Seq<PlayerRec>, rec: PlayerRec)
    requires
        !player_announces_creation(rec),
    ensures
        spec_player_added_msgs(ps.push(rec)) == spec_player_added_msgs(ps),
    decreases ps.len(),
{
    if ps.len() == 0 {
        assert(ps.push(rec).first() == rec);
        assert(ps.push(rec).drop_first() =~= Seq::<PlayerRec>::empty());
        assert(ps =~= Seq::<PlayerRec>::empty());
        assert(spec_player_added_msgs(ps.push(rec)) == spec_player_added_msgs(
            Seq::<PlayerRec>::empty(),
        ));
    } else {
        assert(ps.push(rec).first() == ps.first());
        assert(ps.push(rec).drop_first() =~= ps.drop_first().push(rec));
        lemma_player_added_scan_push(ps.drop_first(), rec);
        assert(spec_player_added_msgs(ps.push(rec).drop_first()) == spec_player_added_msgs(
            ps.drop_first(),
        ));
    }
}

/// Law (player creation applied): applying a player creation produces a single
/// fresh mirror, registered under the announced identifier and under it alone,
/// tagged so it is never re-announced; every pre-existing record is untouched,
/// keeps its registrations under other identifiers, and loses any claim to the
/// announced one.
pub proof fn lemma_player_creation_applied(v: ClientStateView, se: ServerEntity, t: Transform)
    requires
        state_ids_ok(v),
        v.next_entity < u64::MAX,
    ensures
        ({
            let v2 = spec_player_added_msg(v, se, t);
            let pi = v.players.len() as int;
            &&& v2.next_entity == v.next_entity + 1
            &&& v2.models == v.models
            &&& v2.players.len() == v.players.len() + 1
            &&& forall|i: int| 0 <= i < v.players.len() ==> #[trigger] v2.players[i] == v.players[i]
            &&& v2.players[pi].transform == t
            &&& v2.players[pi].ignore_add is Some
            &&& v2.players[pi].local is None
            &&& v2.players[pi].entity.0 == v.next_entity
            &&& forall|s: ServerEntity|
                #[trigger] player_registered_as(v2.players[pi], v2.entity_map, s) <==> s == se
            &&& forall|i: int, s: ServerEntity|
                0 <= i < v.players.len() ==> (#[trigger] player_registered_as(
                    v2.players[i],
                    v2.entity_map,
                    s,
                ) <==> player_registered_as(v.players[i], v.entity_map, s) && s != se)
            &&& spec_player_added_msgs(v2.players) == spec_player_added_msgs(v.players)
        }),
{
    let v2 = spec_player_added_msg(v, se, t);
    let pi = v.players.len() as int;
    assert forall|s: ServerEntity| #[trigger] player_registered_as(
        v2.players[pi],
        v2.entity_map,
        s,
    ) <==> s == se by {
        assert(v2.entity_map.contains_key(v.next_entity));
        assert(v2.entity_map[v.next_entity] == se.0);
    }
    assert forall|i: int, s: ServerEntity| 0 <= i < v.players.len() implies (
    #[trigger] player_registered_as(v2.players[i], v2.entity_map, s) <==> player_registered_as(
        v.players[i],
        v.entity_map,
        s,
    ) && s != se) by {
        assert(v2.players[i] == v.players[i]);
        assert(v.players[i].entity.0 < v.next_entity);
    }
    assert(v2.players =~= v.players.push(v2.players[pi]));
    lemma_player_added_scan_push(v.players, v2.players[pi]);
}

/// The client state once a whole catch-up bundle has been applied, one
/// creation at a time, in order.
pub open spec fn spec_apply_creations(
    v: ClientStateView,
    list: Seq<(ServerEntity, ModelDataView)>,
) -> ClientStateView
    decreases list.len(),
{
    if list.len() == 0 {
        v
    } else {
        spec_apply_creations(
            spec_model_added_msg(v, list.first().0, list.first().1),
            list.drop_first(),
        )
    }
}

/// Law (catch-up completeness): a client that applies a catch-up bundle of
/// objects with pairwise distinct global identifiers ends up with exactly one
/// local mirror per bundled object — carrying that object's full payload,
/// tagged so it is never re-announced, and registered under that object's
/// identifier and no other — while every record it already had stays untouched.
/// In particular a fresh client that applies a bundle of two objects ends up
/// with exactly two records and exactly those two registrations.
pub proof fn lemma_catch_up_completeness(
    v: ClientStateView,
    list: Seq<(ServerEntity, ModelDataView)>,
)
    requires
        state_ids_ok(v),
        v.next_entity + list.len() <= u64::MAX,
        forall|j1: int, j2: int|
            0 <= j1 < j2 < list.len() ==> (#[trigger] list[j1]).0 != (#[trigger] list[j2]).0,
    ensures
        ({
            let v2 = spec_apply_creations(v, list);
            &&& state_ids_ok(v2)
            &&& v2.next_entity == v.next_entity + list.len()
            &&& v2.players == v.players
            &&& v2.models.len() == v.models.len() + list.len()
            &&& forall|i: int| 0 <= i < v.models.len() ==> #[trigger] v2.models[i] == v.models[i]
            &&& forall|j: int|
                0 <= j < list.len() ==> {
                    let m = #[trigger] v2.models[v.models.len() + j];
                    &&& m.data == list[j].1
                    &&& m.ignore_add
                    &&& !m.networked
                    &&& !m.changed
                    &&& m.entity.0 == v.next_entity + j
                }
            &&& forall|j: int, s: ServerEntity|
                0 <= j < list.len() ==> (#[trigger] registered_as(
                    v2.models[v.models.len() + j],
                    v2.entity_map,
                    s,
                ) <==> s == list[j].0)
            &&& forall|i: int, s: ServerEntity|
                0 <= i < v.models.len() ==> (#[trigger] registered_as(
                    v2.models[i],
                    v2.entity_map,
                    s,
                ) <==> registered_as(v.models[i], v.entity_map, s) && !bundle_has_id(list, s))
        }),
    decreases list.len(),
{
    let v2 = spec_apply_creations(v, list);
    if list.len() == 0 {
        assert forall|i: int, s: ServerEntity| 0 <= i < v.models.len() implies (
        #[trigger] registered_as(v2.models[i], v2.entity_map, s) <==> registered_as(
            v.models[i],
            v.entity_map,
            s,
        ) && !bundle_has_id(list, s)) by {
            if bundle_has_id(list, s) {
                let w = choose|j: int| 0 <= j < list.len() && (#[trigger] list[j]).0 == s;
                assert(false);
            }
        }
    } else {
        let head = list.first();
        let tail = list.drop_first();
        let v1 = spec_model_added_msg(v, head.0, head.1);
        lemma_creation_applied(v, head.0, head.1);
        assert forall|j1: int, j2: int| 0 <= j1 < j2 < tail.len() implies (#[trigger] tail[j1]).0
            != (#[trigger] tail[j2]).0 by {
            assert(tail[j1] == list[j1 + 1]);
            assert(tail[j2] == list[j2 + 1]);
        }
        lemma_catch_up_completeness(v1, tail);
        assert(v2 == spec_apply_creations(v1, tail));
        // pre-existing records of v survive both the head creation and the tail fold
        assert forall|i: int| 0 <= i < v.models.len() implies #[trigger] v2.models[i]
            == v.models[i] by {
            assert(v1.models[i] == v.models[i]);
            assert(v2.models[i] == v1.models[i]);
        }
        // the head's mirror sits at index v.models.len() and answers to head.0 alone
        assert forall|j: int| 0 <= j < list.len() implies {
            let m = #[trigger] v2.models[v.models.len() + j];
            &&& m.data == list[j].1
            &&& m.ignore_add
            &&& !m.networked
            &&& !m.changed
            &&& m.entity.0 == v.next_entity + j
        } by {
            if j == 0 {
                assert(v2.models[v.models.len() as int] == v1.models[v.models.len() as int]);
            } else {
                assert(tail[j - 1] == list[j]);
                assert(v2.models[v1.models.len() + (j - 1)] == v2.models[v.models.len() + j]);
            }
        }
        assert forall|j: int, s: ServerEntity| 0 <= j < list.len() implies (
        #[trigger] registered_as(v2.models[v.models.len() + j], v2.entity_map, s) <==> s
            == list[j].0) by {
            if j == 0 {
                // the head mirror is an already-present record for the tail fold
                assert(registered_as(v1.models[v.models.len() as int], v1.entity_map, head.0));
                assert(!bundle_has_id(tail, head.0)) by {
                    if bundle_has_id(tail, head.0) {
                        let w = choose|k: int| 0 <= k < tail.len() && (#[trigger] tail[k]).0
                            == head.0;
                        assert(tail[w] == list[w + 1]);
                        assert(list[0].0 != list[w + 1].0);
                    }
                }
                assert(registered_as(v2.models[v.models.len() as int], v2.entity_map, head.0));
                if s != head.0 {
                    assert(!(registered_as(v1.models[v.models.len() as int], v1.entity_map, s)));
                }
            } else {
                assert(tail[j - 1] == list[j]);
                assert(v2.models[v1.models.len() + (j - 1)] == v2.models[v.models.len() + j]);
            }
        }
        assert forall|i: int, s: ServerEntity| 0 <= i < v.models.len() implies (
        #[trigger] registered_as(v2.models[i], v2.entity_map, s) <==> registered_as(
            v.models[i],
            v.entity_map,
            s,
        ) && !bundle_has_id(list, s)) by {
            assert(v1.models[i] == v.models[i]);
            assert(registered_as(v2.models[i], v2.entity_map, s) <==> registered_as(
                v1.models[i],
                v1.entity_map,
                s,
            ) && !bundle_has_id(tail, s));
            assert(registered_as(v1.models[i], v1.entity_map, s) <==> registered_as(
                v.models[i],
                v.entity_map,
                s,
            ) && s != head.0);
            assert(bundle_has_id(list, s) <==> (s == head.0 || bundle_has_id(tail, s))) by {
                if bundle_has_id(list, s) {
                    let w = choose|j: int| 0 <= j < list.len() && (#[trigger] list[j]).0 == s;
                    if w > 0 {
                        assert(tail[w - 1] == list[w]);
                    }
                }
                if bundle_has_id(tail, s) {
                    let w = choose|j: int| 0 <= j < tail.len() && (#[trigger] tail[j]).0 == s;
                    assert(list[w + 1] == tail[w]);
                }
            }
        }
    }
}

/// Law: no bundled identifier is claimed by two records — the mirror at the
/// bundled object's own position is the only record registered under it.
pub proof fn lemma_catch_up_unique(
    v: ClientStateView,
    list: Seq<(ServerEntity, ModelDataView)>,
    i: int,
    j: int,
)
    requires
        state_ids_ok(v),
        v.next_entity + list.len() <= u64::MAX,
        forall|j1: int, j2: int|
            0 <= j1 < j2 < list.len() ==> (#[trigger] list[j1]).0 != (#[trigger] list[j2]).0,
        0 <= j < list.len(),
        0 <= i < spec_apply_creations(v, list).models.len(),
        registered_as(
            spec_apply_creations(v, list).models[i],
            spec_apply_creations(v, list).entity_map,
            list[j].0,
        ),
    ensures
        i == v.models.len() + j,
{
    lemma_catch_up_completeness(v, list);
    let v2 = spec_apply_creations(v, list);
    if i < v.models.len() {
        assert(bundle_has_id(list, list[j].0));
    } else {
        let k = i - v.models.len();
        assert(registered_as(v2.models[v.models.len() + k], v2.entity_map, list[j].0));
        if k != j {
            assert(list[k].0 != list[j].0);
        }
    }
}

} // verus!
