//! Client side of model replication.
//!
//! Inbound handlers apply server messages to the local scene; the outbound
//! scans collect creation and mutation announcements for the server.  Applying
//! an inbound message never raises a change flag and tags instantiated mirrors
//! with [`IgnoreModelAdd`], so nothing a client receives is echoed back out in
//! the frame it was applied (self-origin echo suppression).

use vstd::prelude::*;

use crate::entity_map::{bimap_insert, right_lookup, ClientEntity, ServerEntity};
use crate::networking::model_server::{ModelMsgServer, ModelMsgServerView};
use crate::networking::{
    has_model, model_index, ChannelType, ClientId, ClientState, ClientStateView, IgnoreModelAdd,
    LocalModel, LocalModelView,
};
use crate::{ModelData, ModelData2, ModelDataView};

verus! {

/// Messages addressed to a client (sent by the server).
#[derive(Debug, PartialEq, Eq)]
pub enum ModelMsgClient {
    /// A peer created an object: instantiate a local mirror.
    ModelAdded(ServerEntity, ModelData),
    /// A peer mutated an object: overwrite the mirror's mutable fields.
    ModelChanged(ServerEntity, ModelData2),
    /// The server assigned a global identifier to this client's local object.
    EntityMap(ServerEntity, ClientEntity),
    /// A late joiner needs the full current state: answer with a catch-up
    /// bundle addressed to it.
    GetAllModelData(ClientId),
}

/// Mathematical model of [`ModelMsgClient`].
#[verifier::ext_equal]
pub enum ModelMsgClientView {
    ModelAdded(ServerEntity, ModelDataView),
    ModelChanged(ServerEntity, ModelData2),
    EntityMap(ServerEntity, ClientEntity),
    GetAllModelData(ClientId),
}

impl View for ModelMsgClient {
    type V = ModelMsgClientView;

    open spec fn view(&self) -> ModelMsgClientView {
        match self {
            ModelMsgClient::ModelAdded(se, data) => ModelMsgClientView::ModelAdded(*se, data@),
            ModelMsgClient::ModelChanged(se, d) => ModelMsgClientView::ModelChanged(*se, *d),
            ModelMsgClient::EntityMap(se, ce) => ModelMsgClientView::EntityMap(*se, *ce),
            ModelMsgClient::GetAllModelData(cid) => ModelMsgClientView::GetAllModelData(*cid),
        }
    }
}

impl DeepView for ModelMsgClient {
    type V = ModelMsgClientView;

    open spec fn deep_view(&self) -> ModelMsgClientView {
        self.view()
    }
}

impl Clone for ModelMsgClient {
    fn clone(&self) -> (r: Self)
        ensures
            r@ == self@,
    {
        match self {
            ModelMsgClient::ModelAdded(se, data) => ModelMsgClient::ModelAdded(*se, data.clone()),
            ModelMsgClient::ModelChanged(se, d) => ModelMsgClient::ModelChanged(*se, *d),
            ModelMsgClient::EntityMap(se, ce) => ModelMsgClient::EntityMap(*se, *ce),
            ModelMsgClient::GetAllModelData(cid) => ModelMsgClient::GetAllModelData(*cid),
        }
    }
}

/// The client state transition for one inbound message (a catch-up request
/// reads the state but moves nothing).
pub open spec fn spec_apply_model_client_msg(
    v: ClientStateView,
    m: ModelMsgClientView,
) -> ClientStateView {
    match m {
        ModelMsgClientView::ModelAdded(se, data) => spec_model_added_msg(v, se, data),
        ModelMsgClientView::ModelChanged(se, d) => spec_model_changed_msg(v, se, d),
        ModelMsgClientView::EntityMap(se, ce) => spec_entity_map_msg(v, se, ce),
        ModelMsgClientView::GetAllModelData(_) => v,
    }
}

impl ModelMsgClient {
    /// Protocol-level identifier of this message family.
    pub fn get_type_name() -> (r: String)
        ensures
            r@ == "stereokit_bevy::networking::ModelMsgClient"@,
    {
        "stereokit_bevy::networking::ModelMsgClient".to_owned()
    }

    /// Creations, registrations and catch-up requests must arrive exactly once
    /// and in order; mutation deltas are superseded by the next frame anyway,
    /// so they go best-effort.
    pub fn channel_type(&self) -> (r: ChannelType)
        ensures
            r == (match self@ {
                ModelMsgClientView::ModelAdded(_, _) => ChannelType::OrderedReliable,
                ModelMsgClientView::ModelChanged(_, _) => ChannelType::Unreliable,
                ModelMsgClientView::EntityMap(_, _) => ChannelType::OrderedReliable,
                ModelMsgClientView::GetAllModelData(_) => ChannelType::OrderedReliable,
            }),
    {
        match self {
            ModelMsgClient::ModelAdded(_, _) => ChannelType::OrderedReliable,
            ModelMsgClient::ModelChanged(_, _) => ChannelType::Unreliable,
            ModelMsgClient::EntityMap(_, _) => ChannelType::OrderedReliable,
            ModelMsgClient::GetAllModelData(_) => ChannelType::OrderedReliable,
        }
    }

    /// Applies one inbound message and returns what must be sent back to the
    /// server (non-empty only for a catch-up request).
    pub fn client(self, state: &mut ClientState) -> (out: Vec<ModelMsgServer>)
        requires
            old(state).wf(),
            old(state).next_entity < u64::MAX,
        ensures
            final(state).wf(),
            final(state)@ == spec_apply_model_client_msg(old(state)@, self@),
            match self@ {
                ModelMsgClientView::ModelAdded(se, data) => final(state)@ == spec_model_added_msg(
                    old(state)@,
                    se,
                    data,
                ) && out@.len() == 0,
                ModelMsgClientView::ModelChanged(se, d) => final(state)@ == spec_model_changed_msg(
                    old(state)@,
                    se,
                    d,
                ) && out@.len() == 0,
                ModelMsgClientView::EntityMap(se, ce) => final(state)@ == spec_entity_map_msg(
                    old(state)@,
                    se,
                    ce,
                ) && out@.len() == 0,
                ModelMsgClientView::GetAllModelData(cid) => final(state)@ == old(state)@
                    && out.deep_view() == seq![
                    ModelMsgServerView::AllModelData(
                        cid,
                        spec_catch_up_models(old(state)@.models, old(state)@.entity_map),
                    ),
                ],
            },
    {
        match self {
            ModelMsgClient::ModelAdded(server_entity, model_data) => {
                model_added_msg(state, server_entity, model_data);
                Vec::new()
            },
            ModelMsgClient::ModelChanged(server_entity, model_data) => {
                model_changed_msg(state, server_entity, model_data);
                Vec::new()
            },
            ModelMsgClient::EntityMap(server_entity, client_entity) => {
                state.entity_map.insert(client_entity, server_entity);
                proof {
                    assert(state@ =~~= spec_entity_map_msg(
                        old(state)@,
                        server_entity,
                        client_entity,
                    ));
                }
                Vec::new()
            },
            ModelMsgClient::GetAllModelData(client_id) => {
                let msg = get_all_model_data_msg(state, client_id);
                let mut out: Vec<ModelMsgServer> = Vec::new();
                out.push(msg);
                proof {
                    assert(out.deep_view() =~= seq![
                        ModelMsgServerView::AllModelData(
                            client_id,
                            spec_catch_up_models(old(state)@.models, old(state)@.entity_map),
                        ),
                    ]);
                }
                out
            },
        }
    }
}

/// This record owes the server a creation announcement.
pub open spec fn model_announces_creation(m: LocalModelView) -> bool {
    m.networked && m.newly_networked && !m.ignore_add
}

/// This record carries an unsent locally originated change (whether or not it
/// is registered yet).
pub open spec fn model_locally_changed(m: LocalModelView) -> bool {
    m.networked && m.changed && !m.ignore_changed
}

/// This record owes the server a mutation announcement: it is locally changed
/// and its registration has arrived.
pub open spec fn model_announces_mutation(m: LocalModelView, em: Map<u64, u64>) -> bool {
    model_locally_changed(m) && em.contains_key(m.entity.0)
}

/// This record belongs in a catch-up bundle: locally originated and already
/// registered.
pub open spec fn model_reports_catch_up(m: LocalModelView, em: Map<u64, u64>) -> bool {
    m.networked && !m.ignore_add && em.contains_key(m.entity.0)
}

/// The state after a registration message: the pair is inserted into the
/// entity map unconditionally (last write wins); nothing else moves.
pub open spec fn spec_entity_map_msg(
    v: ClientStateView,
    se: ServerEntity,
    ce: ClientEntity,
) -> ClientStateView {
    ClientStateView {
        entity_map: bimap_insert(v.entity_map, ce.0, se.0),
        models: v.models,
        players: v.players,
        next_entity: v.next_entity,
    }
}

/// The state after an inbound creation: a fresh local mirror holds the full
/// payload, is not networked, carries the [`IgnoreModelAdd`] tag, and is
/// registered under the announced server identifier.
pub open spec fn spec_model_added_msg(
    v: ClientStateView,
    se: ServerEntity,
    data: ModelDataView,
) -> ClientStateView {
    ClientStateView {
        entity_map: bimap_insert(v.entity_map, v.next_entity, se.0),
        models: v.models.push(
            LocalModelView {
                entity: ClientEntity(v.next_entity),
                data,
                networked: false,
                newly_networked: false,
                changed: false,
                ignore_add: true,
                ignore_changed: false,
            },
        ),
        players: v.players,
        next_entity: (v.next_entity + 1) as u64,
    }
}

/// A record after an inbound mutation was applied: the mutable payload fields
/// are overwritten and every flag is left alone — in particular `changed` is
/// not raised, so the update is not re-broadcast.
pub open spec fn spec_remote_edit(m: LocalModelView, d: ModelData2) -> LocalModelView {
    LocalModelView {
        entity: m.entity,
        data: m.data.with_delta(d),
        networked: m.networked,
        newly_networked: m.newly_networked,
        changed: m.changed,
        ignore_add: m.ignore_add,
        ignore_changed: m.ignore_changed,
    }
}

/// The state after an inbound mutation: if the server identifier is registered
/// and the registered entity is a model, that model's mutable fields are
/// overwritten in place; otherwise the message is dropped and nothing moves.
pub open spec fn spec_model_changed_msg(
    v: ClientStateView,
    se: ServerEntity,
    d: ModelData2,
) -> ClientStateView {
    match right_lookup(v.entity_map, se.0) {
        Some(c) => {
            let ce = ClientEntity(c);
            if has_model(v.models, ce) {
                let i = model_index(v.models, ce);
                ClientStateView {
                    entity_map: v.entity_map,
                    models: v.models.update(i, spec_remote_edit(v.models[i], d)),
                    players: v.players,
                    next_entity: v.next_entity,
                }
            } else {
                v
            }
        },
        None => v,
    }
}

/// Instantiates a local mirror for an object created by a remote peer and
/// registers the announced identifier pair.
pub fn model_added_msg(state: &mut ClientState, server_entity: ServerEntity, model_data: ModelData)
    requires
        old(state).wf(),
        old(state).next_entity < u64::MAX,
    ensures
        final(state).wf(),
        final(state)@ == spec_model_added_msg(old(state)@, server_entity, model_data@),
{
    let entity = ClientEntity(state.next_entity);
    state.models.push(
        LocalModel {
            entity,
            data: model_data,
            networked: false,
            newly_networked: false,
            changed: false,
            ignore_add: Some(IgnoreModelAdd),
            ignore_changed: None,
        },
    );
    state.next_entity = state.next_entity + 1;
    state.entity_map.insert(entity, server_entity);
    proof {
        assert(state@ =~~= spec_model_added_msg(old(state)@, server_entity, model_data@));
    }
}

/// Applies an inbound mutation to the mirrored object, if its identifier is
/// registered; an unregistered or unknown identifier drops the message.
pub fn model_changed_msg(state: &mut ClientState, server_entity: ServerEntity, model_data: ModelData2)
    requires
        old(state).wf(),
    ensures
        final(state).wf(),
        final(state)@ == spec_model_changed_msg(old(state)@, server_entity, model_data),
{
    let client_entity = state.entity_map.get_by_right(&server_entity);
    if let Some(client_entity) = client_entity {
        if let Some(i) = state.find_model(client_entity) {
            apply_delta_fields(state, i, model_data);
            proof {
                assert(state@ =~~= spec_model_changed_msg(
                    old(state)@,
                    server_entity,
                    model_data,
                ));
                assert forall|j: int| 0 <= j < state@.models.len() implies (
                #[trigger] state@.models[j]).entity == old(state)@.models[j].entity by {}
            }
        } else {
            proof {
                assert(state@ =~~= spec_model_changed_msg(
                    old(state)@,
                    server_entity,
                    model_data,
                ));
            }
        }
    } else {
        proof {
            assert(state@ =~~= spec_model_changed_msg(old(state)@, server_entity, model_data));
        }
    }
}

/// Overwrites the mutable payload fields of the model at `i`, leaving every
/// flag alone.
fn apply_delta_fields(state: &mut ClientState, i: usize, d: ModelData2)
    requires
        i < old(state)@.models.len(),
    ensures
        final(state).entity_map == old(state).entity_map,
        final(state)@ == (ClientStateView {
            entity_map: old(state)@.entity_map,
            models: old(state)@.models.update(i as int, spec_remote_edit(old(state)@.models[i as int], d)),
            players: old(state)@.players,
            next_entity: old(state)@.next_entity,
        }),
{
    state.models[i].data.transform = d.transform;
    state.models[i].data.color128 = d.color128;
    state.models[i].data.render_layer = d.render_layer;
    proof {
        assert(state@ =~~= (ClientStateView {
            entity_map: old(state)@.entity_map,
            models: old(state)@.models.update(i as int, spec_remote_edit(old(state)@.models[i as int], d)),
            players: old(state)@.players,
            next_entity: old(state)@.next_entity,
        }));
    }
}

/// The catch-up bundle a client reports: every locally originated object that
/// already has an assigned server identifier, paired with its full payload.
pub open spec fn spec_catch_up_models(
    ms: Seq<LocalModelView>,
    em: Map<u64, u64>,
) -> Seq<(ServerEntity, ModelDataView)>
    decreases ms.len(),
{
    if ms.len() == 0 {
        Seq::empty()
    } else {
        let m = ms.first();
        let rest = spec_catch_up_models(ms.drop_first(), em);
        if model_reports_catch_up(m, em) {
            seq![(ServerEntity(em[m.entity.0]), m.data)] + rest
        } else {
            rest
        }
    }
}

/// Builds the catch-up bundle addressed to the late joiner `client_id`.
///
/// Objects this client merely mirrors are not reported (their creator reports
/// them), and objects whose registration is still pending are skipped.
pub fn get_all_model_data_msg(state: &ClientState, client_id: ClientId) -> (msg: ModelMsgServer)
    requires
        state.wf(),
    ensures
        msg@ == ModelMsgServerView::AllModelData(
            client_id,
            spec_catch_up_models(state@.models, state@.entity_map),
        ),
{
    let ghost em = state@.entity_map;
    let ghost all = state@.models;
    let mut models: Vec<(ServerEntity, ModelData)> = Vec::new();
    let mut i: usize = 0;
    proof {
        assert(all.skip(0) =~= all);
    }
    while i < state.models.len()
        invariant
            state.wf(),
            i <= state@.models.len(),
            all == state@.models,
            em == state@.entity_map,
            models.deep_view() + spec_catch_up_models(all.skip(i as int), em)
                == spec_catch_up_models(all, em),
        decreases state@.models.len() - i,
    {
        proof {
            assert(all.skip(i as int).first() == all[i as int]);
            assert(all.skip(i as int).drop_first() =~= all.skip(i as int + 1));
        }
        let ghost pre = models.deep_view();
        let m = &state.models[i];
        if m.networked && m.ignore_add.is_none() {
            if let Some(server_entity) = state.entity_map.get_by_left(&m.entity) {
                models.push((server_entity, m.data.clone()));
                proof {
                    assert(models.deep_view() =~= pre.push(
                        (server_entity, state@.models[i as int].data),
                    ));
                    assert(pre.push((server_entity, state@.models[i as int].data))
                        + spec_catch_up_models(all.skip(i as int + 1), em) =~= pre + (seq![
                        (server_entity, state@.models[i as int].data),
                    ] + spec_catch_up_models(all.skip(i as int + 1), em)));
                }
            }
        }
        i = i + 1;
    }
    proof {
        assert(all.skip(all.len() as int) =~= Seq::empty());
        assert(models.deep_view() + Seq::<(ServerEntity, ModelDataView)>::empty()
            =~= models.deep_view());
    }
    ModelMsgServer::AllModelData(client_id, models)
}

/// The creation announcements a client owes the server: one `ModelAdded` per
/// freshly networked object that was not instantiated from a network message.
pub open spec fn spec_model_added_msgs(ms: Seq<LocalModelView>) -> Seq<ModelMsgServerView>
    decreases ms.len(),
{
    if ms.len() == 0 {
        Seq::empty()
    } else {
        let m = ms.first();
        let rest = spec_model_added_msgs(ms.drop_first());
        if model_announces_creation(m) {
            seq![ModelMsgServerView::ModelAdded(m.entity, m.data)] + rest
        } else {
            rest
        }
    }
}

/// Collects the creation announcements owed this frame.  Objects tagged
/// [`IgnoreModelAdd`] were instantiated from a network message and are never
/// announced.
pub fn model_added(state: &ClientState) -> (out: Vec<ModelMsgServer>)
    requires
        state.wf(),
    ensures
        out.deep_view() == spec_model_added_msgs(state@.models),
{
    let ghost all = state@.models;
    let mut out: Vec<ModelMsgServer> = Vec::new();
    let mut i: usize = 0;
    proof {
        assert(all.skip(0) =~= all);
    }
    while i < state.models.len()
        invariant
            state.wf(),
            i <= state@.models.len(),
            all == state@.models,
            out.deep_view() + spec_model_added_msgs(all.skip(i as int))
                == spec_model_added_msgs(all),
        decreases state@.models.len() - i,
    {
        proof {
            assert(all.skip(i as int).first() == all[i as int]);
            assert(all.skip(i as int).drop_first() =~= all.skip(i as int + 1));
        }
        let ghost pre = out.deep_view();
        let m = &state.models[i];
        if m.networked && m.newly_networked && m.ignore_add.is_none() {
            out.push(ModelMsgServer::ModelAdded(m.entity, m.data.clone()));
            proof {
                assert(out.deep_view() =~= pre.push(
                    ModelMsgServerView::ModelAdded(
                        state@.models[i as int].entity,
                        state@.models[i as int].data,
                    ),
                ));
                assert(pre.push(
                    ModelMsgServerView::ModelAdded(
                        state@.models[i as int].entity,
                        state@.models[i as int].data,
                    ),
                ) + spec_model_added_msgs(all.skip(i as int + 1)) =~= pre + (seq![
                    ModelMsgServerView::ModelAdded(
                        state@.models[i as int].entity,
                        state@.models[i as int].data,
                    ),
                ] + spec_model_added_msgs(all.skip(i as int + 1))));
            }
        }
        i = i + 1;
    }
    proof {
        assert(all.skip(all.len() as int) =~= Seq::empty());
        assert(out.deep_view() + Seq::<ModelMsgServerView>::empty() =~= out.deep_view());
    }
    out
}

/// The mutation announcements a client owes the server: one delta per changed,
/// registered object not tagged [`crate::networking::IgnoreModelChanged`].  An
/// object whose registration is still pending contributes nothing — the
/// update is silently dropped for this frame.
pub open spec fn spec_model_changed_msgs(
    ms: Seq<LocalModelView>,
    em: Map<u64, u64>,
) -> Seq<ModelMsgServerView>
    decreases ms.len(),
{
    if ms.len() == 0 {
        Seq::empty()
    } else {
        let m = ms.first();
        let rest = spec_model_changed_msgs(ms.drop_first(), em);
        if model_announces_mutation(m, em) {
            seq![
                ModelMsgServerView::ModelChanged(ServerEntity(em[m.entity.0]), m.data.delta()),
            ] + rest
        } else {
            rest
        }
    }
}

/// Collects the mutation announcements owed this frame.
pub fn model_changed(state: &ClientState) -> (out: Vec<ModelMsgServer>)
    requires
        state.wf(),
    ensures
        out.deep_view() == spec_model_changed_msgs(state@.models, state@.entity_map),
{
    let ghost em = state@.entity_map;
    let ghost all = state@.models;
    let mut out: Vec<ModelMsgServer> = Vec::new();
    let mut i: usize = 0;
    proof {
        assert(all.skip(0) =~= all);
    }
    while i < state.models.len()
        invariant
            state.wf(),
            i <= state@.models.len(),
            all == state@.models,
            em == state@.entity_map,
            out.deep_view() + spec_model_changed_msgs(all.skip(i as int), em)
                == spec_model_changed_msgs(all, em),
        decreases state@.models.len() - i,
    {
        proof {
            assert(all.skip(i as int).first() == all[i as int]);
            assert(all.skip(i as int).drop_first() =~= all.skip(i as int + 1));
        }
        let ghost pre = out.deep_view();
        let m = &state.models[i];
        if m.networked && m.changed && m.ignore_changed.is_none() {
            if let Some(server_entity) = state.entity_map.get_by_left(&m.entity) {
                out.push(ModelMsgServer::ModelChanged(server_entity, m.data.delta()));
                proof {
                    assert(out.deep_view() =~= pre.push(
                        ModelMsgServerView::ModelChanged(
                            server_entity,
                            state@.models[i as int].data.delta(),
                        ),
                    ));
                    assert(pre.push(
                        ModelMsgServerView::ModelChanged(
                            server_entity,
                            state@.models[i as int].data.delta(),
                        ),
                    ) + spec_model_changed_msgs(all.skip(i as int + 1), em) =~= pre + (seq![
                        ModelMsgServerView::ModelChanged(
                            server_entity,
                            state@.models[i as int].data.delta(),
                        ),
                    ] + spec_model_changed_msgs(all.skip(i as int + 1), em)));
                }
            }
        }
        i = i + 1;
    }
    proof {
        assert(all.skip(all.len() as int) =~= Seq::empty());
        assert(out.deep_view() + Seq::<ModelMsgServerView>::empty() =~= out.deep_view());
    }
    out
}

} // verus!
