//! Server side of model replication.
//!
//! The server holds no model state.  On a creation announcement it allocates a
//! fresh global identifier, answers the creator with the assignment, and
//! rebroadcasts the creation to every other peer; mutations are relayed
//! verbatim to everyone but their sender; a catch-up bundle is forwarded, one
//! creation message at a time, to the late joiner it is addressed to.

use vstd::prelude::*;

use crate::entity_map::{ClientEntity, ServerEntity};
use crate::networking::model_client::{ModelMsgClient, ModelMsgClientView};
use crate::networking::{relay_except, ChannelType, ClientId, ServerState, ServerStateView};
use crate::{ModelData, ModelData2, ModelDataView};

verus! {

/// Messages addressed to the server (sent by a client).
#[derive(Debug, PartialEq, Eq)]
pub enum ModelMsgServer {
    /// This client placed a new object under replication; the identifier is
    /// its local one, meaningful only to it.
    ModelAdded(ClientEntity, ModelData),
    /// This client mutated a registered object, addressed by the global
    /// identifier it already knows.
    ModelChanged(ServerEntity, ModelData2),
    /// This client's catch-up bundle, to be forwarded to the late joiner named
    /// by the first field.
    AllModelData(ClientId, Vec<(ServerEntity, ModelData)>),
}

/// Mathematical model of [`ModelMsgServer`].
#[verifier::ext_equal]
pub enum ModelMsgServerView {
    ModelAdded(ClientEntity, ModelDataView),
    ModelChanged(ServerEntity, ModelData2),
    AllModelData(ClientId, Seq<(ServerEntity, ModelDataView)>),
}

impl View for ModelMsgServer {
    type V = ModelMsgServerView;

    open spec fn view(&self) -> ModelMsgServerView {
        match self {
            ModelMsgServer::ModelAdded(ce, data) => ModelMsgServerView::ModelAdded(*ce, data@),
            ModelMsgServer::ModelChanged(se, d) => ModelMsgServerView::ModelChanged(*se, *d),
            ModelMsgServer::AllModelData(cid, list) => ModelMsgServerView::AllModelData(
                *cid,
                list.deep_view(),
            ),
        }
    }
}

impl DeepView for ModelMsgServer {
    type V = ModelMsgServerView;

    open spec fn deep_view(&self) -> ModelMsgServerView {
        self.view()
    }
}

impl ModelMsgServer {
    /// Protocol-level identifier of this message family.
    pub fn get_type_name() -> (r: String)
        ensures
            r@ == "stereokit_bevy::networking::ModelMsgServer"@,
    {
        "stereokit_bevy::networking::ModelMsgServer".to_owned()
    }

    /// Creations and catch-up bundles must arrive exactly once and in order;
    /// mutation deltas go best-effort.
    pub fn channel_type(&self) -> (r: ChannelType)
        ensures
            r == (match self@ {
                ModelMsgServerView::ModelAdded(_, _) => ChannelType::OrderedReliable,
                ModelMsgServerView::ModelChanged(_, _) => ChannelType::Unreliable,
                ModelMsgServerView::AllModelData(_, _) => ChannelType::OrderedReliable,
            }),
    {
        match self {
            ModelMsgServer::ModelAdded(_, _) => ChannelType::OrderedReliable,
            ModelMsgServer::ModelChanged(_, _) => ChannelType::Unreliable,
            ModelMsgServer::AllModelData(_, _) => ChannelType::OrderedReliable,
        }
    }

    /// Handles one inbound client message and returns the addressed messages
    /// the server owes in response.
    pub fn server(self, server: &mut ServerState, client_id: ClientId) -> (out: Vec<
        (ClientId, ModelMsgClient),
    >)
        requires
            old(server).wf(),
            old(server).next_entity < u64::MAX,
        ensures
            final(server).wf(),
            match self@ {
                ModelMsgServerView::ModelAdded(ce, data) => final(server)@ == spec_allocate(
                    old(server)@,
                ) && out.deep_view() == seq![
                    (
                        client_id,
                        ModelMsgClientView::EntityMap(
                            ServerEntity(old(server)@.next_entity),
                            ce,
                        ),
                    ),
                ] + relay_except(
                    old(server)@.clients,
                    client_id,
                    ModelMsgClientView::ModelAdded(ServerEntity(old(server)@.next_entity), data),
                ),
                ModelMsgServerView::ModelChanged(se, d) => final(server)@ == old(server)@
                    && out.deep_view() == relay_except(
                    old(server)@.clients,
                    client_id,
                    ModelMsgClientView::ModelChanged(se, d),
                ),
                ModelMsgServerView::AllModelData(target, list) => final(server)@ == old(server)@
                    && out.deep_view() == spec_forward_all(target, list),
            },
    {
        match self {
            ModelMsgServer::ModelAdded(client_entity, model_data) => model_added_msg(
                server,
                client_id,
                client_entity,
                model_data,
            ),
            ModelMsgServer::ModelChanged(server_entity, model_data) => model_changed_msg(
                server,
                client_id,
                server_entity,
                model_data,
            ),
            ModelMsgServer::AllModelData(target, all_model_data) => all_model_data_msg(
                target,
                all_model_data,
            ),
        }
    }
}

/// The server state after one fresh identifier was handed out.
pub open spec fn spec_allocate(v: ServerStateView) -> ServerStateView {
    ServerStateView { next_entity: (v.next_entity + 1) as u64, clients: v.clients }
}

/// What forwarding a catch-up bundle to its addressee emits: one creation
/// message per bundled object, all addressed to the late joiner.
pub open spec fn spec_forward_all(
    target: ClientId,
    list: Seq<(ServerEntity, ModelDataView)>,
) -> Seq<(ClientId, ModelMsgClientView)>
    decreases list.len(),
{
    if list.len() == 0 {
        Seq::empty()
    } else {
        seq![
            (target, ModelMsgClientView::ModelAdded(list.first().0, list.first().1)),
        ] + spec_forward_all(target, list.drop_first())
    }
}

/// One copy of `msg` for every connected peer except `sender`.
fn relay_model_msg(clients: &Vec<ClientId>, sender: ClientId, msg: &ModelMsgClient) -> (out: Vec<
    (ClientId, ModelMsgClient),
>)
    ensures
        out.deep_view() == relay_except(clients@, sender, msg@),
{
    let ghost all = clients@;
    let mut out: Vec<(ClientId, ModelMsgClient)> = Vec::new();
    let mut i: usize = 0;
    proof {
        assert(all.skip(0) =~= all);
    }
    while i < clients.len()
        invariant
            i <= all.len(),
            all == clients@,
            out.deep_view() + relay_except(all.skip(i as int), sender, msg@) == relay_except(
                all,
                sender,
                msg@,
            ),
        decreases all.len() - i,
    {
        proof {
            assert(all.skip(i as int).first() == all[i as int]);
            assert(all.skip(i as int).drop_first() =~= all.skip(i as int + 1));
        }
        let ghost pre = out.deep_view();
        let c = clients[i];
        if c != sender {
            out.push((c, msg.clone()));
            proof {
                assert(out.deep_view() =~= pre.push((c, msg@)));
                assert(pre.push((c, msg@)) + relay_except(all.skip(i as int + 1), sender, msg@)
                    =~= pre + (seq![(c, msg@)] + relay_except(
                    all.skip(i as int + 1),
                    sender,
                    msg@,
                )));
            }
        }
        i = i + 1;
    }
    proof {
        assert(all.skip(all.len() as int) =~= Seq::empty());
        assert(out.deep_view() + Seq::<(ClientId, ModelMsgClientView)>::empty()
            =~= out.deep_view());
    }
    out
}

/// A client announced a new object: allocate a fresh global identifier, answer
/// the creator with the assignment, and rebroadcast the creation (under the
/// new identifier, with the original full payload) to every other peer.
pub fn model_added_msg(
    server: &mut ServerState,
    client_id: ClientId,
    client_entity: ClientEntity,
    model_data: ModelData,
) -> (out: Vec<(ClientId, ModelMsgClient)>)
    requires
        old(server).wf(),
        old(server).next_entity < u64::MAX,
    ensures
        final(server).wf(),
        final(server)@ == spec_allocate(old(server)@),
        out.deep_view() == seq![
            (
                client_id,
                ModelMsgClientView::EntityMap(
                    ServerEntity(old(server)@.next_entity),
                    client_entity,
                ),
            ),
        ] + relay_except(
            old(server)@.clients,
            client_id,
            ModelMsgClientView::ModelAdded(
                ServerEntity(old(server)@.next_entity),
                model_data@,
            ),
        ),
{
    let server_entity = ServerEntity(server.next_entity);
    server.next_entity = server.next_entity + 1;
    let mut out: Vec<(ClientId, ModelMsgClient)> = Vec::new();
    out.push((client_id, ModelMsgClient::EntityMap(server_entity, client_entity)));
    let ghost first = out.deep_view();
    let mut rest = relay_model_msg(
        &server.clients,
        client_id,
        &ModelMsgClient::ModelAdded(server_entity, model_data),
    );
    let ghost rest_view = rest.deep_view();
    out.append(&mut rest);
    proof {
        assert(out.deep_view() =~= first + rest_view);
        assert(server@ =~~= spec_allocate(old(server)@));
    }
    out
}

/// A client mutated a registered object: relay the delta to every other peer.
/// The server keeps no state of its own, so nothing else moves.
pub fn model_changed_msg(
    server: &ServerState,
    client_id: ClientId,
    server_entity: ServerEntity,
    model_data: ModelData2,
) -> (out: Vec<(ClientId, ModelMsgClient)>)
    ensures
        out.deep_view() == relay_except(
            server@.clients,
            client_id,
            ModelMsgClientView::ModelChanged(server_entity, model_data),
        ),
{
    relay_model_msg(&server.clients, client_id, &ModelMsgClient::ModelChanged(server_entity, model_data))
}

/// Forwards a catch-up bundle, one creation message per object, to the late
/// joiner it is addressed to.
pub fn all_model_data_msg(target: ClientId, all_model_data: Vec<(ServerEntity, ModelData)>) -> (out:
    Vec<(ClientId, ModelMsgClient)>)
    ensures
        out.deep_view() == spec_forward_all(target, all_model_data.deep_view()),
{
    let ghost all = all_model_data.deep_view();
    let mut out: Vec<(ClientId, ModelMsgClient)> = Vec::new();
    let mut i: usize = 0;
    proof {
        assert(all.skip(0) =~= all);
    }
    while i < all_model_data.len()
        invariant
            i <= all.len(),
            all == all_model_data.deep_view(),
            all.len() == all_model_data@.len(),
            out.deep_view() + spec_forward_all(target, all.skip(i as int)) == spec_forward_all(
                target,
                all,
            ),
        decreases all.len() - i,
    {
        proof {
            assert(all.skip(i as int).first() == all[i as int]);
            assert(all.skip(i as int).drop_first() =~= all.skip(i as int + 1));
        }
        let ghost pre = out.deep_view();
        let entity = all_model_data[i].0;
        let data = all_model_data[i].1.clone();
        out.push((target, ModelMsgClient::ModelAdded(entity, data)));
        proof {
            assert(all[i as int] == (all_model_data@[i as int].0, all_model_data@[i as int].1@));
            assert(out.deep_view() =~= pre.push(
                (target, ModelMsgClientView::ModelAdded(all[i as int].0, all[i as int].1)),
            ));
            assert(pre.push(
                (target, ModelMsgClientView::ModelAdded(all[i as int].0, all[i as int].1)),
            ) + spec_forward_all(target, all.skip(i as int + 1)) =~= pre + (seq![
                (target, ModelMsgClientView::ModelAdded(all[i as int].0, all[i as int].1)),
            ] + spec_forward_all(target, all.skip(i as int + 1))));
        }
        i = i + 1;
    }
    proof {
        assert(all.skip(all.len() as int) =~= Seq::empty());
        assert(out.deep_view() + Seq::<(ClientId, ModelMsgClientView)>::empty()
            =~= out.deep_view());
    }
    out
}

/// A new peer connected: ask every already-connected peer to send a catch-up
/// bundle addressed to it.  The new peer itself is asked for nothing.
pub fn new_client_connected(server: &ServerState, new_client: ClientId) -> (out: Vec<
    (ClientId, ModelMsgClient),
>)
    ensures
        out.deep_view() == relay_except(
            server@.clients,
            new_client,
            ModelMsgClientView::GetAllModelData(new_client),
        ),
{
    relay_model_msg(&server.clients, new_client, &ModelMsgClient::GetAllModelData(new_client))
}

} // verus!
