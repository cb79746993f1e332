//! Server side of player replication: identical in shape to the model relay,
//! specialized to a pose-only payload.

use vstd::prelude::*;

use crate::Transform;
use crate::entity_map::{ClientEntity, ServerEntity};
use crate::networking::player_client::PlayerMsgClient;
use crate::networking::{relay_except, ChannelType, ClientId, ServerState, ServerStateView};
use crate::networking::model_server::spec_allocate;

verus! {

/// Messages addressed to the server about players (sent by a client).
#[derive(Debug, PartialEq, Eq)]
pub enum PlayerMsgServer {
    /// This client's player appeared; the identifier is its local one.
    PlayerAdded(ClientEntity, Transform),
    /// This client's player moved, addressed by its global identifier.
    PlayerChanged(ServerEntity, Transform),
    /// This client's player catch-up bundle, to be forwarded to the late
    /// joiner named by the first field.
    AllPlayerData(ClientId, Vec<(ServerEntity, Transform)>),
}

/// Mathematical model of [`PlayerMsgServer`].
#[verifier::ext_equal]
pub enum PlayerMsgServerView {
    PlayerAdded(ClientEntity, Transform),
    PlayerChanged(ServerEntity, Transform),
    AllPlayerData(ClientId, Seq<(ServerEntity, Transform)>),
}

impl View for PlayerMsgServer {
    type V = PlayerMsgServerView;

    open spec fn view(&self) -> PlayerMsgServerView {
        match self {
            PlayerMsgServer::PlayerAdded(ce, t) => PlayerMsgServerView::PlayerAdded(*ce, *t),
            PlayerMsgServer::PlayerChanged(se, t) => PlayerMsgServerView::PlayerChanged(*se, *t),
            PlayerMsgServer::AllPlayerData(cid, list) => PlayerMsgServerView::AllPlayerData(
                *cid,
                list@,
            ),
        }
    }
}

impl DeepView for PlayerMsgServer {
    type V = PlayerMsgServerView;

    open spec fn deep_view(&self) -> PlayerMsgServerView {
        self.view()
    }
}

/// What forwarding a player catch-up bundle to its addressee emits: one
/// creation message per bundled player, all addressed to the late joiner.
pub open spec fn spec_forward_all_players(
    target: ClientId,
    list: Seq<(ServerEntity, Transform)>,
) -> Seq<(ClientId, PlayerMsgClient)>
    decreases list.len(),
{
    if list.len() == 0 {
        Seq::empty()
    } else {
        seq![
            (target, PlayerMsgClient::PlayerAdded(list.first().0, list.first().1)),
        ] + spec_forward_all_players(target, list.drop_first())
    }
}

impl PlayerMsgServer {
    /// Protocol-level identifier of this message family.
    pub fn get_type_name() -> (r: String)
        ensures
            r@ == "stereokit_bevy::networking::PlayerMsgServer"@,
    {
        "stereokit_bevy::networking::PlayerMsgServer".to_owned()
    }

    /// Creations and catch-up bundles arrive exactly once and in order; pose
    /// updates go best-effort.
    pub fn channel_type(&self) -> (r: ChannelType)
        ensures
            r == (match self@ {
                PlayerMsgServerView::PlayerAdded(_, _) => ChannelType::OrderedReliable,
                PlayerMsgServerView::PlayerChanged(_, _) => ChannelType::Unreliable,
                PlayerMsgServerView::AllPlayerData(_, _) => ChannelType::OrderedReliable,
            }),
    {
        match self {
            PlayerMsgServer::PlayerAdded(_, _) => ChannelType::OrderedReliable,
            PlayerMsgServer::PlayerChanged(_, _) => ChannelType::Unreliable,
            PlayerMsgServer::AllPlayerData(_, _) => ChannelType::OrderedReliable,
        }
    }

    /// Handles one inbound client message and returns the addressed messages
    /// the server owes in response.
    pub fn server(self, server: &mut ServerState, client_id: ClientId) -> (out: Vec<
        (ClientId, PlayerMsgClient),
    >)
        requires
            old(server).wf(),
            old(server).next_entity < u64::MAX,
        ensures
            final(server).wf(),
            match self@ {
                PlayerMsgServerView::PlayerAdded(ce, t) => final(server)@ == spec_allocate(
                    old(server)@,
                ) && out@ == seq![
                    (
                        client_id,
                        PlayerMsgClient::EntityMap(ServerEntity(old(server)@.next_entity), ce),
                    ),
                ] + relay_except(
                    old(server)@.clients,
                    client_id,
                    PlayerMsgClient::PlayerAdded(ServerEntity(old(server)@.next_entity), t),
                ),
                PlayerMsgServerView::PlayerChanged(se, t) => final(server)@ == old(server)@
                    && out@ == relay_except(
                    old(server)@.clients,
                    client_id,
                    PlayerMsgClient::PlayerChanged(se, t),
                ),
                PlayerMsgServerView::AllPlayerData(target, list) => final(server)@ == old(server)@
                    && out@ == spec_forward_all_players(target, list),
            },
    {
        match self {
            PlayerMsgServer::PlayerAdded(client_entity, transform) => player_added_msg(
                server,
                client_id,
                client_entity,
                transform,
            ),
            PlayerMsgServer::PlayerChanged(server_entity, transform) => player_changed_msg(
                server,
                client_id,
                server_entity,
                transform,
            ),
            PlayerMsgServer::AllPlayerData(target, all_player_data) => all_player_data_msg(
                target,
                all_player_data,
            ),
        }
    }
}

/// One copy of `msg` for every connected peer except `sender`.
fn relay_player_msg(clients: &Vec<ClientId>, sender: ClientId, msg: PlayerMsgClient) -> (out: Vec<
    (ClientId, PlayerMsgClient),
>)
    ensures
        out@ == relay_except(clients@, sender, msg),
{
    let ghost all = clients@;
    let mut out: Vec<(ClientId, PlayerMsgClient)> = Vec::new();
    let mut i: usize = 0;
    proof {
        assert(all.skip(0) =~= all);
    }
    while i < clients.len()
        invariant
            i <= all.len(),
            all == clients@,
            out@ + relay_except(all.skip(i as int), sender, msg) == relay_except(all, sender, msg),
        decreases all.len() - i,
    {
        proof {
            assert(all.skip(i as int).first() == all[i as int]);
            assert(all.skip(i as int).drop_first() =~= all.skip(i as int + 1));
        }
        let ghost pre = out@;
        let c = clients[i];
        if c != sender {
            out.push((c, msg));
            proof {
                assert(pre.push((c, msg)) + relay_except(all.skip(i as int + 1), sender, msg)
                    =~= pre + (seq![(c, msg)] + relay_except(all.skip(i as int + 1), sender, msg)));
            }
        }
        i = i + 1;
    }
    proof {
        assert(all.skip(all.len() as int) =~= Seq::empty());
        assert(out@ + Seq::<(ClientId, PlayerMsgClient)>::empty() =~= out@);
    }
    out
}

/// A client announced its player: allocate a fresh global identifier, answer
/// the owner with the assignment, and rebroadcast the player (under the new
/// identifier, with the announced pose) to every other peer.
pub fn player_added_msg(
    server: &mut ServerState,
    client_id: ClientId,
    client_entity: ClientEntity,
    transform: Transform,
) -> (out: Vec<(ClientId, PlayerMsgClient)>)
    requires
        old(server).wf(),
        old(server).next_entity < u64::MAX,
    ensures
        final(server).wf(),
        final(server)@ == spec_allocate(old(server)@),
        out@ == seq![
            (
                client_id,
                PlayerMsgClient::EntityMap(ServerEntity(old(server)@.next_entity), client_entity),
            ),
        ] + relay_except(
            old(server)@.clients,
            client_id,
            PlayerMsgClient::PlayerAdded(ServerEntity(old(server)@.next_entity), transform),
        ),
{
    let server_entity = ServerEntity(server.next_entity);
    server.next_entity = server.next_entity + 1;
    let mut out: Vec<(ClientId, PlayerMsgClient)> = Vec::new();
    out.push((client_id, PlayerMsgClient::EntityMap(server_entity, client_entity)));
    let ghost first = out@;
    let mut rest = relay_player_msg(
        &server.clients,
        client_id,
        PlayerMsgClient::PlayerAdded(server_entity, transform),
    );
    let ghost rest_view = rest@;
    out.append(&mut rest);
    proof {
        assert(out@ =~= first + rest_view);
        assert(server@ =~~= spec_allocate(old(server)@));
    }
    out
}

/// A client's player moved: relay the pose to every other peer.
pub fn player_changed_msg(
    server: &ServerState,
    client_id: ClientId,
    server_entity: ServerEntity,
    transform: Transform,
) -> (out: Vec<(ClientId, PlayerMsgClient)>)
    ensures
        out@ == relay_except(
            server@.clients,
            client_id,
            PlayerMsgClient::PlayerChanged(server_entity, transform),
        ),
{
    relay_player_msg(&server.clients, client_id, PlayerMsgClient::PlayerChanged(server_entity, transform))
}

/// Forwards a player catch-up bundle, one creation message per player, to the
/// late joiner it is addressed to.
pub fn all_player_data_msg(target: ClientId, all_player_data: Vec<(ServerEntity, Transform)>) -> (out:
    Vec<(ClientId, PlayerMsgClient)>)
    ensures
        out@ == spec_forward_all_players(target, all_player_data@),
{
    let ghost all = all_player_data@;
    let mut out: Vec<(ClientId, PlayerMsgClient)> = Vec::new();
    let mut i: usize = 0;
    proof {
        assert(all.skip(0) =~= all);
    }
    while i < all_player_data.len()
        invariant
            i <= all.len(),
            all == all_player_data@,
            out@ + spec_forward_all_players(target, all.skip(i as int)) == spec_forward_all_players(
                target,
                all,
            ),
        decreases all.len() - i,
    {
        proof {
            assert(all.skip(i as int).first() == all[i as int]);
            assert(all.skip(i as int).drop_first() =~= all.skip(i as int + 1));
        }
        let ghost pre = out@;
        let pair = all_player_data[i];
        out.push((target, PlayerMsgClient::PlayerAdded(pair.0, pair.1)));
        proof {
            assert(pre.push((target, PlayerMsgClient::PlayerAdded(all[i as int].0, all[i as int].1)))
                + spec_forward_all_players(target, all.skip(i as int + 1)) =~= pre + (seq![
                (target, PlayerMsgClient::PlayerAdded(all[i as int].0, all[i as int].1)),
            ] + spec_forward_all_players(target, all.skip(i as int + 1))));
        }
        i = i + 1;
    }
    proof {
        assert(all.skip(all.len() as int) =~= Seq::empty());
        assert(out@ + Seq::<(ClientId, PlayerMsgClient)>::empty() =~= out@);
    }
    out
}

/// A new peer connected: ask every already-connected peer to send a player
/// catch-up bundle addressed to it.
pub fn new_client_connected(server: &ServerState, new_client: ClientId) -> (out: Vec<
    (ClientId, PlayerMsgClient),
>)
    ensures
        out@ == relay_except(
            server@.clients,
            new_client,
            PlayerMsgClient::GetAllPlayers(new_client),
        ),
{
    relay_player_msg(&server.clients, new_client, PlayerMsgClient::GetAllPlayers(new_client))
}

} // verus!
