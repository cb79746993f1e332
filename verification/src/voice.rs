//! Voice-chat relay: encoded microphone frames travel from a client to the
//! server, which forwards them blindly to every other peer.  Frames are tagged
//! with the sender's already-assigned [`ServerEntity`], piggy-backing on the
//! entity map instead of a separate identity scheme.  The codec work (capture,
//! encode, decode, playback) happens outside this layer; here a frame is an
//! opaque byte string.

use vstd::prelude::*;

use crate::clone_bytes;
use crate::entity_map::{right_lookup, ClientEntity, ServerEntity};
use crate::networking::player_client::PlayerRec;
use crate::networking::{
    has_player, player_index, relay_except, ChannelType, ClientId, ClientState, ServerState,
};

verus! {

/// Marker for the head-sphere object attached to a replicated player, which
/// also carries that player's spatial audio sink.
#[derive(Clone, Copy, Debug, PartialEq, Eq, Structural)]
pub struct PlayerHead;

/// A batch of encoded audio frames, tagged with the speaking player's global
/// identifier.
#[derive(Debug, PartialEq, Eq)]
pub struct VoiceMessage {
    pub player: ServerEntity,
    pub voice_message: Vec<Vec<u8>>,
}

/// Mathematical model of [`VoiceMessage`].
#[verifier::ext_equal]
pub struct VoiceMessageView {
    pub player: ServerEntity,
    pub voice_message: Seq<Seq<u8>>,
}

impl View for VoiceMessage {
    type V = VoiceMessageView;

    open spec fn view(&self) -> VoiceMessageView {
        VoiceMessageView { player: self.player, voice_message: self.voice_message.deep_view() }
    }
}

impl DeepView for VoiceMessage {
    type V = VoiceMessageView;

    open spec fn deep_view(&self) -> VoiceMessageView {
        self.view()
    }
}

impl Clone for VoiceMessage {
    fn clone(&self) -> (r: Self)
        ensures
            r@ == self@,
    {
        let mut frames: Vec<Vec<u8>> = Vec::new();
        let mut i: usize = 0;
        while i < self.voice_message.len()
            invariant
                i <= self.voice_message@.len(),
                frames@.len() == i,
                forall|j: int| 0 <= j < i ==> (#[trigger] frames@[j])@ == self.voice_message@[j]@,
            decreases self.voice_message@.len() - i,
        {
            frames.push(clone_bytes(&self.voice_message[i]));
            i = i + 1;
        }
        proof {
            assert forall|j: int| 0 <= j < frames@.len() implies frames.deep_view()[j]
                == self.voice_message.deep_view()[j] by {
                assert(frames.deep_view()[j] =~= self.voice_message.deep_view()[j]);
            }
            assert(frames.deep_view() =~= self.voice_message.deep_view());
        }
        let r = VoiceMessage { player: self.player, voice_message: frames };
        proof {
            assert(r@ =~~= self@);
        }
        r
    }
}

/// The first player record this process itself animates, if any.
pub open spec fn first_local_player(ps: Seq<PlayerRec>) -> Option<PlayerRec>
    decreases ps.len(),
{
    if ps.len() == 0 {
        None
    } else if ps.first().local is Some {
        Some(ps.first())
    } else {
        first_local_player(ps.drop_first())
    }
}

/// The voice message a client owes for this frame's captured audio: the frames
/// tagged with the local player's assigned identifier.  Without a local player,
/// or while its registration is still pending, the audio is silently dropped.
pub open spec fn spec_audio_send(
    ps: Seq<PlayerRec>,
    em: Map<u64, u64>,
    frames: Seq<Seq<u8>>,
) -> Option<VoiceMessageView> {
    match first_local_player(ps) {
        Some(p) => if em.contains_key(p.entity.0) {
            Some(VoiceMessageView { player: ServerEntity(em[p.entity.0]), voice_message: frames })
        } else {
            None
        },
        None => None,
    }
}

/// Tags this frame's encoded audio with the local player's global identifier.
/// Returns nothing — and so sends nothing — while the local player has no
/// assigned identifier yet.
pub fn stereokit_audio_send(state: &ClientState, audio_frames: Vec<Vec<u8>>) -> (r: Option<
    VoiceMessage,
>)
    requires
        state.wf(),
    ensures
        match r {
            Some(vm) => spec_audio_send(
                state@.players,
                state@.entity_map,
                audio_frames.deep_view(),
            ) == Some(vm@),
            None => spec_audio_send(
                state@.players,
                state@.entity_map,
                audio_frames.deep_view(),
            ) is None,
        },
{
    let ghost all = state@.players;
    let mut i: usize = 0;
    proof {
        assert(all.skip(0) =~= all);
    }
    while i < state.players.len()
        invariant
            state.wf(),
            i <= all.len(),
            all == state@.players,
            first_local_player(all) == first_local_player(all.skip(i as int)),
        decreases all.len() - i,
    {
        proof {
            assert(all.skip(i as int).first() == all[i as int]);
            assert(all.skip(i as int).drop_first() =~= all.skip(i as int + 1));
        }
        let p = &state.players[i];
        if p.local.is_some() {
            match state.entity_map.get_by_left(&p.entity) {
                Some(server_entity) => {
                    return Some(
                        VoiceMessage { player: server_entity, voice_message: audio_frames },
                    );
                },
                None => {
                    return None;
                },
            }
        }
        i = i + 1;
    }
    proof {
        assert(all.skip(all.len() as int) =~= Seq::<PlayerRec>::empty());
    }
    None
}

impl VoiceMessage {
    /// Protocol-level identifier of this message family.
    pub fn get_type_name() -> (r: String)
        ensures
            r@ == "stereokit_voice_chat::VoiceMessage"@,
    {
        "stereokit_voice_chat::VoiceMessage".to_owned()
    }

    /// Audio is best-effort in both directions: a lost frame is simply not
    /// played.
    pub fn channel_type(&self) -> (r: ChannelType)
        ensures
            r == ChannelType::Unreliable,
    {
        ChannelType::Unreliable
    }

    /// The server relays the frames blindly to every peer except the speaker.
    pub fn server(self, server: &ServerState, client_id: ClientId) -> (out: Vec<
        (ClientId, VoiceMessage),
    >)
        ensures
            out.deep_view() == relay_except(server@.clients, client_id, self@),
    {
        let ghost all = server@.clients;
        let ghost msgv = self@;
        let mut out: Vec<(ClientId, VoiceMessage)> = Vec::new();
        let mut i: usize = 0;
        proof {
            assert(all.skip(0) =~= all);
        }
        while i < server.clients.len()
            invariant
                i <= all.len(),
                all == server@.clients,
                msgv == self@,
                out.deep_view() + relay_except(all.skip(i as int), client_id, msgv)
                    == relay_except(all, client_id, msgv),
            decreases all.len() - i,
        {
            proof {
                assert(all.skip(i as int).first() == all[i as int]);
                assert(all.skip(i as int).drop_first() =~= all.skip(i as int + 1));
            }
            let ghost pre = out.deep_view();
            let c = server.clients[i];
            if c != client_id {
                out.push((c, self.clone()));
                proof {
                    assert(out.deep_view() =~= pre.push((c, msgv)));
                    assert(pre.push((c, msgv)) + relay_except(
                        all.skip(i as int + 1),
                        client_id,
                        msgv,
                    ) =~= pre + (seq![(c, msgv)] + relay_except(
                        all.skip(i as int + 1),
                        client_id,
                        msgv,
                    )));
                }
            }
            i = i + 1;
        }
        proof {
            assert(all.skip(all.len() as int) =~= Seq::empty());
            assert(out.deep_view() + Seq::<(ClientId, VoiceMessageView)>::empty()
                =~= out.deep_view());
        }
        out
    }

    /// Resolves which local player record the received frames belong to: the
    /// mirror registered under the speaker's identifier, provided it already
    /// carries an audio sink (its head object).  The caller decodes the frames
    /// into that player's sound stream.
    pub fn client(&self, state: &ClientState) -> (r: Option<ClientEntity>)
        requires
            state.wf(),
        ensures
            match r {
                Some(ce) => right_lookup(state@.entity_map, self.player.0) == Some(ce.0)
                    && has_player(state@.players, ce) && state@.players[player_index(
                    state@.players,
                    ce,
                )].head is Some,
                None => match right_lookup(state@.entity_map, self.player.0) {
                    Some(c) => !has_player(state@.players, ClientEntity(c)) || !(
                    state@.players[player_index(state@.players, ClientEntity(c))].head is Some),
                    None => true,
                },
            },
    {
        let client_entity = match state.entity_map.get_by_right(&self.player) {
            None => {
                return None;
            },
            Some(client_entity) => client_entity,
        };
        match state.find_player(client_entity) {
            Some(i) => {
                if state.players[i].head.is_some() {
                    Some(client_entity)
                } else {
                    None
                }
            },
            None => None,
        }
    }
}

/// The players that still need a head object: every record without one, in
/// order.
pub open spec fn spec_heads_needed(ps: Seq<PlayerRec>) -> Seq<ClientEntity>
    decreases ps.len(),
{
    if ps.len() == 0 {
        Seq::empty()
    } else {
        let rest = spec_heads_needed(ps.drop_first());
        if ps.first().head is None {
            seq![ps.first().entity] + rest
        } else {
            rest
        }
    }
}

/// A player record once its head object exists.
pub open spec fn spec_with_head(p: PlayerRec) -> PlayerRec {
    if p.head is None {
        PlayerRec { head: Some(PlayerHead), ..p }
    } else {
        p
    }
}

/// Marks every player that lacks a head object as now having one and returns
/// their entities, so the caller can attach the visible sphere and the spatial
/// audio sink to each.
pub fn add_sphere_to_all_players(state: &mut ClientState) -> (added: Vec<ClientEntity>)
    requires
        old(state).wf(),
    ensures
        final(state).wf(),
        added@ == spec_heads_needed(old(state)@.players),
        final(state)@.entity_map == old(state)@.entity_map,
        final(state)@.models == old(state)@.models,
        final(state)@.next_entity == old(state)@.next_entity,
        final(state)@.players == Seq::new(
            old(state)@.players.len(),
            |i: int| spec_with_head(old(state)@.players[i]),
        ),
{
    let ghost orig = old(state)@.players;
    let mut added: Vec<ClientEntity> = Vec::new();
    let n = state.players.len();
    let mut i: usize = 0;
    proof {
        assert(orig.skip(0) =~= orig);
    }
    while i < n
        invariant
            old(state).wf(),
            n == state@.players.len(),
            i <= n,
            state.entity_map == old(state).entity_map,
            state@.models == old(state)@.models,
            state@.next_entity == old(state)@.next_entity,
            orig == old(state)@.players,
            state@.players.len() == orig.len(),
            forall|j: int| 0 <= j < i ==> state@.players[j] == spec_with_head(orig[j]),
            forall|j: int| i <= j < orig.len() ==> state@.players[j] == orig[j],
            added@ + spec_heads_needed(orig.skip(i as int)) == spec_heads_needed(orig),
        decreases n - i,
    {
        proof {
            assert(orig.skip(i as int).first() == orig[i as int]);
            assert(orig.skip(i as int).drop_first() =~= orig.skip(i as int + 1));
        }
        let ghost pre = added@;
        if state.players[i].head.is_none() {
            state.players[i].head = Some(PlayerHead);
            added.push(state.players[i].entity);
            proof {
                assert(pre.push(orig[i as int].entity) + spec_heads_needed(orig.skip(i as int + 1))
                    =~= pre + (seq![orig[i as int].entity] + spec_heads_needed(
                    orig.skip(i as int + 1),
                )));
            }
        }
        i = i + 1;
    }
    proof {
        assert(orig.skip(orig.len() as int) =~= Seq::<PlayerRec>::empty());
        assert(added@ + Seq::<ClientEntity>::empty() =~= added@);
        assert(state@.players =~= Seq::new(orig.len(), |i: int| spec_with_head(orig[i])));
        assert forall|j: int| 0 <= j < state@.players.len() implies (
        #[trigger] state@.players[j]).entity == old(state)@.players[j].entity by {}
    }
    added
}

} // verus!
