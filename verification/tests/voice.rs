use cloudcafe::entity_map::{ClientEntity, ServerEntity};
use cloudcafe::networking::player_client::{spawn_player, PlayerMsgClient};
use cloudcafe::networking::{ClientState, ServerState};
use cloudcafe::voice::{add_sphere_to_all_players, stereokit_audio_send, VoiceMessage};
use cloudcafe::{QuatBits, Transform, Vec3Bits, UNIT_BITS};

fn head_pose() -> Transform {
    Transform {
        translation: Vec3Bits { x: 1, y: 2, z: 3 },
        rotation: QuatBits { x: 0, y: 0, z: 0, w: UNIT_BITS },
        scale: Vec3Bits::splat(UNIT_BITS),
    }
}

/// A client with no registered player sends no audio; once the registration
/// reply arrives the frames go out tagged with the assigned identifier.
#[test]
fn lib_client_test() {
    let mut a = ClientState::new();
    let frames = vec![vec![1u8, 2, 3], vec![4, 5]];

    // no local player at all: nothing to send
    assert!(stereokit_audio_send(&a, frames.clone()).is_none());

    // local player exists but is not registered yet: still nothing
    let player = spawn_player(&mut a, head_pose());
    assert!(stereokit_audio_send(&a, frames.clone()).is_none());

    // after registration the frames are tagged with the assigned identifier
    let assign = PlayerMsgClient::EntityMap(ServerEntity(9), player);
    assert!(assign.client(&mut a).is_empty());
    let vm = stereokit_audio_send(&a, frames.clone()).expect("audio should be sent");
    assert_eq!(vm.player, ServerEntity(9));
    assert_eq!(vm.voice_message, frames);
}

/// The server relays voice frames to every peer but the speaker, unchanged.
#[test]
fn lib_server_test() {
    let server = ServerState { next_entity: 0, clients: vec![1, 2, 3] };
    let vm = VoiceMessage { player: ServerEntity(9), voice_message: vec![vec![7u8, 8]] };
    let out = vm.server(&server, 2);
    assert_eq!(out.len(), 2);
    assert_eq!(out[0].0, 1);
    assert_eq!(out[1].0, 3);
    for (_, relayed) in out {
        assert_eq!(relayed.player, ServerEntity(9));
        assert_eq!(relayed.voice_message, vec![vec![7u8, 8]]);
    }
}

/// Received frames are routed to the mirror registered under the speaker's
/// identifier, but only once that mirror carries its audio sink.
#[test]
fn voice_routing() {
    let mut b = ClientState::new();
    // mirror a remote player, registered under identifier 9
    let added = PlayerMsgClient::PlayerAdded(ServerEntity(9), head_pose());
    assert!(added.client(&mut b).is_empty());
    let mirror = b.players[0].entity;

    let vm = VoiceMessage { player: ServerEntity(9), voice_message: vec![vec![1u8]] };
    // no head object yet, so there is no sink to decode into
    assert_eq!(vm.client(&b), None);

    // attaching head objects reports exactly the players that lacked one
    let added_heads = add_sphere_to_all_players(&mut b);
    assert_eq!(added_heads, vec![mirror]);
    assert!(add_sphere_to_all_players(&mut b).is_empty());

    assert_eq!(vm.client(&b), Some(mirror));

    // frames for an unknown identifier are dropped
    let stray = VoiceMessage { player: ServerEntity(77), voice_message: vec![vec![1u8]] };
    assert_eq!(stray.client(&b), None);
}

/// Voice frames survive the relay byte for byte.
#[test]
fn voice_clone_exact() {
    let vm = VoiceMessage {
        player: ServerEntity(4),
        voice_message: vec![vec![0u8, 255, 128], vec![], vec![42]],
    };
    let copy = vm.clone();
    assert_eq!(copy, vm);
    assert_eq!(ClientEntity(1), ClientEntity(1));
}
