use cloudcafe::entity_map::{ClientEntity, ServerEntity};
use cloudcafe::networking::model_client::{
    get_all_model_data_msg, model_added, model_changed, ModelMsgClient,
};
use cloudcafe::networking::model_server;
use cloudcafe::networking::model_server::ModelMsgServer;
use cloudcafe::networking::player_client::{
    player_added, player_changed, spawn_player, sync_player, PlayerMsgClient,
};
use cloudcafe::networking::player_server;
use cloudcafe::networking::player_server::PlayerMsgServer;
use cloudcafe::networking::{ClientState, ServerState};
use cloudcafe::{
    Color128, ModelBundle, ModelData2, ModelInfo, QuatBits, RenderLayer, Transform, Vec3Bits,
    UNIT_BITS,
};

fn transform_at(x: u32) -> Transform {
    Transform {
        translation: Vec3Bits { x, y: 0, z: 0 },
        rotation: QuatBits { x: 0, y: 0, z: 0, w: UNIT_BITS },
        scale: Vec3Bits::splat(UNIT_BITS),
    }
}

fn bundle_at(x: u32) -> ModelBundle {
    ModelBundle::new(
        ModelInfo::default(),
        transform_at(x),
        Color128 { r: x, g: 0, b: 0, a: UNIT_BITS },
        RenderLayer(1),
    )
}

/// End-to-end: client A creates an object with pose T0, the server assigns
/// global identifier 42 and informs A, the already-connected client B receives
/// the creation, A then moves the object to T1 and B observes T1, while A
/// never sees its own update echoed back.
#[test]
fn end_to_end_replication() {
    let mut server = ServerState { next_entity: 42, clients: vec![1, 2] };
    let mut a = ClientState::new();
    let mut b = ClientState::new();
    let t0 = transform_at(100);
    let t1 = transform_at(200);

    // A creates the object locally and announces it.
    let ea = a.spawn_model(bundle_at(100));
    let announce = model_added(&a);
    assert_eq!(announce.len(), 1);
    a.clear_frame_flags();

    // The server assigns 42, answers A, and rebroadcasts to B only.
    let mut deliveries: Vec<(u64, ModelMsgClient)> = Vec::new();
    for msg in announce {
        deliveries.extend(msg.server(&mut server, 1));
    }
    assert_eq!(deliveries.len(), 2);
    assert_eq!(
        deliveries[0].1,
        ModelMsgClient::EntityMap(ServerEntity(42), ea)
    );
    assert_eq!(deliveries[0].0, 1);
    assert_eq!(deliveries[1].0, 2);
    match &deliveries[1].1 {
        ModelMsgClient::ModelAdded(se, data) => {
            assert_eq!(se.0, 42);
            assert_eq!(data.transform, t0);
        },
        other => panic!("unexpected message: {:?}", other),
    }

    // Each client applies what it was sent.
    for (target, msg) in deliveries {
        if target == 1 {
            assert!(msg.client(&mut a).is_empty());
        } else {
            assert!(msg.client(&mut b).is_empty());
        }
    }
    assert_eq!(a.entity_map.get_by_left(&ea), Some(ServerEntity(42)));

    // B holds exactly one mirrored object, tagged so it is never re-announced.
    assert_eq!(b.models.len(), 1);
    assert!(b.models[0].ignore_add.is_some());
    assert_eq!(b.models[0].data.transform, t0);
    assert_eq!(
        b.entity_map.get_by_right(&ServerEntity(42)),
        Some(b.models[0].entity)
    );
    assert!(model_added(&b).is_empty());
    assert!(model_changed(&b).is_empty());

    // A moves the object to T1.
    let delta = ModelData2 {
        transform: t1,
        color128: Color128 { r: 100, g: 0, b: 0, a: UNIT_BITS },
        render_layer: RenderLayer(1),
    };
    assert!(a.mutate_model(ea, delta));
    let updates = model_changed(&a);
    assert_eq!(updates.len(), 1);
    assert_eq!(updates[0], ModelMsgServer::ModelChanged(ServerEntity(42), delta));
    a.clear_frame_flags();

    // The server relays the delta to B and to nobody else — A in particular
    // never receives its own update.
    let mut relayed: Vec<(u64, ModelMsgClient)> = Vec::new();
    for msg in updates {
        relayed.extend(msg.server(&mut server, 1));
    }
    assert_eq!(relayed.len(), 1);
    assert_eq!(relayed[0].0, 2);

    // B applies the delta in place and still echoes nothing.
    for (_, msg) in relayed {
        assert!(msg.client(&mut b).is_empty());
    }
    assert_eq!(b.models.len(), 1);
    assert_eq!(b.models[0].data.transform, t1);
    assert!(model_added(&b).is_empty());
    assert!(model_changed(&b).is_empty());
}

/// A mutation before the server's identifier assignment arrives is silently
/// dropped: no message is sent and nothing panics.
#[test]
fn mutation_dropped_while_unregistered() {
    let mut a = ClientState::new();
    let ea = a.spawn_model(bundle_at(1));
    let delta = ModelData2 {
        transform: transform_at(2),
        color128: Color128 { r: 0, g: 0, b: 0, a: UNIT_BITS },
        render_layer: RenderLayer(1),
    };
    // mutate in the same frame, before any registration reply
    assert!(a.mutate_model(ea, delta));
    assert!(model_changed(&a).is_empty());
    // the creation announcement itself is still owed
    assert_eq!(model_added(&a).len(), 1);
    // a mutation addressed to an unknown identifier is dropped on receipt too
    let stray = ModelMsgClient::ModelChanged(ServerEntity(99), delta);
    assert!(stray.client(&mut a).is_empty());
    assert_eq!(a.models[0].data.transform, delta.transform);
}

/// A late joiner ends up with a local representation of every object that was
/// alive and registered when it connected: two objects before C joins mean
/// exactly two entity-map entries and two mirrors on C.
#[test]
fn late_joiner_catch_up() {
    let mut server = ServerState::new();
    server.register_client(1);
    server.register_client(2);
    let mut a = ClientState::new();
    let mut b = ClientState::new();

    // A creates two objects and completes their registration round trips.
    let e1 = a.spawn_model(bundle_at(10));
    let e2 = a.spawn_model(bundle_at(20));
    let announce = model_added(&a);
    assert_eq!(announce.len(), 2);
    a.clear_frame_flags();
    for msg in announce {
        for (target, reply) in msg.server(&mut server, 1) {
            if target == 1 {
                assert!(reply.client(&mut a).is_empty());
            } else {
                assert!(reply.client(&mut b).is_empty());
            }
        }
    }
    assert!(a.entity_map.get_by_left(&e1).is_some());
    assert!(a.entity_map.get_by_left(&e2).is_some());
    assert_eq!(b.models.len(), 2);

    // C connects; the server asks every older peer for a catch-up bundle.
    let mut c = ClientState::new();
    server.register_client(3);
    let asks = model_server::new_client_connected(&server, 3);
    assert_eq!(asks.len(), 2);
    assert_eq!(
        asks[0],
        (1, ModelMsgClient::GetAllModelData(3))
    );
    assert_eq!(
        asks[1],
        (2, ModelMsgClient::GetAllModelData(3))
    );

    // A reports its two registered objects; B mirrors them only, so it
    // reports nothing.
    let bundle_a = get_all_model_data_msg(&a, 3);
    let bundle_b = get_all_model_data_msg(&b, 3);
    match &bundle_b {
        ModelMsgServer::AllModelData(target, list) => {
            assert_eq!(*target, 3);
            assert!(list.is_empty());
        },
        other => panic!("unexpected message: {:?}", other),
    }

    // The server forwards A's bundle to C, one creation at a time.
    for msg in [bundle_a, bundle_b] {
        for (target, fwd) in msg.server(&mut server, 1) {
            assert_eq!(target, 3);
            assert!(fwd.client(&mut c).is_empty());
        }
    }
    assert_eq!(c.models.len(), 2);
    assert_eq!(c.entity_map.len(), 2);
    assert!(model_added(&c).is_empty());
    assert!(model_changed(&c).is_empty());
}

/// The player pose pipeline: each client announces its own player, remote
/// players are mirrored and never re-announced, and per-frame pose updates
/// reach the other peer without echoing back.
#[test]
fn player_round_trip() {
    let mut server = ServerState { next_entity: 0, clients: vec![1, 2] };
    let mut a = ClientState::new();
    let mut b = ClientState::new();

    let head0 = transform_at(7);
    spawn_player(&mut a, head0);
    let announce = player_added(&a);
    assert_eq!(announce.len(), 1);
    a.clear_frame_flags();

    let mut deliveries: Vec<(u64, PlayerMsgClient)> = Vec::new();
    for msg in announce {
        deliveries.extend(msg.server(&mut server, 1));
    }
    assert_eq!(deliveries.len(), 2);
    for (target, msg) in deliveries {
        if target == 1 {
            assert!(msg.client(&mut a).is_empty());
        } else {
            assert!(msg.client(&mut b).is_empty());
        }
    }
    assert_eq!(b.players.len(), 1);
    assert!(b.players[0].ignore_add.is_some());
    assert!(b.players[0].local.is_none());
    assert_eq!(b.players[0].transform, head0);
    assert!(player_added(&b).is_empty());
    assert!(player_changed(&b).is_empty());

    // A's next frame re-tracks the headset and reports the new pose.
    let head1 = transform_at(8);
    sync_player(&mut a, head1);
    let updates = player_changed(&a);
    assert_eq!(updates.len(), 1);
    match &updates[0] {
        PlayerMsgServer::PlayerChanged(se, t) => {
            assert_eq!(se.0, 0);
            assert_eq!(*t, head1);
        },
        other => panic!("unexpected message: {:?}", other),
    }
    a.clear_frame_flags();

    let mut relayed: Vec<(u64, PlayerMsgClient)> = Vec::new();
    for msg in updates {
        relayed.extend(msg.server(&mut server, 1));
    }
    assert_eq!(relayed.len(), 1);
    assert_eq!(relayed[0].0, 2);
    for (_, msg) in relayed {
        assert!(msg.client(&mut b).is_empty());
    }
    assert_eq!(b.players[0].transform, head1);
    assert!(player_changed(&b).is_empty());
}

/// Late-joining player catch-up: each older client reports only its own
/// player, so the joiner ends up with exactly one mirror per participant.
#[test]
fn player_catch_up() {
    let mut server = ServerState { next_entity: 0, clients: vec![1, 2] };
    let mut a = ClientState::new();
    let mut b = ClientState::new();
    spawn_player(&mut a, transform_at(1));
    spawn_player(&mut b, transform_at(2));
    for (sender, client) in [(1u64, &mut a), (2u64, &mut b)] {
        let announce = player_added(client);
        client.clear_frame_flags();
        for msg in announce {
            for (target, reply) in msg.server(&mut server, sender) {
                if target == sender {
                    assert!(reply.client(client).is_empty());
                }
                // deliveries to the other peer are dropped in this test: it
                // only exercises the catch-up path below
            }
        }
    }

    server.register_client(3);
    let mut c = ClientState::new();
    let asks = player_server::new_client_connected(&server, 3);
    assert_eq!(asks.len(), 2);
    for (target, ask) in asks {
        let replies = if target == 1 {
            ask.client(&mut a)
        } else {
            ask.client(&mut b)
        };
        assert_eq!(replies.len(), 1);
        let sender = target;
        for msg in replies {
            match &msg {
                PlayerMsgServer::AllPlayerData(addressee, list) => {
                    assert_eq!(*addressee, 3);
                    assert_eq!(list.len(), 1);
                },
                other => panic!("unexpected message: {:?}", other),
            }
            for (fwd_target, fwd) in msg.server(&mut server, sender) {
                assert_eq!(fwd_target, 3);
                assert!(fwd.client(&mut c).is_empty());
            }
        }
    }
    assert_eq!(c.players.len(), 2);
    assert_eq!(c.entity_map.len(), 2);
    assert!(player_added(&c).is_empty());
}

/// Replication pipeline smoke test for a server process: peers connect, a
/// creation is registered and rebroadcast, and the allocator moves forward.
#[test]
fn tests_server_test() {
    let mut server = ServerState::new();
    server.register_client(1);
    server.register_client(2);
    server.register_client(2);
    assert_eq!(server.clients, vec![1, 2]);
    let out = ModelMsgServer::ModelAdded(ClientEntity(0), bundle_at(3).data())
        .server(&mut server, 2);
    assert_eq!(server.next_entity, 1);
    assert_eq!(out.len(), 2);
    assert_eq!(out[0].0, 2);
    assert_eq!(out[1].0, 1);
}

/// Replication pipeline smoke test for a client process: an object spawned
/// under replication is announced exactly once and then goes quiet.
#[test]
fn tests_client_test() {
    let mut client = ClientState::new();
    let entity = client.spawn_model(bundle_at(4));
    assert_eq!(entity, ClientEntity(0));
    assert_eq!(model_added(&client).len(), 1);
    client.clear_frame_flags();
    assert!(model_added(&client).is_empty());
    assert!(model_changed(&client).is_empty());
}

/// Pose synchronization writes only the tracked position and orientation of
/// the networked local player: the stored scale is untouched, and records not
/// under replication do not move.
#[test]
fn sync_player_writes_pose_only() {
    let mut a = ClientState::new();
    spawn_player(&mut a, transform_at(1));
    a.clear_frame_flags();

    // the stored transform has picked up a non-default scale in the meantime
    a.players[0].transform.scale = Vec3Bits { x: 7, y: 8, z: 9 };
    // and a second local player record that is not under replication
    let mut offline = a.players[0];
    offline.entity = ClientEntity(500);
    offline.networked = false;
    a.next_entity = 501;
    a.players.push(offline);

    let head = transform_at(42);
    sync_player(&mut a, head);

    assert_eq!(a.players[0].transform.translation, head.translation);
    assert_eq!(a.players[0].transform.rotation, head.rotation);
    assert_eq!(a.players[0].transform.scale, Vec3Bits { x: 7, y: 8, z: 9 });
    assert!(a.players[0].changed);
    assert_eq!(a.players[1].transform, offline.transform);
    assert!(!a.players[1].changed);
}
