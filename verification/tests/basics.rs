use cloudcafe::entity_map::{ClientEntity, EntityMap, ServerEntity};
use cloudcafe::networking::model_client::ModelMsgClient;
use cloudcafe::networking::model_server::ModelMsgServer;
use cloudcafe::networking::player_client::PlayerMsgClient;
use cloudcafe::networking::player_server::PlayerMsgServer;
use cloudcafe::networking::ChannelType;
use cloudcafe::ui::SkButton;
use cloudcafe::voice::VoiceMessage;
use cloudcafe::{
    Color128, ModelBundle, ModelData, ModelData2, ModelInfo, QuatBits, RenderLayer, Transform,
    Vec3Bits, UNIT_BITS,
};

fn sample_data(tag: u32) -> ModelData {
    ModelData {
        model_info: ModelInfo::Cube(Vec3Bits { x: tag, y: tag, z: tag }),
        transform: Transform::default(),
        color128: Color128 { r: tag, g: 0, b: 0, a: UNIT_BITS },
        render_layer: RenderLayer(1),
    }
}

#[test]
fn entity_map_round_trip() {
    let mut map = EntityMap::new();
    map.insert(ClientEntity(7), ServerEntity(42));
    map.insert(ClientEntity(9), ServerEntity(43));
    assert_eq!(map.get_by_left(&ClientEntity(7)), Some(ServerEntity(42)));
    assert_eq!(map.get_by_right(&ServerEntity(42)), Some(ClientEntity(7)));
    assert_eq!(map.get_by_left(&ClientEntity(9)), Some(ServerEntity(43)));
    assert_eq!(map.get_by_right(&ServerEntity(43)), Some(ClientEntity(9)));
    assert_eq!(map.get_by_left(&ClientEntity(8)), None);
    assert_eq!(map.get_by_right(&ServerEntity(44)), None);
    assert_eq!(map.len(), 2);
}

#[test]
fn entity_map_last_write_wins() {
    let mut map = EntityMap::new();
    map.insert(ClientEntity(1), ServerEntity(10));
    // the same server identifier is re-assigned to another local entity
    map.insert(ClientEntity(2), ServerEntity(10));
    assert_eq!(map.get_by_right(&ServerEntity(10)), Some(ClientEntity(2)));
    assert_eq!(map.get_by_left(&ClientEntity(1)), None);
    assert_eq!(map.len(), 1);
    // the same local entity is re-registered under a new server identifier
    map.insert(ClientEntity(2), ServerEntity(11));
    assert_eq!(map.get_by_left(&ClientEntity(2)), Some(ServerEntity(11)));
    assert_eq!(map.get_by_right(&ServerEntity(10)), None);
    assert_eq!(map.len(), 1);
}

#[test]
fn model_defaults() {
    assert_eq!(
        ModelInfo::default(),
        ModelInfo::Cube(Vec3Bits { x: UNIT_BITS, y: UNIT_BITS, z: UNIT_BITS })
    );
    let t = Transform::default();
    assert_eq!(t.translation, Vec3Bits { x: 0, y: 0, z: 0 });
    assert_eq!(t.rotation, QuatBits { x: 0, y: 0, z: 0, w: UNIT_BITS });
    assert_eq!(t.scale, Vec3Bits::splat(UNIT_BITS));
    assert_eq!(QuatBits::identity(), QuatBits { x: 0, y: 0, z: 0, w: UNIT_BITS });
}

#[test]
fn bundle_and_delta() {
    let data = sample_data(5);
    let bundle = ModelBundle::new(
        data.model_info.clone(),
        data.transform,
        data.color128,
        data.render_layer,
    );
    assert_eq!(bundle.data(), data);
    let delta = data.delta();
    assert_eq!(
        delta,
        ModelData2 {
            transform: data.transform,
            color128: data.color128,
            render_layer: data.render_layer,
        }
    );
}

#[test]
fn channel_types() {
    let data = sample_data(1);
    let delta = data.delta();
    assert_eq!(
        ModelMsgClient::ModelAdded(ServerEntity(1), data.clone()).channel_type(),
        ChannelType::OrderedReliable
    );
    assert_eq!(
        ModelMsgClient::ModelChanged(ServerEntity(1), delta).channel_type(),
        ChannelType::Unreliable
    );
    assert_eq!(
        ModelMsgClient::EntityMap(ServerEntity(1), ClientEntity(0)).channel_type(),
        ChannelType::OrderedReliable
    );
    assert_eq!(
        ModelMsgClient::GetAllModelData(3).channel_type(),
        ChannelType::OrderedReliable
    );
    assert_eq!(
        ModelMsgServer::ModelAdded(ClientEntity(0), data.clone()).channel_type(),
        ChannelType::OrderedReliable
    );
    assert_eq!(
        ModelMsgServer::ModelChanged(ServerEntity(1), delta).channel_type(),
        ChannelType::Unreliable
    );
    assert_eq!(
        ModelMsgServer::AllModelData(3, Vec::new()).channel_type(),
        ChannelType::OrderedReliable
    );
    let t = Transform::default();
    assert_eq!(
        PlayerMsgClient::PlayerAdded(ServerEntity(1), t).channel_type(),
        ChannelType::OrderedReliable
    );
    assert_eq!(
        PlayerMsgClient::PlayerChanged(ServerEntity(1), t).channel_type(),
        ChannelType::Unreliable
    );
    assert_eq!(
        PlayerMsgServer::PlayerAdded(ClientEntity(0), t).channel_type(),
        ChannelType::OrderedReliable
    );
    assert_eq!(
        PlayerMsgServer::PlayerChanged(ServerEntity(1), t).channel_type(),
        ChannelType::Unreliable
    );
    assert_eq!(
        PlayerMsgServer::AllPlayerData(3, Vec::new()).channel_type(),
        ChannelType::OrderedReliable
    );
    let vm = VoiceMessage { player: ServerEntity(1), voice_message: Vec::new() };
    assert_eq!(vm.channel_type(), ChannelType::Unreliable);
}

#[test]
fn type_names() {
    assert_eq!(
        ModelMsgClient::get_type_name(),
        "stereokit_bevy::networking::ModelMsgClient"
    );
    assert_eq!(
        ModelMsgServer::get_type_name(),
        "stereokit_bevy::networking::ModelMsgServer"
    );
    assert_eq!(
        PlayerMsgClient::get_type_name(),
        "stereokit_bevy::networking::PlayerMsgClient"
    );
    assert_eq!(
        PlayerMsgServer::get_type_name(),
        "stereokit_bevy::networking::PlayerMsgServer"
    );
    assert_eq!(VoiceMessage::get_type_name(), "stereokit_voice_chat::VoiceMessage");
}

#[test]
fn test() {
    let button = SkButton::new("hi");
    assert_eq!(button.text, "hi");
    let other = SkButton::new("hello");
    assert_eq!(other.text, "hello");
}
