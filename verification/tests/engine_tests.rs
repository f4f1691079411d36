use genstore::asset_manager::AssetManager;
use genstore::bit_array::BitArray;
use genstore::bit_array::BitArray64;
use genstore::game_data::GameData;
use genstore::path::asset_path;
use genstore::path::storage_path;
use genstore::shader::Shader;
use genstore::sprite::SpriteBounds;
use genstore::sprite::SpriteData;
use genstore::storage::ResourceID;
use genstore::texture::Texture;
use genstore::texture::TextureBuilder;
use genstore::texture::GL_LINEAR;
use genstore::texture::GL_REPEAT;
use genstore::texture::GL_RGB;
use genstore::token::TokenError;
use genstore::world::World;

type TestComp1 = (i32, f64, String);

#[derive(PartialEq, Debug)]
struct TestComp2(i32);

#[test]
fn test_world_register_component() {
    let mut world: World<TestComp1> = World::new();
    world.register_component();

    let mut world2: World<TestComp2> = World::new();
    world2.register_component();
}

#[test]
fn test_world_component_lifecycle() {
    let mut world: World<TestComp2> = World::new();
    world.register_component();
    let entity = world.create_entity();
    assert_eq!(entity, 1);
    world.add_component(entity, TestComp2(42));
    assert_eq!(*world.get_component(entity).unwrap(), TestComp2(42));
    {
        let c = world.get_component_mut(entity).unwrap();
        c.0 = 43;
    }
    assert_eq!(*world.get_component(entity).unwrap(), TestComp2(43));
    assert!(world.remove_component(entity));
    assert!(world.get_component(entity).is_none());
    assert!(!world.remove_component(entity));
}

#[test]
fn test_world_remove_entity() {
    let mut world: World<TestComp2> = World::new();
    world.register_component();
    let e1 = world.create_entity();
    let e2 = world.create_entity();
    world.add_component(e1, TestComp2(1));
    world.add_component(e2, TestComp2(2));
    world.remove_entity(e1);
    assert!(world.get_component(e1).is_none());
    assert_eq!(*world.get_component(e2).unwrap(), TestComp2(2));
}

#[test]
fn test_token_null_handle() {
    let null_ref = ResourceID::<Shader>::null();
    assert!(null_ref.is_null());
    assert_eq!(null_ref.to_token(), "00010000ffffffff".to_string());
}

#[test]
fn test_token_round_trip() {
    let mut storage = genstore::storage::Storage::<Shader>::new(4).unwrap();
    storage.insert("plain", Shader::new("a.vert".to_string(), "a.frag".to_string(), 7));
    let h = storage.insert("lit", Shader::new("b.vert".to_string(), "b.frag".to_string(), 8));
    let token = h.to_token();
    assert_eq!(token.len(), 16);
    let decoded = ResourceID::<Shader>::from_token(&token).unwrap();
    assert!(decoded == h);
    assert_eq!(decoded.to_token(), token);
    assert_eq!(storage.get(decoded).unwrap().fragment_path, "b.frag".to_string());
}

#[test]
fn test_token_rejects_malformed() {
    assert!(matches!(
        ResourceID::<Shader>::from_token("123abc"),
        Err(TokenError::InvalidLength)
    ));
    assert!(matches!(
        ResourceID::<Shader>::from_token("00010000ffffffff0"),
        Err(TokenError::InvalidLength)
    ));
    assert!(matches!(
        ResourceID::<Shader>::from_token("0001g000ffffffff"),
        Err(TokenError::InvalidDigit)
    ));
    assert!(matches!(
        ResourceID::<Shader>::from_token("0001A000ffffffff"),
        Err(TokenError::InvalidDigit)
    ));
}

#[test]
fn test_paths() {
    assert_eq!(asset_path("map.json"), "assets/map.json".to_string());
    assert_eq!(storage_path("sprites.json"), "storage/sprites.json".to_string());
}

#[test]
fn test_bit_array() {
    let mut bits = BitArray64::new();
    assert!(!bits.get(5));
    bits.set_true(5);
    bits.set_true(0);
    bits.set_true(63);
    assert!(bits.get(5));
    assert!(bits.get(0));
    assert!(bits.get(63));
    bits.set_false(5);
    assert!(!bits.get(5));

    let mut it = bits.iter();
    assert_eq!(it.next(), Some(0));
    assert_eq!(it.next(), Some(63));
    assert_eq!(it.next(), None);
}

#[test]
fn test_texture_builder() {
    let builder = TextureBuilder::new();
    assert_eq!(builder.internal_format, GL_RGB as i32);
    assert_eq!(builder.image_format, GL_RGB);
    assert_eq!(builder.wrap_s, GL_REPEAT as i32);
    assert_eq!(builder.filter_min, GL_LINEAR as i32);
    let tex: Texture = TextureBuilder::new()
        .image(vec![1u8, 2, 3, 4], 2, 2)
        .image_format(0x1908)
        .internal_format(0x1908)
        .build(17);
    assert_eq!(tex.id, 17);
    assert_eq!(tex.width, 2);
    assert_eq!(tex.height, 2);
    assert_eq!(tex.image_format, 0x1908);
    assert_eq!(tex.internal_format, 0x1908);
    assert_eq!(tex.data, vec![1u8, 2, 3, 4]);
}

#[test]
fn test_game_data_create_new() {
    let data = GameData::create_new();
    assert_eq!(data.sprites.size(), 0);
    assert_eq!(data.sprites.capacity(), 16);
    assert_eq!(data.textures.capacity(), 16);
    assert_eq!(data.shaders.capacity(), 16);
}

#[test]
fn test_asset_manager_new() {
    let mgr = AssetManager::new();
    assert!(mgr.shaders.is_empty());
    assert!(mgr.textures.is_empty());
    assert!(mgr.scripts.is_empty());
}

#[test]
fn test_sprite_data() {
    let mut textures = genstore::storage::Storage::<Texture>::new(4).unwrap();
    let tex_ref = textures.insert("sheet", TextureBuilder::new().build(3));
    let sprite = SpriteData::new(
        "grass".to_string(),
        tex_ref,
        SpriteBounds::new(0, 64, 64, 64, 0, 0),
    );
    assert_eq!(sprite.name, "grass".to_string());
    assert_eq!(sprite.rect.y, 64);
    assert_eq!(sprite.rect.w, 64);
}
