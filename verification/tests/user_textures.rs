use bevy_egui::{EguiUserTextures, ImageId, TextureId};

#[test]
fn add_image_is_idempotent() {
    let mut textures = EguiUserTextures::new();
    let image = ImageId::Index(7);
    let first = textures.add_image(image);
    let second = textures.add_image(image);
    assert_eq!(first, TextureId::User(0));
    assert_eq!(second, first);
    assert_eq!(textures.image_id(image), Some(first));
}

#[test]
fn ids_count_up_from_zero() {
    let mut textures = EguiUserTextures::default();
    assert_eq!(textures.add_image(ImageId::Index(1)), TextureId::User(0));
    assert_eq!(textures.add_image(ImageId::Uuid(1)), TextureId::User(1));
    assert_eq!(textures.add_image(ImageId::Index(2)), TextureId::User(2));
    assert_eq!(textures.image_id(ImageId::Uuid(1)), Some(TextureId::User(1)));
    assert_eq!(textures.image_id(ImageId::Uuid(2)), None);
}

#[test]
fn reregistered_image_gets_new_id() {
    let mut textures = EguiUserTextures::new();
    let image = ImageId::Uuid(0xfeed);
    let first = textures.add_image(image);
    assert_eq!(textures.remove_image(image), Some(first));
    assert_eq!(textures.remove_image(image), None);
    assert_eq!(textures.image_id(image), None);
    let second = textures.add_image(image);
    assert_ne!(first, second);
    assert_eq!(second, TextureId::User(1));
}

#[test]
fn index_and_uuid_images_are_distinct() {
    let mut textures = EguiUserTextures::new();
    let a = textures.add_image(ImageId::Index(5));
    let b = textures.add_image(ImageId::Uuid(5));
    assert_ne!(a, b);
    assert_eq!(textures.remove_image(ImageId::Index(5)), Some(a));
    assert_eq!(textures.image_id(ImageId::Uuid(5)), Some(b));
}

#[test]
fn deleted_assets_are_forgotten() {
    let mut textures = EguiUserTextures::new();
    let kept = textures.add_image(ImageId::Index(1));
    textures.add_image(ImageId::Index(2));
    textures.add_image(ImageId::Index(3));
    textures.remove_deleted_images(&vec![ImageId::Index(3), ImageId::Index(9), ImageId::Index(2)]);
    assert_eq!(textures.image_id(ImageId::Index(1)), Some(kept));
    assert_eq!(textures.image_id(ImageId::Index(2)), None);
    assert_eq!(textures.image_id(ImageId::Index(3)), None);
    let mut entries = textures.entries();
    entries.sort_by_key(|entry| entry.1);
    assert_eq!(entries, vec![(ImageId::Index(1), 0)]);
}

#[test]
fn clone_keeps_images_and_counter() {
    let mut textures = EguiUserTextures::new();
    textures.add_image(ImageId::Index(1));
    let mut copy = textures.clone();
    assert_eq!(copy.image_id(ImageId::Index(1)), Some(TextureId::User(0)));
    assert_eq!(copy.add_image(ImageId::Index(2)), TextureId::User(1));
    assert_eq!(textures.image_id(ImageId::Index(2)), None);
}

#[test]
fn fresh_registry_can_add_any_image() {
    let mut textures = EguiUserTextures::new();
    assert!(textures.can_add(ImageId::Index(1)));
    textures.add_image(ImageId::Index(1));
    assert!(textures.can_add(ImageId::Index(1)));
    assert!(textures.can_add(ImageId::Uuid(u128::MAX)));
}
