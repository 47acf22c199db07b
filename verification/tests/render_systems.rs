use bevy_egui::{
    prepare_egui_transforms_system, queue_bind_groups_system, queue_pipelines_system, Color32,
    ColorImage, EguiManagedTextures, EguiTextureId, EguiTransforms, EguiUserTextures, EntityId,
    ExtractedEguiManagedTextures, ExtractedEguiTextures, ImageDelta, ImageId, TextureId,
};

fn entity(index: u32) -> EntityId {
    EntityId { index, generation: 0 }
}

fn one_pixel() -> ColorImage {
    ColorImage::new([1, 1], Color32 { r: 1, g: 2, b: 3, a: 4 }).unwrap()
}

fn sample() -> (ExtractedEguiManagedTextures, EguiUserTextures) {
    let mut managed = EguiManagedTextures::new();
    managed.set_texture(
        entity(1),
        TextureId::Managed(0),
        ImageDelta { image: one_pixel(), pos: None },
        ImageId::Index(10),
    );
    managed.set_texture(
        entity(2),
        TextureId::Managed(0),
        ImageDelta { image: one_pixel(), pos: None },
        ImageId::Index(20),
    );
    let mut user = EguiUserTextures::new();
    user.add_image(ImageId::Uuid(7));
    user.add_image(ImageId::Index(8));
    (ExtractedEguiManagedTextures::extract_resource(&managed), user)
}

#[test]
fn handles_list_managed_then_user() {
    let (managed, user) = sample();
    let textures = ExtractedEguiTextures { egui_textures: &managed, user_textures: &user };
    let handles = textures.handles();
    assert_eq!(handles.len(), 4);
    assert!(matches!(handles[0].0, EguiTextureId::Managed(_, _)));
    assert!(matches!(handles[1].0, EguiTextureId::Managed(_, _)));
    assert!(matches!(handles[2].0, EguiTextureId::User(_)));
    assert!(matches!(handles[3].0, EguiTextureId::User(_)));
    assert!(handles.contains(&(EguiTextureId::Managed(entity(1), 0), ImageId::Index(10))));
    assert!(handles.contains(&(EguiTextureId::Managed(entity(2), 0), ImageId::Index(20))));
    assert!(handles.contains(&(EguiTextureId::User(0), ImageId::Uuid(7))));
    assert!(handles.contains(&(EguiTextureId::User(1), ImageId::Index(8))));
}

#[test]
fn resolve_finds_both_kinds() {
    let (managed, user) = sample();
    let textures = ExtractedEguiTextures { egui_textures: &managed, user_textures: &user };
    assert_eq!(textures.resolve(EguiTextureId::Managed(entity(1), 0)), Some(ImageId::Index(10)));
    assert_eq!(textures.resolve(EguiTextureId::Managed(entity(3), 0)), None);
    assert_eq!(textures.resolve(EguiTextureId::User(1)), Some(ImageId::Index(8)));
    assert_eq!(textures.resolve(EguiTextureId::User(0)), Some(ImageId::Uuid(7)));
    assert_eq!(textures.resolve(EguiTextureId::User(2)), None);
}

#[test]
fn managed_and_user_ids_do_not_collide() {
    assert_ne!(
        EguiTextureId::from_target(entity(0), TextureId::Managed(0)),
        EguiTextureId::from_target(entity(0), TextureId::User(0))
    );
    assert_eq!(
        EguiTextureId::from_target(entity(5), TextureId::Managed(3)),
        EguiTextureId::Managed(entity(5), 3)
    );
    assert_eq!(EguiTextureId::from_target(entity(5), TextureId::User(3)), EguiTextureId::User(3));
}

#[test]
fn bind_groups_are_queued_for_loaded_textures_only() {
    let handles = vec![
        (EguiTextureId::Managed(entity(1), 0), ImageId::Index(1)),
        (EguiTextureId::User(0), ImageId::Index(2)),
        (EguiTextureId::User(1), ImageId::Index(3)),
    ];
    let queued = queue_bind_groups_system(&handles, &vec![true, false, true]);
    assert_eq!(queued, vec![handles[0], handles[2]]);
    assert!(queue_bind_groups_system(&handles, &vec![false, false, false]).is_empty());
    assert_eq!(queue_bind_groups_system(&handles, &vec![true, true, true]), handles);
    assert!(queue_bind_groups_system(&vec![], &vec![]).is_empty());
}

#[test]
fn pipelines_are_queued_for_targets_with_format() {
    let windows = vec![(entity(1), Some(44u32)), (entity(2), None), (entity(3), Some(45u32))];
    let images = vec![(entity(4), None), (entity(5), Some(44u32))];
    let queued = queue_pipelines_system(&windows, &images);
    assert_eq!(queued, vec![(entity(1), 44), (entity(3), 45), (entity(5), 44)]);
    let none: Vec<(EntityId, Option<u32>)> = vec![];
    assert!(queue_pipelines_system(&none, &none).is_empty());
}

#[test]
fn transforms_are_rebuilt_each_frame() {
    let mut transforms = EguiTransforms::new();
    assert_eq!(transforms.offset(entity(1)), None);
    assert_eq!(transforms.bind_group_buffer(), None);
    let rebuild = prepare_egui_transforms_system(
        &mut transforms,
        &vec![(Some(entity(1)), 0), (None, 256), (Some(entity(2)), 512)],
        Some(9),
    );
    assert!(rebuild);
    assert_eq!(transforms.offset(entity(1)), Some(0));
    assert_eq!(transforms.offset(entity(2)), Some(512));
    assert_eq!(transforms.bind_group_buffer(), Some(9));
    let rebuild = prepare_egui_transforms_system(&mut transforms, &vec![(Some(entity(2)), 0)], Some(9));
    assert!(!rebuild);
    assert_eq!(transforms.offset(entity(1)), None);
    assert_eq!(transforms.offset(entity(2)), Some(0));
}

#[test]
fn bind_group_follows_the_buffer() {
    let mut transforms = EguiTransforms::new();
    assert!(!prepare_egui_transforms_system(&mut transforms, &vec![], None));
    assert_eq!(transforms.bind_group_buffer(), None);
    assert!(prepare_egui_transforms_system(&mut transforms, &vec![], Some(1)));
    assert!(!prepare_egui_transforms_system(&mut transforms, &vec![], None));
    assert_eq!(transforms.bind_group_buffer(), Some(1));
    assert!(prepare_egui_transforms_system(&mut transforms, &vec![], Some(2)));
    assert_eq!(transforms.bind_group_buffer(), Some(2));
}

#[test]
fn later_slot_of_a_target_counts() {
    let mut transforms = EguiTransforms::new();
    prepare_egui_transforms_system(
        &mut transforms,
        &vec![(Some(entity(1)), 0), (Some(entity(1)), 256)],
        None,
    );
    assert_eq!(transforms.offset(entity(1)), Some(256));
}
