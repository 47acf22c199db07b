use bevy_egui::{
    free_egui_textures_system, update_egui_textures_system, Color32, ColorImage,
    EguiManagedTextures, EntityId, ExtractedEguiManagedTextures, ImageDelta, ImageId, TextureId,
    TextureUpdate,
};

fn gray(v: u8) -> Color32 {
    Color32 { r: v, g: v, b: v, a: 255 }
}

fn filled(width: usize, height: usize, v: u8) -> ColorImage {
    ColorImage::new([width, height], gray(v)).unwrap()
}

fn target(index: u32) -> EntityId {
    EntityId { index, generation: 1 }
}

fn reds(image: &ColorImage) -> Vec<u8> {
    image.pixels.iter().map(|p| p.r).collect()
}

#[test]
fn full_upload_stores_texture() {
    let mut textures = EguiManagedTextures::new();
    let delta = ImageDelta { image: filled(2, 2, 7), pos: None };
    let update = textures.set_texture(target(1), TextureId::Managed(0), delta, ImageId::Index(10));
    assert_eq!(update, TextureUpdate::Uploaded);
    let stored = textures.get(target(1), 0).unwrap();
    assert_eq!(stored.handle, ImageId::Index(10));
    assert_eq!(reds(&stored.color_image), vec![7, 7, 7, 7]);
    assert_eq!(textures.resolve(target(1), 0), Some(ImageId::Index(10)));
    assert_eq!(textures.resolve(target(2), 0), None);
    assert_eq!(textures.resolve(target(1), 1), None);
}

#[test]
fn full_upload_replaces_texture() {
    let mut textures = EguiManagedTextures::new();
    let id = TextureId::Managed(3);
    textures.set_texture(target(1), id, ImageDelta { image: filled(2, 2, 7), pos: None }, ImageId::Index(1));
    let update = textures.set_texture(
        target(1),
        id,
        ImageDelta { image: filled(1, 3, 9), pos: None },
        ImageId::Index(2),
    );
    assert_eq!(update, TextureUpdate::Uploaded);
    let stored = textures.get(target(1), 3).unwrap();
    assert_eq!(stored.handle, ImageId::Index(2));
    assert_eq!(stored.color_image.size, [1, 3]);
    assert_eq!(reds(&stored.color_image), vec![9, 9, 9]);
}

#[test]
fn full_then_patch_overwrites_rectangle() {
    let mut textures = EguiManagedTextures::new();
    let id = TextureId::Managed(0);
    textures.set_texture(target(1), id, ImageDelta { image: filled(4, 3, 0), pos: None }, ImageId::Index(1));
    let patch = ImageDelta { image: filled(2, 2, 200), pos: Some([1, 1]) };
    assert!(textures.set_is_allowed(target(1), id, &patch));
    let update = textures.set_texture(target(1), id, patch, ImageId::Index(2));
    assert_eq!(update, TextureUpdate::Patched);
    let stored = textures.get(target(1), 0).unwrap();
    assert_eq!(stored.handle, ImageId::Index(2));
    assert_eq!(stored.color_image.size, [4, 3]);
    assert_eq!(reds(&stored.color_image), vec![0, 0, 0, 0, 0, 200, 200, 0, 0, 200, 200, 0]);
}

#[test]
fn patch_without_texture_is_skipped() {
    let mut textures = EguiManagedTextures::new();
    textures.set_texture(
        target(1),
        TextureId::Managed(0),
        ImageDelta { image: filled(2, 2, 1), pos: None },
        ImageId::Index(1),
    );
    let patch = ImageDelta { image: filled(1, 1, 9), pos: Some([0, 0]) };
    let update = textures.set_texture(target(1), TextureId::Managed(5), patch, ImageId::Index(2));
    assert_eq!(update, TextureUpdate::Missing);
    assert!(textures.get(target(1), 5).is_none());
    let other = ImageDelta { image: filled(1, 1, 9), pos: Some([0, 0]) };
    assert_eq!(
        textures.set_texture(target(2), TextureId::Managed(0), other, ImageId::Index(3)),
        TextureUpdate::Missing
    );
    let kept = textures.get(target(1), 0).unwrap();
    assert_eq!(kept.handle, ImageId::Index(1));
    assert_eq!(reds(&kept.color_image), vec![1, 1, 1, 1]);
}

#[test]
fn user_texture_in_delta_is_ignored() {
    let mut textures = EguiManagedTextures::new();
    let delta = ImageDelta { image: filled(1, 1, 1), pos: None };
    let update = textures.set_texture(target(1), TextureId::User(0), delta, ImageId::Index(1));
    assert_eq!(update, TextureUpdate::Ignored);
    assert!(textures.get(target(1), 0).is_none());
}

#[test]
fn patch_that_does_not_fit_is_not_allowed() {
    let mut textures = EguiManagedTextures::new();
    let id = TextureId::Managed(0);
    textures.set_texture(target(1), id, ImageDelta { image: filled(2, 2, 0), pos: None }, ImageId::Index(1));
    let too_far = ImageDelta { image: filled(2, 2, 1), pos: Some([1, 0]) };
    assert!(!textures.set_is_allowed(target(1), id, &too_far));
    let elsewhere = ImageDelta { image: filled(2, 2, 1), pos: Some([1, 0]) };
    assert!(textures.set_is_allowed(target(1), TextureId::Managed(1), &elsewhere));
    let malformed = ImageDelta { image: ColorImage { size: [2, 2], pixels: vec![] }, pos: None };
    assert!(!textures.set_is_allowed(target(1), id, &malformed));
}

#[test]
fn targets_have_separate_textures() {
    let mut textures = EguiManagedTextures::new();
    let id = TextureId::Managed(0);
    textures.set_texture(target(1), id, ImageDelta { image: filled(1, 1, 1), pos: None }, ImageId::Index(1));
    textures.set_texture(target(2), id, ImageDelta { image: filled(1, 1, 2), pos: None }, ImageId::Index(2));
    assert_eq!(textures.resolve(target(1), 0), Some(ImageId::Index(1)));
    assert_eq!(textures.resolve(target(2), 0), Some(ImageId::Index(2)));
    assert_eq!(textures.free_texture(target(1), id), Some(ImageId::Index(1)));
    assert_eq!(textures.resolve(target(1), 0), None);
    assert_eq!(textures.resolve(target(2), 0), Some(ImageId::Index(2)));
}

#[test]
fn freed_texture_does_not_resolve() {
    let mut textures = EguiManagedTextures::new();
    let id = TextureId::Managed(4);
    textures.set_texture(target(1), id, ImageDelta { image: filled(1, 1, 1), pos: None }, ImageId::Uuid(77));
    assert_eq!(textures.free_texture(target(1), id), Some(ImageId::Uuid(77)));
    assert_eq!(textures.resolve(target(1), 4), None);
    assert!(textures.get(target(1), 4).is_none());
    assert_eq!(textures.free_texture(target(1), id), None);
    assert_eq!(textures.free_texture(target(1), TextureId::User(4)), None);
}

#[test]
fn delta_is_applied_in_order() {
    let mut textures = EguiManagedTextures::new();
    let set = vec![
        (TextureId::Managed(0), ImageDelta { image: filled(1, 1, 9), pos: Some([0, 0]) }),
        (TextureId::Managed(0), ImageDelta { image: filled(2, 1, 1), pos: None }),
        (TextureId::User(3), ImageDelta { image: filled(1, 1, 5), pos: None }),
        (TextureId::Managed(0), ImageDelta { image: filled(1, 1, 8), pos: Some([1, 0]) }),
    ];
    let handles = vec![ImageId::Index(1), ImageId::Index(2), ImageId::Index(3), ImageId::Index(4)];
    let updates = update_egui_textures_system(&mut textures, target(1), set, &handles);
    assert_eq!(
        updates,
        vec![
            TextureUpdate::Missing,
            TextureUpdate::Uploaded,
            TextureUpdate::Ignored,
            TextureUpdate::Patched
        ]
    );
    let stored = textures.get(target(1), 0).unwrap();
    assert_eq!(stored.handle, ImageId::Index(4));
    assert_eq!(reds(&stored.color_image), vec![1, 8]);
}

#[test]
fn empty_delta_changes_nothing() {
    let mut textures = EguiManagedTextures::new();
    let updates = update_egui_textures_system(&mut textures, target(1), vec![], &vec![]);
    assert!(updates.is_empty());
    assert!(free_egui_textures_system(&mut textures, target(1), &vec![]).is_empty());
}

#[test]
fn free_list_returns_assets_in_order() {
    let mut textures = EguiManagedTextures::new();
    for local in 0..3u64 {
        textures.set_texture(
            target(1),
            TextureId::Managed(local),
            ImageDelta { image: filled(1, 1, 0), pos: None },
            ImageId::Index(100 + local),
        );
    }
    let free = vec![
        TextureId::Managed(2),
        TextureId::User(0),
        TextureId::Managed(7),
        TextureId::Managed(0),
        TextureId::Managed(2),
    ];
    let freed = free_egui_textures_system(&mut textures, target(1), &free);
    assert_eq!(freed, vec![ImageId::Index(102), ImageId::Index(100)]);
    assert_eq!(textures.resolve(target(1), 0), None);
    assert_eq!(textures.resolve(target(1), 1), Some(ImageId::Index(101)));
    assert_eq!(textures.resolve(target(1), 2), None);
}

#[test]
fn extraction_copies_handles() {
    let mut textures = EguiManagedTextures::new();
    textures.set_texture(
        target(1),
        TextureId::Managed(0),
        ImageDelta { image: filled(1, 1, 0), pos: None },
        ImageId::Index(5),
    );
    textures.set_texture(
        target(2),
        TextureId::Managed(9),
        ImageDelta { image: filled(1, 1, 0), pos: None },
        ImageId::Uuid(6),
    );
    let extracted = ExtractedEguiManagedTextures::extract_resource(&textures);
    assert_eq!(extracted.get(target(1), 0), Some(ImageId::Index(5)));
    assert_eq!(extracted.get(target(2), 9), Some(ImageId::Uuid(6)));
    assert_eq!(extracted.get(target(2), 0), None);
    let mut entries = extracted.entries();
    entries.sort_by_key(|e| e.1);
    assert_eq!(
        entries,
        vec![(target(1), 0, ImageId::Index(5)), (target(2), 9, ImageId::Uuid(6))]
    );
}

#[test]
fn removed_target_loses_its_textures() {
    let mut textures = EguiManagedTextures::new();
    for (index, local, handle) in [(1u32, 0u64, 10u64), (1, 1, 11), (2, 0, 20), (1, 7, 17)] {
        textures.set_texture(
            target(index),
            TextureId::Managed(local),
            ImageDelta { image: filled(1, 1, 0), pos: None },
            ImageId::Index(handle),
        );
    }
    let mut freed = bevy_egui::free_target_textures(&mut textures, target(1));
    freed.sort_by_key(|handle| match handle {
        ImageId::Index(bits) => *bits,
        ImageId::Uuid(_) => 0,
    });
    assert_eq!(freed, vec![ImageId::Index(10), ImageId::Index(11), ImageId::Index(17)]);
    assert_eq!(textures.resolve(target(1), 0), None);
    assert_eq!(textures.resolve(target(1), 1), None);
    assert_eq!(textures.resolve(target(1), 7), None);
    assert_eq!(textures.resolve(target(2), 0), Some(ImageId::Index(20)));
    assert!(bevy_egui::free_target_textures(&mut textures, target(1)).is_empty());
    assert!(bevy_egui::free_target_textures(&mut textures, target(3)).is_empty());
}

#[test]
fn same_index_other_generation_keeps_its_textures() {
    let mut textures = EguiManagedTextures::new();
    let old = EntityId { index: 1, generation: 1 };
    let new = EntityId { index: 1, generation: 2 };
    textures.set_texture(old, TextureId::Managed(0), ImageDelta { image: filled(1, 1, 0), pos: None }, ImageId::Index(1));
    textures.set_texture(new, TextureId::Managed(0), ImageDelta { image: filled(1, 1, 0), pos: None }, ImageId::Index(2));
    assert_eq!(bevy_egui::free_target_textures(&mut textures, old), vec![ImageId::Index(1)]);
    assert_eq!(textures.resolve(new, 0), Some(ImageId::Index(2)));
}

#[test]
fn user_texture_entry_is_passed_over_whatever_it_holds() {
    let mut textures = EguiManagedTextures::new();
    let malformed = ImageDelta { image: ColorImage { size: [3, 3], pixels: vec![] }, pos: Some([9, 9]) };
    assert!(textures.set_is_allowed(target(1), TextureId::User(0), &malformed));
    assert_eq!(
        textures.set_texture(target(1), TextureId::User(0), malformed, ImageId::Index(1)),
        TextureUpdate::Ignored
    );
}
