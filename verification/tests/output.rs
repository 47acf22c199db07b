use bevy_egui::{
    ClippedPrimitive, Color32, ColorImage, EguiRenderOutput, ImageDelta, PixelRect, Primitive,
    TextureId, TexturesDelta,
};

fn delta() -> ImageDelta {
    ImageDelta { image: ColorImage::new([1, 1], Color32 { r: 0, g: 0, b: 0, a: 0 }).unwrap(), pos: None }
}

fn job(n: u32) -> ClippedPrimitive {
    ClippedPrimitive {
        clip_rect: PixelRect { min_x: 0, min_y: 0, max_x: n, max_y: n },
        primitive: Primitive::Callback,
    }
}

#[test]
fn new_output_is_empty() {
    assert!(EguiRenderOutput::new().is_empty());
    assert!(EguiRenderOutput::default().is_empty());
    assert!(TexturesDelta::new().is_empty());
    assert!(TexturesDelta::default().is_empty());
}

#[test]
fn output_with_anything_is_not_empty() {
    let mut output = EguiRenderOutput::new();
    output.paint_jobs.push(job(1));
    assert!(!output.is_empty());
    let mut output = EguiRenderOutput::new();
    output.textures_delta.set.push((TextureId::Managed(0), delta()));
    assert!(!output.is_empty());
    let mut output = EguiRenderOutput::new();
    output.textures_delta.free.push(TextureId::Managed(0));
    assert!(!output.is_empty());
}

#[test]
fn append_keeps_order() {
    let mut first = TexturesDelta::new();
    first.set.push((TextureId::Managed(1), delta()));
    first.free.push(TextureId::Managed(9));
    let mut second = TexturesDelta::new();
    second.set.push((TextureId::Managed(2), delta()));
    second.set.push((TextureId::User(3), delta()));
    second.free.push(TextureId::Managed(8));
    first.append(second);
    let ids: Vec<TextureId> = first.set.iter().map(|entry| entry.0).collect();
    assert_eq!(ids, vec![TextureId::Managed(1), TextureId::Managed(2), TextureId::User(3)]);
    assert_eq!(first.free, vec![TextureId::Managed(9), TextureId::Managed(8)]);
}

#[test]
fn process_output_replaces_jobs_and_adds_delta() {
    let mut output = EguiRenderOutput::new();
    output.paint_jobs.push(job(1));
    output.textures_delta.free.push(TextureId::Managed(1));
    let mut newer = TexturesDelta::new();
    newer.free.push(TextureId::Managed(2));
    output.process_output(vec![job(2), job(3)], newer);
    assert_eq!(output.paint_jobs, vec![job(2), job(3)]);
    assert_eq!(output.textures_delta.free, vec![TextureId::Managed(1), TextureId::Managed(2)]);
}

#[test]
fn taking_set_and_free_leaves_the_other() {
    let mut changes = TexturesDelta::new();
    changes.set.push((TextureId::Managed(1), delta()));
    changes.free.push(TextureId::Managed(2));
    let set = changes.take_set();
    assert_eq!(set.len(), 1);
    assert!(changes.set.is_empty());
    assert_eq!(changes.free.len(), 1);
    let free = changes.take_free();
    assert_eq!(free, vec![TextureId::Managed(2)]);
    assert!(changes.is_empty());
}
