use bevy_egui::{
    begin_pass_system, free_egui_textures_system, setup_new_window_nodes_system,
    setup_new_windows_system, teardown_window_nodes_system, update_egui_textures_system,
    ClippedPrimitive, Color32, ColorImage, EguiContexts, EguiManagedTextures, EguiNode,
    EguiPassNodes, EguiRenderTargetType, EguiTextureId, EntityId, ImageDelta, ImageId, InputEvent,
    NodeState, PassStart, PixelRect, Primitive, TextureId, TextureUpdate, TexturesDelta,
};

fn to_color_image(image: &egui::ImageData) -> ColorImage {
    let size = image.size();
    let pixels: Vec<Color32> = match image {
        egui::ImageData::Color(color) => color
            .pixels
            .iter()
            .map(|p| Color32 { r: p.r(), g: p.g(), b: p.b(), a: p.a() })
            .collect(),
        egui::ImageData::Font(font) => font
            .srgba_pixels(None)
            .map(|p| Color32 { r: p.r(), g: p.g(), b: p.b(), a: p.a() })
            .collect(),
    };
    ColorImage::from_pixels(size, pixels).unwrap()
}

fn to_texture_id(id: egui::TextureId) -> TextureId {
    match id {
        egui::TextureId::Managed(id) => TextureId::Managed(id),
        egui::TextureId::User(id) => TextureId::User(id),
    }
}

fn to_delta(delta: egui::TexturesDelta) -> TexturesDelta {
    let mut converted = TexturesDelta::new();
    for (id, image_delta) in delta.set {
        converted.set.push((
            to_texture_id(id),
            ImageDelta { image: to_color_image(&image_delta.image), pos: image_delta.pos },
        ));
    }
    for id in delta.free {
        converted.free.push(to_texture_id(id));
    }
    converted
}

fn to_pixels(value: f32, scale: f32) -> u32 {
    (value * scale).round().max(0.0) as u32
}

fn to_primitive(clipped: &egui::ClippedPrimitive, scale: f32) -> ClippedPrimitive {
    let clip_rect = PixelRect {
        min_x: to_pixels(clipped.clip_rect.min.x, scale),
        min_y: to_pixels(clipped.clip_rect.min.y, scale),
        max_x: to_pixels(clipped.clip_rect.max.x, scale),
        max_y: to_pixels(clipped.clip_rect.max.y, scale),
    };
    let primitive = match &clipped.primitive {
        egui::epaint::Primitive::Mesh(mesh) => Primitive::Mesh {
            texture_id: to_texture_id(mesh.texture_id),
            vertex_count: mesh.vertices.len() as u32,
            index_count: mesh.indices.len() as u32,
        },
        egui::epaint::Primitive::Callback(_) => Primitive::Callback,
    };
    ClippedPrimitive { clip_rect, primitive }
}

fn run_pass(
    contexts: &mut EguiContexts,
    at: usize,
    ctx: &egui::Context,
    clicked: &mut bool,
) -> (Vec<ClippedPrimitive>, TexturesDelta) {
    let run_manually = contexts.target(at).run_manually;
    let events = match begin_pass_system(run_manually, contexts.egui_input_at_mut(at)) {
        PassStart::Begin(events) => events,
        PassStart::Manual => panic!("the pass is run by the bridge"),
    };
    let mut raw_input = egui::RawInput::default();
    raw_input.screen_rect =
        Some(egui::Rect::from_min_size(egui::Pos2::ZERO, egui::vec2(800.0, 600.0)));
    for event in events {
        raw_input.events.push(match event {
            InputEvent::Toolkit(event) => event,
            InputEvent::Ime(bevy_egui::ImeEvent::Enabled) => egui::Event::Ime(egui::ImeEvent::Enabled),
            InputEvent::Ime(bevy_egui::ImeEvent::Disabled) => egui::Event::Ime(egui::ImeEvent::Disabled),
        });
    }
    let full_output = ctx.run(raw_input, |ctx| {
        egui::CentralPanel::default().show(ctx, |ui| {
            let (rect, response) = ui.allocate_exact_size(egui::vec2(200.0, 200.0), egui::Sense::click());
            ui.painter().rect_filled(rect, 0.0, egui::Color32::RED);
            if response.clicked() {
                *clicked = true;
            }
        });
    });
    let scale = full_output.pixels_per_point;
    let jobs: Vec<ClippedPrimitive> = ctx
        .tessellate(full_output.shapes, scale)
        .iter()
        .map(|clipped| to_primitive(clipped, scale))
        .collect();
    (jobs, to_delta(full_output.textures_delta))
}

fn pointer_button(pressed: bool) -> InputEvent {
    InputEvent::Toolkit(egui::Event::PointerButton {
        pos: egui::pos2(50.0, 50.0),
        button: egui::PointerButton::Primary,
        pressed,
        modifiers: egui::Modifiers::NONE,
    })
}

#[test]
fn window_target_from_click_to_teardown() {
    let window = EntityId { index: 1, generation: 1 };
    let mut contexts = EguiContexts::new();
    let mut nodes = EguiPassNodes::new();
    let mut textures = EguiManagedTextures::new();

    setup_new_windows_system(&mut contexts, &vec![(window, true)]);
    let setups = setup_new_window_nodes_system(&mut nodes, &vec![window]);
    assert_eq!(setups.len(), 1);
    assert_eq!(nodes.len(), 1);
    let at = contexts.position(window).unwrap();

    let ctx = egui::Context::default();
    let mut clicked = false;
    let frames = vec![
        vec![InputEvent::Toolkit(egui::Event::PointerMoved(egui::pos2(50.0, 50.0)))],
        vec![pointer_button(true)],
        vec![pointer_button(false)],
    ];
    let mut next_handle = 0u64;
    for frame in frames {
        for event in frame {
            contexts.egui_input_at_mut(at).events.push(event);
        }
        let (jobs, delta) = run_pass(&mut contexts, at, &ctx, &mut clicked);
        assert!(contexts.target(at).egui_input.events.is_empty());
        contexts.render_output_at_mut(at).process_output(jobs, delta);
        assert!(!contexts.target(at).render_output.is_empty());

        let set = contexts.render_output_at_mut(at).textures_delta.take_set();
        let handles: Vec<ImageId> = set
            .iter()
            .map(|_| {
                next_handle += 1;
                ImageId::Index(next_handle)
            })
            .collect();
        for (id, delta) in set.iter() {
            assert!(textures.set_is_allowed(window, *id, delta));
        }
        let updates = update_egui_textures_system(&mut textures, window, set, &handles);
        assert!(updates.iter().all(|u| *u == TextureUpdate::Uploaded || *u == TextureUpdate::Patched));
        let free = contexts.render_output_at_mut(at).textures_delta.take_free();
        free_egui_textures_system(&mut textures, window, &free);
    }
    assert!(clicked);
    assert!(textures.resolve(window, 0).is_some());

    let jobs = &contexts.target(at).render_output.paint_jobs;
    assert!(!jobs.is_empty());
    let node = EguiNode::new(window, EguiRenderTargetType::Window);
    let bound = vec![EguiTextureId::Managed(window, 0)];
    let commands = node.run(NodeState::Ready, jobs, 800, 600, &bound);
    assert!(!commands.is_empty());
    assert!(node.run(NodeState::Loading, jobs, 800, 600, &bound).is_empty());

    assert!(contexts.remove(window));
    let torn = teardown_window_nodes_system(&mut nodes, &vec![window]);
    assert!(torn[0].existed);
    assert_eq!(nodes.len(), 0);
    assert_eq!(contexts.len(), 0);
}
