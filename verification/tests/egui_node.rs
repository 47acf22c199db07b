use bevy_egui::egui_node::check_buffers_fit;
use bevy_egui::{
    ClippedPrimitive, Draw, DrawCommand, EguiNode, EguiRenderTargetType, EguiTextureId, EntityId,
    NodeState, PixelRect, Primitive, Scissor, TextureId,
};

fn target() -> EntityId {
    EntityId { index: 7, generation: 1 }
}

fn rect(min_x: u32, min_y: u32, max_x: u32, max_y: u32) -> PixelRect {
    PixelRect { min_x, min_y, max_x, max_y }
}

fn mesh(clip: PixelRect, texture_id: TextureId, vertex_count: u32, index_count: u32) -> ClippedPrimitive {
    ClippedPrimitive { clip_rect: clip, primitive: Primitive::Mesh { texture_id, vertex_count, index_count } }
}

#[test]
fn scissor_is_clip_on_target() {
    assert_eq!(
        Scissor::for_clip(rect(10, 20, 110, 220), 800, 600),
        Some(Scissor { x: 10, y: 20, width: 100, height: 200 })
    );
    assert_eq!(
        Scissor::for_clip(rect(700, 500, 900, 700), 800, 600),
        Some(Scissor { x: 700, y: 500, width: 100, height: 100 })
    );
    assert_eq!(
        Scissor::for_clip(rect(0, 0, u32::MAX, u32::MAX), 800, 600),
        Some(Scissor { x: 0, y: 0, width: 800, height: 600 })
    );
}

#[test]
fn scissor_without_area_is_none() {
    assert_eq!(Scissor::for_clip(rect(800, 0, 900, 100), 800, 600), None);
    assert_eq!(Scissor::for_clip(rect(0, 600, 100, 700), 800, 600), None);
    assert_eq!(Scissor::for_clip(rect(10, 10, 10, 50), 800, 600), None);
    assert_eq!(Scissor::for_clip(rect(50, 10, 10, 50), 800, 600), None);
    assert_eq!(Scissor::for_clip(rect(0, 0, 10, 10), 0, 600), None);
}

#[test]
fn intersect_takes_common_pixels() {
    assert_eq!(rect(0, 0, 10, 10).intersect(rect(5, 6, 20, 8)), rect(5, 6, 10, 8));
}

#[test]
fn loading_node_draws_nothing() {
    let node = EguiNode::new(target(), EguiRenderTargetType::Window);
    let primitives = vec![mesh(rect(0, 0, 10, 10), TextureId::Managed(0), 4, 6)];
    let bound = vec![EguiTextureId::Managed(target(), 0)];
    assert_eq!(EguiNode::state(false, false), NodeState::Loading);
    assert_eq!(EguiNode::state(true, false), NodeState::Loading);
    assert_eq!(EguiNode::state(false, true), NodeState::Loading);
    assert_eq!(EguiNode::state(true, true), NodeState::Ready);
    assert!(node.run(NodeState::Loading, &primitives, 800, 600, &bound).is_empty());
    assert_eq!(node.run(NodeState::Ready, &primitives, 800, 600, &bound).len(), 1);
}

#[test]
fn primitives_are_drawn_in_order() {
    let node = EguiNode::new(target(), EguiRenderTargetType::Window);
    let primitives = vec![
        mesh(rect(0, 0, 100, 100), TextureId::Managed(0), 4, 6),
        mesh(rect(900, 0, 1000, 100), TextureId::Managed(0), 8, 12),
        mesh(rect(0, 0, 50, 50), TextureId::User(3), 3, 3),
        ClippedPrimitive { clip_rect: rect(1, 2, 3, 4), primitive: Primitive::Callback },
        mesh(rect(0, 0, 50, 50), TextureId::Managed(1), 5, 9),
        mesh(rect(10, 10, 20, 20), TextureId::Managed(0), 4, 6),
    ];
    let bound = vec![EguiTextureId::User(3), EguiTextureId::Managed(target(), 0)];
    assert!(check_buffers_fit(&primitives));
    let commands = node.run(NodeState::Ready, &primitives, 800, 600, &bound);
    assert_eq!(
        commands,
        vec![
            DrawCommand {
                primitive: 0,
                scissor: Scissor { x: 0, y: 0, width: 100, height: 100 },
                draw: Draw::Mesh {
                    texture: EguiTextureId::Managed(target(), 0),
                    first_index: 0,
                    index_count: 6,
                    base_vertex: 0
                },
            },
            DrawCommand {
                primitive: 2,
                scissor: Scissor { x: 0, y: 0, width: 50, height: 50 },
                draw: Draw::Mesh {
                    texture: EguiTextureId::User(3),
                    first_index: 18,
                    index_count: 3,
                    base_vertex: 12
                },
            },
            DrawCommand {
                primitive: 3,
                scissor: Scissor { x: 1, y: 2, width: 2, height: 2 },
                draw: Draw::Callback,
            },
            DrawCommand {
                primitive: 5,
                scissor: Scissor { x: 10, y: 10, width: 10, height: 10 },
                draw: Draw::Mesh {
                    texture: EguiTextureId::Managed(target(), 0),
                    first_index: 30,
                    index_count: 6,
                    base_vertex: 20
                },
            },
        ]
    );
}

#[test]
fn managed_texture_of_other_target_is_not_bound() {
    let node = EguiNode::new(target(), EguiRenderTargetType::Image);
    let other = EntityId { index: 8, generation: 1 };
    let primitives = vec![mesh(rect(0, 0, 10, 10), TextureId::Managed(0), 4, 6)];
    let commands = node.run(NodeState::Ready, &primitives, 100, 100, &vec![EguiTextureId::Managed(other, 0)]);
    assert!(commands.is_empty());
}

#[test]
fn callback_off_target_is_skipped() {
    let node = EguiNode::new(target(), EguiRenderTargetType::Window);
    let primitives = vec![ClippedPrimitive { clip_rect: rect(100, 100, 200, 200), primitive: Primitive::Callback }];
    assert!(node.run(NodeState::Ready, &primitives, 100, 100, &vec![]).is_empty());
}

#[test]
fn buffers_that_overflow_are_detected() {
    let fits = vec![
        mesh(rect(0, 0, 1, 1), TextureId::Managed(0), 1, u32::MAX - 1),
        mesh(rect(0, 0, 1, 1), TextureId::Managed(0), 1, 1),
    ];
    assert!(check_buffers_fit(&fits));
    let too_many_indices = vec![
        mesh(rect(0, 0, 1, 1), TextureId::Managed(0), 1, u32::MAX),
        mesh(rect(0, 0, 1, 1), TextureId::Managed(0), 1, 1),
    ];
    assert!(!check_buffers_fit(&too_many_indices));
    let too_many_vertices = vec![
        mesh(rect(0, 0, 1, 1), TextureId::Managed(0), u32::MAX, 1),
        ClippedPrimitive { clip_rect: rect(0, 0, 1, 1), primitive: Primitive::Callback },
        mesh(rect(0, 0, 1, 1), TextureId::Managed(0), 1, 1),
    ];
    assert!(!check_buffers_fit(&too_many_vertices));
    assert!(check_buffers_fit(&vec![]));
}

#[test]
fn window_pass_keeps_pixels_and_image_pass_follows_marker() {
    let window = EguiNode::new(target(), EguiRenderTargetType::Window);
    let image = EguiNode::new(target(), EguiRenderTargetType::Image);
    let clear = bevy_egui::EguiRenderToImage::new(bevy_egui::ImageId::Index(1));
    let load = bevy_egui::EguiRenderToImage {
        handle: bevy_egui::ImageId::Index(1),
        load_op: bevy_egui::LoadOp::Load,
    };
    assert_eq!(window.load_op(None), Some(bevy_egui::LoadOp::Load));
    assert_eq!(window.load_op(Some(clear)), Some(bevy_egui::LoadOp::Load));
    assert_eq!(image.load_op(Some(clear)), Some(bevy_egui::LoadOp::Clear));
    assert_eq!(image.load_op(Some(load)), Some(bevy_egui::LoadOp::Load));
    assert_eq!(image.load_op(None), None);
}
