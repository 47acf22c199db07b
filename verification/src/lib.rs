//! Bridge between an immediate-mode UI toolkit and a host engine's renderer.
//!
//! The crate holds the decisions of the bridge: which textures exist and what
//! their pixels are, which render-graph nodes stand for which render targets,
//! which primitives are drawn and with what scissor. Every function states
//! what it computes and is proved to do so.

pub mod contexts;
pub mod egui_node;
pub mod ids;
pub mod image;
pub mod input;
pub mod managed_textures;
pub mod output;
pub mod render_graph;
pub mod render_systems;
pub mod schedule;
pub mod tables;
pub mod user_textures;

pub use crate::contexts::{
    capture_pointer_input, setup_new_windows_system, setup_render_to_image_handles_system,
    EguiContexts, EguiRenderToImage, LoadOp, PointerHit, PointerId, PointerOnWindow, RenderTarget,
};
pub use crate::egui_node::{
    ClippedPrimitive, Draw, DrawCommand, EguiNode, NodeState, PixelRect, Primitive, Scissor,
};
pub use crate::ids::{EguiRenderTargetType, EguiTextureId, EntityId, ImageId, TextureId};
pub use crate::image::{flatten_rgba, unmultiplied_bytes, update_image_rect, Color32, ColorImage};
pub use crate::input::{
    begin_pass_system, EguiContext, EguiInput, ImeEvent, InputEvent, PassStart, PointerAction,
    TouchPhase,
};
pub use crate::managed_textures::{
    free_egui_textures_system, free_target_textures, update_egui_textures_system,
    EguiManagedTexture, EguiManagedTextures, ExtractedEguiManagedTextures, ImageDelta,
    TextureUpdate,
};
pub use crate::output::{EguiRenderOutput, TexturesDelta};
pub use crate::render_graph::{
    setup_new_render_to_image_nodes_system, setup_new_window_nodes_system,
    teardown_render_to_image_nodes_system, teardown_window_nodes_system, EguiPass, EguiPassNodes,
    NodeOrder, NodeSetup, NodeTeardown,
};
pub use crate::render_systems::{
    prepare_egui_transforms_system, queue_bind_groups_system, queue_pipelines_system,
    EguiTransforms, ExtractedEguiTextures,
};
pub use crate::schedule::{EguiSet, EguiStartupSet};
pub use crate::user_textures::EguiUserTextures;
