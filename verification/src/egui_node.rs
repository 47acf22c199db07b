//! The render node of one render target: which draw calls it issues for the
//! primitives of a frame, with what scissor rectangle and from which part
//! of the index buffer.

use vstd::prelude::*;
use crate::contexts::{EguiRenderToImage, LoadOp};
use crate::ids::{EguiRenderTargetType, EguiTextureId, EntityId, TextureId};

verus! {

/// A rectangle of physical pixels: the columns from `min_x` up to, not
/// including, `max_x`, and the rows from `min_y` up to `max_y`.
#[derive(Clone, Copy, Debug, PartialEq, Eq, Structural)]
pub struct PixelRect {
    /// First column.
    pub min_x: u32,
    /// First row.
    pub min_y: u32,
    /// Column after the last.
    pub max_x: u32,
    /// Row after the last.
    pub max_y: u32,
}

impl PixelRect {
    /// Whether the pixel in column `x` of row `y` lies in the rectangle.
    pub open spec fn contains(self, x: int, y: int) -> bool {
        self.min_x <= x < self.max_x && self.min_y <= y < self.max_y
    }

    /// Whether the rectangle holds no pixel.
    pub open spec fn is_empty(self) -> bool {
        self.min_x >= self.max_x || self.min_y >= self.max_y
    }

    /// The rectangle of the pixels that lie in both rectangles.
    pub open spec fn intersection(self, other: PixelRect) -> PixelRect {
        PixelRect {
            min_x: if self.min_x >= other.min_x {
                self.min_x
            } else {
                other.min_x
            },
            min_y: if self.min_y >= other.min_y {
                self.min_y
            } else {
                other.min_y
            },
            max_x: if self.max_x <= other.max_x {
                self.max_x
            } else {
                other.max_x
            },
            max_y: if self.max_y <= other.max_y {
                self.max_y
            } else {
                other.max_y
            },
        }
    }

    /// The surface of a render target of `width` by `height` pixels.
    pub open spec fn of_target(width: u32, height: u32) -> PixelRect {
        PixelRect { min_x: 0, min_y: 0, max_x: width, max_y: height }
    }

    /// Computes [`PixelRect::intersection`].
    pub fn intersect(self, other: PixelRect) -> (r: PixelRect)
        ensures
            r == self.intersection(other),
    {
        PixelRect {
            min_x: if self.min_x >= other.min_x {
                self.min_x
            } else {
                other.min_x
            },
            min_y: if self.min_y >= other.min_y {
                self.min_y
            } else {
                other.min_y
            },
            max_x: if self.max_x <= other.max_x {
                self.max_x
            } else {
                other.max_x
            },
            max_y: if self.max_y <= other.max_y {
                self.max_y
            } else {
                other.max_y
            },
        }
    }
}

/// The part of a render target that a draw call may touch: its top left
/// corner and its size, in physical pixels. It is never empty.
#[derive(Clone, Copy, Debug, PartialEq, Eq, Structural)]
pub struct Scissor {
    /// First column.
    pub x: u32,
    /// First row.
    pub y: u32,
    /// Number of columns.
    pub width: u32,
    /// Number of rows.
    pub height: u32,
}

impl Scissor {
    /// The scissor rectangle for a primitive clipped to `clip` on a target
    /// of `width` by `height` pixels: the part of `clip` that lies on the
    /// target, or `None` if no pixel of it does.
    pub open spec fn of(clip: PixelRect, width: u32, height: u32) -> Option<Scissor> {
        let r = clip.intersection(PixelRect::of_target(width, height));
        if r.is_empty() {
            None
        } else {
            Some(
                Scissor {
                    x: r.min_x,
                    y: r.min_y,
                    width: (r.max_x - r.min_x) as u32,
                    height: (r.max_y - r.min_y) as u32,
                },
            )
        }
    }

    /// Whether the pixel in column `x` of row `y` lies in the scissor
    /// rectangle.
    pub open spec fn contains(self, x: int, y: int) -> bool {
        self.x <= x < self.x + self.width && self.y <= y < self.y + self.height
    }

    /// Computes [`Scissor::of`].
    pub fn for_clip(clip: PixelRect, width: u32, height: u32) -> (r: Option<Scissor>)
        ensures
            r == Scissor::of(clip, width, height),
    {
        let r = clip.intersect(PixelRect { min_x: 0, min_y: 0, max_x: width, max_y: height });
        if r.min_x >= r.max_x || r.min_y >= r.max_y {
            None
        } else {
            Some(
                Scissor {
                    x: r.min_x,
                    y: r.min_y,
                    width: r.max_x - r.min_x,
                    height: r.max_y - r.min_y,
                },
            )
        }
    }
}

/// What a primitive paints.
#[derive(Clone, Copy, Debug, PartialEq, Eq, Structural)]
pub enum Primitive {
    /// A triangle mesh with one texture. Its vertices and indices lie in
    /// the shared buffers, after those of the meshes before it.
    Mesh {
        /// The texture of the mesh.
        texture_id: TextureId,
        /// Number of vertices.
        vertex_count: u32,
        /// Number of indices.
        index_count: u32,
    },
    /// A callback of host code that paints by itself.
    Callback,
}

/// A primitive with the rectangle that it is clipped to.
#[derive(Clone, Copy, Debug, PartialEq, Eq, Structural)]
pub struct ClippedPrimitive {
    /// Nothing is painted outside this rectangle.
    pub clip_rect: PixelRect,
    /// What is painted.
    pub primitive: Primitive,
}

/// What a draw command does.
#[derive(Clone, Copy, Debug, PartialEq, Eq, Structural)]
pub enum Draw {
    /// Draws `index_count` indices from `first_index` on, with the bind
    /// group of `texture`.
    Mesh {
        /// The texture to bind.
        texture: EguiTextureId,
        /// Where the indices of the mesh begin in the index buffer.
        first_index: u32,
        /// Number of indices.
        index_count: u32,
        /// Where the vertices of the mesh begin in the vertex buffer.
        base_vertex: u32,
    },
    /// Calls the paint callback of the primitive.
    Callback,
}

/// One step of a render pass.
#[derive(Clone, Copy, Debug, PartialEq, Eq, Structural)]
pub struct DrawCommand {
    /// Which primitive of the frame is drawn.
    pub primitive: usize,
    /// The scissor rectangle to set before.
    pub scissor: Scissor,
    /// What is drawn.
    pub draw: Draw,
}

/// The number of indices of a primitive.
pub open spec fn index_count(primitive: Primitive) -> nat {
    match primitive {
        Primitive::Mesh { index_count, .. } => index_count as nat,
        Primitive::Callback => 0,
    }
}

/// The number of vertices of a primitive.
pub open spec fn vertex_count(primitive: Primitive) -> nat {
    match primitive {
        Primitive::Mesh { vertex_count, .. } => vertex_count as nat,
        Primitive::Callback => 0,
    }
}

/// The number of indices of the first `n` primitives together: where the
/// indices of the next one begin.
pub open spec fn index_offset(primitives: Seq<ClippedPrimitive>, n: nat) -> nat
    decreases n,
{
    if n == 0 {
        0
    } else {
        index_offset(primitives, (n - 1) as nat) + index_count(primitives[n - 1].primitive)
    }
}

/// The number of vertices of the first `n` primitives together: where the
/// vertices of the next one begin.
pub open spec fn vertex_offset(primitives: Seq<ClippedPrimitive>, n: nat) -> nat
    decreases n,
{
    if n == 0 {
        0
    } else {
        vertex_offset(primitives, (n - 1) as nat) + vertex_count(primitives[n - 1].primitive)
    }
}

/// The draw command for the primitive `i`, if it is drawn.
///
/// It is not drawn if no pixel of its clip rectangle lies on the target,
/// or if it is a mesh whose texture has no bind group.
pub open spec fn command_for(
    primitives: Seq<ClippedPrimitive>,
    i: int,
    target: EntityId,
    width: u32,
    height: u32,
    bind_groups: Seq<EguiTextureId>,
) -> Option<DrawCommand> {
    match Scissor::of(primitives[i].clip_rect, width, height) {
        None => None,
        Some(scissor) => match primitives[i].primitive {
            Primitive::Callback => Some(
                DrawCommand { primitive: i as usize, scissor, draw: Draw::Callback },
            ),
            Primitive::Mesh { texture_id, vertex_count, index_count } => {
                let texture = EguiTextureId::spec_from_target(target, texture_id);
                if bind_groups.contains(texture) {
                    Some(
                        DrawCommand {
                            primitive: i as usize,
                            scissor,
                            draw: Draw::Mesh {
                                texture,
                                first_index: index_offset(primitives, i as nat) as u32,
                                index_count,
                                base_vertex: vertex_offset(primitives, i as nat) as u32,
                            },
                        },
                    )
                } else {
                    None
                }
            },
        },
    }
}

/// The draw commands for the first `n` primitives, in the order of the
/// primitives.
pub open spec fn commands_for(
    primitives: Seq<ClippedPrimitive>,
    n: nat,
    target: EntityId,
    width: u32,
    height: u32,
    bind_groups: Seq<EguiTextureId>,
) -> Seq<DrawCommand>
    decreases n,
{
    if n == 0 {
        Seq::empty()
    } else {
        let before = commands_for(primitives, (n - 1) as nat, target, width, height, bind_groups);
        match command_for(primitives, n - 1, target, width, height, bind_groups) {
            Some(command) => before.push(command),
            None => before,
        }
    }
}

/// Whether the indices and vertices of all primitives can be numbered with
/// 32 bits.
pub open spec fn buffers_fit(primitives: Seq<ClippedPrimitive>) -> bool {
    &&& index_offset(primitives, primitives.len()) <= u32::MAX
    &&& vertex_offset(primitives, primitives.len()) <= u32::MAX
}

/// Computes [`buffers_fit`].
pub fn check_buffers_fit(primitives: &Vec<ClippedPrimitive>) -> (ok: bool)
    ensures
        ok == buffers_fit(primitives@),
{
    let mut indices: u32 = 0;
    let mut vertices: u32 = 0;
    let mut i: usize = 0;
    while i < primitives.len()
        invariant
            i <= primitives.len(),
            indices == index_offset(primitives@, i as nat),
            vertices == vertex_offset(primitives@, i as nat),
        decreases primitives.len() - i,
    {
        match primitives[i].primitive {
            Primitive::Mesh { texture_id: _, vertex_count, index_count } => {
                let next_indices = indices.checked_add(index_count);
                let next_vertices = vertices.checked_add(vertex_count);
                match (next_indices, next_vertices) {
                    (Some(a), Some(b)) => {
                        indices = a;
                        vertices = b;
                    },
                    _ => {
                        proof {
                            lemma_offsets_grow(
                                primitives@,
                                (i + 1) as nat,
                                primitives@.len(),
                            );
                        }
                        return false;
                    },
                }
            },
            Primitive::Callback => {},
        }
        i += 1;
    }
    true
}

/// Whether `texture` is listed in `bind_groups`.
fn has_bind_group(bind_groups: &Vec<EguiTextureId>, texture: EguiTextureId) -> (found: bool)
    ensures
        found == bind_groups@.contains(texture),
{
    let mut i: usize = 0;
    while i < bind_groups.len()
        invariant
            i <= bind_groups.len(),
            forall|j: int| 0 <= j < i ==> bind_groups[j] != texture,
        decreases bind_groups.len() - i,
    {
        if bind_groups[i] == texture {
            return true;
        }
        i += 1;
    }
    false
}

/// Whether a node can draw.
#[derive(Clone, Copy, Debug, PartialEq, Eq, Structural)]
pub enum NodeState {
    /// The pipeline of the target is not there yet. The node does nothing in
    /// this frame and tries again in the next.
    Loading,
    /// The pipeline is there.
    Ready,
}

/// The render node of one render target.
#[derive(Clone, Copy, Debug, PartialEq, Eq, Structural)]
pub struct EguiNode {
    /// The render target that the node paints.
    pub render_target_main_entity: EntityId,
    /// The kind of the render target.
    pub render_target_type: EguiRenderTargetType,
}

impl EguiNode {
    /// The node of the render target `render_target_main_entity`.
    pub fn new(render_target_main_entity: EntityId, render_target_type: EguiRenderTargetType) -> (node:
        EguiNode)
        ensures
            node.render_target_main_entity == render_target_main_entity,
            node.render_target_type == render_target_type,
    {
        EguiNode { render_target_main_entity, render_target_type }
    }

    /// The state of the node: it is ready once a pipeline was queued for
    /// its target and that pipeline is compiled.
    pub fn state(pipeline_queued: bool, pipeline_compiled: bool) -> (state: NodeState)
        ensures
            state == (if pipeline_queued && pipeline_compiled {
                NodeState::Ready
            } else {
                NodeState::Loading
            }),
    {
        if pipeline_queued && pipeline_compiled {
            NodeState::Ready
        } else {
            NodeState::Loading
        }
    }

    /// What the pass of this node does with the pixels on its target when
    /// it begins: a window keeps them, so that the UI is painted over the
    /// frame; an image does what its marker says. Each pass does this once,
    /// before its first draw command.
    ///
    /// Returns `None` for a node of an image whose marker is gone: such a
    /// node has no pass in this frame.
    pub fn load_op(&self, render_to_image: Option<EguiRenderToImage>) -> (op: Option<LoadOp>)
        ensures
            op == (match self.render_target_type {
                EguiRenderTargetType::Window => Some(LoadOp::Load),
                EguiRenderTargetType::Image => match render_to_image {
                    Some(marker) => Some(marker.load_op),
                    None => None,
                },
            }),
    {
        match self.render_target_type {
            EguiRenderTargetType::Window => Some(LoadOp::Load),
            EguiRenderTargetType::Image => match render_to_image {
                Some(marker) => Some(marker.load_op),
                None => None,
            },
        }
    }

    /// The draw commands of one frame.
    ///
    /// While the node is loading there are none. Once it is ready, each
    /// primitive is drawn in its turn, under the scissor rectangle that its
    /// clip rectangle gives on a target of `width` by `height` pixels. A
    /// primitive that has no pixel on the target is passed over, and so is
    /// a mesh whose texture is not in `bind_groups`.
    pub fn run(
        &self,
        state: NodeState,
        primitives: &Vec<ClippedPrimitive>,
        width: u32,
        height: u32,
        bind_groups: &Vec<EguiTextureId>,
    ) -> (commands: Vec<DrawCommand>)
        requires
            buffers_fit(primitives@),
        ensures
            commands@ == (match state {
                NodeState::Loading => Seq::empty(),
                NodeState::Ready => commands_for(
                    primitives@,
                    primitives.len() as nat,
                    self.render_target_main_entity,
                    width,
                    height,
                    bind_groups@,
                ),
            }),
    {
        let mut commands: Vec<DrawCommand> = Vec::new();
        match state {
            NodeState::Loading => {
                return commands;
            },
            NodeState::Ready => {},
        }
        let target = self.render_target_main_entity;
        let mut first_index: u32 = 0;
        let mut base_vertex: u32 = 0;
        let mut i: usize = 0;
        while i < primitives.len()
            invariant
                i <= primitives.len(),
                buffers_fit(primitives@),
                target == self.render_target_main_entity,
                first_index == index_offset(primitives@, i as nat),
                base_vertex == vertex_offset(primitives@, i as nat),
                commands@ == commands_for(
                    primitives@,
                    i as nat,
                    target,
                    width,
                    height,
                    bind_groups@,
                ),
            decreases primitives.len() - i,
        {
            let ClippedPrimitive { clip_rect, primitive } = primitives[i];
            proof {
                lemma_offsets_grow(primitives@, (i + 1) as nat, primitives@.len());
            }
            match primitive {
                Primitive::Callback => {
                    match Scissor::for_clip(clip_rect, width, height) {
                        Some(scissor) => {
                            commands.push(DrawCommand { primitive: i, scissor, draw: Draw::Callback });
                        },
                        None => {},
                    }
                },
                Primitive::Mesh { texture_id, vertex_count, index_count } => {
                    let texture = EguiTextureId::from_target(target, texture_id);
                    match Scissor::for_clip(clip_rect, width, height) {
                        Some(scissor) => {
                            if has_bind_group(bind_groups, texture) {
                                commands.push(
                                    DrawCommand {
                                        primitive: i,
                                        scissor,
                                        draw: Draw::Mesh {
                                            texture,
                                            first_index,
                                            index_count,
                                            base_vertex,
                                        },
                                    },
                                );
                            }
                        },
                        None => {},
                    }
                    first_index = first_index + index_count;
                    base_vertex = base_vertex + vertex_count;
                },
            }
            i += 1;
        }
        commands
    }
}

/// The offsets never go down as primitives are added.
pub proof fn lemma_offsets_grow(primitives: Seq<ClippedPrimitive>, n: nat, m: nat)
    requires
        n <= m,
    ensures
        index_offset(primitives, n) <= index_offset(primitives, m),
        vertex_offset(primitives, n) <= vertex_offset(primitives, m),
    decreases m,
{
    if n < m {
        lemma_offsets_grow(primitives, n, (m - 1) as nat);
    }
}

/// The commands keep the order of the primitives: each command draws a
/// primitive of the frame, a later command draws a later primitive, and
/// every command is the one that its primitive calls for.
pub proof fn lemma_commands_in_order(
    primitives: Seq<ClippedPrimitive>,
    n: nat,
    target: EntityId,
    width: u32,
    height: u32,
    bind_groups: Seq<EguiTextureId>,
)
    requires
        n <= primitives.len(),
        n <= usize::MAX,
    ensures
        ({
            let commands = commands_for(primitives, n, target, width, height, bind_groups);
            &&& commands.len() <= n
            &&& forall|k: int|
                0 <= k < commands.len() ==> (#[trigger] commands[k]).primitive < n && command_for(
                    primitives,
                    commands[k].primitive as int,
                    target,
                    width,
                    height,
                    bind_groups,
                ) == Some(commands[k])
            &&& forall|j: int, k: int|
                0 <= j < k < commands.len() ==> (#[trigger] commands[j]).primitive < (
                #[trigger] commands[k]).primitive
            &&& forall|i: int|
                0 <= i < n && command_for(primitives, i, target, width, height, bind_groups)
                    is Some ==> commands.contains(
                    #[trigger] command_for(primitives, i, target, width, height, bind_groups).unwrap(),
                )
        }),
    decreases n,
{
    if n > 0 {
        lemma_commands_in_order(primitives, (n - 1) as nat, target, width, height, bind_groups);
        let before = commands_for(primitives, (n - 1) as nat, target, width, height, bind_groups);
        let commands = commands_for(primitives, n, target, width, height, bind_groups);
        assert forall|i: int|
            0 <= i < n && command_for(primitives, i, target, width, height, bind_groups)
                is Some implies commands.contains(
            #[trigger] command_for(primitives, i, target, width, height, bind_groups).unwrap(),
        ) by {
            let c = command_for(primitives, i, target, width, height, bind_groups).unwrap();
            if i < n - 1 {
                assert(before.contains(c));
                let k = choose|k: int| 0 <= k < before.len() && before[k] == c;
                assert(commands[k] == c);
            } else {
                assert(commands[commands.len() - 1] == c);
            }
        }
    }
}

/// A scissor rectangle covers exactly the pixels of the clip rectangle
/// that lie on the target, and there is none exactly if there is no such
/// pixel.
pub proof fn lemma_scissor_is_clip_on_target(clip: PixelRect, width: u32, height: u32)
    ensures
        match Scissor::of(clip, width, height) {
            Some(scissor) => {
                &&& scissor.width > 0
                &&& scissor.height > 0
                &&& scissor.x + scissor.width <= width
                &&& scissor.y + scissor.height <= height
                &&& forall|x: int, y: int|
                    scissor.contains(x, y) <==> (clip.contains(x, y) && 0 <= x < width && 0 <= y
                        < height)
            },
            None => forall|x: int, y: int|
                !(clip.contains(x, y) && 0 <= x < width && 0 <= y < height),
        },
{
}

} // verus!
