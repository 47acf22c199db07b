//! The render targets that the UI is painted on, each with the state of its
//! own UI context.

use vstd::prelude::*;
use crate::ids::{EguiRenderTargetType, EntityId, ImageId, TextureId};
use crate::input::{ime_event_for, EguiContext, EguiInput, InputEvent};
use crate::output::EguiRenderOutput;
use crate::egui_node::ClippedPrimitive;
use crate::managed_textures::ImageDelta;
use crate::user_textures::EguiUserTextures;

verus! {

/// What a render pass does with the pixels that are on its target when it
/// begins.
#[derive(Clone, Copy, Debug, PartialEq, Eq, Structural)]
pub enum LoadOp {
    /// Clears the target first.
    Clear,
    /// Keeps the pixels and paints over them.
    Load,
}

/// Marks a render target whose UI is painted onto an image.
#[derive(Clone, Copy, Debug, PartialEq, Eq, Structural)]
pub struct EguiRenderToImage {
    /// The image to paint onto.
    pub handle: ImageId,
    /// What the pass does with the image's pixels when it begins.
    pub load_op: LoadOp,
}

impl EguiRenderToImage {
    /// A target that paints onto `handle` and clears it first.
    pub fn new(handle: ImageId) -> (r: Self)
        ensures
            r == (EguiRenderToImage { handle, load_op: LoadOp::Clear }),
    {
        EguiRenderToImage { handle, load_op: LoadOp::Clear }
    }
}

/// A render target with the state that the bridge keeps for it.
#[derive(Debug)]
pub struct RenderTarget {
    /// The entity of the target.
    pub render_target: EntityId,
    /// Whether the target is the primary window.
    pub primary: bool,
    /// The state of the target's UI context.
    pub ctx: EguiContext,
    /// Whether host code drives the passes of this target itself.
    pub run_manually: bool,
    /// Whether the UI takes the pointer from what lies under it.
    pub capture_pointer_input: bool,
    /// The events that wait for the next pass.
    pub egui_input: EguiInput,
    /// What the last pass left to paint.
    pub render_output: EguiRenderOutput,
    /// The image that the target paints onto; `None` for a window.
    pub render_to_image: Option<EguiRenderToImage>,
}

impl RenderTarget {
    /// The kind of the target.
    pub open spec fn kind(&self) -> EguiRenderTargetType {
        if self.render_to_image is Some {
            EguiRenderTargetType::Image
        } else {
            EguiRenderTargetType::Window
        }
    }

    /// Whether this is the state that a target starts with: a fresh
    /// context, nothing waiting, nothing to paint, passes run by the
    /// bridge, the pointer captured.
    pub open spec fn is_fresh(&self) -> bool {
        &&& self.ctx == (EguiContext { pointer_touch_id: None, has_sent_ime_enabled: false })
        &&& !self.run_manually
        &&& self.capture_pointer_input
        &&& self.egui_input.events@ == Seq::<InputEvent>::empty()
        &&& self.render_output.paint_jobs@ == Seq::<ClippedPrimitive>::empty()
        &&& self.render_output.textures_delta.set@ == Seq::<(TextureId, ImageDelta)>::empty()
        &&& self.render_output.textures_delta.free@ == Seq::<TextureId>::empty()
    }

    /// The state that a target starts with.
    pub fn new(render_target: EntityId, primary: bool, render_to_image: Option<EguiRenderToImage>) -> (r:
        Self)
        ensures
            r.render_target == render_target,
            r.primary == primary,
            r.render_to_image == render_to_image,
            r.is_fresh(),
    {
        RenderTarget {
            render_target,
            primary,
            ctx: EguiContext::new(),
            run_manually: false,
            capture_pointer_input: true,
            egui_input: EguiInput::new(),
            render_output: EguiRenderOutput::new(),
            render_to_image,
        }
    }
}

/// The entities of `targets`, in their order.
pub open spec fn entities_of(targets: Seq<RenderTarget>) -> Seq<EntityId> {
    Seq::new(targets.len(), |i: int| targets[i].render_target)
}

/// The render targets and the textures that host code registered.
pub struct EguiContexts {
    targets: Vec<RenderTarget>,
    user_textures: EguiUserTextures,
}

impl EguiContexts {
    /// The targets, in the order in which they were set up.
    pub closed spec fn targets(&self) -> Seq<RenderTarget> {
        self.targets@
    }

    /// The registry of user textures.
    pub closed spec fn textures(&self) -> EguiUserTextures {
        self.user_textures
    }

    /// Each entity has one state, and so one UI context.
    pub open spec fn wf(&self) -> bool {
        &&& entities_of(self.targets()).no_duplicates()
        &&& self.textures().wf()
    }

    /// Whether the primary window stands at position `i`: it is the first
    /// target that is marked as primary.
    pub open spec fn is_primary_at(&self, i: int) -> bool {
        &&& 0 <= i < self.targets().len()
        &&& self.targets()[i].primary
        &&& forall|j: int| 0 <= j < i ==> !self.targets()[j].primary
    }

    /// Whether the state of `entity` stands at position `i`.
    pub open spec fn is_at(&self, entity: EntityId, i: int) -> bool {
        0 <= i < self.targets().len() && self.targets()[i].render_target == entity
    }

    /// Whether `entity` is a render target.
    pub open spec fn has(&self, entity: EntityId) -> bool {
        entities_of(self.targets()).contains(entity)
    }

    /// No targets and no textures.
    pub fn new() -> (r: Self)
        ensures
            r.wf(),
            r.targets() == Seq::<RenderTarget>::empty(),
            r.textures()@ == crate::user_textures::UserTexturesState::empty(),
    {
        EguiContexts { targets: Vec::new(), user_textures: EguiUserTextures::new() }
    }

    /// The number of render targets.
    pub fn len(&self) -> (n: usize)
        ensures
            n == self.targets().len(),
    {
        self.targets.len()
    }

    /// Where the state of `entity` stands, if `entity` is a render target.
    pub fn position(&self, entity: EntityId) -> (at: Option<usize>)
        ensures
            match at {
                Some(i) => {
                    &&& self.is_at(entity, i as int)
                    &&& forall|j: int| 0 <= j < i ==> !self.is_at(entity, j)
                },
                None => !self.has(entity),
            },
    {
        let mut i: usize = 0;
        while i < self.targets.len()
            invariant
                i <= self.targets.len(),
                forall|j: int| 0 <= j < i ==> self.targets[j].render_target != entity,
            decreases self.targets.len() - i,
        {
            if self.targets[i].render_target == entity {
                return Some(i);
            }
            i += 1;
        }
        proof {
            assert forall|j: int| 0 <= j < entities_of(self.targets()).len() implies entities_of(
                self.targets(),
            )[j] != entity by {}
        }
        None
    }

    /// Where the state of the primary window stands: the first target that
    /// is marked as primary, if there is one.
    pub fn primary_position(&self) -> (at: Option<usize>)
        ensures
            match at {
                Some(i) => {
                    &&& i < self.targets().len()
                    &&& self.targets()[i as int].primary
                    &&& forall|j: int| 0 <= j < i ==> !self.targets()[j].primary
                },
                None => forall|j: int| 0 <= j < self.targets().len() ==> !self.targets()[j].primary,
            },
    {
        let mut i: usize = 0;
        while i < self.targets.len()
            invariant
                i <= self.targets.len(),
                forall|j: int| 0 <= j < i ==> !self.targets[j].primary,
            decreases self.targets.len() - i,
        {
            if self.targets[i].primary {
                return Some(i);
            }
            i += 1;
        }
        None
    }

    /// The state of the target at position `at`.
    pub fn target(&self, at: usize) -> (target: &RenderTarget)
        requires
            at < self.targets().len(),
        ensures
            *target == self.targets()[at as int],
    {
        &self.targets[at]
    }

    /// The UI context of the target at position `at`, to change it.
    /// Nothing else changes.
    pub fn ctx_at_mut(&mut self, at: usize) -> (ctx: &mut EguiContext)
        requires
            at < old(self).targets().len(),
        ensures
            *ctx == old(self).targets()[at as int].ctx,
            final(self).targets() == with_ctx(old(self).targets(), at as int, *final(ctx)),
            final(self).textures() == old(self).textures(),
            old(self).wf() ==> final(self).wf(),
    {
        proof {
            let before = self.targets@;
            assert forall|changed: RenderTarget|
                changed.render_target == before[at as int].render_target implies entities_of(
                #[trigger] before.update(at as int, changed)) == entities_of(before) by {
                assert(entities_of(before.update(at as int, changed)) =~= entities_of(before));
            }
        }
        &mut self.targets[at].ctx
    }

    /// The input buffer of the target at position `at`, to change it.
    /// Nothing else changes.
    pub fn egui_input_at_mut(&mut self, at: usize) -> (input: &mut EguiInput)
        requires
            at < old(self).targets().len(),
        ensures
            *input == old(self).targets()[at as int].egui_input,
            final(self).targets() == with_input(old(self).targets(), at as int, *final(input)),
            final(self).textures() == old(self).textures(),
            old(self).wf() ==> final(self).wf(),
    {
        proof {
            let before = self.targets@;
            assert forall|changed: RenderTarget|
                changed.render_target == before[at as int].render_target implies entities_of(
                #[trigger] before.update(at as int, changed)) == entities_of(before) by {
                assert(entities_of(before.update(at as int, changed)) =~= entities_of(before));
            }
        }
        &mut self.targets[at].egui_input
    }

    /// The render output of the target at position `at`, to change it.
    /// Nothing else changes.
    pub fn render_output_at_mut(&mut self, at: usize) -> (output: &mut EguiRenderOutput)
        requires
            at < old(self).targets().len(),
        ensures
            *output == old(self).targets()[at as int].render_output,
            final(self).targets() == with_output(old(self).targets(), at as int, *final(output)),
            final(self).textures() == old(self).textures(),
            old(self).wf() ==> final(self).wf(),
    {
        proof {
            let before = self.targets@;
            assert forall|changed: RenderTarget|
                changed.render_target == before[at as int].render_target implies entities_of(
                #[trigger] before.update(at as int, changed)) == entities_of(before) by {
                assert(entities_of(before.update(at as int, changed)) =~= entities_of(before));
            }
        }
        &mut self.targets[at].render_output
    }

    /// Sets the two switches of the target at position `at`: whether host
    /// code drives its passes, and whether the UI captures the pointer.
    /// Nothing else changes.
    pub fn set_switches(&mut self, at: usize, run_manually: bool, capture_pointer_input: bool)
        requires
            at < old(self).targets().len(),
        ensures
            final(self).targets() == old(self).targets().update(
                at as int,
                (RenderTarget {
                    run_manually,
                    capture_pointer_input,
                    ..old(self).targets()[at as int]
                }),
            ),
            final(self).textures() == old(self).textures(),
            old(self).wf() ==> final(self).wf(),
    {
        let ghost before = self.targets@;
        let target = &mut self.targets[at];
        target.run_manually = run_manually;
        target.capture_pointer_input = capture_pointer_input;
        proof {
            assert(self.targets@ =~= before.update(
                at as int,
                (RenderTarget { run_manually, capture_pointer_input, ..before[at as int] }),
            ));
            assert(entities_of(self.targets@) =~= entities_of(before));
        }
    }

    /// The UI context of the primary window, to change it; `None` if no
    /// primary window was set up yet.
    pub fn try_ctx_mut(&mut self) -> (found: Option<&mut EguiContext>)
        ensures
            old(self).wf() ==> final(self).wf(),
            final(self).textures() == old(self).textures(),
            match found {
                Some(ctx) => exists|i: int|
                    {
                        &&& old(self).is_primary_at(i)
                        &&& *ctx == old(self).targets()[i].ctx
                        &&& final(self).targets() == with_ctx(old(self).targets(), i, *final(ctx))
                    },
                None => {
                    &&& forall|i: int| !old(self).is_primary_at(i)
                    &&& final(self).targets() == old(self).targets()
                },
            },
    {
        match self.primary_position() {
            Some(at) => {
                proof {
                    assert(self.is_primary_at(at as int));
                }
                Some(self.ctx_at_mut(at))
            },
            None => None,
        }
    }

    /// The UI context of the primary window, to change it.
    ///
    /// The primary window has to be set up: asking before that is a fault
    /// in the order of the host's systems.
    pub fn ctx_mut(&mut self) -> (ctx: &mut EguiContext)
        requires
            exists|i: int| old(self).is_primary_at(i),
        ensures
            old(self).wf() ==> final(self).wf(),
            final(self).textures() == old(self).textures(),
            exists|i: int|
                {
                    &&& old(self).is_primary_at(i)
                    &&& *ctx == old(self).targets()[i].ctx
                    &&& final(self).targets() == with_ctx(old(self).targets(), i, *final(ctx))
                },
    {
        let at = self.primary_position();
        proof {
            let i = choose|i: int| self.is_primary_at(i);
            assert(self.targets()[i].primary);
            assert(self.is_primary_at(at.unwrap() as int));
        }
        self.ctx_at_mut(at.unwrap())
    }

    /// The UI context of `entity`, to change it; `None` if `entity` was not
    /// set up as a render target.
    pub fn try_ctx_for_entity_mut(&mut self, entity: EntityId) -> (found: Option<&mut EguiContext>)
        ensures
            old(self).wf() ==> final(self).wf(),
            final(self).textures() == old(self).textures(),
            match found {
                Some(ctx) => exists|i: int|
                    {
                        &&& old(self).is_at(entity, i)
                        &&& *ctx == old(self).targets()[i].ctx
                        &&& final(self).targets() == with_ctx(old(self).targets(), i, *final(ctx))
                    },
                None => {
                    &&& !old(self).has(entity)
                    &&& final(self).targets() == old(self).targets()
                },
            },
    {
        match self.position(entity) {
            Some(at) => {
                proof {
                    assert(self.is_at(entity, at as int));
                }
                Some(self.ctx_at_mut(at))
            },
            None => None,
        }
    }

    /// The UI context of `entity`, to change it.
    ///
    /// `entity` has to be set up as a render target: asking before that is
    /// a fault in the order of the host's systems.
    pub fn ctx_for_entity_mut(&mut self, entity: EntityId) -> (ctx: &mut EguiContext)
        requires
            old(self).has(entity),
        ensures
            old(self).wf() ==> final(self).wf(),
            final(self).textures() == old(self).textures(),
            exists|i: int|
                {
                    &&& old(self).is_at(entity, i)
                    &&& *ctx == old(self).targets()[i].ctx
                    &&& final(self).targets() == with_ctx(old(self).targets(), i, *final(ctx))
                },
    {
        let at = self.position(entity);
        proof {
            assert(self.is_at(entity, at.unwrap() as int));
        }
        self.ctx_at_mut(at.unwrap())
    }

    /// The UI context of the primary window; `None` if no primary window
    /// was set up yet.
    pub fn try_ctx(&self) -> (found: Option<&EguiContext>)
        ensures
            match found {
                Some(ctx) => exists|i: int|
                    self.is_primary_at(i) && *ctx == self.targets()[i].ctx,
                None => forall|i: int| !self.is_primary_at(i),
            },
    {
        match self.primary_position() {
            Some(at) => {
                proof {
                    assert(self.is_primary_at(at as int));
                }
                Some(&self.targets[at].ctx)
            },
            None => None,
        }
    }

    /// The UI context of the primary window, which has to be set up.
    pub fn ctx(&self) -> (ctx: &EguiContext)
        requires
            exists|i: int| self.is_primary_at(i),
        ensures
            exists|i: int| self.is_primary_at(i) && *ctx == self.targets()[i].ctx,
    {
        let at = self.primary_position();
        proof {
            let i = choose|i: int| self.is_primary_at(i);
            assert(self.targets()[i].primary);
            assert(self.is_primary_at(at.unwrap() as int));
        }
        &self.targets[at.unwrap()].ctx
    }

    /// The UI context of `entity`; `None` if `entity` was not set up as a
    /// render target.
    pub fn try_ctx_for_entity(&self, entity: EntityId) -> (found: Option<&EguiContext>)
        ensures
            match found {
                Some(ctx) => exists|i: int|
                    self.is_at(entity, i) && *ctx == self.targets()[i].ctx,
                None => !self.has(entity),
            },
    {
        match self.position(entity) {
            Some(at) => {
                proof {
                    assert(self.is_at(entity, at as int));
                }
                Some(&self.targets[at].ctx)
            },
            None => None,
        }
    }

    /// The UI context of `entity`, which has to be set up as a render
    /// target.
    pub fn ctx_for_entity(&self, entity: EntityId) -> (ctx: &EguiContext)
        requires
            self.has(entity),
        ensures
            exists|i: int| self.is_at(entity, i) && *ctx == self.targets()[i].ctx,
    {
        let at = self.position(entity);
        proof {
            assert(self.is_at(entity, at.unwrap() as int));
        }
        &self.targets[at.unwrap()].ctx
    }

    /// The registry of user textures.
    pub fn user_textures(&self) -> (textures: &EguiUserTextures)
        ensures
            *textures == self.textures(),
    {
        &self.user_textures
    }

    /// Registers `image` as a user texture and returns its id; see
    /// [`EguiUserTextures::add_image`].
    pub fn add_image(&mut self, image: ImageId) -> (id: TextureId)
        requires
            old(self).wf(),
            old(self).textures()@.can_add(image),
        ensures
            final(self).wf(),
            final(self).targets() == old(self).targets(),
            final(self).textures()@ == old(self).textures()@.add_image(image),
            id == TextureId::User(old(self).textures()@.id_for(image)),
    {
        self.user_textures.add_image(image)
    }

    /// Removes `image` from the user textures and returns the id it had;
    /// see [`EguiUserTextures::remove_image`].
    pub fn remove_image(&mut self, image: ImageId) -> (id: Option<TextureId>)
        requires
            old(self).wf(),
        ensures
            final(self).wf(),
            final(self).targets() == old(self).targets(),
            final(self).textures()@ == old(self).textures()@.remove_image(image),
            id == old(self).textures()@.image_id(image),
    {
        self.user_textures.remove_image(image)
    }

    /// The id of the user texture `image`, if it is registered.
    pub fn image_id(&self, image: ImageId) -> (id: Option<TextureId>)
        requires
            self.wf(),
        ensures
            id == self.textures()@.image_id(image),
    {
        self.user_textures.image_id(image)
    }

    /// Sets a state up for `entity` unless it has one.
    fn setup(&mut self, entity: EntityId, primary: bool, render_to_image: Option<EguiRenderToImage>)
        requires
            old(self).wf(),
        ensures
            final(self).wf(),
            final(self).textures() == old(self).textures(),
            old(self).has(entity) ==> final(self).targets() == old(self).targets(),
            !old(self).has(entity) ==> {
                &&& final(self).targets().len() == old(self).targets().len() + 1
                &&& final(self).targets().drop_last() == old(self).targets()
                &&& final(self).targets().last().render_target == entity
                &&& final(self).targets().last().primary == primary
                &&& final(self).targets().last().render_to_image == render_to_image
                &&& final(self).targets().last().is_fresh()
            },
    {
        match self.position(entity) {
            Some(at) => {
                proof {
                    assert(entities_of(self.targets())[at as int] == entity);
                }
            },
            None => {
                self.targets.push(RenderTarget::new(entity, primary, render_to_image));
                proof {
                    let before = entities_of(old(self).targets());
                    let after = entities_of(self.targets());
                    assert(after =~= before.push(entity));
                    assert(self.targets().drop_last() =~= old(self).targets());
                    assert forall|a: int, b: int|
                        0 <= a < after.len() && 0 <= b < after.len() && a != b implies after[a]
                        != after[b] by {
                        if a < before.len() && b < before.len() {
                            assert(before[a] != before[b]);
                        } else if a < before.len() {
                            assert(before.contains(before[a]));
                        } else {
                            assert(before.contains(before[b]));
                        }
                    }
                }
            },
        }
    }

    /// Forgets the render target `entity` with its state. Returns whether
    /// it was a render target. The other targets keep their order.
    pub fn remove(&mut self, entity: EntityId) -> (existed: bool)
        requires
            old(self).wf(),
        ensures
            final(self).wf(),
            final(self).textures() == old(self).textures(),
            existed == old(self).has(entity),
            !final(self).has(entity),
            !existed ==> final(self).targets() == old(self).targets(),
            existed ==> exists|i: int|
                old(self).is_at(entity, i) && final(self).targets() == old(self).targets().remove(i),
    {
        match self.position(entity) {
            None => false,
            Some(at) => {
                self.targets.remove(at);
                proof {
                    let before = entities_of(old(self).targets());
                    let after = entities_of(self.targets());
                    assert(after =~= before.remove(at as int));
                    assert forall|a: int, b: int|
                        0 <= a < after.len() && 0 <= b < after.len() && a != b implies after[a]
                        != after[b] by {
                        let a0 = if a < at { a } else { a + 1 };
                        let b0 = if b < at { b } else { b + 1 };
                        assert(before[a0] != before[b0]);
                    }
                    assert forall|j: int| 0 <= j < after.len() implies after[j] != entity by {
                        let j0 = if j < at { j } else { j + 1 };
                        assert(before[j0] != before[at as int]);
                    }
                    assert(before[at as int] == entity);
                    assert(old(self).is_at(entity, at as int));
                }
                true
            },
        }
    }

    /// Tells the toolkit that text composition is on for the target at
    /// position `at`, unless it was told already; see
    /// [`EguiContext::ime_event_enable`].
    pub fn ime_event_enable(&mut self, at: usize)
        requires
            at < old(self).targets().len(),
        ensures
            old(self).wf() ==> final(self).wf(),
            final(self).textures() == old(self).textures(),
            final(self).targets().len() == old(self).targets().len(),
            forall|j: int|
                0 <= j < old(self).targets().len() && j != at ==> final(self).targets()[j] == old(
                    self,
                ).targets()[j],
            after_ime_request(old(self).targets()[at as int], final(self).targets()[at as int], true),
    {
        let ghost before = self.targets@;
        let target = &mut self.targets[at];
        target.ctx.ime_event_enable(&mut target.egui_input);
        proof {
            assert(entities_of(self.targets@) =~= entities_of(before));
        }
    }

    /// Tells the toolkit that text composition is off for the target at
    /// position `at`, unless it is off as far as the toolkit knows; see
    /// [`EguiContext::ime_event_disable`].
    pub fn ime_event_disable(&mut self, at: usize)
        requires
            at < old(self).targets().len(),
        ensures
            old(self).wf() ==> final(self).wf(),
            final(self).textures() == old(self).textures(),
            final(self).targets().len() == old(self).targets().len(),
            forall|j: int|
                0 <= j < old(self).targets().len() && j != at ==> final(self).targets()[j] == old(
                    self,
                ).targets()[j],
            after_ime_request(old(self).targets()[at as int], final(self).targets()[at as int], false),
    {
        let ghost before = self.targets@;
        let target = &mut self.targets[at];
        target.ctx.ime_event_disable(&mut target.egui_input);
        proof {
            assert(entities_of(self.targets@) =~= entities_of(before));
        }
    }
}

/// The targets with the input buffer of the one at position `at` replaced
/// by `input`, and nothing else changed.
pub open spec fn with_input(targets: Seq<RenderTarget>, at: int, input: EguiInput) -> Seq<RenderTarget> {
    targets.update(at, (RenderTarget { egui_input: input, ..targets[at] }))
}

/// The targets with the render output of the one at position `at` replaced
/// by `output`, and nothing else changed.
pub open spec fn with_output(targets: Seq<RenderTarget>, at: int, output: EguiRenderOutput) -> Seq<
    RenderTarget,
> {
    targets.update(at, (RenderTarget { render_output: output, ..targets[at] }))
}

/// A pointer of the host.
#[derive(Clone, Copy, Debug, PartialEq, Eq, Structural, Hash)]
pub enum PointerId {
    /// The mouse.
    Mouse,
    /// A finger on a touch screen.
    Touch(u64),
    /// A pointer that host code made.
    Custom(u128),
}

/// A pointer that lies over a window.
#[derive(Clone, Copy, Debug, PartialEq, Eq, Structural)]
pub struct PointerOnWindow {
    /// The pointer.
    pub pointer: PointerId,
    /// The window that it lies over.
    pub window: EntityId,
    /// Whether the toolkit says that the UI of that window wants the
    /// pointer: it lies over a widget, or a widget holds it.
    pub wants_pointer_input: bool,
}

/// Tells the host's picking that the UI of `entity` is what `pointer`
/// points at.
#[derive(Clone, Copy, Debug, PartialEq, Eq, Structural)]
pub struct PointerHit {
    /// The pointer.
    pub pointer: PointerId,
    /// The render target whose UI it hits.
    pub entity: EntityId,
}

/// Whether the UI takes the pointer `p`: its window is a render target that
/// captures pointers, and the UI wants this one.
pub open spec fn captures(targets: Seq<RenderTarget>, p: PointerOnWindow) -> bool {
    p.wants_pointer_input && exists|i: int|
        0 <= i < targets.len() && (#[trigger] targets[i]).render_target == p.window
            && targets[i].capture_pointer_input
}

/// The hits for the first `n` of `pointers`, in their order: one for each
/// pointer that the UI takes.
pub open spec fn pointer_hits(targets: Seq<RenderTarget>, pointers: Seq<PointerOnWindow>, n: nat) -> Seq<
    PointerHit,
>
    decreases n,
{
    if n == 0 {
        Seq::empty()
    } else {
        let before = pointer_hits(targets, pointers, (n - 1) as nat);
        if captures(targets, pointers[n - 1]) {
            before.push(PointerHit { pointer: pointers[n - 1].pointer, entity: pointers[n - 1].window })
        } else {
            before
        }
    }
}

/// Captures the pointers that lie over the UI: returns a hit for each of
/// `pointers` whose window is a render target that captures pointers and
/// whose UI wants the pointer, in the order of `pointers`.
pub fn capture_pointer_input(contexts: &EguiContexts, pointers: &Vec<PointerOnWindow>) -> (hits: Vec<
    PointerHit,
>)
    requires
        contexts.wf(),
    ensures
        hits@ == pointer_hits(contexts.targets(), pointers@, pointers.len() as nat),
{
    let mut hits: Vec<PointerHit> = Vec::new();
    let mut i: usize = 0;
    while i < pointers.len()
        invariant
            i <= pointers.len(),
            contexts.wf(),
            hits@ == pointer_hits(contexts.targets(), pointers@, i as nat),
        decreases pointers.len() - i,
    {
        let p = pointers[i];
        let captured = match contexts.position(p.window) {
            Some(at) => {
                let target = contexts.target(at);
                proof {
                    let targets = contexts.targets();
                    assert forall|j: int|
                        0 <= j < targets.len() && targets[j].render_target
                            == p.window implies j == at by {
                        assert(entities_of(targets)[j] == entities_of(targets)[at as int]);
                    }
                }
                target.capture_pointer_input && p.wants_pointer_input
            },
            None => {
                proof {
                    let targets = contexts.targets();
                    assert forall|j: int| 0 <= j < targets.len() implies targets[j].render_target
                        != p.window by {
                        assert(entities_of(targets)[j] == targets[j].render_target);
                    }
                }
                false
            },
        };
        if captured {
            hits.push(PointerHit { pointer: p.pointer, entity: p.window });
        }
        i += 1;
    }
    hits
}

/// The entities after a state was set up for each of the first `n` of
/// `created` that had none: those come after the entities from before, in
/// the order in which they are first named.
pub open spec fn entities_after_setup(entities: Seq<EntityId>, created: Seq<EntityId>, n: nat) -> Seq<
    EntityId,
>
    decreases n,
{
    if n == 0 {
        entities
    } else {
        let before = entities_after_setup(entities, created, (n - 1) as nat);
        if before.contains(created[n - 1]) {
            before
        } else {
            before.push(created[n - 1])
        }
    }
}

/// The entities of newly created windows.
pub open spec fn window_entities(new_windows: Seq<(EntityId, bool)>) -> Seq<EntityId> {
    Seq::new(new_windows.len(), |k: int| new_windows[k].0)
}

/// The entities of newly created targets that render to an image.
pub open spec fn image_entities(new_targets: Seq<(EntityId, EguiRenderToImage)>) -> Seq<EntityId> {
    Seq::new(new_targets.len(), |k: int| new_targets[k].0)
}

/// Gives each new window that has no state yet the state that a target
/// starts with. Each entry of `new_windows` is a window's entity and
/// whether the window is the primary one.
///
/// The targets from before are untouched and keep their places. A window
/// that is named twice is set up once, as its first entry says.
pub fn setup_new_windows_system(contexts: &mut EguiContexts, new_windows: &Vec<(EntityId, bool)>)
    requires
        old(contexts).wf(),
    ensures
        final(contexts).wf(),
        final(contexts).textures() == old(contexts).textures(),
        final(contexts).targets().len() >= old(contexts).targets().len(),
        final(contexts).targets().take(old(contexts).targets().len() as int) == old(
            contexts,
        ).targets(),
        entities_of(final(contexts).targets()) == entities_after_setup(
            entities_of(old(contexts).targets()),
            window_entities(new_windows@),
            new_windows.len() as nat,
        ),
        forall|j: int|
            old(contexts).targets().len() <= j < final(contexts).targets().len() ==> {
                let target = #[trigger] final(contexts).targets()[j];
                &&& target.is_fresh()
                &&& target.render_to_image is None
                &&& exists|k: int|
                    0 <= k < new_windows.len() && #[trigger] new_windows[k] == (
                        target.render_target,
                        target.primary,
                    ) && forall|e: int| 0 <= e < k ==> new_windows[e].0 != target.render_target
            },
{
    let ghost start = contexts.targets();
    let ghost created = window_entities(new_windows@);
    let mut i: usize = 0;
    proof {
        assert(contexts.targets().take(start.len() as int) =~= start);
    }
    while i < new_windows.len()
        invariant
            i <= new_windows.len(),
            start == old(contexts).targets(),
            created == window_entities(new_windows@),
            contexts.wf(),
            contexts.textures() == old(contexts).textures(),
            contexts.targets().len() >= start.len(),
            contexts.targets().take(start.len() as int) == start,
            entities_of(contexts.targets()) == entities_after_setup(
                entities_of(start),
                created,
                i as nat,
            ),
            forall|k: int| 0 <= k < i ==> contexts.has(#[trigger] new_windows[k].0),
            forall|j: int|
                start.len() <= j < contexts.targets().len() ==> {
                    let target = #[trigger] contexts.targets()[j];
                    &&& target.is_fresh()
                    &&& target.render_to_image is None
                    &&& exists|k: int|
                        0 <= k < i && #[trigger] new_windows[k] == (
                            target.render_target,
                            target.primary,
                        ) && forall|e: int| 0 <= e < k ==> new_windows[e].0 != target.render_target
                },
        decreases new_windows.len() - i,
    {
        let (entity, primary) = new_windows[i];
        let ghost before = contexts.targets();
        contexts.setup(entity, primary, None);
        proof {
            let after = contexts.targets();
            assert(created[i as int] == entity);
            if entities_of(before).contains(entity) {
                assert(after == before);
            } else {
                assert(after.drop_last() == before);
                assert(after =~= before.push(after.last()));
                assert(entities_of(after) =~= entities_of(before).push(entity));
                assert(after.take(start.len() as int) =~= before.take(start.len() as int));
                assert(new_windows[i as int] == (entity, primary));
                assert forall|e: int| 0 <= e < i implies new_windows[e].0 != entity by {
                    assert(contexts_has(before, new_windows[e].0));
                }
            }
            assert forall|k: int| 0 <= k < i + 1 implies contexts.has(
                #[trigger] new_windows[k].0,
            ) by {
                if k < i {
                    assert(contexts_has(before, new_windows[k].0));
                    let at = choose|at: int|
                        0 <= at < entities_of(before).len() && entities_of(before)[at]
                            == new_windows[k].0;
                    assert(entities_of(after)[at] == new_windows[k].0);
                } else {
                    if entities_of(before).contains(entity) {
                    } else {
                        assert(entities_of(after)[after.len() - 1] == entity);
                    }
                }
            }
            assert forall|j: int| start.len() <= j < after.len() implies ({
                let target = #[trigger] after[j];
                &&& target.is_fresh()
                &&& target.render_to_image is None
                &&& exists|k: int|
                    0 <= k < i + 1 && #[trigger] new_windows[k] == (
                        target.render_target,
                        target.primary,
                    ) && forall|e: int| 0 <= e < k ==> new_windows[e].0 != target.render_target
            }) by {
                if j < before.len() {
                    assert(after[j] == before[j]);
                    let target = before[j];
                    let k = choose|k: int|
                        0 <= k < i && #[trigger] new_windows[k] == (
                            target.render_target,
                            target.primary,
                        ) && forall|e: int| 0 <= e < k ==> new_windows[e].0 != target.render_target;
                    assert(0 <= k < i + 1 && new_windows[k] == (
                        target.render_target,
                        target.primary,
                    ));
                } else {
                    assert(after[j] == after.last());
                }
            }
        }
        i += 1;
    }
}

/// Gives each new target that renders to an image, and has no state yet,
/// the state that a target starts with. Each entry of `new_targets` is a
/// target's entity and the marker that names its image; a target without
/// that marker is not set up here.
///
/// The targets from before are untouched and keep their places. A target
/// that is named twice is set up once, as its first entry says.
pub fn setup_render_to_image_handles_system(contexts: &mut EguiContexts, new_targets: &Vec<(EntityId, EguiRenderToImage)>)
    requires
        old(contexts).wf(),
    ensures
        final(contexts).wf(),
        final(contexts).textures() == old(contexts).textures(),
        final(contexts).targets().len() >= old(contexts).targets().len(),
        final(contexts).targets().take(old(contexts).targets().len() as int) == old(
            contexts,
        ).targets(),
        entities_of(final(contexts).targets()) == entities_after_setup(
            entities_of(old(contexts).targets()),
            image_entities(new_targets@),
            new_targets.len() as nat,
        ),
        forall|j: int|
            old(contexts).targets().len() <= j < final(contexts).targets().len() ==> {
                let target = #[trigger] final(contexts).targets()[j];
                &&& target.is_fresh()
                &&& target.render_to_image is Some
                &&& !target.primary
                &&& exists|k: int|
                    0 <= k < new_targets.len() && #[trigger] new_targets[k] == (
                        target.render_target,
                        marker_of(target),
                    ) && forall|e: int| 0 <= e < k ==> new_targets[e].0 != target.render_target
            },
{
    let ghost start = contexts.targets();
    let ghost created = image_entities(new_targets@);
    let mut i: usize = 0;
    proof {
        assert(contexts.targets().take(start.len() as int) =~= start);
    }
    while i < new_targets.len()
        invariant
            i <= new_targets.len(),
            start == old(contexts).targets(),
            created == image_entities(new_targets@),
            contexts.wf(),
            contexts.textures() == old(contexts).textures(),
            contexts.targets().len() >= start.len(),
            contexts.targets().take(start.len() as int) == start,
            entities_of(contexts.targets()) == entities_after_setup(
                entities_of(start),
                created,
                i as nat,
            ),
            forall|k: int| 0 <= k < i ==> contexts.has(#[trigger] new_targets[k].0),
            forall|j: int|
                start.len() <= j < contexts.targets().len() ==> {
                    let target = #[trigger] contexts.targets()[j];
                    &&& target.is_fresh()
                    &&& target.render_to_image is Some
                    &&& !target.primary
                    &&& exists|k: int|
                        0 <= k < i && #[trigger] new_targets[k] == (
                            target.render_target,
                            marker_of(target),
                        ) && forall|e: int| 0 <= e < k ==> new_targets[e].0 != target.render_target
                },
        decreases new_targets.len() - i,
    {
        let (entity, marker) = new_targets[i];
        let ghost before = contexts.targets();
        contexts.setup(entity, false, Some(marker));
        proof {
            let after = contexts.targets();
            assert(created[i as int] == entity);
            if entities_of(before).contains(entity) {
                assert(after == before);
            } else {
                assert(after.drop_last() == before);
                assert(after =~= before.push(after.last()));
                assert(entities_of(after) =~= entities_of(before).push(entity));
                assert(after.take(start.len() as int) =~= before.take(start.len() as int));
                assert(new_targets[i as int] == (entity, marker));
                assert forall|e: int| 0 <= e < i implies new_targets[e].0 != entity by {
                    assert(contexts_has(before, new_targets[e].0));
                }
            }
            assert forall|k: int| 0 <= k < i + 1 implies contexts.has(
                #[trigger] new_targets[k].0,
            ) by {
                if k < i {
                    assert(contexts_has(before, new_targets[k].0));
                    let at = choose|at: int|
                        0 <= at < entities_of(before).len() && entities_of(before)[at]
                            == new_targets[k].0;
                    assert(entities_of(after)[at] == new_targets[k].0);
                } else {
                    if entities_of(before).contains(entity) {
                    } else {
                        assert(entities_of(after)[after.len() - 1] == entity);
                    }
                }
            }
            assert forall|j: int| start.len() <= j < after.len() implies ({
                let target = #[trigger] after[j];
                &&& target.is_fresh()
                &&& target.render_to_image is Some
                &&& !target.primary
                &&& exists|k: int|
                    0 <= k < i + 1 && #[trigger] new_targets[k] == (
                        target.render_target,
                        marker_of(target),
                    ) && forall|e: int| 0 <= e < k ==> new_targets[e].0 != target.render_target
            }) by {
                if j < before.len() {
                    assert(after[j] == before[j]);
                    let target = before[j];
                    let k = choose|k: int|
                        0 <= k < i && #[trigger] new_targets[k] == (
                            target.render_target,
                            marker_of(target),
                        ) && forall|e: int| 0 <= e < k ==> new_targets[e].0 != target.render_target;
                    assert(0 <= k < i + 1 && new_targets[k] == (
                        target.render_target,
                        marker_of(target),
                    ));
                } else {
                    assert(after[j] == after.last());
                }
            }
        }
        i += 1;
    }
}

/// The marker of a target that renders to an image.
pub open spec fn marker_of(target: RenderTarget) -> EguiRenderToImage {
    target.render_to_image.unwrap()
}

/// Whether `entity` is among `targets`.
pub open spec fn contexts_has(targets: Seq<RenderTarget>, entity: EntityId) -> bool {
    entities_of(targets).contains(entity)
}

/// How the state of a target changes when composition is asked to be on
/// (`enable`) or off: the flag follows the request, the event that
/// [`ime_event_for`] calls for goes to the end of the input buffer, and all
/// else stays.
pub open spec fn after_ime_request(before: RenderTarget, after: RenderTarget, enable: bool) -> bool {
    &&& after.render_target == before.render_target
    &&& after.primary == before.primary
    &&& after.run_manually == before.run_manually
    &&& after.capture_pointer_input == before.capture_pointer_input
    &&& after.render_output == before.render_output
    &&& after.render_to_image == before.render_to_image
    &&& after.ctx.pointer_touch_id == before.ctx.pointer_touch_id
    &&& after.ctx.has_sent_ime_enabled == enable
    &&& after.egui_input.events@ == (match ime_event_for(before.ctx.has_sent_ime_enabled, enable) {
        Some(event) => before.egui_input.events@.push(InputEvent::Ime(event)),
        None => before.egui_input.events@,
    })
}

impl Default for EguiContexts {
    /// No targets and no textures.
    fn default() -> (r: Self)
        ensures
            r.wf(),
            r.targets() == Seq::<RenderTarget>::empty(),
            r.textures()@ == crate::user_textures::UserTexturesState::empty(),
    {
        EguiContexts::new()
    }
}

/// The targets with the UI context of the one at position `at` replaced by
/// `ctx`, and nothing else changed.
pub open spec fn with_ctx(targets: Seq<RenderTarget>, at: int, ctx: EguiContext) -> Seq<RenderTarget> {
    targets.update(at, (RenderTarget { ctx, ..targets[at] }))
}

} // verus!
