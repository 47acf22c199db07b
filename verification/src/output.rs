//! What a pass of the UI toolkit leaves for the renderer: the primitives to
//! paint and the changes to the textures.

use vstd::prelude::*;
use crate::egui_node::ClippedPrimitive;
use crate::ids::TextureId;
use crate::managed_textures::ImageDelta;

verus! {

/// The changes to the textures since the last frame.
#[derive(Debug)]
pub struct TexturesDelta {
    /// New or changed textures, to apply before painting, in this order.
    pub set: Vec<(TextureId, ImageDelta)>,
    /// Textures to free after painting.
    pub free: Vec<TextureId>,
}

impl TexturesDelta {
    /// No changes.
    pub fn new() -> (r: Self)
        ensures
            r.set@ == Seq::<(TextureId, ImageDelta)>::empty(),
            r.free@ == Seq::<TextureId>::empty(),
    {
        TexturesDelta { set: Vec::new(), free: Vec::new() }
    }

    /// Whether there is nothing to set and nothing to free.
    pub fn is_empty(&self) -> (empty: bool)
        ensures
            empty == (self.set@.len() == 0 && self.free@.len() == 0),
    {
        self.set.len() == 0 && self.free.len() == 0
    }

    /// Adds the changes of a later pass after those that are here.
    pub fn append(&mut self, newer: TexturesDelta)
        ensures
            final(self).set@ == old(self).set@ + newer.set@,
            final(self).free@ == old(self).free@ + newer.free@,
    {
        let TexturesDelta { set, free } = newer;
        let mut set = set;
        let mut free = free;
        self.set.append(&mut set);
        self.free.append(&mut free);
    }

    /// Takes the textures to set out, in their order, and leaves none.
    pub fn take_set(&mut self) -> (set: Vec<(TextureId, ImageDelta)>)
        ensures
            set@ == old(self).set@,
            final(self).set@ == Seq::<(TextureId, ImageDelta)>::empty(),
            final(self).free@ == old(self).free@,
    {
        let mut set: Vec<(TextureId, ImageDelta)> = Vec::new();
        set.append(&mut self.set);
        proof {
            assert(set@ =~= old(self).set@);
        }
        set
    }

    /// Takes the textures to free out, in their order, and leaves none.
    pub fn take_free(&mut self) -> (free: Vec<TextureId>)
        ensures
            free@ == old(self).free@,
            final(self).free@ == Seq::<TextureId>::empty(),
            final(self).set@ == old(self).set@,
    {
        let mut free: Vec<TextureId> = Vec::new();
        free.append(&mut self.free);
        proof {
            assert(free@ =~= old(self).free@);
        }
        free
    }
}

impl Default for TexturesDelta {
    /// No changes.
    fn default() -> (r: Self)
        ensures
            r.set@ == Seq::<(TextureId, ImageDelta)>::empty(),
            r.free@ == Seq::<TextureId>::empty(),
    {
        TexturesDelta::new()
    }
}

/// The primitives and texture changes of a render target, as its last pass
/// left them.
#[derive(Debug)]
pub struct EguiRenderOutput {
    /// The primitives to paint, in painting order: a later one paints over
    /// an earlier one.
    pub paint_jobs: Vec<ClippedPrimitive>,
    /// The changes to the textures that were not applied yet.
    pub textures_delta: TexturesDelta,
}

impl EguiRenderOutput {
    /// Nothing to paint and no changes.
    pub fn new() -> (r: Self)
        ensures
            r.paint_jobs@ == Seq::<ClippedPrimitive>::empty(),
            r.textures_delta.set@ == Seq::<(TextureId, ImageDelta)>::empty(),
            r.textures_delta.free@ == Seq::<TextureId>::empty(),
    {
        EguiRenderOutput { paint_jobs: Vec::new(), textures_delta: TexturesDelta::new() }
    }

    /// Whether there is nothing to paint and no change to the textures.
    pub fn is_empty(&self) -> (empty: bool)
        ensures
            empty == (self.paint_jobs@.len() == 0 && self.textures_delta.set@.len() == 0
                && self.textures_delta.free@.len() == 0),
    {
        self.paint_jobs.len() == 0 && self.textures_delta.is_empty()
    }

    /// Files the result of a pass: its primitives take the place of those of
    /// the pass before, in the same order; its texture changes are added
    /// after those that still wait.
    pub fn process_output(&mut self, paint_jobs: Vec<ClippedPrimitive>, textures_delta: TexturesDelta)
        ensures
            final(self).paint_jobs@ == paint_jobs@,
            final(self).textures_delta.set@ == old(self).textures_delta.set@ + textures_delta.set@,
            final(self).textures_delta.free@ == old(self).textures_delta.free@
                + textures_delta.free@,
    {
        self.paint_jobs = paint_jobs;
        self.textures_delta.append(textures_delta);
    }
}

impl Default for EguiRenderOutput {
    /// Nothing to paint and no changes.
    fn default() -> (r: Self)
        ensures
            r.paint_jobs@ == Seq::<ClippedPrimitive>::empty(),
            r.textures_delta.set@ == Seq::<(TextureId, ImageDelta)>::empty(),
            r.textures_delta.free@ == Seq::<TextureId>::empty(),
    {
        EguiRenderOutput::new()
    }
}

} // verus!
