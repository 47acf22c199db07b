//! Identities shared by every component: render targets, image assets and
//! textures.

use vstd::prelude::*;

verus! {

/// Identity of a render target: the host engine's entity, as its index and
/// generation.
#[derive(Clone, Copy, Debug, PartialEq, Eq, Structural, Hash)]
pub struct EntityId {
    /// Slot of the entity in the host's storage.
    pub index: u32,
    /// How many times the slot had been reused when the entity was made.
    pub generation: u32,
}

/// Kind of surface that a render target paints onto.
#[derive(Clone, Copy, Debug, PartialEq, Eq, Structural, Hash)]
pub enum EguiRenderTargetType {
    /// An on-screen window.
    Window,
    /// An offscreen image.
    Image,
}

/// Identity of an image asset in the host engine's asset store.
#[derive(Clone, Copy, Debug, PartialEq, Eq, Structural, Hash)]
pub enum ImageId {
    /// An asset that the store numbered itself; the bits hold its slot and
    /// generation.
    Index(u64),
    /// An asset known by a fixed 128-bit identifier.
    Uuid(u128),
}

/// A texture as the UI toolkit names it.
///
/// The two variants are separate id spaces: `Managed(7)` and `User(7)` are
/// different textures.
#[derive(Clone, Copy, Debug, PartialEq, Eq, Structural, Hash)]
pub enum TextureId {
    /// A texture that the toolkit allocated; the id is local to one render
    /// target.
    Managed(u64),
    /// A texture that host code registered; the id is global.
    User(u64),
}

/// A texture as the render side names it: a toolkit-managed id is joined
/// with the render target that owns it.
#[derive(Clone, Copy, Debug, PartialEq, Eq, Structural, Hash)]
pub enum EguiTextureId {
    /// A texture that the toolkit allocated for one render target.
    Managed(EntityId, u64),
    /// A texture that host code registered.
    User(u64),
}

impl EguiTextureId {
    /// The render-side name of the texture that `target` calls `id`.
    pub open spec fn spec_from_target(target: EntityId, id: TextureId) -> EguiTextureId {
        match id {
            TextureId::Managed(local) => EguiTextureId::Managed(target, local),
            TextureId::User(global) => EguiTextureId::User(global),
        }
    }

    /// Joins a toolkit texture id with the render target that uses it.
    ///
    /// Managed ids of different targets never collide, and no managed id
    /// collides with a user id.
    pub fn from_target(target: EntityId, id: TextureId) -> (r: EguiTextureId)
        ensures
            r == Self::spec_from_target(target, id),
    {
        match id {
            TextureId::Managed(local) => EguiTextureId::Managed(target, local),
            TextureId::User(global) => EguiTextureId::User(global),
        }
    }
}

} // verus!
