//! What the render side prepares each frame before the nodes run: the list
//! of textures that need a bind group, the transform offsets, and the
//! pipelines to specialize.

use vstd::prelude::*;
use crate::ids::{EguiTextureId, EntityId, ImageId};
use crate::managed_textures::ExtractedEguiManagedTextures;
use crate::tables::{
    offset_table_clear, offset_table_entries, offset_table_get, offset_table_insert,
    offset_table_new, OffsetTable,
};
use crate::user_textures::EguiUserTextures;

verus! {

/// The textures of both kinds, as the render side sees them.
pub struct ExtractedEguiTextures<'a> {
    /// The asset of each texture that the toolkit allocated.
    pub egui_textures: &'a ExtractedEguiManagedTextures,
    /// The id of each image that host code registered.
    pub user_textures: &'a EguiUserTextures,
}

impl<'a> ExtractedEguiTextures<'a> {
    /// Whether the texture `id` is backed by the asset `image`.
    pub open spec fn backs(&self, id: EguiTextureId, image: ImageId) -> bool {
        match id {
            EguiTextureId::Managed(target, local) => self.egui_textures@.contains_pair(
                (target, local),
                image,
            ),
            EguiTextureId::User(global) => self.user_textures@.ids.contains_pair(image, global),
        }
    }

    /// Every texture with the asset that backs it: first those that the
    /// toolkit allocated, then those that host code registered, each pair
    /// once.
    pub fn handles(&self) -> (items: Vec<(EguiTextureId, ImageId)>)
        requires
            self.user_textures.wf(),
        ensures
            items@.no_duplicates(),
            forall|id: EguiTextureId, image: ImageId| #[trigger]
                items@.contains((id, image)) <==> self.backs(id, image),
            forall|i: int, j: int|
                0 <= i <= j < items.len() && (#[trigger] items[i]).0 is User ==> (
                #[trigger] items[j]).0 is User,
    {
        let managed = self.egui_textures.entries();
        let user = self.user_textures.entries();
        let mut items: Vec<(EguiTextureId, ImageId)> = Vec::new();
        let mut i: usize = 0;
        while i < managed.len()
            invariant
                i <= managed.len(),
                items.len() == i,
                forall|j: int|
                    0 <= j < i ==> (#[trigger] items[j]) == (
                        EguiTextureId::Managed(managed[j].0, managed[j].1),
                        managed[j].2,
                    ),
            decreases managed.len() - i,
        {
            let (target, local, image) = managed[i];
            items.push((EguiTextureId::Managed(target, local), image));
            i += 1;
        }
        let mut k: usize = 0;
        while k < user.len()
            invariant
                k <= user.len(),
                items.len() == managed.len() + k,
                forall|j: int|
                    0 <= j < managed.len() ==> (#[trigger] items[j]) == (
                        EguiTextureId::Managed(managed[j].0, managed[j].1),
                        managed[j].2,
                    ),
                forall|j: int|
                    0 <= j < k ==> (#[trigger] items[managed.len() + j]) == (
                        EguiTextureId::User(user[j].1),
                        user[j].0,
                    ),
            decreases user.len() - k,
        {
            let (image, global) = user[k];
            items.push((EguiTextureId::User(global), image));
            k += 1;
        }
        proof {
            let m = managed.len() as int;
            assert forall|a: int, b: int|
                0 <= a < items.len() && 0 <= b < items.len() && a != b implies items[a]
                != items[b] by {
                if items[a] == items[b] {
                    if a < m && b < m {
                        assert(managed[a] == managed[b]);
                    } else if a >= m && b >= m {
                        assert(items[a] == items[m + (a - m)]);
                        assert(items[b] == items[m + (b - m)]);
                        assert(user[a - m] == user[b - m]);
                    } else if a < m {
                        assert(items[b] == items[m + (b - m)]);
                    } else {
                        assert(items[a] == items[m + (a - m)]);
                    }
                }
            }
            assert forall|id: EguiTextureId, image: ImageId| #[trigger]
                items@.contains((id, image)) <==> self.backs(id, image) by {
                if items@.contains((id, image)) {
                    let j = choose|j: int| 0 <= j < items.len() && items[j] == (id, image);
                    if j < m {
                        assert(managed@.contains(managed[j]));
                        assert(managed@.contains((managed[j].0, managed[j].1, managed[j].2)));
                    } else {
                        assert(items[j] == items[m + (j - m)]);
                        assert(user@.contains(user[j - m]));
                        assert(user@.contains((user[j - m].0, user[j - m].1)));
                    }
                }
                if self.backs(id, image) {
                    match id {
                        EguiTextureId::Managed(target, local) => {
                            assert(managed@.contains((target, local, image)));
                            let j = choose|j: int|
                                0 <= j < managed.len() && managed[j] == (target, local, image);
                            assert(items[j] == (id, image));
                        },
                        EguiTextureId::User(global) => {
                            assert(user@.contains((image, global)));
                            let j = choose|j: int|
                                0 <= j < user.len() && user[j] == (image, global);
                            assert(items[m + j] == (id, image));
                        },
                    }
                }
            }
            assert forall|a: int, b: int|
                0 <= a <= b < items.len() && (#[trigger] items[a]).0 is User implies (
            #[trigger] items[b]).0 is User by {
                assert(a >= m);
                assert(items[b] == items[m + (b - m)]);
            }
        }
        items
    }

    /// The asset that backs the texture `id`; `None` if the texture is not
    /// known, as happens while it is registered but not yet stored.
    pub fn resolve(&self, id: EguiTextureId) -> (found: Option<ImageId>)
        requires
            self.user_textures.wf(),
        ensures
            found matches Some(image) ==> self.backs(id, image),
            found is None ==> forall|image: ImageId| !self.backs(id, image),
    {
        match id {
            EguiTextureId::Managed(target, local) => self.egui_textures.get(target, local),
            EguiTextureId::User(global) => {
                let user = self.user_textures.entries();
                let mut i: usize = 0;
                while i < user.len()
                    invariant
                        i <= user.len(),
                        id == EguiTextureId::User(global),
                        forall|image: ImageId, listed: u64| #[trigger]
                            user@.contains((image, listed))
                                <==> self.user_textures@.ids.contains_pair(image, listed),
                        forall|j: int| 0 <= j < i ==> (#[trigger] user[j]).1 != global,
                    decreases user.len() - i,
                {
                    let (image, registered) = user[i];
                    if registered == global {
                        proof {
                            assert(user[i as int] == (image, registered));
                            assert(user@.contains((image, registered)));
                            assert(self.user_textures@.ids.contains_pair(image, registered));
                        }
                        return Some(image);
                    }
                    i += 1;
                }
                proof {
                    assert forall|image: ImageId| !self.backs(id, image) by {
                        if self.backs(id, image) {
                            assert(user@.contains((image, global)));
                            let j = choose|j: int|
                                0 <= j < user.len() && user[j] == (image, global);
                            assert(user[j].1 == global);
                        }
                    }
                }
                None
            },
        }
    }
}

/// The entries of `handles` whose flag in `loaded` is set, in their order.
pub open spec fn loaded_handles(
    handles: Seq<(EguiTextureId, ImageId)>,
    loaded: Seq<bool>,
) -> Seq<(EguiTextureId, ImageId)>
    decreases handles.len(),
{
    if handles.len() == 0 || loaded.len() == 0 {
        Seq::empty()
    } else if loaded.last() {
        loaded_handles(handles.drop_last(), loaded.drop_last()).push(handles.last())
    } else {
        loaded_handles(handles.drop_last(), loaded.drop_last())
    }
}

/// Picks the textures that get a bind group in this frame: those whose
/// asset is on the GPU, as `loaded` says entry by entry. A texture whose
/// asset is not there yet is passed over, and gets its turn in a later
/// frame. Nothing is kept from the frame before.
pub fn queue_bind_groups_system(handles: &Vec<(EguiTextureId, ImageId)>, loaded: &Vec<bool>) -> (queued:
    Vec<(EguiTextureId, ImageId)>)
    requires
        loaded.len() == handles.len(),
    ensures
        queued@ == loaded_handles(handles@, loaded@),
{
    let mut queued: Vec<(EguiTextureId, ImageId)> = Vec::new();
    let mut i: usize = 0;
    while i < handles.len()
        invariant
            i <= handles.len(),
            loaded.len() == handles.len(),
            queued@ == loaded_handles(handles@.take(i as int), loaded@.take(i as int)),
        decreases handles.len() - i,
    {
        proof {
            assert(handles@.take(i + 1).drop_last() =~= handles@.take(i as int));
            assert(loaded@.take(i + 1).drop_last() =~= loaded@.take(i as int));
        }
        if loaded[i] {
            queued.push(handles[i]);
        }
        i += 1;
    }
    proof {
        assert(handles@.take(i as int) =~= handles@);
        assert(loaded@.take(i as int) =~= loaded@);
    }
    queued
}

/// A texture is queued exactly if it is listed with its flag set, and the
/// queue keeps the order of the list.
pub proof fn lemma_loaded_handles(handles: Seq<(EguiTextureId, ImageId)>, loaded: Seq<bool>)
    requires
        handles.len() == loaded.len(),
    ensures
        loaded_handles(handles, loaded).len() <= handles.len(),
        forall|entry: (EguiTextureId, ImageId)|
            loaded_handles(handles, loaded).contains(entry) <==> exists|i: int|
                0 <= i < handles.len() && #[trigger] handles[i] == entry && loaded[i],
    decreases handles.len(),
{
    if handles.len() > 0 {
        let h = handles.drop_last();
        let l = loaded.drop_last();
        lemma_loaded_handles(h, l);
        let before = loaded_handles(h, l);
        let all = loaded_handles(handles, loaded);
        assert forall|entry: (EguiTextureId, ImageId)| all.contains(entry) <==> exists|i: int|
            0 <= i < handles.len() && #[trigger] handles[i] == entry && loaded[i] by {
            if all.contains(entry) {
                let j = choose|j: int| 0 <= j < all.len() && all[j] == entry;
                if j < before.len() {
                    assert(before[j] == entry);
                    assert(before.contains(entry));
                    let i = choose|i: int| 0 <= i < h.len() && #[trigger] h[i] == entry && l[i];
                    assert(handles[i] == entry && loaded[i]);
                } else {
                    assert(handles[handles.len() - 1] == entry);
                }
            }
            if exists|i: int| 0 <= i < handles.len() && #[trigger] handles[i] == entry && loaded[i] {
                let i = choose|i: int|
                    0 <= i < handles.len() && #[trigger] handles[i] == entry && loaded[i];
                if i < h.len() {
                    assert(h[i] == entry && l[i]);
                    assert(before.contains(entry));
                    let j = choose|j: int| 0 <= j < before.len() && before[j] == entry;
                    assert(all[j] == entry);
                } else {
                    assert(all[all.len() - 1] == entry);
                }
            }
        }
    }
}

/// The targets of `targets` that have a key, each with its key, in their
/// order.
pub open spec fn keyed_targets<K>(targets: Seq<(EntityId, Option<K>)>) -> Seq<(EntityId, K)>
    decreases targets.len(),
{
    if targets.len() == 0 {
        Seq::empty()
    } else {
        let before = keyed_targets(targets.drop_last());
        match targets.last().1 {
            Some(key) => before.push((targets.last().0, key)),
            None => before,
        }
    }
}

/// Lists the pipelines to specialize in this frame: one for each window
/// whose surface has a format, then one for each image target whose image
/// is on the GPU, each under the key that its format gives. A target
/// without a key is passed over, and gets its turn in a later frame.
///
/// The caller files each pipeline under its target, in the order of the
/// list: a target that is listed twice ends up with the later entry.
pub fn queue_pipelines_system<K: Copy>(
    windows: &Vec<(EntityId, Option<K>)>,
    render_to_image: &Vec<(EntityId, Option<K>)>,
) -> (queued: Vec<(EntityId, K)>)
    ensures
        queued@ == keyed_targets(windows@) + keyed_targets(render_to_image@),
{
    let mut queued: Vec<(EntityId, K)> = Vec::new();
    let mut i: usize = 0;
    while i < windows.len()
        invariant
            i <= windows.len(),
            queued@ == keyed_targets(windows@.take(i as int)),
        decreases windows.len() - i,
    {
        proof {
            assert(windows@.take(i + 1).drop_last() =~= windows@.take(i as int));
        }
        let (target, key) = windows[i];
        match key {
            Some(key) => {
                queued.push((target, key));
            },
            None => {},
        }
        i += 1;
    }
    proof {
        assert(windows@.take(i as int) =~= windows@);
    }
    let mut k: usize = 0;
    while k < render_to_image.len()
        invariant
            k <= render_to_image.len(),
            queued@ == keyed_targets(windows@) + keyed_targets(render_to_image@.take(k as int)),
        decreases render_to_image.len() - k,
    {
        proof {
            assert(render_to_image@.take(k + 1).drop_last() =~= render_to_image@.take(k as int));
        }
        let (target, key) = render_to_image[k];
        match key {
            Some(key) => {
                queued.push((target, key));
                proof {
                    assert(queued@ =~= keyed_targets(windows@) + keyed_targets(
                        render_to_image@.take(k + 1),
                    ));
                }
            },
            None => {},
        }
        k += 1;
    }
    proof {
        assert(render_to_image@.take(k as int) =~= render_to_image@);
    }
    queued
}

/// Where each render target's transform lies in the shared uniform buffer,
/// and which buffer the transform bind group was made for.
pub struct EguiTransforms {
    offsets: OffsetTable,
    bind_group: Option<u32>,
}

/// [`EguiTransforms`] as a mathematical value.
pub struct TransformsState {
    /// The byte offset of each target's transform.
    pub offsets: Map<EntityId, u32>,
    /// The id of the buffer that the bind group was made for, if one was
    /// made.
    pub bind_group: Option<u32>,
}

/// The offsets after the first `n` of `slots` were recorded: a slot without
/// a target is passed over, and of two slots of one target the later one
/// counts.
pub open spec fn recorded_offsets(slots: Seq<(Option<EntityId>, u32)>, n: nat) -> Map<EntityId, u32>
    decreases n,
{
    if n == 0 {
        Map::empty()
    } else {
        let before = recorded_offsets(slots, (n - 1) as nat);
        match slots[n - 1].0 {
            Some(target) => before.insert(target, slots[n - 1].1),
            None => before,
        }
    }
}

/// Whether the transform bind group has to be made anew: there is a buffer,
/// and it is not the one that the bind group was made for.
pub open spec fn bind_group_is_stale(made_for: Option<u32>, buffer: Option<u32>) -> bool {
    buffer matches Some(id) && made_for != Some(id)
}

impl View for EguiTransforms {
    type V = TransformsState;

    closed spec fn view(&self) -> TransformsState {
        TransformsState {
            offsets: Map::new(
                |target: EntityId|
                    offset_table_entries(self.offsets).dom().contains(
                        (target.index, target.generation),
                    ),
                |target: EntityId|
                    offset_table_entries(self.offsets)[(target.index, target.generation)],
            ),
            bind_group: self.bind_group,
        }
    }
}

impl EguiTransforms {
    /// No offsets, no bind group.
    pub fn new() -> (r: Self)
        ensures
            r@.offsets == Map::<EntityId, u32>::empty(),
            r@.bind_group is None,
    {
        let r = EguiTransforms { offsets: offset_table_new(), bind_group: None };
        assert(r@.offsets =~= Map::<EntityId, u32>::empty());
        r
    }

    /// The byte offset of the transform of `target`, if one was recorded in
    /// this frame.
    pub fn offset(&self, target: EntityId) -> (found: Option<u32>)
        ensures
            found == (if self@.offsets.dom().contains(target) {
                Some(self@.offsets[target])
            } else {
                None
            }),
    {
        offset_table_get(&self.offsets, (target.index, target.generation))
    }

    /// The id of the buffer that the bind group was made for.
    pub fn bind_group_buffer(&self) -> (id: Option<u32>)
        ensures
            id == self@.bind_group,
    {
        self.bind_group
    }
}

impl Default for EguiTransforms {
    /// No offsets, no bind group.
    fn default() -> (r: Self)
        ensures
            r@.offsets == Map::<EntityId, u32>::empty(),
            r@.bind_group is None,
    {
        EguiTransforms::new()
    }
}

/// Records this frame's transforms.
///
/// `slots` holds, for each transform pushed into the uniform buffer, the
/// render target it belongs to and its byte offset; `buffer` is the id of
/// the GPU buffer after the upload, if there is one. What was recorded in
/// the frame before is dropped. Returns whether the caller has to make the
/// bind group anew; it is then taken as made for `buffer`.
pub fn prepare_egui_transforms_system(
    transforms: &mut EguiTransforms,
    slots: &Vec<(Option<EntityId>, u32)>,
    buffer: Option<u32>,
) -> (rebuild: bool)
    ensures
        final(transforms)@.offsets == recorded_offsets(slots@, slots.len() as nat),
        rebuild == bind_group_is_stale(old(transforms)@.bind_group, buffer),
        final(transforms)@.bind_group == (if rebuild {
            buffer
        } else {
            old(transforms)@.bind_group
        }),
{
    offset_table_clear(&mut transforms.offsets);
    proof {
        assert(transforms@.offsets =~= recorded_offsets(slots@, 0));
    }
    let mut i: usize = 0;
    while i < slots.len()
        invariant
            i <= slots.len(),
            transforms@.offsets == recorded_offsets(slots@, i as nat),
            transforms.bind_group == old(transforms).bind_group,
        decreases slots.len() - i,
    {
        let (target, offset) = slots[i];
        match target {
            Some(target) => {
                offset_table_insert(
                    &mut transforms.offsets,
                    (target.index, target.generation),
                    offset,
                );
                proof {
                    assert(transforms@.offsets =~= recorded_offsets(slots@, i as nat).insert(
                        target,
                        offset,
                    ));
                }
            },
            None => {},
        }
        i += 1;
    }
    match buffer {
        Some(id) => {
            let stale = match transforms.bind_group {
                Some(made_for) => made_for != id,
                None => true,
            };
            if stale {
                transforms.bind_group = Some(id);
            }
            stale
        },
        None => false,
    }
}

} // verus!
