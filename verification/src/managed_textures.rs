//! Textures that the UI toolkit allocates: their pixels are kept in full, so
//! that a later delta can patch a rectangle of them.

use vstd::prelude::*;
use crate::ids::{EntityId, ImageId, TextureId};
use crate::image::{lemma_position_in_range, update_image_rect, ColorImage, ImageView};
use crate::tables::{
    handle_table_entries, handle_table_from_managed, handle_table_get, handle_table_items,
    managed_table_entries, managed_table_get, managed_table_insert, managed_table_keys,
    managed_table_new, managed_table_remove, HandleTable, ManagedTextureTable,
};

verus! {

/// One entry of a texture delta: an image, and where it goes.
#[derive(Debug)]
pub struct ImageDelta {
    /// The whole texture, or the rectangle to write.
    pub image: ColorImage,
    /// `None` to set the whole texture; the top left corner of the
    /// rectangle to patch otherwise.
    pub pos: Option<[usize; 2]>,
}

/// An [`ImageDelta`] as a mathematical value.
pub struct ImageDeltaView {
    /// The whole texture, or the rectangle to write.
    pub image: ImageView,
    /// `None` to set the whole texture; the column and row of the top left
    /// corner of the rectangle to patch otherwise.
    pub pos: Option<(int, int)>,
}

impl View for ImageDelta {
    type V = ImageDeltaView;

    open spec fn view(&self) -> ImageDeltaView {
        ImageDeltaView {
            image: self.image@,
            pos: match self.pos {
                Some(pos) => Some((pos[0] as int, pos[1] as int)),
                None => None,
            },
        }
    }
}

/// A texture that the toolkit allocated and painted.
#[derive(Debug)]
pub struct EguiManagedTexture {
    /// The asset of the host engine that holds the uploaded pixels.
    pub handle: ImageId,
    /// The pixels in full, so that a part of them can be replaced.
    pub color_image: ColorImage,
}

/// An [`EguiManagedTexture`] as a mathematical value.
pub struct ManagedTextureView {
    /// The asset of the host engine that holds the uploaded pixels.
    pub handle: ImageId,
    /// The pixels in full.
    pub image: ImageView,
}

impl View for EguiManagedTexture {
    type V = ManagedTextureView;

    open spec fn view(&self) -> ManagedTextureView {
        ManagedTextureView { handle: self.handle, image: self.color_image@ }
    }
}

/// What became of one entry of a texture delta.
#[derive(Clone, Copy, Debug, PartialEq, Eq, Structural)]
pub enum TextureUpdate {
    /// The id is a user texture's: the toolkit does not paint those, and
    /// nothing was done.
    Ignored,
    /// The texture was set in full and waits to be uploaded under the new
    /// handle.
    Uploaded,
    /// A rectangle of the stored texture was replaced; the whole texture
    /// waits to be uploaded under the new handle.
    Patched,
    /// A rectangle was to be replaced in a texture that is not stored.
    /// Nothing was done; the caller should warn.
    Missing,
}

/// The managed textures as a mathematical value: the texture of each render
/// target and local id.
pub type ManagedStore = Map<(EntityId, u64), ManagedTextureView>;

/// Whether one entry of a delta can be applied to `store`: the image of a
/// managed texture has one pixel for each position, and a rectangle that
/// goes into a stored texture fits in it. An entry for a user texture is
/// passed over, whatever it holds.
pub open spec fn set_allowed(
    store: ManagedStore,
    target: EntityId,
    id: TextureId,
    delta: ImageDeltaView,
) -> bool {
    match id {
        TextureId::User(_) => true,
        TextureId::Managed(local) => {
            &&& delta.image.wf()
            &&& match delta.pos {
                Some(pos) => store.dom().contains((target, local)) ==> store[(
                    target,
                    local,
                )].image.patch_fits(pos.0, pos.1, delta.image),
                None => true,
            }
        },
    }
}

/// The store after one entry of a delta.
///
/// A user id changes nothing. A managed id without a position sets the
/// texture, replacing the one stored under that id. With a position the
/// stored texture is patched, and where none is stored nothing changes.
/// Whenever pixels change, the texture is filed under `handle`.
pub open spec fn store_after_set(
    store: ManagedStore,
    target: EntityId,
    id: TextureId,
    delta: ImageDeltaView,
    handle: ImageId,
) -> ManagedStore {
    match id {
        TextureId::User(_) => store,
        TextureId::Managed(local) => match delta.pos {
            None => store.insert(
                (target, local),
                ManagedTextureView { handle, image: delta.image },
            ),
            Some(pos) => if store.dom().contains((target, local)) {
                store.insert(
                    (target, local),
                    ManagedTextureView {
                        handle,
                        image: store[(target, local)].image.patched(pos.0, pos.1, delta.image),
                    },
                )
            } else {
                store
            },
        },
    }
}

/// What is reported for one entry of a delta.
pub open spec fn update_for_set(
    store: ManagedStore,
    target: EntityId,
    id: TextureId,
    delta: ImageDeltaView,
) -> TextureUpdate {
    match id {
        TextureId::User(_) => TextureUpdate::Ignored,
        TextureId::Managed(local) => match delta.pos {
            None => TextureUpdate::Uploaded,
            Some(_) => if store.dom().contains((target, local)) {
                TextureUpdate::Patched
            } else {
                TextureUpdate::Missing
            },
        },
    }
}

/// The store after the first `n` entries of a delta, the `i`-th filed under
/// the `i`-th handle.
pub open spec fn store_after_sets(
    store: ManagedStore,
    target: EntityId,
    set: Seq<(TextureId, ImageDeltaView)>,
    handles: Seq<ImageId>,
    n: nat,
) -> ManagedStore
    decreases n,
{
    if n == 0 {
        store
    } else {
        let i = (n - 1) as nat;
        store_after_set(
            store_after_sets(store, target, set, handles, i),
            target,
            set[i as int].0,
            set[i as int].1,
            handles[i as int],
        )
    }
}

/// Whether the first `n` entries of a delta can be applied one after the
/// other.
pub open spec fn sets_allowed(
    store: ManagedStore,
    target: EntityId,
    set: Seq<(TextureId, ImageDeltaView)>,
    handles: Seq<ImageId>,
    n: nat,
) -> bool
    decreases n,
{
    n > 0 ==> {
        let i = (n - 1) as nat;
        &&& sets_allowed(store, target, set, handles, i)
        &&& set_allowed(
            store_after_sets(store, target, set, handles, i),
            target,
            set[i as int].0,
            set[i as int].1,
        )
    }
}

/// The store after one id of a free list: a managed texture of `target` is
/// taken out, a user id changes nothing.
pub open spec fn store_after_free(store: ManagedStore, target: EntityId, id: TextureId) -> ManagedStore {
    match id {
        TextureId::User(_) => store,
        TextureId::Managed(local) => store.remove((target, local)),
    }
}

/// The asset that backed the texture which one id of a free list takes out,
/// if it takes one out.
pub open spec fn asset_freed(store: ManagedStore, target: EntityId, id: TextureId) -> Option<ImageId> {
    match id {
        TextureId::Managed(local) if store.dom().contains((target, local)) => Some(
            store[(target, local)].handle,
        ),
        _ => None,
    }
}

/// The store after the first `n` ids of a free list.
pub open spec fn store_after_frees(
    store: ManagedStore,
    target: EntityId,
    free: Seq<TextureId>,
    n: nat,
) -> ManagedStore
    decreases n,
{
    if n == 0 {
        store
    } else {
        store_after_free(
            store_after_frees(store, target, free, (n - 1) as nat),
            target,
            free[n - 1],
        )
    }
}

/// The assets that backed the textures which the first `n` ids of a free
/// list take out, in the order of the list.
pub open spec fn assets_freed(
    store: ManagedStore,
    target: EntityId,
    free: Seq<TextureId>,
    n: nat,
) -> Seq<ImageId>
    decreases n,
{
    if n == 0 {
        Seq::empty()
    } else {
        let before = assets_freed(store, target, free, (n - 1) as nat);
        match asset_freed(
            store_after_frees(store, target, free, (n - 1) as nat),
            target,
            free[n - 1],
        ) {
            Some(handle) => before.push(handle),
            None => before,
        }
    }
}

/// The asset that backs a texture, if the texture is stored.
pub open spec fn resolved(store: ManagedStore, target: EntityId, local: u64) -> Option<ImageId> {
    if store.dom().contains((target, local)) {
        Some(store[(target, local)].handle)
    } else {
        None
    }
}

/// The key under which the texture `local` of `target` is stored.
pub open spec fn managed_key(target: EntityId, local: u64) -> (u32, u32, u64) {
    (target.index, target.generation, local)
}

/// The textures that the toolkit allocated, by render target and local id.
pub struct EguiManagedTextures {
    table: ManagedTextureTable,
}

impl View for EguiManagedTextures {
    type V = ManagedStore;

    closed spec fn view(&self) -> ManagedStore {
        Map::new(
            |key: (EntityId, u64)|
                managed_table_entries(self.table).dom().contains(managed_key(key.0, key.1)),
            |key: (EntityId, u64)| managed_table_entries(self.table)[managed_key(key.0, key.1)],
        )
    }
}

impl EguiManagedTextures {
    /// Every stored texture has exactly one pixel for each position.
    pub open spec fn wf(&self) -> bool {
        forall|key: (EntityId, u64)| #[trigger]
            self@.dom().contains(key) ==> self@[key].image.wf()
    }

    /// A store without textures.
    pub fn new() -> (r: Self)
        ensures
            r.wf(),
            r@ == Map::<(EntityId, u64), ManagedTextureView>::empty(),
    {
        let r = EguiManagedTextures { table: managed_table_new() };
        assert(r@ =~= Map::<(EntityId, u64), ManagedTextureView>::empty());
        r
    }

    /// The texture `local` of `target`, if it is stored.
    pub fn get(&self, target: EntityId, local: u64) -> (found: Option<&EguiManagedTexture>)
        ensures
            found.is_some() == self@.dom().contains((target, local)),
            found matches Some(texture) ==> texture@ == self@[(target, local)],
    {
        managed_table_get(&self.table, (target.index, target.generation, local))
    }

    /// The asset that backs the texture `local` of `target`; `None` if no
    /// such texture is stored.
    pub fn resolve(&self, target: EntityId, local: u64) -> (handle: Option<ImageId>)
        ensures
            handle == resolved(self@, target, local),
    {
        match managed_table_get(&self.table, (target.index, target.generation, local)) {
            Some(texture) => Some(texture.handle),
            None => None,
        }
    }

    /// Whether `delta` can be applied under `id`: the check that
    /// [`set_allowed`] states.
    pub fn set_is_allowed(&self, target: EntityId, id: TextureId, delta: &ImageDelta) -> (ok: bool)
        requires
            self.wf(),
        ensures
            ok == set_allowed(self@, target, id, delta@),
    {
        let local = match id {
            TextureId::Managed(local) => local,
            TextureId::User(_) => {
                return true;
            },
        };
        if !delta.image.is_well_formed() {
            return false;
        }
        match delta.pos {
            Some(pos) => {
                match managed_table_get(&self.table, (target.index, target.generation, local)) {
                    Some(texture) => texture.color_image.patch_fits(pos, &delta.image),
                    None => true,
                }
            },
            None => true,
        }
    }

    /// Applies one entry of a texture delta of `target`.
    ///
    /// A texture that is set in full replaces the one stored under its id;
    /// a rectangle is written into the stored texture. Either way the
    /// texture is then filed under `handle`, under which the caller uploads
    /// it. A rectangle for a texture that is not stored changes nothing and
    /// is reported as [`TextureUpdate::Missing`]; a user id changes
    /// nothing.
    pub fn set_texture(
        &mut self,
        target: EntityId,
        id: TextureId,
        delta: ImageDelta,
        handle: ImageId,
    ) -> (update: TextureUpdate)
        requires
            old(self).wf(),
            set_allowed(old(self)@, target, id, delta@),
        ensures
            final(self).wf(),
            final(self)@ == store_after_set(old(self)@, target, id, delta@, handle),
            update == update_for_set(old(self)@, target, id, delta@),
    {
        let local = match id {
            TextureId::Managed(local) => local,
            TextureId::User(_) => {
                return TextureUpdate::Ignored;
            },
        };
        let key = (target.index, target.generation, local);
        let ImageDelta { image, pos } = delta;
        match pos {
            Some(pos) => {
                match managed_table_remove(&mut self.table, key) {
                    Some(stored) => {
                        let EguiManagedTexture { handle: _, color_image } = stored;
                        let mut color_image = color_image;
                        proof {
                            assert(old(self)@.dom().contains((target, local)));
                            assert(color_image@ == old(self)@[(target, local)].image);
                        }
                        update_image_rect(&mut color_image, pos, &image);
                        managed_table_insert(
                            &mut self.table,
                            key,
                            EguiManagedTexture { handle, color_image },
                        );
                        proof {
                            lemma_managed_key_injective();
                            assert(self@ =~= store_after_set(
                                old(self)@,
                                target,
                                id,
                                delta@,
                                handle,
                            ));
                        }
                        TextureUpdate::Patched
                    },
                    None => {
                        proof {
                            assert(managed_table_entries(self.table) =~= managed_table_entries(
                                old(self).table,
                            ));
                        }
                        TextureUpdate::Missing
                    },
                }
            },
            None => {
                managed_table_insert(
                    &mut self.table,
                    key,
                    EguiManagedTexture { handle, color_image: image },
                );
                proof {
                    lemma_managed_key_injective();
                    assert(self@ =~= store_after_set(old(self)@, target, id, delta@, handle));
                }
                TextureUpdate::Uploaded
            },
        }
    }

    /// Applies one id of a free list of `target`: a managed texture is taken
    /// out of the store, and the asset that backed it is returned for the
    /// caller to drop. A user id, or a texture that is not stored, changes
    /// nothing.
    pub fn free_texture(&mut self, target: EntityId, id: TextureId) -> (freed: Option<ImageId>)
        requires
            old(self).wf(),
        ensures
            final(self).wf(),
            final(self)@ == store_after_free(old(self)@, target, id),
            freed == asset_freed(old(self)@, target, id),
    {
        match id {
            TextureId::User(_) => None,
            TextureId::Managed(local) => {
                let key = (target.index, target.generation, local);
                let removed = managed_table_remove(&mut self.table, key);
                proof {
                    lemma_managed_key_injective();
                    assert(self@ =~= old(self)@.remove((target, local)));
                }
                match removed {
                    Some(texture) => Some(texture.handle),
                    None => None,
                }
            },
        }
    }
}

impl Default for EguiManagedTextures {
    /// A store without textures.
    fn default() -> (r: Self)
        ensures
            r.wf(),
            r@ == Map::<(EntityId, u64), ManagedTextureView>::empty(),
    {
        EguiManagedTextures::new()
    }
}

/// The asset that backs each texture of `store`.
pub open spec fn handles_of(store: ManagedStore) -> Map<(EntityId, u64), ImageId> {
    Map::new(
        |key: (EntityId, u64)| store.dom().contains(key),
        |key: (EntityId, u64)| store[key].handle,
    )
}

/// The render side's copy of the managed textures: which asset backs which
/// texture, without the pixels.
pub struct ExtractedEguiManagedTextures {
    table: HandleTable,
}

impl View for ExtractedEguiManagedTextures {
    type V = Map<(EntityId, u64), ImageId>;

    closed spec fn view(&self) -> Map<(EntityId, u64), ImageId> {
        Map::new(
            |key: (EntityId, u64)|
                handle_table_entries(self.table).dom().contains(managed_key(key.0, key.1)),
            |key: (EntityId, u64)| handle_table_entries(self.table)[managed_key(key.0, key.1)],
        )
    }
}

impl ExtractedEguiManagedTextures {
    /// Copies the asset of every texture of `source`.
    pub fn extract_resource(source: &EguiManagedTextures) -> (r: Self)
        ensures
            r@ == handles_of(source@),
    {
        let r = ExtractedEguiManagedTextures { table: handle_table_from_managed(&source.table) };
        proof {
            assert(r@ =~= handles_of(source@));
        }
        r
    }

    /// The asset that backs the texture `local` of `target`, if there is
    /// such a texture.
    pub fn get(&self, target: EntityId, local: u64) -> (handle: Option<ImageId>)
        ensures
            handle == (if self@.dom().contains((target, local)) {
                Some(self@[(target, local)])
            } else {
                None
            }),
    {
        handle_table_get(&self.table, (target.index, target.generation, local))
    }

    /// Every texture with its asset, each once, in no particular order.
    pub fn entries(&self) -> (items: Vec<(EntityId, u64, ImageId)>)
        ensures
            items@.no_duplicates(),
            forall|target: EntityId, local: u64, handle: ImageId| #[trigger]
                items@.contains((target, local, handle)) <==> self@.contains_pair(
                    (target, local),
                    handle,
                ),
    {
        let raw = handle_table_items(&self.table);
        let mut items: Vec<(EntityId, u64, ImageId)> = Vec::new();
        let mut i: usize = 0;
        while i < raw.len()
            invariant
                i <= raw.len(),
                items.len() == i,
                forall|j: int|
                    0 <= j < i ==> (#[trigger] items[j]) == (
                        EntityId { index: raw[j].0.0, generation: raw[j].0.1 },
                        raw[j].0.2,
                        raw[j].1,
                    ),
            decreases raw.len() - i,
        {
            let (key, handle) = raw[i];
            items.push((EntityId { index: key.0, generation: key.1 }, key.2, handle));
            i += 1;
        }
        proof {
            let entries = handle_table_entries(self.table);
            assert forall|a: int, b: int|
                0 <= a < items.len() && 0 <= b < items.len() && a != b implies items[a]
                != items[b] by {
                if items[a] == items[b] {
                    assert(raw[a] == raw[b]);
                }
            }
            assert forall|target: EntityId, local: u64, handle: ImageId| #[trigger]
                items@.contains((target, local, handle)) <==> self@.contains_pair(
                    (target, local),
                    handle,
                ) by {
                let key = managed_key(target, local);
                if items@.contains((target, local, handle)) {
                    let j = choose|j: int|
                        0 <= j < items.len() && items[j] == (target, local, handle);
                    assert(raw[j] == (key, handle));
                    assert(raw@.contains((key, handle)));
                }
                if self@.contains_pair((target, local), handle) {
                    assert(entries.contains_pair(key, handle));
                    assert(raw@.contains((key, handle)));
                    let j = choose|j: int| 0 <= j < raw.len() && raw[j] == (key, handle);
                    assert(items[j] == (target, local, handle));
                }
            }
        }
        items
    }
}

/// The entries of a delta as mathematical values.
pub open spec fn delta_views(set: Seq<(TextureId, ImageDelta)>) -> Seq<(TextureId, ImageDeltaView)> {
    Seq::new(set.len(), |i: int| (set[i].0, set[i].1@))
}

/// Applies the `set` part of a texture delta of `target`, entry by entry in
/// the order of the delta; the `i`-th entry is filed under the `i`-th
/// handle. Returns what became of each entry.
pub fn update_egui_textures_system(
    textures: &mut EguiManagedTextures,
    target: EntityId,
    set: Vec<(TextureId, ImageDelta)>,
    handles: &Vec<ImageId>,
) -> (updates: Vec<TextureUpdate>)
    requires
        old(textures).wf(),
        handles.len() == set.len(),
        sets_allowed(old(textures)@, target, delta_views(set@), handles@, set.len() as nat),
    ensures
        final(textures).wf(),
        final(textures)@ == store_after_sets(
            old(textures)@,
            target,
            delta_views(set@),
            handles@,
            set.len() as nat,
        ),
        updates.len() == set.len(),
        forall|i: int|
            0 <= i < set.len() ==> #[trigger] updates[i] == update_for_set(
                store_after_sets(old(textures)@, target, delta_views(set@), handles@, i as nat),
                target,
                set[i].0,
                set[i].1@,
            ),
{
    let ghost entries = set@;
    let ghost views = delta_views(set@);
    let n = set.len();
    // Turn the delta round, so that its first entry can be taken first.
    let mut forward = set;
    let mut pending: Vec<(TextureId, ImageDelta)> = Vec::new();
    while forward.len() > 0
        invariant
            forward.len() + pending.len() == n,
            n == entries.len(),
            forall|j: int| 0 <= j < forward.len() ==> forward[j] == entries[j],
            forall|j: int| 0 <= j < pending.len() ==> pending[j] == entries[n - 1 - j],
        decreases forward.len(),
    {
        let entry = forward.pop().unwrap();
        pending.push(entry);
    }
    let mut updates: Vec<TextureUpdate> = Vec::new();
    let mut i: usize = 0;
    while i < n
        invariant
            i <= n,
            n == entries.len(),
            n == handles.len(),
            views == delta_views(entries),
            pending.len() == n - i,
            forall|j: int| 0 <= j < pending.len() ==> pending[j] == entries[n - 1 - j],
            textures.wf(),
            sets_allowed(old(textures)@, target, views, handles@, n as nat),
            textures@ == store_after_sets(old(textures)@, target, views, handles@, i as nat),
            updates.len() == i,
            forall|j: int|
                0 <= j < i ==> #[trigger] updates[j] == update_for_set(
                    store_after_sets(old(textures)@, target, views, handles@, j as nat),
                    target,
                    entries[j].0,
                    entries[j].1@,
                ),
        decreases n - i,
    {
        let (id, delta) = pending.pop().unwrap();
        proof {
            assert(id == entries[i as int].0 && delta == entries[i as int].1);
            assert(views[i as int] == (id, delta@));
            lemma_sets_allowed_prefix(old(textures)@, target, views, handles@, n as nat, i as nat);
        }
        let update = textures.set_texture(target, id, delta, handles[i]);
        updates.push(update);
        i += 1;
    }
    updates
}

/// Applies the `free` part of a texture delta of `target`, id by id in the
/// order of the list. Returns the assets that backed the textures taken out,
/// in that order, for the caller to drop.
pub fn free_egui_textures_system(
    textures: &mut EguiManagedTextures,
    target: EntityId,
    free: &Vec<TextureId>,
) -> (freed: Vec<ImageId>)
    requires
        old(textures).wf(),
    ensures
        final(textures).wf(),
        final(textures)@ == store_after_frees(old(textures)@, target, free@, free.len() as nat),
        freed@ == assets_freed(old(textures)@, target, free@, free.len() as nat),
{
    let mut freed: Vec<ImageId> = Vec::new();
    let mut i: usize = 0;
    while i < free.len()
        invariant
            i <= free.len(),
            textures.wf(),
            textures@ == store_after_frees(old(textures)@, target, free@, i as nat),
            freed@ == assets_freed(old(textures)@, target, free@, i as nat),
        decreases free.len() - i,
    {
        match textures.free_texture(target, free[i]) {
            Some(handle) => {
                freed.push(handle);
            },
            None => {},
        }
        i += 1;
    }
    freed
}

/// If the first `n` entries of a delta can be applied, so can the entry
/// after the first `i`, for every `i` below `n`.
pub proof fn lemma_sets_allowed_prefix(
    store: ManagedStore,
    target: EntityId,
    set: Seq<(TextureId, ImageDeltaView)>,
    handles: Seq<ImageId>,
    n: nat,
    i: nat,
)
    requires
        sets_allowed(store, target, set, handles, n),
        i < n,
    ensures
        sets_allowed(store, target, set, handles, i),
        set_allowed(
            store_after_sets(store, target, set, handles, i),
            target,
            set[i as int].0,
            set[i as int].1,
        ),
    decreases n,
{
    if i + 1 < n {
        lemma_sets_allowed_prefix(store, target, set, handles, (n - 1) as nat, i);
    }
}

/// A texture that is set in full and then patched holds the full image with
/// the rectangle overwritten: inside the rectangle the pixels of the patch,
/// outside of it those of the full image. It is filed under the handle of
/// the patch.
pub proof fn lemma_full_then_patch(
    store: ManagedStore,
    target: EntityId,
    local: u64,
    full: ImageView,
    patch: ImageView,
    x: int,
    y: int,
    first: ImageId,
    second: ImageId,
)
    requires
        full.wf(),
        patch.wf(),
        0 <= x,
        0 <= y,
        full.patch_fits(x, y, patch),
    ensures
        ({
            let id = TextureId::Managed(local);
            let uploaded = store_after_set(
                store,
                target,
                id,
                ImageDeltaView { image: full, pos: None },
                first,
            );
            let delta = ImageDeltaView { image: patch, pos: Some((x, y)) };
            let patched = store_after_set(uploaded, target, id, delta, second);
            &&& set_allowed(uploaded, target, id, delta)
            &&& update_for_set(uploaded, target, id, delta) == TextureUpdate::Patched
            &&& patched.dom() == store.dom().insert((target, local))
            &&& patched[(target, local)].handle == second
            &&& patched[(target, local)].image == full.patched(x, y, patch)
            &&& patched[(target, local)].image.wf()
            &&& forall|px: int, py: int|
                0 <= px < full.width && 0 <= py < full.height ==> #[trigger] patched[(
                    target,
                    local,
                )].image.pixel(px, py) == (if ImageView::covered(x, y, patch, px, py) {
                    patch.pixel(px - x, py - y)
                } else {
                    full.pixel(px, py)
                })
            &&& forall|other: (EntityId, u64)|
                other != (target, local) && store.dom().contains(other) ==> #[trigger] patched[other]
                    == store[other]
        }),
{
    let id = TextureId::Managed(local);
    let uploaded = store_after_set(
        store,
        target,
        id,
        ImageDeltaView { image: full, pos: None },
        first,
    );
    let delta = ImageDeltaView { image: patch, pos: Some((x, y)) };
    let patched = store_after_set(uploaded, target, id, delta, second);
    assert(patched.dom() =~= store.dom().insert((target, local)));
    assert forall|px: int, py: int| 0 <= px < full.width && 0 <= py < full.height implies (
    #[trigger] patched[(target, local)].image.pixel(px, py)) == (if ImageView::covered(
        x,
        y,
        patch,
        px,
        py,
    ) {
        patch.pixel(px - x, py - y)
    } else {
        full.pixel(px, py)
    }) by {
        lemma_position_in_range(full.width as int, full.height as int, px, py);
    }
}

/// A rectangle for a texture that was never set in full changes nothing in
/// the store, and is reported as missing.
pub proof fn lemma_patch_without_texture(
    store: ManagedStore,
    target: EntityId,
    local: u64,
    patch: ImageView,
    x: int,
    y: int,
    handle: ImageId,
)
    requires
        !store.dom().contains((target, local)),
    ensures
        ({
            let id = TextureId::Managed(local);
            let delta = ImageDeltaView { image: patch, pos: Some((x, y)) };
            &&& store_after_set(store, target, id, delta, handle) == store
            &&& update_for_set(store, target, id, delta) == TextureUpdate::Missing
            &&& patch.wf() ==> set_allowed(store, target, id, delta)
        }),
{
}

/// Freeing a managed texture takes its entry out and names the asset that
/// backed it; afterwards the id resolves to nothing. No other texture is
/// touched.
pub proof fn lemma_freed_texture_is_gone(store: ManagedStore, target: EntityId, local: u64)
    ensures
        ({
            let after = store_after_free(store, target, TextureId::Managed(local));
            &&& !after.dom().contains((target, local))
            &&& resolved(after, target, local) is None
            &&& asset_freed(store, target, TextureId::Managed(local)) == resolved(
                store,
                target,
                local,
            )
            &&& forall|other: (EntityId, u64)|
                other != (target, local) ==> (#[trigger] after.dom().contains(other)
                    == store.dom().contains(other) && after[other] == store[other])
        }),
{
}

/// After a free list was applied, no managed texture that the list names
/// is stored any more, and a texture of the target that it does not name is
/// as it was.
pub proof fn lemma_free_list_removes_all(
    store: ManagedStore,
    target: EntityId,
    free: Seq<TextureId>,
    n: nat,
)
    requires
        n <= free.len(),
    ensures
        forall|i: int|
            0 <= i < n ==> match #[trigger] free[i] {
                TextureId::Managed(local) => resolved(
                    store_after_frees(store, target, free, n),
                    target,
                    local,
                ) is None,
                TextureId::User(_) => true,
            },
        forall|key: (EntityId, u64)| #[trigger]
            store_after_frees(store, target, free, n).dom().contains(key) ==> store.dom().contains(
                key,
            ) && store_after_frees(store, target, free, n)[key] == store[key],
        forall|key: (EntityId, u64)|
            store.dom().contains(key) && (key.0 != target || forall|i: int|
                0 <= i < n ==> free[i] != TextureId::Managed(key.1)) ==> #[trigger] store_after_frees(
                store,
                target,
                free,
                n,
            ).dom().contains(key),
    decreases n,
{
    if n > 0 {
        lemma_free_list_removes_all(store, target, free, (n - 1) as nat);
    }
}

/// Whether the texture stored under `key` belongs to `target` and is backed
/// by `handle`.
pub open spec fn frees(
    key: (u32, u32, u64),
    target: EntityId,
    store: ManagedStore,
    handle: ImageId,
) -> bool {
    &&& key.0 == target.index
    &&& key.1 == target.generation
    &&& store.dom().contains((target, key.2))
    &&& store[(target, key.2)].handle == handle
}

/// The store without the textures of `target`.
pub open spec fn store_without_target(store: ManagedStore, target: EntityId) -> ManagedStore {
    Map::new(
        |key: (EntityId, u64)| store.dom().contains(key) && key.0 != target,
        |key: (EntityId, u64)| store[key],
    )
}

/// Takes all textures of `target` out of the store: the target is gone, and
/// its textures with it. Returns the assets that backed them, for the
/// caller to drop. The textures of other targets are untouched.
pub fn free_target_textures(textures: &mut EguiManagedTextures, target: EntityId) -> (freed: Vec<
    ImageId,
>)
    requires
        old(textures).wf(),
    ensures
        final(textures).wf(),
        final(textures)@ == store_without_target(old(textures)@, target),
        forall|handle: ImageId|
            freed@.contains(handle) <==> exists|local: u64|
                resolved(old(textures)@, target, local) == Some(handle),
{
    let keys = managed_table_keys(&textures.table);
    let mut freed: Vec<ImageId> = Vec::new();
    let mut i: usize = 0;
    proof {
        lemma_managed_key_injective();
        assert(textures@ =~= Map::new(
            |key: (EntityId, u64)| old(textures)@.dom().contains(key),
            |key: (EntityId, u64)| old(textures)@[key],
        ));
    }
    while i < keys.len()
        invariant
            i <= keys.len(),
            textures.wf(),
            keys@.no_duplicates(),
            forall|key: (u32, u32, u64)| #[trigger]
                keys@.contains(key) <==> managed_table_entries(old(textures).table).dom().contains(
                    key,
                ),
            textures@ == Map::new(
                |key: (EntityId, u64)|
                    old(textures)@.dom().contains(key) && !(key.0 == target && exists|j: int|
                        0 <= j < i && #[trigger] keys[j] == managed_key(key.0, key.1)),
                |key: (EntityId, u64)| old(textures)@[key],
            ),
            forall|handle: ImageId|
                freed@.contains(handle) <==> exists|j: int|
                    0 <= j < i && frees(#[trigger] keys[j], target, old(textures)@, handle),
        decreases keys.len() - i,
    {
        let key = keys[i];
        let ghost before = textures@;
        let ghost before_freed = freed@;
        if key.0 == target.index && key.1 == target.generation {
            proof {
                lemma_managed_key_injective();
                assert(keys@.contains(key));
                assert(key == managed_key(target, key.2));
                assert(old(textures)@.dom().contains((target, key.2)));
                assert(before.dom().contains((target, key.2))) by {
                    if exists|j: int| 0 <= j < i && #[trigger] keys[j] == key {
                        let j = choose|j: int| 0 <= j < i && #[trigger] keys[j] == key;
                        assert(keys[j] == keys[i as int]);
                    }
                }
            }
            let handle = textures.free_texture(target, TextureId::Managed(key.2)).unwrap();
            freed.push(handle);
            proof {
                assert(textures@ =~= Map::new(
                    |k: (EntityId, u64)|
                        old(textures)@.dom().contains(k) && !(k.0 == target && exists|j: int|
                            0 <= j < i + 1 && #[trigger] keys[j] == managed_key(k.0, k.1)),
                    |k: (EntityId, u64)| old(textures)@[k],
                )) by {
                    assert forall|k: (EntityId, u64)|
                        (before.dom().contains(k) && k != (target, key.2)) <==> (old(
                            textures,
                        )@.dom().contains(k) && !(k.0 == target && exists|j: int|
                            0 <= j < i + 1 && #[trigger] keys[j] == managed_key(k.0, k.1))) by {
                        if k == (target, key.2) {
                            assert(keys[i as int] == managed_key(k.0, k.1));
                        }
                        if before.dom().contains(k) && k != (target, key.2) {
                            if k.0 == target && exists|j: int|
                                0 <= j < i + 1 && #[trigger] keys[j] == managed_key(k.0, k.1) {
                                let j = choose|j: int|
                                    0 <= j < i + 1 && #[trigger] keys[j] == managed_key(k.0, k.1);
                                assert(j == i);
                            }
                        }
                    }
                }
            }
            proof {
                assert(handle == old(textures)@[(target, key.2)].handle);
                assert(freed@ == before_freed.push(handle));
                assert forall|h: ImageId|
                    freed@.contains(h) <==> (before_freed.contains(h) || h == handle) by {
                    if freed@.contains(h) {
                        let j = choose|j: int| 0 <= j < freed@.len() && freed@[j] == h;
                        if j < before_freed.len() {
                            assert(before_freed[j] == h);
                        }
                    }
                    if before_freed.contains(h) {
                        let j = choose|j: int| 0 <= j < before_freed.len() && before_freed[j] == h;
                        assert(freed@[j] == h);
                    }
                    if h == handle {
                        assert(freed@[before_freed.len() as int] == h);
                    }
                }
                assert forall|h: ImageId|
                    freed@.contains(h) <==> exists|j: int|
                        0 <= j < i + 1 && frees(#[trigger] keys[j], target, old(textures)@, h) by {
                    if freed@.contains(h) {
                        if before_freed.contains(h) {
                            let j = choose|j: int|
                                0 <= j < i && frees(#[trigger] keys[j], target, old(textures)@, h);
                            assert(0 <= j < i + 1 && frees(keys[j], target, old(textures)@, h));
                        } else {
                            assert(h == handle);
                            let j = i as int;
                            assert(0 <= j < i + 1 && frees(keys[j], target, old(textures)@, h));
                        }
                    }
                    if exists|j: int|
                        0 <= j < i + 1 && frees(#[trigger] keys[j], target, old(textures)@, h) {
                        let j = choose|j: int|
                            0 <= j < i + 1 && frees(#[trigger] keys[j], target, old(textures)@, h);
                        if j < i {
                            assert(before_freed.contains(h));
                        } else {
                            assert(h == handle);
                        }
                    }
                }
            }
        } else {
            proof {
                assert forall|h: ImageId|
                    freed@.contains(h) <==> exists|j: int|
                        0 <= j < i + 1 && frees(#[trigger] keys[j], target, old(textures)@, h) by {
                    if exists|j: int|
                        0 <= j < i + 1 && frees(#[trigger] keys[j], target, old(textures)@, h) {
                        let j = choose|j: int|
                            0 <= j < i + 1 && frees(#[trigger] keys[j], target, old(textures)@, h);
                        assert(j < i);
                    }
                    if freed@.contains(h) {
                        let j = choose|j: int|
                            0 <= j < i && frees(#[trigger] keys[j], target, old(textures)@, h);
                        assert(0 <= j < i + 1 && frees(keys[j], target, old(textures)@, h));
                    }
                }
                assert(textures@ =~= Map::new(
                    |k: (EntityId, u64)|
                        old(textures)@.dom().contains(k) && !(k.0 == target && exists|j: int|
                            0 <= j < i + 1 && #[trigger] keys[j] == managed_key(k.0, k.1)),
                    |k: (EntityId, u64)| old(textures)@[k],
                )) by {
                    assert forall|k: (EntityId, u64)|
                        (k.0 == target && exists|j: int|
                            0 <= j < i + 1 && #[trigger] keys[j] == managed_key(k.0, k.1)) <==> (k.0
                            == target && exists|j: int|
                            0 <= j < i && #[trigger] keys[j] == managed_key(k.0, k.1)) by {
                        if k.0 == target && exists|j: int|
                            0 <= j < i + 1 && #[trigger] keys[j] == managed_key(k.0, k.1) {
                            let j = choose|j: int|
                                0 <= j < i + 1 && #[trigger] keys[j] == managed_key(k.0, k.1);
                            assert(j != i);
                        }
                    }
                }
            }
        }
        i += 1;
    }
    proof {
        lemma_managed_key_injective();
        assert(textures@ =~= store_without_target(old(textures)@, target)) by {
            assert forall|k: (EntityId, u64)|
                old(textures)@.dom().contains(k) && k.0 == target implies exists|j: int|
                0 <= j < i && #[trigger] keys[j] == managed_key(k.0, k.1) by {
                assert(keys@.contains(managed_key(k.0, k.1)));
                let j = choose|j: int| 0 <= j < keys.len() && keys[j] == managed_key(k.0, k.1);
                assert(keys[j] == managed_key(k.0, k.1));
            }
        }
        assert forall|handle: ImageId|
            freed@.contains(handle) <==> exists|local: u64|
                resolved(old(textures)@, target, local) == Some(handle) by {
            if freed@.contains(handle) {
                let j = choose|j: int|
                    0 <= j < i && frees(#[trigger] keys[j], target, old(textures)@, handle);
                assert(resolved(old(textures)@, target, keys[j].2) == Some(handle));
            }
            if exists|local: u64| resolved(old(textures)@, target, local) == Some(handle) {
                let local = choose|local: u64|
                    resolved(old(textures)@, target, local) == Some(handle);
                assert(keys@.contains(managed_key(target, local)));
                let j = choose|j: int| 0 <= j < keys.len() && keys[j] == managed_key(target, local);
                assert(frees(keys[j], target, old(textures)@, handle));
            }
        }
    }
    freed
}

/// Different textures are stored under different keys.
pub proof fn lemma_managed_key_injective()
    ensures
        forall|a: EntityId, i: u64, b: EntityId, j: u64|
            #[trigger] managed_key(a, i) == #[trigger] managed_key(b, j) ==> a == b && i == j,
{
}

} // verus!
