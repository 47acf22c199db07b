//! Textures that host code owns and shows to the UI toolkit under an opaque
//! id.

use vstd::prelude::*;
use crate::ids::{ImageId, TextureId};
use crate::tables::{
    user_table_clone, user_table_entries, user_table_get, user_table_insert, user_table_items,
    user_table_new, user_table_remove, UserTextureTable,
};

verus! {

/// The key under which an image is stored: a tag for the variant, then the
/// bits. Different images have different keys.
pub open spec fn image_key(image: ImageId) -> (u8, u128) {
    match image {
        ImageId::Index(bits) => (0u8, bits as u128),
        ImageId::Uuid(uuid) => (1u8, uuid),
    }
}

/// Whether `key` is the key of some image.
pub open spec fn is_image_key(key: (u8, u128)) -> bool {
    ||| key.0 == 0 && key.1 <= u64::MAX
    ||| key.0 == 1
}

/// The image that `key` stands for, if `is_image_key(key)`.
pub open spec fn image_of_key(key: (u8, u128)) -> ImageId {
    if key.0 == 0 {
        ImageId::Index(key.1 as u64)
    } else {
        ImageId::Uuid(key.1)
    }
}

/// Computes `image_key`.
fn key_of(image: ImageId) -> (key: (u8, u128))
    ensures
        key == image_key(image),
        is_image_key(key),
        image_of_key(key) == image,
{
    match image {
        ImageId::Index(bits) => (0u8, bits as u128),
        ImageId::Uuid(uuid) => (1u8, uuid),
    }
}

/// The registry of user textures as a mathematical value.
pub struct UserTexturesState {
    /// The id of each registered image.
    pub ids: Map<ImageId, u64>,
    /// The id that the next new image will get.
    pub next_id: u64,
}

impl UserTexturesState {
    /// Every id that is in use was handed out by the counter, so it lies
    /// below it; and no id is in use for two images.
    pub open spec fn wf(self) -> bool {
        &&& forall|image: ImageId| #[trigger]
            self.ids.dom().contains(image) ==> self.ids[image] < self.next_id
        &&& forall|a: ImageId, b: ImageId|
            #[trigger] self.ids.dom().contains(a) && #[trigger] self.ids.dom().contains(b)
                && self.ids[a] == self.ids[b] ==> a == b
    }

    /// The registry before anything was registered.
    pub open spec fn empty() -> Self {
        UserTexturesState { ids: Map::empty(), next_id: 0 }
    }

    /// The id that registering `image` returns: the one it has, or else the
    /// counter.
    pub open spec fn id_for(self, image: ImageId) -> u64 {
        if self.ids.dom().contains(image) {
            self.ids[image]
        } else {
            self.next_id
        }
    }

    /// Whether `image` can be registered: it is registered already, or the
    /// counter can still be advanced.
    pub open spec fn can_add(self, image: ImageId) -> bool {
        self.ids.dom().contains(image) || self.next_id < u64::MAX
    }

    /// The registry after registering `image`.
    pub open spec fn add_image(self, image: ImageId) -> Self {
        if self.ids.dom().contains(image) {
            self
        } else {
            UserTexturesState {
                ids: self.ids.insert(image, self.next_id),
                next_id: (self.next_id + 1) as u64,
            }
        }
    }

    /// The registry after removing `image`. The counter stays.
    pub open spec fn remove_image(self, image: ImageId) -> Self {
        UserTexturesState { ids: self.ids.remove(image), next_id: self.next_id }
    }

    /// The registry after removing every image that occurs in `images`.
    pub open spec fn remove_images(self, images: Seq<ImageId>) -> Self {
        UserTexturesState {
            ids: self.ids.remove_keys(images.to_set()),
            next_id: self.next_id,
        }
    }

    /// The id of `image`, if it is registered.
    pub open spec fn image_id(self, image: ImageId) -> Option<TextureId> {
        if self.ids.dom().contains(image) {
            Some(TextureId::User(self.ids[image]))
        } else {
            None
        }
    }
}

/// The registry of user textures: which image has which id, and the counter
/// that hands out ids.
pub struct EguiUserTextures {
    textures: UserTextureTable,
    last_texture_id: u64,
}

impl View for EguiUserTextures {
    type V = UserTexturesState;

    closed spec fn view(&self) -> UserTexturesState {
        UserTexturesState {
            ids: Map::new(
                |image: ImageId| user_table_entries(self.textures).dom().contains(image_key(image)),
                |image: ImageId| user_table_entries(self.textures)[image_key(image)],
            ),
            next_id: self.last_texture_id,
        }
    }
}

impl EguiUserTextures {
    /// The table holds only keys of images, and the registry's value is
    /// well-formed.
    pub closed spec fn wf(&self) -> bool {
        &&& self@.wf()
        &&& forall|key: (u8, u128)| #[trigger]
            user_table_entries(self.textures).dom().contains(key) ==> is_image_key(key)
    }

    /// A registry with no image, whose first id will be 0.
    pub fn new() -> (r: Self)
        ensures
            r.wf(),
            r@ == UserTexturesState::empty(),
    {
        let r = EguiUserTextures { textures: user_table_new(), last_texture_id: 0 };
        assert(r@.ids =~= Map::<ImageId, u64>::empty());
        r
    }

    /// Whether `image` can be registered: the check that
    /// [`UserTexturesState::can_add`] states.
    pub fn can_add(&self, image: ImageId) -> (ok: bool)
        requires
            self.wf(),
        ensures
            ok == self@.can_add(image),
    {
        self.last_texture_id < u64::MAX || user_table_get(&self.textures, key_of(image)).is_some()
    }

    /// Registers `image` and returns its texture id.
    ///
    /// An image that is registered already keeps its id and nothing changes;
    /// a new one gets the counter's value, and the counter advances.
    pub fn add_image(&mut self, image: ImageId) -> (id: TextureId)
        requires
            old(self).wf(),
            old(self)@.can_add(image),
        ensures
            final(self).wf(),
            final(self)@ == old(self)@.add_image(image),
            id == TextureId::User(old(self)@.id_for(image)),
    {
        let key = key_of(image);
        match user_table_get(&self.textures, key) {
            Some(id) => TextureId::User(id),
            None => {
                let id = self.last_texture_id;
                user_table_insert(&mut self.textures, key, id);
                self.last_texture_id = id + 1;
                proof {
                    assert forall|other: ImageId| image_key(other) == key implies other
                        == image by {
                        lemma_image_key_injective(other, image);
                    }
                    assert(self@.ids =~= old(self)@.ids.insert(image, id));
                    assert forall|other: ImageId| #[trigger]
                        self@.ids.dom().contains(other) implies self@.ids[other]
                        < self@.next_id by {
                        if other != image {
                            assert(old(self)@.ids.dom().contains(other));
                        }
                    }
                }
                TextureId::User(id)
            },
        }
    }

    /// Removes `image` from the registry and returns the id it had, if it
    /// was registered. The counter is not turned back.
    pub fn remove_image(&mut self, image: ImageId) -> (id: Option<TextureId>)
        requires
            old(self).wf(),
        ensures
            final(self).wf(),
            final(self)@ == old(self)@.remove_image(image),
            id == old(self)@.image_id(image),
    {
        let key = key_of(image);
        let prior = user_table_remove(&mut self.textures, key);
        proof {
            assert forall|other: ImageId| image_key(other) == key implies other == image by {
                lemma_image_key_injective(other, image);
            }
            assert(self@.ids =~= old(self)@.ids.remove(image));
            assert forall|other: ImageId| #[trigger]
                self@.ids.dom().contains(other) implies self@.ids[other] < self@.next_id by {
                assert(old(self)@.ids.dom().contains(other));
            }
        }
        match prior {
            Some(id) => Some(TextureId::User(id)),
            None => None,
        }
    }

    /// The texture id of `image`, if it is registered.
    pub fn image_id(&self, image: ImageId) -> (id: Option<TextureId>)
        requires
            self.wf(),
        ensures
            id == self@.image_id(image),
    {
        match user_table_get(&self.textures, key_of(image)) {
            Some(id) => Some(TextureId::User(id)),
            None => None,
        }
    }

    /// Forgets every image of `deleted`: the host's asset store has dropped
    /// them, so their ids point at nothing. Images that were not registered
    /// are passed over.
    pub fn remove_deleted_images(&mut self, deleted: &Vec<ImageId>)
        requires
            old(self).wf(),
        ensures
            final(self).wf(),
            final(self)@ == old(self)@.remove_images(deleted@),
    {
        let mut i: usize = 0;
        proof {
            assert(old(self)@.ids.remove_keys(deleted@.take(0).to_set()) =~= old(self)@.ids);
        }
        while i < deleted.len()
            invariant
                i <= deleted.len(),
                self.wf(),
                self@ == old(self)@.remove_images(deleted@.take(i as int)),
            decreases deleted.len() - i,
        {
            self.remove_image(deleted[i]);
            proof {
                let before = deleted@.take(i as int);
                let after = deleted@.take(i + 1);
                assert(after =~= before.push(deleted[i as int]));
                assert forall|image: ImageId|
                    after.to_set().contains(image) <==> (before.to_set().contains(image) || image
                        == deleted[i as int]) by {
                    if before.to_set().contains(image) {
                        let j = choose|j: int| 0 <= j < before.len() && before[j] == image;
                        assert(after[j] == image);
                    }
                    if image == deleted[i as int] {
                        assert(after[i as int] == image);
                    }
                }
                assert(self@.ids =~= old(self)@.ids.remove_keys(after.to_set()));
            }
            i += 1;
        }
        proof {
            assert(deleted@.take(i as int) =~= deleted@);
        }
    }

    /// Every registered image with its id, each once, in no particular
    /// order.
    pub fn entries(&self) -> (items: Vec<(ImageId, u64)>)
        requires
            self.wf(),
        ensures
            items@.no_duplicates(),
            forall|image: ImageId, id: u64| #[trigger]
                items@.contains((image, id)) <==> self@.ids.contains_pair(image, id),
    {
        let raw = user_table_items(&self.textures);
        let mut items: Vec<(ImageId, u64)> = Vec::new();
        let mut i: usize = 0;
        while i < raw.len()
            invariant
                i <= raw.len(),
                items.len() == i,
                forall|j: int|
                    0 <= j < i ==> (#[trigger] items[j]) == (image_of_key(raw[j].0), raw[j].1),
            decreases raw.len() - i,
        {
            let (key, id) = raw[i];
            let image = if key.0 == 0 {
                ImageId::Index(key.1 as u64)
            } else {
                ImageId::Uuid(key.1)
            };
            items.push((image, id));
            i += 1;
        }
        proof {
            let entries = user_table_entries(self.textures);
            assert forall|j: int| 0 <= j < raw.len() implies is_image_key(#[trigger] raw[j].0)
                && image_key(items[j].0) == raw[j].0 by {
                assert(raw@.contains(raw[j]));
                assert(raw@.contains((raw[j].0, raw[j].1)));
                assert(entries.contains_pair(raw[j].0, raw[j].1));
            }
            assert forall|a: int, b: int|
                0 <= a < items.len() && 0 <= b < items.len() && a != b implies items[a]
                != items[b] by {
                if items[a] == items[b] {
                    assert(raw[a].0 == raw[b].0);
                    assert(raw[a] == raw[b]);
                }
            }
            assert forall|image: ImageId, id: u64| #[trigger]
                items@.contains((image, id)) <==> self@.ids.contains_pair(image, id) by {
                if items@.contains((image, id)) {
                    let j = choose|j: int| 0 <= j < items.len() && items[j] == (image, id);
                    assert(raw@.contains((raw[j].0, raw[j].1)));
                    assert(entries.contains_pair(image_key(image), id));
                }
                if self@.ids.contains_pair(image, id) {
                    assert(entries.contains_pair(image_key(image), id));
                    assert(raw@.contains((image_key(image), id)));
                    let j = choose|j: int| 0 <= j < raw.len() && raw[j] == (image_key(image), id);
                    assert(items[j] == (image, id));
                }
            }
        }
        items
    }
}

impl Default for EguiUserTextures {
    /// A registry with no image, whose first id will be 0.
    fn default() -> (r: Self)
        ensures
            r.wf(),
            r@ == UserTexturesState::empty(),
    {
        EguiUserTextures::new()
    }
}

impl Clone for EguiUserTextures {
    /// A registry with the same images, ids and counter.
    fn clone(&self) -> (r: Self)
        ensures
            r@ == self@,
            self.wf() ==> r.wf(),
    {
        EguiUserTextures {
            textures: user_table_clone(&self.textures),
            last_texture_id: self.last_texture_id,
        }
    }
}

/// Registering an image a second time returns the id of the first time and
/// leaves the registry as the first registration left it.
pub proof fn lemma_add_image_idempotent(state: UserTexturesState, image: ImageId)
    ensures
        state.add_image(image).id_for(image) == state.id_for(image),
        state.add_image(image).add_image(image) == state.add_image(image),
{
}

/// An image that is registered, removed and registered again gets another
/// id than before: the counter never hands a value out twice.
pub proof fn lemma_reregistered_id_differs(state: UserTexturesState, image: ImageId)
    requires
        state.wf(),
        state.can_add(image),
    ensures
        state.add_image(image).remove_image(image).id_for(image) != state.id_for(image),
{
}

/// Registering keeps the registry well-formed, and the id of an image that
/// was not registered is the id of no other image.
pub proof fn lemma_new_id_is_unused(state: UserTexturesState, image: ImageId, other: ImageId)
    requires
        state.wf(),
        state.can_add(image),
        !state.ids.dom().contains(image),
        state.ids.dom().contains(other),
    ensures
        state.add_image(image).wf(),
        state.id_for(image) != state.ids[other],
{
}

/// Two images with one key are one image.
pub proof fn lemma_image_key_injective(a: ImageId, b: ImageId)
    requires
        image_key(a) == image_key(b),
    ensures
        a == b,
{
}

} // verus!
