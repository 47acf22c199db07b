//! The hash tables of the crate. Each is a `bevy_utils::HashMap`, the host
//! engine's hash map (`hashbrown::HashMap` with a fixed hasher), keyed by
//! integers. Verus does not read that code, so what each operation does is
//! stated here and taken on trust, over a map that names what a table
//! holds. Where a function below is said to be `HashMap::get` and the like,
//! the method of that type is meant.

use vstd::prelude::*;
use crate::ids::ImageId;
use crate::managed_textures::{EguiManagedTexture, ManagedTextureView};

verus! {

/// The hash table behind [`EguiUserTextures`]: the host engine's hash map,
/// from an image's key to the id it was given.
///
/// Verus does not look inside; what it holds is `user_table_entries`.
#[verifier::external_body]
pub struct UserTextureTable {
    inner: bevy_utils::HashMap<(u8, u128), u64>,
}

/// What a [`UserTextureTable`] holds, as a map from key to value.
pub uninterp spec fn user_table_entries(table: UserTextureTable) -> Map<(u8, u128), u64>;

/// The entries of a table that holds nothing.
pub open spec fn no_user_entries() -> Map<(u8, u128), u64> {
    Map::empty()
}

/// `bevy_utils::HashMap::default`: a table that holds nothing.
#[verifier::external_body]
pub(crate) fn user_table_new() -> (table: UserTextureTable)
    ensures
        user_table_entries(table) == no_user_entries(),
{
    UserTextureTable { inner: bevy_utils::HashMap::default() }
}

/// `HashMap::get`: the value stored under `key`, if there is one.
#[verifier::external_body]
pub(crate) fn user_table_get(table: &UserTextureTable, key: (u8, u128)) -> (found: Option<u64>)
    ensures
        found == (if user_table_entries(*table).dom().contains(key) {
            Some(user_table_entries(*table)[key])
        } else {
            None
        }),
{
    table.inner.get(&key).copied()
}

/// `HashMap::insert`: stores `value` under `key`, replacing and returning
/// what was there; every other entry stays.
#[verifier::external_body]
pub(crate) fn user_table_insert(table: &mut UserTextureTable, key: (u8, u128), value: u64) -> (prior: Option<u64>)
    ensures
        user_table_entries(*final(table)) == user_table_entries(*old(table)).insert(key, value),
        prior == (if user_table_entries(*old(table)).dom().contains(key) {
            Some(user_table_entries(*old(table))[key])
        } else {
            None
        }),
{
    table.inner.insert(key, value)
}

/// `HashMap::remove`: takes the entry under `key` out and returns its value,
/// if there was one; every other entry stays.
#[verifier::external_body]
pub(crate) fn user_table_remove(table: &mut UserTextureTable, key: (u8, u128)) -> (prior: Option<u64>)
    ensures
        user_table_entries(*final(table)) == user_table_entries(*old(table)).remove(key),
        prior == (if user_table_entries(*old(table)).dom().contains(key) {
            Some(user_table_entries(*old(table))[key])
        } else {
            None
        }),
{
    table.inner.remove(&key)
}

/// `HashMap::iter`: every entry once, as key and value, in no stated order.
#[verifier::external_body]
pub(crate) fn user_table_items(table: &UserTextureTable) -> (items: Vec<((u8, u128), u64)>)
    ensures
        items@.no_duplicates(),
        forall|key: (u8, u128), value: u64| #[trigger]
            items@.contains((key, value)) <==> user_table_entries(*table).contains_pair(
                key,
                value,
            ),
{
    table.inner.iter().map(|(key, value)| (*key, *value)).collect()
}

/// `HashMap::clone`: a table with the same entries.
#[verifier::external_body]
pub(crate) fn user_table_clone(table: &UserTextureTable) -> (copy: UserTextureTable)
    ensures
        user_table_entries(copy) == user_table_entries(*table),
{
    UserTextureTable { inner: table.inner.clone() }
}

/// The hash table behind [`EguiManagedTextures`]: the host engine's hash
/// map, from a render target's index and generation and a local texture id
/// to the texture.
///
/// Verus does not look inside; what it holds is `managed_table_entries`.
#[verifier::external_body]
pub struct ManagedTextureTable {
    inner: bevy_utils::HashMap<(u32, u32, u64), EguiManagedTexture>,
}

/// What a [`ManagedTextureTable`] holds, as a map from key to the value of
/// the texture.
pub uninterp spec fn managed_table_entries(table: ManagedTextureTable) -> Map<
    (u32, u32, u64),
    ManagedTextureView,
>;

/// The entries of a table that holds nothing.
pub open spec fn no_managed_entries() -> Map<(u32, u32, u64), ManagedTextureView> {
    Map::empty()
}

/// `bevy_utils::HashMap::default`: a table that holds nothing.
#[verifier::external_body]
pub(crate) fn managed_table_new() -> (table: ManagedTextureTable)
    ensures
        managed_table_entries(table) == no_managed_entries(),
{
    ManagedTextureTable { inner: bevy_utils::HashMap::default() }
}

/// `HashMap::get`: the texture stored under `key`, if there is one.
#[verifier::external_body]
pub(crate) fn managed_table_get(table: &ManagedTextureTable, key: (u32, u32, u64)) -> (found: Option<
    &EguiManagedTexture,
>)
    ensures
        found.is_some() == managed_table_entries(*table).dom().contains(key),
        found matches Some(texture) ==> texture@ == managed_table_entries(*table)[key],
{
    table.inner.get(&key)
}

/// `HashMap::insert`: stores `texture` under `key`, replacing and returning
/// what was there; every other entry stays.
#[verifier::external_body]
pub(crate) fn managed_table_insert(
    table: &mut ManagedTextureTable,
    key: (u32, u32, u64),
    texture: EguiManagedTexture,
) -> (prior: Option<EguiManagedTexture>)
    ensures
        managed_table_entries(*final(table)) == managed_table_entries(*old(table)).insert(
            key,
            texture@,
        ),
        prior.is_some() == managed_table_entries(*old(table)).dom().contains(key),
        prior matches Some(replaced) ==> replaced@ == managed_table_entries(*old(table))[key],
{
    table.inner.insert(key, texture)
}

/// `HashMap::remove`: takes the entry under `key` out and returns its
/// texture, if there was one; every other entry stays.
#[verifier::external_body]
pub(crate) fn managed_table_remove(table: &mut ManagedTextureTable, key: (u32, u32, u64)) -> (prior: Option<
    EguiManagedTexture,
>)
    ensures
        managed_table_entries(*final(table)) == managed_table_entries(*old(table)).remove(key),
        prior.is_some() == managed_table_entries(*old(table)).dom().contains(key),
        prior matches Some(removed) ==> removed@ == managed_table_entries(*old(table))[key],
{
    table.inner.remove(&key)
}

/// `HashMap::keys`: every key once, in no stated order.
#[verifier::external_body]
pub(crate) fn managed_table_keys(table: &ManagedTextureTable) -> (keys: Vec<(u32, u32, u64)>)
    ensures
        keys@.no_duplicates(),
        forall|key: (u32, u32, u64)| #[trigger]
            keys@.contains(key) <==> managed_table_entries(*table).dom().contains(key),
{
    table.inner.keys().copied().collect()
}

/// The hash table behind the render side's copy of the managed textures:
/// the host engine's hash map, from a render target's index and generation
/// and a local texture id to the asset that backs the texture.
///
/// Verus does not look inside; what it holds is `handle_table_entries`.
#[verifier::external_body]
pub struct HandleTable {
    inner: bevy_utils::HashMap<(u32, u32, u64), ImageId>,
}

/// What a [`HandleTable`] holds, as a map from key to asset.
pub uninterp spec fn handle_table_entries(table: HandleTable) -> Map<(u32, u32, u64), ImageId>;

/// `HashMap::iter`, mapped and collected into a new `HashMap`: a table with
/// the keys of `source`, each with the handle of its texture.
#[verifier::external_body]
pub(crate) fn handle_table_from_managed(source: &ManagedTextureTable) -> (table: HandleTable)
    ensures
        handle_table_entries(table).dom() == managed_table_entries(*source).dom(),
        forall|key: (u32, u32, u64)| #[trigger]
            handle_table_entries(table).dom().contains(key) ==> handle_table_entries(table)[key]
                == managed_table_entries(*source)[key].handle,
{
    HandleTable { inner: source.inner.iter().map(|(key, texture)| (*key, texture.handle)).collect() }
}

/// `HashMap::get`: the asset stored under `key`, if there is one.
#[verifier::external_body]
pub(crate) fn handle_table_get(table: &HandleTable, key: (u32, u32, u64)) -> (found: Option<ImageId>)
    ensures
        found == (if handle_table_entries(*table).dom().contains(key) {
            Some(handle_table_entries(*table)[key])
        } else {
            None
        }),
{
    table.inner.get(&key).copied()
}

/// `HashMap::iter`: every entry once, as key and asset, in no stated order.
#[verifier::external_body]
pub(crate) fn handle_table_items(table: &HandleTable) -> (items: Vec<((u32, u32, u64), ImageId)>)
    ensures
        items@.no_duplicates(),
        forall|key: (u32, u32, u64), handle: ImageId| #[trigger]
            items@.contains((key, handle)) <==> handle_table_entries(*table).contains_pair(
                key,
                handle,
            ),
{
    table.inner.iter().map(|(key, handle)| (*key, *handle)).collect()
}

/// The hash table behind the transform offsets: the host engine's hash map,
/// from a render target's index and generation to a byte offset.
///
/// Verus does not look inside; what it holds is `offset_table_entries`.
#[verifier::external_body]
pub struct OffsetTable {
    inner: bevy_utils::HashMap<(u32, u32), u32>,
}

/// What an [`OffsetTable`] holds, as a map from key to offset.
pub uninterp spec fn offset_table_entries(table: OffsetTable) -> Map<(u32, u32), u32>;

/// The entries of a table that holds nothing.
pub open spec fn no_offset_entries() -> Map<(u32, u32), u32> {
    Map::empty()
}

/// `bevy_utils::HashMap::default`: a table that holds nothing.
#[verifier::external_body]
pub(crate) fn offset_table_new() -> (table: OffsetTable)
    ensures
        offset_table_entries(table) == no_offset_entries(),
{
    OffsetTable { inner: bevy_utils::HashMap::default() }
}

/// `HashMap::clear`: takes every entry out.
#[verifier::external_body]
pub(crate) fn offset_table_clear(table: &mut OffsetTable)
    ensures
        offset_table_entries(*final(table)) == no_offset_entries(),
{
    table.inner.clear();
}

/// `HashMap::insert`: stores `offset` under `key`, replacing what was
/// there; every other entry stays.
#[verifier::external_body]
pub(crate) fn offset_table_insert(table: &mut OffsetTable, key: (u32, u32), offset: u32)
    ensures
        offset_table_entries(*final(table)) == offset_table_entries(*old(table)).insert(key, offset),
{
    table.inner.insert(key, offset);
}

/// `HashMap::get`: the offset stored under `key`, if there is one.
#[verifier::external_body]
pub(crate) fn offset_table_get(table: &OffsetTable, key: (u32, u32)) -> (found: Option<u32>)
    ensures
        found == (if offset_table_entries(*table).dom().contains(key) {
            Some(offset_table_entries(*table)[key])
        } else {
            None
        }),
{
    table.inner.get(&key).copied()
}

} // verus!
