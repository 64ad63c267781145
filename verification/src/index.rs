//! The hash table that finds a chunk by its key.

use bevy::utils::HashMap;
use vstd::prelude::*;

verus! {

/// A hash table from chunk keys, written as `(x, y, z)`, to the ids of the
/// chunks: bevy's `HashMap`, which is hashbrown's table with the hasher
/// that bevy picks. Verus does not look inside; what the table holds is
/// [`index_entries`].
#[verifier::external_body]
pub struct ChunkIndex {
    slots: HashMap<(i32, i32, i32), usize>,
}

/// The entries of the table: the id stored under each key.
pub uninterp spec fn index_entries(index: ChunkIndex) -> Map<(i32, i32, i32), usize>;

/// An empty table.
///
/// The body is `HashMap::new()`; the contract claims that the new table has
/// no entry.
#[verifier::external_body]
pub(crate) fn index_new() -> (index: ChunkIndex)
    ensures
        index_entries(index) == (Map::<(i32, i32, i32), usize>::empty()),
{
    ChunkIndex { slots: HashMap::new() }
}

/// The id stored under `key`, if there is one.
///
/// The body is `HashMap::get`, with the reference it returns copied; the
/// contract claims that it finds exactly the entries of the table.
#[verifier::external_body]
pub(crate) fn index_get(index: &ChunkIndex, key: (i32, i32, i32)) -> (id: Option<usize>)
    ensures
        id == (if index_entries(*index).contains_key(key) {
            Some(index_entries(*index)[key])
        } else {
            None
        }),
{
    index.slots.get(&key).copied()
}

/// Stores `id` under `key`, in place of what was stored there.
///
/// The body is `HashMap::insert`, whose result, the id that was replaced,
/// is dropped; the contract claims that afterwards the table holds `id`
/// under `key` and every other entry as before.
#[verifier::external_body]
pub(crate) fn index_insert(index: &mut ChunkIndex, key: (i32, i32, i32), id: usize)
    ensures
        index_entries(*final(index)) == index_entries(*old(index)).insert(key, id),
{
    index.slots.insert(key, id);
}

} // verus!
