//! The world map: which chunk coordinates are resident, and their voxel data.

use vstd::prelude::*;
use std::sync::Arc;
use bevy_platform::collections::HashMap;
use bevy_platform::hash::FixedHasher;
use crate::chunk::ChunkData;
use crate::position::ChunkPosition;

verus! {

#[verifier::external_type_specification]
#[verifier::external_body]
#[verifier::reject_recursive_types(K)]
#[verifier::reject_recursive_types(V)]
#[verifier::reject_recursive_types(S)]
pub struct ExHashMap<K, V, S>(HashMap<K, V, S>);

#[verifier::external_type_specification]
#[verifier::external_body]
pub struct ExFixedHasher(FixedHasher);

/// The entries of a hash map from coordinates to shared chunks, as a
/// mathematical map. The key `(x, y, z)` stands for the chunk coordinate
/// with those components.
pub uninterp spec fn chunk_map(m: HashMap<(i32, i32, i32), Arc<ChunkData>>) -> Map<
    ChunkPosition,
    ChunkData,
>;

/// True when `m` has exactly `n` entries.
pub open spec fn has_entries(m: Map<ChunkPosition, ChunkData>, n: usize) -> bool {
    m.dom().finite() && m.dom().len() == n
}

/// `HashMap::new` of `bevy_platform`: a map without entries.
#[verifier::external_body]
fn map_new() -> (m: HashMap<(i32, i32, i32), Arc<ChunkData>>)
    ensures
        chunk_map(m) =~= Map::empty(),
{
    HashMap::new()
}

/// `HashMap::len` of `bevy_platform`: the number of entries, of which a map
/// has finitely many.
#[verifier::external_body]
fn map_len(m: &HashMap<(i32, i32, i32), Arc<ChunkData>>) -> (n: usize)
    ensures
        has_entries(chunk_map(*m), n),
{
    m.len()
}

/// `HashMap::get` of `bevy_platform`: the value stored under the key, or
/// nothing where the map has no such key.
#[verifier::external_body]
fn map_get<'a>(m: &'a HashMap<(i32, i32, i32), Arc<ChunkData>>, p: ChunkPosition) -> (r: Option<
    &'a Arc<ChunkData>,
>)
    ensures
        r is Some <==> chunk_map(*m).contains_key(p),
        r is Some ==> **r->0 == chunk_map(*m)[p],
{
    m.get(&(p.x, p.y, p.z))
}

/// `HashMap::contains_key` of `bevy_platform`: whether the map has the key.
#[verifier::external_body]
fn map_contains_key(m: &HashMap<(i32, i32, i32), Arc<ChunkData>>, p: ChunkPosition) -> (r: bool)
    ensures
        r == chunk_map(*m).contains_key(p),
{
    m.contains_key(&(p.x, p.y, p.z))
}

/// `HashMap::insert` of `bevy_platform`: afterwards the key holds the new
/// value and every other key is as before; the value that the key held
/// before, if any, is returned.
#[verifier::external_body]
fn map_insert(
    m: &mut HashMap<(i32, i32, i32), Arc<ChunkData>>,
    p: ChunkPosition,
    chunk: Arc<ChunkData>,
) -> (r: Option<Arc<ChunkData>>)
    ensures
        chunk_map(*final(m)) == chunk_map(*old(m)).insert(p, *chunk),
        r is Some <==> chunk_map(*old(m)).contains_key(p),
        r is Some ==> *r->0 == chunk_map(*old(m))[p],
{
    m.insert((p.x, p.y, p.z), chunk)
}

/// `HashMap::remove` of `bevy_platform`: afterwards the key is absent and
/// every other key is as before; the value that the key held, if any, is
/// returned.
#[verifier::external_body]
fn map_remove(m: &mut HashMap<(i32, i32, i32), Arc<ChunkData>>, p: ChunkPosition) -> (r: Option<
    Arc<ChunkData>,
>)
    ensures
        chunk_map(*final(m)) == chunk_map(*old(m)).remove(p),
        r is Some <==> chunk_map(*old(m)).contains_key(p),
        r is Some ==> *r->0 == chunk_map(*old(m))[p],
{
    m.remove(&(p.x, p.y, p.z))
}

/// `Arc::clone` of std: another handle to the same shared value.
#[verifier::external_body]
fn share(chunk: &Arc<ChunkData>) -> (r: Arc<ChunkData>)
    ensures
        *r == **chunk,
{
    Arc::clone(chunk)
}

/// The resident chunks, by coordinate. A chunk is shared with every
/// neighbourhood view that was built while it was resident, and is never
/// changed in place: an edit stores a changed copy.
pub struct Chunks(pub HashMap<(i32, i32, i32), Arc<ChunkData>>);

impl Default for Chunks {
    fn default() -> (chunks: Self)
        ensures
            chunks@ == Map::<ChunkPosition, ChunkData>::empty(),
    {
        Chunks::new()
    }
}

impl Chunks {
    /// The resident chunks as a map from coordinate to voxel data.
    pub open spec fn view(&self) -> Map<ChunkPosition, ChunkData> {
        chunk_map(self.0)
    }

    /// A world without chunks.
    #[must_use]
    pub fn new() -> (chunks: Self)
        ensures
            chunks@ == Map::<ChunkPosition, ChunkData>::empty(),
    {
        Chunks(map_new())
    }

    /// The number of resident chunks.
    #[must_use]
    pub fn len(&self) -> (n: usize)
        ensures
            self@.dom().finite(),
            n == self@.dom().len(),
    {
        map_len(&self.0)
    }

    /// Whether the chunk at `position` is resident.
    #[must_use]
    pub fn contains_key(&self, position: ChunkPosition) -> (r: bool)
        ensures
            r == self@.contains_key(position),
    {
        map_contains_key(&self.0, position)
    }

    /// A handle to the chunk at `position`, if it is resident.
    #[must_use]
    pub fn get(&self, position: ChunkPosition) -> (r: Option<Arc<ChunkData>>)
        ensures
            r is Some <==> self@.contains_key(position),
            r is Some ==> *r->0 == self@[position],
    {
        match map_get(&self.0, position) {
            Some(chunk) => Some(share(chunk)),
            None => None,
        }
    }

    /// Makes `chunk` the resident chunk at `position`, in place of any
    /// earlier one.
    pub fn insert(&mut self, position: ChunkPosition, chunk: ChunkData)
        ensures
            final(self)@ == old(self)@.insert(position, chunk),
    {
        let _ = map_insert(&mut self.0, position, Arc::new(chunk));
    }

    /// Evicts the chunk at `position`. Says whether one was resident.
    pub fn remove(&mut self, position: ChunkPosition) -> (was_resident: bool)
        ensures
            final(self)@ == old(self)@.remove(position),
            was_resident == old(self)@.contains_key(position),
    {
        map_remove(&mut self.0, position).is_some()
    }
}

} // verus!
