//! A chunk together with its 26 neighbours, for queries that cross the
//! chunk's boundary.

use vstd::prelude::*;
use std::sync::Arc;
use crate::chunk::BlockId;
use crate::chunk::ChunkData;
use crate::chunk::VoxelIndex;
use crate::chunk::CHUNK_SIZE3;
use crate::position::ChunkPosition;
use crate::position::Position;
use crate::position::RelativePosition;
use crate::prototypes::BlockPrototype;
use crate::prototypes::BlockPrototypes;
use crate::quad::Direction;
use crate::world_map::Chunks;

verus! {

/// The number of chunks in a neighbourhood: a cube of three chunks a side.
pub const NEIGHBORHOOD: usize = 27;

/// The slot of the centre chunk.
pub const CENTER_SLOT: usize = 13;

/// The step from the centre chunk to the chunk in `slot`: slots count
/// through the cube of offsets {-1, 0, 1}^3 with x varying fastest.
pub open spec fn slot_offset(slot: int) -> ChunkPosition {
    ChunkPosition {
        x: (slot % 3 - 1) as i32,
        y: ((slot / 3) % 3 - 1) as i32,
        z: (slot / 9 - 1) as i32,
    }
}

/// True when the chunk that belongs in `slot` around `center` is resident.
pub open spec fn resident_around(
    world: Map<ChunkPosition, ChunkData>,
    center: ChunkPosition,
    slot: int,
) -> bool {
    center.can_reach(slot_offset(slot)) && world.contains_key(center.offset_by(slot_offset(slot)))
}

/// True when the centre chunk and all 26 neighbours are resident.
pub open spec fn neighborhood_resident(
    world: Map<ChunkPosition, ChunkData>,
    center: ChunkPosition,
) -> bool {
    forall|slot: int| 0 <= slot < NEIGHBORHOOD ==> resident_around(world, center, slot)
}

/// True for positions that lie in the centre chunk or at most one chunk
/// away from it along each axis.
pub open spec fn in_reach(x: int, y: int, z: int) -> bool {
    -32 <= x < 64 && -32 <= y < 64 && -32 <= z < 64
}

/// True for positions inside the centre chunk.
pub open spec fn in_center(x: int, y: int, z: int) -> bool {
    0 <= x < 32 && 0 <= y < 32 && 0 <= z < 32
}

/// The slot of the chunk that holds the voxel at `(x, y, z)`, counted from
/// the centre chunk's first voxel.
pub open spec fn slot_of(x: int, y: int, z: int) -> int {
    (x + 32) / 32 + ((y + 32) / 32) * 3 + ((z + 32) / 32) * 9
}

/// The flat index, within its own chunk, of the voxel at `(x, y, z)`.
pub open spec fn local_of(x: int, y: int, z: int) -> int {
    VoxelIndex::flat((x + 32) % 32, (y + 32) % 32, (z + 32) % 32)
}

/// The chunk that belongs in `slot` around `center`, if it is resident.
fn neighbour(chunks: &Chunks, center: ChunkPosition, slot: usize) -> (r: Option<Arc<ChunkData>>)
    requires
        slot < NEIGHBORHOOD,
    ensures
        r is Some <==> resident_around(chunks@, center, slot as int),
        r is Some ==> *r->0 == chunks@[center.offset_by(slot_offset(slot as int))],
{
    let offset = ChunkPosition::new(
        (slot % 3) as i32 - 1,
        ((slot / 3) % 3) as i32 - 1,
        (slot / 9) as i32 - 1,
    );
    match center.checked_add(offset) {
        Some(position) => chunks.get(position),
        None => None,
    }
}

/// Handles to the chunk data of a chunk and of all its neighbours, a cube
/// of 3x3x3 chunks with the chunk itself in the middle.
pub struct ChunkRefs {
    pub adjacent_chunks: [Arc<ChunkData>; 27],
    pub center_chunk_position: ChunkPosition,
}

/// The same view under its other name.
pub type ChunksRefs = ChunkRefs;

impl ChunkRefs {
    /// The chunk in `slot`.
    pub open spec fn chunk(&self, slot: int) -> ChunkData {
        *self.adjacent_chunks@[slot]
    }

    /// The identifier of the block at `(x, y, z)`, counted from the centre
    /// chunk's first voxel.
    pub open spec fn block_id_at(&self, x: int, y: int, z: int) -> BlockId {
        self.chunk(slot_of(x, y, z))@[local_of(x, y, z)]
    }

    /// True when every voxel of all 27 chunks holds the same block.
    pub open spec fn all_same(&self) -> bool {
        forall|slot: int, i: int|
            0 <= slot < NEIGHBORHOOD && 0 <= i < CHUNK_SIZE3 ==> #[trigger] self.chunk(slot)@[i]
                == self.chunk(0)@[0]
    }

    /// True when every block of all 27 chunks is known to `registry`.
    pub open spec fn registered_in(&self, registry: &BlockPrototypes) -> bool {
        forall|slot: int, i: int|
            0 <= slot < NEIGHBORHOOD && 0 <= i < CHUNK_SIZE3 ==> registry.knows(
                #[trigger] self.chunk(slot)@[i],
            )
    }

    /// construct a `ChunkRefs` at `center_chunk_position`: handles to that
    /// chunk and its 26 neighbours, or nothing while any of the 27 is not
    /// resident.
    #[must_use]
    pub fn try_new(chunks: &Chunks, center_chunk_position: ChunkPosition) -> (r: Option<Self>)
        ensures
            r is Some <==> neighborhood_resident(chunks@, center_chunk_position),
            r is Some ==> r->0.center_chunk_position == center_chunk_position,
            r is Some ==> forall|slot: int|
                0 <= slot < NEIGHBORHOOD ==> #[trigger] r->0.chunk(slot) == chunks@[center_chunk_position.offset_by(
                    slot_offset(slot),
                )],
    {
        let c = center_chunk_position;
        let g = chunks;
        let adjacent_chunks: [Arc<ChunkData>; 27] = [
            match neighbour(g, c, 0) { Some(a) => a, None => { return None; } },
            match neighbour(g, c, 1) { Some(a) => a, None => { return None; } },
            match neighbour(g, c, 2) { Some(a) => a, None => { return None; } },
            match neighbour(g, c, 3) { Some(a) => a, None => { return None; } },
            match neighbour(g, c, 4) { Some(a) => a, None => { return None; } },
            match neighbour(g, c, 5) { Some(a) => a, None => { return None; } },
            match neighbour(g, c, 6) { Some(a) => a, None => { return None; } },
            match neighbour(g, c, 7) { Some(a) => a, None => { return None; } },
            match neighbour(g, c, 8) { Some(a) => a, None => { return None; } },
            match neighbour(g, c, 9) { Some(a) => a, None => { return None; } },
            match neighbour(g, c, 10) { Some(a) => a, None => { return None; } },
            match neighbour(g, c, 11) { Some(a) => a, None => { return None; } },
            match neighbour(g, c, 12) { Some(a) => a, None => { return None; } },
            match neighbour(g, c, 13) { Some(a) => a, None => { return None; } },
            match neighbour(g, c, 14) { Some(a) => a, None => { return None; } },
            match neighbour(g, c, 15) { Some(a) => a, None => { return None; } },
            match neighbour(g, c, 16) { Some(a) => a, None => { return None; } },
            match neighbour(g, c, 17) { Some(a) => a, None => { return None; } },
            match neighbour(g, c, 18) { Some(a) => a, None => { return None; } },
            match neighbour(g, c, 19) { Some(a) => a, None => { return None; } },
            match neighbour(g, c, 20) { Some(a) => a, None => { return None; } },
            match neighbour(g, c, 21) { Some(a) => a, None => { return None; } },
            match neighbour(g, c, 22) { Some(a) => a, None => { return None; } },
            match neighbour(g, c, 23) { Some(a) => a, None => { return None; } },
            match neighbour(g, c, 24) { Some(a) => a, None => { return None; } },
            match neighbour(g, c, 25) { Some(a) => a, None => { return None; } },
            match neighbour(g, c, 26) { Some(a) => a, None => { return None; } },
        ];
        Some(Self { adjacent_chunks, center_chunk_position })
    }

    /// Whether no face can be visible because every voxel of all 27 chunks
    /// holds the same block.
    #[must_use]
    pub fn is_all_voxels_same(&self) -> (r: bool)
        ensures
            r == self.all_same(),
    {
        let first_count = self.adjacent_chunks[0].voxel_count();
        if !self.adjacent_chunks[0].is_homogenous() {
            proof {
                let c = self.chunk(0)@;
                if self.all_same() {
                    assert forall|i: int, j: int| 0 <= i < c.len() && 0 <= j < c.len() implies c[i]
                        == c[j] by {
                        assert(self.chunk(0)@[i] == self.chunk(0)@[0]);
                        assert(self.chunk(0)@[j] == self.chunk(0)@[0]);
                    }
                }
            }
            return false;
        }
        let block = self.adjacent_chunks[0].get_block(VoxelIndex(0));
        let mut slot: usize = 0;
        while slot < NEIGHBORHOOD
            invariant
                slot <= NEIGHBORHOOD,
                block == self.chunk(0)@[0],
                forall|s: int, i: int|
                    0 <= s < slot && 0 <= i < CHUNK_SIZE3 ==> #[trigger] self.chunk(s)@[i] == block,
            decreases NEIGHBORHOOD - slot,
        {
            let chunk = &self.adjacent_chunks[slot];
            let count = chunk.voxel_count();
            if !chunk.is_homogenous() {
                proof {
                    let c = self.chunk(slot as int)@;
                    if self.all_same() {
                        assert forall|i: int, j: int|
                            0 <= i < c.len() && 0 <= j < c.len() implies c[i] == c[j] by {
                            assert(self.chunk(slot as int)@[i] == self.chunk(0)@[0]);
                            assert(self.chunk(slot as int)@[j] == self.chunk(0)@[0]);
                        }
                    }
                }
                return false;
            }
            if chunk.get_block(VoxelIndex(0)) != block {
                proof {
                    assert(self.chunk(slot as int)@[0] != self.chunk(0)@[0]);
                }
                return false;
            }
            proof {
                let c = self.chunk(slot as int)@;
                assert forall|i: int| 0 <= i < CHUNK_SIZE3 implies c[i] == block by {
                    assert(c[i] == c[0]);
                }
            }
            slot += 1;
        }
        true
    }

    /// Whether every block of all 27 chunks is known to `registry`.
    #[must_use]
    pub fn is_registered_in(&self, registry: &BlockPrototypes) -> (r: bool)
        ensures
            r == self.registered_in(registry),
    {
        let limit = registry.len();
        let mut slot: usize = 0;
        while slot < NEIGHBORHOOD
            invariant
                slot <= NEIGHBORHOOD,
                limit == registry@.len(),
                forall|s: int, i: int|
                    0 <= s < slot && 0 <= i < CHUNK_SIZE3 ==> registry.knows(
                        #[trigger] self.chunk(s)@[i],
                    ),
            decreases NEIGHBORHOOD - slot,
        {
            if !self.adjacent_chunks[slot].all_blocks_below(limit) {
                proof {
                    let c = self.chunk(slot as int);
                    let i = choose|i: int| 0 <= i < CHUNK_SIZE3 && !(c@[i] < limit);
                    assert(!registry.knows(self.chunk(slot as int)@[i]));
                }
                return false;
            }
            slot += 1;
        }
        true
    }

    /// Splits a position that may lie up to one chunk outside the centre
    /// chunk into the slot of the chunk that holds it and the voxel's index
    /// within that chunk. Positions below zero belong to the neighbour on the
    /// low side: -1 is the last voxel of that neighbour.
    #[must_use]
    pub fn local_to_neighbor_slot(pos: RelativePosition) -> (r: (usize, VoxelIndex))
        requires
            in_reach(pos.x as int, pos.y as int, pos.z as int),
        ensures
            r.0 == slot_of(pos.x as int, pos.y as int, pos.z as int),
            r.0 < NEIGHBORHOOD,
            r.1.0 == local_of(pos.x as int, pos.y as int, pos.z as int),
            r.1.valid(),
    {
        let x = (pos.x + 32) as usize;
        let y = (pos.y + 32) as usize;
        let z = (pos.z + 32) as usize;
        let slot = Self::vec3_to_chunk_index(
            Position::new((x / 32) as i32, (y / 32) as i32, (z / 32) as i32),
        );
        (slot, VoxelIndex::new(x % 32, y % 32, z % 32))
    }

    /// The identifier of the block at `pos`, which may lie up to one chunk
    /// outside the centre chunk.
    #[must_use]
    pub fn block_id(&self, pos: RelativePosition) -> (id: BlockId)
        requires
            in_reach(pos.x as int, pos.y as int, pos.z as int),
        ensures
            id == self.block_id_at(pos.x as int, pos.y as int, pos.z as int),
    {
        let (slot, index) = Self::local_to_neighbor_slot(pos);
        self.adjacent_chunks[slot].get_block(index)
    }

    /// helper function to get block data that may exceed the bounds of the middle chunk
    /// input position is local pos to middle chunk
    #[must_use]
    pub fn get_block<'a>(&self, registry: &'a BlockPrototypes, pos: RelativePosition) -> (block:
        &'a BlockPrototype)
        requires
            in_reach(pos.x as int, pos.y as int, pos.z as int),
            registry.knows(self.block_id_at(pos.x as int, pos.y as int, pos.z as int)),
        ensures
            *block == registry@[self.block_id_at(pos.x as int, pos.y as int, pos.z as int) as int],
            block.id == self.block_id_at(pos.x as int, pos.y as int, pos.z as int),
    {
        let id = self.block_id(pos);
        registry.block(id)
    }

    /// helper function to get voxels
    /// the position lies inside the middle chunk
    #[must_use]
    pub fn get_block_no_neighbour<'a>(
        &self,
        registry: &'a BlockPrototypes,
        pos: RelativePosition,
    ) -> (block: &'a BlockPrototype)
        requires
            in_center(pos.x as int, pos.y as int, pos.z as int),
            registry.knows(self.block_id_at(pos.x as int, pos.y as int, pos.z as int)),
        ensures
            *block == registry@[self.block_id_at(pos.x as int, pos.y as int, pos.z as int) as int],
            block.id == self.block_id_at(pos.x as int, pos.y as int, pos.z as int),
    {
        let id = self.adjacent_chunks[CENTER_SLOT].get_block(VoxelIndex::from_position(pos));
        registry.block(id)
    }

    /// helper function to sample the voxel and its back, left and down neighbours
    #[must_use]
    pub fn get_adjacent_blocks<'a>(
        &self,
        registry: &'a BlockPrototypes,
        pos: RelativePosition,
        // current back, left, down
    ) -> (r: (&'a BlockPrototype, &'a BlockPrototype, &'a BlockPrototype, &'a BlockPrototype))
        requires
            self.registered_in(registry),
            in_reach(pos.x as int, pos.y as int, pos.z as int),
            in_reach(pos.x - 1, pos.y - 1, pos.z - 1),
        ensures
            r.0.id == self.block_id_at(pos.x as int, pos.y as int, pos.z as int),
            r.1.id == self.block_id_at(pos.x as int, pos.y as int, pos.z - 1),
            r.2.id == self.block_id_at(pos.x - 1, pos.y as int, pos.z as int),
            r.3.id == self.block_id_at(pos.x as int, pos.y - 1, pos.z as int),
            *r.0 == registry@[r.0.id as int],
            *r.1 == registry@[r.1.id as int],
            *r.2 == registry@[r.2.id as int],
            *r.3 == registry@[r.3.id as int],
    {
        let current = self.sample(registry, pos.x, pos.y, pos.z);
        let back = self.sample(registry, pos.x, pos.y, pos.z - 1);
        let left = self.sample(registry, pos.x - 1, pos.y, pos.z);
        let down = self.sample(registry, pos.x, pos.y - 1, pos.z);
        (current, back, left, down)
    }

    /// helper function to sample the six voxels that share a face with the voxel
    /// (its von Neumann neighbours)
    #[must_use]
    pub fn get_von_neumann<'a>(&self, registry: &'a BlockPrototypes, pos: RelativePosition) -> (r:
        [(Direction, &'a BlockPrototype); 6])
        requires
            self.registered_in(registry),
            in_reach(pos.x - 1, pos.y - 1, pos.z - 1),
            in_reach(pos.x + 1, pos.y + 1, pos.z + 1),
        ensures
            r@[0].0 == Direction::Back && r@[0].1.id == self.block_id_at(
                pos.x as int,
                pos.y as int,
                pos.z - 1,
            ),
            r@[1].0 == Direction::Forward && r@[1].1.id == self.block_id_at(
                pos.x as int,
                pos.y as int,
                pos.z + 1,
            ),
            r@[2].0 == Direction::Down && r@[2].1.id == self.block_id_at(
                pos.x as int,
                pos.y - 1,
                pos.z as int,
            ),
            r@[3].0 == Direction::Up && r@[3].1.id == self.block_id_at(
                pos.x as int,
                pos.y + 1,
                pos.z as int,
            ),
            r@[4].0 == Direction::Left && r@[4].1.id == self.block_id_at(
                pos.x - 1,
                pos.y as int,
                pos.z as int,
            ),
            r@[5].0 == Direction::Right && r@[5].1.id == self.block_id_at(
                pos.x + 1,
                pos.y as int,
                pos.z as int,
            ),
            forall|k: int| 0 <= k < 6 ==> *(#[trigger] r@[k]).1 == registry@[r@[k].1.id as int],
    {
        [
            (Direction::Back, self.sample(registry, pos.x, pos.y, pos.z - 1)),
            (Direction::Forward, self.sample(registry, pos.x, pos.y, pos.z + 1)),
            (Direction::Down, self.sample(registry, pos.x, pos.y - 1, pos.z)),
            (Direction::Up, self.sample(registry, pos.x, pos.y + 1, pos.z)),
            (Direction::Left, self.sample(registry, pos.x - 1, pos.y, pos.z)),
            (Direction::Right, self.sample(registry, pos.x + 1, pos.y, pos.z)),
        ]
    }

    #[must_use]
    pub fn get_2<'a>(
        &self,
        registry: &'a BlockPrototypes,
        pos: RelativePosition,
        offset: RelativePosition,
    ) -> (r: (&'a BlockPrototype, &'a BlockPrototype))
        requires
            self.registered_in(registry),
            in_reach(pos.x as int, pos.y as int, pos.z as int),
            in_reach(pos.x + offset.x, pos.y + offset.y, pos.z + offset.z),
        ensures
            r.0.id == self.block_id_at(pos.x as int, pos.y as int, pos.z as int),
            r.1.id == self.block_id_at(pos.x + offset.x, pos.y + offset.y, pos.z + offset.z),
            *r.0 == registry@[r.0.id as int],
            *r.1 == registry@[r.1.id as int],
    {
        let first = self.sample(registry, pos.x, pos.y, pos.z);
        let second = self.sample(registry, pos.x + offset.x, pos.y + offset.y, pos.z + offset.z);
        (first, second)
    }

    /// The prototype of the block at `(x, y, z)`.
    #[must_use]
    pub fn sample<'a>(&self, registry: &'a BlockPrototypes, x: i32, y: i32, z: i32) -> (block:
        &'a BlockPrototype)
        requires
            self.registered_in(registry),
            in_reach(x as int, y as int, z as int),
        ensures
            block.id == self.block_id_at(x as int, y as int, z as int),
            *block == registry@[block.id as int],
            registry.knows(block.id),
    {
        proof {
            self.lemma_block_registered(registry, x as int, y as int, z as int);
        }
        self.get_block(registry, RelativePosition::new(x, y, z))
    }

    /// Where every block of the 27 chunks is registered, so is the block at
    /// any position in reach.
    pub proof fn lemma_block_registered(&self, registry: &BlockPrototypes, x: int, y: int, z: int)
        requires
            self.registered_in(registry),
            in_reach(x, y, z),
        ensures
            0 <= slot_of(x, y, z) < NEIGHBORHOOD,
            0 <= local_of(x, y, z) < CHUNK_SIZE3,
            registry.knows(self.block_id_at(x, y, z)),
    {
        let slot = slot_of(x, y, z);
        let i = local_of(x, y, z);
        assert(registry.knows(self.chunk(slot)@[i]));
    }

    #[must_use]
    pub fn vec3_to_chunk_index(vec: Position) -> (slot: usize)
        requires
            0 <= vec.x < 3,
            0 <= vec.y < 3,
            0 <= vec.z < 3,
        ensures
            slot == vec.x + vec.y * 3 + vec.z * 9,
            slot < NEIGHBORHOOD,
    {
        let x_i = vec.x % 3;
        let y_i = vec.y * 3;
        let z_i = vec.z * (3 * 3);
        (x_i + y_i + z_i) as usize
    }
}

} // verus!
