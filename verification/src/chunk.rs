//! The voxel container of one chunk and the indexing of voxels inside it.

use vstd::prelude::*;
use vstd::std_specs::convert::FromSpecImpl;
use crate::position::ChunkPosition;
use crate::position::RelativePosition;

verus! {

/// 32^3 voxels per chunk keeps every coordinate of a quad within five bits.
pub const CHUNK_SIZE: usize = 32;

pub const CHUNK_SIZE_U16: u16 = 32;

pub const CHUNK_SIZE_U32: u32 = 32;

/// The side length with one voxel of padding on either side.
pub const CHUNK_SIZE_P: usize = 34;

pub const CHUNK_SIZE_P2: usize = 1156;

pub const CHUNK_SIZE_P3: usize = 39304;

pub const CHUNK_SIZE2: usize = 1024;

pub const CHUNK_SIZE2_I32: i32 = 1024;

pub const CHUNK_SIZE3: usize = 32768;

pub const CHUNK_SIZE3_I32: i32 = 32768;

/// The identifier of a block kind, as stored in every voxel slot.
pub type BlockId = u16;

/// The index of a voxel within a chunk.
/// Each chunk contains `CHUNK_SIZE3` voxels.
#[derive(Debug, Hash, Clone, Copy, PartialEq, Eq, Structural)]
pub struct VoxelIndex(pub usize);

impl VoxelIndex {
    /// The flat index of the voxel at local coordinates `(x, y, z)`:
    /// x varies fastest, z slowest.
    pub open spec fn flat(x: int, y: int, z: int) -> int {
        x + y * 32 + z * 1024
    }

    /// The local coordinates of the voxel with flat index `i`.
    pub open spec fn coords(i: int) -> (int, int, int) {
        (i % 32, (i / 32) % 32, i / 1024)
    }

    /// True when the index names a voxel of a chunk.
    pub open spec fn valid(self) -> bool {
        self.0 < CHUNK_SIZE3
    }

    #[must_use]
    pub fn new(x: usize, y: usize, z: usize) -> (index: Self)
        requires
            x < CHUNK_SIZE,
            y < CHUNK_SIZE,
            z < CHUNK_SIZE,
        ensures
            index.0 == Self::flat(x as int, y as int, z as int),
            index.valid(),
    {
        VoxelIndex(x + y * CHUNK_SIZE + z * CHUNK_SIZE * CHUNK_SIZE)
    }

    #[inline]
    #[must_use]
    pub fn i(self) -> (i: usize)
        ensures
            i == self.0,
    {
        self.0
    }

    /// The index of the voxel at a position inside the chunk.
    #[must_use]
    pub fn from_position(value: RelativePosition) -> (index: Self)
        requires
            0 <= value.x < 32,
            0 <= value.y < 32,
            0 <= value.z < 32,
        ensures
            index.0 == Self::flat(value.x as int, value.y as int, value.z as int),
            index.valid(),
    {
        Self::new(value.x as usize, value.y as usize, value.z as usize)
    }
}

/// Coordinates and flat index determine each other: taking the coordinates
/// of the index of `(x, y, z)` gives `(x, y, z)` back.
pub proof fn lemma_coords_of_flat(x: int, y: int, z: int)
    requires
        0 <= x < 32,
        0 <= y < 32,
        0 <= z < 32,
    ensures
        0 <= VoxelIndex::flat(x, y, z) < CHUNK_SIZE3,
        VoxelIndex::coords(VoxelIndex::flat(x, y, z)) == (x, y, z),
{
    let i = x + y * 32 + z * 1024;
    assert(i / 32 == y + z * 32);
    assert(i % 32 == x);
    assert((y + z * 32) % 32 == y);
    assert(i / 1024 == z);
}

/// Coordinates and flat index determine each other: taking the index of the
/// coordinates of `i` gives `i` back, and the coordinates lie in the chunk.
pub proof fn lemma_flat_of_coords(i: int)
    requires
        0 <= i < CHUNK_SIZE3,
    ensures
        ({
            let c = VoxelIndex::coords(i);
            &&& 0 <= c.0 < 32 && 0 <= c.1 < 32 && 0 <= c.2 < 32
            &&& VoxelIndex::flat(c.0, c.1, c.2) == i
        }),
{
    let q = i / 32;
    assert(i == 32 * q + i % 32);
    assert(q == 32 * (q / 32) + q % 32);
    assert(q / 32 == i / 1024);
}

impl FromSpecImpl<usize> for VoxelIndex {
    open spec fn obeys_from_spec() -> bool {
        true
    }

    open spec fn from_spec(value: usize) -> VoxelIndex {
        VoxelIndex(value)
    }
}

impl From<usize> for VoxelIndex {
    fn from(value: usize) -> Self {
        VoxelIndex(value)
    }
}

impl FromSpecImpl<VoxelIndex> for RelativePosition {
    open spec fn obeys_from_spec() -> bool {
        true
    }

    open spec fn from_spec(value: VoxelIndex) -> RelativePosition {
        RelativePosition {
            x: (value.0 % 32) as i32,
            y: ((value.0 / 32) % 32) as i32,
            z: (value.0 / 1024) as i32,
        }
    }
}

impl From<VoxelIndex> for RelativePosition {
    fn from(value: VoxelIndex) -> Self {
        let x = value.0 % CHUNK_SIZE;
        let y = (value.0 / CHUNK_SIZE) % CHUNK_SIZE;
        let z = value.0 / (CHUNK_SIZE * CHUNK_SIZE);
        RelativePosition { x: x as i32, y: y as i32, z: #[verifier::truncate] (z as i32) }
    }
}

/// True when all entries of `s` are the same value.
pub open spec fn uniform(s: Seq<BlockId>) -> bool {
    forall|i: int, j: int| 0 <= i < s.len() && 0 <= j < s.len() ==> s[i] == s[j]
}

/// The voxels of a chunk in which every voxel holds `block`.
pub open spec fn filled(block: BlockId) -> Seq<BlockId> {
    Seq::new(CHUNK_SIZE3 as nat, |i: int| block)
}

enum Voxels {
    Heterogeneous(Vec<BlockId>),
    Homogeneous(BlockId),
}

impl Voxels {
    #[verifier::type_invariant]
    spec fn inv(self) -> bool {
        match self {
            Voxels::Heterogeneous(v) => v.len() == CHUNK_SIZE3 && !uniform(v@),
            Voxels::Homogeneous(_) => true,
        }
    }

    spec fn contents(self) -> Seq<BlockId> {
        match self {
            Voxels::Heterogeneous(v) => v@,
            Voxels::Homogeneous(b) => filled(b),
        }
    }
}

/// The voxels of one chunk: one block identifier per voxel. A chunk whose
/// voxels are all alike stores that one identifier and no array.
pub struct ChunkData {
    position: ChunkPosition,
    voxels: Voxels,
}

/// True when every entry of `v` is `block`.
fn all_equal_to(v: &Vec<BlockId>, block: BlockId) -> (r: bool)
    ensures
        r <==> forall|i: int| 0 <= i < v.len() ==> v[i] == block,
{
    let mut i: usize = 0;
    while i < v.len()
        invariant
            i <= v.len(),
            forall|j: int| 0 <= j < i ==> v[j] == block,
        decreases v.len() - i,
    {
        if v[i] != block {
            return false;
        }
        i += 1;
    }
    true
}

/// Stores `v` in the more compact of the two forms.
fn pack_voxels(v: Vec<BlockId>) -> (r: Voxels)
    requires
        v.len() == CHUNK_SIZE3,
    ensures
        r.inv(),
        r.contents() == v@,
{
    let first = v[0];
    if all_equal_to(&v, first) {
        proof {
            assert(v@ =~= filled(first));
        }
        Voxels::Homogeneous(first)
    } else {
        Voxels::Heterogeneous(v)
    }
}

impl ChunkData {
    /// The block identifier of every voxel, by flat index.
    pub closed spec fn view(&self) -> Seq<BlockId> {
        self.voxels.contents()
    }

    /// The coordinate this chunk was made for.
    pub closed spec fn position_spec(&self) -> ChunkPosition {
        self.position
    }

    /// The coordinate this chunk was made for.
    #[inline]
    #[must_use]
    #[verifier::when_used_as_spec(position_spec)]
    pub fn position(&self) -> (p: ChunkPosition)
        ensures
            p == self.position_spec(),
    {
        self.position
    }

    /// The number of voxels, which is `CHUNK_SIZE3` for every chunk.
    #[inline]
    #[must_use]
    pub fn voxel_count(&self) -> (n: usize)
        ensures
            n == CHUNK_SIZE3,
            self@.len() == n,
    {
        proof {
            use_type_invariant(&self.voxels);
        }
        CHUNK_SIZE3
    }

    /// A chunk in which every voxel holds `block`.
    #[must_use]
    pub fn homogeneous(position: ChunkPosition, block: BlockId) -> (c: Self)
        ensures
            c.position() == position,
            c@ == filled(block),
    {
        ChunkData { position, voxels: Voxels::Homogeneous(block) }
    }

    /// A chunk with the given voxels, one per flat index. Nothing is built
    /// from a vector of another length.
    #[must_use]
    pub fn from_voxels(position: ChunkPosition, voxels: Vec<BlockId>) -> (r: Option<Self>)
        ensures
            r is Some <==> voxels.len() == CHUNK_SIZE3,
            r is Some ==> r->0.position() == position && r->0@ == voxels@,
    {
        if voxels.len() != CHUNK_SIZE3 {
            return None;
        }
        Some(ChunkData { position, voxels: pack_voxels(voxels) })
    }

    #[inline]
    #[must_use]
    pub fn get_block(&self, index: VoxelIndex) -> (block: BlockId)
        requires
            index.valid(),
        ensures
            block == self@[index.0 as int],
    {
        proof {
            use_type_invariant(&self.voxels);
        }
        match &self.voxels {
            Voxels::Homogeneous(block) => *block,
            Voxels::Heterogeneous(voxels) => voxels[index.0],
        }
    }

    /// Writes one voxel. A chunk stored as a single value grows an array on
    /// the first write of another value; an array that the write makes
    /// uniform shrinks back to a single value.
    pub fn set_block(&mut self, index: VoxelIndex, block: BlockId)
        requires
            index.valid(),
        ensures
            final(self).position() == old(self).position(),
            final(self)@ == old(self)@.update(index.0 as int, block),
    {
        proof {
            use_type_invariant(&self.voxels);
        }
        let mut taken = Voxels::Homogeneous(block);
        core::mem::swap(&mut self.voxels, &mut taken);
        match taken {
            Voxels::Homogeneous(old_block) => {
                if old_block == block {
                    proof {
                        assert(filled(block) =~= filled(block).update(index.0 as int, block));
                    }
                } else {
                    let mut new_voxels: Vec<BlockId> = vec![old_block; CHUNK_SIZE3];
                    new_voxels.set(index.0, block);
                    proof {
                        let other: int = if index.0 == 0 { 1 } else { 0 };
                        assert(new_voxels@[other] == old_block);
                        assert(new_voxels@[index.0 as int] == block);
                        assert(new_voxels@ =~= filled(old_block).update(index.0 as int, block));
                    }
                    self.voxels = Voxels::Heterogeneous(new_voxels);
                }
            },
            Voxels::Heterogeneous(mut voxels) => {
                voxels.set(index.0, block);
                let homogeneous = all_equal_to(&voxels, block);
                if homogeneous {
                    proof {
                        assert(voxels@ =~= filled(block));
                    }
                } else {
                    proof {
                        assert(voxels@[index.0 as int] == block);
                    }
                    self.voxels = Voxels::Heterogeneous(voxels);
                }
            },
        }
    }

    /// Writes a batch of voxels, later entries over earlier ones, and looks
    /// for uniformity once, after the last write.
    pub fn set_blocks(&mut self, edits: &Vec<(VoxelIndex, BlockId)>)
        requires
            forall|k: int| 0 <= k < edits.len() ==> (#[trigger] edits[k]).0.valid(),
        ensures
            final(self).position() == old(self).position(),
            final(self)@ == apply_edits(old(self)@, edits@, edits.len() as int),
    {
        proof {
            use_type_invariant(&self.voxels);
        }
        if edits.len() == 0 {
            return ;
        }
        let mut taken = Voxels::Homogeneous(0);
        core::mem::swap(&mut self.voxels, &mut taken);
        let mut voxels: Vec<BlockId> = match taken {
            Voxels::Homogeneous(old_block) => {
                let v = vec![old_block; CHUNK_SIZE3];
                proof {
                    assert(v@ =~= filled(old_block));
                }
                v
            },
            Voxels::Heterogeneous(voxels) => voxels,
        };
        let mut k: usize = 0;
        while k < edits.len()
            invariant
                k <= edits.len(),
                voxels.len() == CHUNK_SIZE3,
                forall|j: int| 0 <= j < edits.len() ==> (#[trigger] edits[j]).0.valid(),
                voxels@ == apply_edits(old(self)@, edits@, k as int),
            decreases edits.len() - k,
        {
            let (index, block) = edits[k];
            voxels.set(index.0, block);
            k += 1;
        }
        self.voxels = pack_voxels(voxels);
    }

    #[inline]
    #[must_use]
    pub fn is_homogenous(&self) -> (r: bool)
        ensures
            r <==> uniform(self@),
    {
        proof {
            use_type_invariant(&self.voxels);
        }
        match &self.voxels {
            Voxels::Heterogeneous(_) => false,
            Voxels::Homogeneous(_) => true,
        }
    }

    /// Whether every voxel holds an identifier below `limit`.
    #[must_use]
    pub fn all_blocks_below(&self, limit: usize) -> (r: bool)
        ensures
            r <==> forall|i: int| 0 <= i < CHUNK_SIZE3 ==> self@[i] < limit,
    {
        proof {
            use_type_invariant(&self.voxels);
        }
        match &self.voxels {
            Voxels::Homogeneous(block) => {
                proof {
                    assert(self@[0] == *block);
                }
                (*block as usize) < limit
            },
            Voxels::Heterogeneous(voxels) => {
                let mut i: usize = 0;
                while i < CHUNK_SIZE3
                    invariant
                        i <= CHUNK_SIZE3,
                        voxels.len() == CHUNK_SIZE3,
                        voxels@ == self@,
                        forall|j: int| 0 <= j < i ==> voxels[j] < limit,
                    decreases CHUNK_SIZE3 - i,
                {
                    if voxels[i] as usize >= limit {
                        return false;
                    }
                    i += 1;
                }
                true
            },
        }
    }

    /// A chunk of its own with the same position and voxels.
    #[must_use]
    pub fn duplicate(&self) -> (c: Self)
        ensures
            c.position() == self.position(),
            c@ == self@,
    {
        proof {
            use_type_invariant(&self.voxels);
        }
        match &self.voxels {
            Voxels::Homogeneous(block) => ChunkData {
                position: self.position,
                voxels: Voxels::Homogeneous(*block),
            },
            Voxels::Heterogeneous(voxels) => {
                let copy = voxels.clone();
                proof {
                    assert(copy@ =~= voxels@);
                }
                ChunkData { position: self.position, voxels: Voxels::Heterogeneous(copy) }
            },
        }
    }

    /// The terrain of a chunk. Chunks that lie wholly above the highest
    /// terrain are air throughout and those wholly below the lowest are
    /// ground throughout; in between, voxel `i` is air where `is_air[i]`
    /// holds and ground elsewhere.
    #[must_use]
    pub fn generate(
        air: BlockId,
        ground: BlockId,
        chunk_position: ChunkPosition,
        is_air: &Vec<bool>,
    ) -> (r: Option<Self>)
        ensures
            r is Some <==> (altitude_band(chunk_position) != AltitudeBand::Surface || is_air.len()
                == CHUNK_SIZE3),
            r is Some ==> r->0.position() == chunk_position && r->0@ == terrain(
                air,
                ground,
                chunk_position,
                is_air@,
            ),
    {
        match band_of(chunk_position) {
            AltitudeBand::Sky => Some(ChunkData::homogeneous(chunk_position, air)),
            AltitudeBand::Deep => Some(ChunkData::homogeneous(chunk_position, ground)),
            AltitudeBand::Surface => {
                if is_air.len() != CHUNK_SIZE3 {
                    return None;
                }
                let mut voxels: Vec<BlockId> = Vec::with_capacity(CHUNK_SIZE3);
                let mut i: usize = 0;
                while i < CHUNK_SIZE3
                    invariant
                        i <= CHUNK_SIZE3,
                        is_air.len() == CHUNK_SIZE3,
                        voxels.len() == i,
                        forall|j: int|
                            0 <= j < i ==> voxels[j] == (if is_air[j] {
                                air
                            } else {
                                ground
                            }),
                    decreases CHUNK_SIZE3 - i,
                {
                    voxels.push(if is_air[i] { air } else { ground });
                    i += 1;
                }
                proof {
                    assert(voxels@ =~= terrain(air, ground, chunk_position, is_air@));
                }
                ChunkData::from_voxels(chunk_position, voxels)
            },
        }
    }
}

/// The voxels after the first `n` of `edits` were written, in order.
pub open spec fn apply_edits(
    voxels: Seq<BlockId>,
    edits: Seq<(VoxelIndex, BlockId)>,
    n: int,
) -> Seq<BlockId>
    decreases n,
{
    if n <= 0 {
        voxels
    } else {
        apply_edits(voxels, edits, n - 1).update(edits[n - 1].0.0 as int, edits[n - 1].1)
    }
}

/// Where a chunk lies relative to the terrain.
#[derive(Debug, Clone, Copy, PartialEq, Eq, Structural)]
pub enum AltitudeBand {
    /// Wholly above the highest terrain.
    Sky,
    /// Wholly below the lowest terrain.
    Deep,
    /// Where the surface may run.
    Surface,
}

/// The band of a chunk: by the height of its lowest voxel layer.
pub open spec fn altitude_band(chunk_position: ChunkPosition) -> AltitudeBand {
    if chunk_position.y * 32 > 285 {
        AltitudeBand::Sky
    } else if chunk_position.y * 32 < -160 {
        AltitudeBand::Deep
    } else {
        AltitudeBand::Surface
    }
}

/// The band of a chunk.
#[must_use]
pub fn band_of(chunk_position: ChunkPosition) -> (band: AltitudeBand)
    ensures
        band == altitude_band(chunk_position),
{
    let height: i64 = chunk_position.y as i64 * 32;
    if height > 285 {
        AltitudeBand::Sky
    } else if height < -160 {
        AltitudeBand::Deep
    } else {
        AltitudeBand::Surface
    }
}

/// The voxels of a generated chunk.
pub open spec fn terrain(
    air: BlockId,
    ground: BlockId,
    chunk_position: ChunkPosition,
    is_air: Seq<bool>,
) -> Seq<BlockId> {
    match altitude_band(chunk_position) {
        AltitudeBand::Sky => filled(air),
        AltitudeBand::Deep => filled(ground),
        AltitudeBand::Surface => Seq::new(
            CHUNK_SIZE3 as nat,
            |i: int|
                if is_air[i] {
                    air
                } else {
                    ground
                },
        ),
    }
}

} // verus!
