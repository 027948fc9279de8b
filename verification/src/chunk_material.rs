//! Quads as they are handed to the renderer: one 32-bit word each.

use vstd::prelude::*;
use crate::position::ChunkPosition;
use crate::position::Position;

verus! {

/// We draw quads instead of triangles.
/// This struct represents bit packed data for each quad ready to be sent to the GPU.
#[derive(Clone, Copy, Debug, PartialEq, Eq, Structural)]
pub struct PackedQuad {
    /// Represents bit-packed instance data for every quad.
    /// FORMAT, from the lowest bit up:
    /// x: 5 bits, y: 5 bits, z: 5 bits, normal: 3 bits, ao: 2 bits,
    /// x stretch: 5 bits, y stretch: 5 bits; the top 2 bits are free.
    /// A stretch of `n` voxels is stored as `n - 1`, so that stretches of 1
    /// up to 32 fit in five bits.
    pub packed_u32: u32,
}

/// The word that holds the given fields, each at its place.
pub open spec fn packed_word(
    x: int,
    y: int,
    z: int,
    normal: int,
    ao: int,
    x_stretch: int,
    y_stretch: int,
) -> int {
    x + y * 0x20 + z * 0x400 + normal * 0x8000 + ao * 0x4_0000 + (x_stretch - 1) * 0x10_0000 + (
    y_stretch - 1) * 0x200_0000
}

impl PackedQuad {
    /// The x coordinate of the voxel that the quad starts at.
    pub open spec fn x_spec(self) -> int {
        self.packed_u32 as int % 0x20
    }

    /// The y coordinate of the voxel that the quad starts at.
    pub open spec fn y_spec(self) -> int {
        (self.packed_u32 as int / 0x20) % 0x20
    }

    /// The z coordinate of the voxel that the quad starts at.
    pub open spec fn z_spec(self) -> int {
        (self.packed_u32 as int / 0x400) % 0x20
    }

    /// The number of the direction that the quad faces.
    pub open spec fn normal_spec(self) -> int {
        (self.packed_u32 as int / 0x8000) % 8
    }

    /// The stored occlusion level.
    pub open spec fn ao_spec(self) -> int {
        (self.packed_u32 as int / 0x4_0000) % 4
    }

    /// The extent along the first in-plane axis, in voxels.
    pub open spec fn x_stretch_spec(self) -> int {
        (self.packed_u32 as int / 0x10_0000) % 0x20 + 1
    }

    /// The extent along the second in-plane axis, in voxels.
    pub open spec fn y_stretch_spec(self) -> int {
        (self.packed_u32 as int / 0x200_0000) % 0x20 + 1
    }

    /// Packs a quad. The occlusion level is not derived from the occlusion
    /// samples yet: the field is stored as zero whatever `_ao` holds.
    #[inline]
    #[must_use]
    pub fn new(position: Position, normal: u32, _ao: u32, x_stretch: u32, y_stretch: u32) -> (q:
        PackedQuad)
        requires
            0 <= position.x < 32,
            0 <= position.y < 32,
            0 <= position.z < 32,
            normal < 6,
            1 <= x_stretch <= 32,
            1 <= y_stretch <= 32,
        ensures
            q.packed_u32 == packed_word(
                position.x as int,
                position.y as int,
                position.z as int,
                normal as int,
                0,
                x_stretch as int,
                y_stretch as int,
            ),
            q.x_spec() == position.x,
            q.y_spec() == position.y,
            q.z_spec() == position.z,
            q.normal_spec() == normal,
            q.ao_spec() == 0,
            q.x_stretch_spec() == x_stretch,
            q.y_stretch_spec() == y_stretch,
    {
        let x = position.x as u32;
        let y = position.y as u32;
        let z = position.z as u32;
        let ao: u32 = 0;
        let x_stretch = x_stretch - 1;
        let y_stretch = y_stretch - 1;
        let packed_u32: u32 = x | (y << 5u32) | (z << 10u32) | (normal << 15u32) | (ao << 18u32) | (
        x_stretch << 20u32) | (y_stretch << 25u32);
        assert(packed_u32 == x + y * 0x20 + z * 0x400 + normal * 0x8000 + x_stretch * 0x10_0000
            + y_stretch * 0x200_0000) by (bit_vector)
            requires
                x < 32,
                y < 32,
                z < 32,
                normal < 8,
                ao == 0,
                x_stretch < 32,
                y_stretch < 32,
                packed_u32 == x | (y << 5u32) | (z << 10u32) | (normal << 15u32) | (ao << 18u32) | (
                x_stretch << 20u32) | (y_stretch << 25u32),
        ;
        let q = PackedQuad { packed_u32 };
        proof {
            lemma_unpack(
                x as int,
                y as int,
                z as int,
                normal as int,
                0,
                x_stretch + 1,
                y_stretch + 1,
            );
        }
        q
    }

    /// The x coordinate of the voxel that the quad starts at.
    #[must_use]
    pub fn x(self) -> (v: u32)
        ensures
            v == self.x_spec(),
    {
        self.packed_u32 % 0x20
    }

    /// The y coordinate of the voxel that the quad starts at.
    #[must_use]
    pub fn y(self) -> (v: u32)
        ensures
            v == self.y_spec(),
    {
        (self.packed_u32 / 0x20) % 0x20
    }

    /// The z coordinate of the voxel that the quad starts at.
    #[must_use]
    pub fn z(self) -> (v: u32)
        ensures
            v == self.z_spec(),
    {
        (self.packed_u32 / 0x400) % 0x20
    }

    /// The number of the direction that the quad faces.
    #[must_use]
    pub fn normal(self) -> (v: u32)
        ensures
            v == self.normal_spec(),
    {
        (self.packed_u32 / 0x8000) % 8
    }

    /// The stored occlusion level.
    #[must_use]
    pub fn ao(self) -> (v: u32)
        ensures
            v == self.ao_spec(),
    {
        (self.packed_u32 / 0x4_0000) % 4
    }

    /// The extent along the first in-plane axis, in voxels.
    #[must_use]
    pub fn x_stretch(self) -> (v: u32)
        ensures
            v == self.x_stretch_spec(),
    {
        (self.packed_u32 / 0x10_0000) % 0x20 + 1
    }

    /// The extent along the second in-plane axis, in voxels.
    #[must_use]
    pub fn y_stretch(self) -> (v: u32)
        ensures
            v == self.y_stretch_spec(),
    {
        (self.packed_u32 / 0x200_0000) % 0x20 + 1
    }
}

/// Every field of a packed word is read back as it was written.
pub proof fn lemma_unpack(
    x: int,
    y: int,
    z: int,
    normal: int,
    ao: int,
    x_stretch: int,
    y_stretch: int,
)
    requires
        0 <= x < 32,
        0 <= y < 32,
        0 <= z < 32,
        0 <= normal < 8,
        0 <= ao < 4,
        1 <= x_stretch <= 32,
        1 <= y_stretch <= 32,
    ensures
        ({
            let w = packed_word(x, y, z, normal, ao, x_stretch, y_stretch);
            &&& 0 <= w < 0x4000_0000
            &&& w % 0x20 == x
            &&& (w / 0x20) % 0x20 == y
            &&& (w / 0x400) % 0x20 == z
            &&& (w / 0x8000) % 8 == normal
            &&& (w / 0x4_0000) % 4 == ao
            &&& (w / 0x10_0000) % 0x20 + 1 == x_stretch
            &&& (w / 0x200_0000) % 0x20 + 1 == y_stretch
        }),
{
    let w = packed_word(x, y, z, normal, ao, x_stretch, y_stretch);
    let a1 = y + z * 0x20 + normal * 0x400 + ao * 0x2000 + (x_stretch - 1) * 0x8000 + (y_stretch
        - 1) * 0x10_0000;
    assert(w == x + a1 * 0x20);
    assert(w / 0x20 == a1);
    let a2 = z + normal * 0x20 + ao * 0x100 + (x_stretch - 1) * 0x400 + (y_stretch - 1) * 0x8000;
    assert(a1 == y + a2 * 0x20);
    assert(w / 0x400 == a2);
    let a3 = normal + ao * 8 + (x_stretch - 1) * 0x20 + (y_stretch - 1) * 0x400;
    assert(a2 == z + a3 * 0x20);
    assert(w / 0x8000 == a3);
    let a4 = ao + (x_stretch - 1) * 4 + (y_stretch - 1) * 0x80;
    assert(a3 == normal + a4 * 8);
    assert(w / 0x4_0000 == a4);
    let a5 = (x_stretch - 1) + (y_stretch - 1) * 0x20;
    assert(a4 == ao + a5 * 4);
    assert(w / 0x10_0000 == a5);
    assert(w / 0x200_0000 == y_stretch - 1);
}

/// The quads of one chunk, as the renderer takes them.
#[derive(Debug)]
pub struct RenderableChunk {
    pub quads: Vec<PackedQuad>,
    pub chunk_position: ChunkPosition,
}

impl RenderableChunk {
    #[must_use]
    pub fn new(quads: Vec<PackedQuad>, chunk_position: ChunkPosition) -> (r: Self)
        ensures
            r.quads == quads,
            r.chunk_position == chunk_position,
    {
        RenderableChunk { quads, chunk_position }
    }

    #[must_use]
    pub fn chunk_position(&self) -> (p: ChunkPosition)
        ensures
            p == self.chunk_position,
    {
        self.chunk_position
    }
}

} // verus!
