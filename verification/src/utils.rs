//! Small helpers on indices and positions.

use vstd::prelude::*;
use crate::position::ChunkPosition;
use crate::position::Position;
use crate::position::div_toward_zero;
use crate::position::CHUNK_SIZE_I32;

verus! {

/// The coordinates of index `i` in a cube of side `bounds`, x varying fastest.
pub open spec fn index_to_coords(i: int, bounds: int) -> (int, int, int) {
    (i % bounds, (i / bounds) % bounds, i / (bounds * bounds))
}

/// The remainder of machine division, which has the sign of the dividend.
pub open spec fn rem_toward_zero(a: int, b: int) -> int {
    if a >= 0 {
        a % b
    } else {
        -((-a) % b)
    }
}

/// The coordinates of index `i` as machine division gives them, for
/// indices of either sign. For an index that is not negative they are
/// those of `index_to_coords`.
pub open spec fn index_to_coords_signed(i: int, bounds: int) -> (int, int, int) {
    (
        rem_toward_zero(i, bounds),
        rem_toward_zero(div_toward_zero(i, bounds), bounds),
        div_toward_zero(i, bounds * bounds),
    )
}

#[inline]
#[must_use]
pub fn index_to_ivec3_bounds(i: i32, bounds: i32) -> (p: Position)
    requires
        0 < bounds,
        bounds * bounds <= i32::MAX,
    ensures
        (p.x as int, p.y as int, p.z as int) == index_to_coords_signed(i as int, bounds as int),
        0 <= i ==> (p.x as int, p.y as int, p.z as int) == index_to_coords(i as int, bounds as int),
{
    assert(bounds * bounds > 0) by (nonlinear_arith)
        requires
            bounds > 0,
    ;
    let x = i % bounds;
    let y = (i / bounds) % bounds;
    let z = i / (bounds * bounds);
    Position::new(x, y, z)
}

#[inline]
#[must_use]
pub fn index_to_ivec3_bounds_reverse(i: i32, bounds: i32) -> (p: Position)
    requires
        0 < bounds,
        bounds * bounds <= i32::MAX,
    ensures
        (p.z as int, p.y as int, p.x as int) == index_to_coords_signed(i as int, bounds as int),
        0 <= i ==> (p.z as int, p.y as int, p.x as int) == index_to_coords(i as int, bounds as int),
{
    assert(bounds * bounds > 0) by (nonlinear_arith)
        requires
            bounds > 0,
    ;
    let z = i % bounds;
    let y = (i / bounds) % bounds;
    let x = i / (bounds * bounds);
    Position::new(x, y, z)
}

/// The step toward the neighbouring chunk that a coordinate on the rim of
/// a chunk touches: -1 on the low rim, 1 on the high rim, 0 inside.
pub open spec fn rim(v: int) -> int {
    if v == 0 {
        -1
    } else if v == 31 {
        1
    } else {
        0
    }
}

fn rim_of(v: i32) -> (r: i32)
    ensures
        r == rim(v as int),
{
    if v == 0 {
        -1
    } else if v == CHUNK_SIZE_I32 - 1 {
        1
    } else {
        0
    }
}

/// The step to the chunk that the voxel at `(x, y, z)` of a chunk touches
/// with a side, an edge or a corner; none for a voxel inside.
pub open spec fn edging_chunk(x: int, y: int, z: int) -> Option<ChunkPosition> {
    if rim(x) == 0 && rim(y) == 0 && rim(z) == 0 {
        None
    } else {
        Some(ChunkPosition { x: rim(x) as i32, y: rim(y) as i32, z: rim(z) as i32 })
    }
}

/// if lying on the edge of a chunk, return the edging chunk's offset.
#[inline]
#[must_use]
pub fn get_edging_chunk(pos: Position) -> (r: Option<ChunkPosition>)
    ensures
        r == edging_chunk(pos.x as int, pos.y as int, pos.z as int),
{
    let x = rim_of(pos.x);
    let y = rim_of(pos.y);
    let z = rim_of(pos.z);
    if x == 0 && y == 0 && z == 0 {
        None
    } else {
        Some(ChunkPosition::new(x, y, z))
    }
}

/// The vertex that entry `k` of the index list names: every four vertices
/// form a quad, drawn as the triangles (0, 1, 2) and (0, 2, 3).
pub open spec fn quad_index(k: int) -> int {
    let corner = k % 6;
    (k / 6) * 4 + (if corner == 0 || corner == 3 {
        0int
    } else if corner == 1 {
        1int
    } else if corner == 2 || corner == 4 {
        2int
    } else {
        3int
    })
}

/// generate a vec of indices
/// assumes vertices are made of quads, and counter clockwise ordered
#[inline]
#[must_use]
pub fn generate_indices(vertex_count: usize) -> (indices: Vec<u32>)
    requires
        vertex_count / 4 <= 0x4000_0000,
    ensures
        indices.len() == (vertex_count / 4) * 6,
        forall|k: int| 0 <= k < indices.len() ==> indices[k] == quad_index(k),
{
    let quad_count = vertex_count / 4;
    let mut indices: Vec<u32> = Vec::new();
    let mut quad: usize = 0;
    while quad < quad_count
        invariant
            quad <= quad_count,
            quad_count <= 0x4000_0000,
            indices.len() == quad * 6,
            forall|k: int| 0 <= k < indices.len() ==> indices[k] == quad_index(k),
        decreases quad_count - quad,
    {
        let vert_index: u32 = (quad as u32) * 4u32;
        let ghost before = indices@;
        indices.push(vert_index);
        indices.push(vert_index + 1);
        indices.push(vert_index + 2);
        indices.push(vert_index);
        indices.push(vert_index + 2);
        indices.push(vert_index + 3);
        proof {
            assert forall|k: int| 0 <= k < indices.len() implies indices[k] == quad_index(k) by {
                if k < before.len() {
                    assert(indices[k] == before[k]);
                } else {
                    let c = k - quad * 6;
                    assert(0 <= c < 6);
                    assert(k / 6 == quad as int);
                    assert(k % 6 == c);
                }
            }
        }
        quad += 1;
    }
    indices
}

} // verus!
