//! What the mesher computes, stated over voxels: which faces are visible,
//! how a face is keyed, and which faces a binary plane holds.

use vstd::prelude::*;
use crate::chunks_refs::ChunkRefs;
use crate::chunks_refs::in_center;
use crate::face_direction::FaceDir;
use crate::prototypes::BlockPrototypes;

verus! {

/// Bit `i` of a 32-bit word.
pub open spec fn bit32(v: u32, i: int) -> bool {
    0 <= i < 32 && (v >> (i as u32)) & 1 == 1
}

/// Bit `i` of a 64-bit word.
pub open spec fn bit64(v: u64, i: int) -> bool {
    0 <= i < 64 && (v >> (i as u64)) & 1 == 1
}

pub proof fn lemma_bits32(v: u32, k: u32, b: u32)
    by (bit_vector)
    requires
        k < 32,
        b < 32,
    ensures
        ((v | (1u32 << k)) >> b) & 1 == 1 <==> ((v >> b) & 1 == 1 || b == k),
        (0u32 >> b) & 1 == 0,
{
}

pub proof fn lemma_bits64(v: u64, k: u64, b: u64)
    by (bit_vector)
    requires
        k < 64,
        b < 64,
    ensures
        ((v | (1u64 << k)) >> b) & 1 == 1 <==> ((v >> b) & 1 == 1 || b == k),
        ((v & !(1u64 << k)) >> b) & 1 == 1 <==> ((v >> b) & 1 == 1 && b != k),
        (0u64 >> b) & 1 == 0,
        (v >> k) & 1 == 1 ==> v & !(1u64 << k) < v,
{
}

/// The bits of a column's face mask, once the padding bits are dropped:
/// bit `b` is the voxel `b + 1` of the padded column, and its face shows
/// where that voxel is set and the voxel before (or after) it is not.
pub proof fn lemma_face_masks(c: u64, b: u64, above: u64, beyond: u64)
    by (bit_vector)
    requires
        b < 64,
        above == b + 1,
        beyond == b + 2,
    ensures
        ((((c & !(c << 1)) >> 1) & 0xffff_ffffu64) >> b) & 1 == 1 <==> (b < 32 && (c >> above) & 1
            == 1 && (c >> b) & 1 != 1),
        ((((c & !(c >> 1)) >> 1) & 0xffff_ffffu64) >> b) & 1 == 1 <==> (b < 32 && (c >> above) & 1
            == 1 && (c >> beyond) & 1 != 1),
{
}

/// The direction of each of the six sweeps of the mesher.
pub open spec fn face_dir(face: int) -> FaceDir {
    if face == 0 {
        FaceDir::Down
    } else if face == 1 {
        FaceDir::Up
    } else if face == 2 {
        FaceDir::Left
    } else if face == 3 {
        FaceDir::Right
    } else if face == 4 {
        FaceDir::Forward
    } else {
        FaceDir::Back
    }
}

/// True when the voxel at `(x, y, z)`, counted from the centre chunk's first
/// voxel, hides what lies behind it.
pub open spec fn solid_at(view: &ChunkRefs, registry: &BlockPrototypes, x: int, y: int, z: int) -> bool {
    registry.is_solid(view.block_id_at(x, y, z))
}

/// True when the voxel at `(x, y, z)` of the centre chunk shows its face
/// toward `d`: the voxel is solid and its neighbour in that direction,
/// which may lie in a neighbouring chunk, is not.
pub open spec fn face_visible(
    view: &ChunkRefs,
    registry: &BlockPrototypes,
    d: FaceDir,
    x: int,
    y: int,
    z: int,
) -> bool {
    &&& in_center(x, y, z)
    &&& solid_at(view, registry, x, y, z)
    &&& !solid_at(view, registry, x + d.normal().x, y + d.normal().y, z + d.normal().z)
}

/// The step from a voxel to the `i`-th of the nine voxels sampled for the
/// occlusion of its face toward `d`: the three by three voxels of the layer
/// in front of the face.
pub open spec fn ao_offset(d: FaceDir, i: int) -> (int, int, int) {
    let a = i / 3 - 1;
    let b = i % 3 - 1;
    match d {
        FaceDir::Down => (a, -1, b),
        FaceDir::Up => (a, 1, b),
        FaceDir::Left => (-1, b, a),
        FaceDir::Right => (1, b, a),
        FaceDir::Forward => (a, b, -1),
        FaceDir::Back => (a, b, 1),
    }
}

/// The occlusion samples of a face, one bit each: bit `i` is set where the
/// `i`-th sampled voxel is solid. Here for the first `n` samples.
pub open spec fn ao_mask(
    view: &ChunkRefs,
    registry: &BlockPrototypes,
    d: FaceDir,
    x: int,
    y: int,
    z: int,
    n: int,
) -> u32
    decreases n,
{
    if n <= 0 {
        0
    } else {
        let before = ao_mask(view, registry, d, x, y, z, n - 1);
        let o = ao_offset(d, n - 1);
        if solid_at(view, registry, x + o.0, y + o.1, z + o.2) {
            before | (1u32 << ((n - 1) as u32))
        } else {
            before
        }
    }
}

/// What faces must have in common to be merged: the nine occlusion samples
/// in the low bits, and the block above them.
pub open spec fn face_key(
    view: &ChunkRefs,
    registry: &BlockPrototypes,
    d: FaceDir,
    x: int,
    y: int,
    z: int,
) -> u32 {
    ao_mask(view, registry, d, x, y, z, 9) | ((view.block_id_at(x, y, z) as u32) << 9)
}

/// True when the plane with `key` has a face at bit `bit` of row `row`:
/// the voxel there shows its face toward `d`, and the face has the key.
pub open spec fn face_in_plane(
    view: &ChunkRefs,
    registry: &BlockPrototypes,
    d: FaceDir,
    key: (u32, u32),
    row: int,
    bit: int,
) -> bool {
    let v = d.plane_to_voxel(key.1 as int, row, bit);
    face_visible(view, registry, d, v.0, v.1, v.2) && face_key(view, registry, d, v.0, v.1, v.2)
        == key.0
}

/// True when some face belongs in the plane with `key`.
pub open spec fn has_face(view: &ChunkRefs, registry: &BlockPrototypes, d: FaceDir, key: (u32, u32)) -> bool {
    exists|row: int, bit: int| face_in_plane(view, registry, d, key, row, bit)
}

/// True when `plane` holds exactly the faces that belong in the plane with
/// `key`.
pub open spec fn plane_shows(
    view: &ChunkRefs,
    registry: &BlockPrototypes,
    d: FaceDir,
    key: (u32, u32),
    plane: Seq<u32>,
) -> bool {
    &&& plane.len() == 32
    &&& forall|row: int, bit: int|
        0 <= row < 32 && 0 <= bit < 32 ==> (bit32(plane[row], bit) <==> #[trigger] face_in_plane(
            view,
            registry,
            d,
            key,
            row,
            bit,
        ))
}

/// True when `bins` holds the faces toward `d`: a plane for every key that
/// a face has and for no other, each with exactly its faces.
pub open spec fn bins_hold(
    view: &ChunkRefs,
    registry: &BlockPrototypes,
    d: FaceDir,
    bins: Map<(u32, u32), Seq<u32>>,
) -> bool {
    forall|key: (u32, u32)|
        (#[trigger] bins.contains_key(key) <==> has_face(view, registry, d, key)) && (
        bins.contains_key(key) ==> plane_shows(view, registry, d, key, bins[key]))
}

/// True when the sweep, which goes through the bits of a plane one after
/// the other and within a bit through the rows, has passed the face at
/// `(row, layer, bit)`. The sweep stands at bit `z`, row `x`; where
/// `current` holds it is at work on that column and `col` has the layers
/// that it has yet to visit.
pub open spec fn swept(
    z: int,
    x: int,
    current: bool,
    col: u64,
    row: int,
    layer: int,
    bit: int,
) -> bool {
    bit < z || (bit == z && row < x) || (current && bit == z && row == x && !bit64(col, layer))
}

/// True when the face at `(row, bit)` belongs in the plane with `key` and
/// the sweep has passed it.
pub open spec fn binned(
    view: &ChunkRefs,
    registry: &BlockPrototypes,
    d: FaceDir,
    z: int,
    x: int,
    current: bool,
    col: u64,
    key: (u32, u32),
    row: int,
    bit: int,
) -> bool {
    &&& 0 <= row < 32 && 0 <= bit < 32
    &&& face_in_plane(view, registry, d, key, row, bit)
    &&& swept(z, x, current, col, row, key.1 as int, bit)
}

/// True when `bins` holds exactly the faces that the sweep has passed.
pub open spec fn bins_partial(
    view: &ChunkRefs,
    registry: &BlockPrototypes,
    d: FaceDir,
    bins: Map<(u32, u32), Seq<u32>>,
    z: int,
    x: int,
    current: bool,
    col: u64,
) -> bool {
    &&& forall|key: (u32, u32)| #[trigger]
        bins.contains_key(key) ==> bins[key].len() == 32 && exists|row: int, bit: int|
            binned(view, registry, d, z, x, current, col, key, row, bit)
    &&& forall|key: (u32, u32), row: int, bit: int| #[trigger]
        binned(view, registry, d, z, x, current, col, key, row, bit) ==> bins.contains_key(key)
    &&& forall|key: (u32, u32), row: int, bit: int|
        0 <= row < 32 && 0 <= bit < 32 && bins.contains_key(key) ==> (bit32(bins[key][row], bit)
            <==> #[trigger] binned(view, registry, d, z, x, current, col, key, row, bit))
}

/// The cell of the column grid for axis `a` at `(i, j)`.
pub open spec fn col_at(cols: [[[u64; 34]; 34]; 3], a: int, i: int, j: int) -> u64 {
    cols@[a]@[i]@[j]
}

/// The padded coordinates `(x, y, z)` of the voxel behind bit `b` of the
/// cell `(i, j)` of the grid for axis `a`: the first grid has a column
/// along y for every `(z, x)`, the second a column along x for every
/// `(y, z)`, the third a column along z for every `(y, x)`.
pub open spec fn padded_of(a: int, i: int, j: int, b: int) -> (int, int, int) {
    if a == 0 {
        (j, b, i)
    } else if a == 1 {
        (b, i, j)
    } else {
        (j, i, b)
    }
}

/// True when the fill, which goes through the padded voxels layer by layer,
/// row by row, has passed the padded voxel `p`.
pub open spec fn filled(z: int, y: int, x: int, p: (int, int, int)) -> bool {
    p.2 < z || (p.2 == z && p.1 < y) || (p.2 == z && p.1 == y && p.0 < x)
}

/// True when the grids hold the solid voxels that the fill has passed:
/// a bit is set where its padded voxel, which lies one step further out
/// than the voxel counted from the centre chunk, is solid.
pub open spec fn cols_partial(
    view: &ChunkRefs,
    registry: &BlockPrototypes,
    cols: [[[u64; 34]; 34]; 3],
    z: int,
    y: int,
    x: int,
) -> bool {
    forall|a: int, i: int, j: int, b: int|
        0 <= a < 3 && 0 <= i < 34 && 0 <= j < 34 && 0 <= b < 64 ==> (#[trigger] bit64(
            col_at(cols, a, i, j),
            b,
        ) <==> {
            let p = padded_of(a, i, j, b);
            b < 34 && filled(z, y, x, p) && solid_at(view, registry, p.0 - 1, p.1 - 1, p.2 - 1)
        })
}

/// True when the grids hold the solid voxels of the centre chunk and of
/// the layer of voxels around it.
pub open spec fn cols_hold(view: &ChunkRefs, registry: &BlockPrototypes, cols: [[[u64; 34]; 34]; 3]) -> bool {
    cols_partial(view, registry, cols, 34, 0, 0)
}

} // verus!
