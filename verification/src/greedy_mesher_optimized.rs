//! Greedy meshing: the visible faces of a chunk, merged into as few
//! rectangles as the greedy sweep finds.

use vstd::prelude::*;
use vstd::std_specs::bits::axiom_u32_trailing_ones;
use vstd::std_specs::bits::axiom_u32_trailing_zeros;
use vstd::std_specs::bits::u32_trailing_ones;
use vstd::std_specs::bits::u32_trailing_zeros;
use vstd::std_specs::bits::axiom_u64_trailing_zeros;
use crate::chunk::VoxelIndex;
use crate::chunk_material::PackedQuad;
use crate::chunk_material::RenderableChunk;
use crate::chunk_material::packed_word;
use crate::chunks_refs::ChunkRefs;
use crate::chunks_refs::CENTER_SLOT;
use crate::chunks_refs::in_center;
use crate::chunks_refs::local_of;
use crate::chunks_refs::slot_of;
use crate::face_direction::FaceDir;
use crate::faces::ao_mask;
use crate::faces::ao_offset;
use crate::faces::binned;
use crate::faces::bins_hold;
use crate::faces::bins_partial;
use crate::faces::bit32;
use crate::faces::bit64;
use crate::faces::col_at;
use crate::faces::cols_hold;
use crate::faces::cols_partial;
use crate::faces::face_dir;
use crate::faces::face_in_plane;
use crate::faces::face_visible;
use crate::faces::filled;
use crate::faces::has_face;
use crate::faces::lemma_bits32;
use crate::faces::lemma_bits64;
use crate::faces::lemma_face_masks;
use crate::faces::padded_of;
use crate::faces::plane_shows;
use crate::faces::solid_at;
use crate::lod::Lod;
use crate::mesh_cover::lemma_mesh_shows_faces;
use crate::mesh_cover::lemma_uniform_has_no_faces;
use crate::mesh_cover::no_visible_face;
use crate::plane_bins::PlaneBins;
use crate::plane_bins::plane_in;
use crate::plane_bins::with_face;
use crate::position::Position;
use crate::position::RelativePosition;
use crate::prototypes::BlockPrototype;
use crate::prototypes::BlockPrototypes;

verus! {

/// A rectangle of set bits in a binary plane: `w` rows from row `x` on,
/// and in each of them the `h` bits from bit `y` on.
#[derive(Debug, Clone, Copy, PartialEq, Eq, Structural)]
pub struct GreedyQuad {
    pub x: u32,
    pub y: u32,
    pub w: u32,
    pub h: u32,
}

/// The word whose `h` lowest bits are set.
pub open spec fn low_bits(h: u32) -> u32 {
    if h >= 32 {
        0xffff_ffffu32
    } else {
        ((1u32 << h) - 1) as u32
    }
}

/// True when the `h` bits of `v` from bit `y` on are all set.
pub open spec fn spans(v: u32, y: u32, h: u32) -> bool {
    (v >> y) & low_bits(h) == low_bits(h)
}

/// The word `v` with the `h` bits from bit `y` on cleared.
pub open spec fn without_span(v: u32, y: u32, h: u32) -> u32 {
    v & !(low_bits(h) << y)
}

/// The number of rows that a rectangle starting in `row` with the bits
/// `y .. y + h` takes in, counted from `w` rows that it has already: it
/// grows row by row while the next row lies below `lod` and has all of
/// those bits.
pub open spec fn merge_width(rows: Seq<u32>, lod: u32, row: int, y: u32, h: u32, w: int) -> int
    decreases 32 - (row + w),
{
    if row + w < lod && row + w < 32 && spans(rows[row + w], y, h) {
        merge_width(rows, lod, row, y, h, w + 1)
    } else {
        w
    }
}

/// The plane after a rectangle of `w` rows was taken out: the bits
/// `y .. y + h` are cleared in the rows after `row` that the rectangle
/// covers. The rectangle's first row is left as it is.
pub open spec fn clear_span(rows: Seq<u32>, row: int, w: int, y: u32, h: u32) -> Seq<u32> {
    Seq::new(
        rows.len(),
        |r: int|
            if row < r < row + w {
                without_span(rows[r], y, h)
            } else {
                rows[r]
            },
    )
}

/// The rectangles that the sweep takes out of `row` from bit `y` upward,
/// and the plane that is left. The sweep goes to the next set bit, takes
/// the run of set bits that starts there as the rectangle's height, lets
/// the rectangle grow over the following rows, and goes on above it.
pub open spec fn merge_row(rows: Seq<u32>, lod: u32, row: int, y: u32) -> (Seq<GreedyQuad>, Seq<u32>)
    decreases 32 - y,
{
    if y >= lod || y >= 32 {
        (Seq::empty(), rows)
    } else {
        let start = y + u32_trailing_zeros(rows[row] >> y);
        if start >= lod || start >= 32 {
            (Seq::empty(), rows)
        } else {
            let s = start as u32;
            let h = u32_trailing_ones(rows[row] >> s);
            let w = merge_width(rows, lod, row, s, h, 1);
            proof {
                lemma_run_starts(rows[row], y);
            }
            let rest = merge_row(clear_span(rows, row, w, s, h), lod, row, (s + h) as u32);
            (seq![GreedyQuad { x: row as u32, y: s, w: w as u32, h }] + rest.0, rest.1)
        }
    }
}

/// The rectangles that the sweep takes out of the rows from `row` on.
pub open spec fn merge_rows(rows: Seq<u32>, lod: u32, row: int) -> Seq<GreedyQuad>
    decreases 32 - row,
{
    if row >= 32 || row < 0 {
        Seq::empty()
    } else {
        let first = merge_row(rows, lod, row, 0);
        first.0 + merge_rows(first.1, lod, row + 1)
    }
}

/// The rectangles of a binary plane of 32 rows, in the order in which the
/// sweep finds them: row by row, and within a row from the lowest bit up.
pub open spec fn greedy_quads(rows: Seq<u32>, lod: u32) -> Seq<GreedyQuad> {
    merge_rows(rows, lod, 0)
}

/// True when the rectangle lies within the plane and is not empty.
pub open spec fn quad_fits(q: GreedyQuad) -> bool {
    &&& 1 <= q.w && q.x + q.w <= 32
    &&& 1 <= q.h && q.y + q.h <= 32
}

pub proof fn lemma_shifts(v: u32, a: u32, b: u32)
    by (bit_vector)
    requires
        a < 32,
        b <= 32,
    ensures
        a + b < 32 ==> (v >> a) >> b == v >> ((a + b) as u32),
        a + b >= 32 && b < 32 ==> ((v >> a) >> b) & 1 == 0,
        v >> 0 == v,
{
}

/// The run of set bits that starts at the first set bit at or above `y`
/// holds at least that bit and ends within the word.
pub proof fn lemma_run_starts(v: u32, y: u32)
    requires
        y < 32,
        y + u32_trailing_zeros(v >> y) < 32,
    ensures
        ({
            let s = (y + u32_trailing_zeros(v >> y)) as u32;
            1 <= u32_trailing_ones(v >> s) && s + u32_trailing_ones(v >> s) <= 32
        }),
{
    let i = v >> y;
    let t = u32_trailing_zeros(i);
    let s = (y + t) as u32;
    let j = v >> s;
    let ones = u32_trailing_ones(j);
    axiom_u32_trailing_zeros(i);
    axiom_u32_trailing_ones(j);
    lemma_shifts(v, y, t);
    assert((j >> 0u32) & 1 == 1) by {
        lemma_shifts(j, 0, 0);
    }
    if ones == 0 {
        assert((j >> (ones as u32)) & 1u32 == 0u32);
        assert(false);
    }
    if s + ones > 32 {
        let k = (32 - s) as u32;
        assert(k < ones);
        assert((j >> k) & 1u32 == 1u32);
        lemma_shifts(v, s, k);
        assert(false);
    }
}

/// Whether a rectangle of `w` rows from `row` on can take in the next row.
fn can_extend(data: &[u32; 32], lod_size: u32, row: usize, w: usize, y: u32, h: u32) -> (r: bool)
    requires
        row < 32,
        y < 32,
        lod_size <= 32,
    ensures
        r == (row + w < lod_size && row + w < 32 && spans(data@[row + w], y, h)),
{
    if w >= 32 || row + w >= lod_size as usize {
        return false;
    }
    let h_as_mask: u32 = span_mask(h);
    (data[row + w] >> y) & h_as_mask == h_as_mask
}

/// convert height 'num' to positive bits repeated 'num' times aka:
/// 1 = 0b1, 2 = 0b11, 4 = 0b1111
fn span_mask(h: u32) -> (m: u32)
    ensures
        m == low_bits(h),
{
    if h >= 32 {
        assert(!0u32 == 0xffff_ffffu32) by (bit_vector);
        !0u32
    } else {
        assert((1u32 << h) >= 1) by (bit_vector)
            requires
                h < 32,
        ;
        (1u32 << h) - 1
    }
}

/// generate quads of a binary slice: the rectangles that the sweep finds,
/// in the order in which it finds them. With `lod_size` at 32 they tile the
/// set bits of the plane, as `lemma_greedy_quads_tile` shows.
#[must_use]
pub fn greedy_mesh_binary_plane(data: [u32; 32], lod_size: u32) -> (quads: Vec<GreedyQuad>)
    requires
        lod_size <= 32,
    ensures
        quads@ == greedy_quads(data@, lod_size),
        forall|i: int| 0 <= i < quads.len() ==> quad_fits(#[trigger] quads[i]),
{
    let ghost initial = data@;
    let mut data = data;
    let mut found: Vec<GreedyQuad> = Vec::new();
    let mut row: usize = 0;
    while row < 32
        invariant
            row <= 32,
            lod_size <= 32,
            data@.len() == 32,
            greedy_quads(initial, lod_size) == found@
                + merge_rows(data@, lod_size, row as int),
            forall|i: int| 0 <= i < found.len() ==> quad_fits(#[trigger] found[i]),
        decreases 32 - row,
    {
        let mut y: u32 = 0;
        while y < lod_size
            invariant
                row < 32,
                y <= 64,
                lod_size <= 32,
                data@.len() == 32,
                greedy_quads(initial, lod_size) == found@
                    + merge_row(data@, lod_size, row as int, y).0 + merge_rows(
                    merge_row(data@, lod_size, row as int, y).1,
                    lod_size,
                    row + 1,
                ),
                forall|i: int|
                    0 <= i < found.len() ==> quad_fits(#[trigger] found[i]),
            decreases 64 - y,
        {
            let ghost y0 = y;
            let ghost before = data@;
            // find the first solid: zeros may come first, so skip them
            y = y + (data[row] >> y).trailing_zeros();
            if y >= lod_size {
                // reached top
                continue ;
            }
            proof {
                lemma_run_starts(before[row as int], y0);
            }
            let h = (data[row] >> y).trailing_ones();
            let h_as_mask: u32 = span_mask(h);
            let mask = h_as_mask << y;
            // grow horizontally
            let mut w: usize = 1;
            while can_extend(&data, lod_size, row, w, y, h)
                invariant
                    row < 32,
                    y < 32,
                    lod_size <= 32,
                    1 <= w,
                    row + w <= 32,
                    before.len() == 32,
                    mask == low_bits(h) << y,
                    data@ == clear_span(before, row as int, w as int, y, h),
                    merge_width(before, lod_size, row as int, y, h, w as int) == merge_width(
                        before,
                        lod_size,
                        row as int,
                        y,
                        h,
                        1,
                    ),
                decreases 32 - w,
            {
                // clear the bits we expanded into
                data[row + w] = data[row + w] & !mask;
                w += 1;
                proof {
                    assert(data@ =~= clear_span(before, row as int, w as int, y, h));
                }
            }
            let quad = GreedyQuad { y, w: w as u32, h, x: row as u32 };
            proof {
                let rest = merge_row(data@, lod_size, row as int, (y + h) as u32);
                let now = merge_row(before, lod_size, row as int, y0);
                assert(now.0 == seq![quad] + rest.0);
                assert(now.1 == rest.1);
                assert(found@ + now.0 =~= found@.push(quad) + rest.0);
            }
            found.push(quad);
            y = y + h;
        }
        row += 1;
    }
    found
}

/// True when `after` is `before` with the voxel at the padded coordinates
/// `(x, y, z)` entered, if it is solid: its bit is set in the one column of
/// each grid that runs through it.
pub open spec fn cols_with_voxel(
    before: [[[u64; 34]; 34]; 3],
    after: [[[u64; 34]; 34]; 3],
    solid: bool,
    x: int,
    y: int,
    z: int,
) -> bool {
    forall|a: int, i: int, j: int|
        0 <= a < 3 && 0 <= i < 34 && 0 <= j < 34 ==> #[trigger] col_at(after, a, i, j) == (if solid
            && a == 0 && i == z && j == x {
            col_at(before, a, i, j) | (1u64 << (y as u64))
        } else if solid && a == 1 && i == y && j == z {
            col_at(before, a, i, j) | (1u64 << (x as u64))
        } else if solid && a == 2 && i == y && j == x {
            col_at(before, a, i, j) | (1u64 << (z as u64))
        } else {
            col_at(before, a, i, j)
        })
}

#[inline]
pub fn add_voxel_to_axis_cols(
    block: &BlockPrototype,
    x: usize,
    y: usize,
    z: usize,
    axis_cols: &mut [[[u64; 34]; 34]; 3],
)
    requires
        x < 34,
        y < 34,
        z < 34,
    ensures
        cols_with_voxel(
            *old(axis_cols),
            *final(axis_cols),
            !block.is_transparent,
            x as int,
            y as int,
            z as int,
        ),
{
    if !block.is_transparent {
        // x,z - y axis
        axis_cols[0][z][x] = axis_cols[0][z][x] | (1u64 << (y as u64));
        // z,y - x axis
        axis_cols[1][y][z] = axis_cols[1][y][z] | (1u64 << (x as u64));
        // x,y - z axis
        axis_cols[2][y][x] = axis_cols[2][y][x] | (1u64 << (z as u64));
    }
}

/// Entering the voxel that the fill stands at moves the fill one voxel on.
proof fn lemma_fill_step(
    view: &ChunkRefs,
    registry: &BlockPrototypes,
    before: [[[u64; 34]; 34]; 3],
    after: [[[u64; 34]; 34]; 3],
    x: int,
    y: int,
    z: int,
)
    requires
        0 <= x < 34,
        0 <= y < 34,
        0 <= z < 34,
        cols_partial(view, registry, before, z, y, x),
        cols_with_voxel(before, after, solid_at(view, registry, x - 1, y - 1, z - 1), x, y, z),
    ensures
        cols_partial(view, registry, after, z, y, x + 1),
{
    let solid = solid_at(view, registry, x - 1, y - 1, z - 1);
    assert forall|a: int, i: int, j: int, b: int|
        0 <= a < 3 && 0 <= i < 34 && 0 <= j < 34 && 0 <= b < 64 implies (#[trigger] bit64(
        col_at(after, a, i, j),
        b,
    ) <==> {
        let p = padded_of(a, i, j, b);
        b < 34 && filled(z, y, x + 1, p) && solid_at(view, registry, p.0 - 1, p.1 - 1, p.2 - 1)
    }) by {
        let old_col = col_at(before, a, i, j);
        assert(bit64(old_col, b) <==> {
            let p = padded_of(a, i, j, b);
            b < 34 && filled(z, y, x, p) && solid_at(view, registry, p.0 - 1, p.1 - 1, p.2 - 1)
        });
        let k: int = if a == 0 {
            y
        } else if a == 1 {
            x
        } else {
            z
        };
        lemma_bits64(old_col, k as u64, b as u64);
        let new_col = col_at(after, a, i, j);
        let p = padded_of(a, i, j, b);
        if solid && ((a == 0 && i == z && j == x) || (a == 1 && i == y && j == z) || (a == 2 && i
            == y && j == x)) {
            assert(new_col == old_col | (1u64 << (k as u64)));
            assert(bit64(new_col, b) <==> (bit64(old_col, b) || b == k));
            assert(p == (x, y, z) <==> b == k);
        } else {
            assert(new_col == old_col);
            if p == (x, y, z) {
                assert(!solid);
            }
        }
    }
}

/// Enters every voxel of the centre chunk, and of the layer of voxels
/// around it, into the column grids.
fn fill_columns(view: &ChunkRefs, registry: &BlockPrototypes, axis_cols: &mut [[[u64; 34]; 34]; 3])
    requires
        view.registered_in(registry),
        forall|a: int, i: int, j: int|
            0 <= a < 3 && 0 <= i < 34 && 0 <= j < 34 ==> #[trigger] col_at(*old(axis_cols), a, i, j)
                == 0,
    ensures
        cols_hold(view, registry, *final(axis_cols)),
{
    proof {
        assert forall|a: int, i: int, j: int, b: int|
            0 <= a < 3 && 0 <= i < 34 && 0 <= j < 34 && 0 <= b < 64 implies !#[trigger] bit64(
            col_at(*axis_cols, a, i, j),
            b,
        ) by {
            lemma_bits64(0, 0, b as u64);
        }
    }
    // inner chunk voxels.
    let chunk = &view.adjacent_chunks[CENTER_SLOT];
    let mut z: usize = 0;
    while z < 34
        invariant
            z <= 34,
            view.registered_in(registry),
            *chunk == view.chunk(CENTER_SLOT as int),
            cols_partial(view, registry, *axis_cols, z as int, 0, 0),
        decreases 34 - z,
    {
        let mut y: usize = 0;
        while y < 34
            invariant
                z < 34,
                y <= 34,
                view.registered_in(registry),
                *chunk == view.chunk(CENTER_SLOT as int),
                cols_partial(view, registry, *axis_cols, z as int, y as int, 0),
            decreases 34 - y,
        {
            let mut x: usize = 0;
            while x < 34
                invariant
                    z < 34,
                    y < 34,
                    x <= 34,
                    view.registered_in(registry),
                    *chunk == view.chunk(CENTER_SLOT as int),
                    cols_partial(view, registry, *axis_cols, z as int, y as int, x as int),
                decreases 34 - x,
            {
                let inner = 1 <= x && x <= 32 && 1 <= y && y <= 32 && 1 <= z && z <= 32;
                let block: &BlockPrototype = if inner {
                    proof {
                        view.lemma_block_registered(registry, x - 1, y - 1, z - 1);
                        assert(slot_of(x - 1, y - 1, z - 1) == CENTER_SLOT);
                        assert(local_of(x - 1, y - 1, z - 1) == VoxelIndex::flat(
                            x - 1,
                            y - 1,
                            z - 1,
                        ));
                    }
                    registry.block(chunk.get_block(VoxelIndex::new(x - 1, y - 1, z - 1)))
                } else {
                    // neighbor chunk voxels.
                    view.sample(registry, x as i32 - 1, y as i32 - 1, z as i32 - 1)
                };
                let ghost before = *axis_cols;
                add_voxel_to_axis_cols(block, x, y, z, axis_cols);
                proof {
                    view.lemma_block_registered(registry, x - 1, y - 1, z - 1);
                    lemma_fill_step(view, registry, before, *axis_cols, x as int, y as int, z as int);
                }
                x += 1;
            }
            y += 1;
        }
        z += 1;
    }
}

/// The direction of each of the six sweeps.
fn direction_of(face: usize) -> (d: FaceDir)
    ensures
        d == face_dir(face as int),
{
    match face {
        0 => FaceDir::Down,
        1 => FaceDir::Up,
        2 => FaceDir::Left,
        3 => FaceDir::Right,
        4 => FaceDir::Forward,
        _ => FaceDir::Back,
    }
}

/// calculate ambient occlusion: one bit for each of the nine voxels in
/// front of the face, set where that voxel is solid. The samples are taken
/// through the neighbourhood, so that voxels of adjacent chunks count.
fn ambient_occlusion(view: &ChunkRefs, registry: &BlockPrototypes, d: FaceDir, p: Position) -> (ao:
    u32)
    requires
        view.registered_in(registry),
        in_center(p.x as int, p.y as int, p.z as int),
    ensures
        ao == ao_mask(view, registry, d, p.x as int, p.y as int, p.z as int, 9),
{
    let mut ao_index: u32 = 0;
    let mut i: u32 = 0;
    while i < 9
        invariant
            i <= 9,
            view.registered_in(registry),
            in_center(p.x as int, p.y as int, p.z as int),
            ao_index == ao_mask(view, registry, d, p.x as int, p.y as int, p.z as int, i as int),
        decreases 9 - i,
    {
        let a: i32 = (i / 3) as i32 - 1;
        let b: i32 = (i % 3) as i32 - 1;
        // ambient occlusion is sampled based on axis(ascent or descent)
        let (sx, sy, sz): (i32, i32, i32) = match d {
            FaceDir::Down => (a, -1, b),
            FaceDir::Up => (a, 1, b),
            FaceDir::Left => (-1, b, a),
            FaceDir::Right => (1, b, a),
            FaceDir::Forward => (a, b, -1),
            FaceDir::Back => (a, b, 1),
        };
        assert((sx as int, sy as int, sz as int) == ao_offset(d, i as int));
        let ao_block = view.sample(registry, p.x + sx, p.y + sy, p.z + sz);
        if !ao_block.is_transparent {
            ao_index = ao_index | (1u32 << i);
        }
        i += 1;
    }
    ao_index
}

/// Before the sweep starts on a column, none of the column's faces counts
/// as passed: each of them is still in `col`.
proof fn lemma_bin_open(
    view: &ChunkRefs,
    registry: &BlockPrototypes,
    d: FaceDir,
    bins: Map<(u32, u32), Seq<u32>>,
    z: int,
    x: int,
    col: u64,
)
    requires
        0 <= x < 32,
        0 <= z < 32,
        bins_partial(view, registry, d, bins, z, x, false, 0),
        forall|layer: int|
            0 <= layer < 32 && ({
                let v = d.plane_to_voxel(layer, x, z);
                face_visible(view, registry, d, v.0, v.1, v.2)
            }) ==> #[trigger] bit64(col, layer),
    ensures
        bins_partial(view, registry, d, bins, z, x, true, col),
{
    assert forall|key: (u32, u32), row: int, bit: int|
        binned(view, registry, d, z, x, true, col, key, row, bit) == binned(
            view,
            registry,
            d,
            z,
            x,
            false,
            0,
            key,
            row,
            bit,
        ) by {
        if 0 <= row < 32 && 0 <= bit < 32 && face_in_plane(view, registry, d, key, row, bit) && bit
            == z && row == x {
            assert(bit64(col, key.1 as int));
        }
    }
    assert forall|key: (u32, u32)| #[trigger] bins.contains_key(key) implies bins[key].len() == 32
        && exists|row: int, bit: int|
        binned(view, registry, d, z, x, true, col, key, row, bit) by {
        let (row, bit) = choose|row: int, bit: int|
            binned(view, registry, d, z, x, false, 0, key, row, bit);
        assert(binned(view, registry, d, z, x, true, col, key, row, bit));
    }
    assert forall|key: (u32, u32), row: int, bit: int| #[trigger]
        binned(view, registry, d, z, x, true, col, key, row, bit) implies bins.contains_key(key) by {
        assert(binned(view, registry, d, z, x, false, 0, key, row, bit));
    }
    assert forall|key: (u32, u32), row: int, bit: int|
        0 <= row < 32 && 0 <= bit < 32 && bins.contains_key(key) implies (bit32(
        bins[key][row],
        bit,
    ) <==> #[trigger] binned(view, registry, d, z, x, true, col, key, row, bit)) by {
        assert(bit32(bins[key][row], bit) <==> binned(
            view,
            registry,
            d,
            z,
            x,
            false,
            0,
            key,
            row,
            bit,
        ));
    }
}

/// Once the sweep has visited every layer of a column, it stands at the
/// next column.
proof fn lemma_bin_close(
    view: &ChunkRefs,
    registry: &BlockPrototypes,
    d: FaceDir,
    bins: Map<(u32, u32), Seq<u32>>,
    z: int,
    x: int,
    next_z: int,
    next_x: int,
)
    requires
        0 <= x < 32,
        0 <= z < 32,
        (next_z == z && next_x == x + 1) || (x == 31 && next_z == z + 1 && next_x == 0),
        bins_partial(view, registry, d, bins, z, x, true, 0),
    ensures
        bins_partial(view, registry, d, bins, next_z, next_x, false, 0),
{
    assert forall|layer: int| !bit64(0, layer) by {
        if 0 <= layer < 64 {
            lemma_bits64(0, 0, layer as u64);
        }
    }
    assert forall|key: (u32, u32), row: int, bit: int|
        binned(view, registry, d, z, x, true, 0, key, row, bit) == binned(
            view,
            registry,
            d,
            next_z,
            next_x,
            false,
            0,
            key,
            row,
            bit,
        ) by {
        assert(!bit64(0, key.1 as int));
    }
    assert forall|key: (u32, u32)| #[trigger] bins.contains_key(key) implies bins[key].len() == 32
        && exists|row: int, bit: int|
        binned(view, registry, d, next_z, next_x, false, 0, key, row, bit) by {
        let (row, bit) = choose|row: int, bit: int|
            binned(view, registry, d, z, x, true, 0, key, row, bit);
        assert(binned(view, registry, d, next_z, next_x, false, 0, key, row, bit));
    }
    assert forall|key: (u32, u32), row: int, bit: int| #[trigger]
        binned(view, registry, d, next_z, next_x, false, 0, key, row, bit) implies bins.contains_key(
        key,
    ) by {
        assert(binned(view, registry, d, z, x, true, 0, key, row, bit));
    }
    assert forall|key: (u32, u32), row: int, bit: int|
        0 <= row < 32 && 0 <= bit < 32 && bins.contains_key(key) implies (bit32(
        bins[key][row],
        bit,
    ) <==> #[trigger] binned(view, registry, d, next_z, next_x, false, 0, key, row, bit)) by {
        assert(bit32(bins[key][row], bit) <==> binned(
            view,
            registry,
            d,
            z,
            x,
            true,
            0,
            key,
            row,
            bit,
        ));
    }
}

/// Entering the face that the sweep visits moves the sweep past it.
proof fn lemma_bin_step(
    view: &ChunkRefs,
    registry: &BlockPrototypes,
    d: FaceDir,
    before: Map<(u32, u32), Seq<u32>>,
    after: Map<(u32, u32), Seq<u32>>,
    z: int,
    x: int,
    col: u64,
    next: u64,
    y: int,
    hash: u32,
)
    requires
        0 <= x < 32,
        0 <= z < 32,
        0 <= y < 32,
        bins_partial(view, registry, d, before, z, x, true, col),
        face_in_plane(view, registry, d, (hash, y as u32), x, z),
        forall|b: int| 0 <= b < 64 ==> (#[trigger] bit64(next, b) <==> bit64(col, b) && b != y),
        after == with_face(before, (hash, y as u32), x, z),
    ensures
        bins_partial(view, registry, d, after, z, x, true, next),
{
    let k = (hash, y as u32);
    let p = plane_in(before, k);
    assert(p.len() == 32);
    assert forall|key: (u32, u32), row: int, bit: int|
        binned(view, registry, d, z, x, true, next, key, row, bit) <==> (binned(
            view,
            registry,
            d,
            z,
            x,
            true,
            col,
            key,
            row,
            bit,
        ) || (key == k && row == x && bit == z)) by {
        if 0 <= key.1 < 64 {
            assert(bit64(next, key.1 as int) <==> bit64(col, key.1 as int) && key.1 != y);
        } else {
            assert(!bit64(next, key.1 as int));
            assert(!bit64(col, key.1 as int));
        }
        if 0 <= row < 32 && 0 <= bit < 32 && face_in_plane(view, registry, d, key, row, bit) {
            let v = d.plane_to_voxel(key.1 as int, row, bit);
            assert(in_center(v.0, v.1, v.2));
            assert(0 <= key.1 < 32);
            if row == x && bit == z && key.1 == y {
                assert(key.0 == hash);
                assert(key == k);
            }
        }
    }
    assert forall|row: int, bit: int| 0 <= row < 32 && 0 <= bit < 32 implies (bit32(p[row], bit)
        <==> binned(view, registry, d, z, x, true, col, k, row, bit)) by {
        if before.contains_key(k) {
            assert(bit32(before[k][row], bit) <==> binned(
                view,
                registry,
                d,
                z,
                x,
                true,
                col,
                k,
                row,
                bit,
            ));
        } else {
            lemma_bits32(0, 0, bit as u32);
            if binned(view, registry, d, z, x, true, col, k, row, bit) {
                assert(before.contains_key(k));
            }
        }
    }
    assert forall|key: (u32, u32)| #[trigger] after.contains_key(key) implies after[key].len() == 32
        && exists|row: int, bit: int|
        binned(view, registry, d, z, x, true, next, key, row, bit) by {
        if key == k {
            assert(binned(view, registry, d, z, x, true, next, key, x, z));
        } else {
            assert(before.contains_key(key));
            let (row, bit) = choose|row: int, bit: int|
                binned(view, registry, d, z, x, true, col, key, row, bit);
            assert(binned(view, registry, d, z, x, true, next, key, row, bit));
        }
    }
    assert forall|key: (u32, u32), row: int, bit: int| #[trigger]
        binned(view, registry, d, z, x, true, next, key, row, bit) implies after.contains_key(key) by {
        if key != k {
            assert(binned(view, registry, d, z, x, true, col, key, row, bit));
        }
    }
    assert forall|key: (u32, u32), row: int, bit: int|
        0 <= row < 32 && 0 <= bit < 32 && after.contains_key(key) implies (bit32(
        after[key][row],
        bit,
    ) <==> #[trigger] binned(view, registry, d, z, x, true, next, key, row, bit)) by {
        if key == k {
            assert(bit32(p[row], bit) <==> binned(
                view,
                registry,
                d,
                z,
                x,
                true,
                col,
                k,
                row,
                bit,
            ));
            if row == x {
                lemma_bits32(p[x], z as u32, bit as u32);
                assert(after[k][row] == p[x] | (1u32 << (z as u32)));
            } else {
                assert(after[k][row] == p[row]);
            }
        } else {
            assert(before.contains_key(key));
            assert(after[key] == before[key]);
            assert(bit32(before[key][row], bit) <==> binned(
                view,
                registry,
                d,
                z,
                x,
                true,
                col,
                key,
                row,
                bit,
            ));
        }
    }
}

/// A sweep that has passed every face holds every face.
proof fn lemma_bin_done(
    view: &ChunkRefs,
    registry: &BlockPrototypes,
    d: FaceDir,
    bins: Map<(u32, u32), Seq<u32>>,
)
    requires
        bins_partial(view, registry, d, bins, 32, 0, false, 0),
    ensures
        bins_hold(view, registry, d, bins),
{
    assert forall|key: (u32, u32), row: int, bit: int|
        face_in_plane(view, registry, d, key, row, bit) implies binned(
        view,
        registry,
        d,
        32,
        0,
        false,
        0,
        key,
        row,
        bit,
    ) by {
        let v = d.plane_to_voxel(key.1 as int, row, bit);
        assert(in_center(v.0, v.1, v.2));
    }
    assert forall|key: (u32, u32)|
        (#[trigger] bins.contains_key(key) <==> has_face(view, registry, d, key)) && (
        bins.contains_key(key) ==> plane_shows(view, registry, d, key, bins[key])) by {
        if bins.contains_key(key) {
            let (row, bit) = choose|row: int, bit: int|
                binned(view, registry, d, 32, 0, false, 0, key, row, bit);
            assert(face_in_plane(view, registry, d, key, row, bit));
            assert forall|row: int, bit: int| 0 <= row < 32 && 0 <= bit < 32 implies (bit32(
                bins[key][row],
                bit,
            ) <==> #[trigger] face_in_plane(view, registry, d, key, row, bit)) by {
                assert(bit32(bins[key][row], bit) <==> binned(
                    view,
                    registry,
                    d,
                    32,
                    0,
                    false,
                    0,
                    key,
                    row,
                    bit,
                ));
            }
        }
        if has_face(view, registry, d, key) {
            let (row, bit) = choose|row: int, bit: int|
                face_in_plane(view, registry, d, key, row, bit);
            assert(binned(view, registry, d, 32, 0, false, 0, key, row, bit));
        }
    }
}

/// The word that has, for the column of the grid at `(z + 1, x + 1)`, a bit
/// for every voxel of the centre chunk in that column whose face toward
/// the direction of sweep `face` may show.
pub open spec fn column_faces(cols: [[[u64; 34]; 34]; 3], face: int, z: int, x: int) -> u64 {
    let c = col_at(cols, face / 2, z + 1, x + 1);
    if face % 2 == 0 {
        ((c & !(c << 1)) >> 1) & 0xffff_ffffu64
    } else {
        ((c & !(c >> 1)) >> 1) & 0xffff_ffffu64
    }
}

/// Bit `layer` of the face word of a column is set exactly where the voxel
/// in that layer shows its face.
proof fn lemma_column_face(
    view: &ChunkRefs,
    registry: &BlockPrototypes,
    cols: [[[u64; 34]; 34]; 3],
    face: int,
    z: int,
    x: int,
    col: u64,
    layer: int,
)
    requires
        0 <= face < 6,
        0 <= z < 32,
        0 <= x < 32,
        0 <= layer < 64,
        cols_hold(view, registry, cols),
        col == column_faces(cols, face, z, x),
    ensures
        bit64(col, layer) <==> layer < 32 && ({
            let v = face_dir(face).plane_to_voxel(layer, x, z);
            face_visible(view, registry, face_dir(face), v.0, v.1, v.2)
        }),
{
    let d = face_dir(face);
    let axis = face / 2;
    let cell = col_at(cols, axis, z + 1, x + 1);
    lemma_face_masks(cell, layer as u64, (layer + 1) as u64, (layer + 2) as u64);
    if layer < 32 {
        let v = d.plane_to_voxel(layer, x, z);
        let n = d.normal();
        let here = padded_of(axis, z + 1, x + 1, layer + 1);
        assert(here == (v.0 + 1, v.1 + 1, v.2 + 1));
        assert(filled(34, 0, 0, here));
        assert(in_center(v.0, v.1, v.2));
        assert(bit64(cell, layer + 1) <==> layer + 1 < 34 && filled(34, 0, 0, here) && solid_at(
            view,
            registry,
            here.0 - 1,
            here.1 - 1,
            here.2 - 1,
        ));
        assert(bit64(cell, layer + 1) <==> solid_at(view, registry, v.0, v.1, v.2));
        if face % 2 == 0 {
            let back = padded_of(axis, z + 1, x + 1, layer);
            assert(back == (v.0 + n.x + 1, v.1 + n.y + 1, v.2 + n.z + 1));
            assert(filled(34, 0, 0, back));
            assert(bit64(cell, layer) <==> layer < 34 && filled(34, 0, 0, back) && solid_at(
                view,
                registry,
                back.0 - 1,
                back.1 - 1,
                back.2 - 1,
            ));
            assert(bit64(col, layer) <==> bit64(cell, layer + 1) && !bit64(cell, layer));
        } else {
            let front = padded_of(axis, z + 1, x + 1, layer + 2);
            assert(front == (v.0 + n.x + 1, v.1 + n.y + 1, v.2 + n.z + 1));
            assert(filled(34, 0, 0, front));
            assert(bit64(cell, layer + 2) <==> layer + 2 < 34 && filled(34, 0, 0, front)
                && solid_at(view, registry, front.0 - 1, front.1 - 1, front.2 - 1));
            assert(bit64(col, layer) <==> bit64(cell, layer + 1) && !bit64(cell, layer + 2));
        }
    } else {
        assert(!bit64(col, layer));
    }
}

/// find faces and build binary planes based on the voxel block+ao etc...
/// for one of the six directions.
fn bin_direction(
    view: &ChunkRefs,
    registry: &BlockPrototypes,
    axis_cols: &[[[u64; 34]; 34]; 3],
    face: usize,
) -> (bins: PlaneBins)
    requires
        face < 6,
        view.registered_in(registry),
        cols_hold(view, registry, *axis_cols),
    ensures
        bins_hold(view, registry, face_dir(face as int), bins@),
{
    let d = direction_of(face);
    let axis = face / 2;
    let descending = face % 2 == 0;
    let mut bins = PlaneBins::new();
    let mut z: usize = 0;
    while z < 32
        invariant
            z <= 32,
            face < 6,
            axis == face / 2,
            descending == (face % 2 == 0),
            d == face_dir(face as int),
            view.registered_in(registry),
            cols_hold(view, registry, *axis_cols),
            bins_partial(view, registry, d, bins@, z as int, 0, false, 0),
        decreases 32 - z,
    {
        let mut x: usize = 0;
        while x < 32
            invariant
                z < 32,
                x <= 32,
                face < 6,
                axis == face / 2,
                descending == (face % 2 == 0),
                d == face_dir(face as int),
                view.registered_in(registry),
                cols_hold(view, registry, *axis_cols),
                x < 32 ==> bins_partial(view, registry, d, bins@, z as int, x as int, false, 0),
                x == 32 ==> bins_partial(view, registry, d, bins@, z + 1, 0, false, 0),
            decreases 32 - x,
        {
            // skip padded by adding 1(for x padding) and (z+1) for (z padding)
            let c: u64 = axis_cols[axis][z + 1][x + 1];
            // set where the voxel is solid and the voxel before (or after) it is air
            let mask: u64 = if descending {
                c & !(c << 1)
            } else {
                c & !(c >> 1)
            };
            // drops the padding on either side of the column
            let mut col: u64 = (mask >> 1) & 0xffff_ffffu64;
            proof {
                assert(c == col_at(*axis_cols, axis as int, z + 1, x + 1));
                assert forall|layer: int| 0 <= layer < 64 implies (#[trigger] bit64(col, layer)
                    <==> layer < 32 && ({
                    let v = d.plane_to_voxel(layer, x as int, z as int);
                    face_visible(view, registry, d, v.0, v.1, v.2)
                })) by {
                    lemma_column_face(
                        view,
                        registry,
                        *axis_cols,
                        face as int,
                        z as int,
                        x as int,
                        col,
                        layer,
                    );
                }
                lemma_bin_open(view, registry, d, bins@, z as int, x as int, col);
            }
            while col != 0
                invariant
                    z < 32,
                    x < 32,
                    d == face_dir(face as int),
                    view.registered_in(registry),
                    bins_partial(view, registry, d, bins@, z as int, x as int, true, col),
                    forall|layer: int|
                        0 <= layer < 64 && #[trigger] bit64(col, layer) ==> layer < 32 && ({
                            let v = d.plane_to_voxel(layer, x as int, z as int);
                            face_visible(view, registry, d, v.0, v.1, v.2)
                        }),
                decreases col,
            {
                proof {
                    axiom_u64_trailing_zeros(col);
                }
                let y: u32 = col.trailing_zeros();
                assert(bit64(col, y as int));
                // clear least significant set bit
                let next: u64 = col & !(1u64 << (y as u64));
                proof {
                    assert forall|b: int| 0 <= b < 64 implies (#[trigger] bit64(next, b) <==> bit64(
                        col,
                        b,
                    ) && b != y) by {
                        lemma_bits64(col, y as u64, b as u64);
                    }
                    lemma_bits64(col, y as u64, 0);
                }
                // get the voxel position based on axis
                let voxel_pos = d.voxel_of(y as i32, x as i32, z as i32);
                let ao_index = ambient_occlusion(view, registry, d, voxel_pos);
                proof {
                    view.lemma_block_registered(
                        registry,
                        voxel_pos.x as int,
                        voxel_pos.y as int,
                        voxel_pos.z as int,
                    );
                }
                let current_voxel = view.get_block_no_neighbour(
                    registry,
                    RelativePosition::new(voxel_pos.x, voxel_pos.y, voxel_pos.z),
                );
                // we can only greedy mesh same block types + same ambient occlusion
                let block_hash: u32 = ao_index | ((current_voxel.id as u32) << 9);
                let ghost before = bins@;
                bins.add_face((block_hash, y), x, z);
                proof {
                    lemma_bin_step(
                        view,
                        registry,
                        d,
                        before,
                        bins@,
                        z as int,
                        x as int,
                        col,
                        next,
                        y as int,
                        block_hash,
                    );
                }
                col = next;
            }
            proof {
                if x == 31 {
                    lemma_bin_close(view, registry, d, bins@, z as int, x as int, z + 1, 0);
                } else {
                    lemma_bin_close(view, registry, d, bins@, z as int, x as int, z as int, x + 1);
                }
            }
            x += 1;
        }
        z += 1;
    }
    proof {
        lemma_bin_done(view, registry, d, bins@);
    }
    bins
}

/// The faces of the centre chunk in all six directions, binned by what
/// they must have in common to be merged: greedy meshing planes for every
/// axis (6).
fn calculate_ao(view: &ChunkRefs, registry: &BlockPrototypes, axis_cols: &[[[u64; 34]; 34]; 3]) -> (data:
    [PlaneBins; 6])
    requires
        view.registered_in(registry),
        cols_hold(view, registry, *axis_cols),
    ensures
        forall|face: int|
            0 <= face < 6 ==> bins_hold(view, registry, face_dir(face), (#[trigger] data@[face])@),
{
    [
        bin_direction(view, registry, axis_cols, 0),
        bin_direction(view, registry, axis_cols, 1),
        bin_direction(view, registry, axis_cols, 2),
        bin_direction(view, registry, axis_cols, 3),
        bin_direction(view, registry, axis_cols, 4),
        bin_direction(view, registry, axis_cols, 5),
    ]
}

/// True when `entries` lists the planes of the faces toward `d`: one
/// plane for every key that a face has, each with exactly its faces.
pub open spec fn entries_hold(
    view: &ChunkRefs,
    registry: &BlockPrototypes,
    d: FaceDir,
    entries: Seq<((u32, u32), [u32; 32])>,
) -> bool {
    &&& forall|i: int, j: int|
        0 <= i < j < entries.len() ==> (#[trigger] entries[i]).0 != (#[trigger] entries[j]).0
    &&& forall|i: int|
        0 <= i < entries.len() ==> has_face(view, registry, d, (#[trigger] entries[i]).0)
            && plane_shows(view, registry, d, entries[i].0, entries[i].1@)
    &&& forall|key: (u32, u32)| #[trigger]
        has_face(view, registry, d, key) ==> exists|i: int|
            0 <= i < entries.len() && (#[trigger] entries[i]).0 == key
}

/// The packed form of a rectangle of faces toward `d` in the plane of
/// `layer`. It starts at the voxel of the rectangle's first row and lowest
/// bit; its two stretches are the rectangle's height in bits and its width
/// in rows, in that order.
pub open spec fn packed_face(d: FaceDir, layer: int, q: GreedyQuad) -> PackedQuad {
    let v = d.plane_to_voxel(layer, q.x as int, q.y as int);
    PackedQuad {
        packed_u32: packed_word(
            v.0,
            v.1,
            v.2,
            d.normal_index_spec() as int,
            0,
            q.h as int,
            q.w as int,
        ) as u32,
    }
}

/// The quads of one plane: its rectangles, packed.
pub open spec fn plane_quads(d: FaceDir, key: (u32, u32), plane: Seq<u32>, lod: u32) -> Seq<
    PackedQuad,
> {
    let quads = greedy_quads(plane, lod);
    Seq::new(quads.len(), |k: int| packed_face(d, key.1 as int, quads[k]))
}

/// The quads of the first `n` of the planes toward `d`, plane after plane.
pub open spec fn direction_quads(
    d: FaceDir,
    entries: Seq<((u32, u32), [u32; 32])>,
    lod: u32,
    n: int,
) -> Seq<PackedQuad>
    decreases n,
{
    if n <= 0 {
        Seq::empty()
    } else {
        direction_quads(d, entries, lod, n - 1) + plane_quads(
            d,
            entries[n - 1].0,
            entries[n - 1].1@,
            lod,
        )
    }
}

/// The quads of the first `n` of the six directions, direction after
/// direction.
pub open spec fn mesh_quads(bins: Seq<Seq<((u32, u32), [u32; 32])>>, lod: u32, n: int) -> Seq<
    PackedQuad,
>
    decreases n,
{
    if n <= 0 {
        Seq::empty()
    } else {
        mesh_quads(bins, lod, n - 1) + direction_quads(
            face_dir(n - 1),
            bins[n - 1],
            lod,
            bins[n - 1].len() as int,
        )
    }
}

/// True when `quads` is a mesh of the centre chunk: for each of the six
/// directions in turn, the quads of every plane of faces toward it. The
/// order of the planes within a direction is left open.
pub open spec fn meshes_to(
    view: &ChunkRefs,
    registry: &BlockPrototypes,
    lod: Lod,
    quads: Seq<PackedQuad>,
) -> bool {
    exists|bins: Seq<Seq<((u32, u32), [u32; 32])>>|
        {
            &&& bins.len() == 6
            &&& forall|face: int|
                0 <= face < 6 ==> entries_hold(view, registry, face_dir(face), #[trigger] bins[face])
            &&& quads == mesh_quads(bins, lod.size_spec() as u32, 6)
        }
}

/// True when `r` is what meshing the centre chunk gives: nothing where all
/// 27 chunks are of one block, and else a mesh of the chunk, or nothing
/// where that mesh has no quad.
pub open spec fn is_mesh_of(
    view: &ChunkRefs,
    registry: &BlockPrototypes,
    lod: Lod,
    r: Option<RenderableChunk>,
) -> bool {
    if view.all_same() {
        r is None
    } else {
        exists|quads: Seq<PackedQuad>|
            {
                &&& meshes_to(view, registry, lod, quads)
                &&& match r {
                    None => quads.len() == 0,
                    Some(mesh) => quads.len() > 0 && mesh.quads@ == quads && mesh.chunk_position
                        == view.center_chunk_position,
                }
            }
    }
}

/// Appends the quads of one plane.
fn push_plane_quads(
    quads: &mut Vec<PackedQuad>,
    face_dir: FaceDir,
    key: (u32, u32),
    plane: [u32; 32],
    lod_size: u32,
)
    requires
        key.1 < 32,
        lod_size <= 32,
    ensures
        final(quads)@ == old(quads)@ + plane_quads(face_dir, key, plane@, lod_size),
{
    let ao = key.0 & 0b111111111;
    let greedy = greedy_mesh_binary_plane(plane, lod_size);
    let ghost base = quads@;
    let mut k: usize = 0;
    while k < greedy.len()
        invariant
            k <= greedy.len(),
            key.1 < 32,
            forall|i: int| 0 <= i < greedy.len() ==> quad_fits(#[trigger] greedy[i]),
            quads@ == base + Seq::new(
                k as nat,
                |j: int| packed_face(face_dir, key.1 as int, greedy[j]),
            ),
        decreases greedy.len() - k,
    {
        let greedy_quad = greedy[k];
        assert(quad_fits(greedy_quad));
        let position = face_dir.voxel_of(key.1 as i32, greedy_quad.x as i32, greedy_quad.y as i32);
        let packed_quad = PackedQuad::new(
            position,
            face_dir.normal_index(),
            ao,
            greedy_quad.h,
            greedy_quad.w,
        );
        assert(packed_quad == packed_face(face_dir, key.1 as int, greedy_quad));
        quads.push(packed_quad);
        k += 1;
        proof {
            assert(quads@ =~= base + Seq::new(
                k as nat,
                |j: int| packed_face(face_dir, key.1 as int, greedy[j]),
            ));
        }
    }
    proof {
        assert(quads@ =~= base + plane_quads(face_dir, key, plane@, lod_size));
    }
}

/// The quads of the centre chunk of a neighbourhood: its visible faces,
/// merged where neighbours in a plane have the same block and the same
/// occlusion samples. At full detail there are quads exactly where a face
/// is visible.
#[must_use]
pub fn build_chunk_instance_data(
    chunks_refs: &ChunkRefs,
    registry: &BlockPrototypes,
    lod: Lod,
) -> (r: Option<RenderableChunk>)
    requires
        chunks_refs.registered_in(registry),
    ensures
        is_mesh_of(chunks_refs, registry, lod, r),
        lod == Lod::L32 ==> (r is None <==> no_visible_face(chunks_refs, registry)),
{
    // early exit, if all faces are culled
    if chunks_refs.is_all_voxels_same() {
        proof {
            lemma_uniform_has_no_faces(chunks_refs, registry);
        }
        return None;
    }
    // solid binary for each x,y,z axis (3)
    let mut axis_cols = [[[0u64; 34]; 34]; 3];
    fill_columns(chunks_refs, registry, &mut axis_cols);
    let data = calculate_ao(chunks_refs, registry, &axis_cols);
    let lod_size = lod.size() as u32;

    let mut listed: Vec<Vec<((u32, u32), [u32; 32])>> = Vec::new();
    let mut face: usize = 0;
    while face < 6
        invariant
            face <= 6,
            listed.len() == face,
            forall|f: int|
                0 <= f < 6 ==> bins_hold(
                    chunks_refs,
                    registry,
                    face_dir(f),
                    (#[trigger] data@[f])@,
                ),
            forall|f: int|
                0 <= f < face ==> entries_hold(
                    chunks_refs,
                    registry,
                    face_dir(f),
                    (#[trigger] listed@[f])@,
                ),
        decreases 6 - face,
    {
        let entries = data[face].entries();
        proof {
            let d = face_dir(face as int);
            let bins = data@[face as int]@;
            assert(bins_hold(chunks_refs, registry, d, bins));
            assert forall|i: int| 0 <= i < entries.len() implies has_face(
                chunks_refs,
                registry,
                d,
                (#[trigger] entries@[i]).0,
            ) && plane_shows(chunks_refs, registry, d, entries@[i].0, entries@[i].1@) by {
                assert(bins.contains_key(entries@[i].0));
            }
            assert forall|key: (u32, u32)| #[trigger]
                has_face(chunks_refs, registry, d, key) implies exists|i: int|
                0 <= i < entries.len() && (#[trigger] entries@[i]).0 == key by {
                assert(bins.contains_key(key));
            }
            assert(entries_hold(chunks_refs, registry, d, entries@));
        }
        listed.push(entries);
        face += 1;
    }
    let ghost bins: Seq<Seq<((u32, u32), [u32; 32])>> = Seq::new(6, |f: int| listed@[f]@);

    let mut quads: Vec<PackedQuad> = Vec::new();
    face = 0;
    while face < 6
        invariant
            face <= 6,
            lod_size == lod.size_spec(),
            listed.len() == 6,
            bins == Seq::new(6, |f: int| listed@[f]@),
            forall|f: int|
                0 <= f < 6 ==> entries_hold(
                    chunks_refs,
                    registry,
                    face_dir(f),
                    (#[trigger] listed@[f])@,
                ),
            quads@ == mesh_quads(bins, lod_size, face as int),
        decreases 6 - face,
    {
        let face_dir = direction_of(face);
        let entries = &listed[face];
        let mut i: usize = 0;
        while i < entries.len()
            invariant
                i <= entries.len(),
                face < 6,
                lod_size <= 32,
                face_dir == crate::faces::face_dir(face as int),
                entries_hold(chunks_refs, registry, face_dir, entries@),
                quads@ == mesh_quads(bins, lod_size, face as int) + direction_quads(
                    face_dir,
                    entries@,
                    lod_size,
                    i as int,
                ),
            decreases entries.len() - i,
        {
            let (key, plane) = entries[i];
            proof {
                assert(has_face(chunks_refs, registry, face_dir, entries@[i as int].0));
                let (row, bit) = choose|row: int, bit: int|
                    face_in_plane(chunks_refs, registry, face_dir, key, row, bit);
                let v = face_dir.plane_to_voxel(key.1 as int, row, bit);
                assert(in_center(v.0, v.1, v.2));
            }
            let ghost before = quads@;
            push_plane_quads(&mut quads, face_dir, key, plane, lod_size);
            i += 1;
            proof {
                assert(quads@ =~= mesh_quads(bins, lod_size, face as int) + direction_quads(
                    face_dir,
                    entries@,
                    lod_size,
                    i as int,
                ));
            }
        }
        proof {
            assert(bins[face as int] == entries@);
        }
        face += 1;
    }

    proof {
        assert(bins.len() == 6);
        assert forall|f: int| 0 <= f < 6 implies entries_hold(
            chunks_refs,
            registry,
            crate::faces::face_dir(f),
            #[trigger] bins[f],
        ) by {
            assert(bins[f] == listed@[f]@);
        }
        assert(lod_size == lod.size_spec() as u32);
        assert(quads@ == mesh_quads(bins, lod.size_spec() as u32, 6));
        assert(meshes_to(chunks_refs, registry, lod, quads@));
        if lod == Lod::L32 {
            lemma_mesh_shows_faces(chunks_refs, registry, quads@);
        }
    }
    if quads.is_empty() {
        return None;
    }
    let mesh = RenderableChunk::new(quads, chunks_refs.center_chunk_position);
    proof {
        assert(meshes_to(chunks_refs, registry, lod, mesh.quads@));
    }
    Some(mesh)
}

} // verus!
