//! What a mesh shows: it is empty exactly where no face is visible.

use vstd::prelude::*;
use crate::chunk::CHUNK_SIZE3;
use crate::chunk_material::PackedQuad;
use crate::chunks_refs::ChunkRefs;
use crate::chunks_refs::in_center;
use crate::chunks_refs::local_of;
use crate::chunks_refs::slot_of;
use crate::chunks_refs::NEIGHBORHOOD;
use crate::face_direction::FaceDir;
use crate::faces::bit32;
use crate::faces::face_dir;
use crate::faces::face_in_plane;
use crate::faces::face_key;
use crate::faces::face_visible;
use crate::faces::has_face;
use crate::faces::plane_shows;
use crate::faces::solid_at;
use crate::greedy_mesher_optimized::direction_quads;
use crate::greedy_mesher_optimized::entries_hold;
use crate::greedy_mesher_optimized::greedy_quads;
use crate::greedy_mesher_optimized::mesh_quads;
use crate::greedy_mesher_optimized::meshes_to;
use crate::greedy_mesher_optimized::plane_quads;
use crate::lod::Lod;
use crate::plane_cover::covered;
use crate::plane_cover::lemma_greedy_quads_tile;
use crate::prototypes::BlockPrototypes;

verus! {

/// True when no voxel of the centre chunk shows a face in any direction.
pub open spec fn no_visible_face(view: &ChunkRefs, registry: &BlockPrototypes) -> bool {
    forall|face: int, x: int, y: int, z: int|
        0 <= face < 6 ==> !#[trigger] face_visible(view, registry, face_dir(face), x, y, z)
}

/// Where all 27 chunks are of one block, no face is visible.
pub proof fn lemma_uniform_has_no_faces(view: &ChunkRefs, registry: &BlockPrototypes)
    requires
        view.all_same(),
    ensures
        no_visible_face(view, registry),
{
    assert forall|face: int, x: int, y: int, z: int| 0 <= face < 6 implies !#[trigger] face_visible(
        view,
        registry,
        face_dir(face),
        x,
        y,
        z,
    ) by {
        let d = face_dir(face);
        if in_center(x, y, z) {
            let n = d.normal();
            let (nx, ny, nz) = (x + n.x, y + n.y, z + n.z);
            assert(0 <= slot_of(x, y, z) < NEIGHBORHOOD && 0 <= local_of(x, y, z) < CHUNK_SIZE3);
            assert(0 <= slot_of(nx, ny, nz) < NEIGHBORHOOD && 0 <= local_of(nx, ny, nz)
                < CHUNK_SIZE3);
            assert(view.chunk(slot_of(x, y, z))@[local_of(x, y, z)] == view.chunk(0)@[0]);
            assert(view.chunk(slot_of(nx, ny, nz))@[local_of(nx, ny, nz)] == view.chunk(0)@[0]);
            assert(solid_at(view, registry, x, y, z) == solid_at(view, registry, nx, ny, nz));
        }
    }
}

/// The quads of a direction are at least as many as those of any one of
/// its planes.
proof fn lemma_direction_len(d: FaceDir, entries: Seq<((u32, u32), [u32; 32])>, lod: u32, n: int, i: int)
    requires
        0 <= i < n <= entries.len(),
    ensures
        direction_quads(d, entries, lod, n).len() >= plane_quads(
            d,
            entries[i].0,
            entries[i].1@,
            lod,
        ).len(),
    decreases n,
{
    if i < n - 1 {
        lemma_direction_len(d, entries, lod, n - 1, i);
    }
}

/// The quads of a mesh are at least as many as those of any one direction.
proof fn lemma_mesh_len(bins: Seq<Seq<((u32, u32), [u32; 32])>>, lod: u32, n: int, face: int)
    requires
        0 <= face < n <= bins.len(),
    ensures
        mesh_quads(bins, lod, n).len() >= direction_quads(
            face_dir(face),
            bins[face],
            lod,
            bins[face].len() as int,
        ).len(),
    decreases n,
{
    if face < n - 1 {
        lemma_mesh_len(bins, lod, n - 1, face);
    }
}

/// A mesh without planes has no quads.
proof fn lemma_mesh_empty(bins: Seq<Seq<((u32, u32), [u32; 32])>>, lod: u32, n: int)
    requires
        0 <= n <= bins.len(),
        forall|face: int| 0 <= face < n ==> (#[trigger] bins[face]).len() == 0,
    ensures
        mesh_quads(bins, lod, n).len() == 0,
    decreases n,
{
    if n > 0 {
        lemma_mesh_empty(bins, lod, n - 1);
        assert(bins[n - 1].len() == 0);
    }
}

/// A mesh at full detail has a quad exactly where a face is visible.
pub proof fn lemma_mesh_shows_faces(
    view: &ChunkRefs,
    registry: &BlockPrototypes,
    quads: Seq<PackedQuad>,
)
    requires
        meshes_to(view, registry, Lod::L32, quads),
    ensures
        quads.len() == 0 <==> no_visible_face(view, registry),
{
    let bins = choose|bins: Seq<Seq<((u32, u32), [u32; 32])>>|
        {
            &&& bins.len() == 6
            &&& forall|face: int|
                0 <= face < 6 ==> entries_hold(view, registry, face_dir(face), #[trigger] bins[face])
            &&& quads == mesh_quads(bins, Lod::L32.size_spec() as u32, 6)
        };
    if no_visible_face(view, registry) {
        assert forall|face: int| 0 <= face < 6 implies (#[trigger] bins[face]).len() == 0 by {
            let d = face_dir(face);
            let entries = bins[face];
            assert(entries_hold(view, registry, d, entries));
            if entries.len() > 0 {
                assert(has_face(view, registry, d, entries[0].0));
                let (row, bit) = choose|row: int, bit: int|
                    face_in_plane(view, registry, d, entries[0].0, row, bit);
                let v = d.plane_to_voxel(entries[0].0.1 as int, row, bit);
                assert(face_visible(view, registry, face_dir(face), v.0, v.1, v.2));
            }
        }
        lemma_mesh_empty(bins, 32, 6);
    } else {
        let (face, x, y, z) = choose|face: int, x: int, y: int, z: int|
            0 <= face < 6 && #[trigger] face_visible(view, registry, face_dir(face), x, y, z);
        let d = face_dir(face);
        let entries = bins[face];
        assert(entries_hold(view, registry, d, entries));
        let (layer, row, bit) = match d {
            FaceDir::Up | FaceDir::Down => (y, x, z),
            FaceDir::Left | FaceDir::Right => (x, z, y),
            FaceDir::Forward | FaceDir::Back => (z, x, y),
        };
        assert(d.plane_to_voxel(layer, row, bit) == (x, y, z));
        let key = (face_key(view, registry, d, x, y, z), layer as u32);
        assert(face_in_plane(view, registry, d, key, row, bit));
        assert(has_face(view, registry, d, key));
        let i = choose|i: int| 0 <= i < entries.len() && (#[trigger] entries[i]).0 == key;
        let plane = entries[i].1@;
        assert(plane_shows(view, registry, d, key, plane));
        assert(bit32(plane[row], bit));
        lemma_greedy_quads_tile(plane);
        assert(covered(greedy_quads(plane, 32), row, bit));
        assert(plane_quads(d, key, plane, 32).len() > 0);
        lemma_direction_len(d, entries, 32, entries.len() as int, i);
        lemma_mesh_len(bins, 32, 6, face);
    }
}

} // verus!
