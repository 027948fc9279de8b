use talc::chunk::ChunkData;
use talc::chunk::VoxelIndex;
use talc::chunk_material::PackedQuad;
use talc::chunks_refs::ChunkRefs;
use talc::color::Rgba;
use talc::greedy_mesher_optimized::add_voxel_to_axis_cols;
use talc::greedy_mesher_optimized::build_chunk_instance_data;
use talc::greedy_mesher_optimized::greedy_mesh_binary_plane;
use talc::lod::Lod;
use talc::position::ChunkPosition;
use talc::prototypes::BlockPrototypes;
use talc::prototypes::BlockPrototypesBuilder;
use talc::prototypes::RawBlockPrototype;
use talc::world_map::Chunks;

fn registry() -> BlockPrototypes {
    let mut builder = BlockPrototypesBuilder::new();
    let air = builder.add(RawBlockPrototype {
        name: "air".to_string(),
        is_transparent: true,
        is_meshable: false,
        color: Rgba::new(0, 0, 0, 0),
    });
    assert_eq!(air, Ok(0));
    let grass = builder.add(RawBlockPrototype {
        name: "grass".to_string(),
        is_transparent: false,
        is_meshable: true,
        color: Rgba::new(0, 255, 0, 255),
    });
    assert_eq!(grass, Ok(1));
    let dirt = builder.add(RawBlockPrototype {
        name: "dirt".to_string(),
        is_transparent: false,
        is_meshable: true,
        color: Rgba::new(120, 80, 40, 255),
    });
    assert_eq!(dirt, Ok(2));
    builder.build()
}

fn world_of(block: u16) -> Chunks {
    let mut chunks = Chunks::new();
    for x in -1..=1 {
        for y in -1..=1 {
            for z in -1..=1 {
                let position = ChunkPosition::new(x, y, z);
                chunks.insert(position, ChunkData::homogeneous(position, block));
            }
        }
    }
    chunks
}

fn origin() -> ChunkPosition {
    ChunkPosition::new(0, 0, 0)
}

#[test]
fn all_air_neighbourhood_has_no_quads() {
    let registry = registry();
    let chunks = world_of(0);
    let view = ChunkRefs::try_new(&chunks, origin()).unwrap();
    assert!(view.is_all_voxels_same());
    assert!(view.is_registered_in(&registry));
    assert!(build_chunk_instance_data(&view, &registry, Lod::L32).is_none());
}

#[test]
fn all_solid_neighbourhood_has_no_quads() {
    let registry = registry();
    let chunks = world_of(1);
    let view = ChunkRefs::try_new(&chunks, origin()).unwrap();
    assert!(build_chunk_instance_data(&view, &registry, Lod::L32).is_none());
}

#[test]
fn single_voxel_has_six_unit_quads() {
    let registry = registry();
    let mut chunks = world_of(0);
    let mut center = ChunkData::homogeneous(origin(), 0);
    center.set_block(VoxelIndex::new(5, 6, 7), 1);
    chunks.insert(origin(), center);
    let view = ChunkRefs::try_new(&chunks, origin()).unwrap();
    assert!(!view.is_all_voxels_same());
    let mesh = build_chunk_instance_data(&view, &registry, Lod::L32).unwrap();
    assert_eq!(mesh.chunk_position(), origin());
    assert_eq!(mesh.quads.len(), 6);
    let mut normals: Vec<u32> = Vec::new();
    for quad in mesh.quads.iter() {
        assert_eq!(quad.x(), 5);
        assert_eq!(quad.y(), 6);
        assert_eq!(quad.z(), 7);
        assert_eq!(quad.x_stretch(), 1);
        assert_eq!(quad.y_stretch(), 1);
        assert_eq!(quad.ao(), 0);
        normals.push(quad.normal());
    }
    // the sweeps go down, up, left, right, forward, back
    assert_eq!(normals, vec![2, 3, 0, 1, 4, 5]);
}

#[test]
fn solid_chunk_in_air_has_six_full_quads() {
    let registry = registry();
    let mut chunks = world_of(0);
    chunks.insert(origin(), ChunkData::homogeneous(origin(), 2));
    let view = ChunkRefs::try_new(&chunks, origin()).unwrap();
    let mesh = build_chunk_instance_data(&view, &registry, Lod::L32).unwrap();
    // every side is one plane, with the occlusion samples of its rim apart
    // from those of its inner faces: all samples are air, so one key a side
    assert_eq!(mesh.quads.len(), 6);
    for quad in mesh.quads.iter() {
        assert_eq!(quad.x_stretch(), 32);
        assert_eq!(quad.y_stretch(), 32);
    }
    let down: PackedQuad = mesh.quads[0];
    assert_eq!((down.x(), down.y(), down.z(), down.normal()), (0, 0, 0, 2));
    let up: PackedQuad = mesh.quads[1];
    assert_eq!((up.x(), up.y(), up.z(), up.normal()), (0, 31, 0, 3));
    let right: PackedQuad = mesh.quads[3];
    assert_eq!((right.x(), right.y(), right.z(), right.normal()), (31, 0, 0, 1));
    let back: PackedQuad = mesh.quads[5];
    assert_eq!((back.x(), back.y(), back.z(), back.normal()), (0, 0, 31, 5));
}

#[test]
fn faces_against_a_solid_neighbour_are_culled() {
    let registry = registry();
    let mut chunks = world_of(0);
    chunks.insert(origin(), ChunkData::homogeneous(origin(), 1));
    let above = ChunkPosition::new(0, 1, 0);
    chunks.insert(above, ChunkData::homogeneous(above, 1));
    let view = ChunkRefs::try_new(&chunks, origin()).unwrap();
    let mesh = build_chunk_instance_data(&view, &registry, Lod::L32).unwrap();
    // no face upward; the samples for a side face lie beside the chunk,
    // where all is air, so each side is still one quad
    assert!(mesh.quads.iter().all(|q| q.normal() != 3));
    let down: Vec<&PackedQuad> = mesh.quads.iter().filter(|q| q.normal() == 2).collect();
    assert_eq!(down.len(), 1);
    let left: Vec<&PackedQuad> = mesh.quads.iter().filter(|q| q.normal() == 0).collect();
    assert_eq!(left.len(), 1);
    assert_eq!(mesh.quads.len(), 5);
}

#[test]
fn occlusion_keeps_faces_apart() {
    let registry = registry();
    let mut chunks = world_of(0);
    chunks.insert(origin(), ChunkData::homogeneous(origin(), 1));
    // a solid chunk up and to the left hangs over the top row of the left side
    let corner = ChunkPosition::new(-1, 1, 0);
    chunks.insert(corner, ChunkData::homogeneous(corner, 1));
    let view = ChunkRefs::try_new(&chunks, origin()).unwrap();
    let mesh = build_chunk_instance_data(&view, &registry, Lod::L32).unwrap();
    let mut left: Vec<(u32, u32, u32, u32, u32)> = mesh
        .quads
        .iter()
        .filter(|q| q.normal() == 0)
        .map(|q| (q.y(), q.z(), q.x_stretch(), q.y_stretch(), q.x()))
        .collect();
    left.sort();
    // rows run along z and bits along y for this direction: the first
    // stretch is the extent along y, the second the extent along z
    assert_eq!(
        left,
        vec![(0, 0, 31, 32, 0), (31, 0, 1, 1, 0), (31, 1, 1, 30, 0), (31, 31, 1, 1, 0)]
    );
    // the top side is occluded along its left rim in the same way
    let up = mesh.quads.iter().filter(|q| q.normal() == 3).count();
    assert_eq!(up, 4);
    assert_eq!(mesh.quads.len(), 4 + 4 + 4);
}

#[test]
fn full_plane_merges_into_one_quad() {
    let quads = greedy_mesh_binary_plane([u32::MAX; 32], 32);
    assert_eq!(quads.len(), 1);
    assert_eq!((quads[0].x, quads[0].y, quads[0].w, quads[0].h), (0, 0, 32, 32));
}

#[test]
fn empty_plane_has_no_quads() {
    assert!(greedy_mesh_binary_plane([0; 32], 32).is_empty());
}

#[test]
fn plane_with_two_runs_in_a_row() {
    let mut plane = [0u32; 32];
    plane[3] = 0b0110_0111;
    plane[4] = 0b0110_0011;
    let quads = greedy_mesh_binary_plane(plane, 32);
    // row 3: bits 0..3, not matched by row 4; then bits 5..7 with row 4
    // row 4: what is left, bits 0..2
    assert_eq!(quads.len(), 3);
    assert_eq!((quads[0].x, quads[0].y, quads[0].w, quads[0].h), (3, 0, 1, 3));
    assert_eq!((quads[1].x, quads[1].y, quads[1].w, quads[1].h), (3, 5, 2, 2));
    assert_eq!((quads[2].x, quads[2].y, quads[2].w, quads[2].h), (4, 0, 1, 2));
}

#[test]
fn lower_level_of_detail_stops_the_sweep() {
    let quads = greedy_mesh_binary_plane([u32::MAX; 32], 16);
    // rows below 16 merge; their run of 32 bits starts below 16
    assert_eq!((quads[0].x, quads[0].y, quads[0].w, quads[0].h), (0, 0, 16, 32));
    // every row from 16 on is a rectangle of its own
    assert_eq!(quads.len(), 17);
    assert_eq!((quads[16].x, quads[16].y, quads[16].w, quads[16].h), (31, 0, 1, 32));
}

#[test]
fn solid_voxels_are_entered_into_the_columns() {
    let registry = registry();
    let mut axis_cols = [[[0u64; 34]; 34]; 3];
    add_voxel_to_axis_cols(registry.block(0), 1, 2, 3, &mut axis_cols);
    assert_eq!(axis_cols, [[[0u64; 34]; 34]; 3]);
    add_voxel_to_axis_cols(registry.block(1), 1, 2, 3, &mut axis_cols);
    add_voxel_to_axis_cols(registry.block(2), 1, 33, 3, &mut axis_cols);
    assert_eq!(axis_cols[0][3][1], (1 << 2) | (1 << 33));
    assert_eq!(axis_cols[1][2][3], 1 << 1);
    assert_eq!(axis_cols[1][33][3], 1 << 1);
    assert_eq!(axis_cols[2][2][1], 1 << 3);
    assert_eq!(axis_cols[2][33][1], 1 << 3);
    let set: u32 = axis_cols.iter().flatten().flatten().map(|c| c.count_ones()).sum();
    assert_eq!(set, 6);
}

#[test]
fn every_face_of_a_rugged_chunk_is_in_one_quad() {
    let registry = registry();
    let mut chunks = world_of(0);
    let mut center = ChunkData::homogeneous(origin(), 0);
    let solid = |x: usize, y: usize, z: usize| (x * 7 + y * 3 + z * 5) % 4 != 0 && y < 20;
    let mut edits = Vec::new();
    for z in 0..32 {
        for y in 0..32 {
            for x in 0..32 {
                if solid(x, y, z) {
                    edits.push((VoxelIndex::new(x, y, z), 1 + ((x + z) % 2) as u16));
                }
            }
        }
    }
    center.set_blocks(&edits);
    chunks.insert(origin(), center);
    let view = ChunkRefs::try_new(&chunks, origin()).unwrap();
    let mesh = build_chunk_instance_data(&view, &registry, Lod::L32).unwrap();
    // count the unit faces that the quads take in, by direction
    let mut faces = [0usize; 6];
    for quad in mesh.quads.iter() {
        faces[quad.normal() as usize] += (quad.x_stretch() * quad.y_stretch()) as usize;
    }
    let inside = |x: i32, y: i32, z: i32| {
        (0..32).contains(&x)
            && (0..32).contains(&y)
            && (0..32).contains(&z)
            && solid(x as usize, y as usize, z as usize)
    };
    let normals = [(-1, 0, 0), (1, 0, 0), (0, -1, 0), (0, 1, 0), (0, 0, -1), (0, 0, 1)];
    for (index, (dx, dy, dz)) in normals.iter().enumerate() {
        let mut expected = 0;
        for z in 0..32 {
            for y in 0..32 {
                for x in 0..32 {
                    if inside(x, y, z) && !inside(x + dx, y + dy, z + dz) {
                        expected += 1;
                    }
                }
            }
        }
        assert_eq!(faces[index], expected);
    }
}
