use talc::chunk::ChunkData;
use talc::chunk::VoxelIndex;
use talc::chunks_refs::ChunkRefs;
use talc::color::Rgba;
use talc::coord_set::CoordSet;
use talc::plane_bins::PlaneBins;
use talc::position::ChunkPosition;
use talc::position::Position;
use talc::position::RelativePosition;
use talc::prototypes::BlockPrototypes;
use talc::prototypes::BlockPrototypesBuilder;
use talc::prototypes::RawBlockPrototype;
use talc::quad::Direction;
use talc::scanner::is_neighborhood_resident;
use talc::world_map::Chunks;

fn three_blocks() -> BlockPrototypes {
    let mut builder = BlockPrototypesBuilder::new();
    for (name, is_transparent) in [("air", true), ("grass", false), ("dirt", false)] {
        builder
            .add(RawBlockPrototype {
                name: name.to_string(),
                is_transparent,
                is_meshable: !is_transparent,
                color: Rgba::white(),
            })
            .unwrap();
    }
    builder.build()
}

fn cube_around(center: ChunkPosition, block: u16) -> Chunks {
    let mut chunks = Chunks::new();
    for x in -1..=1 {
        for y in -1..=1 {
            for z in -1..=1 {
                let position = center + ChunkPosition::new(x, y, z);
                chunks.insert(position, ChunkData::homogeneous(position, block));
            }
        }
    }
    chunks
}

#[test]
fn world_map_holds_what_was_inserted() {
    let mut chunks = Chunks::new();
    assert_eq!(chunks.len(), 0);
    let a = ChunkPosition::new(1, 2, 3);
    let b = ChunkPosition::new(3, 2, 1);
    assert!(!chunks.contains_key(a));
    assert!(chunks.get(a).is_none());
    chunks.insert(a, ChunkData::homogeneous(a, 5));
    chunks.insert(b, ChunkData::homogeneous(b, 6));
    assert_eq!(chunks.len(), 2);
    assert!(chunks.contains_key(a));
    assert!(!chunks.contains_key(ChunkPosition::new(1, 2, 4)));
    assert_eq!(chunks.get(a).unwrap().get_block(VoxelIndex(0)), 5);
    assert_eq!(chunks.get(b).unwrap().get_block(VoxelIndex(0)), 6);
    assert_eq!(chunks.get(b).unwrap().position(), b);
    // a later chunk takes the place of an earlier one
    chunks.insert(a, ChunkData::homogeneous(a, 7));
    assert_eq!(chunks.len(), 2);
    assert_eq!(chunks.get(a).unwrap().get_block(VoxelIndex(0)), 7);
    assert!(chunks.remove(a));
    assert!(!chunks.remove(a));
    assert!(!chunks.contains_key(a));
    assert!(chunks.contains_key(b));
    assert_eq!(chunks.len(), 1);
}

#[test]
fn a_handle_outlives_eviction() {
    let mut chunks = Chunks::new();
    let a = ChunkPosition::new(0, 0, 0);
    chunks.insert(a, ChunkData::homogeneous(a, 5));
    let handle = chunks.get(a).unwrap();
    chunks.remove(a);
    chunks.insert(a, ChunkData::homogeneous(a, 9));
    assert_eq!(handle.get_block(VoxelIndex(77)), 5);
    assert_eq!(chunks.get(a).unwrap().get_block(VoxelIndex(77)), 9);
}

#[test]
fn view_needs_all_27_chunks() {
    let center = ChunkPosition::new(4, -4, 0);
    let chunks = cube_around(center, 1);
    assert!(ChunkRefs::try_new(&chunks, center).is_some());
    assert!(is_neighborhood_resident(&chunks, center));
    // the cube around a neighbour is not complete
    assert!(ChunkRefs::try_new(&chunks, ChunkPosition::new(5, -4, 0)).is_none());
    assert!(!is_neighborhood_resident(&chunks, ChunkPosition::new(5, -4, 0)));
    for x in -1..=1 {
        for y in -1..=1 {
            for z in -1..=1 {
                let mut chunks = cube_around(center, 1);
                assert!(chunks.remove(center + ChunkPosition::new(x, y, z)));
                assert!(ChunkRefs::try_new(&chunks, center).is_none());
                assert!(!is_neighborhood_resident(&chunks, center));
            }
        }
    }
    assert!(ChunkRefs::try_new(&Chunks::new(), center).is_none());
}

#[test]
fn no_view_at_the_rim_of_the_coordinates() {
    let center = ChunkPosition::new(i32::MAX, 0, 0);
    let mut chunks = Chunks::new();
    for x in -1..=0 {
        for y in -1..=1 {
            for z in -1..=1 {
                let position = center + ChunkPosition::new(x, y, z);
                chunks.insert(position, ChunkData::homogeneous(position, 1));
            }
        }
    }
    assert!(ChunkRefs::try_new(&chunks, center).is_none());
    assert!(!is_neighborhood_resident(&chunks, center));
}

#[test]
fn view_slots_follow_the_offsets() {
    let center = ChunkPosition::new(10, 20, 30);
    let mut chunks = Chunks::new();
    for x in -1..=1 {
        for y in -1..=1 {
            for z in -1..=1 {
                let position = center + ChunkPosition::new(x, y, z);
                let block = ((x + 1) + 3 * (y + 1) + 9 * (z + 1)) as u16;
                chunks.insert(position, ChunkData::homogeneous(position, block));
            }
        }
    }
    let view = ChunkRefs::try_new(&chunks, center).unwrap();
    assert_eq!(view.center_chunk_position, center);
    for slot in 0..27 {
        assert_eq!(view.adjacent_chunks[slot].get_block(VoxelIndex(0)), slot as u16);
    }
    assert_eq!(view.adjacent_chunks[13].position(), center);
    assert_eq!(view.adjacent_chunks[0].position(), ChunkPosition::new(9, 19, 29));
    assert_eq!(view.adjacent_chunks[14].position(), ChunkPosition::new(11, 20, 30));
    assert!(!view.is_all_voxels_same());
    assert_eq!(ChunkRefs::vec3_to_chunk_index(Position::new(0, 0, 0)), 0);
    assert_eq!(ChunkRefs::vec3_to_chunk_index(Position::new(1, 1, 1)), 13);
    assert_eq!(ChunkRefs::vec3_to_chunk_index(Position::new(2, 0, 1)), 11);
    assert_eq!(ChunkRefs::vec3_to_chunk_index(Position::new(2, 2, 2)), 26);
}

#[test]
fn positions_outside_the_centre_reach_into_neighbours() {
    let slot = |x, y, z| ChunkRefs::local_to_neighbor_slot(RelativePosition::new(x, y, z));
    assert_eq!(slot(0, 0, 0), (13, VoxelIndex(0)));
    assert_eq!(slot(31, 31, 31), (13, VoxelIndex(32767)));
    assert_eq!(slot(-1, 0, 0), (12, VoxelIndex(31)));
    assert_eq!(slot(32, 0, 0), (14, VoxelIndex(0)));
    assert_eq!(slot(0, -1, 0), (10, VoxelIndex(31 * 32)));
    assert_eq!(slot(0, 0, -1), (4, VoxelIndex(31 * 1024)));
    assert_eq!(slot(-32, -32, -32), (0, VoxelIndex(0)));
    assert_eq!(slot(63, 63, 63), (26, VoxelIndex(32767)));
    assert_eq!(slot(-1, 32, 5), (12 + 3, VoxelIndex(31 + 5 * 1024)));
}

#[test]
fn blocks_are_read_through_the_view() {
    let registry = three_blocks();
    let center = ChunkPosition::new(0, 0, 0);
    let mut chunks = cube_around(center, 0);
    let mut middle = ChunkData::homogeneous(center, 0);
    middle.set_block(VoxelIndex::new(0, 0, 0), 1);
    middle.set_block(VoxelIndex::new(31, 4, 5), 2);
    chunks.insert(center, middle);
    let left = ChunkPosition::new(-1, 0, 0);
    let mut beside = ChunkData::homogeneous(left, 0);
    beside.set_block(VoxelIndex::new(31, 0, 0), 2);
    chunks.insert(left, beside);
    let view = ChunkRefs::try_new(&chunks, center).unwrap();
    assert!(view.is_registered_in(&registry));
    assert!(!view.is_all_voxels_same());
    assert_eq!(view.block_id(RelativePosition::new(0, 0, 0)), 1);
    assert_eq!(view.block_id(RelativePosition::new(-1, 0, 0)), 2);
    assert_eq!(view.block_id(RelativePosition::new(-2, 0, 0)), 0);
    assert_eq!(view.get_block(&registry, RelativePosition::new(-1, 0, 0)).name, "dirt");
    assert_eq!(view.get_block(&registry, RelativePosition::new(31, 4, 5)).id, 2);
    assert_eq!(view.get_block(&registry, RelativePosition::new(32, 4, 5)).id, 0);
    assert_eq!(view.get_block_no_neighbour(&registry, RelativePosition::new(0, 0, 0)).name, "grass");
    assert_eq!(view.sample(&registry, -1, 0, 0).name, "dirt");
    let (current, back, left, down) =
        view.get_adjacent_blocks(&registry, RelativePosition::new(0, 0, 0));
    assert_eq!((current.id, back.id, left.id, down.id), (1, 0, 2, 0));
    let around = view.get_von_neumann(&registry, RelativePosition::new(0, 0, 0));
    let directions: Vec<Direction> = around.iter().map(|(d, _)| *d).collect();
    assert_eq!(
        directions,
        vec![
            Direction::Back,
            Direction::Forward,
            Direction::Down,
            Direction::Up,
            Direction::Left,
            Direction::Right
        ]
    );
    let ids: Vec<u16> = around.iter().map(|(_, b)| b.id).collect();
    assert_eq!(ids, vec![0, 0, 0, 0, 2, 0]);
    let (first, second) =
        view.get_2(&registry, RelativePosition::new(30, 4, 5), RelativePosition::new(1, 0, 0));
    assert_eq!((first.id, second.id), (0, 2));
}

#[test]
fn unregistered_blocks_are_found() {
    let registry = three_blocks();
    let center = ChunkPosition::new(0, 0, 0);
    let mut chunks = cube_around(center, 2);
    assert!(ChunkRefs::try_new(&chunks, center).unwrap().is_registered_in(&registry));
    let corner = ChunkPosition::new(1, 1, 1);
    let mut odd = ChunkData::homogeneous(corner, 2);
    odd.set_block(VoxelIndex(31000), 3);
    chunks.insert(corner, odd);
    assert!(!ChunkRefs::try_new(&chunks, center).unwrap().is_registered_in(&registry));
}

#[test]
fn uniform_neighbourhoods() {
    let center = ChunkPosition::new(0, 0, 0);
    let mut chunks = cube_around(center, 2);
    assert!(ChunkRefs::try_new(&chunks, center).unwrap().is_all_voxels_same());
    // one chunk of another block
    let last = ChunkPosition::new(1, 1, 1);
    chunks.insert(last, ChunkData::homogeneous(last, 1));
    assert!(!ChunkRefs::try_new(&chunks, center).unwrap().is_all_voxels_same());
    // one voxel of another block
    let mut chunks = cube_around(center, 2);
    let mut odd = ChunkData::homogeneous(last, 2);
    odd.set_block(VoxelIndex(5), 1);
    chunks.insert(last, odd);
    assert!(!ChunkRefs::try_new(&chunks, center).unwrap().is_all_voxels_same());
    // the first chunk is the odd one
    let mut chunks = cube_around(center, 2);
    let first = ChunkPosition::new(-1, -1, -1);
    chunks.insert(first, ChunkData::homogeneous(first, 0));
    assert!(!ChunkRefs::try_new(&chunks, center).unwrap().is_all_voxels_same());
}

#[test]
fn coordinate_sets() {
    let mut set = CoordSet::new();
    let a = ChunkPosition::new(1, 2, 3);
    let b = ChunkPosition::new(3, 2, 1);
    assert_eq!(set.len(), 0);
    assert!(!set.contains(a));
    assert!(set.insert(a));
    assert!(!set.insert(a));
    assert!(set.insert(b));
    assert_eq!(set.len(), 2);
    assert!(set.contains(a));
    assert!(!set.contains(ChunkPosition::new(1, 2, 4)));
    assert!(set.remove(a));
    assert!(!set.remove(a));
    assert!(!set.contains(a));
    assert!(set.contains(b));
    assert_eq!(set.len(), 1);
    set.clear();
    assert_eq!(set.len(), 0);
    assert!(!set.contains(b));
}

#[test]
fn plane_bins_collect_faces() {
    let mut bins = PlaneBins::new();
    assert!(bins.get((7, 3)).is_none());
    assert!(bins.entries().is_empty());
    bins.add_face((7, 3), 0, 5);
    bins.add_face((7, 3), 0, 6);
    bins.add_face((7, 3), 31, 31);
    bins.add_face((8, 3), 2, 0);
    let plane = bins.get((7, 3)).unwrap();
    assert_eq!(plane[0], 0b110_0000);
    assert_eq!(plane[31], 1 << 31);
    assert_eq!(plane[1], 0);
    assert_eq!(bins.get((8, 3)).unwrap()[2], 1);
    assert!(bins.get((7, 4)).is_none());
    let mut entries = bins.entries();
    entries.sort();
    assert_eq!(entries.len(), 2);
    assert_eq!(entries[0].0, (7, 3));
    assert_eq!(entries[0].1, plane);
    assert_eq!(entries[1].0, (8, 3));
}
