use talc::chunk::band_of;
use talc::chunk::AltitudeBand;
use talc::chunk::ChunkData;
use talc::chunk::VoxelIndex;
use talc::chunk::CHUNK_SIZE;
use talc::chunk::CHUNK_SIZE3;
use talc::position::ChunkPosition;
use talc::position::RelativePosition;
use talc::position::CHUNK_SIZE_I32;

fn here() -> ChunkPosition {
    ChunkPosition::new(3, -2, 7)
}

#[test]
fn index_functions() {
    for z in 0..CHUNK_SIZE_I32 {
        for y in 0..CHUNK_SIZE_I32 {
            for x in 0..CHUNK_SIZE_I32 {
                let pos = RelativePosition::new(x, y, z);
                let index: VoxelIndex = VoxelIndex::from_position(pos);
                let from_index: RelativePosition = index.into();
                assert_eq!(pos, from_index);
            }
        }
    }
}

#[test]
fn chunk_index_functions() {
    for z in 0..CHUNK_SIZE_I32 {
        for y in 0..CHUNK_SIZE_I32 {
            for x in 0..CHUNK_SIZE_I32 {
                let pos = RelativePosition::new(x, y, z);
                let index: VoxelIndex = VoxelIndex::from_position(pos);
                let from_index: RelativePosition = index.into();
                assert_eq!(pos, from_index);
            }
        }
    }
}

#[test]
fn index_is_x_fastest_z_slowest() {
    assert_eq!(VoxelIndex::new(0, 0, 0).i(), 0);
    assert_eq!(VoxelIndex::new(1, 0, 0).i(), 1);
    assert_eq!(VoxelIndex::new(0, 1, 0).i(), 32);
    assert_eq!(VoxelIndex::new(0, 0, 1).i(), 1024);
    assert_eq!(VoxelIndex::new(31, 31, 31).i(), CHUNK_SIZE3 - 1);
    assert_eq!(VoxelIndex::new(5, 6, 7).i(), 5 + 6 * 32 + 7 * 1024);
    let index: VoxelIndex = 77usize.into();
    assert_eq!(index.i(), 77);
}

#[test]
fn every_index_comes_back_from_its_coordinates() {
    for i in 0..CHUNK_SIZE3 {
        let pos: RelativePosition = VoxelIndex(i).into();
        assert!((pos.x() as usize) < CHUNK_SIZE);
        assert!((pos.y() as usize) < CHUNK_SIZE);
        assert!((pos.z() as usize) < CHUNK_SIZE);
        assert_eq!(VoxelIndex::from_position(pos).i(), i);
    }
}

#[test]
fn homogeneous_chunk_reads_the_same_everywhere() {
    let chunk = ChunkData::homogeneous(here(), 4);
    assert_eq!(chunk.position(), here());
    assert!(chunk.is_homogenous());
    assert_eq!(chunk.voxel_count(), CHUNK_SIZE3);
    assert_eq!(chunk.get_block(VoxelIndex(0)), 4);
    assert_eq!(chunk.get_block(VoxelIndex(CHUNK_SIZE3 - 1)), 4);
}

#[test]
fn writing_the_same_value_keeps_a_chunk_homogeneous() {
    let mut chunk = ChunkData::homogeneous(here(), 4);
    chunk.set_block(VoxelIndex(9), 4);
    assert!(chunk.is_homogenous());
    assert_eq!(chunk.get_block(VoxelIndex(9)), 4);
}

#[test]
fn a_differing_write_expands_and_the_write_back_collapses() {
    let mut chunk = ChunkData::homogeneous(here(), 4);
    chunk.set_block(VoxelIndex(9), 5);
    assert!(!chunk.is_homogenous());
    assert_eq!(chunk.get_block(VoxelIndex(9)), 5);
    assert_eq!(chunk.get_block(VoxelIndex(8)), 4);
    assert_eq!(chunk.get_block(VoxelIndex(10)), 4);
    chunk.set_block(VoxelIndex(9), 4);
    assert!(chunk.is_homogenous());
    assert_eq!(chunk.get_block(VoxelIndex(9)), 4);
    assert_eq!(chunk.position(), here());
}

#[test]
fn homogeneity_matches_a_full_scan_after_every_write() {
    let mut chunk = ChunkData::homogeneous(here(), 1);
    let writes: [(usize, u16); 8] =
        [(0, 1), (5, 2), (6, 2), (5, 1), (6, 1), (32767, 3), (32767, 1), (100, 1)];
    for (index, block) in writes {
        chunk.set_block(VoxelIndex(index), block);
        let first = chunk.get_block(VoxelIndex(0));
        let all_equal = (0..CHUNK_SIZE3).all(|i| chunk.get_block(VoxelIndex(i)) == first);
        assert_eq!(chunk.is_homogenous(), all_equal);
    }
    assert!(chunk.is_homogenous());
}

#[test]
fn uniform_array_is_stored_as_homogeneous() {
    let chunk = ChunkData::from_voxels(here(), vec![7; CHUNK_SIZE3]).unwrap();
    assert!(chunk.is_homogenous());
    let mut voxels = vec![7; CHUNK_SIZE3];
    voxels[123] = 8;
    let chunk = ChunkData::from_voxels(here(), voxels).unwrap();
    assert!(!chunk.is_homogenous());
    assert_eq!(chunk.get_block(VoxelIndex(123)), 8);
    assert_eq!(chunk.get_block(VoxelIndex(124)), 7);
}

#[test]
fn array_of_wrong_length_makes_no_chunk() {
    assert!(ChunkData::from_voxels(here(), vec![7; CHUNK_SIZE3 - 1]).is_none());
    assert!(ChunkData::from_voxels(here(), vec![7; CHUNK_SIZE3 + 1]).is_none());
    assert!(ChunkData::from_voxels(here(), Vec::new()).is_none());
}

#[test]
fn batch_of_edits_is_applied_in_order() {
    let mut chunk = ChunkData::homogeneous(here(), 1);
    chunk.set_blocks(&vec![(VoxelIndex(3), 2), (VoxelIndex(4), 2), (VoxelIndex(3), 5)]);
    assert!(!chunk.is_homogenous());
    assert_eq!(chunk.get_block(VoxelIndex(3)), 5);
    assert_eq!(chunk.get_block(VoxelIndex(4)), 2);
    assert_eq!(chunk.get_block(VoxelIndex(5)), 1);
    // a batch that makes the chunk uniform again collapses it
    chunk.set_blocks(&vec![(VoxelIndex(3), 1), (VoxelIndex(4), 1)]);
    assert!(chunk.is_homogenous());
    assert_eq!(chunk.get_block(VoxelIndex(3)), 1);
    // and so does a batch that cancels itself
    chunk.set_blocks(&vec![(VoxelIndex(8), 9), (VoxelIndex(8), 1)]);
    assert!(chunk.is_homogenous());
    // the empty batch changes nothing
    chunk.set_blocks(&Vec::new());
    assert!(chunk.is_homogenous());
}

#[test]
fn duplicate_is_independent() {
    let mut chunk = ChunkData::homogeneous(here(), 1);
    chunk.set_block(VoxelIndex(3), 2);
    let mut copy = chunk.duplicate();
    assert_eq!(copy.position(), here());
    assert_eq!(copy.get_block(VoxelIndex(3)), 2);
    copy.set_block(VoxelIndex(3), 1);
    assert!(copy.is_homogenous());
    assert!(!chunk.is_homogenous());
    assert_eq!(chunk.get_block(VoxelIndex(3)), 2);
}

#[test]
fn blocks_below_a_limit() {
    let mut chunk = ChunkData::homogeneous(here(), 2);
    assert!(chunk.all_blocks_below(3));
    assert!(!chunk.all_blocks_below(2));
    chunk.set_block(VoxelIndex(30000), 6);
    assert!(chunk.all_blocks_below(7));
    assert!(!chunk.all_blocks_below(6));
}

#[test]
fn altitude_bands() {
    assert_eq!(band_of(ChunkPosition::new(0, 9, 0)), AltitudeBand::Sky);
    assert_eq!(band_of(ChunkPosition::new(0, 8, 0)), AltitudeBand::Surface);
    assert_eq!(band_of(ChunkPosition::new(0, 0, 0)), AltitudeBand::Surface);
    assert_eq!(band_of(ChunkPosition::new(0, -5, 0)), AltitudeBand::Surface);
    assert_eq!(band_of(ChunkPosition::new(0, -6, 0)), AltitudeBand::Deep);
    assert_eq!(band_of(ChunkPosition::new(0, i32::MAX, 0)), AltitudeBand::Sky);
    assert_eq!(band_of(ChunkPosition::new(0, i32::MIN, 0)), AltitudeBand::Deep);
}

#[test]
fn generated_terrain() {
    let sky = ChunkData::generate(0, 1, ChunkPosition::new(1, 20, 1), &Vec::new()).unwrap();
    assert!(sky.is_homogenous());
    assert_eq!(sky.get_block(VoxelIndex(0)), 0);
    let deep = ChunkData::generate(0, 1, ChunkPosition::new(1, -20, 1), &Vec::new()).unwrap();
    assert!(deep.is_homogenous());
    assert_eq!(deep.get_block(VoxelIndex(0)), 1);
    // in between, the voxels are needed
    assert!(ChunkData::generate(0, 1, ChunkPosition::new(1, 2, 1), &Vec::new()).is_none());
    let mut is_air = vec![true; CHUNK_SIZE3];
    is_air[10] = false;
    let surface = ChunkData::generate(0, 1, ChunkPosition::new(1, 2, 1), &is_air).unwrap();
    assert_eq!(surface.position(), ChunkPosition::new(1, 2, 1));
    assert!(!surface.is_homogenous());
    assert_eq!(surface.get_block(VoxelIndex(10)), 1);
    assert_eq!(surface.get_block(VoxelIndex(11)), 0);
    // all air in between is stored as one value
    let clear = ChunkData::generate(0, 1, ChunkPosition::new(1, 2, 1), &vec![true; CHUNK_SIZE3]);
    assert!(clear.unwrap().is_homogenous());
}
