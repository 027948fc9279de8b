use talc::chunk_material::PackedQuad;
use talc::chunk_material::RenderableChunk;
use talc::color::Rgba;
use talc::face_direction::FaceDir;
use talc::lod::Lod;
use talc::position::ChunkPosition;
use talc::position::Position;
use talc::position::RelativePosition;
use talc::prototypes::BlockPrototypesBuilder;
use talc::prototypes::PrototypeError;
use talc::prototypes::Prototypes;
use talc::prototypes::RawBlockPrototype;
use talc::quad::Direction;
use talc::quad::Quad;
use talc::utils::generate_indices;
use talc::utils::get_edging_chunk;
use talc::utils::index_to_ivec3_bounds;
use talc::utils::index_to_ivec3_bounds_reverse;
use talc::voxel::BlockData;
use talc::voxel::BlockType;

#[test]
fn position_accessors_and_operators() {
    let a = Position::new(1, -2, 3);
    assert_eq!((a.x(), a.y(), a.z()), (1, -2, 3));
    let b = Position::new(10, 20, -30);
    assert_eq!(a + b, Position::new(11, 18, -27));
    assert_eq!(a - b, Position::new(-9, -22, 33));
    assert_eq!(a * b, Position::new(10, -40, -90));
    assert_eq!(b / a, Position::new(10, -10, -10));
    assert_eq!(Position::new(-7, 7, -7) / Position::new(2, -2, -2), Position::new(-3, -3, 3));
    let r = RelativePosition::new(4, 5, 6) + RelativePosition::new(0, 0, -1);
    assert_eq!((r.x(), r.y(), r.z()), (4, 5, 5));
    let c = ChunkPosition::new(1, 2, 3) - ChunkPosition::new(1, 1, 1);
    assert_eq!((c.x(), c.y(), c.z()), (0, 1, 2));
    assert_eq!(
        ChunkPosition::new(8, 9, -10) / ChunkPosition::new(4, 2, 3),
        ChunkPosition::new(2, 4, -3)
    );
    assert_eq!(
        RelativePosition::new(2, 3, 4) * RelativePosition::new(2, 2, 2),
        RelativePosition::new(4, 6, 8)
    );
}

#[test]
fn chunk_of_a_position_rounds_toward_zero() {
    assert_eq!(ChunkPosition::from(Position::new(0, 31, 32)), ChunkPosition::new(0, 0, 1));
    assert_eq!(ChunkPosition::from(Position::new(-1, -32, -33)), ChunkPosition::new(0, -1, -1));
    assert_eq!(ChunkPosition::from(Position::new(64, 95, 96)), ChunkPosition::new(2, 2, 3));
    assert_eq!(ChunkPosition::new(2, -3, 0).origin(), Position::new(64, -96, 0));
}

#[test]
fn squared_distances() {
    let origin = ChunkPosition::new(0, 0, 0);
    assert_eq!(origin.distance_squared(origin), 0);
    assert_eq!(ChunkPosition::new(1, 2, 3).distance_squared(origin), 14);
    assert_eq!(ChunkPosition::new(1, 2, 3).distance_squared(ChunkPosition::new(-1, 4, 3)), 8);
    let far = ChunkPosition::new(i32::MAX, i32::MAX, i32::MAX);
    let near = ChunkPosition::new(i32::MIN, i32::MIN, i32::MIN);
    let side: u128 = (1u128 << 32) - 1;
    assert_eq!(far.distance_squared(near), 3 * side * side);
    assert_eq!(near.distance_squared(far), 3 * side * side);
}

#[test]
fn checked_offsets() {
    let p = ChunkPosition::new(i32::MAX, 0, i32::MIN);
    assert_eq!(p.checked_add(ChunkPosition::new(0, 5, 0)), Some(ChunkPosition::new(i32::MAX, 5, i32::MIN)));
    assert_eq!(p.checked_add(ChunkPosition::new(1, 0, 0)), None);
    assert_eq!(p.checked_add(ChunkPosition::new(0, 0, -1)), None);
    assert_eq!(p.checked_add(ChunkPosition::new(-1, 0, 1)), Some(ChunkPosition::new(i32::MAX - 1, 0, i32::MIN + 1)));
}

#[test]
fn block_types() {
    assert!(!BlockType::Air.is_solid());
    assert!(BlockType::Air.is_air());
    assert!(BlockType::Grass.is_solid());
    assert!(BlockType::Dirt.is_solid());
    assert!(!BlockType::Dirt.is_air());
    assert_eq!(BlockType::default(), BlockType::Air);
    assert_eq!(BlockData::default().block_type, BlockType::Air);
    assert_eq!(BlockType::meshable_block_types(), vec![BlockType::Grass, BlockType::Dirt]);
}

#[test]
fn levels_of_detail() {
    let all = [Lod::L32, Lod::L16, Lod::L8, Lod::L4, Lod::L2];
    let sizes: Vec<i32> = all.iter().map(|l| l.size()).collect();
    assert_eq!(sizes, vec![32, 16, 8, 4, 2]);
    let jumps: Vec<i32> = all.iter().map(|l| l.jump_index()).collect();
    assert_eq!(jumps, vec![1, 2, 4, 8, 16]);
    assert!(Lod::default() == Lod::L32);
}

#[test]
fn face_directions() {
    let lod = Lod::L32;
    assert_eq!(FaceDir::Left.normal_index(), 0);
    assert_eq!(FaceDir::Right.normal_index(), 1);
    assert_eq!(FaceDir::Down.normal_index(), 2);
    assert_eq!(FaceDir::Up.normal_index(), 3);
    assert_eq!(FaceDir::Forward.normal_index(), 4);
    assert_eq!(FaceDir::Back.normal_index(), 5);
    assert_eq!(FaceDir::Up.air_sample_dir(), Position::new(0, 1, 0));
    assert_eq!(FaceDir::Down.air_sample_dir(), Position::new(0, -1, 0));
    assert_eq!(FaceDir::Left.air_sample_dir(), Position::new(-1, 0, 0));
    assert_eq!(FaceDir::Right.air_sample_dir(), Position::new(1, 0, 0));
    assert_eq!(FaceDir::Forward.air_sample_dir(), Position::new(0, 0, -1));
    assert_eq!(FaceDir::Back.air_sample_dir(), Position::new(0, 0, 1));
    assert_eq!(FaceDir::Up.world_to_sample(7, 1, 2, &lod), Position::new(1, 8, 2));
    assert_eq!(FaceDir::Down.world_to_sample(7, 1, 2, &lod), Position::new(1, 7, 2));
    assert_eq!(FaceDir::Left.world_to_sample(7, 1, 2, &lod), Position::new(7, 2, 1));
    assert_eq!(FaceDir::Right.world_to_sample(7, 1, 2, &lod), Position::new(8, 2, 1));
    assert_eq!(FaceDir::Forward.world_to_sample(7, 1, 2, &lod), Position::new(1, 2, 7));
    assert_eq!(FaceDir::Back.world_to_sample(7, 1, 2, &lod), Position::new(1, 2, 8));
    assert_eq!(FaceDir::Up.voxel_of(7, 1, 2), Position::new(1, 7, 2));
    assert_eq!(FaceDir::Right.voxel_of(7, 1, 2), Position::new(7, 2, 1));
    assert_eq!(FaceDir::Back.voxel_of(7, 1, 2), Position::new(1, 2, 7));
    let reversed: Vec<bool> = [
        FaceDir::Up,
        FaceDir::Down,
        FaceDir::Left,
        FaceDir::Right,
        FaceDir::Forward,
        FaceDir::Back,
    ]
    .iter()
    .map(|d| d.reverse_order())
    .collect();
    assert_eq!(reversed, vec![true, false, false, true, true, false]);
    assert_eq!(FaceDir::Up.negate_axis(), -1);
    assert_eq!(FaceDir::Down.negate_axis(), 0);
    assert_eq!(FaceDir::Left.negate_axis(), 0);
    assert_eq!(FaceDir::Right.negate_axis(), -1);
    assert_eq!(FaceDir::Forward.negate_axis(), 0);
    assert_eq!(FaceDir::Back.negate_axis(), 1);
}

#[test]
fn directions_and_quads() {
    assert_eq!(Direction::Left.get_normal(), 0);
    assert_eq!(Direction::Right.get_normal(), 1);
    assert_eq!(Direction::Down.get_normal(), 2);
    assert_eq!(Direction::Up.get_normal(), 3);
    assert_eq!(Direction::Back.get_normal(), 4);
    assert_eq!(Direction::Forward.get_normal(), 5);
    assert_eq!(Direction::Left.get_opposite(), Direction::Right);
    assert_eq!(Direction::Up.get_opposite(), Direction::Down);
    assert_eq!(Direction::Back.get_opposite(), Direction::Forward);
    assert_eq!(Direction::Forward.get_opposite().get_opposite(), Direction::Forward);
    let pos = Position::new(1, 2, 3);
    let quad = Quad::from_direction(Direction::Left, pos, Rgba::white());
    assert_eq!(quad.corners, [[1, 2, 3], [1, 2, 4], [1, 3, 4], [1, 3, 3]]);
    assert_eq!(quad.color, Rgba::new(255, 255, 255, 255));
    assert_eq!(quad.direction, Direction::Left);
    let quad = Quad::from_direction(Direction::Right, pos, Rgba::white());
    assert_eq!(quad.corners, [[1, 3, 3], [1, 3, 4], [1, 2, 4], [1, 2, 3]]);
    let quad = Quad::from_direction(Direction::Down, pos, Rgba::white());
    assert_eq!(quad.corners, [[1, 2, 3], [2, 2, 3], [2, 2, 4], [1, 2, 4]]);
    let quad = Quad::from_direction(Direction::Up, pos, Rgba::white());
    assert_eq!(quad.corners, [[1, 2, 4], [2, 2, 4], [2, 2, 3], [1, 2, 3]]);
    let quad = Quad::from_direction(Direction::Back, pos, Rgba::white());
    assert_eq!(quad.corners, [[1, 2, 3], [1, 3, 3], [2, 3, 3], [2, 2, 3]]);
    let quad = Quad::from_direction(Direction::Forward, pos, Rgba::white());
    assert_eq!(quad.corners, [[2, 2, 3], [2, 3, 3], [1, 3, 3], [1, 2, 3]]);
}

#[test]
fn indices_and_edges() {
    assert_eq!(index_to_ivec3_bounds(0, 3), Position::new(0, 0, 0));
    assert_eq!(index_to_ivec3_bounds(5, 3), Position::new(2, 1, 0));
    assert_eq!(index_to_ivec3_bounds(26, 3), Position::new(2, 2, 2));
    assert_eq!(index_to_ivec3_bounds(13, 3), Position::new(1, 1, 1));
    assert_eq!(index_to_ivec3_bounds(1024 + 32 * 2 + 3, 32), Position::new(3, 2, 1));
    // machine division: the remainder has the sign of the index
    assert_eq!(index_to_ivec3_bounds(-5, 3), Position::new(-2, -1, 0));
    assert_eq!(index_to_ivec3_bounds(-26, 3), Position::new(-2, -2, -2));
    assert_eq!(index_to_ivec3_bounds_reverse(-5, 3), Position::new(0, -1, -2));
    assert_eq!(index_to_ivec3_bounds_reverse(5, 3), Position::new(0, 1, 2));
    assert_eq!(index_to_ivec3_bounds_reverse(26, 3), Position::new(2, 2, 2));
    assert_eq!(get_edging_chunk(Position::new(5, 5, 5)), None);
    assert_eq!(get_edging_chunk(Position::new(0, 5, 5)), Some(ChunkPosition::new(-1, 0, 0)));
    assert_eq!(get_edging_chunk(Position::new(31, 5, 0)), Some(ChunkPosition::new(1, 0, -1)));
    assert_eq!(get_edging_chunk(Position::new(0, 31, 31)), Some(ChunkPosition::new(-1, 1, 1)));
    assert_eq!(get_edging_chunk(Position::new(1, 30, 15)), None);
}

#[test]
fn quad_indices() {
    assert_eq!(generate_indices(0), Vec::<u32>::new());
    assert_eq!(generate_indices(3), Vec::<u32>::new());
    assert_eq!(generate_indices(4), vec![0, 1, 2, 0, 2, 3]);
    assert_eq!(generate_indices(9), vec![0, 1, 2, 0, 2, 3, 4, 5, 6, 4, 6, 7]);
}

#[test]
fn packed_quad_round_trip() {
    let quad = PackedQuad::new(Position::new(5, 6, 7), 3, 0x1ff, 1, 32);
    assert_eq!(quad.x(), 5);
    assert_eq!(quad.y(), 6);
    assert_eq!(quad.z(), 7);
    assert_eq!(quad.normal(), 3);
    assert_eq!(quad.ao(), 0);
    assert_eq!(quad.x_stretch(), 1);
    assert_eq!(quad.y_stretch(), 32);
    assert_eq!(quad.packed_u32, 5 | (6 << 5) | (7 << 10) | (3 << 15) | (31 << 25));
    let quad = PackedQuad::new(Position::new(31, 31, 31), 5, 0, 32, 32);
    assert_eq!(quad.packed_u32, 0x3fff_ffff & !(0b11 << 18) & !(0b010 << 15));
    assert_eq!((quad.x(), quad.y(), quad.z(), quad.normal()), (31, 31, 31, 5));
    assert_eq!((quad.x_stretch(), quad.y_stretch()), (32, 32));
    let quad = PackedQuad::new(Position::new(0, 0, 0), 0, 0, 1, 1);
    assert_eq!(quad.packed_u32, 0);
    let chunk = RenderableChunk::new(vec![quad], ChunkPosition::new(1, 2, 3));
    assert_eq!(chunk.chunk_position(), ChunkPosition::new(1, 2, 3));
    assert_eq!(chunk.quads.len(), 1);
}

fn raw(name: &str, is_transparent: bool) -> RawBlockPrototype {
    RawBlockPrototype {
        name: name.to_string(),
        is_transparent,
        is_meshable: !is_transparent,
        color: Rgba::new(1, 2, 3, 4),
    }
}

#[test]
fn registry_numbers_blocks_in_order() {
    let mut builder = BlockPrototypesBuilder::new();
    assert_eq!(builder.add(raw("air", true)), Ok(0));
    assert_eq!(builder.add(raw("grass", false)), Ok(1));
    assert_eq!(builder.add(raw("air", false)), Err(PrototypeError::DuplicateName));
    assert_eq!(builder.add(raw("dirt", false)), Ok(2));
    let registry = builder.build();
    assert_eq!(registry.len(), 3);
    let grass = registry.get_by_name("grass").unwrap();
    assert_eq!(grass.id, 1);
    assert!(!grass.is_transparent);
    assert!(grass.is_meshable);
    assert_eq!(grass.color, Rgba::new(1, 2, 3, 4));
    assert_eq!(registry.get("air").unwrap().id, 0);
    assert!(registry.get("air").unwrap().is_transparent);
    assert!(registry.get("stone").is_none());
    assert!(registry.get_by_name("").is_none());
    assert_eq!(registry.by_id(2).unwrap().name, "dirt");
    assert!(registry.by_id(3).is_none());
    assert_eq!(registry.block(1).name, "grass");
}

#[test]
fn registry_is_full_at_65536_blocks() {
    let mut builder = BlockPrototypesBuilder::new();
    for i in 0..65536u32 {
        assert_eq!(builder.add(raw(&format!("block{i}"), false)), Ok(i as u16));
    }
    assert_eq!(builder.add(raw("one more", false)), Err(PrototypeError::RegistryFull));
    assert_eq!(builder.add(raw("block7", false)), Err(PrototypeError::DuplicateName));
    let registry = builder.build();
    assert_eq!(registry.len(), 65536);
    assert_eq!(registry.by_id(65535).unwrap().name, "block65535");
}
