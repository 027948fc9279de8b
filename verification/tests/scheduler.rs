use talc::async_chunkloader::AsyncChunkloader;
use talc::chunk::ChunkData;
use talc::chunk::VoxelIndex;
use talc::chunk::CHUNK_SIZE3;
use talc::chunk_material::PackedQuad;
use talc::chunk_material::RenderableChunk;
use talc::chunks_refs::ChunkRefs;
use talc::color::Rgba;
use talc::greedy_mesher_optimized::build_chunk_instance_data;
use talc::position::ChunkPosition;
use talc::position::Position;
use talc::position::RelativePosition;
use talc::prototypes::BlockPrototypes;
use talc::prototypes::BlockPrototypesBuilder;
use talc::prototypes::RawBlockPrototype;
use talc::queue::is_queued;
use talc::queue::position_in;
use talc::queue::remove_first;
use talc::queue::retain_outside;
use talc::queue::sort_by_distance;
use talc::queue::take_all;
use talc::queue::take_front;
use talc::queue::tasks_left;
use talc::coord_set::CoordSet;
use talc::scanner::detect_move;
use talc::scanner::make_offset_vec;
use talc::scanner::scan_data;
use talc::scanner::scan_data_unload;
use talc::scanner::scan_mesh;
use talc::scanner::scan_mesh_unload;
use talc::scanner::Scanner;
use talc::voxel_engine::abandon_data;
use talc::voxel_engine::abandon_mesh;
use talc::voxel_engine::insert_all;
use talc::voxel_engine::join_data;
use talc::voxel_engine::join_mesh;
use talc::voxel_engine::remove_all;
use talc::voxel_engine::start_data_tasks;
use talc::voxel_engine::start_mesh_tasks;
use talc::voxel_engine::start_modifications;
use talc::voxel_engine::unload_data;
use talc::voxel_engine::unload_mesh;
use talc::voxel_engine::ChunkModification;
use talc::voxel_engine::MeshUpdate;
use talc::voxel_engine::VoxelEngine;
use talc::voxel_engine::MAX_DATA_TASKS;
use talc::voxel_engine::MAX_MESH_TASKS;

fn at(x: i32, y: i32, z: i32) -> ChunkPosition {
    ChunkPosition::new(x, y, z)
}

fn origin() -> ChunkPosition {
    at(0, 0, 0)
}

fn two_blocks() -> BlockPrototypes {
    let mut builder = BlockPrototypesBuilder::new();
    for (name, is_transparent) in [("air", true), ("grass", false)] {
        builder
            .add(RawBlockPrototype {
                name: name.to_string(),
                is_transparent,
                is_meshable: !is_transparent,
                color: Rgba::white(),
            })
            .unwrap();
    }
    builder.build()
}

/// Ground up to height zero, air above.
fn terrain(position: ChunkPosition) -> ChunkData {
    let block = if position.y() < 0 { 1 } else { 0 };
    ChunkData::homogeneous(position, block)
}

fn fill_cube(engine: &mut VoxelEngine, center: ChunkPosition) {
    for x in -1..=1 {
        for y in -1..=1 {
            for z in -1..=1 {
                let position = center + at(x, y, z);
                engine.world_data.insert(position, terrain(position));
            }
        }
    }
}

#[test]
fn queue_helpers() {
    let mut queue = vec![at(3, 0, 0), at(-1, 0, 0), at(0, 2, 0), at(0, 0, 1), at(1, 0, 0)];
    sort_by_distance(&mut queue, origin());
    // equal distances keep their order
    assert_eq!(queue, vec![at(-1, 0, 0), at(0, 0, 1), at(1, 0, 0), at(0, 2, 0), at(3, 0, 0)]);
    sort_by_distance(&mut queue, at(3, 0, 0));
    assert_eq!(queue[0], at(3, 0, 0));
    assert_eq!(queue[1], at(1, 0, 0));
    assert_eq!(queue[4], at(-1, 0, 0));
    let front = take_front(&mut queue, 2);
    assert_eq!(front, vec![at(3, 0, 0), at(1, 0, 0)]);
    assert_eq!(queue.len(), 3);
    assert!(take_front(&mut queue, 0).is_empty());
    assert_eq!(queue.len(), 3);
    let all = take_all(&mut queue);
    assert_eq!(all.len(), 3);
    assert!(queue.is_empty());

    let mut queue = vec![at(1, 0, 0), at(2, 0, 0), at(1, 0, 0)];
    assert_eq!(position_in(&queue, at(1, 0, 0)), Some(0));
    assert_eq!(position_in(&queue, at(2, 0, 0)), Some(1));
    assert_eq!(position_in(&queue, at(3, 0, 0)), None);
    assert!(is_queued(&queue, at(2, 0, 0)));
    assert!(!is_queued(&queue, at(2, 0, 1)));
    remove_first(&mut queue, at(1, 0, 0));
    assert_eq!(queue, vec![at(2, 0, 0), at(1, 0, 0)]);
    remove_first(&mut queue, at(9, 0, 0));
    assert_eq!(queue, vec![at(2, 0, 0), at(1, 0, 0)]);
    let mut set = CoordSet::new();
    insert_all(&mut set, &vec![at(2, 0, 0), at(5, 0, 0), at(2, 0, 0)]);
    assert_eq!(set.len(), 2);
    let mut queue = vec![at(1, 0, 0), at(2, 0, 0), at(3, 0, 0), at(2, 0, 0), at(5, 0, 0)];
    retain_outside(&mut queue, &set);
    assert_eq!(queue, vec![at(1, 0, 0), at(3, 0, 0)]);
    remove_all(&mut set, &vec![at(5, 0, 0), at(7, 0, 0)]);
    assert_eq!(set.len(), 1);
    assert!(set.contains(at(2, 0, 0)));

    assert_eq!(tasks_left(64, 0, 10), 10);
    assert_eq!(tasks_left(64, 60, 10), 4);
    assert_eq!(tasks_left(64, 64, 10), 0);
    assert_eq!(tasks_left(64, 70, 10), 0);
    assert_eq!(tasks_left(64, 0, 0), 0);
    assert_eq!(tasks_left(64, 0, 100), 64);
}

#[test]
fn admission_takes_the_nearest() {
    let mut engine = VoxelEngine::new();
    // 70 coordinates along a line, furthest first
    for x in (1..=70).rev() {
        engine.load_data_queue.push(at(x, 0, 0));
    }
    let queued: Vec<ChunkPosition> = engine.load_data_queue.clone();
    let admitted = start_data_tasks(&mut engine, origin());
    assert_eq!(admitted.len(), MAX_DATA_TASKS);
    let expected: Vec<ChunkPosition> = (1..=64).map(|x| at(x, 0, 0)).collect();
    assert_eq!(admitted, expected);
    let left: Vec<ChunkPosition> = (65..=70).map(|x| at(x, 0, 0)).collect();
    assert_eq!(engine.load_data_queue, left);
    assert_eq!(engine.data_tasks.len(), 64);
    assert!(engine.data_tasks.contains(at(64, 0, 0)));
    assert!(!engine.data_tasks.contains(at(65, 0, 0)));
    // admitted and left together are what was queued
    let mut together: Vec<(i32, i32, i32)> =
        admitted.iter().chain(engine.load_data_queue.iter()).map(|p| (p.x, p.y, p.z)).collect();
    together.sort();
    let mut before: Vec<(i32, i32, i32)> = queued.iter().map(|p| (p.x, p.y, p.z)).collect();
    before.sort();
    assert_eq!(together, before);
    // nothing more is admitted while all tasks are in flight
    assert!(start_data_tasks(&mut engine, origin()).is_empty());
    assert_eq!(engine.load_data_queue.len(), 6);
    // a finished task makes room for one
    assert!(join_data(&mut engine, at(1, 0, 0), terrain(at(1, 0, 0))));
    assert_eq!(start_data_tasks(&mut engine, origin()), vec![at(65, 0, 0)]);
}

#[test]
fn admission_follows_the_viewer() {
    let mut engine = VoxelEngine::new();
    for x in 0..100 {
        engine.load_data_queue.push(at(x, 0, 0));
    }
    let viewer = at(90, 0, 0);
    let admitted = start_data_tasks(&mut engine, viewer);
    assert_eq!(admitted.len(), 64);
    let worst = admitted.iter().map(|p| p.distance_squared(viewer)).max().unwrap();
    let best_left = engine.load_data_queue.iter().map(|p| p.distance_squared(viewer)).min().unwrap();
    assert!(worst <= best_left);
    assert_eq!(admitted[0], viewer);
    assert_eq!(engine.load_data_queue.len(), 36);
}

#[test]
fn finished_generation_is_stored_once() {
    let mut engine = VoxelEngine::new();
    engine.load_data_queue.push(at(1, 0, 0));
    engine.load_data_queue.push(at(2, 0, 0));
    assert_eq!(start_data_tasks(&mut engine, origin()).len(), 2);
    assert!(join_data(&mut engine, at(1, 0, 0), terrain(at(1, 0, 0))));
    assert!(engine.world_data.contains_key(at(1, 0, 0)));
    assert!(!engine.data_tasks.contains(at(1, 0, 0)));
    assert!(engine.data_tasks.contains(at(2, 0, 0)));
    // nobody waits for this one
    assert!(!join_data(&mut engine, at(5, 0, 0), terrain(at(5, 0, 0))));
    assert!(!engine.world_data.contains_key(at(5, 0, 0)));
    // a failed task frees its coordinate
    assert!(abandon_data(&mut engine, at(2, 0, 0)));
    assert!(!abandon_data(&mut engine, at(2, 0, 0)));
    assert_eq!(engine.data_tasks.len(), 0);
    assert!(!engine.world_data.contains_key(at(2, 0, 0)));
}

#[test]
fn unloading_evicts_and_forgets_tasks() {
    let mut engine = VoxelEngine::new();
    engine.world_data.insert(at(1, 0, 0), terrain(at(1, 0, 0)));
    engine.world_data.insert(at(2, 0, 0), terrain(at(2, 0, 0)));
    engine.load_data_queue.push(at(3, 0, 0));
    assert_eq!(start_data_tasks(&mut engine, origin()), vec![at(3, 0, 0)]);
    engine.unload_data_queue.push(at(1, 0, 0));
    engine.unload_data_queue.push(at(3, 0, 0));
    engine.unload_data_queue.push(at(9, 0, 0));
    let unloaded = unload_data(&mut engine);
    assert_eq!(unloaded, vec![at(1, 0, 0), at(3, 0, 0), at(9, 0, 0)]);
    assert!(engine.unload_data_queue.is_empty());
    assert!(!engine.world_data.contains_key(at(1, 0, 0)));
    assert!(engine.world_data.contains_key(at(2, 0, 0)));
    assert_eq!(engine.data_tasks.len(), 0);
    // the result of the forgotten task is discarded
    assert!(!join_data(&mut engine, at(3, 0, 0), terrain(at(3, 0, 0))));
    assert!(!engine.world_data.contains_key(at(3, 0, 0)));

    engine.load_mesh_queue.push(at(2, 0, 0));
    fill_cube(&mut engine, at(2, 0, 0));
    assert_eq!(start_mesh_tasks(&mut engine, origin()).len(), 1);
    engine.unload_mesh_queue.push(at(2, 0, 0));
    engine.unload_mesh_queue.push(at(4, 0, 0));
    assert_eq!(unload_mesh(&mut engine), vec![at(2, 0, 0), at(4, 0, 0)]);
    assert!(engine.unload_mesh_queue.is_empty());
    assert_eq!(engine.mesh_tasks.len(), 0);
    assert!(matches!(join_mesh(&mut engine, at(2, 0, 0), None), MeshUpdate::Discard));
}

#[test]
fn meshing_waits_for_the_neighbourhood() {
    let mut engine = VoxelEngine::new();
    fill_cube(&mut engine, origin());
    engine.load_mesh_queue.push(at(5, 0, 0));
    engine.load_mesh_queue.push(origin());
    engine.load_mesh_queue.push(at(1, 0, 0));
    let views = start_mesh_tasks(&mut engine, origin());
    assert_eq!(views.len(), 1);
    assert_eq!(views[0].center_chunk_position, origin());
    assert_eq!(views[0].adjacent_chunks[13].position(), origin());
    // the others are tried again, nearest first
    assert_eq!(engine.load_mesh_queue, vec![at(1, 0, 0), at(5, 0, 0)]);
    assert!(engine.mesh_tasks.contains(origin()));
    assert_eq!(engine.mesh_tasks.len(), 1);
    assert!(start_mesh_tasks(&mut engine, origin()).is_empty());
    assert_eq!(engine.load_mesh_queue, vec![at(1, 0, 0), at(5, 0, 0)]);
    fill_cube(&mut engine, at(1, 0, 0));
    let views = start_mesh_tasks(&mut engine, origin());
    assert_eq!(views.len(), 1);
    assert_eq!(views[0].center_chunk_position, at(1, 0, 0));
    assert_eq!(engine.load_mesh_queue, vec![at(5, 0, 0)]);
}

#[test]
fn mesh_admission_is_bounded() {
    let mut engine = VoxelEngine::new();
    for x in 0..40 {
        fill_cube(&mut engine, at(x, 0, 0));
        engine.load_mesh_queue.push(at(39 - x, 0, 0));
    }
    let views = start_mesh_tasks(&mut engine, origin());
    assert_eq!(views.len(), MAX_MESH_TASKS);
    for (x, view) in views.iter().enumerate() {
        assert_eq!(view.center_chunk_position, at(x as i32, 0, 0));
    }
    assert_eq!(engine.load_mesh_queue.len(), 8);
    assert_eq!(engine.load_mesh_queue[0], at(32, 0, 0));
    assert!(start_mesh_tasks(&mut engine, origin()).is_empty());
}

#[test]
fn finished_mesh_replaces_or_removes() {
    let mut engine = VoxelEngine::new();
    fill_cube(&mut engine, origin());
    engine.load_mesh_queue.push(origin());
    assert_eq!(start_mesh_tasks(&mut engine, origin()).len(), 1);
    let quad = PackedQuad::new(Position::new(1, 2, 3), 0, 0, 1, 1);
    let mesh = RenderableChunk::new(vec![quad], origin());
    match join_mesh(&mut engine, origin(), Some(mesh)) {
        MeshUpdate::Replace(mesh) => {
            assert_eq!(mesh.quads, vec![quad]);
            assert_eq!(mesh.chunk_position(), origin());
        }
        other => panic!("expected the quads, found {other:?}"),
    }
    assert_eq!(engine.mesh_tasks.len(), 0);
    // the task is done: a second result is stale
    assert!(matches!(join_mesh(&mut engine, origin(), None), MeshUpdate::Discard));
    engine.load_mesh_queue.push(origin());
    assert_eq!(start_mesh_tasks(&mut engine, origin()).len(), 1);
    assert!(matches!(join_mesh(&mut engine, origin(), None), MeshUpdate::Remove));
    engine.load_mesh_queue.push(origin());
    assert_eq!(start_mesh_tasks(&mut engine, origin()).len(), 1);
    assert!(abandon_mesh(&mut engine, origin()));
    assert!(!abandon_mesh(&mut engine, origin()));
    assert!(matches!(join_mesh(&mut engine, origin(), None), MeshUpdate::Discard));
}

#[test]
fn edits_copy_the_chunk_and_ask_for_meshes() {
    let mut engine = VoxelEngine::new();
    fill_cube(&mut engine, origin());
    let view = ChunkRefs::try_new(&engine.world_data, origin()).unwrap();
    let edits = vec![
        (
            origin(),
            vec![
                ChunkModification(RelativePosition::new(5, 5, 5), 1),
                ChunkModification(RelativePosition::new(0, 5, 5), 1),
                ChunkModification(RelativePosition::new(0, 6, 5), 1),
                ChunkModification(RelativePosition::new(31, 31, 5), 1),
            ],
        ),
        (at(40, 0, 0), vec![ChunkModification(RelativePosition::new(0, 0, 0), 1)]),
        (at(0, -1, 0), vec![ChunkModification(RelativePosition::new(3, 3, 3), 1)]),
    ];
    start_modifications(&mut engine, &edits);
    let edited = engine.world_data.get(origin()).unwrap();
    assert!(!edited.is_homogenous());
    assert_eq!(edited.get_block(VoxelIndex::new(5, 5, 5)), 1);
    assert_eq!(edited.get_block(VoxelIndex::new(0, 6, 5)), 1);
    assert_eq!(edited.get_block(VoxelIndex::new(31, 31, 5)), 1);
    assert_eq!(edited.get_block(VoxelIndex::new(6, 5, 5)), 0);
    assert_eq!(edited.position(), origin());
    // the view that was built before still shows the chunk as it was
    assert!(view.adjacent_chunks[13].is_homogenous());
    assert_eq!(view.adjacent_chunks[13].get_block(VoxelIndex::new(5, 5, 5)), 0);
    // a chunk that is not resident is not made
    assert!(!engine.world_data.contains_key(at(40, 0, 0)));
    // an edit that changes nothing leaves the chunk uniform
    assert!(engine.world_data.get(at(0, -1, 0)).unwrap().is_homogenous());
    assert_eq!(engine.world_data.len(), 27);
    assert_eq!(
        engine.load_mesh_queue,
        vec![at(-1, 0, 0), at(1, 1, 0), origin(), at(0, -1, 0)]
    );
}

#[test]
fn offsets_of_a_cube() {
    assert_eq!(make_offset_vec(-1), Vec::<ChunkPosition>::new());
    assert_eq!(make_offset_vec(i32::MIN), Vec::<ChunkPosition>::new());
    assert_eq!(make_offset_vec(0), vec![origin()]);
    let cube = make_offset_vec(1);
    assert_eq!(cube.len(), 27);
    assert_eq!(cube[0], origin());
    // the six at distance one, in the order of their index in the cube
    assert_eq!(
        cube[1..7].to_vec(),
        vec![at(0, 0, -1), at(0, -1, 0), at(-1, 0, 0), at(1, 0, 0), at(0, 1, 0), at(0, 0, 1)]
    );
    assert_eq!(cube[26], at(1, 1, 1));
    let distances: Vec<u128> = cube.iter().map(|p| p.distance_squared(origin())).collect();
    assert!(distances.windows(2).all(|w| w[0] <= w[1]));
    let cube = make_offset_vec(2);
    assert_eq!(cube.len(), 125);
    assert!(cube.contains(&at(-2, 2, -2)));
    assert!(!cube.contains(&at(3, 0, 0)));
}

#[test]
fn scanner_starts_far_away() {
    let scanner = Scanner::new(2);
    assert_eq!(scanner.prev_chunk_pos, at(777, 777, 777));
    assert_eq!(scanner.checks_per_frame, 32768);
    assert_eq!(scanner.data_offset, 0);
    assert_eq!(scanner.mesh_offset, 0);
    assert_eq!(scanner.data_sampling_offsets.len(), 7 * 7 * 7);
    assert_eq!(scanner.mesh_sampling_offsets.len(), 5 * 5 * 5);
    assert!(scanner.unresolved_data_load.is_empty());
    assert!(scanner.unresolved_mesh_load.is_empty());
    assert!(scanner.unresolved_data_unload.is_empty());
    assert!(scanner.unresolved_mesh_unload.is_empty());
}

fn triples(list: &Vec<ChunkPosition>) -> Vec<(i32, i32, i32)> {
    let mut triples: Vec<(i32, i32, i32)> = list.iter().map(|p| (p.x, p.y, p.z)).collect();
    triples.sort();
    triples
}

#[test]
fn a_move_loads_ahead_and_unloads_behind() {
    let mut scanner = Scanner::new(0);
    let mut engine = VoxelEngine::new();
    detect_move(&mut scanner, &mut engine, origin());
    assert_eq!(scanner.prev_chunk_pos, origin());
    assert_eq!(scanner.unresolved_data_load.len(), 27);
    assert_eq!(scanner.unresolved_data_load[0], origin());
    assert_eq!(scanner.unresolved_mesh_load, vec![origin()]);
    // what was wanted around the place where the scanner started
    assert_eq!(scanner.unresolved_data_unload.len(), 27);
    assert!(scanner.unresolved_data_unload.contains(&at(777, 777, 777)));
    assert_eq!(scanner.unresolved_mesh_unload, vec![at(777, 777, 777)]);
    scan_data_unload(&mut scanner, &mut engine);
    scan_mesh_unload(&mut scanner, &mut engine);
    assert!(scanner.unresolved_data_unload.is_empty());
    assert!(engine.unload_data_queue.is_empty());
    assert_eq!(unload_mesh(&mut engine), vec![at(777, 777, 777)]);

    detect_move(&mut scanner, &mut engine, at(1, 0, 0));
    let ahead: Vec<ChunkPosition> =
        (-1..=1).flat_map(|y| (-1..=1).map(move |z| at(2, y, z))).collect();
    let behind: Vec<ChunkPosition> =
        (-1..=1).flat_map(|y| (-1..=1).map(move |z| at(-1, y, z))).collect();
    assert_eq!(triples(&scanner.unresolved_data_unload), triples(&behind));
    // what lies behind is loaded no longer; what lies ahead is
    assert_eq!(scanner.unresolved_data_load.len(), 27);
    assert!(behind.iter().all(|p| !scanner.unresolved_data_load.contains(p)));
    assert!(ahead.iter().all(|p| scanner.unresolved_data_load.contains(p)));
    assert_eq!(scanner.unresolved_data_load[0], at(1, 0, 0));
    let distances: Vec<u128> =
        scanner.unresolved_data_load.iter().map(|p| p.distance_squared(at(1, 0, 0))).collect();
    assert!(distances.windows(2).all(|w| w[0] <= w[1]));
    assert_eq!(scanner.unresolved_mesh_load, vec![at(1, 0, 0)]);
    assert_eq!(scanner.unresolved_mesh_unload, vec![origin()]);
}

#[test]
fn a_move_takes_unwanted_chunks_off_the_queues() {
    let mut scanner = Scanner::new(0);
    let mut engine = VoxelEngine::new();
    detect_move(&mut scanner, &mut engine, origin());
    scan_data(&mut scanner, &mut engine);
    assert_eq!(engine.load_data_queue.len(), 27);
    detect_move(&mut scanner, &mut engine, at(1, 0, 0));
    assert_eq!(engine.load_data_queue.len(), 18);
    assert!(engine.load_data_queue.iter().all(|p| p.x >= 0));
}

#[test]
fn a_chunk_that_is_wanted_again_is_kept() {
    let mut scanner = Scanner::new(0);
    let mut engine = VoxelEngine::new();
    detect_move(&mut scanner, &mut engine, origin());
    scan_data_unload(&mut scanner, &mut engine);
    scan_mesh_unload(&mut scanner, &mut engine);
    detect_move(&mut scanner, &mut engine, at(1, 0, 0));
    assert!(scanner.unresolved_data_unload.contains(&at(-1, 0, 0)));
    assert!(scanner.unresolved_mesh_unload.contains(&origin()));
    // back before the unloads were looked at
    detect_move(&mut scanner, &mut engine, origin());
    assert!(!scanner.unresolved_data_unload.contains(&at(-1, 0, 0)));
    assert!(!scanner.unresolved_mesh_unload.contains(&origin()));
    assert!(scanner.unresolved_data_load.contains(&at(-1, 0, 0)));
    assert_eq!(scanner.unresolved_mesh_load, vec![origin()]);
    assert_eq!(triples(&scanner.unresolved_data_unload).len(), 9);
    assert!(scanner.unresolved_data_unload.iter().all(|p| p.x == 2));
    assert_eq!(scanner.unresolved_mesh_unload, vec![at(1, 0, 0)]);
    // each pending load is there once
    let loads = triples(&scanner.unresolved_data_load);
    let mut once = loads.clone();
    once.dedup();
    assert_eq!(loads.len(), 27);
    assert_eq!(once.len(), 27);
}

#[test]
fn looking_twice_without_a_move_changes_nothing() {
    let mut scanner = Scanner::new(1);
    let mut engine = VoxelEngine::new();
    detect_move(&mut scanner, &mut engine, at(3, 4, 5));
    let loads = scanner.unresolved_data_load.clone();
    let unloads = scanner.unresolved_data_unload.clone();
    let mesh_loads = scanner.unresolved_mesh_load.clone();
    let mesh_unloads = scanner.unresolved_mesh_unload.clone();
    assert_eq!(loads.len(), 125);
    assert_eq!(mesh_loads.len(), 27);
    detect_move(&mut scanner, &mut engine, at(3, 4, 5));
    assert_eq!(scanner.unresolved_data_load, loads);
    assert_eq!(scanner.unresolved_data_unload, unloads);
    assert_eq!(scanner.unresolved_mesh_load, mesh_loads);
    assert_eq!(scanner.unresolved_mesh_unload, mesh_unloads);
    assert!(engine.load_data_queue.is_empty());
    assert!(engine.load_mesh_queue.is_empty());
    assert!(engine.unload_data_queue.is_empty());
    assert!(engine.unload_mesh_queue.is_empty());
    assert_eq!(scanner.prev_chunk_pos, at(3, 4, 5));
}

#[test]
fn scans_queue_what_is_not_busy() {
    let mut scanner = Scanner::new(0);
    let mut engine = VoxelEngine::new();
    engine.world_data.insert(at(1, 0, 0), terrain(at(1, 0, 0)));
    engine.load_data_queue.push(at(2, 0, 0));
    engine.load_data_queue.push(at(3, 0, 0));
    assert_eq!(start_data_tasks(&mut engine, at(3, 0, 0)).len(), 2);
    engine.load_data_queue.push(at(2, 0, 0));
    engine.unload_data_queue.push(at(4, 0, 0));
    engine.unload_data_queue.push(at(9, 0, 0));
    scanner.unresolved_data_load =
        vec![at(1, 0, 0), at(2, 0, 0), at(3, 0, 0), at(4, 0, 0), at(5, 0, 0), at(5, 0, 0)];
    scan_data(&mut scanner, &mut engine);
    assert!(scanner.unresolved_data_load.is_empty());
    // resident, queued and in flight stay out; a new request is queued once
    // and is unloaded no longer
    assert_eq!(engine.load_data_queue, vec![at(2, 0, 0), at(4, 0, 0), at(5, 0, 0)]);
    assert_eq!(engine.unload_data_queue, vec![at(9, 0, 0)]);

    scanner.unresolved_data_unload = vec![at(1, 0, 0), at(7, 0, 0)];
    scan_data_unload(&mut scanner, &mut engine);
    assert!(scanner.unresolved_data_unload.is_empty());
    assert_eq!(engine.unload_data_queue, vec![at(9, 0, 0), at(1, 0, 0)]);

    scanner.unresolved_mesh_unload = vec![at(1, 0, 0), at(7, 0, 0)];
    engine.unload_mesh_queue.push(at(6, 0, 0));
    scan_mesh_unload(&mut scanner, &mut engine);
    assert!(scanner.unresolved_mesh_unload.is_empty());
    assert_eq!(engine.unload_mesh_queue, vec![at(6, 0, 0), at(1, 0, 0), at(7, 0, 0)]);
}

#[test]
fn no_scan_while_many_tasks_are_in_flight() {
    let mut scanner = Scanner::new(0);
    let mut engine = VoxelEngine::new();
    for x in 0..9 {
        engine.load_data_queue.push(at(x, 9, 9));
    }
    assert_eq!(start_data_tasks(&mut engine, origin()).len(), 9);
    scanner.unresolved_data_load = vec![at(1, 0, 0)];
    scan_data(&mut scanner, &mut engine);
    assert_eq!(scanner.unresolved_data_load, vec![at(1, 0, 0)]);
    assert!(engine.load_data_queue.is_empty());
    assert!(abandon_data(&mut engine, at(0, 9, 9)));
    scan_data(&mut scanner, &mut engine);
    assert!(scanner.unresolved_data_load.is_empty());
    assert_eq!(engine.load_data_queue, vec![at(1, 0, 0)]);
}

#[test]
fn mesh_scan_retries_what_is_not_ready() {
    let mut scanner = Scanner::new(0);
    let mut engine = VoxelEngine::new();
    fill_cube(&mut engine, origin());
    engine.unload_mesh_queue.push(origin());
    engine.load_mesh_queue.push(at(8, 0, 0));
    scanner.unresolved_mesh_load = vec![at(1, 0, 0), origin(), at(8, 0, 0), origin()];
    scan_mesh(&mut scanner, &mut engine);
    assert_eq!(engine.load_mesh_queue, vec![at(8, 0, 0), origin()]);
    assert!(engine.unload_mesh_queue.is_empty());
    assert_eq!(scanner.unresolved_mesh_load, vec![at(1, 0, 0), at(8, 0, 0), origin()]);
}

#[test]
fn scans_look_at_a_bounded_number() {
    let mut scanner = Scanner::new(0);
    let mut engine = VoxelEngine::new();
    for i in 0..26010 {
        scanner.unresolved_mesh_load.push(at(i, 50, 0));
    }
    scan_mesh(&mut scanner, &mut engine);
    assert_eq!(scanner.unresolved_mesh_load.len(), 26010);
    // those that were not looked at come first
    assert_eq!(scanner.unresolved_mesh_load[0], at(26000, 50, 0));
    assert_eq!(scanner.unresolved_mesh_load[10], at(0, 50, 0));
    assert!(engine.load_mesh_queue.is_empty());
}

#[test]
fn all_meshes_anew() {
    let mut engine = VoxelEngine::new();
    fill_cube(&mut engine, origin());
    engine.load_mesh_queue.push(origin());
    assert_eq!(start_mesh_tasks(&mut engine, origin()).len(), 1);
    engine.load_mesh_queue.push(at(9, 9, 9));
    let offsets = make_offset_vec(1);
    engine.unload_all_meshes(&offsets, at(i32::MAX, 0, 0));
    assert_eq!(engine.mesh_tasks.len(), 0);
    assert_eq!(engine.load_mesh_queue.len(), 18);
    assert_eq!(engine.load_mesh_queue[0], at(i32::MAX, 0, 0));
    assert!(engine.load_mesh_queue.iter().all(|p| p.x >= i32::MAX - 1));
    assert_eq!(engine.world_data.len(), 27);
}

#[test]
fn loader_queues() {
    let mut loader = AsyncChunkloader::new();
    for x in (0..70).rev() {
        loader.load_chunk_queue.push(at(x, 0, 0));
        loader.load_mesh_queue.push(at(0, x, 0));
    }
    let to_load = loader.get_chunks_to_load(origin());
    assert_eq!(to_load.len(), 64);
    assert_eq!(to_load[0], origin());
    assert_eq!(to_load[63], at(63, 0, 0));
    assert_eq!(loader.load_chunk_queue.len(), 6);
    let to_mesh = loader.get_chunks_to_mesh(at(0, 69, 0));
    assert_eq!(to_mesh.len(), 32);
    assert_eq!(to_mesh[0], at(0, 69, 0));
    assert_eq!(to_mesh[31], at(0, 38, 0));
    assert_eq!(loader.load_mesh_queue.len(), 38);
    for p in to_mesh.iter() {
        loader.mesh_tasks.insert(*p);
    }
    assert!(loader.get_chunks_to_mesh(origin()).is_empty());
    loader.unload_chunk_queue.push(at(1, 1, 1));
    loader.unload_mesh_queue.push(at(2, 2, 2));
    assert_eq!(loader.get_chunks_to_unload(), vec![at(1, 1, 1)]);
    assert!(loader.get_chunks_to_unload().is_empty());
    assert_eq!(loader.get_chunks_to_unmesh(), vec![at(2, 2, 2)]);
    assert!(loader.unload_mesh_queue.is_empty());
}

#[test]
fn world_fills_around_the_viewer_and_the_centre_is_meshed() {
    let registry = two_blocks();
    let mut scanner = Scanner::new(0);
    let mut engine = VoxelEngine::new();
    assert_eq!(engine.world_data.len(), 0);
    let mut in_flight: Vec<ChunkPosition> = Vec::new();
    let mut meshes_in_flight: Vec<ChunkRefs> = Vec::new();
    let mut meshed: Vec<ChunkPosition> = Vec::new();
    for _tick in 0..30 {
        detect_move(&mut scanner, &mut engine, origin());
        scan_data(&mut scanner, &mut engine);
        scan_data_unload(&mut scanner, &mut engine);
        scan_mesh_unload(&mut scanner, &mut engine);
        scan_mesh(&mut scanner, &mut engine);
        // one generation task finishes per tick
        in_flight.extend(start_data_tasks(&mut engine, origin()));
        meshes_in_flight.extend(start_mesh_tasks(&mut engine, origin()));
        if !in_flight.is_empty() {
            let position = in_flight.remove(0);
            assert!(join_data(&mut engine, position, terrain(position)));
        }
        if let Some(view) = meshes_in_flight.pop() {
            let position = view.center_chunk_position;
            let mesh = build_chunk_instance_data(&view, &registry, engine.lod);
            // the centre chunk is air on ground: nothing of it shows
            match join_mesh(&mut engine, position, mesh) {
                MeshUpdate::Remove => meshed.push(position),
                other => panic!("expected no quads, found {other:?}"),
            }
        }
        unload_data(&mut engine);
        unload_mesh(&mut engine);
    }
    assert_eq!(engine.world_data.len(), 27);
    for x in -1..=1 {
        for y in -1..=1 {
            for z in -1..=1 {
                assert!(engine.world_data.contains_key(at(x, y, z)));
            }
        }
    }
    assert!(ChunkRefs::try_new(&engine.world_data, origin()).is_some());
    assert_eq!(engine.data_tasks.len(), 0);
    assert_eq!(engine.mesh_tasks.len(), 0);
    assert!(engine.load_data_queue.is_empty());
    assert!(scanner.unresolved_mesh_load.is_empty());
    assert_eq!(meshed, vec![origin()]);
}

#[test]
fn ground_chunk_shows_its_top() {
    let registry = two_blocks();
    let mut engine = VoxelEngine::new();
    let below = at(0, -1, 0);
    fill_cube(&mut engine, below);
    engine.load_mesh_queue.push(below);
    let views = start_mesh_tasks(&mut engine, origin());
    let mesh = build_chunk_instance_data(&views[0], &registry, engine.lod).unwrap();
    assert_eq!(mesh.chunk_position(), below);
    assert_eq!(mesh.quads.len(), 1);
    let top = mesh.quads[0];
    assert_eq!((top.x(), top.y(), top.z(), top.normal()), (0, 31, 0, 3));
    assert_eq!((top.x_stretch(), top.y_stretch()), (32, 32));
    assert_eq!(CHUNK_SIZE3, 32768);
}
