//! The state of the voxel world and the steps that load, mesh and evict
//! chunks. Every step takes what happened outside (the viewer moved, a task
//! finished) and says what is to be done outside (which tasks to start,
//! which renderable to replace); it never waits.

use vstd::prelude::*;
use crate::chunk::BlockId;
use crate::chunk::ChunkData;
use crate::chunk::VoxelIndex;
use crate::chunk::apply_edits;
use crate::chunk_material::RenderableChunk;
use crate::chunks_refs::ChunkRefs;
use crate::chunks_refs::in_center;
use crate::chunks_refs::neighborhood_resident;
use crate::chunks_refs::slot_offset;
use crate::chunks_refs::NEIGHBORHOOD;
use crate::coord_set::CoordSet;
use crate::lod::Lod;
use crate::position::ChunkPosition;
use crate::position::Position;
use crate::position::RelativePosition;
use crate::queue::admission_count;
use crate::queue::is_queued;
use crate::queue::sort_by_distance;
use crate::queue::sorted_by_distance;
use crate::queue::take_all;
use crate::queue::take_front;
use crate::queue::tasks_left;
use crate::utils::get_edging_chunk;
use crate::utils::edging_chunk;
use crate::world_map::Chunks;

verus! {

/// Most chunk generation tasks in flight at a time.
pub const MAX_DATA_TASKS: usize = 64;

/// Most meshing tasks in flight at a time.
pub const MAX_MESH_TASKS: usize = 32;

/// An edit of one voxel: its position within its chunk and its new block.
#[derive(Debug, Clone, Copy)]
pub struct ChunkModification(pub RelativePosition, pub BlockId);

/// What is to become of the renderable of a chunk when its meshing task
/// has finished.
#[derive(Debug)]
pub enum MeshUpdate {
    /// The quads take the place of any earlier ones.
    Replace(RenderableChunk),
    /// The chunk has no visible face: any earlier quads go.
    Remove,
    /// Nobody waits for this result any more.
    Discard,
}

/// holds all voxel world data
pub struct VoxelEngine {
    pub world_data: Chunks,
    pub load_data_queue: Vec<ChunkPosition>,
    pub load_mesh_queue: Vec<ChunkPosition>,
    pub unload_data_queue: Vec<ChunkPosition>,
    pub unload_mesh_queue: Vec<ChunkPosition>,
    /// The coordinates whose chunk is being generated.
    pub data_tasks: CoordSet,
    /// The coordinates whose chunk is being meshed.
    pub mesh_tasks: CoordSet,
    pub lod: Lod,
}

impl Default for VoxelEngine {
    fn default() -> (engine: Self)
        ensures
            engine.world_data@ == Map::<ChunkPosition, ChunkData>::empty(),
            engine.load_data_queue@.len() == 0,
            engine.load_mesh_queue@.len() == 0,
            engine.unload_data_queue@.len() == 0,
            engine.unload_mesh_queue@.len() == 0,
            engine.data_tasks@ == Set::<ChunkPosition>::empty(),
            engine.mesh_tasks@ == Set::<ChunkPosition>::empty(),
            engine.lod == Lod::L32,
    {
        VoxelEngine::new()
    }
}

/// The coordinates that the views are centred on.
pub open spec fn centers(views: Seq<ChunkRefs>) -> Seq<ChunkPosition> {
    Seq::new(views.len(), |i: int| views[i].center_chunk_position)
}

/// True when `view` holds the chunks that `world` has around its centre.
pub open spec fn view_of(world: Map<ChunkPosition, ChunkData>, view: ChunkRefs) -> bool {
    forall|slot: int|
        0 <= slot < NEIGHBORHOOD ==> #[trigger] view.chunk(slot) == world[view.center_chunk_position.offset_by(
            slot_offset(slot),
        )]
}

/// The `count` nearest entries of `queue` that can be meshed: `admitted`;
/// and what is left of `queue` when those have been taken off it: `after`,
/// which is the entries further away, followed by those of the `count`
/// nearest whose neighbourhood is not resident yet.
pub open spec fn mesh_admission(
    world: Map<ChunkPosition, ChunkData>,
    queue: Seq<ChunkPosition>,
    viewer: ChunkPosition,
    count: int,
    admitted: Seq<ChunkPosition>,
    after: Seq<ChunkPosition>,
) -> bool {
    exists|sorted: Seq<ChunkPosition>|
        {
            &&& sorted_by_distance(queue, sorted, viewer)
            &&& admitted == sorted.take(count).filter(
                |p: ChunkPosition| neighborhood_resident(world, p),
            )
            &&& after == sorted.skip(count) + sorted.take(count).filter(
                |p: ChunkPosition| !neighborhood_resident(world, p),
            )
        }
}

/// Makes every entry of `items` a member of `set`.
pub fn insert_all(set: &mut CoordSet, items: &Vec<ChunkPosition>)
    ensures
        final(set)@ == old(set)@.union(items@.to_set()),
{
    let mut i: usize = 0;
    while i < items.len()
        invariant
            i <= items.len(),
            set@ == old(set)@.union(items@.take(i as int).to_set()),
        decreases items.len() - i,
    {
        let _ = set.insert(items[i]);
        proof {
            assert(items@.take(i + 1) =~= items@.take(i as int).push(items@[i as int]));
            items@.take(i as int).lemma_push_to_set_commute(items@[i as int]);
            assert(set@ =~= old(set)@.union(items@.take(i + 1).to_set()));
        }
        i += 1;
    }
    proof {
        assert(items@.take(items.len() as int) =~= items@);
    }
}

/// Takes every entry of `items` out of `set`.
pub fn remove_all(set: &mut CoordSet, items: &Vec<ChunkPosition>)
    ensures
        final(set)@ == old(set)@.difference(items@.to_set()),
{
    let mut i: usize = 0;
    while i < items.len()
        invariant
            i <= items.len(),
            set@ == old(set)@.difference(items@.take(i as int).to_set()),
        decreases items.len() - i,
    {
        let _ = set.remove(items[i]);
        proof {
            assert(items@.take(i + 1) =~= items@.take(i as int).push(items@[i as int]));
            items@.take(i as int).lemma_push_to_set_commute(items@[i as int]);
            assert(set@ =~= old(set)@.difference(items@.take(i + 1).to_set()));
        }
        i += 1;
    }
    proof {
        assert(items@.take(items.len() as int) =~= items@);
    }
}

impl VoxelEngine {
    /// An engine with an empty world, empty queues and no task in flight.
    #[must_use]
    pub fn new() -> (engine: Self)
        ensures
            engine.world_data@ == Map::<ChunkPosition, ChunkData>::empty(),
            engine.load_data_queue@.len() == 0,
            engine.load_mesh_queue@.len() == 0,
            engine.unload_data_queue@.len() == 0,
            engine.unload_mesh_queue@.len() == 0,
            engine.data_tasks@ == Set::<ChunkPosition>::empty(),
            engine.mesh_tasks@ == Set::<ChunkPosition>::empty(),
            engine.lod == Lod::L32,
    {
        VoxelEngine {
            world_data: Chunks::new(),
            load_data_queue: Vec::new(),
            load_mesh_queue: Vec::new(),
            unload_data_queue: Vec::new(),
            unload_mesh_queue: Vec::new(),
            data_tasks: CoordSet::new(),
            mesh_tasks: CoordSet::new(),
            lod: Lod::L32,
        }
    }

    /// True when `other` differs from this engine at most in the world and
    /// in what belongs to chunk generation.
    pub open spec fn same_meshing(&self, other: &VoxelEngine) -> bool {
        &&& other.load_mesh_queue == self.load_mesh_queue
        &&& other.unload_mesh_queue == self.unload_mesh_queue
        &&& other.mesh_tasks == self.mesh_tasks
        &&& other.lod == self.lod
    }

    /// True when `other` differs from this engine at most in what belongs
    /// to meshing.
    pub open spec fn same_data(&self, other: &VoxelEngine) -> bool {
        &&& other.world_data == self.world_data
        &&& other.load_data_queue == self.load_data_queue
        &&& other.unload_data_queue == self.unload_data_queue
        &&& other.data_tasks == self.data_tasks
        &&& other.lod == self.lod
    }

    /// stop any current processing of meshes and queue every chunk
    /// around `scan_pos` for meshing anew
    pub fn unload_all_meshes(
        &mut self,
        mesh_sampling_offsets: &Vec<ChunkPosition>,
        scan_pos: ChunkPosition,
    )
        ensures
            old(self).same_data(final(self)),
            final(self).unload_mesh_queue == old(self).unload_mesh_queue,
            final(self).mesh_tasks@ == Set::<ChunkPosition>::empty(),
            final(self).load_mesh_queue@ == around(
                scan_pos,
                mesh_sampling_offsets@,
                mesh_sampling_offsets.len() as int,
            ),
    {
        self.load_mesh_queue.clear();
        self.mesh_tasks.clear();
        let mut i: usize = 0;
        while i < mesh_sampling_offsets.len()
            invariant
                i <= mesh_sampling_offsets.len(),
                old(self).same_data(self),
                self.unload_mesh_queue == old(self).unload_mesh_queue,
                self.mesh_tasks@ == Set::<ChunkPosition>::empty(),
                self.load_mesh_queue@ == around(scan_pos, mesh_sampling_offsets@, i as int),
            decreases mesh_sampling_offsets.len() - i,
        {
            match scan_pos.checked_add(mesh_sampling_offsets[i]) {
                Some(wpos) => {
                    self.load_mesh_queue.push(wpos);
                },
                None => {},
            }
            i += 1;
        }
    }
}

/// The coordinates that lie the first `n` of `offsets` away from `center`,
/// in the order of the offsets. An offset that leads out of the range of
/// coordinates gives none.
pub open spec fn around(center: ChunkPosition, offsets: Seq<ChunkPosition>, n: int) -> Seq<
    ChunkPosition,
>
    decreases n,
{
    if n <= 0 {
        Seq::empty()
    } else if center.can_reach(offsets[n - 1]) {
        around(center, offsets, n - 1).push(center.offset_by(offsets[n - 1]))
    } else {
        around(center, offsets, n - 1)
    }
}

/// begin data building tasks for chunks in range: takes the nearest
/// entries off the load queue, as many as fit beside the tasks in flight,
/// and counts them as in flight. A generation task is to be started for
/// each of them.
pub fn start_data_tasks(voxel_engine: &mut VoxelEngine, scan_pos: ChunkPosition) -> (admitted: Vec<
    ChunkPosition,
>)
    ensures
        old(voxel_engine).same_meshing(final(voxel_engine)),
        final(voxel_engine).world_data == old(voxel_engine).world_data,
        final(voxel_engine).unload_data_queue == old(voxel_engine).unload_data_queue,
        admitted.len() == admission_count(
            MAX_DATA_TASKS as int,
            old(voxel_engine).data_tasks@.len() as int,
            old(voxel_engine).load_data_queue.len() as int,
        ),
        sorted_by_distance(
            old(voxel_engine).load_data_queue@,
            admitted@ + final(voxel_engine).load_data_queue@,
            scan_pos,
        ),
        forall|i: int, j: int|
            0 <= i < admitted.len() && 0 <= j < final(voxel_engine).load_data_queue.len() ==> (
            #[trigger] admitted[i]).distance_squared_spec(scan_pos) <= (
            #[trigger] final(voxel_engine).load_data_queue[j]).distance_squared_spec(scan_pos),
        final(voxel_engine).data_tasks@ == old(voxel_engine).data_tasks@.union(admitted@.to_set()),
        old(voxel_engine).data_tasks@.len() <= MAX_DATA_TASKS
            ==> final(voxel_engine).data_tasks@.len() <= MAX_DATA_TASKS,
{
    sort_by_distance(&mut voxel_engine.load_data_queue, scan_pos);
    let ghost sorted = voxel_engine.load_data_queue@;
    let tasks_left = tasks_left(
        MAX_DATA_TASKS,
        voxel_engine.data_tasks.len(),
        voxel_engine.load_data_queue.len(),
    );
    proof {
        sorted.to_multiset_ensures();
        old(voxel_engine).load_data_queue@.to_multiset_ensures();
    }
    let admitted = take_front(&mut voxel_engine.load_data_queue, tasks_left);
    insert_all(&mut voxel_engine.data_tasks, &admitted);
    proof {
        vstd::seq_lib::seq_to_set_is_finite(admitted@);
        admitted@.lemma_cardinality_of_set();
        vstd::set_lib::lemma_len_union(old(voxel_engine).data_tasks@, admitted@.to_set());
        let rest = voxel_engine.load_data_queue@;
        assert(admitted@ + rest =~= sorted);
        assert forall|i: int, j: int| 0 <= i < admitted.len() && 0 <= j < rest.len() implies (
        #[trigger] admitted[i]).distance_squared_spec(scan_pos) <= (
        #[trigger] rest[j]).distance_squared_spec(scan_pos) by {
            assert(admitted[i] == sorted[i]);
            assert(rest[j] == sorted[tasks_left + j]);
        }
    }
    admitted
}

/// join a chunk generation task: the chunk becomes resident, unless
/// nobody waits for it any more. Says whether it was stored.
pub fn join_data(voxel_engine: &mut VoxelEngine, position: ChunkPosition, chunk: ChunkData) -> (stored:
    bool)
    ensures
        old(voxel_engine).same_meshing(final(voxel_engine)),
        final(voxel_engine).load_data_queue == old(voxel_engine).load_data_queue,
        final(voxel_engine).unload_data_queue == old(voxel_engine).unload_data_queue,
        stored == old(voxel_engine).data_tasks@.contains(position),
        final(voxel_engine).data_tasks@ == old(voxel_engine).data_tasks@.remove(position),
        final(voxel_engine).world_data@ == (if stored {
            old(voxel_engine).world_data@.insert(position, chunk)
        } else {
            old(voxel_engine).world_data@
        }),
{
    let waiting = voxel_engine.data_tasks.remove(position);
    if waiting {
        voxel_engine.world_data.insert(position, chunk);
    }
    waiting
}

/// gives up a chunk generation task that failed: the coordinate is in
/// flight no longer, and can be queued again. Says whether it was in flight.
pub fn abandon_data(voxel_engine: &mut VoxelEngine, position: ChunkPosition) -> (was_in_flight: bool)
    ensures
        old(voxel_engine).same_meshing(final(voxel_engine)),
        final(voxel_engine).world_data == old(voxel_engine).world_data,
        final(voxel_engine).load_data_queue == old(voxel_engine).load_data_queue,
        final(voxel_engine).unload_data_queue == old(voxel_engine).unload_data_queue,
        was_in_flight == old(voxel_engine).data_tasks@.contains(position),
        final(voxel_engine).data_tasks@ == old(voxel_engine).data_tasks@.remove(position),
{
    voxel_engine.data_tasks.remove(position)
}

/// destroy enqueued, chunk data: every coordinate of the unload queue
/// leaves the world, and a generation task for it is waited for no longer.
/// Returns the coordinates, whose tasks are to be dropped.
pub fn unload_data(voxel_engine: &mut VoxelEngine) -> (unloaded: Vec<ChunkPosition>)
    ensures
        old(voxel_engine).same_meshing(final(voxel_engine)),
        final(voxel_engine).load_data_queue == old(voxel_engine).load_data_queue,
        unloaded@ == old(voxel_engine).unload_data_queue@,
        final(voxel_engine).unload_data_queue@.len() == 0,
        final(voxel_engine).world_data@ == old(voxel_engine).world_data@.remove_keys(
            unloaded@.to_set(),
        ),
        final(voxel_engine).data_tasks@ == old(voxel_engine).data_tasks@.difference(
            unloaded@.to_set(),
        ),
{
    let unloaded = take_all(&mut voxel_engine.unload_data_queue);
    let mut i: usize = 0;
    while i < unloaded.len()
        invariant
            i <= unloaded.len(),
            old(voxel_engine).same_meshing(voxel_engine),
            voxel_engine.load_data_queue == old(voxel_engine).load_data_queue,
            voxel_engine.unload_data_queue@.len() == 0,
            voxel_engine.data_tasks == old(voxel_engine).data_tasks,
            voxel_engine.world_data@ == old(voxel_engine).world_data@.remove_keys(
                unloaded@.take(i as int).to_set(),
            ),
        decreases unloaded.len() - i,
    {
        let _ = voxel_engine.world_data.remove(unloaded[i]);
        proof {
            assert(unloaded@.take(i + 1) =~= unloaded@.take(i as int).push(unloaded@[i as int]));
            unloaded@.take(i as int).lemma_push_to_set_commute(unloaded@[i as int]);
            assert(voxel_engine.world_data@ =~= old(voxel_engine).world_data@.remove_keys(
                unloaded@.take(i + 1).to_set(),
            ));
        }
        i += 1;
    }
    proof {
        assert(unloaded@.take(unloaded.len() as int) =~= unloaded@);
    }
    remove_all(&mut voxel_engine.data_tasks, &unloaded);
    unloaded
}

/// begin mesh building tasks for chunks in range: takes the nearest
/// entries off the mesh queue, as many as fit beside the tasks in flight.
/// Those whose neighbourhood is resident are counted as in flight, and a
/// view of the neighbourhood is returned for each: a meshing task is to be
/// started on it. The others go back to the end of the queue.
pub fn start_mesh_tasks(voxel_engine: &mut VoxelEngine, scan_pos: ChunkPosition) -> (views: Vec<
    ChunkRefs,
>)
    ensures
        old(voxel_engine).same_data(final(voxel_engine)),
        final(voxel_engine).unload_mesh_queue == old(voxel_engine).unload_mesh_queue,
        mesh_admission(
            old(voxel_engine).world_data@,
            old(voxel_engine).load_mesh_queue@,
            scan_pos,
            admission_count(
                MAX_MESH_TASKS as int,
                old(voxel_engine).mesh_tasks@.len() as int,
                old(voxel_engine).load_mesh_queue.len() as int,
            ),
            centers(views@),
            final(voxel_engine).load_mesh_queue@,
        ),
        forall|i: int|
            0 <= i < views.len() ==> view_of(old(voxel_engine).world_data@, #[trigger] views[i]),
        final(voxel_engine).mesh_tasks@ == old(voxel_engine).mesh_tasks@.union(
            centers(views@).to_set(),
        ),
        old(voxel_engine).mesh_tasks@.len() <= MAX_MESH_TASKS
            ==> final(voxel_engine).mesh_tasks@.len() <= MAX_MESH_TASKS,
{
    sort_by_distance(&mut voxel_engine.load_mesh_queue, scan_pos);
    let ghost sorted = voxel_engine.load_mesh_queue@;
    let tasks_left = tasks_left(
        MAX_MESH_TASKS,
        voxel_engine.mesh_tasks.len(),
        voxel_engine.load_mesh_queue.len(),
    );
    proof {
        sorted.to_multiset_ensures();
        old(voxel_engine).load_mesh_queue@.to_multiset_ensures();
    }
    let candidates = take_front(&mut voxel_engine.load_mesh_queue, tasks_left);
    let ghost world = voxel_engine.world_data@;
    let ghost ready = |p: ChunkPosition| neighborhood_resident(world, p);
    let ghost unready = |p: ChunkPosition| !neighborhood_resident(world, p);
    let mut views: Vec<ChunkRefs> = Vec::new();
    let mut i: usize = 0;
    while i < candidates.len()
        invariant
            i <= candidates.len(),
            old(voxel_engine).same_data(voxel_engine),
            world == voxel_engine.world_data@,
            ready == (|p: ChunkPosition| neighborhood_resident(world, p)),
            unready == (|p: ChunkPosition| !neighborhood_resident(world, p)),
            voxel_engine.unload_mesh_queue == old(voxel_engine).unload_mesh_queue,
            candidates@ == sorted.take(tasks_left as int),
            centers(views@) == candidates@.take(i as int).filter(ready),
            voxel_engine.load_mesh_queue@ == sorted.skip(tasks_left as int) + candidates@.take(
                i as int,
            ).filter(unready),
            forall|k: int| 0 <= k < views.len() ==> view_of(world, #[trigger] views[k]),
            voxel_engine.mesh_tasks@ == old(voxel_engine).mesh_tasks@.union(
                centers(views@).to_set(),
            ),
        decreases candidates.len() - i,
    {
        let chunk_position = candidates[i];
        let ghost before = views@;
        proof {
            assert(candidates@.take(i + 1) =~= candidates@.take(i as int).push(chunk_position));
            candidates@.take(i as int).lemma_filter_push(chunk_position, ready);
            candidates@.take(i as int).lemma_filter_push(chunk_position, unready);
        }
        match ChunkRefs::try_new(&voxel_engine.world_data, chunk_position) {
            Some(chunks_refs) => {
                views.push(chunks_refs);
                let _ = voxel_engine.mesh_tasks.insert(chunk_position);
                proof {
                    assert(centers(views@) =~= centers(before).push(chunk_position));
                    centers(before).lemma_push_to_set_commute(chunk_position);
                    assert(voxel_engine.mesh_tasks@ =~= old(voxel_engine).mesh_tasks@.union(
                        centers(views@).to_set(),
                    ));
                }
            },
            None => {
                voxel_engine.load_mesh_queue.push(chunk_position);
                proof {
                    assert(voxel_engine.load_mesh_queue@ =~= sorted.skip(tasks_left as int)
                        + candidates@.take(i + 1).filter(unready));
                }
            },
        }
        i += 1;
    }
    proof {
        assert(candidates@.take(candidates.len() as int) =~= candidates@);
        candidates@.lemma_filter_len(ready);
        vstd::seq_lib::seq_to_set_is_finite(centers(views@));
        centers(views@).lemma_cardinality_of_set();
        vstd::set_lib::lemma_len_union(old(voxel_engine).mesh_tasks@, centers(views@).to_set());
    }
    views
}

/// join a meshing task. Where the result is still waited for, quads take
/// the place of the chunk's earlier ones and no quads mean that the earlier
/// ones go.
pub fn join_mesh(
    voxel_engine: &mut VoxelEngine,
    position: ChunkPosition,
    mesh: Option<RenderableChunk>,
) -> (update: MeshUpdate)
    ensures
        old(voxel_engine).same_data(final(voxel_engine)),
        final(voxel_engine).load_mesh_queue == old(voxel_engine).load_mesh_queue,
        final(voxel_engine).unload_mesh_queue == old(voxel_engine).unload_mesh_queue,
        final(voxel_engine).mesh_tasks@ == old(voxel_engine).mesh_tasks@.remove(position),
        update == (if !old(voxel_engine).mesh_tasks@.contains(position) {
            MeshUpdate::Discard
        } else {
            match mesh {
                Some(quads) => MeshUpdate::Replace(quads),
                None => MeshUpdate::Remove,
            }
        }),
{
    if !voxel_engine.mesh_tasks.remove(position) {
        return MeshUpdate::Discard;
    }
    match mesh {
        Some(quads) => MeshUpdate::Replace(quads),
        None => MeshUpdate::Remove,
    }
}

/// gives up a meshing task that failed: the coordinate is in flight no
/// longer, and can be queued again. Says whether it was in flight.
pub fn abandon_mesh(voxel_engine: &mut VoxelEngine, position: ChunkPosition) -> (was_in_flight: bool)
    ensures
        old(voxel_engine).same_data(final(voxel_engine)),
        final(voxel_engine).load_mesh_queue == old(voxel_engine).load_mesh_queue,
        final(voxel_engine).unload_mesh_queue == old(voxel_engine).unload_mesh_queue,
        was_in_flight == old(voxel_engine).mesh_tasks@.contains(position),
        final(voxel_engine).mesh_tasks@ == old(voxel_engine).mesh_tasks@.remove(position),
{
    voxel_engine.mesh_tasks.remove(position)
}

/// destroy enqueued, chunk mesh entities: a meshing task for a coordinate
/// of the unload queue is waited for no longer. Returns the coordinates,
/// whose renderables are to go.
pub fn unload_mesh(voxel_engine: &mut VoxelEngine) -> (unloaded: Vec<ChunkPosition>)
    ensures
        old(voxel_engine).same_data(final(voxel_engine)),
        final(voxel_engine).load_mesh_queue == old(voxel_engine).load_mesh_queue,
        unloaded@ == old(voxel_engine).unload_mesh_queue@,
        final(voxel_engine).unload_mesh_queue@.len() == 0,
        final(voxel_engine).mesh_tasks@ == old(voxel_engine).mesh_tasks@.difference(
            unloaded@.to_set(),
        ),
{
    let unloaded = take_all(&mut voxel_engine.unload_mesh_queue);
    remove_all(&mut voxel_engine.mesh_tasks, &unloaded);
    unloaded
}

/// The edits as writes by voxel index.
pub open spec fn edit_list(mods: Seq<ChunkModification>) -> Seq<(VoxelIndex, BlockId)> {
    Seq::new(
        mods.len(),
        |i: int|
            (
                VoxelIndex(
                    VoxelIndex::flat(mods[i].0.x as int, mods[i].0.y as int, mods[i].0.z as int) as usize,
                ),
                mods[i].1,
            ),
    )
}

/// The steps to the chunks that the first `n` edits touch, each once, in
/// the order in which the edits first touch them.
pub open spec fn edge_offsets(mods: Seq<ChunkModification>, n: int) -> Seq<ChunkPosition>
    decreases n,
{
    if n <= 0 {
        Seq::empty()
    } else {
        let before = edge_offsets(mods, n - 1);
        match edging_chunk(mods[n - 1].0.x as int, mods[n - 1].0.y as int, mods[n - 1].0.z as int) {
            Some(offset) => if before.contains(offset) {
                before
            } else {
                before.push(offset)
            },
            None => before,
        }
    }
}

/// The voxels of the chunk at `position` after the first `n` batches of
/// edits: a batch changes the chunk that it names.
pub open spec fn edited_voxels(
    world: Map<ChunkPosition, ChunkData>,
    batches: Seq<(ChunkPosition, Vec<ChunkModification>)>,
    n: int,
    position: ChunkPosition,
) -> Seq<BlockId>
    decreases n,
{
    if n <= 0 {
        world[position]@
    } else {
        let before = edited_voxels(world, batches, n - 1, position);
        if batches[n - 1].0 == position {
            apply_edits(
                before,
                edit_list(batches[n - 1].1@),
                batches[n - 1].1@.len() as int,
            )
        } else {
            before
        }
    }
}

/// The chunks to mesh anew after the first `n` batches of edits: for
/// every batch on a resident chunk, the neighbours that the edits touch
/// and then the chunk itself.
pub open spec fn remesh_requests(
    world: Map<ChunkPosition, ChunkData>,
    batches: Seq<(ChunkPosition, Vec<ChunkModification>)>,
    n: int,
) -> Seq<ChunkPosition>
    decreases n,
{
    if n <= 0 {
        Seq::empty()
    } else {
        let before = remesh_requests(world, batches, n - 1);
        let position = batches[n - 1].0;
        if world.contains_key(position) {
            let offsets = edge_offsets(batches[n - 1].1@, batches[n - 1].1@.len() as int);
            before + around(position, offsets, offsets.len() as int).push(position)
        } else {
            before
        }
    }
}

/// True when every edit names a voxel of a chunk.
pub open spec fn edits_in_chunk(mods: Seq<ChunkModification>) -> bool {
    forall|j: int|
        0 <= j < mods.len() ==> in_center(
            (#[trigger] mods[j]).0.x as int,
            mods[j].0.y as int,
            mods[j].0.z as int,
        )
}

/// A copy of `chunk` with the edits made, and the steps to the chunks that
/// the edits touch.
fn edit_chunk(chunk: &ChunkData, mods: &Vec<ChunkModification>) -> (r: (ChunkData, Vec<ChunkPosition>))
    requires
        edits_in_chunk(mods@),
    ensures
        r.0.position() == chunk.position(),
        r.0@ == apply_edits(chunk@, edit_list(mods@), mods.len() as int),
        r.1@ == edge_offsets(mods@, mods.len() as int),
{
    let mut edits: Vec<(VoxelIndex, BlockId)> = Vec::new();
    let mut adj_chunk_set: Vec<ChunkPosition> = Vec::new();
    let mut j: usize = 0;
    while j < mods.len()
        invariant
            j <= mods.len(),
            edits_in_chunk(mods@),
            edits@ == edit_list(mods@).take(j as int),
            adj_chunk_set@ == edge_offsets(mods@, j as int),
        decreases mods.len() - j,
    {
        let local_pos = mods[j].0;
        let block_type = mods[j].1;
        assert(in_center(local_pos.x as int, local_pos.y as int, local_pos.z as int));
        edits.push((VoxelIndex::from_position(local_pos), block_type));
        proof {
            assert(edits@ =~= edit_list(mods@).take(j + 1));
        }
        match get_edging_chunk(Position::new(local_pos.x, local_pos.y, local_pos.z)) {
            Some(edge_chunk) => {
                if !is_queued(&adj_chunk_set, edge_chunk) {
                    adj_chunk_set.push(edge_chunk);
                }
            },
            None => {},
        }
        j += 1;
    }
    let mut new_chunk_data = chunk.duplicate();
    proof {
        assert(edits@ =~= edit_list(mods@));
        assert forall|k: int| 0 <= k < edits.len() implies (#[trigger] edits[k]).0.valid() by {
            assert(in_center(mods[k].0.x as int, mods[k].0.y as int, mods[k].0.z as int));
        }
    }
    new_chunk_data.set_blocks(&edits);
    (new_chunk_data, adj_chunk_set)
}

/// Makes the queued edits. Every batch names a chunk and holds the edits
/// for it; a batch for a chunk that is not resident is dropped. The edited
/// chunk is a copy that takes the place of the chunk in the world, so that
/// views of the chunk as it was stay as they are. The chunk and the
/// neighbours that the edits touch are queued for meshing.
pub fn start_modifications(
    voxel_engine: &mut VoxelEngine,
    chunk_modifications: &Vec<(ChunkPosition, Vec<ChunkModification>)>,
)
    requires
        forall|i: int|
            0 <= i < chunk_modifications.len() ==> edits_in_chunk(
                (#[trigger] chunk_modifications[i]).1@,
            ),
    ensures
        final(voxel_engine).load_data_queue == old(voxel_engine).load_data_queue,
        final(voxel_engine).unload_data_queue == old(voxel_engine).unload_data_queue,
        final(voxel_engine).unload_mesh_queue == old(voxel_engine).unload_mesh_queue,
        final(voxel_engine).data_tasks == old(voxel_engine).data_tasks,
        final(voxel_engine).mesh_tasks == old(voxel_engine).mesh_tasks,
        final(voxel_engine).lod == old(voxel_engine).lod,
        final(voxel_engine).world_data@.dom() == old(voxel_engine).world_data@.dom(),
        forall|position: ChunkPosition| #[trigger]
            old(voxel_engine).world_data@.contains_key(position) ==> {
                &&& final(voxel_engine).world_data@[position].position() == old(
                    voxel_engine,
                ).world_data@[position].position()
                &&& final(voxel_engine).world_data@[position]@ == edited_voxels(
                    old(voxel_engine).world_data@,
                    chunk_modifications@,
                    chunk_modifications.len() as int,
                    position,
                )
            },
        final(voxel_engine).load_mesh_queue@ == old(voxel_engine).load_mesh_queue@
            + remesh_requests(
            old(voxel_engine).world_data@,
            chunk_modifications@,
            chunk_modifications.len() as int,
        ),
{
    let ghost world = voxel_engine.world_data@;
    let ghost queue = voxel_engine.load_mesh_queue@;
    let mut i: usize = 0;
    while i < chunk_modifications.len()
        invariant
            i <= chunk_modifications.len(),
            forall|k: int|
                0 <= k < chunk_modifications.len() ==> edits_in_chunk(
                    (#[trigger] chunk_modifications[k]).1@,
                ),
            voxel_engine.load_data_queue == old(voxel_engine).load_data_queue,
            voxel_engine.unload_data_queue == old(voxel_engine).unload_data_queue,
            voxel_engine.unload_mesh_queue == old(voxel_engine).unload_mesh_queue,
            voxel_engine.data_tasks == old(voxel_engine).data_tasks,
            voxel_engine.mesh_tasks == old(voxel_engine).mesh_tasks,
            voxel_engine.lod == old(voxel_engine).lod,
            world == old(voxel_engine).world_data@,
            queue == old(voxel_engine).load_mesh_queue@,
            voxel_engine.world_data@.dom() == world.dom(),
            forall|position: ChunkPosition| #[trigger]
                world.contains_key(position) ==> {
                    &&& voxel_engine.world_data@[position].position()
                        == world[position].position()
                    &&& voxel_engine.world_data@[position]@ == edited_voxels(
                        world,
                        chunk_modifications@,
                        i as int,
                        position,
                    )
                },
            voxel_engine.load_mesh_queue@ == queue + remesh_requests(
                world,
                chunk_modifications@,
                i as int,
            ),
        decreases chunk_modifications.len() - i,
    {
        let pos = chunk_modifications[i].0;
        let mods = &chunk_modifications[i].1;
        assert(edits_in_chunk(chunk_modifications[i as int].1@));
        // only a resident chunk can be edited
        match voxel_engine.world_data.get(pos) {
            Some(chunk_data) => {
                let ghost before_world = voxel_engine.world_data@;
                let ghost before_queue = voxel_engine.load_mesh_queue@;
                let (new_chunk_data, adj_chunk_set) = edit_chunk(&chunk_data, mods);
                voxel_engine.world_data.insert(pos, new_chunk_data);
                proof {
                    assert(voxel_engine.world_data@.dom() =~= world.dom());
                }
                let mut a: usize = 0;
                while a < adj_chunk_set.len()
                    invariant
                        a <= adj_chunk_set.len(),
                        voxel_engine.load_data_queue == old(voxel_engine).load_data_queue,
                        voxel_engine.unload_data_queue == old(voxel_engine).unload_data_queue,
                        voxel_engine.unload_mesh_queue == old(voxel_engine).unload_mesh_queue,
                        voxel_engine.data_tasks == old(voxel_engine).data_tasks,
                        voxel_engine.mesh_tasks == old(voxel_engine).mesh_tasks,
                        voxel_engine.lod == old(voxel_engine).lod,
                        voxel_engine.world_data@ == before_world.insert(pos, new_chunk_data),
                        voxel_engine.load_mesh_queue@ == before_queue + around(
                            pos,
                            adj_chunk_set@,
                            a as int,
                        ),
                    decreases adj_chunk_set.len() - a,
                {
                    match pos.checked_add(adj_chunk_set[a]) {
                        Some(adj_chunk) => {
                            voxel_engine.load_mesh_queue.push(adj_chunk);
                        },
                        None => {},
                    }
                    a += 1;
                    proof {
                        assert(voxel_engine.load_mesh_queue@ =~= before_queue + around(
                            pos,
                            adj_chunk_set@,
                            a as int,
                        ));
                    }
                }
                voxel_engine.load_mesh_queue.push(pos);
                proof {
                    assert(voxel_engine.load_mesh_queue@ =~= queue + remesh_requests(
                        world,
                        chunk_modifications@,
                        i + 1,
                    ));
                }
            },
            None => {},
        }
        i += 1;
    }
}

} // verus!
