//! The scanner identifies what chunks need to be loaded (mesh/data) around
//! a viewer, and what chunks are no longer needed.

use vstd::prelude::*;
use crate::chunk::ChunkData;
use crate::chunks_refs::neighborhood_resident;
use crate::chunks_refs::resident_around;
use crate::chunks_refs::slot_offset;
use crate::chunks_refs::NEIGHBORHOOD;
use crate::coord_set::CoordSet;
use crate::position::ChunkPosition;
use crate::queue::is_queued;
use crate::queue::outside;
use crate::queue::remove_first;
use crate::queue::retain_outside;
use crate::queue::sort_by_distance;
use crate::queue::sorted_by_distance;
use crate::queue::take_all;
use crate::queue::take_front;
use crate::queue::without_first;
use crate::utils::index_to_coords;
use crate::utils::index_to_ivec3_bounds;
use crate::voxel_engine::VoxelEngine;
use crate::voxel_engine::around;
use crate::voxel_engine::insert_all;
use crate::world_map::Chunks;

verus! {

/// While this many generation tasks are in flight, no chunk is queued for
/// generation.
pub const MAX_DATA_TASKS: usize = 9;

pub const MAX_MESH_TASKS: usize = 3;

/// Most pending loads that are looked at in one step.
pub const MAX_SCANS: usize = 26000;

/// The greatest distance for which the offsets can be counted in an `i32`.
pub const MAX_SCAN_DISTANCE: i32 = 644;

pub struct Scanner {
    pub prev_chunk_pos: ChunkPosition,
    /// how many chunks we visit
    pub checks_per_frame: usize,
    /// offset grid sampling over frames
    pub data_offset: usize,
    /// offset grid sampling over frames
    pub mesh_offset: usize,
    // chunk positions we are yet to check whether we need to load
    pub unresolved_data_load: Vec<ChunkPosition>,
    pub unresolved_mesh_load: Vec<ChunkPosition>,
    // chunk positions we are yet to check whether we need to unload
    pub unresolved_data_unload: Vec<ChunkPosition>,
    pub unresolved_mesh_unload: Vec<ChunkPosition>,
    // on detecting a scanner move, these offsets are used to
    // identify the location of what chunks need to be checked
    pub data_sampling_offsets: Vec<ChunkPosition>,
    pub mesh_sampling_offsets: Vec<ChunkPosition>,
}

/// The coordinate that all distances are zero at.
pub open spec fn zero() -> ChunkPosition {
    ChunkPosition { x: 0, y: 0, z: 0 }
}

/// The offsets of a cube of `2 * half + 1` chunks a side around its centre
/// chunk, x varying fastest. There are none for a negative `half`.
pub open spec fn cube_offsets(half: int) -> Seq<ChunkPosition> {
    let k = 2 * half + 1;
    if half < 0 {
        Seq::empty()
    } else {
        Seq::new(
            (k * k * k) as nat,
            |i: int|
                {
                    let c = index_to_coords(i, k);
                    ChunkPosition {
                        x: (c.0 - half) as i32,
                        y: (c.1 - half) as i32,
                        z: (c.2 - half) as i32,
                    }
                },
        )
    }
}

proof fn lemma_cube_fits(half: int)
    by (nonlinear_arith)
    requires
        0 <= half <= 644,
    ensures
        0 < (2 * half + 1) * (2 * half + 1) <= 1661521,
        0 < (2 * half + 1) * (2 * half + 1) * (2 * half + 1) <= 2141700569,
{
}

proof fn lemma_coords_fit(i: int, k: int)
    by (nonlinear_arith)
    requires
        0 < k,
        0 <= i < k * k * k,
    ensures
        0 <= i % k < k,
        0 <= (i / k) % k < k,
        0 <= i / (k * k) < k,
{
}

/// constructs the chunk positions of a cube with the provided chunk
/// radius, nearest to the centre first
#[must_use]
pub fn make_offset_vec(half: i32) -> (sampling_offsets: Vec<ChunkPosition>)
    requires
        half <= MAX_SCAN_DISTANCE,
    ensures
        sorted_by_distance(cube_offsets(half as int), sampling_offsets@, zero()),
{
    let mut sampling_offsets: Vec<ChunkPosition> = Vec::new();
    if half >= 0 {
        proof {
            lemma_cube_fits(half as int);
        }
        let k: i32 = (half * 2) + 1;
        let count: i32 = k * k * k;
        let mut i: i32 = 0;
        while i < count
            invariant
                0 <= half <= 644,
                k == 2 * half + 1,
                count == k * k * k,
                0 < k * k <= 1661521,
                0 <= i <= count,
                sampling_offsets@ == cube_offsets(half as int).take(i as int),
            decreases count - i,
        {
            proof {
                lemma_coords_fit(i as int, k as int);
            }
            let pos = index_to_ivec3_bounds(i, k);
            sampling_offsets.push(ChunkPosition::new(pos.x - half, pos.y - half, pos.z - half));
            i += 1;
            proof {
                assert(sampling_offsets@ =~= cube_offsets(half as int).take(i as int));
            }
        }
        proof {
            assert(sampling_offsets@ =~= cube_offsets(half as int));
        }
    }
    sort_by_distance(&mut sampling_offsets, ChunkPosition::new(0, 0, 0));
    sampling_offsets
}

impl Scanner {
    /// construct scanner, chunk offsets are based on distance: chunks are
    /// meshed up to `distance` chunks away and generated one chunk further.
    /// warning: slow execution time on distances above 15-20,
    #[must_use]
    pub fn new(distance: i32) -> (scanner: Self)
        requires
            distance < MAX_SCAN_DISTANCE,
        ensures
            scanner.checks_per_frame == 32 * 32 * 32,
            scanner.data_offset == 0,
            scanner.mesh_offset == 0,
            scanner.prev_chunk_pos == (ChunkPosition { x: 777, y: 777, z: 777 }),
            scanner.unresolved_data_load@.len() == 0,
            scanner.unresolved_mesh_load@.len() == 0,
            scanner.unresolved_data_unload@.len() == 0,
            scanner.unresolved_mesh_unload@.len() == 0,
            sorted_by_distance(cube_offsets(distance + 1), scanner.data_sampling_offsets@, zero()),
            sorted_by_distance(
                cube_offsets(distance as int),
                scanner.mesh_sampling_offsets@,
                zero(),
            ),
    {
        let data_distance = distance + 1;
        let mesh_distance = distance;
        let data_sampling_offsets = make_offset_vec(data_distance);
        let mesh_sampling_offsets = make_offset_vec(mesh_distance);
        Scanner {
            checks_per_frame: 32 * 32 * 32,
            data_offset: 0,
            data_sampling_offsets,
            mesh_sampling_offsets,
            mesh_offset: 0,
            unresolved_data_load: Vec::new(),
            prev_chunk_pos: ChunkPosition::new(777, 777, 777),
            unresolved_mesh_load: Vec::new(),
            unresolved_data_unload: Vec::new(),
            unresolved_mesh_unload: Vec::new(),
        }
    }
}

/// The load queue and the unload queue after the first `n` of `items` were
/// looked at for loading: an item that is neither resident nor queued nor
/// in flight is queued for loading, and is taken off the unload queue.
pub open spec fn data_requests(
    world: Map<ChunkPosition, ChunkData>,
    in_flight: Set<ChunkPosition>,
    load: Seq<ChunkPosition>,
    unload: Seq<ChunkPosition>,
    items: Seq<ChunkPosition>,
    n: int,
) -> (Seq<ChunkPosition>, Seq<ChunkPosition>)
    decreases n,
{
    if n <= 0 {
        (load, unload)
    } else {
        let before = data_requests(world, in_flight, load, unload, items, n - 1);
        let p = items[n - 1];
        if world.contains_key(p) || before.0.contains(p) || in_flight.contains(p) {
            before
        } else {
            (before.0.push(p), without_first(before.1, p))
        }
    }
}

/// The number of pending loads to look at in one step.
pub open spec fn scan_count(pending: int) -> int {
    if pending < MAX_SCANS {
        pending
    } else {
        MAX_SCANS as int
    }
}

/// Looks at the pending loads, nearest first and at most `MAX_SCANS` of
/// them, and queues for generation those that are neither resident nor
/// queued nor being generated; a queued chunk is not unloaded. Nothing
/// happens while `MAX_DATA_TASKS` generation tasks are in flight.
pub fn scan_data(scanner: &mut Scanner, voxel_engine: &mut VoxelEngine)
    ensures
        old(voxel_engine).same_meshing(final(voxel_engine)),
        final(voxel_engine).world_data == old(voxel_engine).world_data,
        final(voxel_engine).data_tasks == old(voxel_engine).data_tasks,
        final(scanner).prev_chunk_pos == old(scanner).prev_chunk_pos,
        final(scanner).checks_per_frame == old(scanner).checks_per_frame,
        final(scanner).data_offset == old(scanner).data_offset,
        final(scanner).mesh_offset == old(scanner).mesh_offset,
        final(scanner).unresolved_mesh_load == old(scanner).unresolved_mesh_load,
        final(scanner).unresolved_data_unload == old(scanner).unresolved_data_unload,
        final(scanner).unresolved_mesh_unload == old(scanner).unresolved_mesh_unload,
        final(scanner).data_sampling_offsets == old(scanner).data_sampling_offsets,
        final(scanner).mesh_sampling_offsets == old(scanner).mesh_sampling_offsets,
        old(voxel_engine).data_tasks@.len() >= MAX_DATA_TASKS ==> {
            &&& final(scanner).unresolved_data_load == old(scanner).unresolved_data_load
            &&& final(voxel_engine).load_data_queue == old(voxel_engine).load_data_queue
            &&& final(voxel_engine).unload_data_queue == old(voxel_engine).unload_data_queue
        },
        old(voxel_engine).data_tasks@.len() < MAX_DATA_TASKS ==> {
            let n = scan_count(old(scanner).unresolved_data_load.len() as int);
            let queues = data_requests(
                old(voxel_engine).world_data@,
                old(voxel_engine).data_tasks@,
                old(voxel_engine).load_data_queue@,
                old(voxel_engine).unload_data_queue@,
                old(scanner).unresolved_data_load@,
                n,
            );
            &&& final(scanner).unresolved_data_load@ == old(scanner).unresolved_data_load@.skip(n)
            &&& final(voxel_engine).load_data_queue@ == queues.0
            &&& final(voxel_engine).unload_data_queue@ == queues.1
        },
{
    if voxel_engine.data_tasks.len() >= MAX_DATA_TASKS {
        return ;
    }
    let l = scanner.unresolved_data_load.len();
    let count = if MAX_SCANS < l {
        MAX_SCANS
    } else {
        l
    };
    let items = take_front(&mut scanner.unresolved_data_load, count);
    let mut i: usize = 0;
    while i < items.len()
        invariant
            i <= items.len(),
            old(voxel_engine).same_meshing(voxel_engine),
            voxel_engine.world_data == old(voxel_engine).world_data,
            voxel_engine.data_tasks == old(voxel_engine).data_tasks,
            items@ == old(scanner).unresolved_data_load@.take(count as int),
            count <= old(scanner).unresolved_data_load.len(),
            voxel_engine.load_data_queue@ == data_requests(
                old(voxel_engine).world_data@,
                old(voxel_engine).data_tasks@,
                old(voxel_engine).load_data_queue@,
                old(voxel_engine).unload_data_queue@,
                old(scanner).unresolved_data_load@,
                i as int,
            ).0,
            voxel_engine.unload_data_queue@ == data_requests(
                old(voxel_engine).world_data@,
                old(voxel_engine).data_tasks@,
                old(voxel_engine).load_data_queue@,
                old(voxel_engine).unload_data_queue@,
                old(scanner).unresolved_data_load@,
                i as int,
            ).1,
        decreases items.len() - i,
    {
        let chunk_pos = items[i];
        assert(chunk_pos == old(scanner).unresolved_data_load@[i as int]);
        // want to load chunk
        let is_busy = voxel_engine.world_data.contains_key(chunk_pos) || is_queued(
            &voxel_engine.load_data_queue,
            chunk_pos,
        ) || voxel_engine.data_tasks.contains(chunk_pos);
        if !is_busy {
            voxel_engine.load_data_queue.push(chunk_pos);
            // abort unload
            remove_first(&mut voxel_engine.unload_data_queue, chunk_pos);
        }
        i += 1;
    }
}

/// Queues for unloading every pending unload that is resident.
pub fn scan_data_unload(scanner: &mut Scanner, voxel_engine: &mut VoxelEngine)
    ensures
        old(voxel_engine).same_meshing(final(voxel_engine)),
        final(voxel_engine).world_data == old(voxel_engine).world_data,
        final(voxel_engine).data_tasks == old(voxel_engine).data_tasks,
        final(voxel_engine).load_data_queue == old(voxel_engine).load_data_queue,
        final(scanner).prev_chunk_pos == old(scanner).prev_chunk_pos,
        final(scanner).checks_per_frame == old(scanner).checks_per_frame,
        final(scanner).data_offset == old(scanner).data_offset,
        final(scanner).mesh_offset == old(scanner).mesh_offset,
        final(scanner).unresolved_data_load == old(scanner).unresolved_data_load,
        final(scanner).unresolved_mesh_load == old(scanner).unresolved_mesh_load,
        final(scanner).unresolved_mesh_unload == old(scanner).unresolved_mesh_unload,
        final(scanner).data_sampling_offsets == old(scanner).data_sampling_offsets,
        final(scanner).mesh_sampling_offsets == old(scanner).mesh_sampling_offsets,
        final(scanner).unresolved_data_unload@.len() == 0,
        final(voxel_engine).unload_data_queue@ == old(voxel_engine).unload_data_queue@ + old(
            scanner,
        ).unresolved_data_unload@.filter(
            |p: ChunkPosition| old(voxel_engine).world_data@.contains_key(p),
        ),
{
    let items = take_all(&mut scanner.unresolved_data_unload);
    let ghost resident = |p: ChunkPosition| old(voxel_engine).world_data@.contains_key(p);
    let mut i: usize = 0;
    while i < items.len()
        invariant
            i <= items.len(),
            old(voxel_engine).same_meshing(voxel_engine),
            voxel_engine.world_data == old(voxel_engine).world_data,
            voxel_engine.data_tasks == old(voxel_engine).data_tasks,
            voxel_engine.load_data_queue == old(voxel_engine).load_data_queue,
            resident == (|p: ChunkPosition| old(voxel_engine).world_data@.contains_key(p)),
            voxel_engine.unload_data_queue@ == old(voxel_engine).unload_data_queue@ + items@.take(
                i as int,
            ).filter(resident),
        decreases items.len() - i,
    {
        let chunk_pos = items[i];
        proof {
            assert(items@.take(i + 1) =~= items@.take(i as int).push(chunk_pos));
            items@.take(i as int).lemma_filter_push(chunk_pos, resident);
        }
        if voxel_engine.world_data.contains_key(chunk_pos) {
            voxel_engine.unload_data_queue.push(chunk_pos);
        }
        proof {
            assert(voxel_engine.unload_data_queue@ =~= old(voxel_engine).unload_data_queue@
                + items@.take(i + 1).filter(resident));
        }
        i += 1;
    }
    proof {
        assert(items@.take(items.len() as int) =~= items@);
    }
}

/// Queues every pending mesh unload.
pub fn scan_mesh_unload(scanner: &mut Scanner, voxel_engine: &mut VoxelEngine)
    ensures
        old(voxel_engine).same_data(final(voxel_engine)),
        final(voxel_engine).load_mesh_queue == old(voxel_engine).load_mesh_queue,
        final(voxel_engine).mesh_tasks == old(voxel_engine).mesh_tasks,
        final(scanner).prev_chunk_pos == old(scanner).prev_chunk_pos,
        final(scanner).checks_per_frame == old(scanner).checks_per_frame,
        final(scanner).data_offset == old(scanner).data_offset,
        final(scanner).mesh_offset == old(scanner).mesh_offset,
        final(scanner).unresolved_data_load == old(scanner).unresolved_data_load,
        final(scanner).unresolved_mesh_load == old(scanner).unresolved_mesh_load,
        final(scanner).unresolved_data_unload == old(scanner).unresolved_data_unload,
        final(scanner).data_sampling_offsets == old(scanner).data_sampling_offsets,
        final(scanner).mesh_sampling_offsets == old(scanner).mesh_sampling_offsets,
        final(scanner).unresolved_mesh_unload@.len() == 0,
        final(voxel_engine).unload_mesh_queue@ == old(voxel_engine).unload_mesh_queue@ + old(
            scanner,
        ).unresolved_mesh_unload@,
{
    let mut items = take_all(&mut scanner.unresolved_mesh_unload);
    voxel_engine.unload_mesh_queue.append(&mut items);
}

/// Whether the chunk at `center` and all 26 neighbours are resident.
#[must_use]
pub fn is_neighborhood_resident(chunks: &Chunks, center: ChunkPosition) -> (r: bool)
    ensures
        r == neighborhood_resident(chunks@, center),
{
    let mut slot: usize = 0;
    while slot < NEIGHBORHOOD
        invariant
            slot <= NEIGHBORHOOD,
            forall|s: int| 0 <= s < slot ==> resident_around(chunks@, center, s),
        decreases NEIGHBORHOOD - slot,
    {
        let offset = ChunkPosition::new(
            (slot % 3) as i32 - 1,
            ((slot / 3) % 3) as i32 - 1,
            (slot / 9) as i32 - 1,
        );
        assert(offset == slot_offset(slot as int));
        let resident = match center.checked_add(offset) {
            Some(position) => chunks.contains_key(position),
            None => false,
        };
        if !resident {
            assert(!resident_around(chunks@, center, slot as int));
            return false;
        }
        slot += 1;
    }
    true
}

/// The mesh queue, the mesh unload queue and the items to look at again,
/// after the first `n` of `items` were looked at for meshing: an item that
/// is not queued and whose neighbourhood is resident is queued for meshing,
/// and is taken off the unload queue; any other is looked at again later.
pub open spec fn mesh_requests(
    world: Map<ChunkPosition, ChunkData>,
    load: Seq<ChunkPosition>,
    unload: Seq<ChunkPosition>,
    items: Seq<ChunkPosition>,
    n: int,
) -> (Seq<ChunkPosition>, Seq<ChunkPosition>, Seq<ChunkPosition>)
    decreases n,
{
    if n <= 0 {
        (load, unload, Seq::empty())
    } else {
        let before = mesh_requests(world, load, unload, items, n - 1);
        let p = items[n - 1];
        if before.0.contains(p) || !neighborhood_resident(world, p) {
            (before.0, before.1, before.2.push(p))
        } else {
            (before.0.push(p), without_first(before.1, p), before.2)
        }
    }
}

/// Looks at the pending mesh loads, nearest first and at most `MAX_SCANS`
/// of them, and queues for meshing those whose neighbourhood is resident;
/// a queued chunk is not unmeshed. The others stay pending, behind those
/// that were not looked at.
pub fn scan_mesh(scanner: &mut Scanner, voxel_engine: &mut VoxelEngine)
    ensures
        old(voxel_engine).same_data(final(voxel_engine)),
        final(voxel_engine).mesh_tasks == old(voxel_engine).mesh_tasks,
        final(scanner).prev_chunk_pos == old(scanner).prev_chunk_pos,
        final(scanner).checks_per_frame == old(scanner).checks_per_frame,
        final(scanner).data_offset == old(scanner).data_offset,
        final(scanner).mesh_offset == old(scanner).mesh_offset,
        final(scanner).unresolved_data_load == old(scanner).unresolved_data_load,
        final(scanner).unresolved_data_unload == old(scanner).unresolved_data_unload,
        final(scanner).unresolved_mesh_unload == old(scanner).unresolved_mesh_unload,
        final(scanner).data_sampling_offsets == old(scanner).data_sampling_offsets,
        final(scanner).mesh_sampling_offsets == old(scanner).mesh_sampling_offsets,
        ({
            let n = scan_count(old(scanner).unresolved_mesh_load.len() as int);
            let queues = mesh_requests(
                old(voxel_engine).world_data@,
                old(voxel_engine).load_mesh_queue@,
                old(voxel_engine).unload_mesh_queue@,
                old(scanner).unresolved_mesh_load@,
                n,
            );
            &&& final(voxel_engine).load_mesh_queue@ == queues.0
            &&& final(voxel_engine).unload_mesh_queue@ == queues.1
            &&& final(scanner).unresolved_mesh_load@ == old(scanner).unresolved_mesh_load@.skip(n)
                + queues.2
        }),
{
    let mut retries: Vec<ChunkPosition> = Vec::new();
    let l = scanner.unresolved_mesh_load.len();
    let count = if MAX_SCANS < l {
        MAX_SCANS
    } else {
        l
    };
    let items = take_front(&mut scanner.unresolved_mesh_load, count);
    let mut i: usize = 0;
    while i < items.len()
        invariant
            i <= items.len(),
            old(voxel_engine).same_data(voxel_engine),
            voxel_engine.mesh_tasks == old(voxel_engine).mesh_tasks,
            items@ == old(scanner).unresolved_mesh_load@.take(count as int),
            count <= old(scanner).unresolved_mesh_load.len(),
            voxel_engine.load_mesh_queue@ == mesh_requests(
                old(voxel_engine).world_data@,
                old(voxel_engine).load_mesh_queue@,
                old(voxel_engine).unload_mesh_queue@,
                old(scanner).unresolved_mesh_load@,
                i as int,
            ).0,
            voxel_engine.unload_mesh_queue@ == mesh_requests(
                old(voxel_engine).world_data@,
                old(voxel_engine).load_mesh_queue@,
                old(voxel_engine).unload_mesh_queue@,
                old(scanner).unresolved_mesh_load@,
                i as int,
            ).1,
            retries@ == mesh_requests(
                old(voxel_engine).world_data@,
                old(voxel_engine).load_mesh_queue@,
                old(voxel_engine).unload_mesh_queue@,
                old(scanner).unresolved_mesh_load@,
                i as int,
            ).2,
        decreases items.len() - i,
    {
        let chunk_pos = items[i];
        assert(chunk_pos == old(scanner).unresolved_mesh_load@[i as int]);
        let mut busy = is_queued(&voxel_engine.load_mesh_queue, chunk_pos);
        // all data available
        busy = busy || !is_neighborhood_resident(&voxel_engine.world_data, chunk_pos);
        if busy {
            retries.push(chunk_pos);
        } else {
            voxel_engine.load_mesh_queue.push(chunk_pos);
            // abort unload
            remove_first(&mut voxel_engine.unload_mesh_queue, chunk_pos);
        }
        i += 1;
    }
    scanner.unresolved_mesh_load.append(&mut retries);
}

/// Those of the first `n` of `items` that are no members of `excluded`,
/// each once, in the order in which they first occur.
pub open spec fn fresh_outside(items: Seq<ChunkPosition>, excluded: Set<ChunkPosition>, n: int) -> Seq<
    ChunkPosition,
>
    decreases n,
{
    if n <= 0 {
        Seq::empty()
    } else {
        let before = fresh_outside(items, excluded, n - 1);
        let p = items[n - 1];
        if excluded.contains(p) || before.contains(p) {
            before
        } else {
            before.push(p)
        }
    }
}

/// The coordinates that a viewer at `center` wants: those that lie one of
/// `offsets` away.
pub open spec fn area(center: ChunkPosition, offsets: Seq<ChunkPosition>) -> Seq<ChunkPosition> {
    around(center, offsets, offsets.len() as int)
}

/// The coordinates that the viewer wants at `to` and did not want at `from`.
pub open spec fn entering(offsets: Seq<ChunkPosition>, to: ChunkPosition, from: ChunkPosition) -> Seq<
    ChunkPosition,
> {
    fresh_outside(area(to, offsets), area(from, offsets).to_set(), area(to, offsets).len() as int)
}

/// `queue` after the first occurrence of each of the first `n` of `items`
/// was taken off it, one item after the other.
pub open spec fn stripped(queue: Seq<ChunkPosition>, items: Seq<ChunkPosition>, n: int) -> Seq<
    ChunkPosition,
>
    decreases n,
{
    if n <= 0 {
        queue
    } else {
        without_first(stripped(queue, items, n - 1), items[n - 1])
    }
}

/// The pending unloads after the viewer went from `from` to `to`: what was
/// pending and is not wanted again, followed by what is wanted no longer.
pub open spec fn unloads_after(
    offsets: Seq<ChunkPosition>,
    to: ChunkPosition,
    from: ChunkPosition,
    pending_unload: Seq<ChunkPosition>,
) -> Seq<ChunkPosition> {
    outside(pending_unload, entering(offsets, to, from).to_set()) + entering(offsets, from, to)
}

/// True when the lists are those after the viewer went from `from` to
/// `to`. A coordinate that was to be unloaded and is wanted again is
/// unloaded no longer: it stays as it is. A coordinate that was to be
/// loaded and is to be unloaded now is loaded no longer, whether it is
/// pending or queued. The pending loads are in order of their distance
/// from the viewer.
pub open spec fn reconciled(
    offsets: Seq<ChunkPosition>,
    to: ChunkPosition,
    from: ChunkPosition,
    pending_load: Seq<ChunkPosition>,
    pending_unload: Seq<ChunkPosition>,
    load_queue: Seq<ChunkPosition>,
    new_pending_load: Seq<ChunkPosition>,
    new_pending_unload: Seq<ChunkPosition>,
    new_load_queue: Seq<ChunkPosition>,
) -> bool {
    let unloads = unloads_after(offsets, to, from, pending_unload);
    &&& new_pending_unload == unloads
    &&& sorted_by_distance(
        outside(pending_load + entering(offsets, to, from), unloads.to_set()),
        new_pending_load,
        to,
    )
    &&& new_load_queue == stripped(load_queue, unloads, unloads.len() as int)
}

/// The coordinates around `center`, as a list and as a set.
fn area_of(center: ChunkPosition, offsets: &Vec<ChunkPosition>) -> (r: (Vec<ChunkPosition>, CoordSet))
    ensures
        r.0@ == area(center, offsets@),
        r.1@ == r.0@.to_set(),
{
    let mut list: Vec<ChunkPosition> = Vec::new();
    let mut i: usize = 0;
    while i < offsets.len()
        invariant
            i <= offsets.len(),
            list@ == around(center, offsets@, i as int),
        decreases offsets.len() - i,
    {
        match center.checked_add(offsets[i]) {
            Some(position) => {
                list.push(position);
            },
            None => {},
        }
        i += 1;
    }
    let set = set_of(&list);
    (list, set)
}

/// The set of the entries of a list.
fn set_of(items: &Vec<ChunkPosition>) -> (set: CoordSet)
    ensures
        set@ == items@.to_set(),
{
    let mut set = CoordSet::new();
    insert_all(&mut set, items);
    proof {
        assert(set@ =~= items@.to_set());
    }
    set
}

/// The entries of `items` that are no members of `excluded`, each once.
fn outside_once(items: &Vec<ChunkPosition>, excluded: &CoordSet) -> (fresh: Vec<ChunkPosition>)
    ensures
        fresh@ == fresh_outside(items@, excluded@, items.len() as int),
{
    let mut fresh: Vec<ChunkPosition> = Vec::new();
    let mut seen = CoordSet::new();
    let mut i: usize = 0;
    while i < items.len()
        invariant
            i <= items.len(),
            fresh@ == fresh_outside(items@, excluded@, i as int),
            seen@ == fresh@.to_set(),
        decreases items.len() - i,
    {
        let p = items[i];
        if !excluded.contains(p) {
            let ghost before = fresh@;
            if seen.insert(p) {
                fresh.push(p);
                proof {
                    before.lemma_push_to_set_commute(p);
                }
            } else {
                proof {
                    assert(seen@ =~= before.to_set());
                }
            }
        }
        i += 1;
    }
    fresh
}

/// Takes the first occurrence of each of `items` off `queue`.
fn strip(queue: &mut Vec<ChunkPosition>, items: &Vec<ChunkPosition>)
    ensures
        final(queue)@ == stripped(old(queue)@, items@, items.len() as int),
{
    let mut i: usize = 0;
    while i < items.len()
        invariant
            i <= items.len(),
            queue@ == stripped(old(queue)@, items@, i as int),
        decreases items.len() - i,
    {
        remove_first(queue, items[i]);
        i += 1;
    }
}

/// Brings the lists of one kind of work (generation, or meshing) up to
/// date after the viewer went from `from` to `to`.
fn reconcile(
    offsets: &Vec<ChunkPosition>,
    to: ChunkPosition,
    from: ChunkPosition,
    pending_load: &mut Vec<ChunkPosition>,
    pending_unload: &mut Vec<ChunkPosition>,
    load_queue: &mut Vec<ChunkPosition>,
)
    ensures
        reconciled(
            offsets@,
            to,
            from,
            old(pending_load)@,
            old(pending_unload)@,
            old(load_queue)@,
            final(pending_load)@,
            final(pending_unload)@,
            final(load_queue)@,
        ),
{
    let (load_area, load_set) = area_of(to, offsets);
    let (unload_area, unload_set) = area_of(from, offsets);
    let mut wanted = outside_once(&load_area, &unload_set);
    let mut unwanted = outside_once(&unload_area, &load_set);
    let wanted_set = set_of(&wanted);

    // what is wanted again is not unloaded
    retain_outside(pending_unload, &wanted_set);
    pending_unload.append(&mut unwanted);
    let unload_now = set_of(pending_unload);

    // remove the unloads from load
    strip(load_queue, pending_unload);
    pending_load.append(&mut wanted);
    retain_outside(pending_load, &unload_now);
    sort_by_distance(pending_load, to);
}

/// True when `scanner` and `engine` are what `detect_move` makes of
/// `scanner0` and `engine0` for a viewer in the chunk at `chunk_pos`.
/// Nothing changes while the viewer stays in its chunk.
pub open spec fn moved(
    scanner0: Scanner,
    engine0: VoxelEngine,
    chunk_pos: ChunkPosition,
    scanner: Scanner,
    engine: VoxelEngine,
) -> bool {
    if chunk_pos == scanner0.prev_chunk_pos {
        scanner == scanner0 && engine == engine0
    } else {
        &&& scanner.prev_chunk_pos == chunk_pos
        &&& scanner.checks_per_frame == scanner0.checks_per_frame
        &&& scanner.data_offset == scanner0.data_offset
        &&& scanner.mesh_offset == scanner0.mesh_offset
        &&& scanner.data_sampling_offsets == scanner0.data_sampling_offsets
        &&& scanner.mesh_sampling_offsets == scanner0.mesh_sampling_offsets
        &&& engine.world_data == engine0.world_data
        &&& engine.unload_data_queue == engine0.unload_data_queue
        &&& engine.unload_mesh_queue == engine0.unload_mesh_queue
        &&& engine.data_tasks == engine0.data_tasks
        &&& engine.mesh_tasks == engine0.mesh_tasks
        &&& engine.lod == engine0.lod
        &&& reconciled(
            scanner0.data_sampling_offsets@,
            chunk_pos,
            scanner0.prev_chunk_pos,
            scanner0.unresolved_data_load@,
            scanner0.unresolved_data_unload@,
            engine0.load_data_queue@,
            scanner.unresolved_data_load@,
            scanner.unresolved_data_unload@,
            engine.load_data_queue@,
        )
        &&& reconciled(
            scanner0.mesh_sampling_offsets@,
            chunk_pos,
            scanner0.prev_chunk_pos,
            scanner0.unresolved_mesh_load@,
            scanner0.unresolved_mesh_unload@,
            engine0.load_mesh_queue@,
            scanner.unresolved_mesh_load@,
            scanner.unresolved_mesh_unload@,
            engine.load_mesh_queue@,
        )
    }
}

/// on scanner chunk change, enqueue chunks to load/unload
pub fn detect_move(scanner: &mut Scanner, voxel_engine: &mut VoxelEngine, chunk_pos: ChunkPosition)
    ensures
        moved(*old(scanner), *old(voxel_engine), chunk_pos, *final(scanner), *final(voxel_engine)),
{
    let previous_chunk_pos = scanner.prev_chunk_pos;
    let chunk_pos_changed = chunk_pos != scanner.prev_chunk_pos;
    if !chunk_pos_changed {
        return ;
    }
    scanner.prev_chunk_pos = chunk_pos;
    reconcile(
        &scanner.data_sampling_offsets,
        chunk_pos,
        previous_chunk_pos,
        &mut scanner.unresolved_data_load,
        &mut scanner.unresolved_data_unload,
        &mut voxel_engine.load_data_queue,
    );
    reconcile(
        &scanner.mesh_sampling_offsets,
        chunk_pos,
        previous_chunk_pos,
        &mut scanner.unresolved_mesh_load,
        &mut scanner.unresolved_mesh_unload,
        &mut voxel_engine.load_mesh_queue,
    );
}

/// Looking for a move twice, with the viewer in the same chunk both times,
/// changes nothing the second time: no entry is added to or taken off any
/// list.
pub proof fn lemma_detect_move_twice(
    scanner0: Scanner,
    engine0: VoxelEngine,
    chunk_pos: ChunkPosition,
    scanner1: Scanner,
    engine1: VoxelEngine,
    scanner2: Scanner,
    engine2: VoxelEngine,
)
    requires
        moved(scanner0, engine0, chunk_pos, scanner1, engine1),
        moved(scanner1, engine1, chunk_pos, scanner2, engine2),
    ensures
        scanner2 == scanner1,
        engine2 == engine1,
{
}

} // verus!
