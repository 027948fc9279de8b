//! The queues of the chunk loader and what it takes off them each frame.

use vstd::prelude::*;
use crate::coord_set::CoordSet;
use crate::position::ChunkPosition;
use crate::queue::admission_count;
use crate::queue::sort_by_distance;
use crate::queue::sorted_by_distance;
use crate::queue::take_all;
use crate::queue::take_front;
use crate::queue::tasks_left;

verus! {

pub const MAX_WORLDGEN_TASKS: usize = 64;

pub const MAX_MESH_TASKS: usize = 32;

/// The work that waits, and the coordinates that tasks are in flight for.
pub struct AsyncChunkloader {
    pub load_chunk_queue: Vec<ChunkPosition>,
    pub unload_chunk_queue: Vec<ChunkPosition>,
    pub load_mesh_queue: Vec<ChunkPosition>,
    pub unload_mesh_queue: Vec<ChunkPosition>,
    pub worldgen_tasks: CoordSet,
    pub mesh_tasks: CoordSet,
}

impl Default for AsyncChunkloader {
    fn default() -> (loader: Self)
        ensures
            loader.load_chunk_queue@.len() == 0,
            loader.unload_chunk_queue@.len() == 0,
            loader.load_mesh_queue@.len() == 0,
            loader.unload_mesh_queue@.len() == 0,
            loader.worldgen_tasks@ == Set::<ChunkPosition>::empty(),
            loader.mesh_tasks@ == Set::<ChunkPosition>::empty(),
    {
        AsyncChunkloader::new()
    }
}

impl AsyncChunkloader {
    /// A loader with empty queues and no task in flight.
    #[must_use]
    pub fn new() -> (loader: Self)
        ensures
            loader.load_chunk_queue@.len() == 0,
            loader.unload_chunk_queue@.len() == 0,
            loader.load_mesh_queue@.len() == 0,
            loader.unload_mesh_queue@.len() == 0,
            loader.worldgen_tasks@ == Set::<ChunkPosition>::empty(),
            loader.mesh_tasks@ == Set::<ChunkPosition>::empty(),
    {
        AsyncChunkloader {
            load_chunk_queue: Vec::new(),
            unload_chunk_queue: Vec::new(),
            load_mesh_queue: Vec::new(),
            unload_mesh_queue: Vec::new(),
            worldgen_tasks: CoordSet::new(),
            mesh_tasks: CoordSet::new(),
        }
    }

    /// True when `other` has the unload queues and the in-flight sets of
    /// this loader.
    pub open spec fn same_rest(&self, other: &AsyncChunkloader) -> bool {
        &&& other.unload_chunk_queue == self.unload_chunk_queue
        &&& other.unload_mesh_queue == self.unload_mesh_queue
        &&& other.worldgen_tasks == self.worldgen_tasks
        &&& other.mesh_tasks == self.mesh_tasks
    }

    /// Takes the chunks to generate off the load queue: the nearest to the
    /// player, as many as fit beside the generation tasks in flight.
    pub fn get_chunks_to_load(&mut self, player_chunk_position: ChunkPosition) -> (to_load: Vec<
        ChunkPosition,
    >)
        ensures
            old(self).same_rest(final(self)),
            final(self).load_mesh_queue == old(self).load_mesh_queue,
            to_load.len() == admission_count(
                MAX_WORLDGEN_TASKS as int,
                old(self).worldgen_tasks@.len() as int,
                old(self).load_chunk_queue.len() as int,
            ),
            sorted_by_distance(
                old(self).load_chunk_queue@,
                to_load@ + final(self).load_chunk_queue@,
                player_chunk_position,
            ),
    {
        let tasks_left = tasks_left(
            MAX_WORLDGEN_TASKS,
            self.worldgen_tasks.len(),
            self.load_chunk_queue.len(),
        );
        sort_by_distance(&mut self.load_chunk_queue, player_chunk_position);
        let ghost sorted = self.load_chunk_queue@;
        proof {
            sorted.to_multiset_ensures();
            old(self).load_chunk_queue@.to_multiset_ensures();
        }
        let to_load = take_front(&mut self.load_chunk_queue, tasks_left);
        proof {
            assert(to_load@ + self.load_chunk_queue@ =~= sorted);
        }
        to_load
    }

    /// Takes every chunk to unload off the unload queue.
    pub fn get_chunks_to_unload(&mut self) -> (to_unload: Vec<ChunkPosition>)
        ensures
            to_unload@ == old(self).unload_chunk_queue@,
            final(self).unload_chunk_queue@.len() == 0,
            final(self).load_chunk_queue == old(self).load_chunk_queue,
            final(self).load_mesh_queue == old(self).load_mesh_queue,
            final(self).unload_mesh_queue == old(self).unload_mesh_queue,
            final(self).worldgen_tasks == old(self).worldgen_tasks,
            final(self).mesh_tasks == old(self).mesh_tasks,
    {
        take_all(&mut self.unload_chunk_queue)
    }

    /// Takes the chunks to mesh off the mesh queue: the nearest to the
    /// player, as many as fit beside the meshing tasks in flight.
    pub fn get_chunks_to_mesh(&mut self, player_chunk_position: ChunkPosition) -> (to_mesh: Vec<
        ChunkPosition,
    >)
        ensures
            old(self).same_rest(final(self)),
            final(self).load_chunk_queue == old(self).load_chunk_queue,
            to_mesh.len() == admission_count(
                MAX_MESH_TASKS as int,
                old(self).mesh_tasks@.len() as int,
                old(self).load_mesh_queue.len() as int,
            ),
            sorted_by_distance(
                old(self).load_mesh_queue@,
                to_mesh@ + final(self).load_mesh_queue@,
                player_chunk_position,
            ),
    {
        let tasks_left = tasks_left(
            MAX_MESH_TASKS,
            self.mesh_tasks.len(),
            self.load_mesh_queue.len(),
        );
        sort_by_distance(&mut self.load_mesh_queue, player_chunk_position);
        let ghost sorted = self.load_mesh_queue@;
        proof {
            sorted.to_multiset_ensures();
            old(self).load_mesh_queue@.to_multiset_ensures();
        }
        let to_mesh = take_front(&mut self.load_mesh_queue, tasks_left);
        proof {
            assert(to_mesh@ + self.load_mesh_queue@ =~= sorted);
        }
        to_mesh
    }

    /// Takes every chunk to unmesh off the mesh unload queue.
    pub fn get_chunks_to_unmesh(&mut self) -> (to_unmesh: Vec<ChunkPosition>)
        ensures
            to_unmesh@ == old(self).unload_mesh_queue@,
            final(self).unload_mesh_queue@.len() == 0,
            final(self).load_chunk_queue == old(self).load_chunk_queue,
            final(self).unload_chunk_queue == old(self).unload_chunk_queue,
            final(self).load_mesh_queue == old(self).load_mesh_queue,
            final(self).worldgen_tasks == old(self).worldgen_tasks,
            final(self).mesh_tasks == old(self).mesh_tasks,
    {
        take_all(&mut self.unload_mesh_queue)
    }
}

} // verus!
