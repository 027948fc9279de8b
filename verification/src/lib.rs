//! Voxel world core: chunk storage, neighbourhood views, greedy meshing and
//! the bookkeeping that decides which chunks are loaded, meshed and evicted.

pub mod async_chunkloader;
pub mod chunk;
pub mod chunk_material;
pub mod chunks_refs;
pub mod color;
pub mod coord_set;
pub mod face_direction;
pub mod faces;
pub mod greedy_mesher_optimized;
pub mod lod;
pub mod mesh_cover;
pub mod plane_bins;
pub mod plane_cover;
pub mod position;
pub mod prototypes;
pub mod quad;
pub mod queue;
pub mod scanner;
pub mod utils;
pub mod voxel;
pub mod voxel_engine;
pub mod world_map;
