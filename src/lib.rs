//! A chunked voxel world: coordinates, chunk storage, terrain generation,
//! render meshes, collision shapes and the chunk lifecycle manager.
use vstd::prelude::*;

pub mod chunk;
pub mod collider;
pub mod coords;
pub mod gen_queue;
pub mod mesh;
mod random;
pub mod terrain;
pub mod voxel;
pub mod world;

verus! {

/// Edge length of a chunk, in blocks.
pub const CHUNK_SIZE: i32 = 16;

/// Number of blocks in one horizontal layer of a chunk.
pub const CHUNK_AREA: i32 = 256;

/// Number of blocks in a chunk.
pub const CHUNK_VOLUME: i32 = 4096;

/// Geometry is expressed in eighths of a block, so that every vertex of the
/// render and collision meshes has integer coordinates.
pub const UNITS_PER_BLOCK: i32 = 8;

} // verus!
