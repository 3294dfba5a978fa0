//! Core data model of a block-based voxel renderer: dense chunk storage with a
//! deterministic 3D-to-1D flattening, visible-face extraction, and triangle
//! index generation. The library exposes plain data (voxel grids, face lists,
//! index lists); GPU upload and drawing are left to an outside collaborator.

pub mod chunk;
pub mod extract;
pub mod face;
pub mod indices;
pub mod voxel;
pub mod world;

pub use chunk::CHUNK_HEIGHT;
pub use chunk::CHUNK_LENGTH;
pub use chunk::CHUNK_VOLUME;
pub use chunk::CHUNK_WIDTH;
pub use chunk::Chunk;
pub use chunk::ChunkError;
pub use face::DIR_DOWN;
pub use face::DIR_EAST;
pub use face::DIR_NORTH;
pub use face::DIR_SOUTH;
pub use face::DIR_UP;
pub use face::DIR_WEST;
pub use face::Face;
pub use face::INDICES_PER_FACE;
pub use face::VERTICES_PER_FACE;
pub use voxel::Voxel;
pub use world::WORLD_CHUNKS;
pub use world::WORLD_LENGTH;
pub use world::WORLD_WIDTH;
pub use world::World;
