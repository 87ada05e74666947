//! Voxel-engine core: an octree region allocator for a texture atlas,
//! a tile-based atlas allocator with explicit reference counting,
//! block and space triangulation over exact rational coordinates, and a
//! chunked space mesh that is updated incrementally under a per-frame
//! budget, driven by change notifications.

pub mod alloctree;
pub mod atlas;
pub mod block;
pub mod chunked;
pub mod color;
pub mod grid_array;
pub mod math;
pub mod rotation;
pub mod space;
pub mod triangulator;
