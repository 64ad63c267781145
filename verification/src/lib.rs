//! Chunked voxel terrain: activation grids, neighbour-aware face culling and
//! the assembly of surface meshes.

pub mod block;
pub mod chunk;
pub mod face;
pub mod index;
pub mod keys;
pub mod mesh_data;
mod par;
pub mod vec3;
pub mod world;
