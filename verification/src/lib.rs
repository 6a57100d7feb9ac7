//! Surface meshing for voxel terrain.
//!
//! A density field classifies every integer lattice point as solid or empty,
//! from Perlin noise of a fixed seed. A chunk is a cube of voxels; meshing a
//! chunk emits one quad for every face of a solid voxel that is not hidden
//! behind another solid voxel, so that only the outer shell of the terrain is
//! drawn. Because hidden faces are decided against the field itself and never
//! against chunk-local data, neighbouring chunks agree along their seams
//! without exchanging anything.
//!
//! All geometry is kept on the integer lattice: positions are voxel corners,
//! normals are axis-aligned unit vectors, and indices are 32-bit. Sampling
//! the noise is the one step that needs floating-point arithmetic; the field
//! leaves it to a classifier that its owner supplies.

pub mod density;
pub mod exposure;
pub mod geometry;
pub mod grid;
pub mod mesh;
pub mod mesher;

pub use density::{DensityField, DEFAULT_SEED};
pub use geometry::{Face, Point3, Vec3i};
pub use grid::{Placement, TerrainGrid, DEFAULT_RENDER_DISTANCE, MAX_RENDER_DISTANCE};
pub use mesh::{MeshBuffers, MeshView, VoxelFace};
pub use mesher::{mesh_chunk, DEFAULT_CHUNK_SIZE, MAX_CHUNK_SIZE};
