//! A sparse, hierarchical voxel storage engine.
//!
//! Space is an unbounded 3D integer grid of blocks, organised as a 64-ary
//! subdivision tree: every tree level splits each axis by 4, so a parent
//! holds 4 x 4 x 4 = 64 children.  The crate provides
//! the coordinate codec that moves positions between tree levels, the
//! fixed-size leaf containers with their occupancy summaries, and a
//! slot-map arena that keys top-level containers by position with stable
//! slot indices and free-slot reuse.

pub mod block;
pub mod block_server;
pub mod chunkgen;
pub mod codec;
pub mod control;
pub mod dimension;
pub mod grid;
pub mod pos;
pub mod sector;
pub mod tile;
pub mod tree64;
