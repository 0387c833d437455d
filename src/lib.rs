//! Voxel world core: chunk grids, terrain filling, face-culled meshing,
//! ray selection and chunk lifecycle around a moving observer.
pub mod blocks;
pub mod voxel;
pub mod store;
pub mod mesh;
pub mod raycast;
pub mod generator;
pub mod inventory;
pub mod config;
pub mod world;
pub mod physics;
pub mod render;
