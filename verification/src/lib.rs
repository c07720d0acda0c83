//! Keeps a third-person camera from being occluded by the voxels around its target.
pub mod config;
pub mod controller;
pub mod frame;
pub mod frame_laws;
pub mod lattice;
pub mod laws;
pub mod ranges;
pub mod selection;
pub mod step_laws;
