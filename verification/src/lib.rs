//! Turns the joint hierarchy of a skinned model into a voxel scene: one box per
//! bone, each placed in an append-ordered scene graph of transform, group and
//! shape records.
//!
//! All arithmetic is on whole numbers. Joint positions are whole voxels; box
//! centres, half-extents and translations are counted in half voxels, the unit
//! in which the midpoint of two joint positions is always a whole number.

pub mod vector;
pub mod rotation;
pub mod decimal;
pub mod transform;
pub mod error;
pub mod skeleton;
pub mod walker;
pub mod scene;
pub mod export;
pub mod pipeline;
