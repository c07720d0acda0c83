//! The integer lattice that voxels live on.
use vstd::prelude::*;

verus! {

/// A voxel, named by its lattice coordinates.
#[derive(Clone, Copy, Debug, PartialEq, Eq, Structural)]
pub struct Point {
    pub x: i32,
    pub y: i32,
    pub z: i32,
}

} // verus!
