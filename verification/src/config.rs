//! Tuning of the camera collision controller.
use vstd::prelude::*;

verus! {

/// Constant parameters for tuning the camera collision controller. `S` is the type of lengths in
/// world space.
#[derive(Debug, PartialEq)]
pub struct CameraCollisionConfig<S> {
    /// Size of the collidable ball surrounding the camera.
    pub ball_radius: S,
    /// The smallest orthogonal deviation from the eye line that's considered a significant
    /// obstruction.
    pub min_obstruction_width: S,
    /// The minimum distance of a range along the eye line. This prevents ranges that are too small
    /// to give the camera sphere enough room to move.
    pub min_range_length: S,
    /// The cutoff distance below which we don't even try doing a camera search.
    pub not_worth_searching_dist: S,
    /// The maximum number of iterations we will do in the camera search. This is important so the
    /// search stops in a reasonable time if it can't connect with the camera.
    pub max_search_iterations: usize,
    /// When projecting a point on the search path onto the eye line, we need to make sure it's
    /// still path-connected to the same empty space (to avoid going through solid boundaries).
    /// Another search determines the connectivity, and this is its maximum number of iterations.
    pub projection_connection_max_iterations: usize,
    /// If the distance to the camera target falls below this threshold, the camera locks into a
    /// fixed distance from the target.
    pub camera_lock_threshold: S,
    /// When the camera is locked to a fixed distance from the target, this is that distance.
    pub camera_lock_radius: S,
    /// The offset from the end of a path range for choosing where to start a sphere cast inside
    /// that range. The hope is that we won't choose a point so close to the end of the range that
    /// the sphere is immediately colliding with something. The end is not in the range, so an offset
    /// of zero chooses the last point, as one does.
    pub range_point_selection_offset: usize,
}

} // verus!
