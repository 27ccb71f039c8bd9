//! The camera abstraction.
use vstd::prelude::*;

verus! {

/// What every camera provides to the renderer.
///
/// In each frame the renderer hands the pending events to `handle_event`,
/// calls `update` once, then for each pass from zero up to `num_passes` calls
/// `start_pass` and `upload`, and at the end `render_complete`.
pub trait Camera {
    /// The window that events come from and frames are drawn to.
    type Canvas;

    /// An input event of that window.
    type Event;

    /// A point of world space.
    type Point;

    /// A rigid motion of world space.
    type Isometry;

    /// A 4×4 matrix on homogeneous coordinates.
    type Matrix;

    /// A distance along the viewing direction.
    type Depth;

    /// A slot of the graphics pipeline that a matrix is written to.
    type Uniform;

    /// Reacts to an input event.
    fn handle_event(&mut self, canvas: &Self::Canvas, event: &Self::Event);

    /// The position of the camera.
    fn eye(&self) -> Self::Point;

    /// The pose of the camera.
    fn view_transform(&self) -> Self::Isometry;

    /// The matrix that takes world coordinates to device coordinates, as of
    /// the last `update`.
    fn transformation(&self) -> Self::Matrix;

    /// The matrix that takes device coordinates to world coordinates: the
    /// inverse of `transformation`.
    fn inverse_transformation(&self) -> Self::Matrix;

    /// The near and the far clipping distance, in this order.
    fn clip_planes(&self) -> (Self::Depth, Self::Depth);

    /// Brings the matrices up to date. Called once per frame, before any pass.
    fn update(&mut self, canvas: &Self::Canvas);

    /// Writes the projection and the view of the given pass to the pipeline.
    /// May be called several times per frame.
    fn upload(&self, pass: usize, proj: &mut Self::Uniform, view: &mut Self::Uniform);

    /// The number of passes that this camera renders a frame in. One, unless
    /// the camera says otherwise.
    fn num_passes(&self) -> (n: usize)
        default_ensures
            n == 1,
    {
        1
    }

    /// Called when a pass is about to begin. Does nothing, unless the camera
    /// says otherwise.
    fn start_pass(&self, _pass: usize, _canvas: &Self::Canvas) {
    }

    /// Called when the scene has been rendered and post-processing begins.
    /// Does nothing, unless the camera says otherwise.
    fn render_complete(&self, _canvas: &Self::Canvas) {
    }
}

} // verus!
