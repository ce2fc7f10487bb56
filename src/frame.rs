//! What the renderer draws each frame: the view transform and the dot
//! geometry, both derived from the camera and the viewport alone.
use vstd::prelude::*;
use crate::camera::{is_view_matrix, Camera, CameraUniform};
use crate::grid::{generate_dots, generates, GridError, Vertex, Viewport};

verus! {

/// One frame's uniform and vertex buffer contents.
pub struct Frame {
    pub uniform: CameraUniform,
    pub vertices: Vec<Vertex>,
}

/// Builds the frame for the current camera and viewport. Fails exactly where
/// the dot geometry does not fit the vertex buffer.
pub fn prepare_frame(camera: &Camera, viewport: Viewport, base_spacing: u32, base_dot_size: u32) -> (r:
    Result<Frame, GridError>)
    requires
        camera.wf(),
        base_spacing > 0,
    ensures
        match r {
            Ok(f) => {
                &&& is_view_matrix(f.uniform.view_proj, camera.position, camera.zoom as int)
                &&& generates(
                    Ok::<Vec<Vertex>, GridError>(f.vertices),
                    *camera,
                    viewport,
                    base_spacing as int,
                    base_dot_size as int,
                )
            },
            Err(e) => generates(
                Err::<Vec<Vertex>, GridError>(e),
                *camera,
                viewport,
                base_spacing as int,
                base_dot_size as int,
            ),
        },
{
    match generate_dots(camera, viewport, base_spacing, base_dot_size) {
        Ok(vertices) => {
            let mut uniform = CameraUniform::new();
            camera.update_uniform(&mut uniform);
            Ok(Frame { uniform, vertices })
        },
        Err(e) => Err(e),
    }
}

} // verus!
