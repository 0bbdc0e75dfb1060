//! The camera: an origin and the rectangle it looks through.

use vstd::prelude::*;
use crate::vec3::Vec3;

verus! {

/// A camera at `origin` that looks through the rectangle with the corner
/// `lower_left_corner` and the sides `width` and `height`.
#[derive(Clone, Copy, Debug)]
pub struct Camera {
    pub origin: Vec3,
    pub lower_left_corner: Vec3,
    pub width: Vec3,
    pub height: Vec3,
}

impl Camera {
    /// The camera with the given origin and view rectangle.
    pub fn new(origin: &Vec3, lower_left_corner: &Vec3, width: &Vec3, height: &Vec3) -> (c: Camera)
        ensures
            c == (Camera {
                origin: *origin,
                lower_left_corner: *lower_left_corner,
                width: *width,
                height: *height,
            }),
    {
        Camera {
            origin: *origin,
            lower_left_corner: *lower_left_corner,
            width: *width,
            height: *height,
        }
    }
}

} // verus!
