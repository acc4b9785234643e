//! The camera: a simple axis-aligned viewport.  Field-of-view setup (which
//! needs a tangent) lives with the caller; the core takes the viewport
//! dimensions as plain values.

use vstd::prelude::*;

use crate::fixed::{fx_in, FX_ONE};
use crate::ray::{ray_in, Ray};
use crate::vec3::{add_s, div_vs, scale_s, sub_s, vec_in, Vec3};

verus! {

#[derive(Clone, Copy, PartialEq, Eq, Structural, Debug)]
pub struct Camera {
    pub origin: Vec3,
    pub aspect_ratio: i128,
    pub viewport_height: i128,
    pub viewport_width: i128,
    pub focal_length: i128,
    pub horizontal: Vec3,
    pub vertical: Vec3,
    pub lower_left_viewport_corner: Vec3,
}

pub open spec fn camera_in(c: Camera) -> bool {
    &&& vec_in(c.origin)
    &&& fx_in(c.aspect_ratio as int)
    &&& fx_in(c.viewport_height as int)
    &&& fx_in(c.viewport_width as int)
    &&& fx_in(c.focal_length as int)
    &&& vec_in(c.horizontal)
    &&& vec_in(c.vertical)
    &&& vec_in(c.lower_left_viewport_corner)
}

/// What `Camera::new` returns.
pub open spec fn camera_new_s(
    origin: Vec3,
    aspect_ratio: int,
    viewport_height: int,
    viewport_width: int,
    focal_length: int,
) -> Camera {
    let horizontal = Vec3 { x: viewport_width as i128, y: 0i128, z: 0i128 };
    let vertical = Vec3 { x: 0i128, y: viewport_height as i128, z: 0i128 };
    let lower_left_viewport_corner = sub_s(
        sub_s(
            sub_s(origin, div_vs(horizontal, 2 * FX_ONE as int)),
            div_vs(vertical, 2 * FX_ONE as int),
        ),
        Vec3 { x: 0i128, y: 0i128, z: focal_length as i128 },
    );
    Camera {
        origin,
        aspect_ratio: aspect_ratio as i128,
        viewport_height: viewport_height as i128,
        viewport_width: viewport_width as i128,
        focal_length: focal_length as i128,
        horizontal,
        vertical,
        lower_left_viewport_corner,
    }
}

/// What `Camera::get_ray` returns.
pub open spec fn get_ray_s(c: Camera, horizontal_frac: int, vertical_frac: int) -> Ray {
    Ray {
        origin: c.origin,
        direction: add_s(
            add_s(c.lower_left_viewport_corner, scale_s(c.horizontal, horizontal_frac)),
            scale_s(c.vertical, vertical_frac),
        ),
    }
}

impl Camera {
    pub fn new(
        origin: Vec3,
        aspect_ratio: i128,
        viewport_height: i128,
        viewport_width: i128,
        focal_length: i128,
    ) -> (c: Camera)
        requires
            vec_in(origin),
            fx_in(aspect_ratio as int),
            fx_in(viewport_height as int),
            fx_in(viewport_width as int),
            fx_in(focal_length as int),
        ensures
            c == camera_new_s(
                origin,
                aspect_ratio as int,
                viewport_height as int,
                viewport_width as int,
                focal_length as int,
            ),
            camera_in(c),
    {
        let horizontal = Vec3 { x: viewport_width, y: 0, z: 0 };
        let vertical = Vec3 { x: 0, y: viewport_height, z: 0 };
        let lower_left_viewport_corner = origin.sub(horizontal.div(2 * FX_ONE)).sub(
            vertical.div(2 * FX_ONE),
        ).sub(Vec3 { x: 0, y: 0, z: focal_length });
        Camera {
            aspect_ratio,
            viewport_height,
            viewport_width,
            focal_length,
            horizontal,
            vertical,
            origin,
            lower_left_viewport_corner,
        }
    }

    /// The primary ray through the viewport at the given fractions.
    pub fn get_ray(&self, horizontal_frac: i128, vertical_frac: i128) -> (r: Ray)
        requires
            camera_in(*self),
            fx_in(horizontal_frac as int),
            fx_in(vertical_frac as int),
        ensures
            r == get_ray_s(*self, horizontal_frac as int, vertical_frac as int),
            ray_in(r),
    {
        Ray {
            origin: self.origin,
            direction: self.lower_left_viewport_corner.add(
                self.horizontal.scale(horizontal_frac),
            ).add(self.vertical.scale(vertical_frac)),
        }
    }
}

} // verus!
