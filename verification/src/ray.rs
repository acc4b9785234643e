//! Rays: an origin and a direction.  The direction need not be unit length
//! except where a routine documents otherwise.

use vstd::prelude::*;

use crate::fixed::{fx_div, fx_div_s, fx_in, fx_sub, fx_sub_s, FX_BIG};
use crate::three_d_tree::Axis;
use crate::vec3::{add_s, axis_s, scale_s, vec_in, Vec3};

verus! {

#[derive(Clone, Copy, PartialEq, Eq, Structural, Debug)]
pub struct Ray {
    pub origin: Vec3,
    pub direction: Vec3,
}

pub open spec fn ray_in(r: Ray) -> bool {
    vec_in(r.origin) && vec_in(r.direction)
}

/// The point a ray reaches at parameter t.
pub open spec fn at_s(r: Ray, t: int) -> Vec3 {
    add_s(r.origin, scale_s(r.direction, t))
}

/// The ray parameter at which a ray meets the plane with the given axis
/// coordinate.  A zero direction component makes the plane unreachable: the
/// parameter is the saturation bound (signed by the plane's side), never
/// zero and never an undefined value, even when the origin lies exactly in
/// the plane.
pub open spec fn intersect_axis_plane_s(r: Ray, axis: Axis, h: int) -> int {
    let num = fx_sub_s(h, axis_s(r.origin, axis));
    let d = axis_s(r.direction, axis);
    if d == 0 {
        if num >= 0 {
            FX_BIG as int
        } else {
            -FX_BIG as int
        }
    } else {
        fx_div_s(num, d)
    }
}

impl Ray {
    pub fn at(&self, t: i128) -> (p: Vec3)
        requires
            ray_in(*self),
            fx_in(t as int),
        ensures
            p == at_s(*self, t as int),
            vec_in(p),
    {
        self.origin.add(self.direction.scale(t))
    }

    pub fn intersect_axis_plane(&self, axis: &Axis, h: i128) -> (t: i128)
        requires
            ray_in(*self),
            fx_in(h as int),
        ensures
            t == intersect_axis_plane_s(*self, *axis, h as int),
            fx_in(t as int),
    {
        let o = self.origin.get_axis(axis);
        let d = self.direction.get_axis(axis);
        let num = fx_sub(h, o);
        if d == 0 {
            if num >= 0 {
                FX_BIG
            } else {
                -FX_BIG
            }
        } else {
            fx_div(num, d)
        }
    }
}

} // verus!
