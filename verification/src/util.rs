//! Small shared helpers.

use vstd::prelude::*;

use crate::fixed::FX_ONE;
use crate::vec3::{add_s, scale_s, vec_in, Vec3};

verus! {

/// One half, scaled.
pub const FX_HALF: i128 = 2147483648;

/// What `normal_to_color` returns: each component mapped from [-1, 1] into
/// [0, 1].
pub open spec fn normal_to_color_s(n: Vec3) -> Vec3 {
    scale_s(add_s(n, Vec3 { x: FX_ONE, y: FX_ONE, z: FX_ONE }), FX_HALF as int)
}

/// Map a unit normal to a displayable color.
pub fn normal_to_color(normal: &Vec3) -> (c: Vec3)
    requires
        vec_in(*normal),
    ensures
        c == normal_to_color_s(*normal),
        vec_in(c),
{
    let ones = Vec3 { x: FX_ONE, y: FX_ONE, z: FX_ONE };
    normal.add(ones).scale(FX_HALF)
}

} // verus!
