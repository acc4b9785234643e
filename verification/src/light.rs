//! What a light reports at a surface point: its color there (zero when
//! occluded) and the direction from the point toward the light.

use vstd::prelude::*;

use crate::vec3::{vec_in, Vec3};

verus! {

#[derive(Clone, Copy, PartialEq, Eq, Structural, Debug)]
pub struct LightInfo {
    pub color: Vec3,
    pub direction: Vec3,
}

pub open spec fn light_info_in(i: LightInfo) -> bool {
    vec_in(i.color) && vec_in(i.direction)
}

} // verus!
