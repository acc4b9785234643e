//! Spheres.  A negative radius models an inward-facing shell (the outward
//! normal flips), so the bounding box uses the magnitude of the radius.

use vstd::prelude::*;

use crate::fixed::{
    abs_s, fx_add, fx_add_s, fx_div, fx_div_s, fx_in, fx_mul, fx_mul_s, fx_neg, fx_sqrt,
    fx_sqrt_s, fx_sub, fx_sub_s,
};
use crate::hittable::{hit_in, hit_new_s, BoundingBox, Hit};
use crate::ray::{at_s, ray_in, Ray};
use crate::vec3::{div_vs, dot_s, length_squared_s, sub_s, vec_in, Vec3};

verus! {

#[derive(Clone, Copy, PartialEq, Eq, Structural, Debug)]
pub struct Sphere {
    pub center: Vec3,
    pub radius: i128,
}

pub open spec fn sphere_in(s: Sphere) -> bool {
    vec_in(s.center) && fx_in(s.radius as int)
}

/// The root the quadratic solver settles on: the smaller root if it lies in
/// the window, else the larger root if it does, else nothing.
pub open spec fn sphere_root_s(s: Sphere, ray: Ray, t_min: int, t_max: int) -> Option<int> {
    let oc = sub_s(ray.origin, s.center);
    let a = length_squared_s(ray.direction);
    let half_b = dot_s(oc, ray.direction);
    let c = fx_sub_s(length_squared_s(oc), fx_mul_s(s.radius as int, s.radius as int));
    let disc = fx_sub_s(fx_mul_s(half_b, half_b), fx_mul_s(a, c));
    if disc < 0 {
        Option::None
    } else {
        let sqrtd = fx_sqrt_s(disc);
        let root1 = fx_div_s(fx_sub_s(-half_b, sqrtd), a);
        let root2 = fx_div_s(fx_add_s(-half_b, sqrtd), a);
        if t_min <= root1 && root1 <= t_max {
            Option::Some(root1)
        } else if t_min <= root2 && root2 <= t_max {
            Option::Some(root2)
        } else {
            Option::None
        }
    }
}

/// What `Sphere::hit` returns.
pub open spec fn sphere_hit_s(s: Sphere, ray: Ray, t_min: int, t_max: int) -> Option<Hit> {
    match sphere_root_s(s, ray, t_min, t_max) {
        Option::None => Option::None,
        Option::Some(root) => {
            let p = at_s(ray, root);
            let outward = div_vs(sub_s(p, s.center), s.radius as int);
            Option::Some(hit_new_s(p, outward, root, ray))
        },
    }
}

/// The box enclosing a sphere: center plus or minus the magnitude of the
/// radius on every axis.
pub open spec fn sphere_bounds_s(s: Sphere) -> BoundingBox {
    BoundingBox {
        x_low: fx_sub_s(s.center.x as int, abs_s(s.radius as int)) as i128,
        x_high: fx_add_s(s.center.x as int, abs_s(s.radius as int)) as i128,
        y_low: fx_sub_s(s.center.y as int, abs_s(s.radius as int)) as i128,
        y_high: fx_add_s(s.center.y as int, abs_s(s.radius as int)) as i128,
        z_low: fx_sub_s(s.center.z as int, abs_s(s.radius as int)) as i128,
        z_high: fx_add_s(s.center.z as int, abs_s(s.radius as int)) as i128,
    }
}

impl Sphere {
    /// Nearest intersection of a ray with the sphere inside the given
    /// parameter window.
    pub fn hit(&self, ray: &Ray, t_min: i128, t_max: i128) -> (r: Option<Hit>)
        requires
            sphere_in(*self),
            ray_in(*ray),
            fx_in(t_min as int),
            fx_in(t_max as int),
        ensures
            r == sphere_hit_s(*self, *ray, t_min as int, t_max as int),
            match r {
                Option::Some(h) => hit_in(h) && t_min <= h.t <= t_max && dot_s(
                    ray.direction,
                    h.normal,
                ) <= 0,
                Option::None => true,
            },
    {
        let oc = ray.origin.sub(self.center);
        let a = ray.direction.length_squared();
        let half_b = oc.dot(&ray.direction);
        let c = fx_sub(oc.length_squared(), fx_mul(self.radius, self.radius));
        let discriminant = fx_sub(fx_mul(half_b, half_b), fx_mul(a, c));
        if discriminant < 0 {
            return Option::None;
        }
        let sqrtd = fx_sqrt(discriminant);
        let mut root = fx_div(fx_sub(fx_neg(half_b), sqrtd), a);
        if root < t_min || t_max < root {
            root = fx_div(fx_add(fx_neg(half_b), sqrtd), a);
            if root < t_min || t_max < root {
                return Option::None;
            }
        }
        let t = root;
        let p = ray.at(root);
        let outward_normal = p.sub(self.center).div(self.radius);
        Option::Some(Hit::new(p, outward_normal, t, ray))
    }

    pub fn get_bounds(&self) -> (b: BoundingBox)
        requires
            sphere_in(*self),
        ensures
            b == sphere_bounds_s(*self),
            crate::hittable::box_in(b),
            crate::hittable::box_ordered(b),
    {
        let radius = if self.radius < 0 {
            fx_neg(self.radius)
        } else {
            self.radius
        };
        BoundingBox::new(
            fx_sub(self.center.x, radius),
            fx_add(self.center.x, radius),
            fx_sub(self.center.y, radius),
            fx_add(self.center.y, radius),
            fx_sub(self.center.z, radius),
            fx_add(self.center.z, radius),
        )
    }
}

/// A reported intersection parameter lies inside the query window.
pub proof fn lemma_sphere_hit_t_range(s: Sphere, ray: Ray, t_min: int, t_max: int)
    ensures
        match sphere_hit_s(s, ray, t_min, t_max) {
            Option::Some(h) => t_min <= h.t <= t_max,
            Option::None => true,
        },
{
}

/// Narrowing the window top to anything at or past the reported parameter
/// reports the same hit: the root the solver settles on does not change.
pub proof fn lemma_sphere_hit_narrow(s: Sphere, ray: Ray, t_min: int, t_max: int, t_new: int)
    requires
        sphere_hit_s(s, ray, t_min, t_max) is Some,
        sphere_hit_s(s, ray, t_min, t_max)->Some_0.t <= t_new <= t_max,
    ensures
        sphere_hit_s(s, ray, t_min, t_new) == sphere_hit_s(s, ray, t_min, t_max),
{
}

} // verus!
