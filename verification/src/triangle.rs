//! Triangles: plane intersection through the face normal, an epsilon reject
//! for near-parallel rays, and an edge-sign containment test.

use vstd::prelude::*;

use crate::fixed::{abs_s, fx_div, fx_div_s, fx_in, fx_neg, fx_sub, fx_sub_s, FX_EPS};
use crate::hittable::{hit_in, hit_new_s, max_i, min_i, BoundingBox, Hit};
use crate::ray::{at_s, ray_in, Ray};
use crate::vec3::{
    cross_s, div_vs, dot_s, length_squared_s, scale_s, sub_s, unit_vector_s, vec_in, Vec3,
};

verus! {

#[derive(Clone, Copy, PartialEq, Eq, Structural, Debug)]
pub struct Triangle {
    pub p1: Vec3,
    pub p2: Vec3,
    pub p3: Vec3,
}

pub open spec fn triangle_in(t: Triangle) -> bool {
    vec_in(t.p1) && vec_in(t.p2) && vec_in(t.p3)
}

/// What `Triangle::hit` returns.
pub open spec fn triangle_hit_s(tr: Triangle, ray: Ray, t_min: int, t_max: int) -> Option<Hit> {
    let p12 = sub_s(tr.p2, tr.p1);
    let p23 = sub_s(tr.p3, tr.p2);
    let p31 = sub_s(tr.p1, tr.p3);
    let normal = unit_vector_s(cross_s(p12, p23));
    let dn = dot_s(ray.direction, normal);
    if abs_s(dn) < FX_EPS {
        Option::None
    } else {
        let dist = fx_sub_s(dot_s(normal, ray.origin), dot_s(normal, tr.p1));
        let t = fx_div_s(-dist, dn);
        if t < t_min || t > t_max {
            Option::None
        } else {
            let intersection = at_s(ray, t);
            let pi1 = sub_s(intersection, tr.p1);
            let pi2 = sub_s(intersection, tr.p2);
            let pi3 = sub_s(intersection, tr.p3);
            let e1 = dot_s(
                sub_s(p23, scale_s(p12, fx_div_s(dot_s(p12, p23), length_squared_s(p12)))),
                pi1,
            );
            let e2 = dot_s(
                sub_s(p31, div_vs(scale_s(p23, dot_s(p23, p31)), length_squared_s(p23))),
                pi2,
            );
            let e3 = dot_s(
                sub_s(p12, div_vs(scale_s(p31, dot_s(p31, p12)), length_squared_s(p31))),
                pi3,
            );
            if e1 > 0 && e2 > 0 && e3 > 0 {
                Option::Some(hit_new_s(intersection, normal, t, ray))
            } else {
                Option::None
            }
        }
    }
}

/// The box enclosing a triangle: per-axis minimum and maximum of the three
/// vertices.
pub open spec fn triangle_bounds_s(tr: Triangle) -> BoundingBox {
    BoundingBox {
        x_low: min_i(min_i(tr.p1.x as int, tr.p2.x as int), tr.p3.x as int) as i128,
        x_high: max_i(max_i(tr.p1.x as int, tr.p2.x as int), tr.p3.x as int) as i128,
        y_low: min_i(min_i(tr.p1.y as int, tr.p2.y as int), tr.p3.y as int) as i128,
        y_high: max_i(max_i(tr.p1.y as int, tr.p2.y as int), tr.p3.y as int) as i128,
        z_low: min_i(min_i(tr.p1.z as int, tr.p2.z as int), tr.p3.z as int) as i128,
        z_high: max_i(max_i(tr.p1.z as int, tr.p2.z as int), tr.p3.z as int) as i128,
    }
}

fn min3(a: i128, b: i128, c: i128) -> (r: i128)
    ensures
        r == min_i(min_i(a as int, b as int), c as int),
{
    let m = if a <= b {
        a
    } else {
        b
    };
    if m <= c {
        m
    } else {
        c
    }
}

fn max3(a: i128, b: i128, c: i128) -> (r: i128)
    ensures
        r == max_i(max_i(a as int, b as int), c as int),
{
    let m = if a >= b {
        a
    } else {
        b
    };
    if m >= c {
        m
    } else {
        c
    }
}

impl Triangle {
    /// Intersection of a ray with the triangle inside the given parameter
    /// window; near-parallel rays are rejected rather than divided through.
    pub fn hit(&self, ray: &Ray, t_min: i128, t_max: i128) -> (r: Option<Hit>)
        requires
            triangle_in(*self),
            ray_in(*ray),
            fx_in(t_min as int),
            fx_in(t_max as int),
        ensures
            r == triangle_hit_s(*self, *ray, t_min as int, t_max as int),
            match r {
                Option::Some(h) => hit_in(h) && t_min <= h.t <= t_max && dot_s(
                    ray.direction,
                    h.normal,
                ) <= 0,
                Option::None => true,
            },
    {
        let p12 = self.p2.sub(self.p1);
        let p23 = self.p3.sub(self.p2);
        let p31 = self.p1.sub(self.p3);
        let normal = p12.cross(&p23).unit_vector();
        let dn = ray.direction.dot(&normal);
        let dn_abs = if dn >= 0 {
            dn
        } else {
            -dn
        };
        if dn_abs < FX_EPS {
            return Option::None;
        }
        let dist = fx_sub(normal.dot(&ray.origin), normal.dot(&self.p1));
        let t = fx_div(fx_neg(dist), dn);
        if t < t_min || t > t_max {
            return Option::None;
        }
        let intersection = ray.origin.add(ray.direction.scale(t));
        let pi1 = intersection.sub(self.p1);
        let pi2 = intersection.sub(self.p2);
        let pi3 = intersection.sub(self.p3);
        let e1 = p23.sub(p12.scale(fx_div(p12.dot(&p23), p12.length_squared()))).dot(&pi1);
        let e2 = p31.sub(p23.scale(p23.dot(&p31)).div(p23.length_squared())).dot(&pi2);
        let e3 = p12.sub(p31.scale(p31.dot(&p12)).div(p31.length_squared())).dot(&pi3);
        if e1 > 0 && e2 > 0 && e3 > 0 {
            Option::Some(Hit::new(intersection, normal, t, ray))
        } else {
            Option::None
        }
    }

    pub fn get_bounds(&self) -> (b: BoundingBox)
        requires
            triangle_in(*self),
        ensures
            b == triangle_bounds_s(*self),
            crate::hittable::box_in(b),
            crate::hittable::box_ordered(b),
    {
        BoundingBox::new(
            min3(self.p1.x, self.p2.x, self.p3.x),
            max3(self.p1.x, self.p2.x, self.p3.x),
            min3(self.p1.y, self.p2.y, self.p3.y),
            max3(self.p1.y, self.p2.y, self.p3.y),
            min3(self.p1.z, self.p2.z, self.p3.z),
            max3(self.p1.z, self.p2.z, self.p3.z),
        )
    }
}

/// A reported intersection parameter lies inside the query window.
pub proof fn lemma_triangle_hit_t_range(tr: Triangle, ray: Ray, t_min: int, t_max: int)
    ensures
        match triangle_hit_s(tr, ray, t_min, t_max) {
            Option::Some(h) => t_min <= h.t <= t_max,
            Option::None => true,
        },
{
}

/// Narrowing the window top to anything at or past the reported parameter
/// reports the same hit.
pub proof fn lemma_triangle_hit_narrow(tr: Triangle, ray: Ray, t_min: int, t_max: int, t_new: int)
    requires
        triangle_hit_s(tr, ray, t_min, t_max) is Some,
        triangle_hit_s(tr, ray, t_min, t_max)->Some_0.t <= t_new <= t_max,
    ensures
        triangle_hit_s(tr, ray, t_min, t_new) == triangle_hit_s(tr, ray, t_min, t_max),
{
}

} // verus!
