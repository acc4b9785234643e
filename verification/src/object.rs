//! An object pairs one material with one geometric shape.  Shapes form a
//! closed enumeration dispatched by pattern matching.

use vstd::prelude::*;

use crate::fixed::fx_in;
use crate::hittable::{box_in, box_ordered, hit_in, BoundingBox, Hit};
use crate::materials::{material_in, Material};
use crate::mesh::{mesh_hit_s, mesh_in, Mesh};
use crate::ray::{ray_in, Ray};
use crate::sphere::{sphere_bounds_s, sphere_hit_s, sphere_in, Sphere};
use crate::triangle::{triangle_bounds_s, triangle_hit_s, triangle_in, Triangle};
use crate::vec3::dot_s;

verus! {

/// The closed set of geometric shapes.
pub enum Shape {
    Ball(Sphere),
    Face(Triangle),
    Poly(Mesh),
}

pub open spec fn shape_in(s: Shape) -> bool {
    match s {
        Shape::Ball(sp) => sphere_in(sp),
        Shape::Face(t) => triangle_in(t),
        Shape::Poly(m) => mesh_in(m),
    }
}

/// What a shape's intersection routine returns.
pub open spec fn shape_hit_s(s: Shape, ray: Ray, t_min: int, t_max: int) -> Option<Hit> {
    match s {
        Shape::Ball(sp) => sphere_hit_s(sp, ray, t_min, t_max),
        Shape::Face(t) => triangle_hit_s(t, ray, t_min, t_max),
        Shape::Poly(m) => mesh_hit_s(m, ray, t_min, t_max),
    }
}

/// What a shape's bounding volume is.
pub open spec fn shape_bounds_s(s: Shape) -> BoundingBox {
    match s {
        Shape::Ball(sp) => sphere_bounds_s(sp),
        Shape::Face(t) => triangle_bounds_s(t),
        Shape::Poly(m) => m.bounds,
    }
}

pub struct Object {
    pub material: Material,
    pub shape: Shape,
}

pub open spec fn object_in(o: Object) -> bool {
    material_in(o.material) && shape_in(o.shape)
}

/// What `Object::hit` returns.
pub open spec fn object_hit_s(o: Object, ray: Ray, t_min: int, t_max: int) -> Option<Hit> {
    shape_hit_s(o.shape, ray, t_min, t_max)
}

impl Shape {
    pub fn hit(&self, ray: &Ray, t_min: i128, t_max: i128) -> (r: Option<Hit>)
        requires
            shape_in(*self),
            ray_in(*ray),
            fx_in(t_min as int),
            fx_in(t_max as int),
        ensures
            r == shape_hit_s(*self, *ray, t_min as int, t_max as int),
            match r {
                Option::Some(h) => hit_in(h) && t_min <= h.t <= t_max && dot_s(
                    ray.direction,
                    h.normal,
                ) <= 0,
                Option::None => true,
            },
    {
        match self {
            Shape::Ball(sp) => sp.hit(ray, t_min, t_max),
            Shape::Face(t) => t.hit(ray, t_min, t_max),
            Shape::Poly(m) => m.hit(ray, t_min, t_max),
        }
    }

    pub fn get_bounds(&self) -> (b: BoundingBox)
        requires
            shape_in(*self),
        ensures
            b == shape_bounds_s(*self),
            box_in(b),
            box_ordered(b),
    {
        match self {
            Shape::Ball(sp) => sp.get_bounds(),
            Shape::Face(t) => t.get_bounds(),
            Shape::Poly(m) => m.get_bounds(),
        }
    }
}

impl Object {
    pub fn new(material: Material, shape: Shape) -> (o: Object)
        ensures
            o.material == material,
            o.shape == shape,
    {
        Object { material, shape }
    }

    /// The shape's intersection routine.
    pub fn hit(&self, ray: &Ray, t_min: i128, t_max: i128) -> (r: Option<Hit>)
        requires
            object_in(*self),
            ray_in(*ray),
            fx_in(t_min as int),
            fx_in(t_max as int),
        ensures
            r == object_hit_s(*self, *ray, t_min as int, t_max as int),
            match r {
                Option::Some(h) => hit_in(h) && t_min <= h.t <= t_max && dot_s(
                    ray.direction,
                    h.normal,
                ) <= 0,
                Option::None => true,
            },
    {
        self.shape.hit(ray, t_min, t_max)
    }

    pub fn get_bounds(&self) -> (b: BoundingBox)
        requires
            object_in(*self),
        ensures
            b == shape_bounds_s(self.shape),
            box_in(b),
            box_ordered(b),
    {
        self.shape.get_bounds()
    }
}

/// A shape with a single direct intersection routine (no aggregate box
/// pre-rejection): these are the shapes the closest-so-far scan is proved
/// minimal over.
pub open spec fn simple_shape(s: Shape) -> bool {
    s matches Shape::Ball(_) || s matches Shape::Face(_)
}

/// A reported intersection parameter lies inside the query window.
pub proof fn lemma_object_hit_t_range(o: Object, ray: Ray, t_min: int, t_max: int)
    requires
        simple_shape(o.shape),
    ensures
        match object_hit_s(o, ray, t_min, t_max) {
            Option::Some(h) => t_min <= h.t <= t_max,
            Option::None => true,
        },
{
    match o.shape {
        Shape::Ball(sp) => crate::sphere::lemma_sphere_hit_t_range(sp, ray, t_min, t_max),
        Shape::Face(t) => crate::triangle::lemma_triangle_hit_t_range(t, ray, t_min, t_max),
        Shape::Poly(_) => {},
    }
}

/// Narrowing the window top to anything at or past the reported parameter
/// reports the same hit.
pub proof fn lemma_object_hit_narrow(o: Object, ray: Ray, t_min: int, t_max: int, t_new: int)
    requires
        simple_shape(o.shape),
        object_hit_s(o, ray, t_min, t_max) is Some,
        object_hit_s(o, ray, t_min, t_max)->Some_0.t <= t_new <= t_max,
    ensures
        object_hit_s(o, ray, t_min, t_new) == object_hit_s(o, ray, t_min, t_max),
{
    match o.shape {
        Shape::Ball(sp) => crate::sphere::lemma_sphere_hit_narrow(sp, ray, t_min, t_max, t_new),
        Shape::Face(t) => crate::triangle::lemma_triangle_hit_narrow(t, ray, t_min, t_max, t_new),
        Shape::Poly(_) => {},
    }
}

} // verus!
