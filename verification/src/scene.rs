//! The scene: an object container answering nearest-hit queries, and the
//! lights.  Built once before rendering and read-only thereafter.

use vstd::prelude::*;

use crate::fixed::{FX_BIG, FX_EPS};
use crate::hittable::{hit_list_s, hittable_list_in, option_widen, Hit, HittableList};
use crate::lights::{light_in, Light};
use crate::object::Object;
use crate::ray::{ray_in, Ray};
use crate::three_d_tree::{query_result_ok, tdtree_in, tree_query_s, TDTree};

verus! {

/// Either the plain linear scan or the spatial index.
pub enum ObjectContainer {
    List(HittableList),
    Tree(TDTree),
}

pub open spec fn container_in(c: ObjectContainer) -> bool {
    match c {
        ObjectContainer::List(l) => hittable_list_in(l),
        ObjectContainer::Tree(t) => tdtree_in(t),
    }
}

/// The objects a container holds.
pub open spec fn container_objects(c: ObjectContainer) -> Seq<Object> {
    match c {
        ObjectContainer::List(l) => l.objects@,
        ObjectContainer::Tree(t) => t.objects@,
    }
}

/// What a container's nearest-hit query returns over the default window.
pub open spec fn container_hit_s(c: ObjectContainer, ray: Ray) -> Option<(int, Hit)> {
    match c {
        ObjectContainer::List(l) => hit_list_s(l.objects@, ray, FX_EPS as int, FX_BIG as int),
        ObjectContainer::Tree(t) => tree_query_s(
            *t.root,
            t.objects@,
            ray,
            FX_EPS as int,
            FX_BIG as int,
        ),
    }
}

impl ObjectContainer {
    /// The object at an index.
    pub fn object_at(&self, i: usize) -> (o: &Object)
        requires
            i < container_objects(*self).len(),
        ensures
            *o == container_objects(*self)[i as int],
    {
        match self {
            ObjectContainer::List(l) => &l.objects[i],
            ObjectContainer::Tree(t) => &t.objects[i],
        }
    }

    /// Nearest (object, hit) along the ray, or nothing.
    pub fn get_object_hit(&self, ray: &Ray) -> (r: Option<(usize, Hit)>)
        requires
            container_in(*self),
            ray_in(*ray),
        ensures
            option_widen(r) == container_hit_s(*self, *ray),
            query_result_ok(container_objects(*self), *ray, option_widen(r)),
    {
        match self {
            ObjectContainer::List(l) => l.get_object_hit(ray),
            ObjectContainer::Tree(t) => t.get_object_hit(ray),
        }
    }
}

pub struct Scene {
    pub objects: ObjectContainer,
    pub lights: Vec<Light>,
}

pub open spec fn scene_in(s: Scene) -> bool {
    &&& container_in(s.objects)
    &&& forall|i: int| 0 <= i < s.lights@.len() ==> light_in(#[trigger] s.lights@[i])
}

impl Scene {
    /// Nearest (object, hit) along the ray, or nothing.
    pub fn get_object_hit(&self, ray: &Ray) -> (r: Option<(usize, Hit)>)
        requires
            scene_in(*self),
            ray_in(*ray),
        ensures
            option_widen(r) == container_hit_s(self.objects, *ray),
            query_result_ok(container_objects(self.objects), *ray, option_widen(r)),
    {
        self.objects.get_object_hit(ray)
    }
}

} // verus!
