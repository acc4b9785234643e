//! Convex polygons, held as a vertex list together with the triangles that
//! tile it.

use vstd::prelude::*;

use crate::triangle::{triangle_in, Triangle};
use crate::vec3::{vec_in, Vec3};

verus! {

pub struct Polygon {
    pub vertices: Vec<Vec3>,
    pub triangles: Vec<Triangle>,
}

pub open spec fn polygon_in(p: Polygon) -> bool {
    &&& forall|i: int| 0 <= i < p.vertices@.len() ==> vec_in(#[trigger] p.vertices@[i])
    &&& forall|i: int| 0 <= i < p.triangles@.len() ==> triangle_in(#[trigger] p.triangles@[i])
}

/// The triangles tiling the polygon: consecutive vertex triples starting
/// from the second vertex (only convex shapes tile correctly this way).
pub open spec fn fan_s(vs: Seq<Vec3>, k: int) -> Triangle {
    Triangle { p1: vs[k + 1], p2: vs[k + 2], p3: vs[k + 3] }
}

impl Polygon {
    pub fn new(vertices: Vec<Vec3>) -> (p: Polygon)
        requires
            vertices@.len() >= 2,
            forall|i: int| 0 <= i < vertices@.len() ==> vec_in(#[trigger] vertices@[i]),
        ensures
            p.vertices@ == vertices@,
            p.triangles@.len() == (if vertices@.len() >= 3 {
                vertices@.len() - 3
            } else {
                0
            }),
            forall|k: int|
                0 <= k < p.triangles@.len() ==> #[trigger] p.triangles@[k] == fan_s(vertices@, k),
            polygon_in(p),
    {
        let mut triangles: Vec<Triangle> = Vec::new();
        let mut i: usize = 1;
        let n = vertices.len();
        let stop = n - 2;
        while i < stop
            invariant
                n == vertices@.len(),
                n >= 2,
                stop == n - 2,
                forall|m: int| 0 <= m < vertices@.len() ==> vec_in(#[trigger] vertices@[m]),
                1 <= i,
                i <= stop || i == 1,
                triangles@.len() == i - 1,
                forall|k: int|
                    0 <= k < triangles@.len() ==> #[trigger] triangles@[k] == fan_s(vertices@, k),
            decreases stop - i,
        {
            triangles.push(
                Triangle { p1: vertices[i], p2: vertices[i + 1], p3: vertices[i + 2] },
            );
            i = i + 1;
        }
        Polygon { vertices, triangles }
    }
}

} // verus!
