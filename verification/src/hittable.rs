//! Intersection records and axis-aligned bounding boxes.

use vstd::prelude::*;

use crate::fixed::{fx_in, FX_BIG, FX_EPS};
use crate::object::{lemma_object_hit_narrow, lemma_object_hit_t_range, object_hit_s, object_in, simple_shape, Object};
use crate::ray::{intersect_axis_plane_s, ray_in, Ray};
use crate::three_d_tree::Axis;
use crate::vec3::{dot_s, neg_s, vec_in, Vec3};

verus! {

/// Record of a ray/geometry intersection.  The normal always points against
/// the incoming ray direction; `front_face` records whether the geometric
/// (outward) normal already did.
#[derive(Clone, Copy, PartialEq, Eq, Structural, Debug)]
pub struct Hit {
    pub p: Vec3,
    pub normal: Vec3,
    pub t: i128,
    pub front_face: bool,
}

pub open spec fn hit_in(h: Hit) -> bool {
    vec_in(h.p) && vec_in(h.normal) && fx_in(h.t as int)
}

/// What `to_face_normal` returns: the front-face flag and the normal turned
/// against the ray.
pub open spec fn face_normal_s(ray: Ray, outward_normal: Vec3) -> (bool, Vec3) {
    let front_face = dot_s(ray.direction, outward_normal) < 0;
    (front_face, if front_face {
        outward_normal
    } else {
        neg_s(outward_normal)
    })
}

/// What `Hit::new` returns.
pub open spec fn hit_new_s(p: Vec3, outward_normal: Vec3, t: int, ray: Ray) -> Hit {
    let (front_face, normal) = face_normal_s(ray, outward_normal);
    Hit { p, normal, t: t as i128, front_face }
}

impl Hit {
    pub fn new(p: Vec3, outward_normal: Vec3, t: i128, ray: &Ray) -> (h: Hit)
        requires
            vec_in(p),
            vec_in(outward_normal),
            fx_in(t as int),
            ray_in(*ray),
        ensures
            h == hit_new_s(p, outward_normal, t as int, *ray),
            hit_in(h),
            dot_s(ray.direction, h.normal) <= 0,
    {
        let (front_face, normal) = Hit::to_face_normal(ray, outward_normal);
        Hit { p, normal, t, front_face }
    }

    /// Orient an outward normal against the ray; the returned flag says
    /// whether it already pointed that way.
    pub fn to_face_normal(ray: &Ray, outward_normal: Vec3) -> (r: (bool, Vec3))
        requires
            ray_in(*ray),
            vec_in(outward_normal),
        ensures
            r == face_normal_s(*ray, outward_normal),
            vec_in(r.1),
            dot_s(ray.direction, r.1) <= 0,
    {
        let front_face = ray.direction.dot(&outward_normal) < 0;
        let normal = if front_face {
            outward_normal
        } else {
            proof {
                crate::vec3::lemma_dot_neg(ray.direction, outward_normal);
            }
            outward_normal.neg()
        };
        (front_face, normal)
    }
}

/// Axis-aligned min/max volume used for cheap pre-rejection.
#[derive(Clone, Copy, PartialEq, Eq, Structural, Debug)]
pub struct BoundingBox {
    pub x_low: i128,
    pub x_high: i128,
    pub y_low: i128,
    pub y_high: i128,
    pub z_low: i128,
    pub z_high: i128,
}

pub open spec fn box_in(b: BoundingBox) -> bool {
    fx_in(b.x_low as int) && fx_in(b.x_high as int) && fx_in(b.y_low as int) && fx_in(
        b.y_high as int,
    ) && fx_in(b.z_low as int) && fx_in(b.z_high as int)
}

/// The box invariant: low at most high along every axis.
pub open spec fn box_ordered(b: BoundingBox) -> bool {
    b.x_low <= b.x_high && b.y_low <= b.y_high && b.z_low <= b.z_high
}

/// What the slab test computes: whether the ray's entry into the box comes
/// no later than its exit, within the query interval.
pub open spec fn box_intersects_s(b: BoundingBox, ray: Ray, t_min: int, t_max: int) -> bool {
    let tx1 = intersect_axis_plane_s(ray, Axis::X, b.x_low as int);
    let tx2 = intersect_axis_plane_s(ray, Axis::X, b.x_high as int);
    let txmin = min_i(tx1, tx2);
    let txmax = max_i(tx1, tx2);
    let ty1 = intersect_axis_plane_s(ray, Axis::Y, b.y_low as int);
    let ty2 = intersect_axis_plane_s(ray, Axis::Y, b.y_high as int);
    let tmin2 = max_i(txmin, min_i(ty1, ty2));
    let tmax2 = min_i(txmax, max_i(ty1, ty2));
    let tz1 = intersect_axis_plane_s(ray, Axis::Z, b.z_low as int);
    let tz2 = intersect_axis_plane_s(ray, Axis::Z, b.z_high as int);
    let tmin3 = max_i(tmin2, min_i(tz1, tz2));
    let tmax3 = min_i(tmax2, max_i(tz1, tz2));
    tmax3 >= max_i(t_min, tmin3) && tmin3 < t_max
}

pub open spec fn min_i(a: int, b: int) -> int {
    if a <= b {
        a
    } else {
        b
    }
}

pub open spec fn max_i(a: int, b: int) -> int {
    if a >= b {
        a
    } else {
        b
    }
}

fn min_e(a: i128, b: i128) -> (r: i128)
    ensures
        r == min_i(a as int, b as int),
{
    if a <= b {
        a
    } else {
        b
    }
}

fn max_e(a: i128, b: i128) -> (r: i128)
    ensures
        r == max_i(a as int, b as int),
{
    if a >= b {
        a
    } else {
        b
    }
}

impl BoundingBox {
    pub fn new(x_low: i128, x_high: i128, y_low: i128, y_high: i128, z_low: i128, z_high: i128) -> (
        b: BoundingBox)
        ensures
            b == (BoundingBox { x_low, x_high, y_low, y_high, z_low, z_high }),
    {
        BoundingBox { x_low, x_high, y_low, y_high, z_low, z_high }
    }

    pub fn lower(&self) -> (v: Vec3)
        ensures
            v == (Vec3 { x: self.x_low, y: self.y_low, z: self.z_low }),
    {
        Vec3 { x: self.x_low, y: self.y_low, z: self.z_low }
    }

    pub fn higher(&self) -> (v: Vec3)
        ensures
            v == (Vec3 { x: self.x_high, y: self.y_high, z: self.z_high }),
    {
        Vec3 { x: self.x_high, y: self.y_high, z: self.z_high }
    }

    pub fn encloses_point(&self, p: &Vec3) -> (r: bool)
        ensures
            r == (self.x_low <= p.x <= self.x_high && self.y_low <= p.y <= self.y_high
                && self.z_low <= p.z <= self.z_high),
    {
        self.x_low <= p.x && p.x <= self.x_high && self.y_low <= p.y && p.y <= self.y_high
            && self.z_low <= p.z && p.z <= self.z_high
    }

    pub fn encloses_bounds(&self, bounds: BoundingBox) -> (r: bool)
        ensures
            r == (self.x_low <= bounds.x_low <= self.x_high && self.y_low <= bounds.y_low
                <= self.y_high && self.z_low <= bounds.z_low <= self.z_high && self.x_low
                <= bounds.x_high <= self.x_high && self.y_low <= bounds.y_high <= self.y_high
                && self.z_low <= bounds.z_high <= self.z_high),
    {
        let lo = bounds.lower();
        let hi = bounds.higher();
        let a = self.encloses_point(&lo);
        let b = self.encloses_point(&hi);
        a && b
    }

    /// Slab intersection test against a ray interval.
    pub fn intersects(&self, ray: &Ray, t_min: i128, t_max: i128) -> (r: bool)
        requires
            box_in(*self),
            ray_in(*ray),
        ensures
            r == box_intersects_s(*self, *ray, t_min as int, t_max as int),
    {
        let tx1 = ray.intersect_axis_plane(&Axis::X, self.x_low);
        let tx2 = ray.intersect_axis_plane(&Axis::X, self.x_high);
        let tmin = min_e(tx1, tx2);
        let tmax = max_e(tx1, tx2);
        let ty1 = ray.intersect_axis_plane(&Axis::Y, self.y_low);
        let ty2 = ray.intersect_axis_plane(&Axis::Y, self.y_high);
        let tmin = max_e(tmin, min_e(ty1, ty2));
        let tmax = min_e(tmax, max_e(ty1, ty2));
        let tz1 = ray.intersect_axis_plane(&Axis::Z, self.z_low);
        let tz2 = ray.intersect_axis_plane(&Axis::Z, self.z_high);
        let tmin = max_e(tmin, min_e(tz1, tz2));
        let tmax = min_e(tmax, max_e(tz1, tz2));
        tmax >= max_e(t_min, tmin) && tmin < t_max
    }
}

/// The closest-so-far scan over an object list, from index `i`, carrying
/// the best hit found and its parameter as the shrinking window top.
pub open spec fn object_scan_s(
    objs: Seq<Object>,
    ray: Ray,
    t_min: int,
    closest_dist: int,
    best: Option<(int, Hit)>,
    i: int,
) -> Option<(int, Hit)>
    decreases objs.len() - i,
{
    if i < 0 || i >= objs.len() {
        best
    } else {
        match object_hit_s(objs[i], ray, t_min, closest_dist) {
            Option::None => object_scan_s(objs, ray, t_min, closest_dist, best, i + 1),
            Option::Some(h) => object_scan_s(
                objs,
                ray,
                t_min,
                h.t as int,
                Option::Some((i, h)),
                i + 1,
            ),
        }
    }
}

/// What `hit_list` returns: the nearest hit over the whole list, found by
/// narrowing the window to each hit in turn.
pub open spec fn hit_list_s(objs: Seq<Object>, ray: Ray, t_min: int, t_max: int) -> Option<
    (int, Hit),
> {
    object_scan_s(objs, ray, t_min, t_max, Option::None, 0)
}

/// Soundness of a scan result, phrased for contracts: the pair points at a
/// real object whose own intersection routine produced the hit.
pub open spec fn scan_result_ok(
    objs: Seq<Object>,
    ray: Ray,
    t_min: int,
    t_max: int,
    r: Option<(int, Hit)>,
) -> bool {
    match r {
        Option::Some((i, h)) => {
            &&& 0 <= i < objs.len()
            &&& hit_in(h)
            &&& t_min <= h.t <= t_max
            &&& dot_s(ray.direction, h.normal) <= 0
        },
        Option::None => true,
    }
}

/// Linear closest-hit reduction over every object in the list.
pub fn hit_list(objects: &Vec<Object>, ray: &Ray, t_min: i128, t_max: i128) -> (r: Option<
    (usize, Hit),
>)
    requires
        forall|i: int| 0 <= i < objects@.len() ==> object_in(#[trigger] objects@[i]),
        ray_in(*ray),
        fx_in(t_min as int),
        fx_in(t_max as int),
    ensures
        option_widen(r) == hit_list_s(objects@, *ray, t_min as int, t_max as int),
        scan_result_ok(objects@, *ray, t_min as int, t_max as int, option_widen(r)),
{
    let mut closest: Option<(usize, Hit)> = Option::None;
    let mut closest_dist: i128 = t_max;
    let mut i: usize = 0;
    while i < objects.len()
        invariant
            forall|j: int| 0 <= j < objects@.len() ==> object_in(#[trigger] objects@[j]),
            ray_in(*ray),
            fx_in(t_min as int),
            fx_in(t_max as int),
            fx_in(closest_dist as int),
            0 <= i <= objects@.len(),
            hit_list_s(objects@, *ray, t_min as int, t_max as int) == object_scan_s(
                objects@,
                *ray,
                t_min as int,
                closest_dist as int,
                option_widen(closest),
                i as int,
            ),
            match closest {
                Option::Some((j, h)) => 0 <= j < i && hit_in(h) && t_min <= h.t <= t_max && h.t
                    == closest_dist && dot_s(ray.direction, h.normal) <= 0,
                Option::None => closest_dist == t_max,
            },
        decreases objects@.len() - i,
    {
        match objects[i].hit(ray, t_min, closest_dist) {
            Option::None => {},
            Option::Some(hit) => {
                closest_dist = hit.t;
                closest = Option::Some((i, hit));
            },
        }
        i = i + 1;
    }
    closest
}

/// The same pair with the index widened for specification use.
pub open spec fn option_widen(r: Option<(usize, Hit)>) -> Option<(int, Hit)> {
    match r {
        Option::Some((i, h)) => Option::Some((i as int, h)),
        Option::None => Option::None,
    }
}

/// The linear scan over the full default window.
pub fn hit_list_default(objects: &Vec<Object>, ray: &Ray) -> (r: Option<(usize, Hit)>)
    requires
        forall|i: int| 0 <= i < objects@.len() ==> object_in(#[trigger] objects@[i]),
        ray_in(*ray),
    ensures
        option_widen(r) == hit_list_s(objects@, *ray, FX_EPS as int, FX_BIG as int),
        scan_result_ok(objects@, *ray, FX_EPS as int, FX_BIG as int, option_widen(r)),
{
    hit_list(objects, ray, FX_EPS, FX_BIG)
}

/// A container that answers nearest-hit queries by the plain linear scan.
pub struct HittableList {
    pub objects: Vec<Object>,
}

pub open spec fn hittable_list_in(l: HittableList) -> bool {
    forall|i: int| 0 <= i < l.objects@.len() ==> object_in(#[trigger] l.objects@[i])
}

impl HittableList {
    /// Nearest hit over the default window.
    pub fn get_object_hit(&self, ray: &Ray) -> (r: Option<(usize, Hit)>)
        requires
            hittable_list_in(*self),
            ray_in(*ray),
        ensures
            option_widen(r) == hit_list_s(self.objects@, *ray, FX_EPS as int, FX_BIG as int),
            scan_result_ok(self.objects@, *ray, FX_EPS as int, FX_BIG as int, option_widen(r)),
    {
        hit_list_default(&self.objects, ray)
    }
}

/// The closest-so-far scan is a true nearest-hit search over spheres and
/// triangles: whatever it carries in, the result's parameter never grows,
/// the result is a hit the named object reports over the window ending at
/// that parameter, and no scanned object hits strictly closer.
#[verifier::rlimit(100)]
#[verifier::spinoff_prover]
proof fn lemma_object_scan_nearest(
    objs: Seq<Object>,
    ray: Ray,
    t_min: int,
    cur: int,
    best: Option<(int, Hit)>,
    i: int,
)
    requires
        0 <= i <= objs.len(),
        forall|j: int| 0 <= j < objs.len() ==> simple_shape((#[trigger] objs[j]).shape),
        match best {
            Option::Some((bi, bh)) => 0 <= bi < objs.len() && bh.t == cur && object_hit_s(
                objs[bi],
                ray,
                t_min,
                cur,
            ) == Option::Some(bh),
            Option::None => true,
        },
    ensures
        ({
            let r = object_scan_s(objs, ray, t_min, cur, best, i);
            &&& match r {
                Option::Some((ri, rh)) => 0 <= ri < objs.len() && rh.t <= cur && object_hit_s(
                    objs[ri],
                    ray,
                    t_min,
                    rh.t as int,
                ) == Option::Some(rh),
                Option::None => best is None,
            }
            &&& (best is Some ==> r is Some)
            &&& forall|j: int|
                i <= j < objs.len() && (#[trigger] object_hit_s(objs[j], ray, t_min, cur))
                    is Some ==> r is Some && r->Some_0.1.t <= object_hit_s(
                    objs[j],
                    ray,
                    t_min,
                    cur,
                )->Some_0.t
        }),
    decreases objs.len() - i,
{
    if i >= objs.len() {
        if best is Some {
            let (bi, bh) = best->Some_0;
        }
    } else {
        match object_hit_s(objs[i], ray, t_min, cur) {
            Option::None => {
                lemma_object_scan_nearest(objs, ray, t_min, cur, best, i + 1);
            },
            Option::Some(h) => {
                lemma_object_hit_t_range(objs[i], ray, t_min, cur);
                lemma_object_hit_narrow(objs[i], ray, t_min, cur, h.t as int);
                lemma_object_scan_nearest(
                    objs,
                    ray,
                    t_min,
                    h.t as int,
                    Option::Some((i, h)),
                    i + 1,
                );
                let r = object_scan_s(objs, ray, t_min, cur, best, i);
                assert forall|j: int|
                    i <= j < objs.len() && (#[trigger] object_hit_s(objs[j], ray, t_min, cur))
                        is Some implies r is Some && r->Some_0.1.t <= object_hit_s(
                    objs[j],
                    ray,
                    t_min,
                    cur,
                )->Some_0.t by {
                    let hj = object_hit_s(objs[j], ray, t_min, cur)->Some_0;
                    if j == i {
                    } else {
                        lemma_object_hit_t_range(objs[j], ray, t_min, cur);
                        if hj.t <= h.t {
                            lemma_object_hit_narrow(objs[j], ray, t_min, cur, h.t as int);
                        }
                    }
                }
            },
        }
    }
}

/// The linear scan finds the globally nearest intersection: if it reports
/// a pair, that object reports that hit over the window closing at its
/// parameter, and no object in the list hits strictly closer within the
/// query window; if it reports nothing, no object hits at all.  Stated
/// over scenes of spheres and triangles, whose intersection routines have
/// no aggregate-box pre-rejection.
pub proof fn lemma_hit_list_nearest(objs: Seq<Object>, ray: Ray, t_min: int, t_max: int)
    requires
        forall|j: int| 0 <= j < objs.len() ==> simple_shape((#[trigger] objs[j]).shape),
    ensures
        match hit_list_s(objs, ray, t_min, t_max) {
            Option::Some((ri, rh)) => {
                &&& 0 <= ri < objs.len()
                &&& rh.t <= t_max
                &&& object_hit_s(objs[ri], ray, t_min, rh.t as int) == Option::Some(rh)
                &&& forall|j: int|
                    0 <= j < objs.len() && (#[trigger] object_hit_s(objs[j], ray, t_min, t_max))
                        is Some ==> rh.t <= object_hit_s(objs[j], ray, t_min, t_max)->Some_0.t
            },
            Option::None => forall|j: int|
                0 <= j < objs.len() ==> (#[trigger] object_hit_s(objs[j], ray, t_min, t_max))
                    is None,
        },
{
    lemma_object_scan_nearest(objs, ray, t_min, t_max, Option::None, 0);
    let r = hit_list_s(objs, ray, t_min, t_max);
    if r is None {
        assert forall|j: int| 0 <= j < objs.len() implies (#[trigger] object_hit_s(
            objs[j],
            ray,
            t_min,
            t_max,
        )) is None by {
            if object_hit_s(objs[j], ray, t_min, t_max) is Some {
            }
        }
    }
}

/// The pair names a real object whose own intersection routine reports
/// exactly this hit over some parameter window.
pub open spec fn reports_real_hit(objs: Seq<Object>, ray: Ray, r: Option<(int, Hit)>) -> bool {
    match r {
        Option::Some((i, h)) => 0 <= i < objs.len() && exists|lo: int, hi: int|
            #[trigger] object_hit_s(objs[i], ray, lo, hi) == Option::Some(h),
        Option::None => true,
    }
}

/// Whatever it carries in, the scan only ever reports hits that some
/// object's own routine produced.
proof fn lemma_object_scan_genuine(
    objs: Seq<Object>,
    ray: Ray,
    t_min: int,
    cur: int,
    best: Option<(int, Hit)>,
    i: int,
)
    requires
        0 <= i <= objs.len(),
        reports_real_hit(objs, ray, best),
    ensures
        reports_real_hit(objs, ray, object_scan_s(objs, ray, t_min, cur, best, i)),
    decreases objs.len() - i,
{
    if i < objs.len() {
        match object_hit_s(objs[i], ray, t_min, cur) {
            Option::None => {
                lemma_object_scan_genuine(objs, ray, t_min, cur, best, i + 1);
            },
            Option::Some(h) => {
                assert(object_hit_s(objs[i], ray, t_min, cur) == Option::Some(h));
                lemma_object_scan_genuine(objs, ray, t_min, h.t as int, Option::Some((i, h)), i + 1);
            },
        }
    }
}

/// Soundness of the linear scan over every shape, meshes included: a
/// reported pair is a hit the named object's own intersection routine
/// produced.  (The nearest-hit claim with the mesh's aggregate-box
/// pre-rejection in play is not stated; `lemma_hit_list_nearest` gives it
/// for lists of spheres and triangles.)
pub proof fn lemma_hit_list_genuine(objs: Seq<Object>, ray: Ray, t_min: int, t_max: int)
    ensures
        reports_real_hit(objs, ray, hit_list_s(objs, ray, t_min, t_max)),
{
    lemma_object_scan_genuine(objs, ray, t_min, t_max, Option::None, 0);
}

} // verus!
