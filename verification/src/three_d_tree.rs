//! The spatial index: a recursive binary space partition over object
//! bounding volumes, splitting along alternating axes at a median bound
//! coordinate, with straddling objects duplicated into both children.

use vstd::prelude::*;

use crate::fixed::{fx_add, fx_in, fx_neg, FX_BIG, FX_EPS};
use crate::hittable::{hit_in, max_i, reports_real_hit, Hit};
use crate::object::{object_hit_s, object_in, Object};
use crate::ray::{intersect_axis_plane_s, ray_in, Ray};
use crate::vec3::axis_s;

verus! {

/// One of the three coordinate axes; the split axis cycles with depth.
#[derive(Clone, Copy, PartialEq, Eq, Structural, Debug)]
pub enum Axis {
    X,
    Y,
    Z,
}

/// A node of the space-partition tree.  Leaves store indices into the
/// owning tree's object list.
pub enum TDTreePart {
    Node { axis: Axis, h: i128, left: Box<TDTreePart>, right: Box<TDTreePart> },
    Leaf { children: Vec<usize> },
}

/// The tree: the object list it was built over and the root node.
pub struct TDTree {
    pub objects: Vec<Object>,
    pub root: Box<TDTreePart>,
}

/// Node well-formedness: split coordinates in range, leaf indices within
/// the object list.
pub open spec fn part_in(p: TDTreePart, n: int) -> bool
    decreases p,
{
    match p {
        TDTreePart::Node { axis, h, left, right } => fx_in(h as int) && part_in(*left, n)
            && part_in(*right, n),
        TDTreePart::Leaf { children } => forall|i: int|
            0 <= i < children@.len() ==> (#[trigger] children@[i]) < n,
    }
}

/// An object index appears somewhere in the subtree.
pub open spec fn part_covers(p: TDTreePart, idx: int) -> bool
    decreases p,
{
    match p {
        TDTreePart::Node { axis, h, left, right } => part_covers(*left, idx) || part_covers(
            *right,
            idx,
        ),
        TDTreePart::Leaf { children } => exists|i: int|
            0 <= i < children@.len() && (#[trigger] children@[i]) == idx,
    }
}

pub open spec fn tdtree_in(t: TDTree) -> bool {
    &&& forall|i: int| 0 <= i < t.objects@.len() ==> object_in(#[trigger] t.objects@[i])
    &&& part_in(*t.root, t.objects@.len() as int)
}

/// The closest-so-far scan over a leaf's index list.
pub open spec fn leaf_scan_s(
    objs: Seq<Object>,
    idxs: Seq<usize>,
    ray: Ray,
    t_min: int,
    closest_dist: int,
    best: Option<(int, Hit)>,
    i: int,
) -> Option<(int, Hit)>
    decreases idxs.len() - i,
{
    if i < 0 || i >= idxs.len() {
        best
    } else {
        match object_hit_s(objs[idxs[i] as int], ray, t_min, closest_dist) {
            Option::None => leaf_scan_s(objs, idxs, ray, t_min, closest_dist, best, i + 1),
            Option::Some(h) => leaf_scan_s(
                objs,
                idxs,
                ray,
                t_min,
                h.t as int,
                Option::Some((idxs[i] as int, h)),
                i + 1,
            ),
        }
    }
}

/// What the recursive descent returns at each node: a leaf runs the linear
/// scan over its list (with the lower window edge raised to the tolerance);
/// an internal node visits only the children its interval can reach, near
/// side first, and takes the far side only when the near side found
/// nothing.
pub open spec fn tree_query_s(
    p: TDTreePart,
    objs: Seq<Object>,
    ray: Ray,
    t_min: int,
    t_max: int,
) -> Option<(int, Hit)>
    decreases p,
{
    if t_min >= t_max {
        Option::None
    } else {
        match p {
            TDTreePart::Leaf { children } => leaf_scan_s(
                objs,
                children@,
                ray,
                max_i(t_min, FX_EPS as int),
                t_max,
                Option::None,
                0,
            ),
            TDTreePart::Node { axis, h, left, right } => {
                let t = intersect_axis_plane_s(ray, axis, h as int);
                let toward = axis_s(ray.direction, axis) >= 0;
                if t > t_max {
                    if toward {
                        tree_query_s(*left, objs, ray, t_min, t_max)
                    } else {
                        tree_query_s(*right, objs, ray, t_min, t_max)
                    }
                } else if t < t_min {
                    if toward {
                        tree_query_s(*right, objs, ray, t_min, t_max)
                    } else {
                        tree_query_s(*left, objs, ray, t_min, t_max)
                    }
                } else {
                    let first = if toward {
                        *left
                    } else {
                        *right
                    };
                    let second = if toward {
                        *right
                    } else {
                        *left
                    };
                    match tree_query_s(first, objs, ray, t_min, t) {
                        Option::Some(r) => Option::Some(r),
                        Option::None => tree_query_s(second, objs, ray, t, t_max),
                    }
                }
            },
        }
    }
}

/// The returned pair names a real object and a hit its own routine can
/// stand behind.
pub open spec fn query_result_ok(
    objs: Seq<Object>,
    ray: Ray,
    r: Option<(int, Hit)>,
) -> bool {
    match r {
        Option::Some((i, h)) => {
            &&& 0 <= i < objs.len()
            &&& hit_in(h)
            &&& crate::vec3::dot_s(ray.direction, h.normal) <= 0
        },
        Option::None => true,
    }
}

/// The linear scan a leaf performs.
fn leaf_hits(objects: &Vec<Object>, idxs: &Vec<usize>, ray: &Ray, t_min: i128, t_max: i128) -> (r:
    Option<(usize, Hit)>)
    requires
        forall|i: int| 0 <= i < objects@.len() ==> object_in(#[trigger] objects@[i]),
        forall|i: int| 0 <= i < idxs@.len() ==> (#[trigger] idxs@[i]) < objects@.len(),
        ray_in(*ray),
        fx_in(t_min as int),
        fx_in(t_max as int),
    ensures
        crate::hittable::option_widen(r) == leaf_scan_s(
            objects@,
            idxs@,
            *ray,
            t_min as int,
            t_max as int,
            Option::None,
            0,
        ),
        query_result_ok(objects@, *ray, crate::hittable::option_widen(r)),
        match r {
            Option::Some((i, h)) => t_min <= h.t <= t_max,
            Option::None => true,
        },
{
    let mut closest: Option<(usize, Hit)> = Option::None;
    let mut closest_dist: i128 = t_max;
    let mut i: usize = 0;
    while i < idxs.len()
        invariant
            forall|j: int| 0 <= j < objects@.len() ==> object_in(#[trigger] objects@[j]),
            forall|j: int| 0 <= j < idxs@.len() ==> (#[trigger] idxs@[j]) < objects@.len(),
            ray_in(*ray),
            fx_in(t_min as int),
            fx_in(t_max as int),
            fx_in(closest_dist as int),
            0 <= i <= idxs@.len(),
            leaf_scan_s(objects@, idxs@, *ray, t_min as int, t_max as int, Option::None, 0)
                == leaf_scan_s(
                objects@,
                idxs@,
                *ray,
                t_min as int,
                closest_dist as int,
                crate::hittable::option_widen(closest),
                i as int,
            ),
            match closest {
                Option::Some((j, h)) => j < objects@.len() && hit_in(h) && t_min <= h.t <= t_max
                    && h.t == closest_dist && crate::vec3::dot_s(ray.direction, h.normal) <= 0,
                Option::None => closest_dist == t_max,
            },
        decreases idxs@.len() - i,
    {
        let idx = idxs[i];
        match objects[idx].hit(ray, t_min, closest_dist) {
            Option::None => {},
            Option::Some(hit) => {
                closest_dist = hit.t;
                closest = Option::Some((idx, hit));
            },
        }
        i = i + 1;
    }
    closest
}

/// The recursive short-circuited nearest-hit descent.
fn obj_hit(node: &TDTreePart, objects: &Vec<Object>, ray: &Ray, t_min: i128, t_max: i128) -> (r:
    Option<(usize, Hit)>)
    requires
        part_in(*node, objects@.len() as int),
        forall|i: int| 0 <= i < objects@.len() ==> object_in(#[trigger] objects@[i]),
        ray_in(*ray),
        fx_in(t_min as int),
        fx_in(t_max as int),
    ensures
        crate::hittable::option_widen(r) == tree_query_s(
            *node,
            objects@,
            *ray,
            t_min as int,
            t_max as int,
        ),
        query_result_ok(objects@, *ray, crate::hittable::option_widen(r)),
    decreases *node,
{
    if t_min >= t_max {
        return Option::None;
    }
    match node {
        TDTreePart::Leaf { children } => {
            let lo = if t_min >= FX_EPS {
                t_min
            } else {
                FX_EPS
            };
            leaf_hits(objects, children, ray, lo, t_max)
        },
        TDTreePart::Node { axis, h, left, right } => {
            let t = ray.intersect_axis_plane(axis, *h);
            let toward = ray.direction.get_axis(axis) >= 0;
            if t > t_max {
                if toward {
                    obj_hit(left, objects, ray, t_min, t_max)
                } else {
                    obj_hit(right, objects, ray, t_min, t_max)
                }
            } else if t < t_min {
                if toward {
                    obj_hit(right, objects, ray, t_min, t_max)
                } else {
                    obj_hit(left, objects, ray, t_min, t_max)
                }
            } else {
                let first: &TDTreePart = if toward {
                    left
                } else {
                    right
                };
                let second: &TDTreePart = if toward {
                    right
                } else {
                    left
                };
                match obj_hit(first, objects, ray, t_min, t) {
                    Option::Some(r) => Option::Some(r),
                    Option::None => obj_hit(second, objects, ray, t, t_max),
                }
            }
        },
    }
}

impl TDTree {
    /// Nearest hit over the default window, by recursive descent.  For a
    /// fixed build the result is a function of the ray alone, so repeated
    /// queries agree.
    pub fn get_object_hit(&self, ray: &Ray) -> (r: Option<(usize, Hit)>)
        requires
            tdtree_in(*self),
            ray_in(*ray),
        ensures
            crate::hittable::option_widen(r) == tree_query_s(
                *self.root,
                self.objects@,
                *ray,
                FX_EPS as int,
                FX_BIG as int,
            ),
            query_result_ok(self.objects@, *ray, crate::hittable::option_widen(r)),
    {
        obj_hit(&self.root, &self.objects, ray, FX_EPS, FX_BIG)
    }
}

/// A sequence is sorted in nondecreasing order.
pub open spec fn sorted_i(s: Seq<i128>) -> bool {
    forall|a: int, b: int| 0 <= a < b < s.len() ==> s[a] <= s[b]
}

/// An index value appears in the list.
pub open spec fn contains_idx(s: Seq<usize>, v: int) -> bool {
    exists|i: int| 0 <= i < s.len() && (#[trigger] s[i]) as int == v
}

/// Sort a list of split candidates into nondecreasing order (selection of
/// the minimum, repeatedly).
fn sort_points(points: Vec<i128>) -> (out: Vec<i128>)
    requires
        forall|i: int| 0 <= i < points@.len() ==> crate::fixed::fx_in((#[trigger] points@[i]) as int),
    ensures
        out@.len() == points@.len(),
        sorted_i(out@),
        forall|i: int| 0 <= i < out@.len() ==> crate::fixed::fx_in((#[trigger] out@[i]) as int),
{
    let ghost orig = points@;
    let mut src = points;
    let mut out: Vec<i128> = Vec::new();
    while src.len() > 0
        invariant
            out@.len() + src@.len() == orig.len(),
            sorted_i(out@),
            forall|a: int, b: int|
                0 <= a < out@.len() && 0 <= b < src@.len() ==> out@[a] <= src@[b],
            forall|i: int| 0 <= i < out@.len() ==> crate::fixed::fx_in((#[trigger] out@[i]) as int),
            forall|i: int| 0 <= i < src@.len() ==> crate::fixed::fx_in((#[trigger] src@[i]) as int),
        decreases src@.len(),
    {
        let mut mi: usize = 0;
        let mut k: usize = 1;
        while k < src.len()
            invariant
                0 < src@.len(),
                0 <= mi < src@.len(),
                1 <= k <= src@.len(),
                forall|j: int| 0 <= j < k ==> src@[mi as int] <= #[trigger] src@[j],
            decreases src@.len() - k,
        {
            if src[k] < src[mi] {
                mi = k;
            }
            k = k + 1;
        }
        let x = src.swap_remove(mi);
        out.push(x);
    }
    out
}

/// Build one node over the given candidate index list.
fn build_node(objects: &Vec<Object>, idxs: Vec<usize>, depth_remaining: i32) -> (r: Box<
    TDTreePart,
>)
    requires
        forall|i: int| 0 <= i < objects@.len() ==> object_in(#[trigger] objects@[i]),
        forall|i: int| 0 <= i < idxs@.len() ==> (#[trigger] idxs@[i]) < objects@.len(),
        depth_remaining >= 0,
    ensures
        part_in(*r, objects@.len() as int),
        forall|k: int| 0 <= k < idxs@.len() ==> part_covers(*r, (#[trigger] idxs@[k]) as int),
        (idxs@.len() <= 8 || depth_remaining == 0) ==> ((*r) is Leaf && (*r)->Leaf_children@ == idxs@),
    decreases depth_remaining,
{
    if idxs.len() <= 8 || depth_remaining == 0 {
        let ghost iseq = idxs@;
        let leaf = Box::new(TDTreePart::Leaf { children: idxs });
        proof {
            assert forall|k: int| 0 <= k < iseq.len() implies part_covers(
                *leaf,
                (#[trigger] iseq[k]) as int,
            ) by {
                assert((*leaf)->Leaf_children@[k] == iseq[k]);
            }
        }
        return leaf;
    }
    let m3 = depth_remaining % 3;
    let axis = if m3 == 0 {
        Axis::X
    } else if m3 == 1 {
        Axis::Y
    } else {
        Axis::Z
    };

    // Candidate split coordinates: one bound per object, alternating between
    // the upper and the lower extent with depth, nudged by a small epsilon so
    // the boundary object does not land on both sides.
    let use_higher = depth_remaining % 6 == 0;
    let eps: i128 = if use_higher {
        FX_EPS
    } else {
        fx_neg(FX_EPS)
    };
    let mut bound_points: Vec<i128> = Vec::new();
    let mut i: usize = 0;
    while i < idxs.len()
        invariant
            forall|j: int| 0 <= j < objects@.len() ==> object_in(#[trigger] objects@[j]),
            forall|j: int| 0 <= j < idxs@.len() ==> (#[trigger] idxs@[j]) < objects@.len(),
            0 <= i <= idxs@.len(),
            bound_points@.len() == i,
            forall|j: int|
                0 <= j < bound_points@.len() ==> crate::fixed::fx_in(
                    (#[trigger] bound_points@[j]) as int,
                ),
        decreases idxs@.len() - i,
    {
        let b = objects[idxs[i]].get_bounds();
        let p = if use_higher {
            b.higher()
        } else {
            b.lower()
        };
        bound_points.push(p.get_axis(&axis));
        i = i + 1;
    }
    let sorted = sort_points(bound_points);
    let mid = fx_add(sorted[sorted.len() / 2 - 1], eps);

    // Assign each candidate to the children its box reaches; a straddler
    // goes to both.
    let mut left: Vec<usize> = Vec::new();
    let mut right: Vec<usize> = Vec::new();
    let mut i: usize = 0;
    while i < idxs.len()
        invariant
            forall|j: int| 0 <= j < objects@.len() ==> object_in(#[trigger] objects@[j]),
            forall|j: int| 0 <= j < idxs@.len() ==> (#[trigger] idxs@[j]) < objects@.len(),
            0 <= i <= idxs@.len(),
            forall|j: int| 0 <= j < left@.len() ==> (#[trigger] left@[j]) < objects@.len(),
            forall|j: int| 0 <= j < right@.len() ==> (#[trigger] right@[j]) < objects@.len(),
            forall|k: int|
                0 <= k < i ==> contains_idx(left@, (#[trigger] idxs@[k]) as int) || contains_idx(
                    right@,
                    idxs@[k] as int,
                ),
        decreases idxs@.len() - i,
    {
        let idx = idxs[i];
        let b = objects[idx].get_bounds();
        let lo = b.lower().get_axis(&axis);
        let hi = b.higher().get_axis(&axis);
        let ghost left0 = left@;
        let ghost right0 = right@;
        if lo <= mid {
            left.push(idx);
        }
        if hi > mid {
            right.push(idx);
        }
        proof {
            assert(lo <= mid || hi > mid);
            assert forall|v: int| contains_idx(left0, v) implies contains_idx(left@, v) by {
                let w = choose|j: int|
                    0 <= j < left0.len() && (#[trigger] left0[j]) as int == v;
                assert(left@[w] as int == v);
            }
            assert forall|v: int| contains_idx(right0, v) implies contains_idx(right@, v) by {
                let w = choose|j: int|
                    0 <= j < right0.len() && (#[trigger] right0[j]) as int == v;
                assert(right@[w] as int == v);
            }
            if lo <= mid {
                assert(left@[left0.len() as int] == idx);
                assert(contains_idx(left@, idx as int));
            } else {
                assert(right@[right0.len() as int] == idx);
                assert(contains_idx(right@, idx as int));
            }
        }
        i = i + 1;
    }

    // Discard a split that duplicates too much work and recurse on the same
    // set at the next axis instead.
    let keep: bool;
    {
        let l: u128 = left.len() as u128;
        let r: u128 = right.len() as u128;
        let n: u128 = idxs.len() as u128;
        keep = 5 * (l + r) <= 6 * n;
    }
    if !keep {
        let r = build_node(objects, idxs, depth_remaining - 1);
        return r;
    }
    let ghost left_seq = left@;
    let ghost right_seq = right@;
    let lchild = build_node(objects, left, depth_remaining - 1);
    let rchild = build_node(objects, right, depth_remaining - 1);
    let ghost lch = *lchild;
    let ghost rch = *rchild;
    let node = Box::new(
        TDTreePart::Node { axis, h: mid, left: lchild, right: rchild },
    );
    proof {
        assert forall|k: int| 0 <= k < idxs@.len() implies part_covers(
            *node,
            (#[trigger] idxs@[k]) as int,
        ) by {
            assert(part_covers(*node, idxs@[k] as int) == (part_covers(lch, idxs@[k] as int)
                || part_covers(rch, idxs@[k] as int)));
            if contains_idx(left_seq, idxs@[k] as int) {
                let j = choose|j: int|
                    0 <= j < left_seq.len() && (#[trigger] left_seq[j]) as int == idxs@[k] as int;
                assert(part_covers(lch, left_seq[j] as int));
            } else {
                let j = choose|j: int|
                    0 <= j < right_seq.len() && (#[trigger] right_seq[j]) as int == idxs@[k] as int;
                assert(part_covers(rch, right_seq[j] as int));
            }
        }
    }
    node
}

/// Build the spatial index over an object list.  Any input yields a valid
/// index, and no object is lost: every index appears in some leaf.
pub fn build_tdtree(hittables: Vec<Object>, max_depth: i32) -> (t: TDTree)
    requires
        forall|i: int| 0 <= i < hittables@.len() ==> object_in(#[trigger] hittables@[i]),
        max_depth >= 0,
    ensures
        tdtree_in(t),
        t.objects@ == hittables@,
        forall|i: int| 0 <= i < hittables@.len() ==> part_covers(*t.root, i),
        (hittables@.len() <= 8 || max_depth == 0) ==> ((*t.root) is Leaf
            && (*t.root)->Leaf_children@.len() == hittables@.len()
            && forall|k: int|
                0 <= k < hittables@.len() ==> (#[trigger] (*t.root)->Leaf_children@[k]) as int
                    == k),
{
    let mut idxs: Vec<usize> = Vec::new();
    let mut i: usize = 0;
    while i < hittables.len()
        invariant
            0 <= i <= hittables@.len(),
            idxs@.len() == i,
            forall|j: int| 0 <= j < idxs@.len() ==> (#[trigger] idxs@[j]) as int == j,
        decreases hittables@.len() - i,
    {
        idxs.push(i);
        i = i + 1;
    }
    let ghost idxs_seq = idxs@;
    let root = build_node(&hittables, idxs, max_depth);
    proof {
        assert forall|j: int| 0 <= j < hittables@.len() implies part_covers(*root, j) by {
            assert(idxs_seq[j] as int == j);
        }
    }
    TDTree { objects: hittables, root }
}

/// Whatever it carries in, a leaf's scan only ever reports hits that some
/// object's own routine produced.
proof fn lemma_leaf_scan_genuine(
    objs: Seq<Object>,
    idxs: Seq<usize>,
    ray: Ray,
    t_min: int,
    cur: int,
    best: Option<(int, Hit)>,
    i: int,
)
    requires
        0 <= i,
        forall|k: int| 0 <= k < idxs.len() ==> (#[trigger] idxs[k]) < objs.len(),
        reports_real_hit(objs, ray, best),
    ensures
        reports_real_hit(objs, ray, leaf_scan_s(objs, idxs, ray, t_min, cur, best, i)),
    decreases idxs.len() - i,
{
    if i < idxs.len() {
        match object_hit_s(objs[idxs[i] as int], ray, t_min, cur) {
            Option::None => {
                lemma_leaf_scan_genuine(objs, idxs, ray, t_min, cur, best, i + 1);
            },
            Option::Some(h) => {
                assert(object_hit_s(objs[idxs[i] as int], ray, t_min, cur) == Option::Some(h));
                lemma_leaf_scan_genuine(
                    objs,
                    idxs,
                    ray,
                    t_min,
                    h.t as int,
                    Option::Some((idxs[i] as int, h)),
                    i + 1,
                );
            },
        }
    }
}

/// Soundness of the descent at every node: a reported pair is a hit the
/// named object's own intersection routine produced.
proof fn lemma_tree_query_genuine(
    p: TDTreePart,
    objs: Seq<Object>,
    ray: Ray,
    t_min: int,
    t_max: int,
)
    requires
        part_in(p, objs.len() as int),
    ensures
        reports_real_hit(objs, ray, tree_query_s(p, objs, ray, t_min, t_max)),
    decreases p,
{
    if t_min < t_max {
        match p {
            TDTreePart::Leaf { children } => {
                lemma_leaf_scan_genuine(
                    objs,
                    children@,
                    ray,
                    max_i(t_min, FX_EPS as int),
                    t_max,
                    Option::None,
                    0,
                );
            },
            TDTreePart::Node { axis, h, left, right } => {
                let t = intersect_axis_plane_s(ray, axis, h as int);
                lemma_tree_query_genuine(*left, objs, ray, t_min, t_max);
                lemma_tree_query_genuine(*right, objs, ray, t_min, t_max);
                lemma_tree_query_genuine(*left, objs, ray, t_min, t);
                lemma_tree_query_genuine(*right, objs, ray, t_min, t);
                lemma_tree_query_genuine(*left, objs, ray, t, t_max);
                lemma_tree_query_genuine(*right, objs, ray, t, t_max);
            },
        }
    }
}

/// Soundness of the index's query over every shape, meshes included: a
/// reported pair is a hit the named object's own intersection routine
/// produced.  The contract of `get_object_hit` fixes the short-circuited
/// descent exactly (so repeated queries and tie-breaking are consistent
/// for a fixed build); the claim that the descent never passes over a
/// closer build-set intersection is not stated here.
pub proof fn lemma_get_object_hit_genuine(t: TDTree, ray: Ray)
    requires
        tdtree_in(t),
    ensures
        reports_real_hit(
            t.objects@,
            ray,
            tree_query_s(*t.root, t.objects@, ray, FX_EPS as int, FX_BIG as int),
        ),
{
    lemma_tree_query_genuine(*t.root, t.objects@, ray, FX_EPS as int, FX_BIG as int);
}

} // verus!
