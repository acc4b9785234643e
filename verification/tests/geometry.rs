use tracer::fixed::{fx_div, fx_mul, fx_sqrt, FX_BIG, FX_EPS, FX_ONE};
use tracer::hittable::{hit_list, hit_list_default, BoundingBox, HittableList};
use tracer::materials::{Lambertian, Material};
use tracer::object::{Object, Shape};
use tracer::polygon::Polygon;
use tracer::random::Prng;
use tracer::ray::Ray;
use tracer::sphere::Sphere;
use tracer::three_d_tree::{build_tdtree, Axis, TDTree, TDTreePart};
use tracer::triangle::Triangle;
use tracer::vec3::Vec3;

fn v(x: i128, y: i128, z: i128) -> Vec3 {
    Vec3 { x, y, z }
}

#[test]
fn fixed_point_ops_exact() {
    assert_eq!(fx_mul(2 * FX_ONE, 3 * FX_ONE), 6 * FX_ONE);
    assert_eq!(fx_mul(-2 * FX_ONE, 3 * FX_ONE), -6 * FX_ONE);
    assert_eq!(fx_div(6 * FX_ONE, 3 * FX_ONE), 2 * FX_ONE);
    assert_eq!(fx_div(FX_ONE, 0), FX_BIG);
    assert_eq!(fx_div(-FX_ONE, 0), -FX_BIG);
    assert_eq!(fx_div(0, 0), 0);
    assert_eq!(fx_sqrt(4 * FX_ONE), 2 * FX_ONE);
    assert_eq!(fx_sqrt(-FX_ONE), 0);
    assert_eq!(fx_mul(FX_BIG, FX_BIG), FX_BIG);
}

#[test]
fn unit_sphere_axis_ray_parameter_is_closed_form_root() {
    let sphere = Sphere { center: v(0, 0, 0), radius: FX_ONE };
    let ray = Ray { origin: v(0, 0, 5 * FX_ONE), direction: v(0, 0, -FX_ONE) };
    let hit = sphere.hit(&ray, FX_EPS, FX_BIG).expect("must hit");
    // The closed-form smaller root is exactly 4.
    assert_eq!(hit.t, 4 * FX_ONE);
    assert_eq!(hit.normal, v(0, 0, FX_ONE));
    assert!(hit.front_face);
    assert_eq!(hit.p, v(0, 0, FX_ONE));
}

#[test]
fn sphere_inside_ray_reports_flipped_normal() {
    let sphere = Sphere { center: v(0, 0, 0), radius: FX_ONE };
    // From the center outward: the geometric normal points along the ray and
    // must be flipped to satisfy the front-face convention.
    let ray = Ray { origin: v(0, 0, 0), direction: v(0, 0, -FX_ONE) };
    let hit = sphere.hit(&ray, FX_EPS, FX_BIG).expect("must hit");
    assert!(!hit.front_face);
    assert!(ray.direction.dot(&hit.normal) <= 0);
}

#[test]
fn triangle_hit_and_bounds() {
    let tri = Triangle {
        p1: v(-FX_ONE, -FX_ONE, -2 * FX_ONE),
        p2: v(FX_ONE, -FX_ONE, -2 * FX_ONE),
        p3: v(0, FX_ONE, -2 * FX_ONE),
    };
    let ray = Ray { origin: v(0, 0, 0), direction: v(0, 0, -FX_ONE) };
    let hit = tri.hit(&ray, FX_EPS, FX_BIG).expect("must hit");
    assert_eq!(hit.t, 2 * FX_ONE);
    assert!(ray.direction.dot(&hit.normal) <= 0);
    let b = tri.get_bounds();
    assert_eq!(b.x_low, -FX_ONE);
    assert_eq!(b.x_high, FX_ONE);
    assert_eq!(b.y_low, -FX_ONE);
    assert_eq!(b.y_high, FX_ONE);
    assert_eq!(b.z_low, -2 * FX_ONE);
    assert_eq!(b.z_high, -2 * FX_ONE);
    // A ray well outside the triangle misses.
    let miss = Ray { origin: v(5 * FX_ONE, 0, 0), direction: v(0, 0, -FX_ONE) };
    assert!(tri.hit(&miss, FX_EPS, FX_BIG).is_none());
}

#[test]
fn bounding_box_containment() {
    let b = BoundingBox::new(0, FX_ONE, 0, FX_ONE, 0, FX_ONE);
    assert!(b.encloses_point(&v(FX_ONE / 2, FX_ONE / 2, FX_ONE / 2)));
    assert!(!b.encloses_point(&v(2 * FX_ONE, 0, 0)));
    assert!(b.encloses_bounds(BoundingBox::new(0, FX_ONE / 2, 0, FX_ONE / 2, 0, FX_ONE / 2)));
    let ray = Ray { origin: v(FX_ONE / 2, FX_ONE / 2, 5 * FX_ONE), direction: v(0, 0, -FX_ONE) };
    assert!(b.intersects(&ray, FX_EPS, FX_BIG));
    let away = Ray { origin: v(FX_ONE / 2, FX_ONE / 2, 5 * FX_ONE), direction: v(0, 0, FX_ONE) };
    assert!(!b.intersects(&away, FX_EPS, FX_BIG));
}

fn random_coord(rng: &mut Prng) -> i128 {
    // A coordinate in about [-4, 4).
    rng.next_symmetric() * 4
}

fn random_objects(seed: u64, n: usize) -> Vec<Object> {
    let mut rng = Prng::new(seed);
    let mut objs = Vec::new();
    for k in 0..n {
        let mat = Material::Diffuse(Lambertian { albedo: v(FX_ONE / 2, FX_ONE / 2, FX_ONE / 2) });
        if k % 3 == 0 {
            let p1 = v(random_coord(&mut rng), random_coord(&mut rng), random_coord(&mut rng));
            let p2 = v(random_coord(&mut rng), random_coord(&mut rng), random_coord(&mut rng));
            let p3 = v(random_coord(&mut rng), random_coord(&mut rng), random_coord(&mut rng));
            objs.push(Object::new(mat, Shape::Face(Triangle { p1, p2, p3 })));
        } else {
            let c = v(random_coord(&mut rng), random_coord(&mut rng), random_coord(&mut rng));
            let r = rng.next_unit() + FX_ONE / 8;
            objs.push(Object::new(mat, Shape::Ball(Sphere { center: c, radius: r })));
        }
    }
    objs
}

#[test]
fn spatial_index_agrees_with_linear_scan() {
    // Differential test: for a pseudo-random object set, the index's
    // nearest hit matches the brute-force scan for many pseudo-random rays.
    let tree = build_tdtree(random_objects(11, 30), 12);
    let list = HittableList { objects: random_objects(11, 30) };
    let mut rng = Prng::new(99);
    let mut hits = 0;
    for _ in 0..200 {
        let origin = v(
            random_coord(&mut rng) * 2,
            random_coord(&mut rng) * 2,
            random_coord(&mut rng) * 2,
        );
        let direction = v(
            rng.next_symmetric(),
            rng.next_symmetric(),
            rng.next_symmetric(),
        );
        let ray = Ray { origin, direction };
        let from_tree = tree.get_object_hit(&ray);
        let from_list = list.get_object_hit(&ray);
        match (from_tree, from_list) {
            (None, None) => {}
            (Some((ti, th)), Some((li, lh))) => {
                assert_eq!(ti, li);
                assert_eq!(th.t, lh.t);
                hits += 1;
            }
            (a, b) => panic!("index and scan disagree: {:?} vs {:?}", a.is_some(), b.is_some()),
        }
    }
    assert!(hits > 0, "the differential test never exercised a hit");
}

#[test]
fn every_hit_normal_opposes_the_ray() {
    // The front-face convention holds for every produced hit.
    let tree = build_tdtree(random_objects(5, 24), 10);
    let mut rng = Prng::new(7);
    let mut seen = 0;
    for _ in 0..200 {
        let ray = Ray {
            origin: v(
                random_coord(&mut rng) * 2,
                random_coord(&mut rng) * 2,
                random_coord(&mut rng) * 2,
            ),
            direction: v(
                rng.next_symmetric(),
                rng.next_symmetric(),
                rng.next_symmetric(),
            ),
        };
        if let Some((_, hit)) = tree.get_object_hit(&ray) {
            assert!(ray.direction.dot(&hit.normal) <= 0);
            seen += 1;
        }
    }
    assert!(seen > 0);
}

#[test]
fn hit_list_narrows_to_the_closest() {
    let mat = || Material::Diffuse(Lambertian { albedo: v(FX_ONE, FX_ONE, FX_ONE) });
    let objs = vec![
        Object::new(mat(), Shape::Ball(Sphere { center: v(0, 0, -6 * FX_ONE), radius: FX_ONE })),
        Object::new(mat(), Shape::Ball(Sphere { center: v(0, 0, -3 * FX_ONE), radius: FX_ONE })),
        Object::new(mat(), Shape::Ball(Sphere { center: v(0, 0, -9 * FX_ONE), radius: FX_ONE })),
    ];
    let ray = Ray { origin: v(0, 0, 0), direction: v(0, 0, -FX_ONE) };
    let (idx, hit) = hit_list_default(&objs, &ray).expect("must hit");
    assert_eq!(idx, 1);
    assert_eq!(hit.t, 2 * FX_ONE);
    // An explicit window can exclude a sphere's near root: the middle
    // sphere is then met again through its far root at t = 4, still the
    // closest hit in the window.
    let (idx2, hit2) = hit_list(&objs, &ray, 3 * FX_ONE, FX_BIG).expect("must hit");
    assert_eq!(idx2, 1);
    assert_eq!(hit2.t, 4 * FX_ONE);
}

#[test]
fn vector_algebra_matches_hand_values() {
    let a = v(FX_ONE, 2 * FX_ONE, 3 * FX_ONE);
    let b = v(4 * FX_ONE, -5 * FX_ONE, 6 * FX_ONE);
    assert_eq!(a.dot(&b), (4 - 10 + 18) * FX_ONE);
    assert_eq!(a.add(b), v(5 * FX_ONE, -3 * FX_ONE, 9 * FX_ONE));
    assert_eq!(a.sub(b), v(-3 * FX_ONE, 7 * FX_ONE, -3 * FX_ONE));
    assert_eq!(a.cross(&b), v(27 * FX_ONE, 6 * FX_ONE, -13 * FX_ONE));
    assert_eq!(a.scale(2 * FX_ONE), v(2 * FX_ONE, 4 * FX_ONE, 6 * FX_ONE));
    assert_eq!(v(3 * FX_ONE, 4 * FX_ONE, 0).length(), 5 * FX_ONE);
    let reflected = v(FX_ONE, -FX_ONE, 0).reflect(v(0, FX_ONE, 0));
    assert_eq!(reflected, v(FX_ONE, FX_ONE, 0));
    assert!(v(10, -10, 5).near_zero());
    assert!(!v(FX_ONE, 0, 0).near_zero());
}

#[test]
fn unit_vector_handles_degenerate_input() {
    let u = v(0, 0, 3 * FX_ONE).unit_vector();
    assert_eq!(u, v(0, 0, FX_ONE));
    // The zero vector saturates deterministically instead of faulting.
    let z = v(0, 0, 0).unit_vector();
    assert_eq!(z, v(0, 0, 0));
}

#[test]
fn polygon_fans_into_triangles() {
    let vs = vec![
        v(0, 0, 0),
        v(FX_ONE, 0, 0),
        v(FX_ONE, FX_ONE, 0),
        v(0, FX_ONE, 0),
        v(-FX_ONE, FX_ONE / 2, 0),
    ];
    let p = Polygon::new(vs);
    assert_eq!(p.triangles.len(), 2);
    assert_eq!(p.triangles[0].p1, v(FX_ONE, 0, 0));
    assert_eq!(p.triangles[1].p3, v(-FX_ONE, FX_ONE / 2, 0));
}

#[test]
fn zero_direction_plane_parameter_saturates() {
    // A ray that cannot reach an axis plane reports the saturation bound,
    // signed by the plane's side -- never zero, even when the origin lies
    // exactly in the plane.
    let in_plane = Ray { origin: v(0, FX_ONE, 0), direction: v(0, 0, -FX_ONE) };
    assert_eq!(in_plane.intersect_axis_plane(&Axis::Y, FX_ONE), FX_BIG);
    assert_eq!(in_plane.intersect_axis_plane(&Axis::Y, 2 * FX_ONE), FX_BIG);
    assert_eq!(in_plane.intersect_axis_plane(&Axis::Y, 0), -FX_BIG);
    // A reachable plane still gives the finite parameter.
    assert_eq!(in_plane.intersect_axis_plane(&Axis::Z, -3 * FX_ONE), 3 * FX_ONE);
}

#[test]
fn in_plane_ray_descends_the_near_child() {
    // A ray lying exactly in a split plane, tangent to a sphere whose box
    // top touches that plane: the unreachable-plane parameter sends the
    // descent into the near child with the full window, so the hit is
    // found, matching the brute-force scan.
    let mat = Material::Diffuse(Lambertian { albedo: v(FX_ONE, FX_ONE, FX_ONE) });
    let sphere = Sphere { center: v(0, 0, -3 * FX_ONE), radius: FX_ONE };
    let objects = vec![Object::new(mat, Shape::Ball(sphere))];
    let tree = TDTree {
        objects,
        root: Box::new(TDTreePart::Node {
            axis: Axis::Y,
            h: FX_ONE,
            left: Box::new(TDTreePart::Leaf { children: vec![0] }),
            right: Box::new(TDTreePart::Leaf { children: vec![] }),
        }),
    };
    let ray = Ray { origin: v(0, FX_ONE, 0), direction: v(0, 0, -FX_ONE) };
    let (idx, hit) = tree.get_object_hit(&ray).expect("the tangent hit must be found");
    assert_eq!(idx, 0);
    assert_eq!(hit.t, 3 * FX_ONE);
    let list = hit_list_default(&tree.objects, &ray).expect("the scan finds it too");
    assert_eq!(list.1.t, hit.t);
}

#[test]
fn slab_test_accepts_a_ray_sliding_along_a_face() {
    // A ray in the plane of the box's upper x face, pointing down the box:
    // the face's plane is unreachable, so the slab window stays open and
    // the box reports the intersection.
    let b = BoundingBox::new(0, FX_ONE, 0, FX_ONE, 0, FX_ONE);
    let graze = Ray {
        origin: v(FX_ONE, FX_ONE / 2, 5 * FX_ONE),
        direction: v(0, 0, -FX_ONE),
    };
    assert!(b.intersects(&graze, FX_EPS, FX_BIG));
}

