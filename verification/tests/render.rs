use tracer::camera::Camera;
use tracer::denoise::smooth;
use tracer::fixed::{FX_BIG, FX_EPS, FX_ONE};
use tracer::lights::{AmbientLight, Light, PointLight};
use tracer::materials::{ConstantColorMaterial, Dielectric, Lambertian, Material, Metal};
use tracer::object::{Object, Shape};
use tracer::random::Prng;
use tracer::ray::Ray;
use tracer::render::{ray_color, ray_color_per_light, RenderConfig};
use tracer::sampler::{render_image, render_pixel};
use tracer::scene::{ObjectContainer, Scene};
use tracer::sphere::Sphere;
use tracer::three_d_tree::build_tdtree;
use tracer::vec3::Vec3;

fn v(x: i128, y: i128, z: i128) -> Vec3 {
    Vec3 { x, y, z }
}

fn config() -> RenderConfig {
    RenderConfig::default()
}

fn empty_scene(lights: Vec<Light>) -> Scene {
    Scene { objects: ObjectContainer::Tree(build_tdtree(Vec::new(), 4)), lights }
}

fn one_sphere_scene(material: Material, lights: Vec<Light>) -> Scene {
    let objs = vec![Object::new(
        material,
        Shape::Ball(Sphere { center: v(0, 0, -FX_ONE), radius: FX_ONE / 2 }),
    )];
    Scene { objects: ObjectContainer::Tree(build_tdtree(objs, 8)), lights }
}

#[test]
fn point_light_falloff_is_inverse_square() {
    // A light of intensity 7 at distance 10 with no occluders contributes
    // color * 7 / 100 exactly (in fixed-point truncation).
    let light = PointLight {
        position: v(0, 0, 10 * FX_ONE),
        color: v(FX_ONE, FX_ONE, FX_ONE),
        intensity: 7 * FX_ONE,
    };
    let world = empty_scene(Vec::new());
    let info = light.at(v(0, 0, 0), &world, 0);
    assert_eq!(info.direction, v(0, 0, FX_ONE));
    // 1/100 in fixed point truncates to 42949672; times 7 exactly.
    assert_eq!(info.color, v(7 * 42949672, 7 * 42949672, 7 * 42949672));
    // The falloff alone.
    assert_eq!(light.falloff(10 * FX_ONE), 42949672);
}

#[test]
fn point_light_is_occluded_by_geometry() {
    let light = PointLight {
        position: v(0, 0, 10 * FX_ONE),
        color: v(FX_ONE, FX_ONE, FX_ONE),
        intensity: 7 * FX_ONE,
    };
    // A sphere sits between the origin and the light.
    let objs = vec![Object::new(
        Material::Diffuse(Lambertian { albedo: v(FX_ONE, FX_ONE, FX_ONE) }),
        Shape::Ball(Sphere { center: v(0, 0, 5 * FX_ONE), radius: FX_ONE }),
    )];
    let world = Scene { objects: ObjectContainer::Tree(build_tdtree(objs, 8)), lights: Vec::new() };
    let info = light.at(v(0, 0, 0), &world, 0);
    assert_eq!(info.color, v(0, 0, 0));
}

#[test]
fn falloff_uses_accumulated_path_distance() {
    let light = PointLight {
        position: v(0, 0, 5 * FX_ONE),
        color: v(FX_ONE, FX_ONE, FX_ONE),
        intensity: FX_ONE,
    };
    let world = empty_scene(Vec::new());
    // distance 5 plus 5 already traveled: falloff of 10, not of 5.
    let info = light.at(v(0, 0, 0), &world, 5 * FX_ONE);
    assert_eq!(info.color.x, light.falloff(10 * FX_ONE));
}

#[test]
fn ambient_light_contributes_only_on_escape() {
    let amb = AmbientLight { brightness: FX_ONE };
    let world = empty_scene(Vec::new());
    let at = amb.at(v(0, 0, 0), &world, 0);
    assert_eq!(at.color, v(0, 0, 0));
    let ray = Ray { origin: v(0, 0, 0), direction: v(0, 0, -FX_ONE) };
    let sky = amb.no_hit(&ray, 0);
    assert!(sky.z == FX_ONE);
    assert!(sky.x > 0 && sky.y > 0);
}

#[test]
fn terminal_materials_do_not_scatter() {
    let mut rng = Prng::new(1);
    let sphere = Sphere { center: v(0, 0, -FX_ONE), radius: FX_ONE / 2 };
    let ray = Ray { origin: v(0, 0, 0), direction: v(0, 0, -FX_ONE) };
    let hit = sphere.hit(&ray, FX_EPS, FX_BIG).unwrap();
    let constant = Material::Constant(ConstantColorMaterial { color: v(FX_ONE, 0, 0) });
    assert!(constant.scatter(&ray, &hit, &mut rng).is_none());
    let diffuse = Material::Diffuse(Lambertian { albedo: v(FX_ONE, 0, 0) });
    assert!(diffuse.scatter(&ray, &hit, &mut rng).is_some());
    let shiny = Material::Shiny(Metal { albedo: v(FX_ONE, 0, 0), fuzz: 0 });
    assert!(shiny.scatter(&ray, &hit, &mut rng).is_some());
    let glass = Material::Glass(Dielectric { ir: 3 * FX_ONE / 2 });
    assert!(glass.scatter(&ray, &hit, &mut rng).is_some());
}

#[test]
fn integrator_zeroes_out_at_bounce_budget() {
    let world = one_sphere_scene(
        Material::Diffuse(Lambertian { albedo: v(FX_ONE, FX_ONE, FX_ONE) }),
        vec![Light::Ambient(AmbientLight { brightness: FX_ONE })],
    );
    let ray = Ray { origin: v(0, 0, 0), direction: v(0, 0, -FX_ONE) };
    let mut rng = Prng::new(3);
    let (colors, hit) = ray_color_per_light(&ray, &world, 0, 0, &mut rng);
    assert_eq!(colors, vec![v(0, 0, 0)]);
    assert!(hit.is_none());
}

#[test]
fn end_to_end_sphere_and_light() {
    // One sphere in front of the camera, one point light far along +Z, one
    // ambient sky: a centered primary ray hits with normal close to +Z and
    // a strictly positive color; a ray aimed well away sees only the
    // escaped-ray response.
    let lights = vec![
        Light::Point(PointLight {
            position: v(0, 0, 100 * FX_ONE),
            color: v(FX_ONE, FX_ONE, FX_ONE),
            intensity: 10000 * FX_ONE,
        }),
        Light::Ambient(AmbientLight { brightness: FX_ONE }),
    ];
    let world = one_sphere_scene(
        Material::Diffuse(Lambertian { albedo: v(FX_ONE / 2, FX_ONE / 2, FX_ONE / 2) }),
        lights,
    );
    let ray = Ray { origin: v(0, 0, 0), direction: v(0, 0, -FX_ONE) };
    let (_, hit) = world.get_object_hit(&ray).expect("the centered ray must hit");
    // The outward normal at the near pole points back toward the origin.
    assert!(hit.normal.z > FX_ONE * 9 / 10);
    assert!(hit.normal.x.abs() < FX_EPS && hit.normal.y.abs() < FX_EPS);
    let mut rng = Prng::new(42);
    let (color, chit) = ray_color(&ray, &world, 10, 2 * FX_ONE, &mut rng);
    assert!(chit.is_some());
    assert!(color.x > 0 && color.y > 0 && color.z > 0);

    // A ray aimed far off the sphere sees no geometry, and the point
    // light's glow vanishes for a perpendicular direction, leaving the sky.
    let miss = Ray { origin: v(0, 0, 0), direction: v(FX_ONE, 0, 0) };
    assert!(world.get_object_hit(&miss).is_none());
    let mut rng2 = Prng::new(43);
    let (mcolor, mhit) = ray_color(&miss, &world, 10, 2 * FX_ONE, &mut rng2);
    assert!(mhit.is_none());
    let sky = tracer::lights::sky_background(FX_ONE, &miss);
    let expected = sky.ln_1p().clamp(v(2 * FX_ONE, 2 * FX_ONE, 2 * FX_ONE));
    assert_eq!(mcolor, expected);
}

#[test]
fn sampler_is_reproducible_for_a_fixed_seed() {
    let world = one_sphere_scene(
        Material::Constant(ConstantColorMaterial { color: v(FX_ONE / 2, FX_ONE / 4, FX_ONE / 8) }),
        vec![Light::Ambient(AmbientLight { brightness: FX_ONE })],
    );
    let camera = Camera::new(v(0, 0, 0), 16 * FX_ONE / 9, 2 * FX_ONE, 4 * FX_ONE, FX_ONE);
    let cfg = config();
    let mut rng1 = Prng::new(1234);
    let mut rng2 = Prng::new(1234);
    let a = render_pixel(&world, &camera, 7, 4, 16, 9, &cfg, &mut rng1);
    let b = render_pixel(&world, &camera, 7, 4, 16, 9, &cfg, &mut rng2);
    assert_eq!(a.0, b.0);
    assert_eq!(a.1, b.1);
    assert_eq!(a.2, b.2);
    assert_eq!(rng1.state, rng2.state);
}

#[test]
fn sampler_cap_beyond_convergence_changes_nothing() {
    // A terminal constant-color material gives zero-variance samples, so
    // the loop converges after its first batch; doubling the cap must give
    // a bit-identical result.
    let world = one_sphere_scene(
        Material::Constant(ConstantColorMaterial { color: v(FX_ONE / 2, FX_ONE / 4, FX_ONE / 8) }),
        vec![Light::Ambient(AmbientLight { brightness: FX_ONE })],
    );
    let camera = Camera::new(v(0, 0, 0), 16 * FX_ONE / 9, 2 * FX_ONE, 4 * FX_ONE, FX_ONE);
    let mut small_cfg = config();
    small_cfg.max_dynamic_oversampling = 5;
    let mut big_cfg = config();
    big_cfg.max_dynamic_oversampling = 30;
    let mut rng1 = Prng::new(77);
    let mut rng2 = Prng::new(77);
    let a = render_pixel(&world, &camera, 7, 4, 16, 9, &small_cfg, &mut rng1);
    let b = render_pixel(&world, &camera, 7, 4, 16, 9, &big_cfg, &mut rng2);
    assert_eq!(a.0, b.0);
    assert_eq!(a.1, b.1);
    assert_eq!(a.2, b.2);
}

#[test]
fn camera_rays_span_the_viewport() {
    let camera = Camera::new(v(0, 0, 0), 16 * FX_ONE / 9, 2 * FX_ONE, 4 * FX_ONE, FX_ONE);
    let center = camera.get_ray(FX_ONE / 2, FX_ONE / 2);
    assert_eq!(center.origin, v(0, 0, 0));
    assert_eq!(center.direction, v(0, 0, -FX_ONE));
    let corner = camera.get_ray(0, 0);
    assert_eq!(corner.direction, v(-2 * FX_ONE, -FX_ONE, -FX_ONE));
}

#[test]
fn denoise_uniform_neighborhood_is_identity() {
    // Identical colors and normals with floor variance: the filter output
    // equals the input exactly.
    let c = v(FX_ONE / 2, FX_ONE / 3, FX_ONE / 7);
    let n = Some(v(0, 0, FX_ONE));
    let image = vec![vec![c; 3]; 3];
    let normals = vec![vec![n; 3]; 3];
    let vars = vec![vec![FX_EPS; 3]; 3];
    let out = smooth(&image, &normals, &vars, &config(), 3);
    for row in &out {
        for px in row {
            assert_eq!(*px, c);
        }
    }
}

#[test]
fn denoise_skips_pixels_without_agreed_normals() {
    let c = v(FX_ONE / 2, FX_ONE / 3, FX_ONE / 7);
    let other = v(FX_ONE, FX_ONE, FX_ONE);
    let mut image = vec![vec![other; 3]; 3];
    image[1][1] = c;
    let mut normals = vec![vec![Some(v(0, 0, FX_ONE)); 3]; 3];
    normals[1][1] = None;
    let vars = vec![vec![FX_EPS; 3]; 3];
    let out = smooth(&image, &normals, &vars, &config(), 3);
    assert_eq!(out[1][1], c);
}

#[test]
fn denoise_blends_toward_agreeing_neighbors() {
    // A noisy center pixel with huge variance among identical neighbors is
    // pulled toward them.
    let neighbor = v(FX_ONE, FX_ONE, FX_ONE);
    let noisy = v(0, 0, 0);
    let mut image = vec![vec![neighbor; 3]; 3];
    image[1][1] = noisy;
    let normals = vec![vec![Some(v(0, 0, FX_ONE)); 3]; 3];
    let mut vars = vec![vec![FX_EPS; 3]; 3];
    vars[1][1] = 1000 * FX_ONE;
    let out = smooth(&image, &normals, &vars, &config(), 3);
    assert!(out[1][1].x > FX_ONE / 2);
}

#[test]
fn prng_stream_is_deterministic_and_entropy_seeding_runs() {
    let mut a = Prng::new(5);
    let mut b = Prng::new(5);
    for _ in 0..10 {
        assert_eq!(a.next_u64(), b.next_u64());
    }
    let u = a.next_unit();
    assert!(0 <= u && u < FX_ONE);
    let s = a.next_symmetric();
    assert!(-FX_ONE <= s && s < FX_ONE);
    // Entropy seeding produces a working generator.
    let mut e = Prng::from_entropy();
    let _ = e.next_u64();
    assert_ne!(e.state, 0);
}

#[test]
fn schlick_reflectance_at_normal_incidence() {
    // cos = 1 kills the fifth-power term, leaving r0 = ((1-n)/(1+n))^2;
    // for n = 1.5 that is 0.04 (up to fixed-point truncation).
    let r = Dielectric::reflectance(FX_ONE, 3 * FX_ONE / 2);
    assert_eq!(r, 171798691);
    // Grazing incidence reflects almost fully.
    let grazing = Dielectric::reflectance(0, 3 * FX_ONE / 2);
    assert!(grazing > 9 * FX_ONE / 10);
}

#[test]
fn soft_compression_is_positive_and_shrinking() {
    let big = v(10 * FX_ONE, FX_ONE, 0);
    let c = big.ln_1p();
    assert!(0 < c.x && c.x <= 10 * FX_ONE);
    assert!(0 < c.y && c.y <= FX_ONE);
    assert_eq!(c.z, 0);
    // The hard clamp caps each channel.
    let capped = c.clamp(v(FX_ONE / 2, FX_ONE / 2, FX_ONE / 2));
    assert!(capped.x <= FX_ONE / 2);
}

#[test]
fn normal_to_color_maps_unit_range() {
    let c = tracer::util::normal_to_color(&v(FX_ONE, -FX_ONE, 0));
    assert_eq!(c, v(FX_ONE, 0, FX_ONE / 2));
}

#[test]
fn whole_image_render_is_reproducible() {
    let world = one_sphere_scene(
        Material::Constant(ConstantColorMaterial { color: v(FX_ONE / 2, FX_ONE / 4, FX_ONE / 8) }),
        vec![Light::Ambient(AmbientLight { brightness: FX_ONE })],
    );
    let camera = Camera::new(v(0, 0, 0), 16 * FX_ONE / 9, 2 * FX_ONE, 4 * FX_ONE, FX_ONE);
    let mut cfg = config();
    cfg.base_samples = 4;
    cfg.max_dynamic_oversampling = 2;
    let mut rng1 = Prng::new(9);
    let mut rng2 = Prng::new(9);
    let (c1, n1, v1) = render_image(&world, &camera, 6, 4, &cfg, &mut rng1);
    let (c2, n2, v2) = render_image(&world, &camera, 6, 4, &cfg, &mut rng2);
    assert_eq!(c1.len(), 4);
    assert_eq!(c1[0].len(), 6);
    assert_eq!(c1, c2);
    assert_eq!(n1, n2);
    assert_eq!(v1, v2);
    assert_eq!(rng1.state, rng2.state);
}
