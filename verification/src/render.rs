//! The recursive multi-light integrator: one spatial-index query per call,
//! one color per light, an explicit bounce budget and accumulated path
//! distance, and a soft compression plus hard clamp at the top.

use vstd::prelude::*;

use crate::fixed::{fx_add, fx_add_s, fx_in, FX_EPS, FX_ONE};
use crate::hittable::{hit_in, Hit};
use crate::lights::{light_at_s, light_no_hit_s};
use crate::materials::{material_color_s, material_in, material_scatter_s};
use crate::random::Prng;
use crate::ray::{ray_in, Ray};
use crate::scene::{container_hit_s, container_objects, scene_in, Scene};
use crate::vec3::{add_s, clamp_s, ln1p_s, sub_s, vec_in, Vec3};

verus! {

/// The tunables of a render, gathered into one structure passed to the
/// entry points.
#[derive(Clone, Copy, PartialEq, Eq, Structural, Debug)]
pub struct RenderConfig {
    /// Bounce budget per primary ray.
    pub max_bounces: u32,
    /// Stochastic samples per batch.
    pub base_samples: u32,
    /// Whether the adaptive sampler may draw more than one batch.
    pub do_dynamic_oversampling: bool,
    /// Most batches a pixel may consume.
    pub max_dynamic_oversampling: u32,
    /// Hard per-channel ceiling after compression.
    pub max_light_val: i128,
    /// The standard error below which a pixel counts as converged.
    pub uncertainty_threshold: i128,
    /// Whether the denoising filter runs at all.
    pub do_post_processing: bool,
    /// How far a sample normal may stray from the average before the
    /// pixel's smoothing is disabled.
    pub similarity_threshold: i128,
    /// Side of the square smoothing neighborhood (odd).
    pub smooth_size: u32,
    /// Base weight of the center pixel before variance scaling.
    pub smoothing_base_weight: i128,
}

pub open spec fn config_in(c: RenderConfig) -> bool {
    &&& fx_in(c.max_light_val as int)
    &&& fx_in(c.uncertainty_threshold as int)
    &&& fx_in(c.similarity_threshold as int)
    &&& fx_in(c.smoothing_base_weight as int)
    &&& c.base_samples >= 2
    &&& c.max_dynamic_oversampling >= 1
    &&& c.max_dynamic_oversampling < 0x7fff_ffffu32
    &&& c.smooth_size % 2 == 1
    &&& c.smooth_size <= 15
}

impl Default for RenderConfig {
    /// The stock configuration.
    fn default() -> (c: RenderConfig)
        ensures
            c == (RenderConfig {
                max_bounces: 10u32,
                base_samples: 30u32,
                do_dynamic_oversampling: true,
                max_dynamic_oversampling: 30u32,
                max_light_val: (2 * FX_ONE) as i128,
                uncertainty_threshold: FX_EPS,
                do_post_processing: true,
                similarity_threshold: (2 * FX_ONE) as i128,
                smooth_size: 3u32,
                smoothing_base_weight: (4 * FX_ONE) as i128,
            }),
            config_in(c),
    {
        RenderConfig {
            max_bounces: 10,
            base_samples: 30,
            do_dynamic_oversampling: true,
            max_dynamic_oversampling: 30,
            max_light_val: 2 * FX_ONE,
            uncertainty_threshold: FX_EPS,
            do_post_processing: true,
            similarity_threshold: 2 * FX_ONE,
            smooth_size: 3,
            smoothing_base_weight: 4 * FX_ONE,
        }
    }
}

/// One zero color per light.
pub open spec fn zero_colors_s(n: nat) -> Seq<Vec3> {
    Seq::new(n, |i: int| Vec3 { x: 0i128, y: 0i128, z: 0i128 })
}

/// What the integrator returns: a color per light, the first hit if any,
/// and the generator state it leaves behind.
pub open spec fn trace_s(
    world: Scene,
    ray: Ray,
    bounces_left: int,
    dist_so_far: int,
    s: u64,
) -> (Seq<Vec3>, Option<Hit>, u64)
    decreases bounces_left,
{
    let n = world.lights@.len();
    if bounces_left <= 0 {
        (zero_colors_s(n), Option::<Hit>::None, s)
    } else {
        match container_hit_s(world.objects, ray) {
            Option::None => (
                Seq::new(n, |i: int| light_no_hit_s(world.lights@[i], ray, dist_so_far)),
                Option::<Hit>::None,
                s,
            ),
            Option::Some((io, hit)) => {
                let mat = container_objects(world.objects)[io].material;
                let (sc, s2) = material_scatter_s(mat, ray, hit, s);
                match sc {
                    Option::None => (zero_colors_s(n), Option::Some(hit), s2),
                    Option::Some(next_ray) => {
                        let seg = crate::vec3::length_s(sub_s(hit.p, ray.origin));
                        let rec = trace_s(
                            world,
                            next_ray,
                            bounces_left - 1,
                            fx_add_s(dist_so_far, seg),
                            s2,
                        );
                        let colors = Seq::new(
                            n,
                            |i: int|
                                material_color_s(
                                    mat,
                                    light_at_s(world.lights@[i], world.objects, hit.p, dist_so_far),
                                    hit,
                                    rec.0[i],
                                ),
                        );
                        (colors, Option::Some(hit), rec.2)
                    },
                }
            },
        }
    }
}

/// The left fold summing a color list.
pub open spec fn sum_colors_s(cs: Seq<Vec3>, i: int, acc: Vec3) -> Vec3
    decreases cs.len() - i,
{
    if i < 0 || i >= cs.len() {
        acc
    } else {
        sum_colors_s(cs, i + 1, add_s(acc, cs[i]))
    }
}

/// What `ray_color` returns: the per-light colors summed, softly
/// compressed, and clamped to the per-channel ceiling.
pub open spec fn ray_color_s(world: Scene, ray: Ray, bounces_left: int, max_light_val: int, s: u64)
    -> (Vec3, Option<Hit>, u64) {
    let tr = trace_s(world, ray, bounces_left, 0, s);
    let summed = sum_colors_s(tr.0, 0, Vec3 { x: 0i128, y: 0i128, z: 0i128 });
    let compressed = Vec3 {
        x: ln1p_s(summed.x as int) as i128,
        y: ln1p_s(summed.y as int) as i128,
        z: ln1p_s(summed.z as int) as i128,
    };
    let cap = Vec3 { x: max_light_val as i128, y: max_light_val as i128, z: max_light_val as i128 };
    (clamp_s(compressed, cap), tr.1, tr.2)
}

/// A vector of zero colors, one per light.
fn zero_colors(n: usize) -> (r: Vec<Vec3>)
    ensures
        r@ == zero_colors_s(n as nat),
        forall|i: int| 0 <= i < r@.len() ==> vec_in(#[trigger] r@[i]),
{
    let mut out: Vec<Vec3> = Vec::new();
    let mut i: usize = 0;
    while i < n
        invariant
            0 <= i <= n,
            out@.len() == i,
            forall|j: int| 0 <= j < i ==> out@[j] == (Vec3 { x: 0i128, y: 0i128, z: 0i128 }),
        decreases n - i,
    {
        out.push(Vec3 { x: 0, y: 0, z: 0 });
        i = i + 1;
    }
    proof {
        assert(out@ =~= zero_colors_s(n as nat));
    }
    out
}

/// The color a given ray contributes for every light source, together with
/// the first geometry hit.  One index query serves all lights; the
/// material decides the continuation ray; the accumulated path distance
/// threads through the recursion.
pub fn ray_color_per_light(
    ray: &Ray,
    world: &Scene,
    bounces_left: u32,
    dist_so_far: i128,
    rng: &mut Prng,
) -> (r: (Vec<Vec3>, Option<Hit>))
    requires
        scene_in(*world),
        ray_in(*ray),
        fx_in(dist_so_far as int),
    ensures
        (r.0@, r.1, final(rng).state) == trace_s(
            *world,
            *ray,
            bounces_left as int,
            dist_so_far as int,
            old(rng).state,
        ),
        forall|i: int| 0 <= i < r.0@.len() ==> vec_in(#[trigger] r.0@[i]),
        match r.1 {
            Option::Some(h) => hit_in(h),
            Option::None => true,
        },
    decreases bounces_left,
{
    let n = world.lights.len();
    if bounces_left == 0 {
        return (zero_colors(n), Option::None);
    }
    let object_hit = world.get_object_hit(ray);
    match object_hit {
        Option::None => {
            let mut out: Vec<Vec3> = Vec::new();
            let mut i: usize = 0;
            while i < n
                invariant
                    scene_in(*world),
                    ray_in(*ray),
                    fx_in(dist_so_far as int),
                    n == world.lights@.len(),
                    0 <= i <= n,
                    out@.len() == i,
                    forall|j: int|
                        0 <= j < i ==> out@[j] == light_no_hit_s(
                            world.lights@[j],
                            *ray,
                            dist_so_far as int,
                        ) && vec_in(#[trigger] out@[j]),
                decreases n - i,
            {
                let c = world.lights[i].no_hit(ray, dist_so_far);
                out.push(c);
                i = i + 1;
            }
            proof {
                assert(out@ =~= Seq::new(
                    world.lights@.len(),
                    |i: int| light_no_hit_s(world.lights@[i], *ray, dist_so_far as int),
                ));
            }
            (out, Option::None)
        },
        Option::Some((io, hit)) => {
            let obj = world.objects.object_at(io);
            let mat = obj.material;
            match mat.scatter(ray, &hit, rng) {
                Option::None => (zero_colors(n), Option::Some(hit)),
                Option::Some(next_ray) => {
                    let seg = hit.p.sub(ray.origin).length();
                    let rec = ray_color_per_light(
                        &next_ray,
                        world,
                        bounces_left - 1,
                        fx_add(dist_so_far, seg),
                        rng,
                    );
                    let next_colors = rec.0;
                    let mut out: Vec<Vec3> = Vec::new();
                    let mut i: usize = 0;
                    while i < n
                        invariant
                            scene_in(*world),
                            ray_in(*ray),
                            fx_in(dist_so_far as int),
                            hit_in(hit),
                            material_in(mat),
                            n == world.lights@.len(),
                            next_colors@.len() == n,
                            forall|j: int|
                                0 <= j < next_colors@.len() ==> vec_in(#[trigger] next_colors@[j]),
                            0 <= i <= n,
                            out@.len() == i,
                            forall|j: int|
                                0 <= j < i ==> out@[j] == material_color_s(
                                    mat,
                                    light_at_s(
                                        world.lights@[j],
                                        world.objects,
                                        hit.p,
                                        dist_so_far as int,
                                    ),
                                    hit,
                                    next_colors@[j],
                                ) && vec_in(#[trigger] out@[j]),
                        decreases n - i,
                    {
                        let info = world.lights[i].at(hit.p, world, dist_so_far);
                        let c = mat.get_color(ray, info, &hit, next_colors[i]);
                        out.push(c);
                        i = i + 1;
                    }
                    proof {
                        assert(out@ =~= Seq::new(
                            world.lights@.len(),
                            |j: int|
                                material_color_s(
                                    mat,
                                    light_at_s(
                                        world.lights@[j],
                                        world.objects,
                                        hit.p,
                                        dist_so_far as int,
                                    ),
                                    hit,
                                    next_colors@[j],
                                ),
                        ));
                    }
                    (out, Option::Some(hit))
                },
            }
        },
    }
}

/// The color of one ray in the scene: per-light contributions summed, then
/// softly compressed and clamped so near-singular geometry cannot produce
/// unbounded values.
pub fn ray_color(ray: &Ray, world: &Scene, bounces_left: u32, max_light_val: i128, rng: &mut Prng)
    -> (r: (Vec3, Option<Hit>))
    requires
        scene_in(*world),
        ray_in(*ray),
        fx_in(max_light_val as int),
    ensures
        (r.0, r.1, final(rng).state) == ray_color_s(
            *world,
            *ray,
            bounces_left as int,
            max_light_val as int,
            old(rng).state,
        ),
        vec_in(r.0),
        match r.1 {
            Option::Some(h) => hit_in(h),
            Option::None => true,
        },
{
    let traced = ray_color_per_light(ray, world, bounces_left, 0, rng);
    let colors = traced.0;
    let mut acc = Vec3::z();
    let mut i: usize = 0;
    while i < colors.len()
        invariant
            forall|j: int| 0 <= j < colors@.len() ==> vec_in(#[trigger] colors@[j]),
            0 <= i <= colors@.len(),
            vec_in(acc),
            sum_colors_s(colors@, 0, Vec3 { x: 0i128, y: 0i128, z: 0i128 }) == sum_colors_s(
                colors@,
                i as int,
                acc,
            ),
        decreases colors@.len() - i,
    {
        acc = acc.add(colors[i]);
        i = i + 1;
    }
    let compressed = acc.ln_1p();
    let cap = Vec3 { x: max_light_val, y: max_light_val, z: max_light_val };
    (compressed.clamp(cap), traced.1)
}

} // verus!
