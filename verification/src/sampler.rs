//! The adaptive per-pixel sampler: batches of jittered primary rays, a
//! running mean and corrected sample standard deviation combined across
//! batches, a standard-error stopping rule bounded by an iteration cap,
//! and the normal-agreement tracking the denoiser relies on.

use vstd::prelude::*;

use crate::camera::{camera_in, get_ray_s, Camera};
use crate::fixed::{
    fx_add, fx_add_s, fx_div, fx_div_s, fx_in, fx_sat, fx_sqrt, fx_sqrt_s, sat_s, FX_EPS, FX_ONE,
};
use crate::hittable::{hit_in, Hit};
use crate::random::{mix_s, next_state_s, unit_from_s, Prng};
use crate::ray::{ray_in, Ray};
use crate::render::{config_in, ray_color, ray_color_s, RenderConfig};
use crate::scene::{scene_in, Scene};
use crate::vec3::{add_s, length_s, length_squared_s, scale_s, sub_s, vec_in, Vec3};

verus! {

/// The fixed-point reciprocal of a sample count (one divided by the
/// count), the factor the averaging steps multiply by.
pub open spec fn recip_count_s(n: int) -> int {
    fx_div_s(FX_ONE as int, sat_s(n * FX_ONE))
}

/// What `ray_from_image_pos` returns, with the generator state it leaves:
/// a primary ray jittered inside the pixel footprint.
pub open spec fn rfip_s(i: int, j: int, cam: Camera, width: int, height: int, s: u64) -> (
    Ray,
    u64,
) {
    let s1 = next_state_s(s);
    let u1 = unit_from_s(mix_s(s1));
    let s2 = next_state_s(s1);
    let u2 = unit_from_s(mix_s(s2));
    let hf = fx_div_s(sat_s(i * FX_ONE + u1), sat_s((width - 1) * FX_ONE));
    let vf = fx_div_s(sat_s(j * FX_ONE + u2), sat_s((height - 1) * FX_ONE));
    (get_ray_s(cam, hf, vf), s2)
}

/// A primary ray for a pixel, jittered within the pixel footprint.
pub fn ray_from_image_pos(
    i: usize,
    j: usize,
    camera: &Camera,
    width: usize,
    height: usize,
    rng: &mut Prng,
) -> (r: Ray)
    requires
        camera_in(*camera),
    ensures
        (r, final(rng).state) == rfip_s(
            i as int,
            j as int,
            *camera,
            width as int,
            height as int,
            old(rng).state,
        ),
        ray_in(r),
{
    let u1 = rng.next_unit();
    let u2 = rng.next_unit();
    let hnum = fx_sat(i as i128 * FX_ONE + u1);
    let hden = fx_sat((width as i128 - 1) * FX_ONE);
    let vnum = fx_sat(j as i128 * FX_ONE + u2);
    let vden = fx_sat((height as i128 - 1) * FX_ONE);
    let horizontal_frac = fx_div(hnum, hden);
    let vertical_frac = fx_div(vnum, vden);
    camera.get_ray(horizontal_frac, vertical_frac)
}

/// One batch of samples: the colors and hits appended in draw order, and
/// the generator state left behind.
pub open spec fn batch_go_s(
    world: Scene,
    cam: Camera,
    i: int,
    j: int,
    width: int,
    height: int,
    bounces: int,
    max_light: int,
    s: u64,
    remaining: nat,
    colors: Seq<Vec3>,
    hits: Seq<Option<Hit>>,
) -> (Seq<Vec3>, Seq<Option<Hit>>, u64)
    decreases remaining,
{
    if remaining == 0 {
        (colors, hits, s)
    } else {
        let (ray, s1) = rfip_s(i, j, cam, width, height, s);
        let rc = ray_color_s(world, ray, bounces, max_light, s1);
        batch_go_s(
            world,
            cam,
            i,
            j,
            width,
            height,
            bounces,
            max_light,
            rc.2,
            (remaining - 1) as nat,
            colors.push(rc.0),
            hits.push(rc.1),
        )
    }
}

/// The left fold summing squared deviations of samples from a mean.
pub open spec fn dev_sum_s(colors: Seq<Vec3>, i: int, mean: Vec3, acc: int) -> int
    decreases colors.len() - i,
{
    if i < 0 || i >= colors.len() {
        acc
    } else {
        dev_sum_s(colors, i + 1, mean, fx_add_s(acc, length_squared_s(sub_s(mean, colors[i]))))
    }
}

/// What one round of the convergence loop computes from a fresh batch:
/// the combined mean, the corrected sample standard deviation, and
/// whether the standard error still exceeds the threshold.
pub open spec fn round_stats_s(
    colors: Seq<Vec3>,
    prev_mean: Vec3,
    iteration: int,
    base: int,
    threshold: int,
) -> (Vec3, int, bool) {
    let current_mean = scale_s(
        sum_colors_spec(colors),
        recip_count_s(base),
    );
    let total_mean = scale_s(
        add_s(current_mean, scale_s(prev_mean, sat_s((iteration - 1) * FX_ONE))),
        recip_count_s(iteration),
    );
    let dev = dev_sum_s(colors, 0, total_mean, 0);
    let std = fx_sqrt_s(fx_div_s(dev, sat_s((base - 1) * FX_ONE)));
    let stderr = fx_div_s(std, fx_sqrt_s(sat_s(iteration * base * FX_ONE)));
    (total_mean, std, stderr > threshold)
}

/// The plain left-fold sum of a color list.
pub open spec fn sum_colors_spec(colors: Seq<Vec3>) -> Vec3 {
    crate::render::sum_colors_s(colors, 0, Vec3 { x: 0i128, y: 0i128, z: 0i128 })
}

/// The per-pixel convergence loop, one round per recursion step: while
/// the color is uncertain and the iteration cap allows (and always at
/// least once), draw a batch and fold it into the running state.
pub open spec fn pixel_loop_s(
    world: Scene,
    cam: Camera,
    i: int,
    j: int,
    width: int,
    height: int,
    cfg: RenderConfig,
    mean: Vec3,
    std: int,
    iteration: int,
    uncertain: bool,
    hits: Seq<Option<Hit>>,
    s: u64,
) -> (Vec3, int, int, bool, Seq<Option<Hit>>, u64)
    decreases cfg.max_dynamic_oversampling + 2 - iteration,
{
    let cond = (cfg.do_dynamic_oversampling && uncertain && iteration
        <= cfg.max_dynamic_oversampling) || iteration == 1;
    if !cond {
        (mean, std, iteration, uncertain, hits, s)
    } else {
        let b = batch_go_s(
            world,
            cam,
            i,
            j,
            width,
            height,
            cfg.max_bounces as int,
            cfg.max_light_val as int,
            s,
            cfg.base_samples as nat,
            Seq::empty(),
            Seq::empty(),
        );
        let st = round_stats_s(
            b.0,
            mean,
            iteration,
            cfg.base_samples as int,
            cfg.uncertainty_threshold as int,
        );
        pixel_loop_s(
            world,
            cam,
            i,
            j,
            width,
            height,
            cfg,
            st.0,
            st.1,
            iteration + 1,
            st.2,
            hits + b.1,
            b.2,
        )
    }
}

/// The sum of sample normals, or nothing if any sample missed geometry.
pub open spec fn normals_sum_s(hits: Seq<Option<Hit>>, i: int, acc: Vec3) -> Option<Vec3>
    decreases hits.len() - i,
{
    if i < 0 || i >= hits.len() {
        Option::Some(acc)
    } else {
        match hits[i] {
            Option::None => Option::None,
            Option::Some(h) => normals_sum_s(hits, i + 1, add_s(acc, h.normal)),
        }
    }
}

/// The averaged normal, or nothing when a sample missed or a sample's
/// normal strays farther from the average than the threshold allows.
pub open spec fn agreement_s(hits: Seq<Option<Hit>>, threshold: int) -> Option<Vec3> {
    match normals_sum_s(hits, 0, Vec3 { x: 0i128, y: 0i128, z: 0i128 }) {
        Option::None => Option::None,
        Option::Some(sum) => {
            let avg = scale_s(sum, recip_count_s(hits.len() as int));
            if exists|k: int|
                0 <= k < hits.len() && length_s(sub_s(hits[k]->Some_0.normal, avg)) > threshold {
                Option::None
            } else {
                Option::Some(avg)
            }
        },
    }
}

/// What `render_pixel` returns: the converged mean, the variance buffer
/// entry (the standard deviation floored at the tolerance), the
/// normal-agreement entry, and the generator state left behind.
pub open spec fn render_pixel_s(
    world: Scene,
    cam: Camera,
    i: int,
    j: int,
    width: int,
    height: int,
    cfg: RenderConfig,
    s: u64,
) -> (Vec3, int, Option<Vec3>, u64) {
    let lp = pixel_loop_s(
        world,
        cam,
        i,
        j,
        width,
        height,
        cfg,
        Vec3 { x: 0i128, y: 0i128, z: 0i128 },
        0,
        1,
        true,
        Seq::empty(),
        s,
    );
    let var = if lp.1 >= FX_EPS {
        lp.1
    } else {
        FX_EPS as int
    };
    (lp.0, var, agreement_s(lp.4, cfg.similarity_threshold as int), lp.5)
}

/// Per-pixel running state of the convergence loop.
pub struct PixelAccumulator {
    /// Running mean color over all batches so far.
    pub mean: Vec3,
    /// Corrected sample standard deviation of the latest batch.
    pub std: i128,
    /// 1 + number of batches folded in.
    pub iterations: u32,
    /// Whether the standard error still exceeds the threshold.
    pub uncertain: bool,
    /// One entry per sample: its first geometry hit, if any.
    pub hits: Vec<Option<Hit>>,
}

pub open spec fn accum_in(a: PixelAccumulator) -> bool {
    &&& vec_in(a.mean)
    &&& fx_in(a.std as int)
    &&& forall|k: int|
        0 <= k < a.hits@.len() ==> match #[trigger] a.hits@[k] {
            Option::Some(h) => hit_in(h),
            Option::None => true,
        }
}

/// The left-fold sum of a color list.
fn sum_colors(colors: &Vec<Vec3>) -> (r: Vec3)
    requires
        forall|j: int| 0 <= j < colors@.len() ==> vec_in(#[trigger] colors@[j]),
    ensures
        r == sum_colors_spec(colors@),
        vec_in(r),
{
    let mut acc = Vec3::z();
    let mut i: usize = 0;
    while i < colors.len()
        invariant
            forall|j: int| 0 <= j < colors@.len() ==> vec_in(#[trigger] colors@[j]),
            0 <= i <= colors@.len(),
            vec_in(acc),
            sum_colors_spec(colors@) == crate::render::sum_colors_s(colors@, i as int, acc),
        decreases colors@.len() - i,
    {
        acc = acc.add(colors[i]);
        i = i + 1;
    }
    acc
}

/// The summed squared deviations of the samples from a mean.
fn dev_sum(colors: &Vec<Vec3>, mean: Vec3) -> (r: i128)
    requires
        forall|j: int| 0 <= j < colors@.len() ==> vec_in(#[trigger] colors@[j]),
        vec_in(mean),
    ensures
        r == dev_sum_s(colors@, 0, mean, 0),
        fx_in(r as int),
{
    let mut acc: i128 = 0;
    let mut i: usize = 0;
    while i < colors.len()
        invariant
            forall|j: int| 0 <= j < colors@.len() ==> vec_in(#[trigger] colors@[j]),
            vec_in(mean),
            0 <= i <= colors@.len(),
            fx_in(acc as int),
            dev_sum_s(colors@, 0, mean, 0) == dev_sum_s(colors@, i as int, mean, acc as int),
        decreases colors@.len() - i,
    {
        acc = fx_add(acc, mean.sub(colors[i]).length_squared());
        i = i + 1;
    }
    acc
}

/// The fixed-point reciprocal of a count.
fn recip_count(n: u64) -> (r: i128)
    ensures
        r == recip_count_s(n as int),
        fx_in(r as int),
{
    fx_div(FX_ONE, fx_sat(n as i128 * FX_ONE))
}

/// Draw one batch of jittered samples through the integrator.
fn sample_batch(
    world: &Scene,
    camera: &Camera,
    i: usize,
    j: usize,
    width: usize,
    height: usize,
    cfg: &RenderConfig,
    rng: &mut Prng,
) -> (r: (Vec<Vec3>, Vec<Option<Hit>>))
    requires
        scene_in(*world),
        camera_in(*camera),
        config_in(*cfg),
    ensures
        (r.0@, r.1@, final(rng).state) == batch_go_s(
            *world,
            *camera,
            i as int,
            j as int,
            width as int,
            height as int,
            cfg.max_bounces as int,
            cfg.max_light_val as int,
            old(rng).state,
            cfg.base_samples as nat,
            Seq::empty(),
            Seq::empty(),
        ),
        r.0@.len() == cfg.base_samples,
        forall|k: int| 0 <= k < r.0@.len() ==> vec_in(#[trigger] r.0@[k]),
        forall|k: int|
            0 <= k < r.1@.len() ==> match #[trigger] r.1@[k] {
                Option::Some(h) => hit_in(h),
                Option::None => true,
            },
{
    let mut colors: Vec<Vec3> = Vec::new();
    let mut hits: Vec<Option<Hit>> = Vec::new();
    let mut k: u32 = 0;
    while k < cfg.base_samples
        invariant
            scene_in(*world),
            camera_in(*camera),
            config_in(*cfg),
            0 <= k <= cfg.base_samples,
            colors@.len() == k,
            colors@.len() == hits@.len(),
            batch_go_s(
                *world,
                *camera,
                i as int,
                j as int,
                width as int,
                height as int,
                cfg.max_bounces as int,
                cfg.max_light_val as int,
                old(rng).state,
                cfg.base_samples as nat,
                Seq::empty(),
                Seq::empty(),
            ) == batch_go_s(
                *world,
                *camera,
                i as int,
                j as int,
                width as int,
                height as int,
                cfg.max_bounces as int,
                cfg.max_light_val as int,
                rng.state,
                (cfg.base_samples - k) as nat,
                colors@,
                hits@,
            ),
            forall|m: int| 0 <= m < colors@.len() ==> vec_in(#[trigger] colors@[m]),
            forall|m: int|
                0 <= m < hits@.len() ==> match #[trigger] hits@[m] {
                    Option::Some(h) => hit_in(h),
                    Option::None => true,
                },
        decreases cfg.base_samples - k,
    {
        let ray = ray_from_image_pos(i, j, camera, width, height, rng);
        let rc = ray_color(&ray, world, cfg.max_bounces, cfg.max_light_val, rng);
        colors.push(rc.0);
        hits.push(rc.1);
        k = k + 1;
    }
    (colors, hits)
}

/// Per-pixel running state of the convergence loop.
impl PixelAccumulator {
    /// The state a pixel's loop starts from.
    pub fn new() -> (a: PixelAccumulator)
        ensures
            a.mean == (Vec3 { x: 0i128, y: 0i128, z: 0i128 }),
            a.std == 0,
            a.iterations == 1,
            a.uncertain == true,
            a.hits@ == Seq::<Option<Hit>>::empty(),
            accum_in(a),
    {
        PixelAccumulator {
            mean: Vec3::z(),
            std: 0,
            iterations: 1,
            uncertain: true,
            hits: Vec::new(),
        }
    }

    /// Fold one batch into the running mean and deviation, and append its
    /// hits for the normal-agreement accounting.
    pub fn fold_batch(
        &mut self,
        colors: &Vec<Vec3>,
        hits: Vec<Option<Hit>>,
        cfg: &RenderConfig,
    )
        requires
            accum_in(*old(self)),
            old(self).iterations < 0x8000_0000u32,
            config_in(*cfg),
            forall|k: int| 0 <= k < colors@.len() ==> vec_in(#[trigger] colors@[k]),
            forall|k: int|
                0 <= k < hits@.len() ==> match #[trigger] hits@[k] {
                    Option::Some(h) => hit_in(h),
                    Option::None => true,
                },
        ensures
            ({
                let st = round_stats_s(
                    colors@,
                    old(self).mean,
                    old(self).iterations as int,
                    cfg.base_samples as int,
                    cfg.uncertainty_threshold as int,
                );
                &&& final(self).mean == st.0
                &&& final(self).std == st.1
                &&& final(self).uncertain == st.2
                &&& final(self).iterations == old(self).iterations + 1
                &&& final(self).hits@ == old(self).hits@ + hits@
                &&& accum_in(*final(self))
            }),
    {
        let current_mean = sum_colors(colors).scale(recip_count(cfg.base_samples as u64));
        let prev_w = fx_sat(self.iterations as i128 * FX_ONE - FX_ONE);
        proof {
            assert(self.iterations as i128 * FX_ONE - FX_ONE == (self.iterations as int - 1)
                * FX_ONE) by (nonlinear_arith);
        }
        let total_mean = current_mean.add(self.mean.scale(prev_w)).scale(
            recip_count(self.iterations as u64),
        );
        let dev = dev_sum(colors, total_mean);
        let base_w = fx_sat(cfg.base_samples as i128 * FX_ONE - FX_ONE);
        proof {
            assert(cfg.base_samples as i128 * FX_ONE - FX_ONE == (cfg.base_samples as int - 1)
                * FX_ONE) by (nonlinear_arith);
        }
        let std = fx_sqrt(fx_div(dev, base_w));
        proof {
            assert(0 <= self.iterations as int * (cfg.base_samples as int)
                < 0x1_0000_0000_0000_0000int && self.iterations as int * (cfg.base_samples as int)
                * (FX_ONE as int) < 0x1_0000_0000_0000_0000_0000_0000int) by (nonlinear_arith)
                requires
                    0 <= (self.iterations as int) && (self.iterations as int)
                        < 0x1_0000_0000int,
                    0 <= (cfg.base_samples as int) && (cfg.base_samples as int)
                        < 0x1_0000_0000int,
            ;
        }
        let cnt: i128 = self.iterations as i128 * cfg.base_samples as i128;
        let count_w = fx_sat(cnt * FX_ONE);
        proof {
            assert(cnt * FX_ONE == self.iterations as int * (cfg.base_samples as int)
                * (FX_ONE as int)) by (nonlinear_arith)
                requires
                    cnt == self.iterations as int * (cfg.base_samples as int),
            ;
        }
        let stderr = fx_div(std, fx_sqrt(count_w));
        self.mean = total_mean;
        self.std = std;
        self.uncertain = stderr > cfg.uncertainty_threshold;
        self.iterations = self.iterations + 1;
        let mut moved = hits;
        self.hits.append(&mut moved);
    }
}

/// A sum over all sample normals implies every sample hit geometry.
proof fn lemma_normals_all_some(hits: Seq<Option<Hit>>, i: int, acc: Vec3)
    requires
        0 <= i,
        normals_sum_s(hits, i, acc) is Some,
    ensures
        forall|k: int| i <= k < hits.len() ==> (#[trigger] hits[k]) is Some,
    decreases hits.len() - i,
{
    if 0 <= i < hits.len() {
        match hits[i] {
            Option::None => {},
            Option::Some(h) => {
                lemma_normals_all_some(hits, i + 1, add_s(acc, h.normal));
            },
        }
    }
}

impl PixelAccumulator {
    /// Close out a pixel: the converged mean, the variance-buffer entry
    /// (the deviation floored at the tolerance), and the averaged normal
    /// when every sample hit geometry and no normal diverged.
    pub fn finish(self, similarity_threshold: i128) -> (r: (Vec3, i128, Option<Vec3>))
        requires
            accum_in(self),
            fx_in(similarity_threshold as int),
        ensures
            r.0 == self.mean,
            r.1 as int == (if self.std >= FX_EPS {
                self.std as int
            } else {
                FX_EPS as int
            }),
            r.2 == agreement_s(self.hits@, similarity_threshold as int),
            vec_in(r.0),
            fx_in(r.1 as int),
            match r.2 {
                Option::Some(v) => vec_in(v),
                Option::None => true,
            },
    {
        let var = if self.std >= FX_EPS {
            self.std
        } else {
            FX_EPS
        };
        let mut acc = Vec3::z();
        let mut all = true;
        let mut k: usize = 0;
        while k < self.hits.len()
            invariant
                accum_in(self),
                0 <= k <= self.hits@.len(),
                vec_in(acc),
                normals_sum_s(self.hits@, 0, Vec3 { x: 0i128, y: 0i128, z: 0i128 }) == (if all {
                    normals_sum_s(self.hits@, k as int, acc)
                } else {
                    Option::<Vec3>::None
                }),
            decreases self.hits@.len() - k,
        {
            match &self.hits[k] {
                Option::Some(h) => {
                    acc = acc.add(h.normal);
                },
                Option::None => {
                    all = false;
                },
            }
            k = k + 1;
        }
        if !all {
            return (self.mean, var, Option::None);
        }
        proof {
            lemma_normals_all_some(self.hits@, 0, Vec3 { x: 0i128, y: 0i128, z: 0i128 });
        }
        let avg = acc.scale(recip_count(self.hits.len() as u64));
        let mut any = false;
        let mut k: usize = 0;
        while k < self.hits.len()
            invariant
                accum_in(self),
                vec_in(avg),
                fx_in(similarity_threshold as int),
                avg == scale_s(acc, recip_count_s(self.hits@.len() as int)),
                forall|m: int| 0 <= m < self.hits@.len() ==> (#[trigger] self.hits@[m]) is Some,
                0 <= k <= self.hits@.len(),
                any == (exists|m: int|
                    0 <= m < k && length_s(
                        sub_s((#[trigger] self.hits@[m])->Some_0.normal, avg),
                    ) > similarity_threshold),
            decreases self.hits@.len() - k,
        {
            match &self.hits[k] {
                Option::Some(h) => {
                    let d = h.normal.sub(avg).length();
                    if d > similarity_threshold {
                        any = true;
                        proof {
                            assert(length_s(
                                sub_s(self.hits@[k as int]->Some_0.normal, avg),
                            ) > similarity_threshold);
                        }
                    }
                },
                Option::None => {
                    proof {
                        assert(false);
                    }
                },
            }
            k = k + 1;
        }
        if any {
            (self.mean, var, Option::None)
        } else {
            (self.mean, var, Option::Some(avg))
        }
    }
}

/// One pixel's full convergence loop: batches are drawn while the standard
/// error of the mean exceeds the threshold, bounded by the iteration cap,
/// always at least once.  The result is a function of the inputs and the
/// starting generator state alone, so a render driven by a fixed seed is
/// reproducible bit for bit.
pub fn render_pixel(
    world: &Scene,
    camera: &Camera,
    i: usize,
    j: usize,
    width: usize,
    height: usize,
    cfg: &RenderConfig,
    rng: &mut Prng,
) -> (r: (Vec3, i128, Option<Vec3>))
    requires
        scene_in(*world),
        camera_in(*camera),
        config_in(*cfg),
    ensures
        ({
            let p = render_pixel_s(
                *world,
                *camera,
                i as int,
                j as int,
                width as int,
                height as int,
                *cfg,
                old(rng).state,
            );
            r.0 == p.0 && r.1 as int == p.1 && r.2 == p.2 && final(rng).state == p.3
        }),
        vec_in(r.0),
        fx_in(r.1 as int),
        match r.2 {
            Option::Some(v) => vec_in(v),
            Option::None => true,
        },
{
    let ghost s0 = rng.state;
    let mut acc = PixelAccumulator::new();
    while (cfg.do_dynamic_oversampling && acc.uncertain && acc.iterations
        <= cfg.max_dynamic_oversampling) || acc.iterations == 1
        invariant
            scene_in(*world),
            camera_in(*camera),
            config_in(*cfg),
            accum_in(acc),
            1 <= acc.iterations <= cfg.max_dynamic_oversampling + 1,
            pixel_loop_s(
                *world,
                *camera,
                i as int,
                j as int,
                width as int,
                height as int,
                *cfg,
                Vec3 { x: 0i128, y: 0i128, z: 0i128 },
                0,
                1,
                true,
                Seq::empty(),
                s0,
            ) == pixel_loop_s(
                *world,
                *camera,
                i as int,
                j as int,
                width as int,
                height as int,
                *cfg,
                acc.mean,
                acc.std as int,
                acc.iterations as int,
                acc.uncertain,
                acc.hits@,
                rng.state,
            ),
        decreases cfg.max_dynamic_oversampling + 2 - acc.iterations,
    {
        let batch = sample_batch(world, camera, i, j, width, height, cfg, rng);
        acc.fold_batch(&batch.0, batch.1, cfg);
    }
    acc.finish(cfg.similarity_threshold)
}

/// Drawing no more batches once the standard error satisfies the
/// threshold changes nothing: if the convergence loop under one cap ends
/// with the pixel no longer uncertain, running it under any larger cap
/// from the same state gives the identical outcome.
pub proof fn lemma_cap_irrelevant_after_convergence(
    world: Scene,
    cam: Camera,
    i: int,
    j: int,
    width: int,
    height: int,
    cfg1: RenderConfig,
    cfg2: RenderConfig,
    mean: Vec3,
    std: int,
    iteration: int,
    uncertain: bool,
    hits: Seq<Option<Hit>>,
    s: u64,
)
    requires
        cfg2.max_bounces == cfg1.max_bounces,
        cfg2.base_samples == cfg1.base_samples,
        cfg2.do_dynamic_oversampling == cfg1.do_dynamic_oversampling,
        cfg2.max_light_val == cfg1.max_light_val,
        cfg2.uncertainty_threshold == cfg1.uncertainty_threshold,
        cfg2.do_post_processing == cfg1.do_post_processing,
        cfg2.similarity_threshold == cfg1.similarity_threshold,
        cfg2.smooth_size == cfg1.smooth_size,
        cfg2.smoothing_base_weight == cfg1.smoothing_base_weight,
        cfg1.max_dynamic_oversampling <= cfg2.max_dynamic_oversampling,
        pixel_loop_s(world, cam, i, j, width, height, cfg1, mean, std, iteration, uncertain, hits, s).3
            == false,
    ensures
        pixel_loop_s(world, cam, i, j, width, height, cfg2, mean, std, iteration, uncertain, hits, s)
            == pixel_loop_s(
            world,
            cam,
            i,
            j,
            width,
            height,
            cfg1,
            mean,
            std,
            iteration,
            uncertain,
            hits,
            s,
        ),
    decreases cfg2.max_dynamic_oversampling + 2 - iteration,
{
    let cond1 = (cfg1.do_dynamic_oversampling && uncertain && iteration
        <= cfg1.max_dynamic_oversampling) || iteration == 1;
    if cond1 {
        let b = batch_go_s(
            world,
            cam,
            i,
            j,
            width,
            height,
            cfg1.max_bounces as int,
            cfg1.max_light_val as int,
            s,
            cfg1.base_samples as nat,
            Seq::empty(),
            Seq::empty(),
        );
        let st = round_stats_s(
            b.0,
            mean,
            iteration,
            cfg1.base_samples as int,
            cfg1.uncertainty_threshold as int,
        );
        lemma_cap_irrelevant_after_convergence(
            world,
            cam,
            i,
            j,
            width,
            height,
            cfg1,
            cfg2,
            st.0,
            st.1,
            iteration + 1,
            st.2,
            hits + b.1,
            b.2,
        );
    }
}

/// The same fact at the pixel level: once the loop under the smaller cap
/// ends converged, a pixel rendered with the larger cap is identical.
pub proof fn lemma_render_pixel_cap_irrelevant(
    world: Scene,
    cam: Camera,
    i: int,
    j: int,
    width: int,
    height: int,
    cfg1: RenderConfig,
    cfg2: RenderConfig,
    s: u64,
)
    requires
        cfg2.max_bounces == cfg1.max_bounces,
        cfg2.base_samples == cfg1.base_samples,
        cfg2.do_dynamic_oversampling == cfg1.do_dynamic_oversampling,
        cfg2.max_light_val == cfg1.max_light_val,
        cfg2.uncertainty_threshold == cfg1.uncertainty_threshold,
        cfg2.do_post_processing == cfg1.do_post_processing,
        cfg2.similarity_threshold == cfg1.similarity_threshold,
        cfg2.smooth_size == cfg1.smooth_size,
        cfg2.smoothing_base_weight == cfg1.smoothing_base_weight,
        cfg1.max_dynamic_oversampling <= cfg2.max_dynamic_oversampling,
        pixel_loop_s(
            world,
            cam,
            i,
            j,
            width,
            height,
            cfg1,
            Vec3 { x: 0i128, y: 0i128, z: 0i128 },
            0,
            1,
            true,
            Seq::empty(),
            s,
        ).3 == false,
    ensures
        render_pixel_s(world, cam, i, j, width, height, cfg2, s) == render_pixel_s(
            world,
            cam,
            i,
            j,
            width,
            height,
            cfg1,
            s,
        ),
{
    lemma_cap_irrelevant_after_convergence(
        world,
        cam,
        i,
        j,
        width,
        height,
        cfg1,
        cfg2,
        Vec3 { x: 0i128, y: 0i128, z: 0i128 },
        0,
        1,
        true,
        Seq::empty(),
        s,
    );
}

/// One scanline of the render, from pixel `i`: the colors, the variance
/// buffer entries, the normal-agreement entries, and the generator state
/// left behind.
#[verifier::opaque]
pub open spec fn render_row_s(
    world: Scene,
    cam: Camera,
    j: int,
    width: int,
    height: int,
    cfg: RenderConfig,
    s: u64,
    i: int,
    colors: Seq<Vec3>,
    normals: Seq<Option<Vec3>>,
    vars: Seq<i128>,
) -> (Seq<Vec3>, Seq<Option<Vec3>>, Seq<i128>, u64)
    decreases width - i,
{
    if i < 0 || i >= width {
        (colors, normals, vars, s)
    } else {
        let p = render_pixel_s(world, cam, i, j, width, height, cfg, s);
        render_row_s(
            world,
            cam,
            j,
            width,
            height,
            cfg,
            p.3,
            i + 1,
            colors.push(p.0),
            normals.push(p.2),
            vars.push(p.1 as i128),
        )
    }
}

/// The generator state the render reaches at the start of scanline `j`.
#[verifier::opaque]
pub open spec fn rows_state_s(
    world: Scene,
    cam: Camera,
    width: int,
    height: int,
    cfg: RenderConfig,
    s: u64,
    j: nat,
) -> u64
    decreases j,
{
    if j == 0 {
        s
    } else {
        render_row_s(
            world,
            cam,
            j - 1,
            width,
            height,
            cfg,
            rows_state_s(world, cam, width, height, cfg, s, (j - 1) as nat),
            0,
            Seq::empty(),
            Seq::empty(),
            Seq::empty(),
        ).3
    }
}

/// One scanline rendered left to right.
fn render_one_row(
    world: &Scene,
    camera: &Camera,
    j: usize,
    width: usize,
    height: usize,
    cfg: &RenderConfig,
    rng: &mut Prng,
) -> (r: (Vec<Vec3>, Vec<Option<Vec3>>, Vec<i128>))
    requires
        scene_in(*world),
        camera_in(*camera),
        config_in(*cfg),
    ensures
        ({
            let row = render_row_s(
                *world,
                *camera,
                j as int,
                width as int,
                height as int,
                *cfg,
                old(rng).state,
                0,
                Seq::empty(),
                Seq::empty(),
                Seq::empty(),
            );
            r.0@ == row.0 && r.1@ == row.1 && r.2@ == row.2 && final(rng).state == row.3
        }),
{
    let ghost srow = rng.state;
    proof {
        reveal_with_fuel(render_row_s, 1);
    }
    let mut row_c: Vec<Vec3> = Vec::new();
    let mut row_n: Vec<Option<Vec3>> = Vec::new();
    let mut row_v: Vec<i128> = Vec::new();
    let mut i: usize = 0;
    while i < width
        invariant
            scene_in(*world),
            camera_in(*camera),
            config_in(*cfg),
            0 <= i <= width,
            row_c@.len() == i && row_n@.len() == i && row_v@.len() == i,
            render_row_s(
                *world,
                *camera,
                j as int,
                width as int,
                height as int,
                *cfg,
                srow,
                0,
                Seq::empty(),
                Seq::empty(),
                Seq::empty(),
            ) == render_row_s(
                *world,
                *camera,
                j as int,
                width as int,
                height as int,
                *cfg,
                rng.state,
                i as int,
                row_c@,
                row_n@,
                row_v@,
            ),
            old(rng).state == srow,
        decreases width - i,
    {
        let p = render_pixel(world, camera, i, j, width, height, cfg, rng);
        row_c.push(p.0);
        row_n.push(p.2);
        row_v.push(p.1);
        proof {
            reveal_with_fuel(render_row_s, 2);
        }
        i = i + 1;
    }
    proof {
        reveal_with_fuel(render_row_s, 1);
    }
    (row_c, row_n, row_v)
}

/// The buffers of scanline `j` when the render starts from state `s0`.
pub open spec fn image_row_s(
    world: Scene,
    cam: Camera,
    j: int,
    width: int,
    height: int,
    cfg: RenderConfig,
    s0: u64,
) -> (Seq<Vec3>, Seq<Option<Vec3>>, Seq<i128>, u64) {
    render_row_s(
        world,
        cam,
        j,
        width,
        height,
        cfg,
        rows_state_s(world, cam, width, height, cfg, s0, j as nat),
        0,
        Seq::empty(),
        Seq::empty(),
        Seq::empty(),
    )
}

/// Render every pixel of the canvas in scanline order, producing the three
/// buffers the denoising filter consumes.  The whole render is a function
/// of the scene, the camera, the configuration and the starting generator
/// state, so a seeded render is reproducible bit for bit.
#[verifier::rlimit(100)]
#[verifier::spinoff_prover]
pub fn render_image(
    world: &Scene,
    camera: &Camera,
    width: usize,
    height: usize,
    cfg: &RenderConfig,
    rng: &mut Prng,
) -> (r: (Vec<Vec<Vec3>>, Vec<Vec<Option<Vec3>>>, Vec<Vec<i128>>))
    requires
        scene_in(*world),
        camera_in(*camera),
        config_in(*cfg),
    ensures
        r.0@.len() == height && r.1@.len() == height && r.2@.len() == height,
        forall|j: int|
            0 <= j < height ==> (#[trigger] r.0@[j])@ == image_row_s(
                *world,
                *camera,
                j,
                width as int,
                height as int,
                *cfg,
                old(rng).state,
            ).0,
        forall|j: int|
            0 <= j < height ==> (#[trigger] r.1@[j])@ == image_row_s(
                *world,
                *camera,
                j,
                width as int,
                height as int,
                *cfg,
                old(rng).state,
            ).1,
        forall|j: int|
            0 <= j < height ==> (#[trigger] r.2@[j])@ == image_row_s(
                *world,
                *camera,
                j,
                width as int,
                height as int,
                *cfg,
                old(rng).state,
            ).2,
        final(rng).state == rows_state_s(
            *world,
            *camera,
            width as int,
            height as int,
            *cfg,
            old(rng).state,
            height as nat,
        ),
{
    let ghost s0 = rng.state;
    proof {
        reveal_with_fuel(rows_state_s, 1);
    }
    let mut colors: Vec<Vec<Vec3>> = Vec::new();
    let mut normals: Vec<Vec<Option<Vec3>>> = Vec::new();
    let mut vars: Vec<Vec<i128>> = Vec::new();
    let mut j: usize = 0;
    while j < height
        invariant
            scene_in(*world),
            camera_in(*camera),
            config_in(*cfg),
            0 <= j <= height,
            colors@.len() == j && normals@.len() == j && vars@.len() == j,
            old(rng).state == s0,
            rng.state == rows_state_s(
                *world,
                *camera,
                width as int,
                height as int,
                *cfg,
                s0,
                j as nat,
            ),
            forall|a: int|
                0 <= a < j ==> (#[trigger] colors@[a])@ == image_row_s(
                    *world,
                    *camera,
                    a,
                    width as int,
                    height as int,
                    *cfg,
                    s0,
                ).0,
            forall|a: int|
                0 <= a < j ==> (#[trigger] normals@[a])@ == image_row_s(
                    *world,
                    *camera,
                    a,
                    width as int,
                    height as int,
                    *cfg,
                    s0,
                ).1,
            forall|a: int|
                0 <= a < j ==> (#[trigger] vars@[a])@ == image_row_s(
                    *world,
                    *camera,
                    a,
                    width as int,
                    height as int,
                    *cfg,
                    s0,
                ).2,
        decreases height - j,
    {
        let ghost colors0 = colors@;
        let ghost normals0 = normals@;
        let ghost vars0 = vars@;
        let row = render_one_row(world, camera, j, width, height, cfg, rng);
        let ghost rowseqs = (row.0@, row.1@, row.2@);
        colors.push(row.0);
        normals.push(row.1);
        vars.push(row.2);
        proof {
            reveal_with_fuel(rows_state_s, 2);
            assert(rows_state_s(
                *world,
                *camera,
                width as int,
                height as int,
                *cfg,
                s0,
                (j + 1) as nat,
            ) == rng.state);
            let jj = j as int;
            assert forall|a: int| 0 <= a < jj + 1 implies (#[trigger] colors@[a])@ == image_row_s(
                *world,
                *camera,
                a,
                width as int,
                height as int,
                *cfg,
                s0,
            ).0 && (normals@[a])@ == image_row_s(
                *world,
                *camera,
                a,
                width as int,
                height as int,
                *cfg,
                s0,
            ).1 && (vars@[a])@ == image_row_s(
                *world,
                *camera,
                a,
                width as int,
                height as int,
                *cfg,
                s0,
            ).2 by {
                if a < jj {
                    assert(colors@[a] == colors0[a]);
                    assert(normals@[a] == normals0[a]);
                    assert(vars@[a] == vars0[a]);
                } else {
                    assert(colors@[a]@ == rowseqs.0);
                    assert(normals@[a]@ == rowseqs.1);
                    assert(vars@[a]@ == rowseqs.2);
                }
            }
        }
        j = j + 1;
    }
    (colors, normals, vars)
}

} // verus!
