//! The normal-guided denoising filter.  Only pixels whose samples agreed
//! on a normal are smoothed; each neighbor is weighted by how well its
//! averaged normal aligns with the center's, the center itself by the
//! inverse of its own variance.  The accumulation is carried exactly (wide
//! products, one division at the end), so a uniform neighborhood passes
//! through unchanged.

use vstd::prelude::*;

use crate::fixed::{
    abs_s, div_t, div_wide, fx_div, fx_div_s, fx_in, lemma_fx_div_bound, lemma_fx_mul_bound,
    FX_EPS, FX_ONE,
};
use crate::materials::pos_part;
use crate::render::{config_in, RenderConfig};
use crate::vec3::{dot_s, Vec3};

verus! {

/// Magnitude cap on the colors, normals and base weight the filter
/// accepts; generous next to the clamped colors and unit-ish normals the
/// sampler produces.
pub const SMOOTH_BOUND: i128 = 1099511627776;

/// The buffers form a rectangle of the given dimensions, with colors and
/// normals bounded and each variance at least the tolerance.
pub open spec fn grid_wf(
    image: Seq<Vec<Vec3>>,
    normals: Seq<Vec<Option<Vec3>>>,
    vars: Seq<Vec<i128>>,
    h: int,
    w: int,
) -> bool {
    &&& image.len() == h
    &&& normals.len() == h
    &&& vars.len() == h
    &&& forall|i: int| 0 <= i < h ==> (#[trigger] image[i])@.len() == w
    &&& forall|i: int| 0 <= i < h ==> (#[trigger] normals[i])@.len() == w
    &&& forall|i: int| 0 <= i < h ==> (#[trigger] vars[i])@.len() == w
    &&& forall|i: int, j: int|
        0 <= i < h && 0 <= j < w ==> bounded_color(#[trigger] image[i]@[j])
    &&& forall|i: int, j: int|
        0 <= i < h && 0 <= j < w ==> match #[trigger] normals[i]@[j] {
            Option::Some(n) => bounded_color(n),
            Option::None => true,
        }
    &&& forall|i: int, j: int|
        0 <= i < h && 0 <= j < w ==> FX_EPS <= #[trigger] vars[i]@[j] && fx_in(
            vars[i]@[j] as int,
        )
}

pub open spec fn bounded_color(v: Vec3) -> bool {
    abs_s(v.x as int) <= SMOOTH_BOUND && abs_s(v.y as int) <= SMOOTH_BOUND && abs_s(v.z as int)
        <= SMOOTH_BOUND
}

/// The weight and weighted color one neighborhood cell contributes for the
/// pixel at (i, j): zero off canvas or where normals disagree; the aligned
/// normal dot product for a neighbor; the variance-scaled base weight for
/// the center.  Color components are carried as exact wide products.
pub open spec fn cell_s(
    image: Seq<Vec<Vec3>>,
    normals: Seq<Vec<Option<Vec3>>>,
    vars: Seq<Vec<i128>>,
    cfg: RenderConfig,
    i: int,
    j: int,
    cn: Vec3,
    idx: int,
    h: int,
    w: int,
) -> (int, int, int, int) {
    let n = cfg.smooth_size as int;
    let k = idx / n;
    let l = idx % n;
    let pi = i + k - n / 2;
    let pj = j + l - n / 2;
    if pi < 0 || pi >= h || pj < 0 || pj >= w {
        (0, 0, 0, 0)
    } else {
        let pw = if k == n / 2 && l == n / 2 {
            fx_div_s(cfg.smoothing_base_weight as int, vars[i]@[j] as int)
        } else {
            match normals[pi]@[pj] {
                Option::Some(no) => pos_part(dot_s(cn, no)),
                Option::None => 0,
            }
        };
        let c = image[pi]@[pj];
        (c.x * pw, c.y * pw, c.z * pw, pw)
    }
}

/// The fold of cell contributions over the flattened neighborhood.
pub open spec fn accum_s(
    image: Seq<Vec<Vec3>>,
    normals: Seq<Vec<Option<Vec3>>>,
    vars: Seq<Vec<i128>>,
    cfg: RenderConfig,
    i: int,
    j: int,
    cn: Vec3,
    idx: int,
    acc: (int, int, int, int),
    h: int,
    w: int,
) -> (int, int, int, int)
    decreases cfg.smooth_size as int * (cfg.smooth_size as int) - idx,
{
    let nn = cfg.smooth_size as int * (cfg.smooth_size as int);
    if idx < 0 || idx >= nn {
        acc
    } else {
        let c = cell_s(image, normals, vars, cfg, i, j, cn, idx, h, w);
        accum_s(
            image,
            normals,
            vars,
            cfg,
            i,
            j,
            cn,
            idx + 1,
            (acc.0 + c.0, acc.1 + c.1, acc.2 + c.2, acc.3 + c.3),
            h,
            w,
        )
    }
}

/// What the filter produces for one pixel: pixels without an agreed
/// normal pass through; otherwise the weighted average, or the input
/// unchanged when the total weight is zero.
pub open spec fn smooth_pixel_s(
    image: Seq<Vec<Vec3>>,
    normals: Seq<Vec<Option<Vec3>>>,
    vars: Seq<Vec<i128>>,
    cfg: RenderConfig,
    i: int,
    j: int,
    h: int,
    w: int,
) -> Vec3 {
    match normals[i]@[j] {
        Option::None => image[i]@[j],
        Option::Some(cn) => {
            let a = accum_s(image, normals, vars, cfg, i, j, cn, 0, (0, 0, 0, 0), h, w);
            if a.3 > 0 {
                Vec3 {
                    x: div_t(a.0, a.3) as i128,
                    y: div_t(a.1, a.3) as i128,
                    z: div_t(a.2, a.3) as i128,
                }
            } else {
                image[i]@[j]
            }
        },
    }
}

/// Every cell's weight is nonnegative and bounded, and its color terms
/// are bounded wide products.
proof fn lemma_cell_bounds(
    image: Seq<Vec<Vec3>>,
    normals: Seq<Vec<Option<Vec3>>>,
    vars: Seq<Vec<i128>>,
    cfg: RenderConfig,
    i: int,
    j: int,
    cn: Vec3,
    idx: int,
    h: int,
    w: int,
)
    requires
        grid_wf(image, normals, vars, h, w),
        config_in(cfg),
        0 <= cfg.smoothing_base_weight,
        cfg.smoothing_base_weight <= SMOOTH_BOUND,
        0 <= i < h,
        0 <= j < w,
        bounded_color(cn),
    ensures
        ({
            let c = cell_s(image, normals, vars, cfg, i, j, cn, idx, h, w);
            &&& 0 <= c.3 <= 2251799813685248int
            &&& abs_s(c.0) <= 2475880078570760549798248448int
            &&& abs_s(c.1) <= 2475880078570760549798248448int
            &&& abs_s(c.2) <= 2475880078570760549798248448int
        }),
{
    let n = cfg.smooth_size as int;
    let k = idx / n;
    let l = idx % n;
    let pi = i + k - n / 2;
    let pj = j + l - n / 2;
    if !(pi < 0 || pi >= h || pj < 0 || pj >= w) {
        let pw = if k == n / 2 && l == n / 2 {
            fx_div_s(cfg.smoothing_base_weight as int, vars[i]@[j] as int)
        } else {
            match normals[pi]@[pj] {
                Option::Some(no) => pos_part(dot_s(cn, no)),
                Option::None => 0,
            }
        };
        if k == n / 2 && l == n / 2 {
            lemma_fx_div_bound(
                cfg.smoothing_base_weight as int,
                vars[i]@[j] as int,
                SMOOTH_BOUND as int,
                FX_EPS as int,
            );
            assert(SMOOTH_BOUND as int * (FX_ONE as int) == 4722366482869645213696int)
                by (nonlinear_arith)
                requires
                    SMOOTH_BOUND == 1099511627776i128,
                    FX_ONE == 4294967296i128,
            ;
            assert(4722366482869645213696int / (FX_EPS as int) <= 2251799813685248int);
            assert(pw >= 0) by {
                let v = vars[i]@[j] as int;
                vstd::arithmetic::div_mod::lemma_div_pos_is_pos(
                    abs_s(cfg.smoothing_base_weight as int * (FX_ONE as int)),
                    abs_s(v),
                );
            }
        } else {
            match normals[pi]@[pj] {
                Option::Some(no) => {
                    lemma_fx_mul_bound(
                        cn.x as int,
                        no.x as int,
                        SMOOTH_BOUND as int,
                        SMOOTH_BOUND as int,
                    );
                    lemma_fx_mul_bound(
                        cn.y as int,
                        no.y as int,
                        SMOOTH_BOUND as int,
                        SMOOTH_BOUND as int,
                    );
                    lemma_fx_mul_bound(
                        cn.z as int,
                        no.z as int,
                        SMOOTH_BOUND as int,
                        SMOOTH_BOUND as int,
                    );
                    assert(SMOOTH_BOUND as int * (SMOOTH_BOUND as int)
                        == 1208925819614629174706176int) by (nonlinear_arith)
                        requires
                            SMOOTH_BOUND == 1099511627776i128,
                    ;
                    assert(1208925819614629174706176int / (FX_ONE as int) == 281474976710656int);
                    crate::fixed::lemma_sat_abs(
                        crate::fixed::fx_mul_s(cn.x as int, no.x as int) + crate::fixed::fx_mul_s(
                            cn.y as int,
                            no.y as int,
                        ),
                    );
                    crate::fixed::lemma_sat_abs(
                        crate::fixed::fx_add_s(
                            crate::fixed::fx_mul_s(cn.x as int, no.x as int),
                            crate::fixed::fx_mul_s(cn.y as int, no.y as int),
                        ) + crate::fixed::fx_mul_s(cn.z as int, no.z as int),
                    );
                },
                Option::None => {},
            }
        }
        assert(0 <= pw <= 2251799813685248int);
        let c = image[pi]@[pj];
        assert(abs_s(c.x * pw) <= 2475880078570760549798248448int && abs_s(c.y * pw)
            <= 2475880078570760549798248448int && abs_s(c.z * pw)
            <= 2475880078570760549798248448int) by (nonlinear_arith)
            requires
                abs_s(c.x as int) <= 1099511627776int,
                abs_s(c.y as int) <= 1099511627776int,
                abs_s(c.z as int) <= 1099511627776int,
                0 <= pw <= 2251799813685248int,
                abs_s(c.x as int) == (if c.x as int >= 0 { c.x as int } else { -(c.x as int) }),
                abs_s(c.y as int) == (if c.y as int >= 0 { c.y as int } else { -(c.y as int) }),
                abs_s(c.z as int) == (if c.z as int >= 0 { c.z as int } else { -(c.z as int) }),
                abs_s(c.x * pw) == (if c.x as int * pw >= 0 {
                    c.x as int * pw
                } else {
                    -(c.x as int * pw)
                }),
                abs_s(c.y * pw) == (if c.y as int * pw >= 0 {
                    c.y as int * pw
                } else {
                    -(c.y as int * pw)
                }),
                abs_s(c.z * pw) == (if c.z as int * pw >= 0 {
                    c.z as int * pw
                } else {
                    -(c.z as int * pw)
                }),
        ;
    }
}

/// Folding from a bounded state keeps every component bounded: weights
/// stay nonnegative and the wide sums stay far inside the scalar range.
proof fn lemma_accum_bounds(
    image: Seq<Vec<Vec3>>,
    normals: Seq<Vec<Option<Vec3>>>,
    vars: Seq<Vec<i128>>,
    cfg: RenderConfig,
    i: int,
    j: int,
    cn: Vec3,
    idx: int,
    acc: (int, int, int, int),
    h: int,
    w: int,
)
    requires
        grid_wf(image, normals, vars, h, w),
        config_in(cfg),
        0 <= cfg.smoothing_base_weight,
        cfg.smoothing_base_weight <= SMOOTH_BOUND,
        0 <= i < h,
        0 <= j < w,
        bounded_color(cn),
        0 <= idx,
        0 <= acc.3 <= idx * 2251799813685248int,
        abs_s(acc.0) <= idx * 2475880078570760549798248448int,
        abs_s(acc.1) <= idx * 2475880078570760549798248448int,
        abs_s(acc.2) <= idx * 2475880078570760549798248448int,
    ensures
        ({
            let nn = cfg.smooth_size as int * (cfg.smooth_size as int);
            let a = accum_s(image, normals, vars, cfg, i, j, cn, idx, acc, h, w);
            let top = if idx <= nn {
                nn
            } else {
                idx
            };
            &&& 0 <= a.3 <= top * 2251799813685248int
            &&& abs_s(a.0) <= top * 2475880078570760549798248448int
            &&& abs_s(a.1) <= top * 2475880078570760549798248448int
            &&& abs_s(a.2) <= top * 2475880078570760549798248448int
        }),
    decreases cfg.smooth_size as int * (cfg.smooth_size as int) - idx,
{
    let nn = cfg.smooth_size as int * (cfg.smooth_size as int);
    if 0 <= idx < nn {
        let c = cell_s(image, normals, vars, cfg, i, j, cn, idx, h, w);
        lemma_cell_bounds(image, normals, vars, cfg, i, j, cn, idx, h, w);
        assert((idx + 1) * 2251799813685248int == idx * 2251799813685248int
            + 2251799813685248int) by (nonlinear_arith);
        assert((idx + 1) * 2475880078570760549798248448int == idx
            * 2475880078570760549798248448int + 2475880078570760549798248448int)
            by (nonlinear_arith);
        lemma_accum_bounds(
            image,
            normals,
            vars,
            cfg,
            i,
            j,
            cn,
            idx + 1,
            (acc.0 + c.0, acc.1 + c.1, acc.2 + c.2, acc.3 + c.3),
            h,
            w,
        );
    } else {
        if idx * 2251799813685248int < 0 || idx * 2475880078570760549798248448int < 0 {
            assert(idx * 2251799813685248int >= 0 && idx * 2475880078570760549798248448int >= 0)
                by (nonlinear_arith)
                requires
                    0 <= idx,
            ;
        }
    }
}

/// In a neighborhood whose pixels all share one color (and whose normals
/// all agree), the fold accumulates that color exactly, scaled by the
/// total weight.
proof fn lemma_accum_uniform(
    image: Seq<Vec<Vec3>>,
    normals: Seq<Vec<Option<Vec3>>>,
    vars: Seq<Vec<i128>>,
    cfg: RenderConfig,
    i: int,
    j: int,
    cn: Vec3,
    idx: int,
    acc: (int, int, int, int),
    h: int,
    w: int,
    c: Vec3,
)
    requires
        grid_wf(image, normals, vars, h, w),
        config_in(cfg),
        0 <= cfg.smoothing_base_weight,
        cfg.smoothing_base_weight <= SMOOTH_BOUND,
        0 <= i < h,
        0 <= j < w,
        bounded_color(cn),
        0 <= idx,
        forall|pi: int, pj: int|
            0 <= pi < h && 0 <= pj < w ==> #[trigger] image[pi]@[pj] == c,
        acc.3 >= 0,
        acc.0 == c.x as int * acc.3,
        acc.1 == c.y as int * acc.3,
        acc.2 == c.z as int * acc.3,
    ensures
        ({
            let a = accum_s(image, normals, vars, cfg, i, j, cn, idx, acc, h, w);
            &&& a.3 >= acc.3
            &&& a.0 == c.x as int * a.3
            &&& a.1 == c.y as int * a.3
            &&& a.2 == c.z as int * a.3
        }),
    decreases cfg.smooth_size as int * (cfg.smooth_size as int) - idx,
{
    let nn = cfg.smooth_size as int * (cfg.smooth_size as int);
    if 0 <= idx < nn {
        let cc = cell_s(image, normals, vars, cfg, i, j, cn, idx, h, w);
        lemma_cell_bounds(image, normals, vars, cfg, i, j, cn, idx, h, w);
        let n = cfg.smooth_size as int;
        let k = idx / n;
        let l = idx % n;
        let pi = i + k - n / 2;
        let pj = j + l - n / 2;
        if pi < 0 || pi >= h || pj < 0 || pj >= w {
            assert(cc == (0int, 0int, 0int, 0int));
        } else {
            assert(image[pi]@[pj] == c);
        }
        assert(cc.0 == c.x as int * cc.3 && cc.1 == c.y as int * cc.3 && cc.2 == c.z as int
            * cc.3) by (nonlinear_arith)
            requires
                cc == (0int, 0int, 0int, 0int) || (cc.0 == c.x as int * cc.3 && cc.1
                    == c.y as int * cc.3 && cc.2 == c.z as int * cc.3),
        ;
        assert(c.x as int * acc.3 + c.x as int * cc.3 == c.x as int * (acc.3 + cc.3)
            && c.y as int * acc.3 + c.y as int * cc.3 == c.y as int * (acc.3 + cc.3)
            && c.z as int * acc.3 + c.z as int * cc.3 == c.z as int * (acc.3 + cc.3))
            by (nonlinear_arith);
        lemma_accum_uniform(
            image,
            normals,
            vars,
            cfg,
            i,
            j,
            cn,
            idx + 1,
            (acc.0 + cc.0, acc.1 + cc.1, acc.2 + cc.2, acc.3 + cc.3),
            h,
            w,
            c,
        );
    }
}

/// Truncating division is exact on whole multiples.
proof fn lemma_div_t_multiple(a: int, b: int)
    requires
        b > 0,
    ensures
        div_t(a * b, b) == a,
{
    assert(abs_s(a * b) == abs_s(a) * b && (a * b >= 0) == (a >= 0 || a * b == 0))
        by (nonlinear_arith)
        requires
            b > 0,
            abs_s(a) == (if a >= 0 { a } else { -a }),
            abs_s(a * b) == (if a * b >= 0 { a * b } else { -(a * b) }),
    ;
    vstd::arithmetic::div_mod::lemma_div_multiples_vanish(abs_s(a), b);
    assert(b * abs_s(a) == abs_s(a) * b) by (nonlinear_arith);
}

/// A uniform neighborhood passes through the filter unchanged: when every
/// pixel in the canvas shares one color and one agreed normal, the
/// smoothed value at any pixel equals the input color, whatever the
/// variances.
pub proof fn lemma_smooth_uniform(
    image: Seq<Vec<Vec3>>,
    normals: Seq<Vec<Option<Vec3>>>,
    vars: Seq<Vec<i128>>,
    cfg: RenderConfig,
    i: int,
    j: int,
    h: int,
    w: int,
    c: Vec3,
    nvec: Vec3,
)
    requires
        grid_wf(image, normals, vars, h, w),
        config_in(cfg),
        0 <= cfg.smoothing_base_weight,
        cfg.smoothing_base_weight <= SMOOTH_BOUND,
        0 <= i < h,
        0 <= j < w,
        forall|pi: int, pj: int|
            0 <= pi < h && 0 <= pj < w ==> #[trigger] image[pi]@[pj] == c,
        forall|pi: int, pj: int|
            0 <= pi < h && 0 <= pj < w ==> #[trigger] normals[pi]@[pj] == Option::Some(nvec),
    ensures
        smooth_pixel_s(image, normals, vars, cfg, i, j, h, w) == c,
{
    assert(normals[i]@[j] == Option::Some(nvec));
    lemma_accum_uniform(image, normals, vars, cfg, i, j, nvec, 0, (0, 0, 0, 0), h, w, c);
    let a = accum_s(image, normals, vars, cfg, i, j, nvec, 0, (0, 0, 0, 0), h, w);
    if a.3 > 0 {
        lemma_div_t_multiple(c.x as int, a.3);
        lemma_div_t_multiple(c.y as int, a.3);
        lemma_div_t_multiple(c.z as int, a.3);
        assert(a.0 == c.x as int * a.3 && a.1 == c.y as int * a.3 && a.2 == c.z as int * a.3);
        assert(smooth_pixel_s(image, normals, vars, cfg, i, j, h, w) == (Vec3 {
            x: div_t(c.x as int * a.3, a.3) as i128,
            y: div_t(c.y as int * a.3, a.3) as i128,
            z: div_t(c.z as int * a.3, a.3) as i128,
        }));
    } else {
        assert(image[i]@[j] == c);
    }
}

/// One neighborhood cell's contribution, computed exactly.
fn cell_at(
    image: &Vec<Vec<Vec3>>,
    normals: &Vec<Vec<Option<Vec3>>>,
    vars: &Vec<Vec<i128>>,
    cfg: &RenderConfig,
    i: usize,
    j: usize,
    cn: Vec3,
    idx: usize,
    width: usize,
) -> (r: (i128, i128, i128, i128))
    requires
        grid_wf(image@, normals@, vars@, image@.len() as int, width as int),
        config_in(*cfg),
        0 <= cfg.smoothing_base_weight,
        cfg.smoothing_base_weight <= SMOOTH_BOUND,
        i < image@.len(),
        j < width,
        bounded_color(cn),
    ensures
        (r.0 as int, r.1 as int, r.2 as int, r.3 as int) == cell_s(
            image@,
            normals@,
            vars@,
            *cfg,
            i as int,
            j as int,
            cn,
            idx as int,
            image@.len() as int,
            width as int,
        ),
        0 <= r.3 <= 2251799813685248i128,
        abs_s(r.0 as int) <= 2475880078570760549798248448int,
        abs_s(r.1 as int) <= 2475880078570760549798248448int,
        abs_s(r.2 as int) <= 2475880078570760549798248448int,
        abs_s(r.0 as int) <= SMOOTH_BOUND as int * (r.3 as int),
        abs_s(r.1 as int) <= SMOOTH_BOUND as int * (r.3 as int),
        abs_s(r.2 as int) <= SMOOTH_BOUND as int * (r.3 as int),
{
    proof {
        lemma_cell_bounds(
            image@,
            normals@,
            vars@,
            *cfg,
            i as int,
            j as int,
            cn,
            idx as int,
            image@.len() as int,
            width as int,
        );
    }
    let h = image.len();
    let n: usize = cfg.smooth_size as usize;
    let k: usize = idx / n;
    let l: usize = idx % n;
    let pi: i128 = i as i128 + k as i128 - (n / 2) as i128;
    let pj: i128 = j as i128 + l as i128 - (n / 2) as i128;
    if pi < 0 || pi >= h as i128 || pj < 0 || pj >= width as i128 {
        (0, 0, 0, 0)
    } else {
        let pu: usize = pi as usize;
        let pv: usize = pj as usize;
        proof {
            assert(pu as int == pi as int);
            assert(pv as int == pj as int);
            assert(normals@[pi as int]@.len() == width as int);
            assert(image@[pi as int]@.len() == width as int);
            assert(vars@[i as int]@.len() == width as int);
        }
        let pw: i128 = if k == n / 2 && l == n / 2 {
            fx_div(cfg.smoothing_base_weight, vars[i][j])
        } else {
            match &normals[pu][pv] {
                Option::Some(no) => {
                    proof {
                        assert(bounded_color(*no));
                    }
                    let d = cn.dot(no);
                    if d > 0 {
                        d
                    } else {
                        0
                    }
                },
                Option::None => 0,
            }
        };
        let c = image[pu][pv];
        proof {
            let cell = cell_s(
                image@,
                normals@,
                vars@,
                *cfg,
                i as int,
                j as int,
                cn,
                idx as int,
                image@.len() as int,
                width as int,
            );
            assert(cell.3 == pw as int);
            assert(abs_s(c.x as int) <= SMOOTH_BOUND as int && abs_s(c.y as int)
                <= SMOOTH_BOUND as int && abs_s(c.z as int) <= SMOOTH_BOUND as int);
            assert(abs_s(c.x as int * (pw as int)) <= 2475880078570760549798248448int && abs_s(
                c.y as int * (pw as int),
            ) <= 2475880078570760549798248448int && abs_s(c.z as int * (pw as int))
                <= 2475880078570760549798248448int && abs_s(c.x as int * (pw as int))
                <= 1099511627776int * (pw as int) && abs_s(c.y as int * (pw as int))
                <= 1099511627776int * (pw as int) && abs_s(c.z as int * (pw as int))
                <= 1099511627776int * (pw as int)) by (nonlinear_arith)
                requires
                    abs_s(c.x as int) <= 1099511627776int,
                    abs_s(c.y as int) <= 1099511627776int,
                    abs_s(c.z as int) <= 1099511627776int,
                    0 <= pw as int <= 2251799813685248int,
                    abs_s(c.x as int) == (if c.x as int >= 0 {
                        c.x as int
                    } else {
                        -(c.x as int)
                    }),
                    abs_s(c.y as int) == (if c.y as int >= 0 {
                        c.y as int
                    } else {
                        -(c.y as int)
                    }),
                    abs_s(c.z as int) == (if c.z as int >= 0 {
                        c.z as int
                    } else {
                        -(c.z as int)
                    }),
                    abs_s(c.x as int * (pw as int)) == (if c.x as int * (pw as int) >= 0 {
                        c.x as int * (pw as int)
                    } else {
                        -(c.x as int * (pw as int))
                    }),
                    abs_s(c.y as int * (pw as int)) == (if c.y as int * (pw as int) >= 0 {
                        c.y as int * (pw as int)
                    } else {
                        -(c.y as int * (pw as int))
                    }),
                    abs_s(c.z as int * (pw as int)) == (if c.z as int * (pw as int) >= 0 {
                        c.z as int * (pw as int)
                    } else {
                        -(c.z as int * (pw as int))
                    }),
            ;
        }
        (c.x * pw, c.y * pw, c.z * pw, pw)
    }
}

/// The filter at one pixel.
pub fn smooth_pixel(
    image: &Vec<Vec<Vec3>>,
    normals: &Vec<Vec<Option<Vec3>>>,
    vars: &Vec<Vec<i128>>,
    cfg: &RenderConfig,
    i: usize,
    j: usize,
    width: usize,
) -> (r: Vec3)
    requires
        grid_wf(image@, normals@, vars@, image@.len() as int, width as int),
        config_in(*cfg),
        0 <= cfg.smoothing_base_weight,
        cfg.smoothing_base_weight <= SMOOTH_BOUND,
        i < image@.len(),
        j < width,
    ensures
        r == smooth_pixel_s(
            image@,
            normals@,
            vars@,
            *cfg,
            i as int,
            j as int,
            image@.len() as int,
            width as int,
        ),
        bounded_color(r),
{
    let ghost h_g = image@.len() as int;
    let ghost w_g = width as int;
    match &normals[i][j] {
        Option::None => {
            proof {
                assert(bounded_color(image@[i as int]@[j as int]));
            }
            image[i][j]
        },
        Option::Some(cn_ref) => {
            let cn = *cn_ref;
            let n: usize = cfg.smooth_size as usize;
            proof {
                assert(n <= 15);
                assert(n as int * (n as int) <= 225) by (nonlinear_arith)
                    requires
                        0 <= n <= 15,
                ;
            }
            let nn: usize = n * n;
            let mut mx: i128 = 0;
            let mut my: i128 = 0;
            let mut mz: i128 = 0;
            let mut wsum: i128 = 0;
            let mut idx: usize = 0;
            while idx < nn
                invariant
                    h_g == image@.len() as int,
                    w_g == width as int,
                    grid_wf(image@, normals@, vars@, h_g, w_g),
                    config_in(*cfg),
                    0 <= cfg.smoothing_base_weight,
                    cfg.smoothing_base_weight <= SMOOTH_BOUND,
                    i < h_g,
                    j < w_g,
                    normals@[i as int]@[j as int] == Option::Some(cn),
                    bounded_color(cn),
                    nn == cfg.smooth_size as int * (cfg.smooth_size as int),
                    nn <= 225,
                    0 <= idx <= nn,
                    0 <= wsum <= idx * 2251799813685248i128,
                    abs_s(mx as int) <= idx * 2475880078570760549798248448int,
                    abs_s(my as int) <= idx * 2475880078570760549798248448int,
                    abs_s(mz as int) <= idx * 2475880078570760549798248448int,
                    abs_s(mx as int) <= SMOOTH_BOUND as int * (wsum as int),
                    abs_s(my as int) <= SMOOTH_BOUND as int * (wsum as int),
                    abs_s(mz as int) <= SMOOTH_BOUND as int * (wsum as int),
                    accum_s(image@, normals@, vars@, *cfg, i as int, j as int, cn, 0, (0, 0, 0, 0), h_g, w_g)
                        == accum_s(
                        image@,
                        normals@,
                        vars@,
                        *cfg,
                        i as int,
                        j as int,
                        cn,
                        idx as int,
                        (mx as int, my as int, mz as int, wsum as int),
                        h_g,
                        w_g,
                    ),
                decreases nn - idx,
            {
                let cell = cell_at(image, normals, vars, cfg, i, j, cn, idx, width);
                proof {
                    assert((idx + 1) * 2251799813685248int == idx * 2251799813685248int
                        + 2251799813685248int) by (nonlinear_arith);
                    assert((idx + 1) * 2475880078570760549798248448int == idx
                        * 2475880078570760549798248448int + 2475880078570760549798248448int)
                        by (nonlinear_arith);
                    assert(idx * 2251799813685248int <= 225 * 2251799813685248int && idx
                        * 2475880078570760549798248448int <= 225
                        * 2475880078570760549798248448int) by (nonlinear_arith)
                        requires
                            0 <= idx <= 225,
                    ;
                }
                proof {
                    assert(SMOOTH_BOUND as int * (wsum as int) + SMOOTH_BOUND as int
                        * (cell.3 as int) == SMOOTH_BOUND as int * (wsum as int + cell.3 as int))
                        by (nonlinear_arith);
                }
                mx = mx + cell.0;
                my = my + cell.1;
                mz = mz + cell.2;
                wsum = wsum + cell.3;
                idx = idx + 1;
            }
            if wsum > 0 {
                proof {
                    lemma_avg_bounded(mx as int, wsum as int);
                    lemma_avg_bounded(my as int, wsum as int);
                    lemma_avg_bounded(mz as int, wsum as int);
                }
                Vec3 { x: div_wide(mx, wsum), y: div_wide(my, wsum), z: div_wide(mz, wsum) }
            } else {
                proof {
                    assert(bounded_color(image@[i as int]@[j as int]));
                }
                image[i][j]
            }
        },
    }
}

/// A weighted sum of bounded colors, divided by the total weight, stays
/// bounded.
proof fn lemma_avg_bounded(m: int, w: int)
    requires
        w > 0,
        abs_s(m) <= SMOOTH_BOUND as int * w,
    ensures
        abs_s(div_t(m, w)) <= SMOOTH_BOUND as int,
        fx_in(div_t(m, w)),
{
    assert(abs_s(div_t(m, w)) == abs_s(m) / abs_s(w));
    vstd::arithmetic::div_mod::lemma_div_is_ordered(abs_s(m), SMOOTH_BOUND as int * w, w);
    assert(SMOOTH_BOUND as int * w == w * (SMOOTH_BOUND as int)) by (nonlinear_arith);
    vstd::arithmetic::div_mod::lemma_div_multiples_vanish(SMOOTH_BOUND as int, w);
    vstd::arithmetic::div_mod::lemma_div_pos_is_pos(abs_s(m), w);
}

/// The denoising pass over the whole canvas.  Disabled post-processing
/// copies the buffer through unchanged.
pub fn smooth(
    image: &Vec<Vec<Vec3>>,
    normals: &Vec<Vec<Option<Vec3>>>,
    vars: &Vec<Vec<i128>>,
    cfg: &RenderConfig,
    width: usize,
) -> (out: Vec<Vec<Vec3>>)
    requires
        grid_wf(image@, normals@, vars@, image@.len() as int, width as int),
        config_in(*cfg),
        0 <= cfg.smoothing_base_weight,
        cfg.smoothing_base_weight <= SMOOTH_BOUND,
    ensures
        out@.len() == image@.len(),
        forall|i: int| 0 <= i < out@.len() ==> (#[trigger] out@[i])@.len() == width,
        forall|i: int, j: int|
            0 <= i < out@.len() && 0 <= j < width ==> #[trigger] out@[i]@[j] == (
            if cfg.do_post_processing {
                smooth_pixel_s(
                    image@,
                    normals@,
                    vars@,
                    *cfg,
                    i,
                    j,
                    image@.len() as int,
                    width as int,
                )
            } else {
                image@[i]@[j]
            }),
{
    let h = image.len();
    let mut out: Vec<Vec<Vec3>> = Vec::new();
    let mut i: usize = 0;
    while i < h
        invariant
            grid_wf(image@, normals@, vars@, image@.len() as int, width as int),
            config_in(*cfg),
            0 <= cfg.smoothing_base_weight,
            cfg.smoothing_base_weight <= SMOOTH_BOUND,
            h == image@.len(),
            0 <= i <= h,
            out@.len() == i,
            forall|a: int| 0 <= a < i ==> (#[trigger] out@[a])@.len() == width,
            forall|a: int, b: int|
                0 <= a < i && 0 <= b < width ==> #[trigger] out@[a]@[b] == (
                if cfg.do_post_processing {
                    smooth_pixel_s(
                        image@,
                        normals@,
                        vars@,
                        *cfg,
                        a,
                        b,
                        image@.len() as int,
                        width as int,
                    )
                } else {
                    image@[a]@[b]
                }),
        decreases h - i,
    {
        let mut row: Vec<Vec3> = Vec::new();
        let mut j: usize = 0;
        while j < width
            invariant
                grid_wf(image@, normals@, vars@, image@.len() as int, width as int),
                config_in(*cfg),
                0 <= cfg.smoothing_base_weight,
                cfg.smoothing_base_weight <= SMOOTH_BOUND,
                h == image@.len(),
                0 <= i < h,
                0 <= j <= width,
                row@.len() == j,
                forall|b: int|
                    0 <= b < j ==> #[trigger] row@[b] == (if cfg.do_post_processing {
                        smooth_pixel_s(
                            image@,
                            normals@,
                            vars@,
                            *cfg,
                            i as int,
                            b,
                            image@.len() as int,
                            width as int,
                        )
                    } else {
                        image@[i as int]@[b]
                    }),
            decreases width - j,
        {
            let v = if cfg.do_post_processing {
                smooth_pixel(image, normals, vars, cfg, i, j, width)
            } else {
                image[i][j]
            };
            row.push(v);
            j = j + 1;
        }
        out.push(row);
        i = i + 1;
    }
    out
}

} // verus!
