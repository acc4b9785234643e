//! Three-component vectors over the fixed-point scalars, used as positions,
//! directions and linear-light colors.

use vstd::prelude::*;

use crate::fixed::{
    abs_s, fx_add, fx_add_s, fx_div, fx_div_s, fx_in, fx_mul, fx_mul_s, fx_neg, fx_sqrt,
    fx_sqrt_s, fx_sub, fx_sub_s, FX_ONE,
};
use crate::random::{mix_s, next_state_s, unit_from_s, Prng};
use crate::three_d_tree::Axis;

verus! {

/// Componentwise magnitude threshold below which a vector counts as zero
/// (about 1e-8, scaled).
pub const NEAR_ZERO_FX: i128 = 43;

#[derive(Clone, Copy, PartialEq, Eq, Structural, Debug)]
pub struct Vec3 {
    pub x: i128,
    pub y: i128,
    pub z: i128,
}

/// Every component is a scalar the arithmetic routines accept.
pub open spec fn vec_in(v: Vec3) -> bool {
    fx_in(v.x as int) && fx_in(v.y as int) && fx_in(v.z as int)
}

/// What `add` returns.
pub open spec fn add_s(a: Vec3, b: Vec3) -> Vec3 {
    Vec3 {
        x: fx_add_s(a.x as int, b.x as int) as i128,
        y: fx_add_s(a.y as int, b.y as int) as i128,
        z: fx_add_s(a.z as int, b.z as int) as i128,
    }
}

/// What `sub` returns.
pub open spec fn sub_s(a: Vec3, b: Vec3) -> Vec3 {
    Vec3 {
        x: fx_sub_s(a.x as int, b.x as int) as i128,
        y: fx_sub_s(a.y as int, b.y as int) as i128,
        z: fx_sub_s(a.z as int, b.z as int) as i128,
    }
}

/// What `mul` (componentwise product) returns.
pub open spec fn mul_s(a: Vec3, b: Vec3) -> Vec3 {
    Vec3 {
        x: fx_mul_s(a.x as int, b.x as int) as i128,
        y: fx_mul_s(a.y as int, b.y as int) as i128,
        z: fx_mul_s(a.z as int, b.z as int) as i128,
    }
}

/// What `scale` returns.
pub open spec fn scale_s(a: Vec3, k: int) -> Vec3 {
    Vec3 {
        x: fx_mul_s(a.x as int, k) as i128,
        y: fx_mul_s(a.y as int, k) as i128,
        z: fx_mul_s(a.z as int, k) as i128,
    }
}

/// What `div` returns.
pub open spec fn div_vs(a: Vec3, k: int) -> Vec3 {
    Vec3 {
        x: fx_div_s(a.x as int, k) as i128,
        y: fx_div_s(a.y as int, k) as i128,
        z: fx_div_s(a.z as int, k) as i128,
    }
}

/// What `neg` returns.
pub open spec fn neg_s(a: Vec3) -> Vec3 {
    Vec3 { x: (-(a.x as int)) as i128, y: (-(a.y as int)) as i128, z: (-(a.z as int)) as i128 }
}

/// What `dot` returns: the saturating sum of the scaled products.
pub open spec fn dot_s(a: Vec3, b: Vec3) -> int {
    fx_add_s(
        fx_add_s(fx_mul_s(a.x as int, b.x as int), fx_mul_s(a.y as int, b.y as int)),
        fx_mul_s(a.z as int, b.z as int),
    )
}

/// What `length_squared` returns.
pub open spec fn length_squared_s(a: Vec3) -> int {
    dot_s(a, a)
}

/// What `length` returns.
pub open spec fn length_s(a: Vec3) -> int {
    fx_sqrt_s(length_squared_s(a))
}

/// What `unit_vector` returns.
pub open spec fn unit_vector_s(a: Vec3) -> Vec3 {
    div_vs(a, length_s(a))
}

/// What `cross` returns.
pub open spec fn cross_s(a: Vec3, b: Vec3) -> Vec3 {
    Vec3 {
        x: fx_sub_s(fx_mul_s(a.y as int, b.z as int), fx_mul_s(a.z as int, b.y as int)) as i128,
        y: (-fx_sub_s(fx_mul_s(a.x as int, b.z as int), fx_mul_s(a.z as int, b.x as int))) as i128,
        z: fx_sub_s(fx_mul_s(a.x as int, b.y as int), fx_mul_s(a.y as int, b.x as int)) as i128,
    }
}

/// What `reflect` returns.
pub open spec fn reflect_s(v: Vec3, n: Vec3) -> Vec3 {
    sub_s(v, scale_s(scale_s(n, 2 * FX_ONE as int), dot_s(v, n)))
}

/// What `clamp` returns: the componentwise minimum with the given ceiling.
pub open spec fn clamp_s(v: Vec3, c: Vec3) -> Vec3 {
    Vec3 {
        x: if v.x <= c.x {
            v.x
        } else {
            c.x
        },
        y: if v.y <= c.y {
            v.y
        } else {
            c.y
        },
        z: if v.z <= c.z {
            v.z
        } else {
            c.z
        },
    }
}

/// The component selected by an axis.
pub open spec fn axis_s(v: Vec3, axis: Axis) -> int {
    match axis {
        Axis::X => v.x as int,
        Axis::Y => v.y as int,
        Axis::Z => v.z as int,
    }
}

impl Vec3 {
    pub fn new(x: i128, y: i128, z: i128) -> (r: Vec3)
        requires
            fx_in(x as int),
            fx_in(y as int),
            fx_in(z as int),
        ensures
            r == (Vec3 { x, y, z }),
            vec_in(r),
    {
        Vec3 { x, y, z }
    }

    /// The zero vector.
    pub fn z() -> (r: Vec3)
        ensures
            r == (Vec3 { x: 0i128, y: 0i128, z: 0i128 }),
            vec_in(r),
    {
        Vec3 { x: 0, y: 0, z: 0 }
    }

    pub fn add(self, rhs: Vec3) -> (r: Vec3)
        requires
            vec_in(self),
            vec_in(rhs),
        ensures
            r == add_s(self, rhs),
            vec_in(r),
    {
        Vec3 { x: fx_add(self.x, rhs.x), y: fx_add(self.y, rhs.y), z: fx_add(self.z, rhs.z) }
    }

    pub fn sub(self, rhs: Vec3) -> (r: Vec3)
        requires
            vec_in(self),
            vec_in(rhs),
        ensures
            r == sub_s(self, rhs),
            vec_in(r),
    {
        Vec3 { x: fx_sub(self.x, rhs.x), y: fx_sub(self.y, rhs.y), z: fx_sub(self.z, rhs.z) }
    }

    /// Componentwise product (colors filter colors this way).
    pub fn mul(self, rhs: Vec3) -> (r: Vec3)
        requires
            vec_in(self),
            vec_in(rhs),
        ensures
            r == mul_s(self, rhs),
            vec_in(r),
    {
        Vec3 { x: fx_mul(self.x, rhs.x), y: fx_mul(self.y, rhs.y), z: fx_mul(self.z, rhs.z) }
    }

    /// Product with a scalar.
    pub fn scale(self, k: i128) -> (r: Vec3)
        requires
            vec_in(self),
            fx_in(k as int),
        ensures
            r == scale_s(self, k as int),
            vec_in(r),
    {
        Vec3 { x: fx_mul(self.x, k), y: fx_mul(self.y, k), z: fx_mul(self.z, k) }
    }

    /// Division by a scalar.
    pub fn div(self, k: i128) -> (r: Vec3)
        requires
            vec_in(self),
            fx_in(k as int),
        ensures
            r == div_vs(self, k as int),
            vec_in(r),
    {
        Vec3 { x: fx_div(self.x, k), y: fx_div(self.y, k), z: fx_div(self.z, k) }
    }

    pub fn neg(self) -> (r: Vec3)
        requires
            vec_in(self),
        ensures
            r == neg_s(self),
            vec_in(r),
    {
        Vec3 { x: fx_neg(self.x), y: fx_neg(self.y), z: fx_neg(self.z) }
    }

    pub fn dot(&self, other: &Vec3) -> (r: i128)
        requires
            vec_in(*self),
            vec_in(*other),
        ensures
            r == dot_s(*self, *other),
            fx_in(r as int),
    {
        fx_add(
            fx_add(fx_mul(self.x, other.x), fx_mul(self.y, other.y)),
            fx_mul(self.z, other.z),
        )
    }

    pub fn length_squared(&self) -> (r: i128)
        requires
            vec_in(*self),
        ensures
            r == length_squared_s(*self),
            fx_in(r as int),
    {
        self.dot(self)
    }

    pub fn length(&self) -> (r: i128)
        requires
            vec_in(*self),
        ensures
            r == length_s(*self),
            fx_in(r as int),
            r >= 0,
    {
        fx_sqrt(self.length_squared())
    }

    /// Scale to unit length; a zero-length input saturates componentwise
    /// instead of producing an undefined value.
    pub fn unit_vector(self) -> (r: Vec3)
        requires
            vec_in(self),
        ensures
            r == unit_vector_s(self),
            vec_in(r),
    {
        let l = self.length();
        self.div(l)
    }

    /// Whether every component is within the near-zero tolerance.
    pub fn near_zero(&self) -> (r: bool)
        requires
            vec_in(*self),
        ensures
            r == near_zero_s(*self),
    {
        let ax = if self.x >= 0 {
            self.x
        } else {
            -self.x
        };
        let ay = if self.y >= 0 {
            self.y
        } else {
            -self.y
        };
        let az = if self.z >= 0 {
            self.z
        } else {
            -self.z
        };
        ax < NEAR_ZERO_FX && ay < NEAR_ZERO_FX && az < NEAR_ZERO_FX
    }

    /// Mirror across a surface normal.
    pub fn reflect(self, normal: Vec3) -> (r: Vec3)
        requires
            vec_in(self),
            vec_in(normal),
        ensures
            r == reflect_s(self, normal),
            vec_in(r),
    {
        let d = self.dot(&normal);
        self.sub(normal.scale(2 * FX_ONE).scale(d))
    }

    /// Bend through a surface by the given ratio of refraction indices
    /// (Snell's law with the usual clamped cosine).
    pub fn refract(self, normal: Vec3, etai_over_etat: i128) -> (r: Vec3)
        requires
            vec_in(self),
            vec_in(normal),
            fx_in(etai_over_etat as int),
        ensures
            r == refract_spec(self, normal, etai_over_etat as int),
            vec_in(r),
    {
        let temp = self.neg().dot(&normal);
        let cos_theta = if temp < FX_ONE {
            temp
        } else {
            FX_ONE
        };
        let r_out_perp = self.add(normal.scale(cos_theta)).scale(etai_over_etat);
        let ls = r_out_perp.length_squared();
        let under = fx_sub(FX_ONE, ls);
        let under_abs = if under >= 0 {
            under
        } else {
            -under
        };
        let r_out_parallel = normal.scale(fx_neg(fx_sqrt(under_abs)));
        r_out_perp.add(r_out_parallel)
    }

    /// Componentwise minimum with a ceiling.
    pub fn clamp(self, clamp: Vec3) -> (r: Vec3)
        requires
            vec_in(self),
            vec_in(clamp),
        ensures
            r == clamp_s(self, clamp),
            vec_in(r),
    {
        Vec3 {
            x: if self.x <= clamp.x {
                self.x
            } else {
                clamp.x
            },
            y: if self.y <= clamp.y {
                self.y
            } else {
                clamp.y
            },
            z: if self.z <= clamp.z {
                self.z
            } else {
                clamp.z
            },
        }
    }

    /// Soft compression of each color channel: x maps to 2x / (2 + x) for
    /// positive x (a smooth under-approximation of the natural logarithm of
    /// 1 + x), and is left unchanged otherwise.
    pub fn ln_1p(self) -> (r: Vec3)
        requires
            vec_in(self),
        ensures
            r == (Vec3 {
                x: ln1p_s(self.x as int) as i128,
                y: ln1p_s(self.y as int) as i128,
                z: ln1p_s(self.z as int) as i128,
            }),
            vec_in(r),
    {
        Vec3 { x: fx_ln1p(self.x), y: fx_ln1p(self.y), z: fx_ln1p(self.z) }
    }

    pub fn cross(self, other: &Vec3) -> (r: Vec3)
        requires
            vec_in(self),
            vec_in(*other),
        ensures
            r == cross_s(self, *other),
            vec_in(r),
    {
        Vec3 {
            x: fx_sub(fx_mul(self.y, other.z), fx_mul(self.z, other.y)),
            y: fx_neg(fx_sub(fx_mul(self.x, other.z), fx_mul(self.z, other.x))),
            z: fx_sub(fx_mul(self.x, other.y), fx_mul(self.y, other.x)),
        }
    }

    pub fn get_axis(&self, axis: &Axis) -> (r: i128)
        ensures
            r == axis_s(*self, *axis),
    {
        match axis {
            Axis::X => self.x,
            Axis::Y => self.y,
            Axis::Z => self.z,
        }
    }
}

/// Whether every component is within the near-zero tolerance.
pub open spec fn near_zero_s(v: Vec3) -> bool {
    abs_s(v.x as int) < NEAR_ZERO_FX && abs_s(v.y as int) < NEAR_ZERO_FX && abs_s(v.z as int)
        < NEAR_ZERO_FX
}

/// What `fx_ln1p` returns.
pub open spec fn ln1p_s(x: int) -> int {
    if x <= 0 {
        x
    } else {
        fx_div_s(fx_mul_s(x, 2 * FX_ONE as int), fx_add_s(2 * FX_ONE as int, x))
    }
}

/// Soft compression of one channel.
pub fn fx_ln1p(x: i128) -> (r: i128)
    requires
        fx_in(x as int),
    ensures
        r == ln1p_s(x as int),
        fx_in(r as int),
{
    if x <= 0 {
        x
    } else {
        fx_div(fx_mul(x, 2 * FX_ONE), fx_add(2 * FX_ONE, x))
    }
}

/// What `refract` returns.
pub open spec fn refract_spec(v: Vec3, normal: Vec3, ratio: int) -> Vec3 {
    let temp = dot_s(neg_s(v), normal);
    let cos_theta = if temp < FX_ONE as int {
        temp
    } else {
        FX_ONE as int
    };
    let r_out_perp = scale_s(add_s(v, scale_s(normal, cos_theta)), ratio);
    let under = fx_sub_s(FX_ONE as int, length_squared_s(r_out_perp));
    let under_abs = if under >= 0 {
        under
    } else {
        -under
    };
    let r_out_parallel = scale_s(normal, -fx_sqrt_s(under_abs));
    add_s(r_out_perp, r_out_parallel)
}

/// Scaled multiplication is odd in its second argument.
pub proof fn lemma_fx_mul_neg(a: int, b: int)
    ensures
        fx_mul_s(a, -b) == -fx_mul_s(a, b),
{
    assert(a * (-b) == -(a * b)) by (nonlinear_arith);
    let p = a * b;
    if p == 0 {
        assert(crate::fixed::abs_s(0int) == 0);
        assert(crate::fixed::abs_s(0int) / (FX_ONE as int) == 0) by {
            vstd::arithmetic::div_mod::lemma_div_of0(FX_ONE as int);
        }
    }
}

/// The saturating sum is odd.
pub proof fn lemma_fx_add_neg(a: int, b: int)
    ensures
        fx_add_s(-a, -b) == -fx_add_s(a, b),
{
}

/// Turning the second vector around turns the dot product around exactly.
pub proof fn lemma_dot_neg(a: Vec3, b: Vec3)
    requires
        vec_in(b),
    ensures
        dot_s(a, neg_s(b)) == -dot_s(a, b),
{
    lemma_fx_mul_neg(a.x as int, b.x as int);
    lemma_fx_mul_neg(a.y as int, b.y as int);
    lemma_fx_mul_neg(a.z as int, b.z as int);
    lemma_fx_add_neg(fx_mul_s(a.x as int, b.x as int), fx_mul_s(a.y as int, b.y as int));
    lemma_fx_add_neg(
        fx_add_s(fx_mul_s(a.x as int, b.x as int), fx_mul_s(a.y as int, b.y as int)),
        fx_mul_s(a.z as int, b.z as int),
    );
}

/// How many fresh draws the unit-sphere rejection sampler makes before
/// falling back to the zero vector.
pub const RIUS_ATTEMPTS: u32 = 64;

/// What `random` returns, with the generator state it leaves behind: three
/// symmetric draws.
pub open spec fn random_vec_s(s: u64) -> (Vec3, u64) {
    let s1 = next_state_s(s);
    let x = 2 * unit_from_s(mix_s(s1)) - FX_ONE;
    let s2 = next_state_s(s1);
    let y = 2 * unit_from_s(mix_s(s2)) - FX_ONE;
    let s3 = next_state_s(s2);
    let z = 2 * unit_from_s(mix_s(s3)) - FX_ONE;
    (Vec3 { x: x as i128, y: y as i128, z: z as i128 }, s3)
}

/// What `random_in_unit_sphere` returns: rejection sampling with a bounded
/// number of fresh draws, falling back to the zero vector.
pub open spec fn rius_s(s: u64, attempts: nat) -> (Vec3, u64)
    decreases attempts,
{
    let (v, s2) = random_vec_s(s);
    if length_squared_s(v) <= FX_ONE {
        (v, s2)
    } else if attempts == 0 {
        (Vec3 { x: 0i128, y: 0i128, z: 0i128 }, s2)
    } else {
        rius_s(s2, (attempts - 1) as nat)
    }
}

/// What `random_unit_vector` returns.
pub open spec fn ruv_s(s: u64) -> (Vec3, u64) {
    let (v, s2) = rius_s(s, RIUS_ATTEMPTS as nat);
    (unit_vector_s(v), s2)
}

impl Vec3 {
    /// A vector with each component drawn uniformly from [-1, 1).
    pub fn random(rng: &mut Prng) -> (v: Vec3)
        ensures
            (v, final(rng).state) == random_vec_s(old(rng).state),
            vec_in(v),
            -FX_ONE <= v.x < FX_ONE,
            -FX_ONE <= v.y < FX_ONE,
            -FX_ONE <= v.z < FX_ONE,
    {
        let x = rng.next_symmetric();
        let y = rng.next_symmetric();
        let z = rng.next_symmetric();
        Vec3 { x, y, z }
    }

    /// Rejection-sample a vector inside the unit sphere (a bounded number
    /// of draws; the zero vector stands in if every draw misses).
    pub fn random_in_unit_sphere(rng: &mut Prng) -> (v: Vec3)
        ensures
            (v, final(rng).state) == rius_s(old(rng).state, RIUS_ATTEMPTS as nat),
            vec_in(v),
            length_squared_s(v) <= FX_ONE,
    {
        Vec3::rius_go(rng, RIUS_ATTEMPTS)
    }

    fn rius_go(rng: &mut Prng, attempts: u32) -> (v: Vec3)
        ensures
            (v, final(rng).state) == rius_s(old(rng).state, attempts as nat),
            vec_in(v),
            length_squared_s(v) <= FX_ONE,
        decreases attempts,
    {
        let cand = Vec3::random(rng);
        let ls = cand.length_squared();
        if ls <= FX_ONE {
            cand
        } else if attempts == 0 {
            Vec3 { x: 0, y: 0, z: 0 }
        } else {
            Vec3::rius_go(rng, attempts - 1)
        }
    }

    /// A random direction of unit length.
    pub fn random_unit_vector(rng: &mut Prng) -> (v: Vec3)
        ensures
            (v, final(rng).state) == ruv_s(old(rng).state),
            vec_in(v),
    {
        let c = Vec3::random_in_unit_sphere(rng);
        c.unit_vector()
    }
}

} // verus!
