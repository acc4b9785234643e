//! The material model: how a surface shades direct light and where it sends
//! the continuation ray.  Variants are a closed enumeration dispatched by
//! pattern matching.

use vstd::prelude::*;

use crate::fixed::{fx_add, fx_add_s, fx_div, fx_div_s, fx_in, fx_mul, fx_mul_s, fx_sub, fx_sub_s, FX_ONE};
use crate::hittable::{hit_in, Hit};
use crate::light::{light_info_in, LightInfo};
use crate::random::Prng;
use crate::ray::{ray_in, Ray};
use crate::util::{normal_to_color, normal_to_color_s};
use crate::vec3::{
    add_s, dot_s, mul_s, neg_s, refract_spec, reflect_s, rius_s, ruv_s, scale_s, unit_vector_s,
    vec_in, Vec3, RIUS_ATTEMPTS,
};

verus! {

/// Renders the surface normal as a color; terminal (no scatter).
#[derive(Clone, Copy, PartialEq, Eq, Structural, Debug)]
pub struct NormalMaterial;

/// A fixed color; terminal (no scatter).
#[derive(Clone, Copy, PartialEq, Eq, Structural, Debug)]
pub struct ConstantColorMaterial {
    pub color: Vec3,
}

/// Diffuse reflection around the surface normal.
#[derive(Clone, Copy, PartialEq, Eq, Structural, Debug)]
pub struct Lambertian {
    pub albedo: Vec3,
}

/// Mirror reflection, roughened by `fuzz`.
#[derive(Clone, Copy, PartialEq, Eq, Structural, Debug)]
pub struct Metal {
    pub albedo: Vec3,
    pub fuzz: i128,
}

/// A transparent material with the given index of refraction.
#[derive(Clone, Copy, PartialEq, Eq, Structural, Debug)]
pub struct Dielectric {
    pub ir: i128,
}

/// The closed set of materials an object can carry.
#[derive(Clone, Copy, PartialEq, Eq, Structural, Debug)]
pub enum Material {
    Normal(NormalMaterial),
    Constant(ConstantColorMaterial),
    Diffuse(Lambertian),
    Shiny(Metal),
    Glass(Dielectric),
}

pub open spec fn material_in(m: Material) -> bool {
    match m {
        Material::Normal(_) => true,
        Material::Constant(c) => vec_in(c.color),
        Material::Diffuse(l) => vec_in(l.albedo),
        Material::Shiny(mt) => vec_in(mt.albedo) && fx_in(mt.fuzz as int),
        Material::Glass(d) => fx_in(d.ir as int),
    }
}

/// The one direct term plus one indirect term shading rule shared by the
/// diffuse and metal materials.
pub open spec fn lit_color_s(albedo: Vec3, info: LightInfo, hit: Hit, next: Vec3) -> Vec3 {
    add_s(
        scale_s(mul_s(albedo, info.color), pos_part(dot_s(info.direction, hit.normal))),
        mul_s(albedo, next),
    )
}

/// The positive part of a scalar.
pub open spec fn pos_part(x: int) -> int {
    if x > 0 {
        x
    } else {
        0
    }
}

/// What `get_color` returns for each material.
pub open spec fn material_color_s(m: Material, info: LightInfo, hit: Hit, next: Vec3) -> Vec3 {
    match m {
        Material::Normal(_) => normal_to_color_s(hit.normal),
        Material::Constant(c) => c.color,
        Material::Diffuse(l) => lit_color_s(l.albedo, info, hit, next),
        Material::Shiny(mt) => lit_color_s(mt.albedo, info, hit, next),
        Material::Glass(_) => next,
    }
}

/// What `Dielectric::reflectance` returns: the Schlick approximation.
pub open spec fn reflectance_s(cosine: int, ref_idx: int) -> int {
    let r0a = fx_div_s(fx_sub_s(FX_ONE as int, ref_idx), fx_sub_s(FX_ONE as int, -ref_idx));
    let r0 = fx_mul_s(r0a, r0a);
    let m = fx_sub_s(FX_ONE as int, cosine);
    let m2 = fx_mul_s(m, m);
    let m4 = fx_mul_s(m2, m2);
    let m5 = fx_mul_s(m4, m);
    fx_add_s(r0, fx_mul_s(fx_sub_s(FX_ONE as int, r0), m5))
}

/// What the diffuse scatter returns, with the generator state it leaves.
pub open spec fn lambertian_scatter_s(hit: Hit, s: u64) -> (Option<Ray>, u64) {
    let (rv, s2) = ruv_s(s);
    let d = add_s(hit.normal, rv);
    let dir = if crate::vec3::near_zero_s(d) {
        hit.normal
    } else {
        d
    };
    (Option::Some(Ray { origin: hit.p, direction: dir }), s2)
}

/// What the metal scatter returns, with the generator state it leaves.
pub open spec fn metal_scatter_s(m: Metal, ray: Ray, hit: Hit, s: u64) -> (Option<Ray>, u64) {
    let (rv, s2) = rius_s(s, RIUS_ATTEMPTS as nat);
    let reflected = add_s(reflect_s(unit_vector_s(ray.direction), hit.normal), scale_s(rv, m.fuzz as int));
    (Option::Some(Ray { origin: hit.p, direction: reflected }), s2)
}

/// What the dielectric scatter returns, with the generator state it leaves.
/// The stochastic draw happens only when refraction is geometrically
/// possible.
pub open spec fn dielectric_scatter_s(d: Dielectric, ray: Ray, hit: Hit, s: u64) -> (
    Option<Ray>,
    u64,
) {
    let refraction_ratio = if hit.front_face {
        fx_div_s(FX_ONE as int, d.ir as int)
    } else {
        d.ir as int
    };
    let unit_dir = unit_vector_s(ray.direction);
    let temp = dot_s(neg_s(unit_dir), hit.normal);
    let cos_theta = if temp < FX_ONE as int {
        temp
    } else {
        FX_ONE as int
    };
    let sin_theta = crate::fixed::fx_sqrt_s(fx_sub_s(FX_ONE as int, fx_mul_s(cos_theta, cos_theta)));
    let cannot_refract = fx_mul_s(refraction_ratio, sin_theta) > FX_ONE as int;
    let s2 = if cannot_refract {
        s
    } else {
        crate::random::next_state_s(s)
    };
    let reflecting = cannot_refract || reflectance_s(cos_theta, refraction_ratio) > crate::random::unit_from_s(
        crate::random::mix_s(s2),
    );
    let dir = if reflecting {
        reflect_s(unit_dir, hit.normal)
    } else {
        refract_spec(unit_dir, hit.normal, refraction_ratio)
    };
    (Option::Some(Ray { origin: hit.p, direction: dir }), s2)
}

/// What `scatter` returns for each material, with the generator state it
/// leaves behind.
pub open spec fn material_scatter_s(m: Material, ray: Ray, hit: Hit, s: u64) -> (Option<Ray>, u64) {
    match m {
        Material::Normal(_) => (Option::None, s),
        Material::Constant(_) => (Option::None, s),
        Material::Diffuse(_) => lambertian_scatter_s(hit, s),
        Material::Shiny(mt) => metal_scatter_s(mt, ray, hit, s),
        Material::Glass(d) => dielectric_scatter_s(d, ray, hit, s),
    }
}

impl NormalMaterial {
    pub fn get_color(&self, _ray: &Ray, _light_info: LightInfo, hit: &Hit, _next_ray_color: Vec3) -> (
        c: Vec3)
        requires
            hit_in(*hit),
        ensures
            c == normal_to_color_s(hit.normal),
            vec_in(c),
    {
        normal_to_color(&hit.normal)
    }

    pub fn scatter(&self, _ray: &Ray, _hit: &Hit) -> (r: Option<Ray>)
        ensures
            r == Option::<Ray>::None,
    {
        Option::None
    }
}

impl ConstantColorMaterial {
    pub fn get_color(&self, _ray: &Ray, _light_info: LightInfo, _hit: &Hit, _next_ray_color: Vec3)
        -> (c: Vec3)
        requires
            vec_in(self.color),
        ensures
            c == self.color,
            vec_in(c),
    {
        self.color
    }

    pub fn scatter(&self, _ray: &Ray, _hit: &Hit) -> (r: Option<Ray>)
        ensures
            r == Option::<Ray>::None,
    {
        Option::None
    }
}

/// The shared direct-plus-indirect shading combination.
fn lit_color(albedo: Vec3, light_info: LightInfo, hit: &Hit, next_ray_color: Vec3) -> (c: Vec3)
    requires
        vec_in(albedo),
        light_info_in(light_info),
        hit_in(*hit),
        vec_in(next_ray_color),
    ensures
        c == lit_color_s(albedo, light_info, *hit, next_ray_color),
        vec_in(c),
{
    let d = light_info.direction.dot(&hit.normal);
    let dpos = if d > 0 {
        d
    } else {
        0
    };
    albedo.mul(light_info.color).scale(dpos).add(albedo.mul(next_ray_color))
}

impl Lambertian {
    pub fn get_color(&self, _ray: &Ray, light_info: LightInfo, hit: &Hit, next_ray_color: Vec3) -> (
        c: Vec3)
        requires
            vec_in(self.albedo),
            light_info_in(light_info),
            hit_in(*hit),
            vec_in(next_ray_color),
        ensures
            c == lit_color_s(self.albedo, light_info, *hit, next_ray_color),
            vec_in(c),
    {
        lit_color(self.albedo, light_info, hit, next_ray_color)
    }

    pub fn scatter(&self, _ray: &Ray, hit: &Hit, rng: &mut Prng) -> (r: Option<Ray>)
        requires
            hit_in(*hit),
        ensures
            (r, final(rng).state) == lambertian_scatter_s(*hit, old(rng).state),
            match r {
                Option::Some(sc) => ray_in(sc),
                Option::None => false,
            },
    {
        let rv = Vec3::random_unit_vector(rng);
        let scatter_direction = hit.normal.add(rv);
        let scatter_direction = if scatter_direction.near_zero() {
            hit.normal
        } else {
            scatter_direction
        };
        Option::Some(Ray { origin: hit.p, direction: scatter_direction })
    }
}

impl Metal {
    pub fn get_color(&self, _ray: &Ray, light_info: LightInfo, hit: &Hit, next_ray_color: Vec3) -> (
        c: Vec3)
        requires
            vec_in(self.albedo),
            light_info_in(light_info),
            hit_in(*hit),
            vec_in(next_ray_color),
        ensures
            c == lit_color_s(self.albedo, light_info, *hit, next_ray_color),
            vec_in(c),
    {
        lit_color(self.albedo, light_info, hit, next_ray_color)
    }

    pub fn scatter(&self, ray: &Ray, hit: &Hit, rng: &mut Prng) -> (r: Option<Ray>)
        requires
            fx_in(self.fuzz as int),
            ray_in(*ray),
            hit_in(*hit),
        ensures
            (r, final(rng).state) == metal_scatter_s(*self, *ray, *hit, old(rng).state),
            match r {
                Option::Some(sc) => ray_in(sc),
                Option::None => false,
            },
    {
        let rv = Vec3::random_in_unit_sphere(rng);
        let reflected = ray.direction.unit_vector().reflect(hit.normal).add(rv.scale(self.fuzz));
        Option::Some(Ray { origin: hit.p, direction: reflected })
    }
}

impl Dielectric {
    pub fn get_color(&self, _ray: &Ray, _light_info: LightInfo, _hit: &Hit, next_ray_color: Vec3)
        -> (c: Vec3)
        requires
            vec_in(next_ray_color),
        ensures
            c == next_ray_color,
            vec_in(c),
    {
        next_ray_color
    }

    pub fn scatter(&self, ray: &Ray, hit: &Hit, rng: &mut Prng) -> (r: Option<Ray>)
        requires
            fx_in(self.ir as int),
            ray_in(*ray),
            hit_in(*hit),
        ensures
            (r, final(rng).state) == dielectric_scatter_s(*self, *ray, *hit, old(rng).state),
            match r {
                Option::Some(sc) => ray_in(sc),
                Option::None => false,
            },
    {
        let refraction_ratio = if hit.front_face {
            fx_div(FX_ONE, self.ir)
        } else {
            self.ir
        };
        let unit_dir = ray.direction.unit_vector();
        let temp = unit_dir.neg().dot(&hit.normal);
        let cos_theta = if temp < FX_ONE {
            temp
        } else {
            FX_ONE
        };
        let sin_theta = crate::fixed::fx_sqrt(fx_sub(FX_ONE, fx_mul(cos_theta, cos_theta)));
        let cannot_refract = fx_mul(refraction_ratio, sin_theta) > FX_ONE;
        let reflecting = cannot_refract || Dielectric::reflectance(cos_theta, refraction_ratio)
            > rng.next_unit();
        let direction = if reflecting {
            unit_dir.reflect(hit.normal)
        } else {
            unit_dir.refract(hit.normal, refraction_ratio)
        };
        Option::Some(Ray { origin: hit.p, direction })
    }

    /// Schlick's approximation for reflectance.
    pub fn reflectance(cosine: i128, ref_idx: i128) -> (r: i128)
        requires
            fx_in(cosine as int),
            fx_in(ref_idx as int),
        ensures
            r == reflectance_s(cosine as int, ref_idx as int),
            fx_in(r as int),
    {
        let r0a = fx_div(fx_sub(FX_ONE, ref_idx), fx_sub(FX_ONE, -ref_idx));
        let r0 = fx_mul(r0a, r0a);
        let m = fx_sub(FX_ONE, cosine);
        let m2 = fx_mul(m, m);
        let m4 = fx_mul(m2, m2);
        let m5 = fx_mul(m4, m);
        fx_add(r0, fx_mul(fx_sub(FX_ONE, r0), m5))
    }
}

impl Material {
    /// Local shading: combine the light's report and the recursively traced
    /// color according to the material.
    pub fn get_color(&self, ray: &Ray, light_info: LightInfo, hit: &Hit, next_ray_color: Vec3) -> (
        c: Vec3)
        requires
            material_in(*self),
            ray_in(*ray),
            light_info_in(light_info),
            hit_in(*hit),
            vec_in(next_ray_color),
        ensures
            c == material_color_s(*self, light_info, *hit, next_ray_color),
            vec_in(c),
    {
        match self {
            Material::Normal(m) => m.get_color(ray, light_info, hit, next_ray_color),
            Material::Constant(m) => m.get_color(ray, light_info, hit, next_ray_color),
            Material::Diffuse(m) => m.get_color(ray, light_info, hit, next_ray_color),
            Material::Shiny(m) => m.get_color(ray, light_info, hit, next_ray_color),
            Material::Glass(m) => m.get_color(ray, light_info, hit, next_ray_color),
        }
    }

    /// The continuation ray, if the material scatters.
    pub fn scatter(&self, ray: &Ray, hit: &Hit, rng: &mut Prng) -> (r: Option<Ray>)
        requires
            material_in(*self),
            ray_in(*ray),
            hit_in(*hit),
        ensures
            (r, final(rng).state) == material_scatter_s(*self, *ray, *hit, old(rng).state),
            match r {
                Option::Some(sc) => ray_in(sc),
                Option::None => true,
            },
    {
        match self {
            Material::Normal(m) => m.scatter(ray, hit),
            Material::Constant(m) => m.scatter(ray, hit),
            Material::Diffuse(m) => m.scatter(ray, hit, rng),
            Material::Shiny(m) => m.scatter(ray, hit, rng),
            Material::Glass(m) => m.scatter(ray, hit, rng),
        }
    }
}

} // verus!
