//! The light model: point lights with inverse-square falloff and a shadow
//! test, and an ambient light whose escaped-ray response is a procedural
//! sky gradient.

use vstd::prelude::*;

use crate::fixed::{fx_add, fx_add_s, fx_div, fx_div_s, fx_in, fx_mul, fx_mul_s, FX_ONE};
use crate::light::{light_info_in, LightInfo};
use crate::ray::{ray_in, Ray};
use crate::scene::{container_hit_s, scene_in, Scene};
use crate::vec3::{add_s, dot_s, length_s, scale_s, sub_s, unit_vector_s, vec_in, Vec3};

verus! {

/// A point light: position, color, scalar intensity.
#[derive(Clone, Copy, PartialEq, Eq, Structural, Debug)]
pub struct PointLight {
    pub position: Vec3,
    pub color: Vec3,
    pub intensity: i128,
}

pub open spec fn point_light_in(l: PointLight) -> bool {
    vec_in(l.position) && vec_in(l.color) && fx_in(l.intensity as int)
}

/// The sky's brightness scalar stands in for the background closure of the
/// ambient light: the gradient is a function of the ray direction alone.
#[derive(Clone, Copy, PartialEq, Eq, Structural, Debug)]
pub struct AmbientLight {
    pub brightness: i128,
}

pub open spec fn ambient_light_in(l: AmbientLight) -> bool {
    fx_in(l.brightness as int)
}

/// The closed set of lights.
#[derive(Clone, Copy, PartialEq, Eq, Structural, Debug)]
pub enum Light {
    Point(PointLight),
    Ambient(AmbientLight),
}

pub open spec fn light_in(l: Light) -> bool {
    match l {
        Light::Point(p) => point_light_in(p),
        Light::Ambient(a) => ambient_light_in(a),
    }
}

/// What `PointLight::falloff` returns: the inverse square of the distance.
pub open spec fn falloff_s(dist: int) -> int {
    fx_div_s(FX_ONE as int, fx_mul_s(dist, dist))
}

/// What `PointLight::at` returns once the shadow query has answered: zero
/// when occluded; otherwise color times intensity, attenuated by the
/// inverse square of the whole path length (the distance already traveled
/// plus the distance to the light).
pub open spec fn point_light_at_s(
    l: PointLight,
    occluded: bool,
    origin: Vec3,
    dist_so_far: int,
) -> LightInfo {
    let direction = unit_vector_s(sub_s(l.position, origin));
    if occluded {
        LightInfo { color: Vec3 { x: 0i128, y: 0i128, z: 0i128 }, direction }
    } else {
        let total = fx_add_s(length_s(sub_s(l.position, origin)), dist_so_far);
        LightInfo {
            color: scale_s(scale_s(l.color, l.intensity as int), falloff_s(total)),
            direction,
        }
    }
}

/// Whether the shadow ray from a point toward the light meets any geometry.
pub open spec fn shadowed_s(l: PointLight, c: crate::scene::ObjectContainer, origin: Vec3) -> bool {
    let direction = unit_vector_s(sub_s(l.position, origin));
    container_hit_s(c, Ray { origin, direction }) is Some
}

/// What `PointLight::no_hit` returns: the empirical glow of the light seen
/// by an escaped ray, falling off with the squared distance to the light
/// and the fifth power of the ray's closest approach, scaled by the
/// alignment of ray and light direction.
pub open spec fn point_light_no_hit_s(l: PointLight, ray: Ray, dist_so_far: int) -> Vec3 {
    let toward = sub_s(l.position, ray.origin);
    let closest = length_s(
        sub_s(add_s(ray.origin, scale_s(ray.direction, dot_s(toward, ray.direction))), l.position),
    );
    let ldist = length_s(toward);
    let d2 = fx_mul_s(ldist, ldist);
    let c2 = fx_mul_s(closest, closest);
    let c4 = fx_mul_s(c2, c2);
    let c5 = fx_mul_s(c4, closest);
    scale_s(
        div_vs_s(div_vs_s(scale_s(l.color, l.intensity as int), d2), c5),
        dot_s(unit_vector_s(toward), ray.direction),
    )
}

/// Componentwise division of a vector by a scalar (alias kept close to the
/// vector module's spec).
pub open spec fn div_vs_s(v: Vec3, k: int) -> Vec3 {
    crate::vec3::div_vs(v, k)
}

/// What `sky_background` returns: a gradient of the direction's vertical
/// component, scaled by a brightness.
pub open spec fn sky_background_s(brightness: int, ray: Ray) -> Vec3 {
    let unit_dir = unit_vector_s(ray.direction);
    let up1 = fx_add_s(unit_dir.y as int, FX_ONE as int);
    Vec3 {
        x: fx_mul_s(
            crate::fixed::fx_sub_s(FX_ONE as int, fx_div_s(up1, 4 * FX_ONE as int)),
            brightness,
        ) as i128,
        y: fx_mul_s(
            crate::fixed::fx_sub_s(FX_ONE as int, fx_div_s(up1, 8 * FX_ONE as int)),
            brightness,
        ) as i128,
        z: fx_mul_s(FX_ONE as int, brightness) as i128,
    }
}

/// The procedural sky gradient used by the ambient light.
pub fn sky_background(brightness: i128, ray: &Ray) -> (c: Vec3)
    requires
        fx_in(brightness as int),
        ray_in(*ray),
    ensures
        c == sky_background_s(brightness as int, *ray),
        vec_in(c),
{
    let unit_dir = ray.direction.unit_vector();
    let up1 = fx_add(unit_dir.y, FX_ONE);
    Vec3 {
        x: fx_mul(crate::fixed::fx_sub(FX_ONE, fx_div(up1, 4 * FX_ONE)), brightness),
        y: fx_mul(crate::fixed::fx_sub(FX_ONE, fx_div(up1, 8 * FX_ONE)), brightness),
        z: fx_mul(FX_ONE, brightness),
    }
}

impl PointLight {
    /// Inverse-square falloff of a path length.
    pub fn falloff(&self, dist: i128) -> (r: i128)
        requires
            fx_in(dist as int),
        ensures
            r == falloff_s(dist as int),
            fx_in(r as int),
    {
        fx_div(FX_ONE, fx_mul(dist, dist))
    }

    /// The light's report at a surface point: a shadow ray toward the
    /// light is traced through the scene's container, and any hit zeroes
    /// the contribution; otherwise the unoccluded contribution follows the
    /// falloff law over the whole path distance.
    pub fn at(&self, origin: Vec3, world: &Scene, dist_so_far: i128) -> (r: LightInfo)
        requires
            point_light_in(*self),
            vec_in(origin),
            scene_in(*world),
            fx_in(dist_so_far as int),
        ensures
            r == point_light_at_s(
                *self,
                shadowed_s(*self, world.objects, origin),
                origin,
                dist_so_far as int,
            ),
            light_info_in(r),
    {
        let direction = self.position.sub(origin).unit_vector();
        match world.get_object_hit(&Ray { direction, origin }) {
            Option::None => {
                let total = fx_add(self.position.sub(origin).length(), dist_so_far);
                LightInfo {
                    color: self.color.scale(self.intensity).scale(self.falloff(total)),
                    direction,
                }
            },
            Option::Some(_) => LightInfo { color: Vec3::z(), direction },
        }
    }

    /// The glow an escaped ray picks up from the light.
    pub fn no_hit(&self, ray: &Ray, _dist_so_far: i128) -> (c: Vec3)
        requires
            point_light_in(*self),
            ray_in(*ray),
        ensures
            c == point_light_no_hit_s(*self, *ray, _dist_so_far as int),
            vec_in(c),
    {
        let toward = self.position.sub(ray.origin);
        let closest = ray.origin.add(ray.direction.scale(toward.dot(&ray.direction))).sub(
            self.position,
        ).length();
        let ldist = toward.length();
        let d2 = fx_mul(ldist, ldist);
        let c2 = fx_mul(closest, closest);
        let c4 = fx_mul(c2, c2);
        let c5 = fx_mul(c4, closest);
        self.color.scale(self.intensity).div(d2).div(c5).scale(
            toward.unit_vector().dot(&ray.direction),
        )
    }
}

impl AmbientLight {
    /// Ambient light does not attenuate with distance.
    pub fn falloff(&self, _dist: i128) -> (r: i128)
        ensures
            r == FX_ONE,
    {
        FX_ONE
    }

    /// Ambient light contributes nothing at a surface hit.
    pub fn at(&self, _origin: Vec3, _world: &Scene, _dist_so_far: i128) -> (r: LightInfo)
        ensures
            r == (LightInfo {
                color: Vec3 { x: 0i128, y: 0i128, z: 0i128 },
                direction: Vec3 { x: 0i128, y: 0i128, z: 0i128 },
            }),
            light_info_in(r),
    {
        LightInfo { color: Vec3::z(), direction: Vec3::z() }
    }

    /// The sky gradient an escaped ray sees.
    pub fn no_hit(&self, ray: &Ray, _dist_so_far: i128) -> (c: Vec3)
        requires
            ambient_light_in(*self),
            ray_in(*ray),
        ensures
            c == sky_background_s(self.brightness as int, *ray),
            vec_in(c),
    {
        sky_background(self.brightness, ray)
    }
}

/// What a light reports at a surface point.
pub open spec fn light_at_s(
    l: Light,
    c: crate::scene::ObjectContainer,
    origin: Vec3,
    dist_so_far: int,
) -> LightInfo {
    match l {
        Light::Point(p) => point_light_at_s(p, shadowed_s(p, c, origin), origin, dist_so_far),
        Light::Ambient(_) => LightInfo {
            color: Vec3 { x: 0i128, y: 0i128, z: 0i128 },
            direction: Vec3 { x: 0i128, y: 0i128, z: 0i128 },
        },
    }
}

/// What a light answers for an escaped ray.
pub open spec fn light_no_hit_s(l: Light, ray: Ray, dist_so_far: int) -> Vec3 {
    match l {
        Light::Point(p) => point_light_no_hit_s(p, ray, dist_so_far),
        Light::Ambient(a) => sky_background_s(a.brightness as int, ray),
    }
}

impl Light {
    /// The light's report at a surface point.
    pub fn at(&self, origin: Vec3, world: &Scene, dist_so_far: i128) -> (r: LightInfo)
        requires
            light_in(*self),
            vec_in(origin),
            scene_in(*world),
            fx_in(dist_so_far as int),
        ensures
            r == light_at_s(*self, world.objects, origin, dist_so_far as int),
            light_info_in(r),
    {
        match self {
            Light::Point(p) => p.at(origin, world, dist_so_far),
            Light::Ambient(a) => a.at(origin, world, dist_so_far),
        }
    }

    /// What the light answers for an escaped ray.
    pub fn no_hit(&self, ray: &Ray, dist_so_far: i128) -> (c: Vec3)
        requires
            light_in(*self),
            ray_in(*ray),
        ensures
            c == light_no_hit_s(*self, *ray, dist_so_far as int),
            vec_in(c),
    {
        match self {
            Light::Point(p) => p.no_hit(ray, dist_so_far),
            Light::Ambient(a) => a.no_hit(ray, dist_so_far),
        }
    }

    /// Distance attenuation.
    pub fn falloff(&self, dist: i128) -> (r: i128)
        requires
            fx_in(dist as int),
        ensures
            r == match *self {
                Light::Point(_) => falloff_s(dist as int),
                Light::Ambient(_) => FX_ONE as int,
            },
            fx_in(r as int),
    {
        match self {
            Light::Point(p) => p.falloff(dist),
            Light::Ambient(a) => a.falloff(dist),
        }
    }
}

} // verus!
