//! Surface materials: given an incoming direction, a surface normal, a hit
//! position and texture coordinates, each material produces the next ray to
//! trace and the attenuation color to apply to whatever that ray returns.
use crate::color::{Color, C3};
use crate::fixed::{fx_add, fx_div, fx_mul, fx_neg, fx_sub, Fx, FX_ONE};
use crate::random::{lcg_next, random, seed_unit, unit_sphere_spec, random_in_unit_sphere, Sampler, UNIT_SPHERE_TRIES};
use crate::texture::{texture_value, Texture};
use crate::vec_math::{dot_product, ray_new, reflect, refract, refract_discriminant, v3_add, v3_dot, v3_neg, v3_reflect, v3_refract, v3_scale, Ray, RayV, Vec3, V3};
use vstd::prelude::*;

verus! {

/// Fifth power, by repeated fixed-point squaring.
pub open spec fn fx_pow5(x: int) -> int {
    fx_mul(fx_mul(fx_mul(x, x), fx_mul(x, x)), x)
}

/// Schlick's approximation of Fresnel reflectance:
/// `r0 + (1 - r0) * (1 - cos)^5` with `r0 = ((1 - ri) / (1 + ri))^2`.
pub open spec fn schlick_spec(cos: int, ref_idx: int) -> int {
    let r0 = fx_div(fx_sub(FX_ONE as int, ref_idx), fx_add(FX_ONE as int, ref_idx));
    let r0s = fx_mul(r0, r0);
    fx_add(r0s, fx_mul(fx_sub(FX_ONE as int, r0s), fx_pow5(fx_sub(FX_ONE as int, cos))))
}

/// Schlick's reflectance approximation.
pub fn schlick(cos: Fx, ref_idx: Fx) -> (r: Fx)
    ensures
        r@ == schlick_spec(cos@, ref_idx@),
{
    let one = Fx::one();
    let r0 = one.sub(ref_idx).div(one.add(ref_idx));
    let r0s = r0.mul(r0);
    let x = one.sub(cos);
    let x2 = x.mul(x);
    let pow5 = x2.mul(x2).mul(x);
    r0s.add(one.sub(r0s).mul(pow5))
}

/// An ideal diffuse surface: scattering perturbs the normal by a random
/// point in the unit sphere, and the attenuation comes from a texture.
#[derive(Clone, Copy, PartialEq, Eq, Structural, Debug)]
pub struct Lambertian {
    pub albedo: Texture,
}

/// What `Lambertian::scatter` returns: the scattered ray, the attenuation,
/// and the sampler seed after the draws.
pub open spec fn lambertian_scatter_spec(
    m: Lambertian,
    normal: V3,
    pos: V3,
    u: int,
    v: int,
    seed: int,
) -> (RayV, C3, int) {
    let (rv, s1) = unit_sphere_spec(seed, UNIT_SPHERE_TRIES as nat);
    (ray_new(pos, v3_add(normal, rv)), texture_value(m.albedo, u, v), s1)
}

impl Lambertian {
    /// Scatter towards `normal` plus a random point in the unit sphere;
    /// attenuate by the texture's color at `(u, v)`.
    pub fn scatter(&self, dir: &Vec3, normal: &Vec3, pos: &Vec3, u: Fx, v: Fx, s: &mut Sampler)
        -> (r: (Ray, Color))
        ensures
            (r.0@, r.1@, final(s).seed as int) == lambertian_scatter_spec(
                *self,
                normal@,
                pos@,
                u@,
                v@,
                old(s).seed as int,
            ),
    {
        let new_dir = normal.add(&random_in_unit_sphere(s));
        let new_ray = Ray::new(pos, &new_dir);
        (new_ray, self.albedo.value(u, v))
    }
}

/// A glossy reflective surface: a mirror blurred by `fuzz`.
#[derive(Clone, Copy, PartialEq, Eq, Structural, Debug)]
pub struct Metal {
    pub albedo: Color,
    pub fuzz: Fx,
}

/// What `Metal::scatter` returns.
pub open spec fn metal_scatter_spec(
    m: Metal,
    dir: V3,
    normal: V3,
    pos: V3,
    seed: int,
) -> (RayV, C3, int) {
    let (rv, s1) = unit_sphere_spec(seed, UNIT_SPHERE_TRIES as nat);
    (ray_new(pos, v3_add(v3_reflect(dir, normal), v3_scale(rv, m.fuzz@))), m.albedo@, s1)
}

impl Metal {
    /// Scatter along the mirror reflection of `dir`, blurred by `fuzz`
    /// times a random point in the unit sphere; attenuate by the fixed
    /// albedo color.
    pub fn scatter(&self, dir: &Vec3, normal: &Vec3, pos: &Vec3, u: Fx, v: Fx, s: &mut Sampler)
        -> (r: (Ray, Color))
        ensures
            (r.0@, r.1@, final(s).seed as int) == metal_scatter_spec(
                *self,
                dir@,
                normal@,
                pos@,
                old(s).seed as int,
            ),
    {
        let reflected = reflect(dir, normal).add(&random_in_unit_sphere(s).scaled(self.fuzz));
        let new_ray = Ray::new(pos, &reflected);
        (new_ray, self.albedo)
    }
}

/// A dielectric surface that refracts or reflects probabilistically.
#[derive(Clone, Copy, PartialEq, Eq, Structural, Debug)]
pub struct Glass {
    pub albedo: Color,
    pub ref_idx: Fx,
}

/// The outward normal, index ratio and incidence cosine the glass model
/// uses, chosen by whether the ray travels with or against the normal.
pub open spec fn glass_orientation(g: Glass, dir: V3, normal: V3) -> (V3, int, int) {
    let dt = v3_dot(dir, normal);
    if dt > 0 {
        (v3_neg(normal), g.ref_idx@, dt)
    } else {
        (normal, fx_div(FX_ONE as int, g.ref_idx@), fx_neg(dt))
    }
}

/// The probability of reflecting rather than refracting: Schlick's
/// approximation, forced to one when no refracted ray exists (total
/// internal reflection).
pub open spec fn glass_probability(dir: V3, outward: V3, ref_idx: int, cos: int) -> int {
    if v3_refract(dir, outward, ref_idx) is Some {
        schlick_spec(cos, ref_idx)
    } else {
        FX_ONE as int
    }
}

/// Whenever the refraction discriminant check fails (total internal
/// reflection), the reflection probability is exactly one, whatever the
/// incidence angle.
pub proof fn lemma_total_internal_reflection_probability(
    dir: V3,
    outward: V3,
    ref_idx: int,
    cos: int,
)
    requires
        refract_discriminant(dir, outward, ref_idx) < 0,
    ensures
        glass_probability(dir, outward, ref_idx, cos) == FX_ONE as int,
{
}

/// What `Glass::scatter` returns.
pub open spec fn glass_scatter_spec(
    g: Glass,
    dir: V3,
    normal: V3,
    pos: V3,
    seed: int,
) -> (RayV, C3, int) {
    let (outward, ref_idx, cos) = glass_orientation(g, dir, normal);
    let prob = glass_probability(dir, outward, ref_idx, cos);
    let s1 = lcg_next(seed);
    let rnd = seed_unit(s1);
    let new_ray = if rnd > prob {
        ray_new(pos, v3_refract(dir, outward, ref_idx).unwrap())
    } else {
        ray_new(pos, v3_reflect(dir, outward))
    };
    (new_ray, g.albedo@, s1)
}

impl Glass {
    /// Refract or reflect: a uniform draw against the Schlick probability
    /// decides, and total internal reflection always reflects; attenuate by
    /// the fixed albedo color.
    pub fn scatter(&self, dir: &Vec3, normal: &Vec3, pos: &Vec3, u: Fx, v: Fx, s: &mut Sampler)
        -> (r: (Ray, Color))
        ensures
            (r.0@, r.1@, final(s).seed as int) == glass_scatter_spec(
                *self,
                dir@,
                normal@,
                pos@,
                old(s).seed as int,
            ),
    {
        let dt = dot_product(dir, normal);
        let (outward, ref_idx, cos) = if dt.bits > 0 {
            (normal.neg(), self.ref_idx, dt)
        } else {
            (*normal, Fx::one().div(self.ref_idx), dt.neg())
        };
        let refracted = refract(dir, &outward, ref_idx);
        let prob = if refracted.is_some() {
            schlick(cos, ref_idx)
        } else {
            Fx::one()
        };
        let rnd = random(s);
        let new_ray = if rnd.bits > prob.bits {
            Ray::new(pos, &refracted.unwrap())
        } else {
            Ray::new(pos, &reflect(dir, &outward))
        };
        (new_ray, self.albedo)
    }
}

/// What `Material::scatter` returns, for each material kind.
pub open spec fn material_scatter_spec(
    m: Material,
    dir: V3,
    normal: V3,
    pos: V3,
    u: int,
    v: int,
    seed: int,
) -> (RayV, C3, int) {
    match m {
        Material::Lambertian(l) => lambertian_scatter_spec(l, normal, pos, u, v, seed),
        Material::Metal(mt) => metal_scatter_spec(mt, dir, normal, pos, seed),
        Material::Glass(g) => glass_scatter_spec(g, dir, normal, pos, seed),
    }
}

/// A surface material: diffuse, glossy reflective, or refractive.
#[derive(Clone, Copy, PartialEq, Eq, Structural, Debug)]
pub enum Material {
    Lambertian(Lambertian),
    Metal(Metal),
    Glass(Glass),
}

impl Material {
    /// The scattered ray and the attenuation color for a hit at `pos` with
    /// surface normal `normal` and texture coordinates `(u, v)`.
    pub fn scatter(&self, dir: &Vec3, normal: &Vec3, pos: &Vec3, u: Fx, v: Fx, s: &mut Sampler)
        -> (r: (Ray, Color))
        ensures
            (r.0@, r.1@, final(s).seed as int) == material_scatter_spec(
                *self,
                dir@,
                normal@,
                pos@,
                u@,
                v@,
                old(s).seed as int,
            ),
    {
        match self {
            Material::Lambertian(l) => l.scatter(dir, normal, pos, u, v, s),
            Material::Metal(m) => m.scatter(dir, normal, pos, u, v, s),
            Material::Glass(g) => g.scatter(dir, normal, pos, u, v, s),
        }
    }
}

} // verus!
