//! Ray-surface intersection.  A successful hit bundles the intersection
//! distance, position and normal together with the next ray to trace and
//! the attenuation color, both already produced by the surface's material.
use crate::color::{Color, C3};
use crate::fixed::{fx_add, fx_div, fx_mul, fx_neg, fx_sqrt, fx_sub, int_abs, lemma_axis_scaled, lemma_fx_div_multiple, lemma_fx_div_one, lemma_fx_mul_one, lemma_fx_mul_whole, lemma_fx_sqrt_whole, Fx, FX_ONE};
use crate::material::{material_scatter_spec, Material};
use crate::random::Sampler;
use crate::vec_math::{dot_product, ray_point, v3_div, v3_dot, v3_neg, v3_scale, v3_sub, Ray, RayV, Vec3, V3};
use vstd::prelude::*;

verus! {

/// Roots and discriminants below this threshold (about `1.07e-4`) are
/// rejected, so a scattered ray cannot immediately re-hit the surface it
/// just left.
pub const HIT_EPS: i64 = 7;

/// Mathematical image of a `Hit`.
pub struct HitV {
    pub distance: int,
    pub pos: V3,
    pub normal: V3,
    pub scattered: RayV,
    pub albedo: C3,
}

/// A ray-surface intersection: where it happened, the surface normal, and
/// the material's response (next ray and attenuation).
#[derive(Clone, Copy, PartialEq, Eq, Structural, Debug)]
pub struct Hit {
    pub distance: Fx,
    pub pos: Vec3,
    pub normal: Vec3,
    pub scattered: Ray,
    pub albedo: Color,
}

impl View for Hit {
    type V = HitV;

    open spec fn view(&self) -> HitV {
        HitV {
            distance: self.distance@,
            pos: self.pos@,
            normal: self.normal@,
            scattered: self.scattered@,
            albedo: self.albedo@,
        }
    }
}

/// A sphere with a center, a radius and a material.
#[derive(Clone, Copy, PartialEq, Eq, Structural, Debug)]
pub struct Sphere {
    pub center: Vec3,
    pub radius: Fx,
    pub material: Material,
}

/// What `Sphere::hit` returns: the hit (if any) and the sampler seed after
/// the material's draws (unchanged on a miss).  The intersection solves
/// `a*t^2 + 2*b*t + c = 0` for the quadratic the ray-sphere equation
/// yields; among roots at or above the threshold the smaller is preferred.
pub open spec fn sphere_hit_spec(sp: Sphere, ray: RayV, seed: int) -> (Option<HitV>, int) {
    let oc = v3_sub(ray.origin, sp.center@);
    let a = v3_dot(ray.direction, ray.direction);
    let b = v3_dot(oc, ray.direction);
    let c = fx_sub(v3_dot(oc, oc), fx_mul(sp.radius@, sp.radius@));
    let disc = fx_sub(fx_mul(b, b), fx_mul(a, c));
    if disc < HIT_EPS {
        (None, seed)
    } else {
        let t1 = fx_div(fx_sub(fx_neg(b), fx_sqrt(disc)), a);
        let t2 = fx_div(fx_add(fx_neg(b), fx_sqrt(disc)), a);
        if t1 < HIT_EPS && t2 < HIT_EPS {
            (None, seed)
        } else {
            let distance = if t1 >= HIT_EPS {
                t1
            } else {
                t2
            };
            let hit_point = ray_point(ray, distance);
            let n = v3_div(v3_sub(hit_point, sp.center@), sp.radius@);
            let (scattered, albedo, s1) = material_scatter_spec(
                sp.material,
                ray.direction,
                n,
                hit_point,
                0,
                0,
                seed,
            );
            (Some(HitV { distance, pos: hit_point, normal: n, scattered, albedo }), s1)
        }
    }
}

impl Sphere {
    /// The nearest intersection of `ray` with the sphere at or beyond the
    /// threshold distance, with the material's response; `None` when the
    /// discriminant or both roots fall below the threshold.  Texture
    /// coordinates on spheres are fixed at `(0, 0)`.
    pub fn hit(&self, ray: &Ray, s: &mut Sampler) -> (r: Option<Hit>)
        ensures
            r is Some <==> sphere_hit_spec(*self, ray@, old(s).seed as int).0 is Some,
            r is Some ==> r.unwrap()@ == sphere_hit_spec(
                *self,
                ray@,
                old(s).seed as int,
            ).0.unwrap(),
            final(s).seed as int == sphere_hit_spec(*self, ray@, old(s).seed as int).1,
    {
        let oc = ray.get_origin().sub(&self.center);
        let a = dot_product(&ray.get_direction(), &ray.get_direction());
        let b = dot_product(&oc, &ray.get_direction());
        let c = dot_product(&oc, &oc).sub(self.radius.mul(self.radius));
        let disc = b.mul(b).sub(a.mul(c));
        if disc.bits < HIT_EPS {
            return None;
        }
        let temp_1 = b.neg().sub(disc.sqrt()).div(a);
        let temp_2 = b.neg().add(disc.sqrt()).div(a);
        if temp_1.bits < HIT_EPS && temp_2.bits < HIT_EPS {
            return None;
        }
        let distance = if temp_1.bits >= HIT_EPS {
            temp_1
        } else {
            temp_2
        };
        let hit_point = ray.get_point(distance);
        let n = hit_point.sub(&self.center).div(self.radius);
        let (scattered, albedo) = self.material.scatter(
            &ray.get_direction(),
            &n,
            &hit_point,
            Fx::zero(),
            Fx::zero(),
            s,
        );
        Some(Hit { distance, pos: hit_point, normal: n, scattered, albedo })
    }
}

/// The infinite plane of points `p` with `dot(normal, p) + d == 0`.
#[derive(Clone, Copy, PartialEq, Eq, Structural, Debug)]
pub struct Plane {
    pub normal: Vec3,
    pub d: Fx,
    pub material: Material,
}

/// What `Plane::hit` returns.  A ray whose direction is exactly orthogonal
/// to the normal misses; otherwise the plane equation is solved for the
/// distance, and distances below the threshold are rejected.  The hit
/// point's `x` and `z` serve as texture coordinates.
pub open spec fn plane_hit_spec(pl: Plane, ray: RayV, seed: int) -> (Option<HitV>, int) {
    let den = v3_dot(pl.normal@, ray.direction);
    if den == 0 {
        (None, seed)
    } else {
        let distance = fx_div(fx_neg(fx_add(v3_dot(pl.normal@, ray.origin), pl.d@)), den);
        if distance < HIT_EPS {
            (None, seed)
        } else {
            let hit_point = ray_point(ray, distance);
            let (scattered, albedo, s1) = material_scatter_spec(
                pl.material,
                ray.direction,
                pl.normal@,
                hit_point,
                hit_point.x,
                hit_point.z,
                seed,
            );
            (
                Some(
                    HitV { distance, pos: hit_point, normal: pl.normal@, scattered, albedo },
                ),
                s1,
            )
        }
    }
}

impl Plane {
    /// The intersection of `ray` with the plane, with the material's
    /// response; `None` for rays parallel to the plane or hits below the
    /// threshold distance.
    pub fn hit(&self, ray: &Ray, s: &mut Sampler) -> (r: Option<Hit>)
        ensures
            r is Some <==> plane_hit_spec(*self, ray@, old(s).seed as int).0 is Some,
            r is Some ==> r.unwrap()@ == plane_hit_spec(*self, ray@, old(s).seed as int).0.unwrap(),
            final(s).seed as int == plane_hit_spec(*self, ray@, old(s).seed as int).1,
    {
        let den = dot_product(&self.normal, &ray.direction);
        if den.bits == 0 {
            return None;
        }
        let distance = dot_product(&self.normal, &ray.origin).add(self.d).neg().div(den);
        if distance.bits < HIT_EPS {
            return None;
        }
        let hit_point = ray.get_point(distance);
        let (scattered, albedo) = self.material.scatter(
            &ray.direction,
            &self.normal,
            &hit_point,
            hit_point.x,
            hit_point.z,
            s,
        );
        Some(Hit { distance, pos: hit_point, normal: self.normal, scattered, albedo })
    }
}

/// An axis-aligned unit vector: exactly one component is one unit in
/// magnitude, the others are zero.
pub open spec fn axis_unit(e: V3) -> bool {
    &&& (e.x == 0 || int_abs(e.x) == FX_ONE)
    &&& (e.y == 0 || int_abs(e.y) == FX_ONE)
    &&& (e.z == 0 || int_abs(e.z) == FX_ONE)
    &&& int_abs(e.x) + int_abs(e.y) + int_abs(e.z) == FX_ONE
}

proof fn lemma_axial_component(ec: int, k: int, m: int, dist: int, rad: int)
    requires
        ec == k * FX_ONE,
        -1 <= k <= 1,
        m == k * (-dist),
        0 < rad < dist <= 0x7fff,
    ensures
        m * m == (k * k) * (dist * dist),
        int_abs(m * m) <= dist * dist,
        dist * dist <= 0x3fff_ffff,
        k * m == (k * k) * (-dist),
        m + k * (dist - rad) == k * (-rad),
        int_abs(k * (-rad)) <= rad,
        (k * (-rad)) * FX_ONE * FX_ONE == ((-k) * FX_ONE) * (rad * FX_ONE),
{
    assert(m * m == (k * k) * (dist * dist) && int_abs(m * m) <= dist * dist && dist * dist
        <= 0x3fff_ffff && k * m == (k * k) * (-dist) && m + k * (dist - rad) == k * (-rad)
        && int_abs(k * (-rad)) <= rad && (k * (-rad)) * FX_ONE * FX_ONE == ((-k) * FX_ONE) * (rad
        * FX_ONE)) by (nonlinear_arith)
        requires
            ec == k * FX_ONE && -1 <= k <= 1 && m == k * (-dist) && 0 < rad < dist <= 0x7fff,
    ;
}

/// A ray fired from `dist` whole units outside a sphere of radius `rad`
/// whole units centered at the origin, aimed along an axis line through the
/// center, hits at distance exactly `dist - rad`, and the reported normal
/// is the unit vector from the center towards the hit point (the negated
/// ray direction).
#[verifier::rlimit(100)]
#[verifier::spinoff_prover]
pub proof fn lemma_sphere_axial_hit(sp: Sphere, ray: RayV, e: V3, dist: int, rad: int, seed: int)
    requires
        axis_unit(e),
        sp.center@ == (V3 { x: 0, y: 0, z: 0 }),
        sp.radius@ == rad * FX_ONE,
        0 < rad,
        rad < dist,
        dist <= 0x7fff,
        ray.direction == e,
        ray.origin == v3_scale(e, fx_neg(dist * FX_ONE)),
    ensures
        sphere_hit_spec(sp, ray, seed).0 is Some,
        sphere_hit_spec(sp, ray, seed).0.unwrap().distance == (dist - rad) * FX_ONE,
        sphere_hit_spec(sp, ray, seed).0.unwrap().normal == v3_neg(e),
{
    let one = FX_ONE as int;
    let kx: int = if e.x == FX_ONE {
        1
    } else if e.x == -FX_ONE {
        -1
    } else {
        0
    };
    let ky: int = if e.y == FX_ONE {
        1
    } else if e.y == -FX_ONE {
        -1
    } else {
        0
    };
    let kz: int = if e.z == FX_ONE {
        1
    } else if e.z == -FX_ONE {
        -1
    } else {
        0
    };
    assert(e.x == kx * one && e.y == ky * one && e.z == kz * one);
    let qx = kx * kx;
    let qy = ky * ky;
    let qz = kz * kz;
    if e.x == FX_ONE {
        assert(qx == 1) by (nonlinear_arith)
            requires
                qx == kx * kx && kx == 1,
        ;
    } else if e.x == -FX_ONE {
        assert(qx == 1) by (nonlinear_arith)
            requires
                qx == kx * kx && kx == -1,
        ;
    } else {
        assert(qx == 0) by (nonlinear_arith)
            requires
                qx == kx * kx && kx == 0,
        ;
    }
    if e.y == FX_ONE {
        assert(qy == 1) by (nonlinear_arith)
            requires
                qy == ky * ky && ky == 1,
        ;
    } else if e.y == -FX_ONE {
        assert(qy == 1) by (nonlinear_arith)
            requires
                qy == ky * ky && ky == -1,
        ;
    } else {
        assert(qy == 0) by (nonlinear_arith)
            requires
                qy == ky * ky && ky == 0,
        ;
    }
    if e.z == FX_ONE {
        assert(qz == 1) by (nonlinear_arith)
            requires
                qz == kz * kz && kz == 1,
        ;
    } else if e.z == -FX_ONE {
        assert(qz == 1) by (nonlinear_arith)
            requires
                qz == kz * kz && kz == -1,
        ;
    } else {
        assert(qz == 0) by (nonlinear_arith)
            requires
                qz == kz * kz && kz == 0,
        ;
    }
    assert(qx + qy + qz == 1);
    // the origin is dist units behind the center along e
    assert(fx_neg(dist * FX_ONE) == (-dist) * one);
    lemma_axis_scaled(e.x, kx, -dist);
    lemma_axis_scaled(e.y, ky, -dist);
    lemma_axis_scaled(e.z, kz, -dist);
    let mx = kx * (-dist);
    let my = ky * (-dist);
    let mz = kz * (-dist);
    assert(ray.origin == (V3 { x: mx * one, y: my * one, z: mz * one }));
    let oc = v3_sub(ray.origin, sp.center@);
    assert(oc == ray.origin);
    lemma_axial_component(e.x, kx, mx, dist, rad);
    lemma_axial_component(e.y, ky, my, dist, rad);
    lemma_axial_component(e.z, kz, mz, dist, rad);
    // a = dot(direction, direction) is exactly one
    lemma_axis_scaled(e.x, kx, kx);
    lemma_axis_scaled(e.y, ky, ky);
    lemma_axis_scaled(e.z, kz, kz);
    let a = v3_dot(e, e);
    assert(a == one);
    // b = dot(oc, direction) is exactly -dist units
    lemma_axis_scaled(e.x, kx, mx);
    lemma_axis_scaled(e.y, ky, my);
    lemma_axis_scaled(e.z, kz, mz);
    let b = v3_dot(oc, e);
    assert(b == ((qx + qy + qz) * (-dist)) * one) by {
        assert(qx * (-dist) + qy * (-dist) + qz * (-dist) == (qx + qy + qz) * (-dist))
            by (nonlinear_arith);
    };
    assert(b == (-dist) * one);
    // dot(oc, oc) is exactly dist^2 units
    lemma_fx_mul_whole(oc.x, mx);
    lemma_fx_mul_whole(oc.y, my);
    lemma_fx_mul_whole(oc.z, mz);
    let dd = dist * dist;
    assert(oc.x * mx == (mx * mx) * one && oc.y * my == (my * my) * one && oc.z * mz == (mz * mz)
        * one) by (nonlinear_arith)
        requires
            oc.x == mx * one && oc.y == my * one && oc.z == mz * one,
    ;
    assert(v3_dot(oc, oc) == ((qx + qy + qz) * dd) * one) by {
        assert(qx * dd + qy * dd + qz * dd == (qx + qy + qz) * dd) by (nonlinear_arith);
    };
    assert(v3_dot(oc, oc) == dd * one);
    // c = dot(oc, oc) - radius^2 is exactly dist^2 - rad^2 units
    lemma_fx_mul_whole(sp.radius@, rad);
    let rr = rad * rad;
    assert((rad * one) * rad == rr * one && 1 <= rr <= 0x3fff_ffff) by (nonlinear_arith)
        requires
            0 < rad <= 0x7fff && rr == rad * rad,
    ;
    let c = fx_sub(v3_dot(oc, oc), fx_mul(sp.radius@, sp.radius@));
    assert(c == (dd - rr) * one);
    // discriminant = b^2 - a*c is exactly rad^2 units
    lemma_fx_mul_whole(b, -dist);
    assert(b * (-dist) == dd * one) by (nonlinear_arith)
        requires
            b == (-dist) * one && dd == dist * dist,
    ;
    lemma_fx_mul_one((dd - rr) * one);
    let disc = fx_sub(fx_mul(b, b), fx_mul(a, c));
    assert(disc == rr * one);
    assert(disc >= HIT_EPS);
    // its root is exactly rad units, so the near solution of the quadratic
    // is exactly dist - rad units
    lemma_fx_sqrt_whole(rad);
    assert(fx_sqrt(disc) == rad * one);
    assert(fx_neg(b) == dist * one);
    assert(fx_sub(fx_neg(b), fx_sqrt(disc)) == (dist - rad) * one);
    lemma_fx_div_one((dist - rad) * one);
    let t1 = fx_div(fx_sub(fx_neg(b), fx_sqrt(disc)), a);
    assert(t1 == (dist - rad) * one);
    assert(t1 >= HIT_EPS);
    // the hit point is rad units from the center along -e
    lemma_axis_scaled(e.x, kx, dist - rad);
    lemma_axis_scaled(e.y, ky, dist - rad);
    lemma_axis_scaled(e.z, kz, dist - rad);
    let hit_point = ray_point(ray, t1);
    assert(hit_point == (V3 {
        x: (kx * (-rad)) * one,
        y: (ky * (-rad)) * one,
        z: (kz * (-rad)) * one,
    }));
    // dividing by the radius gives the unit normal -e
    let hc = v3_sub(hit_point, sp.center@);
    assert(hc == hit_point);
    lemma_fx_div_multiple((kx * (-rad)) * one, rad * one, (-kx) * one);
    lemma_fx_div_multiple((ky * (-rad)) * one, rad * one, (-ky) * one);
    lemma_fx_div_multiple((kz * (-rad)) * one, rad * one, (-kz) * one);
    let n = v3_div(hc, sp.radius@);
    assert(n == v3_neg(e));
}

/// What `Hitable::hit` returns, for each surface kind.
pub open spec fn hitable_hit_spec(h: Hitable, ray: RayV, seed: int) -> (Option<HitV>, int) {
    match h {
        Hitable::Sphere(sp) => sphere_hit_spec(sp, ray, seed),
        Hitable::Plane(pl) => plane_hit_spec(pl, ray, seed),
    }
}

/// A surface that can be tested for ray intersection.
#[derive(Clone, Copy, PartialEq, Eq, Structural, Debug)]
pub enum Hitable {
    Sphere(Sphere),
    Plane(Plane),
}

impl Hitable {
    /// The surface's intersection with `ray`, if any, with the material's
    /// response.
    pub fn hit(&self, ray: &Ray, s: &mut Sampler) -> (r: Option<Hit>)
        ensures
            r is Some <==> hitable_hit_spec(*self, ray@, old(s).seed as int).0 is Some,
            r is Some ==> r.unwrap()@ == hitable_hit_spec(
                *self,
                ray@,
                old(s).seed as int,
            ).0.unwrap(),
            final(s).seed as int == hitable_hit_spec(*self, ray@, old(s).seed as int).1,
    {
        match self {
            Hitable::Sphere(sp) => sp.hit(ray, s),
            Hitable::Plane(pl) => pl.hit(ray, s),
        }
    }
}

} // verus!
