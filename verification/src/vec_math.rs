//! Three-component vectors and rays over fixed-point scalars.
//!
//! Each executable operation has a spec twin over `V3`, the mathematical
//! image of a vector (its raw bits as unbounded integers), so contracts can
//! pin results down exactly.
use crate::fixed::{fx_add, fx_div, fx_mul, fx_neg, fx_sqrt, fx_sub, int_abs, lemma_fx_mul_one, lemma_fx_mul_whole, lemma_fx_sqrt_whole, Fx, FX_ONE};
use vstd::prelude::*;

verus! {

/// Mathematical image of a `Vec3`: the raw bits of its components.
pub struct V3 {
    pub x: int,
    pub y: int,
    pub z: int,
}

/// Component-wise saturating sum.
pub open spec fn v3_add(a: V3, b: V3) -> V3 {
    V3 { x: fx_add(a.x, b.x), y: fx_add(a.y, b.y), z: fx_add(a.z, b.z) }
}

/// Component-wise saturating difference.
pub open spec fn v3_sub(a: V3, b: V3) -> V3 {
    V3 { x: fx_sub(a.x, b.x), y: fx_sub(a.y, b.y), z: fx_sub(a.z, b.z) }
}

/// Component-wise saturating negation.
pub open spec fn v3_neg(a: V3) -> V3 {
    V3 { x: fx_neg(a.x), y: fx_neg(a.y), z: fx_neg(a.z) }
}

/// Every component multiplied by the scalar `s`.
pub open spec fn v3_scale(a: V3, s: int) -> V3 {
    V3 { x: fx_mul(a.x, s), y: fx_mul(a.y, s), z: fx_mul(a.z, s) }
}

/// Every component divided by the scalar `s`.
pub open spec fn v3_div(a: V3, s: int) -> V3 {
    V3 { x: fx_div(a.x, s), y: fx_div(a.y, s), z: fx_div(a.z, s) }
}

/// Inner product, summed left to right.
pub open spec fn v3_dot(a: V3, b: V3) -> int {
    fx_add(fx_add(fx_mul(a.x, b.x), fx_mul(a.y, b.y)), fx_mul(a.z, b.z))
}

/// Cross product.
pub open spec fn v3_cross(a: V3, b: V3) -> V3 {
    V3 {
        x: fx_sub(fx_mul(a.y, b.z), fx_mul(a.z, b.y)),
        y: fx_sub(fx_mul(a.z, b.x), fx_mul(a.x, b.z)),
        z: fx_sub(fx_mul(a.x, b.y), fx_mul(a.y, b.x)),
    }
}

/// Squared length.
pub open spec fn v3_square_length(a: V3) -> int {
    v3_dot(a, a)
}

/// Length: the fixed-point square root of the squared length.
pub open spec fn v3_length(a: V3) -> int {
    fx_sqrt(v3_dot(a, a))
}

/// The vector divided by its own length (saturating when the length
/// truncates to zero).
pub open spec fn v3_normalized(a: V3) -> V3 {
    v3_div(a, v3_length(a))
}

/// Mirror `v` about the plane orthogonal to `n`: `v - 2*dot(v,n)*n`.
pub open spec fn v3_reflect(v: V3, n: V3) -> V3 {
    v3_sub(v, v3_scale(n, fx_mul(2 * FX_ONE, v3_dot(v, n))))
}

/// Snell refraction of `v` at a surface with normal `n` and index ratio
/// `theta` fails exactly when the discriminant
/// `1 - theta^2 * (1 - dot(v,n)^2)` is negative (total internal
/// reflection).
pub open spec fn refract_discriminant(v: V3, n: V3, theta: int) -> int {
    let dt = v3_dot(v, n);
    fx_sub(FX_ONE as int, fx_mul(fx_mul(theta, theta), fx_sub(FX_ONE as int, fx_mul(dt, dt))))
}

/// The refracted direction `theta*(v - n*dt) - n*sqrt(discriminant)`,
/// returned exactly when the discriminant is not negative.
pub open spec fn v3_refract(v: V3, n: V3, theta: int) -> Option<V3> {
    let dt = v3_dot(v, n);
    let disc = refract_discriminant(v, n, theta);
    if disc >= 0 {
        Some(v3_sub(v3_scale(v3_sub(v, v3_scale(n, dt)), theta), v3_scale(n, fx_sqrt(disc))))
    } else {
        None
    }
}

/// Reflecting a unit vector about itself gives its negation: with `v = n`
/// a unit vector (`dot(n, n) == 1`), `reflect(n, n) == -n`.
pub proof fn lemma_reflect_self(n: V3)
    requires
        v3_dot(n, n) == FX_ONE as int,
        int_abs(n.x) <= FX_ONE as int,
        int_abs(n.y) <= FX_ONE as int,
        int_abs(n.z) <= FX_ONE as int,
    ensures
        v3_reflect(n, n) == v3_neg(n),
{
    lemma_fx_mul_one(2 * FX_ONE);
    assert(fx_mul(2 * FX_ONE, v3_dot(n, n)) == 2 * FX_ONE);
    lemma_fx_mul_whole(n.x, 2);
    lemma_fx_mul_whole(n.y, 2);
    lemma_fx_mul_whole(n.z, 2);
    assert(v3_scale(n, 2 * FX_ONE) == (V3 { x: 2 * n.x, y: 2 * n.y, z: 2 * n.z }));
}

/// Refraction head-on: a unit ray along the negated normal is refracted
/// (the discriminant is one), and the refracted direction is the incoming
/// unit vector itself, as Snell's law asks at zero incidence, whatever the
/// index ratio.
pub proof fn lemma_refract_head_on(theta: int)
    ensures
        ({
            let n = V3 { x: 0, y: 0, z: -FX_ONE as int };
            let v = V3 { x: 0, y: 0, z: FX_ONE as int };
            v3_refract(v, n, theta) == Some(v)
        }),
{
    let n = V3 { x: 0, y: 0, z: -FX_ONE as int };
    let v = V3 { x: 0, y: 0, z: FX_ONE as int };
    lemma_fx_mul_whole(0, 0);
    lemma_fx_mul_whole(FX_ONE as int, -1);
    assert(v3_dot(v, n) == -FX_ONE as int);
    let dt = v3_dot(v, n);
    lemma_fx_mul_whole(-FX_ONE as int, -1);
    assert(fx_mul(dt, dt) == FX_ONE as int);
    lemma_fx_mul_whole(fx_mul(theta, theta), 0);
    assert(refract_discriminant(v, n, theta) == FX_ONE as int);
    lemma_fx_sqrt_whole(1);
    assert(fx_sqrt(FX_ONE as int) == FX_ONE as int);
    // n scaled by dt is (0, 0, 1); v minus it is the zero vector
    lemma_fx_mul_whole(0, -1);
    assert(v3_scale(n, dt) == (V3 { x: 0, y: 0, z: FX_ONE as int }));
    assert(v3_sub(v, v3_scale(n, dt)) == (V3 { x: 0, y: 0, z: 0 }));
    // the zero vector scaled by theta stays zero
    lemma_fx_mul_whole(theta, 0);
    assert(fx_mul(0, theta) == 0);
    assert(v3_scale(v3_sub(v, v3_scale(n, dt)), theta) == (V3 { x: 0, y: 0, z: 0 }));
    // n scaled by the root is (0, 0, -1), so the difference is v
    lemma_fx_mul_one(0);
    lemma_fx_mul_one(-FX_ONE as int);
    assert(v3_scale(n, FX_ONE as int) == (V3 { x: 0, y: 0, z: -FX_ONE as int }));
}

/// A three-component fixed-point vector.
#[derive(Clone, Copy, PartialEq, Eq, Structural, Debug)]
pub struct Vec3 {
    pub x: Fx,
    pub y: Fx,
    pub z: Fx,
}

impl View for Vec3 {
    type V = V3;

    open spec fn view(&self) -> V3 {
        V3 { x: self.x@, y: self.y@, z: self.z@ }
    }
}

impl Vec3 {
    /// The vector with the given components.
    pub fn new(x: Fx, y: Fx, z: Fx) -> (r: Vec3)
        ensures
            r@ == (V3 { x: x@, y: y@, z: z@ }),
    {
        Vec3 { x, y, z }
    }

    /// The all-ones vector.
    pub fn ones() -> (r: Vec3)
        ensures
            r@ == (V3 { x: FX_ONE as int, y: FX_ONE as int, z: FX_ONE as int }),
    {
        Vec3 { x: Fx::one(), y: Fx::one(), z: Fx::one() }
    }

    /// The zero vector.
    pub fn zero() -> (r: Vec3)
        ensures
            r@ == (V3 { x: 0, y: 0, z: 0 }),
    {
        Vec3 { x: Fx::zero(), y: Fx::zero(), z: Fx::zero() }
    }

    /// Length of the vector.
    pub fn length(&self) -> (r: Fx)
        ensures
            r@ == v3_length(self@),
    {
        self.squre_length().sqrt()
    }

    /// Squared length of the vector.
    pub fn squre_length(&self) -> (r: Fx)
        ensures
            r@ == v3_square_length(self@),
    {
        dot_product(self, self)
    }

    /// Divide the vector in place by its own length.
    pub fn normalize(&mut self)
        ensures
            final(self)@ == v3_normalized(old(self)@),
    {
        let l = self.length();
        self.x = self.x.div(l);
        self.y = self.y.div(l);
        self.z = self.z.div(l);
    }

    /// The vector divided by its own length.
    pub fn normalized(&self) -> (r: Vec3)
        ensures
            r@ == v3_normalized(self@),
    {
        let l = self.length();
        Vec3 { x: self.x.div(l), y: self.y.div(l), z: self.z.div(l) }
    }

    /// Multiply the vector in place by the scalar `s`.
    pub fn scale(&mut self, s: Fx)
        ensures
            final(self)@ == v3_scale(old(self)@, s@),
    {
        self.x = self.x.mul(s);
        self.y = self.y.mul(s);
        self.z = self.z.mul(s);
    }

    /// The vector multiplied by the scalar `s`.
    pub fn scaled(&self, s: Fx) -> (r: Vec3)
        ensures
            r@ == v3_scale(self@, s@),
    {
        Vec3 { x: self.x.mul(s), y: self.y.mul(s), z: self.z.mul(s) }
    }

    /// Component-wise sum.
    pub fn add(&self, other: &Vec3) -> (r: Vec3)
        ensures
            r@ == v3_add(self@, other@),
    {
        Vec3 { x: self.x.add(other.x), y: self.y.add(other.y), z: self.z.add(other.z) }
    }

    /// Component-wise difference.
    pub fn sub(&self, other: &Vec3) -> (r: Vec3)
        ensures
            r@ == v3_sub(self@, other@),
    {
        Vec3 { x: self.x.sub(other.x), y: self.y.sub(other.y), z: self.z.sub(other.z) }
    }

    /// The vector divided by the scalar `s`.
    pub fn div(&self, s: Fx) -> (r: Vec3)
        ensures
            r@ == v3_div(self@, s@),
    {
        Vec3 { x: self.x.div(s), y: self.y.div(s), z: self.z.div(s) }
    }

    /// Component-wise negation.
    pub fn neg(&self) -> (r: Vec3)
        ensures
            r@ == v3_neg(self@),
    {
        Vec3 { x: self.x.neg(), y: self.y.neg(), z: self.z.neg() }
    }
}

/// Inner product of two vectors.
pub fn dot_product(v1: &Vec3, v2: &Vec3) -> (r: Fx)
    ensures
        r@ == v3_dot(v1@, v2@),
{
    v1.x.mul(v2.x).add(v1.y.mul(v2.y)).add(v1.z.mul(v2.z))
}

/// Cross product of two vectors.
pub fn cross_product(v1: &Vec3, v2: &Vec3) -> (r: Vec3)
    ensures
        r@ == v3_cross(v1@, v2@),
{
    Vec3 {
        x: v1.y.mul(v2.z).sub(v1.z.mul(v2.y)),
        y: v1.z.mul(v2.x).sub(v1.x.mul(v2.z)),
        z: v1.x.mul(v2.y).sub(v1.y.mul(v2.x)),
    }
}

/// Mirror `v` about the plane orthogonal to `n`.
pub fn reflect(v: &Vec3, n: &Vec3) -> (r: Vec3)
    ensures
        r@ == v3_reflect(v@, n@),
{
    let s = Fx::from_bits(2 * FX_ONE).mul(dot_product(v, n));
    v.sub(&n.scaled(s))
}

/// Snell refraction; `None` under total internal reflection, that is,
/// exactly when the discriminant `1 - theta^2 * (1 - dot(v,n)^2)` is
/// negative.
pub fn refract(v: &Vec3, n: &Vec3, theta: Fx) -> (r: Option<Vec3>)
    ensures
        r is Some <==> refract_discriminant(v@, n@, theta@) >= 0,
        r is Some ==> r.unwrap()@ == v3_refract(v@, n@, theta@).unwrap(),
{
    let dt = dot_product(v, n);
    let one = Fx::one();
    let disc = one.sub(theta.mul(theta).mul(one.sub(dt.mul(dt))));
    if disc.bits >= 0 {
        Some(v.sub(&n.scaled(dt)).scaled(theta).sub(&n.scaled(disc.sqrt())))
    } else {
        None
    }
}

/// Mathematical image of a `Ray`.
pub struct RayV {
    pub origin: V3,
    pub direction: V3,
}

/// What `Ray::new` stores: the origin as given, the direction normalized.
pub open spec fn ray_new(origin: V3, direction: V3) -> RayV {
    RayV { origin, direction: v3_normalized(direction) }
}

/// The point `origin + distance * direction`.
pub open spec fn ray_point(r: RayV, distance: int) -> V3 {
    v3_add(r.origin, v3_scale(r.direction, distance))
}

/// A ray: an origin and a direction, normalized at construction.
#[derive(Clone, Copy, PartialEq, Eq, Structural, Debug)]
pub struct Ray {
    pub origin: Vec3,
    pub direction: Vec3,
}

impl View for Ray {
    type V = RayV;

    open spec fn view(&self) -> RayV {
        RayV { origin: self.origin@, direction: self.direction@ }
    }
}

impl Ray {
    /// A ray from `origin` along `direction`; the stored direction is
    /// normalized here, so callers never need to.
    pub fn new(origin: &Vec3, direction: &Vec3) -> (r: Ray)
        ensures
            r@ == ray_new(origin@, direction@),
    {
        Ray { origin: *origin, direction: direction.normalized() }
    }

    /// The ray's origin.
    pub fn get_origin(&self) -> (r: Vec3)
        ensures
            r@ == self@.origin,
    {
        self.origin
    }

    /// The ray's (normalized) direction.
    pub fn get_direction(&self) -> (r: Vec3)
        ensures
            r@ == self@.direction,
    {
        self.direction
    }

    /// The point at the given distance along the ray.
    pub fn get_point(&self, distance: Fx) -> (r: Vec3)
        ensures
            r@ == ray_point(self@, distance@),
    {
        self.origin.add(&self.direction.scaled(distance))
    }
}

} // verus!
