//! Deterministic pseudo-random sampling.
//!
//! A linear-congruential generator advances a 32-bit seed as
//! `seed' = (16807 * seed) mod 2147483647` and maps each new seed to a
//! fixed-point value in `[0, 1)`.  The state is an explicit `Sampler`
//! threaded by mutable reference through every draw, so a fixed initial
//! seed reproduces the same sequence bit for bit.
use crate::fixed::{Fx, FX_ONE};
use crate::vec_math::{v3_square_length, Vec3, V3};
use vstd::prelude::*;

verus! {

/// Multiplier of the linear-congruential generator.
pub const LCG_MULTIPLIER: u32 = 16807;

/// Modulus of the linear-congruential generator.
pub const LCG_MODULUS: u32 = 2147483647;

/// How many candidates the unit-sphere sampler inspects before giving up
/// and returning the origin (a safety cap on the rejection loop).
pub const UNIT_SPHERE_TRIES: u32 = 16;

/// The seed after one generator step.
pub open spec fn lcg_next(seed: int) -> int {
    (16807 * seed) % 2147483647
}

/// The fixed-point value in `[0, 1)` that a seed denotes: `seed / modulus`,
/// truncated to 16 fractional bits.
pub open spec fn seed_unit(seed: int) -> int {
    seed * FX_ONE / 2147483647
}

/// The seed after `n` generator steps.
pub open spec fn nth_seed(seed: int, n: nat) -> int
    decreases n,
{
    if n == 0 {
        seed
    } else {
        lcg_next(nth_seed(seed, (n - 1) as nat))
    }
}

/// The `k`-th value (counting from zero) drawn from a sampler seeded with
/// `seed`.
pub open spec fn draw_value(seed: int, k: nat) -> int {
    seed_unit(nth_seed(seed, k + 1))
}

/// The sequence of the first `n` values drawn from a sampler seeded with
/// `seed`.
pub open spec fn draw_seq(seed: int, n: nat) -> Seq<int> {
    Seq::new(n, |i: int| draw_value(seed, i as nat))
}

/// Determinism of the sampler: the values drawn are a function of the
/// initial seed alone, so two independent runs from equal seeds produce
/// identical sequences, of any length.
pub proof fn lemma_draws_deterministic(seed_a: int, seed_b: int, n: nat)
    requires
        seed_a == seed_b,
    ensures
        draw_seq(seed_a, n) =~= draw_seq(seed_b, n),
{
}

/// The mutable state of the pseudo-random generator.
#[derive(Clone, Copy, PartialEq, Eq, Structural, Debug)]
pub struct Sampler {
    pub seed: u32,
}

impl Sampler {
    /// A sampler starting from the given seed.
    pub fn new(seed: u32) -> (r: Sampler)
        ensures
            r.seed == seed,
    {
        Sampler { seed }
    }
}

/// Advance the generator once and return the drawn value in `[0, 1)`.
pub fn random(s: &mut Sampler) -> (r: Fx)
    ensures
        final(s).seed as int == lcg_next(old(s).seed as int),
        r@ == seed_unit(final(s).seed as int),
        0 <= r@ < FX_ONE,
{
    let next: u64 = (16807u64 * (s.seed as u64)) % 2147483647u64;
    s.seed = next as u32;
    let v: u64 = (next * 65536) / 2147483647;
    Fx::from_bits(v as i64)
}

/// One draw of a candidate point and the rejection test, repeated at most
/// `tries` times: the first candidate with squared length below one is
/// returned together with the seed after its draws; with no tries left the
/// result is the origin and the seed is unchanged.
pub open spec fn unit_sphere_spec(seed: int, tries: nat) -> (V3, int)
    decreases tries,
{
    if tries == 0 {
        (V3 { x: 0, y: 0, z: 0 }, seed)
    } else {
        let s1 = lcg_next(seed);
        let s2 = lcg_next(s1);
        let s3 = lcg_next(s2);
        let v = V3 { x: seed_unit(s1), y: seed_unit(s2), z: seed_unit(s3) };
        if v3_square_length(v) < FX_ONE {
            (v, s3)
        } else {
            unit_sphere_spec(s3, (tries - 1) as nat)
        }
    }
}

fn unit_sphere_go(s: &mut Sampler, tries: u32) -> (r: Vec3)
    ensures
        r@ == unit_sphere_spec(old(s).seed as int, tries as nat).0,
        final(s).seed as int == unit_sphere_spec(old(s).seed as int, tries as nat).1,
    decreases tries,
{
    if tries == 0 {
        Vec3::zero()
    } else {
        let x = random(s);
        let y = random(s);
        let z = random(s);
        let v = Vec3::new(x, y, z);
        if v.squre_length().bits < FX_ONE {
            v
        } else {
            unit_sphere_go(s, tries - 1)
        }
    }
}

/// A point inside the unit sphere, found by rejection sampling: candidates
/// have all three components drawn from `random`, and the first one with
/// squared length below one is kept.
pub fn random_in_unit_sphere(s: &mut Sampler) -> (r: Vec3)
    ensures
        r@ == unit_sphere_spec(old(s).seed as int, UNIT_SPHERE_TRIES as nat).0,
        final(s).seed as int == unit_sphere_spec(old(s).seed as int, UNIT_SPHERE_TRIES as nat).1,
        v3_square_length(r@) < FX_ONE,
{
    let r = unit_sphere_go(s, UNIT_SPHERE_TRIES);
    proof {
        lemma_unit_sphere_inside(old(s).seed as int, UNIT_SPHERE_TRIES as nat);
    }
    r
}

/// Whatever the seed and the cap, the point the rejection sampler hands
/// back lies strictly inside the unit sphere.
pub proof fn lemma_unit_sphere_inside(seed: int, tries: nat)
    ensures
        v3_square_length(unit_sphere_spec(seed, tries).0) < FX_ONE,
    decreases tries,
{
    if tries == 0 {
        assert(v3_square_length(V3 { x: 0, y: 0, z: 0 }) == 0);
    } else {
        let s1 = lcg_next(seed);
        let s2 = lcg_next(s1);
        let s3 = lcg_next(s2);
        let v = V3 { x: seed_unit(s1), y: seed_unit(s2), z: seed_unit(s3) };
        if v3_square_length(v) < FX_ONE {
        } else {
            lemma_unit_sphere_inside(s3, (tries - 1) as nat);
        }
    }
}

} // verus!
