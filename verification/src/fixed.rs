//! Saturating fixed-point scalars.
//!
//! An `Fx` stores a real quantity as `bits / 65536`.  Arithmetic is exact in
//! wide intermediates and then saturates to the symmetric range
//! `[-FX_MAX, FX_MAX]`; division by zero saturates in the direction of the
//! dividend.  Every operation is total and its result is pinned down exactly
//! by the spec functions below.
use vstd::prelude::*;

verus! {

/// Number of `bits` that represent the real value one.
pub const FX_ONE: i64 = 65536;

/// Number of `bits` that represent the real value one half.
pub const FX_HALF: i64 = 32768;

/// Largest magnitude a scalar can hold; arithmetic saturates here.
pub const FX_MAX: i64 = 0x7fff_ffff_ffff_ffff;

/// Absolute value of a mathematical integer.
pub open spec fn int_abs(x: int) -> int {
    if x < 0 {
        -x
    } else {
        x
    }
}

/// Clamp a mathematical integer to the symmetric scalar range.
pub open spec fn sat64(x: int) -> int {
    if x > FX_MAX {
        FX_MAX as int
    } else if x < -FX_MAX {
        -FX_MAX as int
    } else {
        x
    }
}

/// Quotient of `p` by `d`, rounded towards zero (the rounding the hardware
/// integer division performs); `d` must not be zero for this to be meaningful.
pub open spec fn tdiv(p: int, d: int) -> int {
    if (p >= 0) == (d >= 0) {
        int_abs(p) / int_abs(d)
    } else {
        -(int_abs(p) / int_abs(d))
    }
}

/// Saturating fixed-point sum.
pub open spec fn fx_add(a: int, b: int) -> int {
    sat64(a + b)
}

/// Saturating fixed-point difference.
pub open spec fn fx_sub(a: int, b: int) -> int {
    sat64(a - b)
}

/// Saturating fixed-point negation.
pub open spec fn fx_neg(a: int) -> int {
    sat64(-a)
}

/// Saturating fixed-point product: the exact product carries 32 fractional
/// bits, of which 16 are discarded towards zero.
pub open spec fn fx_mul(a: int, b: int) -> int {
    sat64(tdiv(a * b, FX_ONE as int))
}

/// Saturating fixed-point quotient.  A zero divisor saturates in the
/// direction of the dividend, and `0 / 0` is zero.
pub open spec fn fx_div(a: int, b: int) -> int {
    if b == 0 {
        if a > 0 {
            FX_MAX as int
        } else if a < 0 {
            -FX_MAX as int
        } else {
            0
        }
    } else {
        sat64(tdiv(a * FX_ONE, b))
    }
}

/// Floor of the square root of a natural number.
pub open spec fn sqrt_floor(n: nat) -> nat
    decreases n,
{
    if n == 0 {
        0
    } else {
        let h = 2 * sqrt_floor(n / 4);
        if (h + 1) * (h + 1) <= n {
            h + 1
        } else {
            h
        }
    }
}

/// Fixed-point square root: negative inputs give zero.
pub open spec fn fx_sqrt(a: int) -> int {
    if a <= 0 {
        0
    } else {
        sqrt_floor((a * FX_ONE) as nat) as int
    }
}

/// `sqrt_floor` really is the floor of the square root.
pub proof fn lemma_sqrt_floor_correct(n: nat)
    ensures
        (sqrt_floor(n) as int) * (sqrt_floor(n) as int) <= n as int,
        (n as int) < (sqrt_floor(n) as int + 1) * (sqrt_floor(n) as int + 1),
    decreases n,
{
    if n == 0 {
        assert(sqrt_floor(0) == 0);
    } else {
        let q = n / 4;
        lemma_sqrt_floor_correct(q);
        let r = sqrt_floor(q) as int;
        let h: int = 2 * r;
        assert(n == 4 * q + n % 4 && n % 4 < 4) by {
            vstd::arithmetic::div_mod::lemma_fundamental_div_mod(n as int, 4);
        };
        assert(h * h == 4 * (r * r) && (h + 1) * (h + 1) == 4 * (r * r) + 4 * r + 1 && (h + 2)
            * (h + 2) == 4 * ((r + 1) * (r + 1))) by (nonlinear_arith)
            requires
                h == 2 * r,
        ;
        assert(4 * (r * r) <= 4 * (q as int) && 4 * (q as int) + 3 < 4 * ((r + 1) * (r + 1)))
            by (nonlinear_arith)
            requires
                r * r <= q as int && (q as int) < (r + 1) * (r + 1),
        ;
        if (h + 1) * (h + 1) <= n as int {
            assert(sqrt_floor(n) as int == h + 1);
        } else {
            assert(sqrt_floor(n) as int == h);
        }
    }
}

/// Any number satisfying the floor-square-root bounds for `n` is
/// `sqrt_floor(n)`.
pub proof fn lemma_sqrt_floor_unique(n: nat, r: int)
    requires
        0 <= r,
        r * r <= n as int,
        (n as int) < (r + 1) * (r + 1),
    ensures
        r == sqrt_floor(n) as int,
{
    let s = sqrt_floor(n) as int;
    lemma_sqrt_floor_correct(n);
    if r < s {
        assert((r + 1) * (r + 1) <= s * s) by (nonlinear_arith)
            requires
                0 <= r && r + 1 <= s,
        ;
        assert(false);
    }
    if s < r {
        assert((s + 1) * (s + 1) <= r * r) by (nonlinear_arith)
            requires
                0 <= s && s + 1 <= r,
        ;
        assert(false);
    }
}

/// Quotients of exact multiples are exact: when `a * 65536 == q * b`, the
/// fixed-point quotient `a / b` is exactly `q` (saturated).
pub proof fn lemma_fx_div_multiple(a: int, b: int, q: int)
    requires
        b != 0,
        a * FX_ONE == q * b,
    ensures
        fx_div(a, b) == sat64(q),
{
    let p = a * (FX_ONE as int);
    if b > 0 {
        if q >= 0 {
            assert(int_abs(p) == q * b && int_abs(b) == b) by (nonlinear_arith)
                requires
                    p == q * b && b > 0 && q >= 0,
            ;
            assert((q * b) / b == q) by {
                vstd::arithmetic::div_mod::lemma_div_by_multiple(q, b);
            };
        } else {
            assert(int_abs(p) == (-q) * b && int_abs(b) == b && p < 0) by (nonlinear_arith)
                requires
                    p == q * b && b > 0 && q < 0,
            ;
            assert(((-q) * b) / b == -q) by {
                vstd::arithmetic::div_mod::lemma_div_by_multiple(-q, b);
            };
        }
    } else {
        if q >= 0 {
            assert(int_abs(p) == q * (-b) && int_abs(b) == -b && (p >= 0 ==> q == 0 || p == 0))
                by (nonlinear_arith)
                requires
                    p == q * b && b < 0 && q >= 0,
            ;
            assert((q * (-b)) / (-b) == q) by {
                vstd::arithmetic::div_mod::lemma_div_by_multiple(q, -b);
            };
        } else {
            assert(int_abs(p) == (-q) * (-b) && int_abs(b) == -b && p > 0) by (nonlinear_arith)
                requires
                    p == q * b && b < 0 && q < 0,
            ;
            assert(((-q) * (-b)) / (-b) == -q) by {
                vstd::arithmetic::div_mod::lemma_div_by_multiple(-q, -b);
            };
        }
    }
}

/// Multiplying by a whole number of units is exact: `a * (k * 65536)` is
/// exactly `a * k` (saturated).
pub proof fn lemma_fx_mul_whole(a: int, k: int)
    ensures
        fx_mul(a, k * FX_ONE) == sat64(a * k),
        fx_mul(k * FX_ONE, a) == sat64(a * k),
{
    let p = a * (k * (FX_ONE as int));
    assert(p == (a * k) * (FX_ONE as int) && (k * (FX_ONE as int)) * a == p) by (nonlinear_arith)
        requires
            p == a * (k * (FX_ONE as int)),
    ;
    if a * k >= 0 {
        assert(int_abs(p) == (a * k) * (FX_ONE as int) && p >= 0) by (nonlinear_arith)
            requires
                p == (a * k) * (FX_ONE as int) && a * k >= 0,
        ;
        assert(((a * k) * (FX_ONE as int)) / (FX_ONE as int) == a * k) by {
            vstd::arithmetic::div_mod::lemma_div_by_multiple(a * k, FX_ONE as int);
        };
    } else {
        assert(int_abs(p) == (-(a * k)) * (FX_ONE as int) && p < 0) by (nonlinear_arith)
            requires
                p == (a * k) * (FX_ONE as int) && a * k < 0,
        ;
        assert(((-(a * k)) * (FX_ONE as int)) / (FX_ONE as int) == -(a * k)) by {
            vstd::arithmetic::div_mod::lemma_div_by_multiple(-(a * k), FX_ONE as int);
        };
    }
}

/// Products with an axis component (`0` or `±1` in units) are exact: the
/// component times `m` units is `k * m` units.
pub proof fn lemma_axis_scaled(c: int, k: int, m: int)
    requires
        c == k * FX_ONE,
        -1 <= k <= 1,
        -0x8000 <= m <= 0x8000,
    ensures
        fx_mul(c, m * FX_ONE) == (k * m) * FX_ONE,
        fx_mul(m * FX_ONE, c) == (k * m) * FX_ONE,
        int_abs(k * m) <= int_abs(m),
{
    lemma_fx_mul_whole(c, m);
    assert(c * m == (k * m) * (FX_ONE as int) && int_abs(k * m) <= int_abs(m))
        by (nonlinear_arith)
        requires
            c == k * FX_ONE && -1 <= k <= 1,
    ;
}

/// Multiplying by one is the identity on the scalar range.
pub proof fn lemma_fx_mul_one(a: int)
    ensures
        fx_mul(a, FX_ONE as int) == sat64(a),
        fx_mul(FX_ONE as int, a) == sat64(a),
{
    lemma_fx_mul_whole(a, 1);
}

/// Dividing by one is the identity on the scalar range.
pub proof fn lemma_fx_div_one(a: int)
    ensures
        fx_div(a, FX_ONE as int) == sat64(a),
{
    assert(a * FX_ONE == a * (FX_ONE as int)) by (nonlinear_arith);
    lemma_fx_div_multiple(a, FX_ONE as int, a);
}

/// The square root of a whole square is exact: for `k > 0`, the root of
/// `k^2` units is `k` units.
pub proof fn lemma_fx_sqrt_whole(k: int)
    requires
        0 < k,
        k * k * FX_ONE <= FX_MAX,
    ensures
        fx_sqrt(k * k * (FX_ONE as int)) == k * FX_ONE,
{
    let a = k * k * (FX_ONE as int);
    assert(a > 0) by (nonlinear_arith)
        requires
            k > 0 && a == k * k * (FX_ONE as int),
    ;
    let n = (a * (FX_ONE as int)) as nat;
    assert((k * (FX_ONE as int)) * (k * (FX_ONE as int)) == a * (FX_ONE as int) && a * (FX_ONE
        as int) < (k * (FX_ONE as int) + 1) * (k * (FX_ONE as int) + 1)) by (nonlinear_arith)
        requires
            a == k * k * (FX_ONE as int) && k > 0,
    ;
    lemma_sqrt_floor_unique(n, k * (FX_ONE as int));
}

proof fn lemma_prod_magnitude(a: int, b: int, m: int)
    by (nonlinear_arith)
    requires
        int_abs(a) <= m,
        int_abs(b) <= m,
        0 <= m,
    ensures
        int_abs(a * b) <= m * m,
{
}

/// A fixed-point scalar: the real value `bits / 65536`.
#[derive(Clone, Copy, PartialEq, Eq, Structural, Debug)]
pub struct Fx {
    pub bits: i64,
}

impl View for Fx {
    type V = int;

    open spec fn view(&self) -> int {
        self.bits as int
    }
}

/// Clamp a wide intermediate back into the scalar range.
fn sat_to_i64(x: i128) -> (r: i64)
    ensures
        r as int == sat64(x as int),
{
    if x > FX_MAX as i128 {
        FX_MAX
    } else if x < -(FX_MAX as i128) {
        -FX_MAX
    } else {
        x as i64
    }
}

/// Quotient rounded towards zero, for a positive divisor.
fn tdiv_i128(p: i128, d: i128) -> (r: i128)
    requires
        0 < d,
        -0x4000_0000_0000_0000_0000_0000_0000_0000 <= p
            <= 0x4000_0000_0000_0000_0000_0000_0000_0000,
    ensures
        r as int == tdiv(p as int, d as int),
{
    if p >= 0 {
        p / d
    } else {
        -((-p) / d)
    }
}

impl Fx {
    /// The scalar with the given raw bits.
    pub fn from_bits(bits: i64) -> (r: Fx)
        ensures
            r@ == bits as int,
    {
        Fx { bits }
    }

    /// The scalar holding the integer `v` (saturating for huge `v`).
    pub fn from_int(v: i64) -> (r: Fx)
        ensures
            r@ == sat64(v * FX_ONE),
    {
        Fx { bits: sat_to_i64((v as i128) * 65536) }
    }

    /// Zero.
    pub fn zero() -> (r: Fx)
        ensures
            r@ == 0,
    {
        Fx { bits: 0 }
    }

    /// One.
    pub fn one() -> (r: Fx)
        ensures
            r@ == FX_ONE as int,
    {
        Fx { bits: FX_ONE }
    }

    /// Saturating sum.
    pub fn add(self, other: Fx) -> (r: Fx)
        ensures
            r@ == fx_add(self@, other@),
    {
        Fx { bits: sat_to_i64((self.bits as i128) + (other.bits as i128)) }
    }

    /// Saturating difference.
    pub fn sub(self, other: Fx) -> (r: Fx)
        ensures
            r@ == fx_sub(self@, other@),
    {
        Fx { bits: sat_to_i64((self.bits as i128) - (other.bits as i128)) }
    }

    /// Saturating negation.
    pub fn neg(self) -> (r: Fx)
        ensures
            r@ == fx_neg(self@),
    {
        if self.bits == i64::MIN {
            Fx { bits: FX_MAX }
        } else {
            Fx { bits: -self.bits }
        }
    }

    /// Saturating product.
    pub fn mul(self, other: Fx) -> (r: Fx)
        ensures
            r@ == fx_mul(self@, other@),
    {
        proof {
            lemma_prod_magnitude(self.bits as int, other.bits as int, 0x8000_0000_0000_0000);
        }
        let p: i128 = (self.bits as i128) * (other.bits as i128);
        let q: i128 = tdiv_i128(p, FX_ONE as i128);
        Fx { bits: sat_to_i64(q) }
    }

    /// Saturating quotient; a zero divisor saturates in the direction of
    /// the dividend.
    pub fn div(self, other: Fx) -> (r: Fx)
        ensures
            r@ == fx_div(self@, other@),
    {
        if other.bits == 0 {
            if self.bits > 0 {
                Fx { bits: FX_MAX }
            } else if self.bits < 0 {
                Fx { bits: -FX_MAX }
            } else {
                Fx { bits: 0 }
            }
        } else {
            let p: i128 = (self.bits as i128) * (FX_ONE as i128);
            let pa: i128 = if p < 0 {
                -p
            } else {
                p
            };
            let da: i128 = if other.bits < 0 {
                -(other.bits as i128)
            } else {
                other.bits as i128
            };
            let q: i128 = pa / da;
            let signed: i128 = if (self.bits < 0) != (other.bits < 0) {
                -q
            } else {
                q
            };
            proof {
                assert(pa == int_abs(p as int));
                assert(da == int_abs(other.bits as int));
                vstd::arithmetic::div_mod::lemma_div_nonincreasing(pa as int, da as int);
                vstd::arithmetic::div_mod::lemma_div_pos_is_pos(pa as int, da as int);
                assert(signed as int == tdiv(self.bits as int * FX_ONE, other.bits as int));
            }
            Fx { bits: sat_to_i64(signed) }
        }
    }

    /// Fixed-point square root (zero for non-positive inputs).
    pub fn sqrt(self) -> (r: Fx)
        ensures
            r@ == fx_sqrt(self@),
    {
        if self.bits <= 0 {
            Fx { bits: 0 }
        } else {
            let n: u128 = (self.bits as u128) * (FX_ONE as u128);
            let r: u128 = isqrt_u128(n);
            proof {
                lemma_sqrt_floor_unique(n as nat, r as int);
                assert(r < 0x1_0000_0000_0000) by (nonlinear_arith)
                    requires
                        r * r <= n && n < 0x1_0000_0000_0000_0000_0000,
                ;
                assert(n as nat == (self@ * FX_ONE) as nat);
                assert(r as int == fx_sqrt(self@));
            }
            Fx { bits: r as i64 }
        }
    }

    /// Clamp into `[lo, hi]` (callers pass `lo <= hi`).
    pub fn clamp(self, lo: Fx, hi: Fx) -> (r: Fx)
        requires
            lo@ <= hi@,
        ensures
            r@ == fx_clamp(self@, lo@, hi@),
    {
        if self.bits < lo.bits {
            lo
        } else if self.bits > hi.bits {
            hi
        } else {
            self
        }
    }
}

/// Clamp `x` into `[lo, hi]`.
pub open spec fn fx_clamp(x: int, lo: int, hi: int) -> int {
    if x < lo {
        lo
    } else if x > hi {
        hi
    } else {
        x
    }
}

/// Floor square root by bisection.
fn isqrt_u128(n: u128) -> (r: u128)
    requires
        n < 0x1_0000_0000_0000_0000_0000,
    ensures
        r * r <= n,
        n < (r + 1) * (r + 1),
{
    let mut lo: u128 = 0;
    let mut hi: u128 = 0x100_0000_0000;
    while lo + 1 < hi
        invariant
            lo < hi,
            hi <= 0x100_0000_0000,
            lo * lo <= n,
            n < hi * hi,
        decreases hi - lo,
    {
        let mid: u128 = lo + (hi - lo) / 2;
        proof {
            vstd::arithmetic::mul::lemma_mul_upper_bound(
                mid as int,
                0x100_0000_0000,
                mid as int,
                0x100_0000_0000,
            );
        }
        if mid * mid <= n {
            lo = mid;
        } else {
            hi = mid;
        }
    }
    lo
}

} // verus!
