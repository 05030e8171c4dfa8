use raytrace::color::Color;
use raytrace::fixed::{Fx, FX_HALF, FX_MAX, FX_ONE};
use raytrace::random::{random, random_in_unit_sphere, Sampler};
use raytrace::texture::{ChessTexture, ConstantTexture, Texture};
use raytrace::vec_math::{cross_product, dot_product, reflect, refract, Ray, Vec3};

fn fx(v: i64) -> Fx {
    Fx::from_int(v)
}

fn fxr(n: i64, d: i64) -> Fx {
    Fx::from_int(n).div(Fx::from_int(d))
}

fn approx(a: Fx, x: f64) -> bool {
    ((a.bits as f64) / 65536.0 - x).abs() < 0.001
}

#[test]
fn fixed_point_arithmetic_is_exact_on_integers() {
    assert_eq!(fx(3).add(fx(4)).bits, 7 * FX_ONE);
    assert_eq!(fx(3).sub(fx(4)).bits, -FX_ONE);
    assert_eq!(fx(3).mul(fx(4)).bits, 12 * FX_ONE);
    assert_eq!(fx(12).div(fx(4)).bits, 3 * FX_ONE);
    assert_eq!(fx(-5).neg().bits, 5 * FX_ONE);
    assert_eq!(fx(9).sqrt().bits, 3 * FX_ONE);
    assert_eq!(fx(2).sqrt().bits, 92681);
    assert_eq!(fxr(1, 2).bits, FX_HALF);
}

#[test]
fn fixed_point_saturates_instead_of_wrapping() {
    let top = Fx::from_bits(FX_MAX);
    assert_eq!(top.add(Fx::one()).bits, FX_MAX);
    assert_eq!(top.mul(top).bits, FX_MAX);
    assert_eq!(top.neg().bits, -FX_MAX);
    assert_eq!(Fx::from_bits(-FX_MAX).sub(Fx::one()).bits, -FX_MAX);
    // division by zero saturates in the dividend's direction
    assert_eq!(Fx::one().div(Fx::zero()).bits, FX_MAX);
    assert_eq!(Fx::one().neg().div(Fx::zero()).bits, -FX_MAX);
    assert_eq!(Fx::zero().div(Fx::zero()).bits, 0);
    // the square root of a negative number is defined as zero
    assert_eq!(fx(-4).sqrt().bits, 0);
}

#[test]
fn vector_operations_match_hand_computation() {
    let a = Vec3::new(fx(1), fx(2), fx(3));
    let b = Vec3::new(fx(4), fx(-5), fx(6));
    assert_eq!(dot_product(&a, &b).bits, (4 - 10 + 18) * FX_ONE);
    let c = cross_product(&a, &b);
    assert_eq!(c.x.bits, 27 * FX_ONE);
    assert_eq!(c.y.bits, 6 * FX_ONE);
    assert_eq!(c.z.bits, -13 * FX_ONE);
    assert_eq!(a.add(&b).x.bits, 5 * FX_ONE);
    assert_eq!(a.sub(&b).y.bits, 7 * FX_ONE);
    assert_eq!(a.scaled(fx(2)).z.bits, 6 * FX_ONE);
    assert_eq!(a.neg().x.bits, -FX_ONE);
    assert_eq!(a.squre_length().bits, 14 * FX_ONE);
    assert_eq!(Vec3::new(fx(3), fx(4), fx(0)).length().bits, 5 * FX_ONE);
    let mut n = Vec3::new(fx(3), fx(4), fx(0));
    n.normalize();
    assert!(approx(n.x, 0.6) && approx(n.y, 0.8) && n.z.bits == 0);
    assert_eq!(Vec3::ones().x.bits, FX_ONE);
    assert_eq!(Vec3::zero().y.bits, 0);
}

#[test]
fn rays_store_a_normalized_direction() {
    let r = Ray::new(&Vec3::new(fx(1), fx(2), fx(3)), &Vec3::new(fx(0), fx(0), fx(-7)));
    assert_eq!(r.get_direction().z.bits, -FX_ONE);
    assert_eq!(r.get_origin().x.bits, FX_ONE);
    let p = r.get_point(fx(2));
    assert_eq!(p.x.bits, FX_ONE);
    assert_eq!(p.y.bits, 2 * FX_ONE);
    assert_eq!(p.z.bits, FX_ONE);
}

#[test]
fn reflecting_a_unit_vector_about_itself_negates_it() {
    let n = Vec3::new(fx(0), fx(1), fx(0));
    let r = reflect(&n, &n);
    assert_eq!((r.x.bits, r.y.bits, r.z.bits), (0, -FX_ONE, 0));
    let m = Vec3::new(fx(-1), fx(0), fx(0));
    let r2 = reflect(&m, &m);
    assert_eq!((r2.x.bits, r2.y.bits, r2.z.bits), (FX_ONE, 0, 0));
}

#[test]
fn reflect_mirrors_about_the_normal() {
    // a 45-degree incoming ray bounces off a floor
    let v = Vec3::new(fx(1), fx(-1), fx(0));
    let n = Vec3::new(fx(0), fx(1), fx(0));
    let r = reflect(&v, &n);
    assert_eq!((r.x.bits, r.y.bits, r.z.bits), (FX_ONE, FX_ONE, 0));
}

#[test]
fn refract_returns_none_exactly_under_total_internal_reflection() {
    // grazing geometry with a ratio above one: discriminant negative
    let v = Vec3::new(fx(1), fx(0), fx(0));
    let n = Vec3::new(fx(0), fx(1), fx(0));
    assert!(refract(&v, &n, fxr(3, 2)).is_none());
    // the same geometry with a ratio below one refracts
    assert!(refract(&v, &n, fxr(2, 3)).is_some());
}

#[test]
fn refract_head_on_passes_straight_through() {
    // at zero incidence Snell's law keeps the direction, whatever the ratio
    let v = Vec3::new(fx(0), fx(0), fx(1));
    let n = Vec3::new(fx(0), fx(0), fx(-1));
    for theta in [fxr(1, 2), fxr(2, 3), fx(1), fxr(3, 2)] {
        let r = refract(&v, &n, theta).unwrap();
        assert_eq!((r.x.bits, r.y.bits, r.z.bits), (0, 0, FX_ONE));
    }
}

#[test]
fn colors_pack_into_argb_bytes() {
    let c = Color::new(fxr(1, 2), fx(1), fx(2));
    assert_eq!(c.as_u32(), 0xff7fffff);
    let black = Color::new(fx(0), fx(0), fx(0));
    assert_eq!(black.as_u32(), 0xff000000);
    // negative channels clamp to zero, huge ones to full brightness
    let wild = Color::new(fx(-3), fx(90000), fx(0));
    assert_eq!(wild.as_u32(), 0xff00ff00);
}

#[test]
fn color_arithmetic_is_channel_wise() {
    let a = Color::new(fx(1), fx(2), fx(3));
    let b = Color::new(fx(4), fx(5), fx(6));
    let s = a.add(&b);
    assert_eq!((s.r.bits, s.g.bits, s.b.bits), (5 * FX_ONE, 7 * FX_ONE, 9 * FX_ONE));
    let d = b.sub(&a);
    assert_eq!((d.r.bits, d.g.bits, d.b.bits), (3 * FX_ONE, 3 * FX_ONE, 3 * FX_ONE));
    let m = a.mul(&b);
    assert_eq!((m.r.bits, m.g.bits, m.b.bits), (4 * FX_ONE, 10 * FX_ONE, 18 * FX_ONE));
    let k = a.scaled(fxr(1, 2));
    assert_eq!((k.r.bits, k.g.bits, k.b.bits), (FX_HALF, FX_ONE, FX_ONE + FX_HALF));
}

#[test]
fn random_draws_are_deterministic_for_a_fixed_seed() {
    let mut a = Sampler::new(42);
    let mut b = Sampler::new(42);
    for _ in 0..100 {
        let x = random(&mut a);
        let y = random(&mut b);
        assert_eq!(x.bits, y.bits);
        assert_eq!(a.seed, b.seed);
    }
    // and the sequence from seed one starts with the known values
    let mut s = Sampler::new(1);
    assert_eq!(random(&mut s).bits, 0);
    assert_eq!(s.seed, 16807);
    assert_eq!(random(&mut s).bits, 8620);
    assert_eq!(random(&mut s).bits, 49519);
}

#[test]
fn random_values_lie_in_the_unit_interval() {
    let mut s = Sampler::new(123456789);
    for _ in 0..1000 {
        let v = random(&mut s);
        assert!(0 <= v.bits && v.bits < FX_ONE);
    }
}

#[test]
fn unit_sphere_samples_lie_inside_the_sphere() {
    let mut s = Sampler::new(7);
    let mut t = Sampler::new(7);
    for _ in 0..200 {
        let v = random_in_unit_sphere(&mut s);
        assert!(v.squre_length().bits < FX_ONE);
        let w = random_in_unit_sphere(&mut t);
        assert_eq!((v.x.bits, v.y.bits, v.z.bits), (w.x.bits, w.y.bits, w.z.bits));
    }
}

#[test]
fn checker_texture_alternates_across_the_tile_boundary() {
    let black = Color::new(fx(0), fx(0), fx(0));
    let white = Color::new(fx(1), fx(1), fx(1));
    let t = ChessTexture { color_a: black, color_b: white, scale: fx(1) };
    let a = t.value(fxr(2, 5), fxr(2, 5));
    let b = t.value(fxr(3, 5), fxr(2, 5));
    assert_eq!((a.r.bits, a.g.bits, a.b.bits), (0, 0, 0));
    assert_eq!((b.r.bits, b.g.bits, b.b.bits), (FX_ONE, FX_ONE, FX_ONE));
    // one whole tile over, the pattern repeats
    let c = t.value(fxr(7, 5), fxr(2, 5));
    assert_eq!(c.r.bits, 0);
}

#[test]
fn constant_texture_ignores_coordinates() {
    let c = Color::new(fxr(1, 4), fxr(1, 2), fxr(3, 4));
    let t = Texture::Constant(ConstantTexture { color: c });
    for (u, v) in [(fx(0), fx(0)), (fx(5), fx(-3)), (fxr(1, 7), fxr(22, 7))] {
        let got = t.value(u, v);
        assert_eq!((got.r.bits, got.g.bits, got.b.bits), (c.r.bits, c.g.bits, c.b.bits));
    }
}
