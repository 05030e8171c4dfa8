//! The radiance integrator: recursively traces a ray through the scene,
//! keeping the nearest hit among all surfaces, multiplying attenuation
//! colors along the path, and falling back to a vertical background
//! gradient when nothing is hit.  A per-pixel sampling loop averages many
//! jittered traces to suppress noise.
use crate::color::{c3_add, c3_mul, c3_scale, Color, C3};
use crate::fixed::{fx_add, fx_div, fx_mul, fx_sub, sat64, Fx, FX_HALF, FX_ONE};
use crate::hitable::{hitable_hit_spec, Hit, HitV, Hitable};
use crate::random::{lcg_next, random, seed_unit, Sampler};
use crate::vec_math::{ray_new, v3_add, v3_scale, Ray, RayV, Vec3, V3};
use vstd::prelude::*;

verus! {

/// Recursion bound: rays that have bounced more than this many times
/// contribute pure black.
pub const MAX_DEPTH: i32 = 15;

/// Red channel of the color the background shows straight down.
pub const BG_LOW_R: i64 = 52429;

/// Green channel of the color the background shows straight down.
pub const BG_LOW_G: i64 = 39322;

/// Blue channel of the color the background shows straight down.
pub const BG_LOW_B: i64 = 36045;

/// Red channel of the color the background shows straight up.
pub const BG_HIGH_R: i64 = 45875;

/// Green channel of the color the background shows straight up.
pub const BG_HIGH_G: i64 = 52429;

/// Blue channel of the color the background shows straight up.
pub const BG_HIGH_B: i64 = 65536;

/// Pure black.
pub open spec fn c3_black() -> C3 {
    C3 { r: 0, g: 0, b: 0 }
}

/// The background gradient for a ray whose (normalized) direction has the
/// given `y` component: the two fixed colors mixed by `0.5 + y`.
pub open spec fn background_spec(dir_y: int) -> C3 {
    let t = fx_add(FX_HALF as int, dir_y);
    c3_add(
        c3_scale(
            C3 { r: BG_LOW_R as int, g: BG_LOW_G as int, b: BG_LOW_B as int },
            fx_sub(FX_ONE as int, t),
        ),
        c3_scale(C3 { r: BG_HIGH_R as int, g: BG_HIGH_G as int, b: BG_HIGH_B as int }, t),
    )
}

/// The nearest hit among `objects[i..]`, starting from the best candidate
/// found so far, and the sampler seed after every surface's material draws.
/// On equal distances the earlier surface is kept.
pub open spec fn nearest_hit_from(
    objects: Seq<Hitable>,
    i: int,
    ray: RayV,
    seed: int,
    best: Option<HitV>,
) -> (Option<HitV>, int)
    decreases objects.len() - i,
{
    if i < 0 || i >= objects.len() {
        (best, seed)
    } else {
        let (h, s1) = hitable_hit_spec(objects[i], ray, seed);
        let best1 = match h {
            Some(h_new) => match best {
                Some(h_old) => if h_old.distance > h_new.distance {
                    Some(h_new)
                } else {
                    Some(h_old)
                },
                None => Some(h_new),
            },
            None => best,
        };
        nearest_hit_from(objects, i + 1, ray, s1, best1)
    }
}

/// The distances of the hits the surfaces `objects[i..]` report for `ray`,
/// in scan order, each surface tested with the sampler seed the scan leaves
/// it (misses are skipped).
pub open spec fn scan_distances(objects: Seq<Hitable>, i: int, ray: RayV, seed: int) -> Seq<int>
    decreases objects.len() - i,
{
    if i < 0 || i >= objects.len() {
        Seq::<int>::empty()
    } else {
        let (h, s1) = hitable_hit_spec(objects[i], ray, seed);
        let rest = scan_distances(objects, i + 1, ray, s1);
        match h {
            Some(hv) => seq![hv.distance] + rest,
            None => rest,
        }
    }
}

proof fn lemma_nearest_hit_minimal_from(
    objects: Seq<Hitable>,
    i: int,
    ray: RayV,
    seed: int,
    best: Option<HitV>,
)
    ensures
        ({
            let (h, s1) = nearest_hit_from(objects, i, ray, seed, best);
            let ds = scan_distances(objects, i, ray, seed);
            &&& (h is Some <==> best is Some || ds.len() > 0)
            &&& (h is Some ==> (best is Some && h.unwrap().distance == best.unwrap().distance)
                || ds.contains(h.unwrap().distance))
            &&& (best is Some && h is Some ==> h.unwrap().distance <= best.unwrap().distance)
            &&& (h is Some ==> forall|j: int|
                0 <= j < ds.len() ==> h.unwrap().distance <= ds[j])
        }),
    decreases objects.len() - i,
{
    if i < 0 || i >= objects.len() {
    } else {
        let (hi, s1) = hitable_hit_spec(objects[i], ray, seed);
        let best1 = match hi {
            Some(h_new) => match best {
                Some(h_old) => if h_old.distance > h_new.distance {
                    Some(h_new)
                } else {
                    Some(h_old)
                },
                None => Some(h_new),
            },
            None => best,
        };
        lemma_nearest_hit_minimal_from(objects, i + 1, ray, s1, best1);
        let rest = scan_distances(objects, i + 1, ray, s1);
        let ds = scan_distances(objects, i, ray, seed);
        let (h, _) = nearest_hit_from(objects, i, ray, seed, best);
        if hi is Some {
            assert(ds == seq![hi.unwrap().distance] + rest);
            assert(ds[0] == hi.unwrap().distance);
            assert(forall|j: int| 1 <= j < ds.len() ==> ds[j] == rest[j - 1]);
            if h is Some {
                assert(forall|j: int| 0 <= j < ds.len() ==> h.unwrap().distance <= ds[j]);
                if !(best is Some && h.unwrap().distance == best.unwrap().distance) {
                    // the distance kept came from this surface or a later one
                    if best1 is Some && h.unwrap().distance == best1.unwrap().distance {
                        if best1 == hi {
                            assert(ds.contains(h.unwrap().distance)) by {
                                assert(ds[0] == h.unwrap().distance);
                            };
                        } else {
                            assert(ds.contains(h.unwrap().distance));
                        }
                    } else {
                        assert(rest.contains(h.unwrap().distance));
                        let k = choose|k: int|
                            0 <= k < rest.len() && rest[k] == h.unwrap().distance;
                        assert(ds[k + 1] == h.unwrap().distance);
                        assert(ds.contains(h.unwrap().distance));
                    }
                }
            }
        } else {
            assert(ds == rest);
        }
    }
}

/// Minimum distance wins: whatever the scene order, the hit the scan keeps
/// is one of the hits the surfaces reported, and its distance is least
/// among all of them; the scan reports a hit exactly when some surface
/// does.
pub proof fn lemma_nearest_hit_wins(objects: Seq<Hitable>, ray: RayV, seed: int)
    ensures
        ({
            let (h, s1) = nearest_hit_from(objects, 0, ray, seed, None);
            let ds = scan_distances(objects, 0, ray, seed);
            &&& (h is Some <==> ds.len() > 0)
            &&& (h is Some ==> ds.contains(h.unwrap().distance))
            &&& (h is Some ==> forall|j: int|
                0 <= j < ds.len() ==> h.unwrap().distance <= ds[j])
        }),
{
    lemma_nearest_hit_minimal_from(objects, 0, ray, seed, None);
}

/// The color a ray gathers: black past the depth bound; otherwise the
/// nearest hit's attenuation applied to the color of its scattered ray, or
/// the background gradient when nothing is hit.
pub open spec fn trace_spec(objects: Seq<Hitable>, ray: RayV, depth: int, seed: int) -> (C3, int)
    decreases 16 - depth,
{
    if depth > MAX_DEPTH {
        (c3_black(), seed)
    } else {
        let (hit, s1) = nearest_hit_from(objects, 0, ray, seed, None);
        match hit {
            Some(h) => {
                let (cn, s2) = trace_spec(objects, h.scattered, depth + 1, s1);
                (c3_mul(cn, h.albedo), s2)
            },
            None => (background_spec(ray.direction.y), s1),
        }
    }
}

/// Past the depth bound the integrator returns pure black, whatever the
/// scene holds, and draws nothing from the sampler.
pub proof fn lemma_trace_depth_saturates(objects: Seq<Hitable>, ray: RayV, depth: int, seed: int)
    requires
        depth > MAX_DEPTH,
    ensures
        trace_spec(objects, ray, depth, seed) == (c3_black(), seed),
{
}

/// In an empty scene the integrator returns exactly the background
/// gradient for the ray's direction, and draws nothing from the sampler.
pub proof fn lemma_trace_empty_background(ray: RayV, depth: int, seed: int)
    requires
        depth <= MAX_DEPTH,
    ensures
        trace_spec(Seq::<Hitable>::empty(), ray, depth, seed) == (
            background_spec(ray.direction.y),
            seed,
        ),
{
    assert(nearest_hit_from(Seq::<Hitable>::empty(), 0, ray, seed, None) == (
        Option::<HitV>::None,
        seed,
    ));
}

/// The image of an optional hit.
pub open spec fn hit_opt_view(h: Option<Hit>) -> Option<HitV> {
    match h {
        Some(x) => Some(x@),
        None => None,
    }
}

/// The color gathered by `ray` at the given recursion depth: the nearest
/// hit among all surfaces wins, its attenuation multiplies the color of the
/// recursively traced scattered ray, and a miss yields the background
/// gradient.
pub fn find_colour(ray: &Ray, objects: &Vec<Hitable>, depth: i32, s: &mut Sampler) -> (c: Color)
    ensures
        c@ == trace_spec(objects@, ray@, depth as int, old(s).seed as int).0,
        final(s).seed as int == trace_spec(objects@, ray@, depth as int, old(s).seed as int).1,
    decreases 16 - depth,
{
    if depth > MAX_DEPTH {
        return Color::new(Fx::zero(), Fx::zero(), Fx::zero());
    }
    let ghost seed0 = s.seed as int;
    let mut hit: Option<Hit> = None;
    let mut i: usize = 0;
    while i < objects.len()
        invariant
            0 <= i <= objects.len(),
            nearest_hit_from(objects@, i as int, ray@, s.seed as int, hit_opt_view(hit))
                == nearest_hit_from(objects@, 0, ray@, seed0, None),
        decreases objects.len() - i,
    {
        let h = objects[i].hit(ray, s);
        if let Some(h_new) = h {
            hit = match hit {
                Some(h_old) => if h_old.distance.bits > h_new.distance.bits {
                    Some(h_new)
                } else {
                    Some(h_old)
                },
                None => Some(h_new),
            };
        }
        i = i + 1;
    }
    match hit {
        Some(h) => {
            let cn = find_colour(&h.scattered, objects, depth + 1, s);
            Color::new(cn.r.mul(h.albedo.r), cn.g.mul(h.albedo.g), cn.b.mul(h.albedo.b))
        },
        None => {
            let unit_direction = ray.get_direction();
            let t = Fx::from_bits(FX_HALF).add(unit_direction.y);
            let low = Color::new(
                Fx::from_bits(BG_LOW_R),
                Fx::from_bits(BG_LOW_G),
                Fx::from_bits(BG_LOW_B),
            );
            let high = Color::new(
                Fx::from_bits(BG_HIGH_R),
                Fx::from_bits(BG_HIGH_G),
                Fx::from_bits(BG_HIGH_B),
            );
            low.scaled(Fx::one().sub(t)).add(&high.scaled(t))
        },
    }
}

/// The camera ray for screen coordinates `(u, v)`: from `origin` towards
/// the lower-left corner plus `v` times the vertical and `u` times the
/// horizontal basis vector.
pub open spec fn camera_ray(
    origin: V3,
    low_left_corner: V3,
    vertical: V3,
    horizontal: V3,
    u: int,
    v: int,
) -> RayV {
    ray_new(
        origin,
        v3_add(v3_add(low_left_corner, v3_scale(vertical, v)), v3_scale(horizontal, u)),
    )
}

/// One sample's screen coordinate along an axis: the pixel offset `num`
/// over the resolution `axis`, jittered by `rfactor` times a random draw
/// over the same resolution.
pub open spec fn jittered_coord(num: int, axis: int, rfactor: int, rnd: int) -> int {
    fx_add(
        fx_div(sat64(num * FX_ONE), sat64(axis * FX_ONE)),
        fx_div(fx_mul(rfactor, rnd), sat64(axis * FX_ONE)),
    )
}

/// The running color sum after `n` more jittered samples of the pixel
/// `(x, y)`, and the sampler seed they leave behind.  Each sample draws the
/// horizontal jitter, then the vertical jitter, then traces its camera ray.
pub open spec fn accumulate_samples(
    objects: Seq<Hitable>,
    origin: V3,
    low_left_corner: V3,
    vertical: V3,
    horizontal: V3,
    x: int,
    y: int,
    w: int,
    h: int,
    rfactor: int,
    n: nat,
    seed: int,
    acc: C3,
) -> (C3, int)
    decreases n,
{
    if n == 0 {
        (acc, seed)
    } else {
        let s1 = lcg_next(seed);
        let s2 = lcg_next(s1);
        let u = jittered_coord(x - w / 2, w, rfactor, seed_unit(s1));
        let v = jittered_coord(h / 2 - y, h, rfactor, seed_unit(s2));
        let ray = camera_ray(origin, low_left_corner, vertical, horizontal, u, v);
        let (c, s3) = trace_spec(objects, ray, 0, s2);
        accumulate_samples(
            objects,
            origin,
            low_left_corner,
            vertical,
            horizontal,
            x,
            y,
            w,
            h,
            rfactor,
            (n - 1) as nat,
            s3,
            c3_add(acc, c),
        )
    }
}

/// What `sample_pixel` returns: the average of `n` jittered samples (their
/// sum scaled by `1 / n`), and the seed after all their draws.
pub open spec fn sample_pixel_spec(
    objects: Seq<Hitable>,
    origin: V3,
    low_left_corner: V3,
    vertical: V3,
    horizontal: V3,
    x: int,
    y: int,
    w: int,
    h: int,
    rfactor: int,
    n: nat,
    seed: int,
) -> (C3, int) {
    let (acc, s1) = accumulate_samples(
        objects,
        origin,
        low_left_corner,
        vertical,
        horizontal,
        x,
        y,
        w,
        h,
        rfactor,
        n,
        seed,
        c3_black(),
    );
    (c3_scale(acc, fx_div(FX_ONE as int, sat64(n * FX_ONE))), s1)
}

/// Average `samples` traces of pixel `(x, y)` on a `width` by `height`
/// screen, each through a camera ray jittered by `rfactor` times a random
/// draw over the resolution; this Monte-Carlo averaging is the sole
/// anti-aliasing mechanism.
pub fn sample_pixel(
    objects: &Vec<Hitable>,
    origin: &Vec3,
    low_left_corner: &Vec3,
    vertical: &Vec3,
    horizontal: &Vec3,
    x: i32,
    y: i32,
    width: i32,
    height: i32,
    rfactor: Fx,
    samples: u32,
    s: &mut Sampler,
) -> (c: Color)
    requires
        1 <= width,
        1 <= height,
    ensures
        c@ == sample_pixel_spec(
            objects@,
            origin@,
            low_left_corner@,
            vertical@,
            horizontal@,
            x as int,
            y as int,
            width as int,
            height as int,
            rfactor@,
            samples as nat,
            old(s).seed as int,
        ).0,
        final(s).seed as int == sample_pixel_spec(
            objects@,
            origin@,
            low_left_corner@,
            vertical@,
            horizontal@,
            x as int,
            y as int,
            width as int,
            height as int,
            rfactor@,
            samples as nat,
            old(s).seed as int,
        ).1,
{
    let ghost seed0 = s.seed as int;
    let num_u: i64 = (x as i64) - (width as i64) / 2;
    let num_v: i64 = (height as i64) / 2 - (y as i64);
    let w_fx = Fx::from_int(width as i64);
    let h_fx = Fx::from_int(height as i64);
    let mut color_accm = Color::new(Fx::zero(), Fx::zero(), Fx::zero());
    let mut k: u32 = 0;
    while k < samples
        invariant
            k <= samples,
            accumulate_samples(
                objects@,
                origin@,
                low_left_corner@,
                vertical@,
                horizontal@,
                x as int,
                y as int,
                width as int,
                height as int,
                rfactor@,
                (samples - k) as nat,
                s.seed as int,
                color_accm@,
            ) == accumulate_samples(
                objects@,
                origin@,
                low_left_corner@,
                vertical@,
                horizontal@,
                x as int,
                y as int,
                width as int,
                height as int,
                rfactor@,
                samples as nat,
                seed0,
                c3_black(),
            ),
            num_u == x as int - (width as int) / 2,
            num_v == (height as int) / 2 - y as int,
            w_fx@ == sat64(width as int * FX_ONE),
            h_fx@ == sat64(height as int * FX_ONE),
        decreases samples - k,
    {
        let r1 = random(s);
        let u = Fx::from_int(num_u).div(w_fx).add(rfactor.mul(r1).div(w_fx));
        let r2 = random(s);
        let v = Fx::from_int(num_v).div(h_fx).add(rfactor.mul(r2).div(h_fx));
        let dir = low_left_corner.add(&vertical.scaled(v)).add(&horizontal.scaled(u));
        let ray = Ray::new(origin, &dir);
        let colour = find_colour(&ray, objects, 0, s);
        color_accm = color_accm.add(&colour);
        k = k + 1;
    }
    let kf = Fx::one().div(Fx::from_int(samples as i64));
    color_accm.scaled(kf)
}

} // verus!
