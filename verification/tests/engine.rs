use raytrace::color::Color;
use raytrace::fixed::{Fx, FX_HALF, FX_ONE};
use raytrace::hitable::{Hitable, Plane, Sphere};
use raytrace::material::{schlick, Glass, Lambertian, Material};
use raytrace::random::Sampler;
use raytrace::texture::{ConstantTexture, Texture};
use raytrace::tracer::{find_colour, sample_pixel};
use raytrace::vec_math::{Ray, Vec3};

fn fx(v: i64) -> Fx {
    Fx::from_int(v)
}

fn fxr(n: i64, d: i64) -> Fx {
    Fx::from_int(n).div(Fx::from_int(d))
}

fn near(a: Fx, x: f64) -> bool {
    ((a.bits as f64) / 65536.0 - x).abs() < 0.001
}

fn black_lambertian() -> Material {
    Material::Lambertian(
        Lambertian {
            albedo: Texture::Constant(
                ConstantTexture { color: Color::new(fx(0), fx(0), fx(0)) },
            ),
        },
    )
}

#[test]
fn test_() {
    let material = black_lambertian();
    let mut s = Sampler::new(1);
    {
        let sp = Sphere { center: Vec3::new(fx(0), fx(0), fx(0)), radius: fx(1), material };
        let ray = Ray::new(&Vec3::new(fx(-2), fx(0), fx(0)), &Vec3::new(fx(1), fx(0), fx(0)));
        let hit = sp.hit(&ray, &mut s).unwrap();
        let (d, p, n) = (hit.distance, hit.pos, hit.normal);

        assert!(near(d, 1.0));
        assert!(near(p.x, -1.0));
        assert!(near(p.y, 0.0));
        assert!(near(p.z, 0.0));

        assert!(near(n.x, -1.0));
        assert!(near(n.y, 0.0));
        assert!(near(n.z, 0.0));
    }
    {
        let sp = Sphere {
            center: Vec3::new(fx(0), fx(0), fx(0)),
            radius: fxr(1, 2),
            material,
        };
        let ray = Ray::new(&Vec3::new(fx(-1), fx(0), fx(0)), &Vec3::new(fx(1), fx(0), fx(0)));
        let hit = sp.hit(&ray, &mut s).unwrap();
        let (d, p, n) = (hit.distance, hit.pos, hit.normal);

        assert!(near(d, 0.5));
        assert!(near(p.x, -0.5));
        assert!(near(p.y, 0.0));
        assert!(near(p.z, 0.0));

        assert!(near(n.x, -1.0));
        assert!(near(n.y, 0.0));
        assert!(near(n.z, 0.0));
    }
    {
        let sp = Sphere { center: Vec3::new(fx(0), fx(0), fx(0)), radius: fx(1), material };
        let ray = Ray::new(&Vec3::new(fx(0), fx(2), fx(0)), &Vec3::new(fx(0), fx(-1), fx(0)));
        let hit = sp.hit(&ray, &mut s).unwrap();
        let (d, p, n) = (hit.distance, hit.pos, hit.normal);

        assert!(near(d, 1.0));
        assert!(near(p.x, 0.0));
        assert!(near(p.y, 1.0));
        assert!(near(p.z, 0.0));

        assert!(near(n.x, 0.0));
        assert!(near(n.y, 1.0));
        assert!(near(n.z, 0.0));
    }
    {
        let sp = Sphere { center: Vec3::new(fx(0), fx(0), fx(0)), radius: fx(1), material };
        let ray = Ray::new(&Vec3::new(fx(0), fx(0), fx(2)), &Vec3::new(fx(0), fx(0), fx(-1)));
        let hit = sp.hit(&ray, &mut s).unwrap();
        let (d, p, n) = (hit.distance, hit.pos, hit.normal);

        assert!(near(d, 1.0));
        assert!(near(p.x, 0.0));
        assert!(near(p.y, 0.0));
        assert!(near(p.z, 1.0));

        assert!(near(n.x, 0.0));
        assert!(near(n.y, 0.0));
        assert!(near(n.z, 1.0));
    }
    {
        let sp = Sphere {
            center: Vec3::new(fx(0), fxr(-31, 100), fx(0)),
            radius: fxr(3, 10),
            material,
        };
        let ray = Ray::new(&Vec3::new(fx(0), fx(0), fx(0)), &Vec3::new(fx(0), fx(-1), fx(0)));
        let hit = sp.hit(&ray, &mut s).unwrap();
        let (d, p, n) = (hit.distance, hit.pos, hit.normal);

        assert!(near(d, 0.01));
        assert!(near(p.x, 0.0));
        assert!(near(p.y, -0.01));
        assert!(near(p.z, 0.0));

        assert!(near(n.x, 0.0));
        assert!(near(n.y, 1.0));
        assert!(near(n.z, 0.0));
    }
}

#[test]
fn axial_sphere_hit_distance_is_exact() {
    // from five whole units out, a sphere of radius two is hit at exactly
    // three units, and the normal is the negated ray direction
    let sp = Sphere {
        center: Vec3::new(fx(0), fx(0), fx(0)),
        radius: fx(2),
        material: black_lambertian(),
    };
    let mut s = Sampler::new(9);
    let ray = Ray::new(&Vec3::new(fx(0), fx(0), fx(-5)), &Vec3::new(fx(0), fx(0), fx(1)));
    let hit = sp.hit(&ray, &mut s).unwrap();
    assert_eq!(hit.distance.bits, 3 * FX_ONE);
    assert_eq!((hit.normal.x.bits, hit.normal.y.bits, hit.normal.z.bits), (0, 0, -FX_ONE));
    assert_eq!((hit.pos.x.bits, hit.pos.y.bits, hit.pos.z.bits), (0, 0, -2 * FX_ONE));
}

#[test]
fn sphere_misses_are_reported_as_none() {
    let sp = Sphere {
        center: Vec3::new(fx(0), fx(0), fx(0)),
        radius: fx(1),
        material: black_lambertian(),
    };
    let mut s = Sampler::new(5);
    // a ray pointing away from the sphere
    let away = Ray::new(&Vec3::new(fx(0), fx(0), fx(-5)), &Vec3::new(fx(0), fx(0), fx(-1)));
    assert!(sp.hit(&away, &mut s).is_none());
    // a ray passing well beside the sphere
    let beside = Ray::new(&Vec3::new(fx(0), fx(3), fx(-5)), &Vec3::new(fx(0), fx(0), fx(1)));
    assert!(sp.hit(&beside, &mut s).is_none());
}

#[test]
fn plane_hit_solves_the_plane_equation() {
    let pl = Plane {
        normal: Vec3::new(fx(0), fx(1), fx(0)),
        d: fxr(9, 10),
        material: black_lambertian(),
    };
    let mut s = Sampler::new(3);
    let down = Ray::new(&Vec3::new(fx(0), fx(0), fx(0)), &Vec3::new(fx(0), fx(-1), fx(0)));
    let hit = pl.hit(&down, &mut s).unwrap();
    assert!(near(hit.distance, 0.9));
    assert!(near(hit.pos.y, -0.9));
    assert_eq!(hit.normal.y.bits, FX_ONE);
    // a ray parallel to the plane misses
    let level = Ray::new(&Vec3::new(fx(0), fx(0), fx(0)), &Vec3::new(fx(1), fx(0), fx(0)));
    assert!(pl.hit(&level, &mut s).is_none());
}

#[test]
fn schlick_matches_hand_computed_values() {
    // at grazing incidence the reflectance is exactly one
    assert_eq!(schlick(fx(0), fxr(3, 2)).bits, FX_ONE);
    // head-on it is exactly the base reflectance ((1-1.5)/(1+1.5))^2
    assert_eq!(schlick(fx(1), fxr(3, 2)).bits, 2621);
}

#[test]
fn glass_always_reflects_under_total_internal_reflection() {
    let glass = Material::Glass(
        Glass { albedo: Color::new(fx(1), fx(1), fx(1)), ref_idx: fxr(3, 2) },
    );
    let dir = Vec3::new(fxr(4, 5), fxr(3, 5), fx(0));
    let normal = Vec3::new(fx(0), fx(1), fx(0));
    let pos = Vec3::new(fx(0), fx(0), fx(0));
    // the ray exits the medium at a steep angle: no refracted ray exists,
    // so whatever the sampler draws, the scattered ray is the mirror image
    for seed in [1u32, 99, 4242, 1234567, 2000000000] {
        let mut s = Sampler::new(seed);
        let (ray, _) = glass.scatter(&dir, &normal, &pos, fx(0), fx(0), &mut s);
        let d = ray.get_direction();
        assert!(near(d.x, 0.8));
        assert!(near(d.y, -0.6));
        assert_eq!(d.z.bits, 0);
    }
}

#[test]
fn empty_scene_shows_the_background_gradient() {
    let objects: Vec<Hitable> = Vec::new();
    let mut s = Sampler::new(77);
    let level = Ray::new(&Vec3::new(fx(0), fx(0), fx(0)), &Vec3::new(fx(0), fx(0), fx(1)));
    let c = find_colour(&level, &objects, 0, &mut s);
    // the mix factor is exactly one half, so the color is the mean of the
    // two gradient endpoints
    assert_eq!((c.r.bits, c.g.bits, c.b.bits), (49151, 45875, 50790));
    // a miss draws nothing from the sampler
    assert_eq!(s.seed, 77);
    // looking straight up the mix factor is 1.5: it is not clamped, so the
    // gradient extrapolates past its high endpoint
    let up = Ray::new(&Vec3::new(fx(0), fx(0), fx(0)), &Vec3::new(fx(0), fx(1), fx(0)));
    let cu = find_colour(&up, &objects, 0, &mut s);
    assert_eq!((cu.r.bits, cu.g.bits, cu.b.bits), (42598, 58982, 80282));
}

#[test]
fn tracing_past_the_depth_bound_returns_black() {
    let objects: Vec<Hitable> = vec![
        Hitable::Sphere(
            Sphere {
                center: Vec3::new(fx(0), fx(0), fx(3)),
                radius: fx(1),
                material: black_lambertian(),
            },
        ),
    ];
    let mut s = Sampler::new(5);
    let ray = Ray::new(&Vec3::new(fx(0), fx(0), fx(0)), &Vec3::new(fx(0), fx(0), fx(1)));
    let c = find_colour(&ray, &objects, 16, &mut s);
    assert_eq!((c.r.bits, c.g.bits, c.b.bits), (0, 0, 0));
    assert_eq!(s.seed, 5);
}

#[test]
fn black_sphere_absorbs_every_sample() {
    // a pure black diffuse sphere straight ahead: every path is multiplied
    // by a zero albedo at its first bounce, so the average is exactly black
    let objects: Vec<Hitable> = vec![
        Hitable::Sphere(
            Sphere {
                center: Vec3::new(fx(0), fx(0), fx(3)),
                radius: fx(1),
                material: black_lambertian(),
            },
        ),
    ];
    let mut s = Sampler::new(1);
    let c = sample_pixel(
        &objects,
        &Vec3::new(fx(0), fx(0), fx(0)),
        &Vec3::new(fx(0), fx(0), fx(1)),
        &Vec3::new(fx(0), fx(1), fx(0)),
        &Vec3::new(fx(1), fx(0), fx(0)),
        100,
        75,
        200,
        150,
        fxr(11, 10),
        200,
        &mut s,
    );
    assert_eq!((c.r.bits, c.g.bits, c.b.bits), (0, 0, 0));
}

#[test]
fn gray_sphere_converges_to_a_dark_color() {
    // the same sphere with a mid-gray albedo: each path carries at least
    // one halving of the background light, so the average is dark but not
    // black
    let gray = Material::Lambertian(
        Lambertian {
            albedo: Texture::Constant(
                ConstantTexture { color: Color::new(fxr(1, 2), fxr(1, 2), fxr(1, 2)) },
            ),
        },
    );
    let objects: Vec<Hitable> = vec![
        Hitable::Sphere(
            Sphere { center: Vec3::new(fx(0), fx(0), fx(3)), radius: fx(1), material: gray },
        ),
    ];
    let mut s = Sampler::new(1);
    let c = sample_pixel(
        &objects,
        &Vec3::new(fx(0), fx(0), fx(0)),
        &Vec3::new(fx(0), fx(0), fx(1)),
        &Vec3::new(fx(0), fx(1), fx(0)),
        &Vec3::new(fx(1), fx(0), fx(0)),
        100,
        75,
        200,
        150,
        fxr(11, 10),
        200,
        &mut s,
    );
    assert!(c.r.bits > 0 && c.g.bits > 0 && c.b.bits > 0);
    assert!(c.r.bits < FX_HALF && c.g.bits < FX_HALF && c.b.bits < FX_HALF);
}

#[test]
fn rendering_is_deterministic_for_a_fixed_seed() {
    // two independent renders of the same pixel from the same seed agree
    // bit for bit, and a different seed is free to disagree
    let objects: Vec<Hitable> = vec![
        Hitable::Sphere(
            Sphere {
                center: Vec3::new(fx(0), fx(0), fx(3)),
                radius: fx(1),
                material: black_lambertian(),
            },
        ),
    ];
    let origin = Vec3::new(fx(0), fx(0), fx(0));
    let llc = Vec3::new(fx(0), fx(0), fx(1));
    let vertical = Vec3::new(fx(0), fx(1), fx(0));
    let horizontal = Vec3::new(fx(1), fx(0), fx(0));
    let mut run = |seed: u32| {
        let mut s = Sampler::new(seed);
        let c = sample_pixel(
            &objects, &origin, &llc, &vertical, &horizontal, 30, 20, 200, 150, fxr(11, 10), 40,
            &mut s,
        );
        (c.as_u32(), s.seed)
    };
    assert_eq!(run(2024), run(2024));
    let (c1, s1) = run(1);
    let (c2, s2) = run(2024);
    assert!(c1 != c2 || s1 != s2);
}

#[test]
fn nearest_surface_wins() {
    // two spheres on the same line: the color comes from the nearer one
    let white = Material::Lambertian(
        Lambertian {
            albedo: Texture::Constant(
                ConstantTexture { color: Color::new(fx(1), fx(1), fx(1)) },
            ),
        },
    );
    let near_sphere = Hitable::Sphere(
        Sphere { center: Vec3::new(fx(0), fx(0), fx(3)), radius: fx(1), material: black_lambertian() },
    );
    let far_sphere = Hitable::Sphere(
        Sphere { center: Vec3::new(fx(0), fx(0), fx(8)), radius: fx(1), material: white },
    );
    let ray = Ray::new(&Vec3::new(fx(0), fx(0), fx(0)), &Vec3::new(fx(0), fx(0), fx(1)));
    // in either scene order, the black sphere in front absorbs the path
    let mut s1 = Sampler::new(11);
    let c1 = find_colour(&ray, &vec![near_sphere, far_sphere], 0, &mut s1);
    assert_eq!((c1.r.bits, c1.g.bits, c1.b.bits), (0, 0, 0));
    let mut s2 = Sampler::new(11);
    let c2 = find_colour(&ray, &vec![far_sphere, near_sphere], 0, &mut s2);
    assert_eq!((c2.r.bits, c2.g.bits, c2.b.bits), (0, 0, 0));
}
