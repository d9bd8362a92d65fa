use pathtracer::cam::Camera;
use pathtracer::fx::{Fx, FX_ONE};
use pathtracer::hittable::Hittable;
use pathtracer::material::Material;
use pathtracer::ray::Ray;
use pathtracer::render::{pixel_from_color, ray_color, render};
use pathtracer::rng::Lcg;
use pathtracer::texture::Texture;
use pathtracer::vec3::Vec3;

fn fxf(v: f64) -> Fx {
    Fx::from_raw((v * 65536.0).round() as i64)
}

fn v(x: f64, y: f64, z: f64) -> Vec3 {
    Vec3::new(fxf(x), fxf(y), fxf(z))
}

#[test]
fn test_empty_scene_returns_background() {
    // Background color comes back untouched for every ray and any sample
    // count.
    let bg = v(0.5, 0.7, 1.0);
    let world = Hittable::Empty;
    let mut rng = Lcg::new(9);
    for i in 0..20 {
        let dir = v(0.1 * i as f64 - 1.0, 0.3, 1.0);
        let r = Ray::new(v(0.0, 0.0, -3.0), dir, Fx::zero());
        let c = ray_color(&r, bg, &world, &None, 5, &mut rng);
        assert_eq!((c.x.raw, c.y.raw, c.z.raw), (bg.x.raw, bg.y.raw, bg.z.raw));
    }
}

#[test]
fn test_emissive_sphere_returns_exact_emission() {
    // One pure light and nothing else: a ray that hits it from outside
    // yields exactly the emission color.
    let e = v(4.0, 3.0, 2.0);
    let world = Hittable::new_sphere(
        v(0.0, 0.0, 0.0),
        Fx::from_int(1),
        Material::new_diffuse_light(e),
    );
    let bg = v(0.0, 0.0, 0.0);
    let mut rng = Lcg::new(5);
    let r = Ray::new(v(0.0, 0.0, -4.0), v(0.0, 0.0, 1.0), Fx::zero());
    let c = ray_color(&r, bg, &world, &None, 5, &mut rng);
    assert_eq!((c.x.raw, c.y.raw, c.z.raw), (e.x.raw, e.y.raw, e.z.raw));
}

#[test]
fn test_zero_depth_is_black() {
    let world = Hittable::new_sphere(
        v(0.0, 0.0, 0.0),
        Fx::from_int(1),
        Material::new_diffuse_light(v(4.0, 4.0, 4.0)),
    );
    let mut rng = Lcg::new(5);
    let r = Ray::new(v(0.0, 0.0, -4.0), v(0.0, 0.0, 1.0), Fx::zero());
    let c = ray_color(&r, v(1.0, 1.0, 1.0), &world, &None, 0, &mut rng);
    assert_eq!((c.x.raw, c.y.raw, c.z.raw), (0, 0, 0));
}

fn sphere_field() -> Vec<Hittable> {
    let mut out = Vec::new();
    let mut k = 0;
    for ix in -2..3 {
        for iy in -1..2 {
            k += 1;
            let albedo = v(0.3, 0.4, 0.5);
            let m = if k % 3 == 0 {
                Material::new_metal(albedo, fxf(0.2))
            } else {
                Material::new_lambertian(albedo)
            };
            out.push(Hittable::new_sphere(
                v(ix as f64 * 1.4, iy as f64 * 1.2, (k % 4) as f64),
                fxf(0.4 + 0.05 * (k % 3) as f64),
                m,
            ));
        }
    }
    out
}

#[test]
fn test_bvh_matches_linear_search() {
    // Whatever tree shape the random axis choice produces, traversal
    // reports the same nearest hit as exhaustive search over the list.
    let tmin = Fx::from_raw(66);
    let tmax = Fx::from_raw(i64::MAX);
    for seed in 0..6u64 {
        let mut build_rng = Lcg::new(seed);
        let bvh = Hittable::new_bvh(sphere_field(), Fx::zero(), Fx::from_int(1), &mut build_rng);
        let linear = Hittable::List(sphere_field());
        let mut rng = Lcg::new(99);
        for iy in -6..7 {
            for ix in -6..7 {
                let r = Ray::new(
                    v(0.2 * ix as f64, 0.2 * iy as f64, -8.0),
                    v(0.05 * ix as f64, 0.04 * iy as f64, 1.0),
                    Fx::zero(),
                );
                let a = bvh.hit(&r, tmin, tmax, &mut rng);
                let b = linear.hit(&r, tmin, tmax, &mut rng);
                match (a, b) {
                    (None, None) => {},
                    (Some((ra, _)), Some((rb, _))) => {
                        assert_eq!(ra.t.raw, rb.t.raw);
                        assert_eq!(ra.p, rb.p);
                        assert_eq!(ra.normal, rb.normal);
                    },
                    _ => panic!("hierarchy and linear search disagree"),
                }
            }
        }
    }
}

#[test]
fn test_lambertian_pdf_integrates_to_one() {
    // Monte-Carlo integral of the cosine scattering density over the
    // hemisphere converges to one.
    let mat = Material::new_lambertian(v(0.5, 0.5, 0.5));
    let mut rng = Lcg::new(123);
    let origin = v(0.0, 0.0, 0.0);
    let normal = v(0.0, 0.0, 1.0);
    let incoming = Ray::new(v(0.0, 0.0, 2.0), v(0.0, 0.0, -1.0), Fx::zero());
    let rec = pathtracer::hittable::HitRecord::new(
        &incoming,
        origin,
        Fx::from_int(2),
        pathtracer::vec3::Vec2 { x: Fx::zero(), y: Fx::zero() },
        normal,
    );
    let n = 40000;
    let mut sum = 0.0f64;
    for _ in 0..n {
        // uniform directions over the sphere; the density there is 1/(4 pi)
        let d = Vec3::random_in_unit_sphere(&mut rng).normalize();
        let scattered = Ray::new(origin, d, Fx::zero());
        let pdf = mat.scattering_pdf(&incoming, &rec, &scattered);
        sum += pdf.raw as f64 / 65536.0;
    }
    let integral = sum / n as f64 * 4.0 * std::f64::consts::PI;
    assert!((integral - 1.0).abs() < 0.05, "integral was {integral}");
}

#[test]
fn test_pixel_from_color_gamma() {
    let (r, g, b) = pixel_from_color(v(1.0, 0.25, 0.0));
    assert_eq!(r, 255);
    assert_eq!(g, 128);
    assert_eq!(b, 0);
}

#[test]
fn test_checker_texture_alternates() {
    let odd = v(1.0, 0.0, 0.0);
    let even = v(0.0, 1.0, 0.0);
    let t = Texture::new_checker_color(odd, even);
    // near the origin every cell index is zero: even
    let c0 = t.value(Fx::zero(), Fx::zero(), &v(0.01, 0.01, 0.01), &v(0.0, 0.0, 1.0));
    assert_eq!(c0.y.raw, even.y.raw);
    // one cell over along x (10 x / pi crosses 1): odd
    let c1 = t.value(Fx::zero(), Fx::zero(), &v(0.46, 0.01, 0.01), &v(0.0, 0.0, 1.0));
    assert_eq!(c1.x.raw, odd.x.raw);
}

#[test]
fn test_image_texture_samples_pixels() {
    let pixels = vec![255, 0, 0, 0, 255, 0];
    let t = Texture::new_image(2, 1, pixels).unwrap();
    let left = t.value(fxf(0.1), fxf(0.5), &v(0.0, 0.0, 0.0), &v(0.0, 0.0, 1.0));
    assert_eq!(left.x.raw, FX_ONE);
    assert_eq!(left.y.raw, 0);
    let right = t.value(fxf(0.9), fxf(0.5), &v(0.0, 0.0, 0.0), &v(0.0, 0.0, 1.0));
    assert_eq!(right.x.raw, 0);
    assert_eq!(right.y.raw, FX_ONE);
    // mismatched byte count is rejected
    assert!(Texture::new_image(2, 2, vec![0, 0, 0]).is_none());
}

#[test]
fn test_camera_ray_time_in_shutter() {
    let cam = Camera::new(
        v(13.0, 2.0, 3.0),
        v(0.0, 0.0, 0.0),
        v(0.0, 1.0, 0.0),
        fxf((20.0f64.to_radians() / 2.0).tan()),
        fxf(1.5),
        fxf(0.1),
        Fx::from_int(10),
        Fx::zero(),
        Fx::from_int(1),
    );
    let mut rng = Lcg::new(2);
    for _ in 0..50 {
        let r = cam.get_ray(fxf(0.3), fxf(0.6), &mut rng);
        assert!(0 <= r.time.raw && r.time.raw <= FX_ONE);
    }
}

#[test]
fn test_render_empty_scene_is_background_everywhere() {
    let cam = Camera::new(
        v(0.0, 0.0, -5.0),
        v(0.0, 0.0, 0.0),
        v(0.0, 1.0, 0.0),
        fxf(1.0),
        fxf(1.0),
        Fx::zero(),
        Fx::from_int(5),
        Fx::zero(),
        Fx::from_int(1),
    );
    let bg = v(0.25, 0.0, 1.0);
    let img = render(&Hittable::Empty, &None, &cam, bg, 4, 4, 2, 3, 77);
    assert_eq!(img.len(), 48);
    let expect = pixel_from_color(bg);
    for px in img.chunks(3) {
        assert_eq!((px[0], px[1], px[2]), expect);
    }
}

#[test]
fn test_metal_scatter_reflects() {
    let mat = Material::new_metal(v(0.8, 0.6, 0.2), Fx::zero());
    let mut rng = Lcg::new(4);
    let incoming = Ray::new(v(0.0, 1.0, -1.0), v(0.0, -1.0, 1.0), Fx::zero());
    let rec = pathtracer::hittable::HitRecord::new(
        &incoming,
        v(0.0, 0.0, 0.0),
        Fx::from_int(1),
        pathtracer::vec3::Vec2 { x: Fx::zero(), y: Fx::zero() },
        v(0.0, 1.0, 0.0),
    );
    match mat.scatter(&incoming, &rec, &mut rng) {
        Some(pathtracer::material::ScatterRecord::Specular { ray, attenuation }) => {
            assert!(ray.direction.y.raw > 0);
            assert_eq!(attenuation.x.raw, fxf(0.8).raw);
        },
        _ => panic!("zero-fuzz metal must scatter specularly here"),
    }
}

#[test]
fn test_diffuse_light_does_not_scatter() {
    let mat = Material::new_diffuse_light(v(4.0, 4.0, 4.0));
    let mut rng = Lcg::new(4);
    let incoming = Ray::new(v(0.0, 0.0, -4.0), v(0.0, 0.0, 1.0), Fx::zero());
    let rec = pathtracer::hittable::HitRecord::new(
        &incoming,
        v(0.0, 0.0, -1.0),
        Fx::from_int(3),
        pathtracer::vec3::Vec2 { x: Fx::zero(), y: Fx::zero() },
        v(0.0, 0.0, -1.0),
    );
    assert!(mat.scatter(&incoming, &rec, &mut rng).is_none());
    let e = mat.emit(&rec);
    assert_eq!(e.x.raw, 4 * FX_ONE);
    // seen from behind it emits nothing
    let back = Ray::new(v(0.0, 0.0, 4.0), v(0.0, 0.0, -1.0), Fx::zero());
    let rec_back = pathtracer::hittable::HitRecord::new(
        &back,
        v(0.0, 0.0, -1.0),
        Fx::from_int(3),
        pathtracer::vec3::Vec2 { x: Fx::zero(), y: Fx::zero() },
        v(0.0, 0.0, -1.0),
    );
    assert!(!rec_back.front_face);
    assert_eq!(mat.emit(&rec_back).x.raw, 0);
}

#[test]
fn test_isotropic_scatters_uniform_sphere() {
    // The isotropic medium scatters uniformly over the full sphere: its
    // distribution has the same density everywhere — also behind the
    // normal — and its scattering density matches it exactly.
    let mat = Material::new_isotropic(v(0.7, 0.7, 0.7));
    let mut rng = Lcg::new(11);
    let incoming = Ray::new(v(0.0, 0.0, -4.0), v(0.0, 0.0, 1.0), Fx::zero());
    let rec = pathtracer::hittable::HitRecord::new(
        &incoming,
        v(0.0, 0.0, -1.0),
        Fx::from_int(3),
        pathtracer::vec3::Vec2 { x: Fx::zero(), y: Fx::zero() },
        v(0.0, 0.0, -1.0),
    );
    match mat.scatter(&incoming, &rec, &mut rng) {
        Some(pathtracer::material::ScatterRecord::PDF { pdf, attenuation }) => {
            assert_eq!(attenuation.x.raw, fxf(0.7).raw);
            let forward = pdf.value(&v(0.0, 0.0, 1.0), &mut rng);
            let backward = pdf.value(&v(0.0, 0.0, -1.0), &mut rng);
            let sideways = pdf.value(&v(1.0, 0.0, 0.0), &mut rng);
            assert_eq!(forward.raw, backward.raw);
            assert_eq!(forward.raw, sideways.raw);
            // one over four pi, on the fixed-point grid
            assert!((forward.raw as f64 / 65536.0 - 1.0 / (4.0 * std::f64::consts::PI)).abs()
                < 0.001);
            let scattered = Ray::new(rec.p, pdf.generate(&mut rng), incoming.time);
            let spdf = mat.scattering_pdf(&incoming, &rec, &scattered);
            assert_eq!(spdf.raw, forward.raw);
        },
        _ => panic!("an isotropic medium must scatter with a distribution"),
    }
}

#[test]
fn test_isotropic_pdf_integrates_to_one() {
    // The uniform sphere density integrates to one over the whole sphere.
    let mat = Material::new_isotropic(v(0.5, 0.5, 0.5));
    let mut rng = Lcg::new(321);
    let incoming = Ray::new(v(0.0, 0.0, 2.0), v(0.0, 0.0, -1.0), Fx::zero());
    let rec = pathtracer::hittable::HitRecord::new(
        &incoming,
        v(0.0, 0.0, 0.0),
        Fx::from_int(2),
        pathtracer::vec3::Vec2 { x: Fx::zero(), y: Fx::zero() },
        v(0.0, 0.0, 1.0),
    );
    let n = 10000;
    let mut sum = 0.0f64;
    for _ in 0..n {
        let d = Vec3::random_in_unit_sphere(&mut rng).normalize();
        let scattered = Ray::new(v(0.0, 0.0, 0.0), d, Fx::zero());
        sum += mat.scattering_pdf(&incoming, &rec, &scattered).raw as f64 / 65536.0;
    }
    let integral = sum / n as f64 * 4.0 * std::f64::consts::PI;
    assert!((integral - 1.0).abs() < 0.01, "integral was {integral}");
}

#[test]
fn test_bvh_keeps_boxless_members_hittable() {
    // A member without a bounding box (here the empty primitive inside a
    // list) is excluded from the box unions but still searched.
    let boxless = Hittable::List(vec![Hittable::Empty, Hittable::new_sphere(
        v(0.0, 0.0, 5.0),
        Fx::from_int(1),
        Material::new_lambertian(v(0.5, 0.5, 0.5)),
    )]);
    let plain = Hittable::new_sphere(
        v(0.0, 0.0, -2.0),
        Fx::from_int(1),
        Material::new_lambertian(v(0.5, 0.5, 0.5)),
    );
    let mut build_rng = Lcg::new(17);
    let world = Hittable::new_bvh(
        vec![boxless, plain],
        Fx::zero(),
        Fx::from_int(1),
        &mut build_rng,
    );
    let mut rng = Lcg::new(5);
    let r = Ray::new(v(0.0, 0.0, -10.0), v(0.0, 0.0, 1.0), Fx::zero());
    // the nearer plain sphere is found...
    let (rec, _) = world.hit(&r, Fx::from_raw(66), Fx::from_raw(i64::MAX), &mut rng).unwrap();
    assert!((rec.t.raw as f64 / 65536.0 - 7.0).abs() < 0.01);
    // ...and so is the box-less member once the nearer sphere is ruled out
    let r2 = Ray::new(v(0.0, 0.0, 1.0), v(0.0, 0.0, 1.0), Fx::zero());
    let (rec2, _) = world.hit(&r2, Fx::from_raw(66), Fx::from_raw(i64::MAX), &mut rng).unwrap();
    assert!((rec2.t.raw as f64 / 65536.0 - 3.0).abs() < 0.01);
}

#[test]
fn test_bvh_of_one_is_the_element_and_none_is_empty() {
    let mut build_rng = Lcg::new(1);
    let none = Hittable::new_bvh(Vec::new(), Fx::zero(), Fx::from_int(1), &mut build_rng);
    assert!(matches!(none, Hittable::Empty));
    let one = Hittable::new_bvh(
        vec![Hittable::new_sphere(
            v(0.0, 0.0, 0.0),
            Fx::from_int(1),
            Material::new_lambertian(v(0.5, 0.5, 0.5)),
        )],
        Fx::zero(),
        Fx::from_int(1),
        &mut build_rng,
    );
    assert!(matches!(one, Hittable::Sphere(_)));
}
