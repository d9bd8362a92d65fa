use pathtracer::aabb::AxisAlignedBoundingBox;
use pathtracer::fx::{Fx, FX_ONE};
use pathtracer::hittable::Hittable;
use pathtracer::material::Material;
use pathtracer::ray::Ray;
use pathtracer::rng::Lcg;
use pathtracer::uv::get_sphere_uv;
use pathtracer::vec3::Vec3;

fn fxf(v: f64) -> Fx {
    Fx::from_raw((v * 65536.0).round() as i64)
}

fn v(x: f64, y: f64, z: f64) -> Vec3 {
    Vec3::new(fxf(x), fxf(y), fxf(z))
}

fn gray() -> Material {
    Material::new_lambertian(v(0.5, 0.5, 0.5))
}

#[test]
fn test_aabb_union_laws_on_values() {
    let a = AxisAlignedBoundingBox::new(v(-1.0, -1.0, -1.0), v(1.0, 1.0, 1.0));
    let b = AxisAlignedBoundingBox::new(v(0.0, -2.0, 0.5), v(3.0, 0.0, 2.0));
    let c = AxisAlignedBoundingBox::new(v(-5.0, 0.0, 0.0), v(-2.0, 4.0, 1.0));
    assert_eq!(a.surrounding_box(&b), b.surrounding_box(&a));
    assert_eq!(
        a.surrounding_box(&b).surrounding_box(&c),
        a.surrounding_box(&b.surrounding_box(&c))
    );
    assert_eq!(a.surrounding_box(&a), a);
}

#[test]
fn test_aabb_hit() {
    let b = AxisAlignedBoundingBox::new(v(-1.0, -1.0, -1.0), v(1.0, 1.0, 1.0));
    let through = Ray::new(v(0.0, 0.0, -5.0), v(0.0, 0.0, 1.0), Fx::zero());
    assert!(b.hit(&through, Fx::zero(), Fx::from_int(100)));
    let past = Ray::new(v(5.0, 0.0, -5.0), v(0.0, 0.0, 1.0), Fx::zero());
    assert!(!b.hit(&past, Fx::zero(), Fx::from_int(100)));
    // ray parallel to the box, starting inside the slab
    let par = Ray::new(v(0.5, 0.5, -5.0), v(0.0, 0.0, 1.0), Fx::zero());
    assert!(b.hit(&par, Fx::zero(), Fx::from_int(100)));
    assert!(b.contains_t(&through, Fx::from_int(5)));
    assert!(!b.contains_t(&through, Fx::from_int(1)));
}

#[test]
fn test_sphere_hit_point_on_surface() {
    // A hit point lies on the sphere: |p - c| = r up to the fixed-point
    // grid.
    let s = Hittable::new_sphere(v(0.0, 0.0, 0.0), Fx::from_int(1), gray());
    let mut rng = Lcg::new(1);
    let r = Ray::new(v(0.0, 0.0, -5.0), v(0.0, 0.0, 1.0), Fx::zero());
    let (rec, _) = s.hit(&r, Fx::from_raw(66), Fx::from_raw(i64::MAX), &mut rng).unwrap();
    assert!((rec.t.raw as f64 / 65536.0 - 4.0).abs() < 0.001);
    let dist = rec.p.length();
    assert!((dist.raw as f64 / 65536.0 - 1.0).abs() < 0.001);
    // an oblique ray too
    let r2 = Ray::new(v(3.0, 2.5, -4.0), v(-3.0, -2.5, 4.0), Fx::zero());
    let (rec2, _) = s.hit(&r2, Fx::from_raw(66), Fx::from_raw(i64::MAX), &mut rng).unwrap();
    let dist2 = rec2.p.length();
    assert!((dist2.raw as f64 / 65536.0 - 1.0).abs() < 0.01);
}

#[test]
fn test_sphere_miss() {
    let s = Hittable::new_sphere(v(0.0, 0.0, 0.0), Fx::from_int(1), gray());
    let mut rng = Lcg::new(1);
    let r = Ray::new(v(0.0, 5.0, -5.0), v(0.0, 0.0, 1.0), Fx::zero());
    assert!(s.hit(&r, Fx::from_raw(66), Fx::from_raw(i64::MAX), &mut rng).is_none());
}

#[test]
fn test_cube_hit_normal() {
    let c = Hittable::new_cube(v(-1.0, -1.0, -1.0), v(1.0, 1.0, 1.0), gray());
    let mut rng = Lcg::new(1);
    let r = Ray::new(v(0.0, 0.0, -5.0), v(0.0, 0.0, 1.0), Fx::zero());
    let (rec, _) = c.hit(&r, Fx::from_raw(66), Fx::from_raw(i64::MAX), &mut rng).unwrap();
    assert!((rec.t.raw as f64 / 65536.0 - 4.0).abs() < 0.001);
    // the geometric normal of the entry face points inward (+z), so the
    // stored normal is flipped to face the ray and the flip is recorded
    assert!(!rec.front_face);
    assert!((rec.normal.z.raw as f64 / 65536.0 + 1.0).abs() < 0.01);
}

#[test]
fn test_occluded_sphere_reports_nearer_only() {
    // Two spheres on the camera axis; the nearer one fully occludes the
    // farther along this ray, in either list order.
    let mut rng = Lcg::new(3);
    let r = Ray::new(v(0.0, 0.0, -10.0), v(0.0, 0.0, 1.0), Fx::zero());
    let tmin = Fx::from_raw(66);
    let tmax = Fx::from_raw(i64::MAX);
    let near = || Hittable::new_sphere(v(0.0, 0.0, -2.0), Fx::from_int(1), gray());
    let far = || Hittable::new_sphere(v(0.0, 0.0, 5.0), Fx::from_int(1), gray());
    let list_a = Hittable::List(vec![near(), far()]);
    let list_b = Hittable::List(vec![far(), near()]);
    let (ra, _) = list_a.hit(&r, tmin, tmax, &mut rng).unwrap();
    let (rb, _) = list_b.hit(&r, tmin, tmax, &mut rng).unwrap();
    assert_eq!(ra.t.raw, rb.t.raw);
    assert!((ra.t.raw as f64 / 65536.0 - 7.0).abs() < 0.01);
    assert!(ra.p.z.raw < 0);
}

#[test]
fn test_translate_moves_hit() {
    let s = Hittable::new_sphere(v(0.0, 0.0, 0.0), Fx::from_int(1), gray());
    let t = Hittable::new_translate(s, v(0.0, 3.0, 0.0));
    let mut rng = Lcg::new(1);
    let r = Ray::new(v(0.0, 3.0, -5.0), v(0.0, 0.0, 1.0), Fx::zero());
    let (rec, _) = t.hit(&r, Fx::from_raw(66), Fx::from_raw(i64::MAX), &mut rng).unwrap();
    assert!((rec.p.y.raw as f64 / 65536.0 - 3.0).abs() < 0.01);
}

#[test]
fn test_moving_sphere_center_interpolates() {
    let ms = Hittable::new_moving_sphere(
        v(0.0, 0.0, 0.0),
        v(2.0, 0.0, 0.0),
        Fx::zero(),
        Fx::from_int(1),
        fxf(0.5),
        gray(),
    );
    let mut rng = Lcg::new(1);
    // at time 1 the center is at x = 2
    let r = Ray::new(v(2.0, 0.0, -5.0), v(0.0, 0.0, 1.0), Fx::from_int(1));
    assert!(ms.hit(&r, Fx::from_raw(66), Fx::from_raw(i64::MAX), &mut rng).is_some());
    // at time 0 that ray misses
    let r0 = Ray::new(v(2.0, 0.0, -5.0), v(0.0, 0.0, 1.0), Fx::zero());
    assert!(ms.hit(&r0, Fx::from_raw(66), Fx::from_raw(i64::MAX), &mut rng).is_none());
}

#[test]
fn test_constant_medium_scatters_in_range() {
    let boundary = Hittable::new_sphere(v(0.0, 0.0, 0.0), Fx::from_int(2), gray());
    let fog = Hittable::new_constant_medium(boundary, fxf(5.0), v(0.0, 0.0, 0.0));
    let r = Ray::new(v(0.0, 0.0, -10.0), v(0.0, 0.0, 1.0), Fx::zero());
    let tmin = Fx::from_raw(66);
    let tmax = Fx::from_raw(i64::MAX);
    let mut hits = 0;
    for seed in 0..50u64 {
        let mut rng = Lcg::new(seed);
        if let Some((rec, _)) = fog.hit(&r, tmin, tmax, &mut rng) {
            hits += 1;
            let t = rec.t.raw as f64 / 65536.0;
            assert!((8.0 - 0.01..=12.0 + 0.01).contains(&t));
        }
    }
    assert!(hits > 10);
}

#[test]
fn test_get_sphere_uv_landmarks() {
    let check = |p: Vec3, u: f64, vv: f64| {
        let uv = get_sphere_uv(&p);
        assert!((uv.x.raw as f64 / 65536.0 - u).abs() < 0.01);
        assert!((uv.y.raw as f64 / 65536.0 - vv).abs() < 0.01);
    };
    check(v(1.0, 0.0, 0.0), 0.50, 0.5);
    check(v(-1.0, 0.0, 0.0), 0.00, 0.5);
    check(v(0.0, 1.0, 0.0), 0.50, 1.0);
    check(v(0.0, -1.0, 0.0), 0.50, 0.0);
    check(v(0.0, 0.0, 1.0), 0.25, 0.5);
    check(v(0.0, 0.0, -1.0), 0.75, 0.5);
}
