use pathtracer::fx::{Fx, FX_ONE};
use pathtracer::vec3::Vec3;
use pathtracer::quat::Quat;
use pathtracer::rng::Lcg;

fn fxf(v: f64) -> Fx {
    Fx::from_raw((v * 65536.0).round() as i64)
}

fn approx(a: Fx, b: f64, tol: f64) -> bool {
    ((a.raw as f64) / 65536.0 - b).abs() <= tol
}

#[test]
fn test_fx_add_sub_mul_div() {
    let a = Fx::from_int(3);
    let b = Fx::from_int(2);
    assert_eq!(a.add(b).raw, 5 * FX_ONE);
    assert_eq!(a.sub(b).raw, FX_ONE);
    assert_eq!(a.mul(b).raw, 6 * FX_ONE);
    assert_eq!(a.div(b).raw, FX_ONE + FX_ONE / 2);
    let half = fxf(0.5);
    assert_eq!(half.mul(half).raw, FX_ONE / 4);
}

#[test]
fn test_fx_saturates_instead_of_wrapping() {
    let big = Fx::from_raw(i64::MAX);
    assert_eq!(big.add(Fx::from_int(1)).raw, i64::MAX);
    assert_eq!(big.neg().add(Fx::from_int(-1)).raw, i64::MIN);
}

#[test]
fn test_fx_sqrt_exact_squares() {
    assert_eq!(Fx::from_int(4).sqrt().raw, 2 * FX_ONE);
    assert_eq!(Fx::from_int(9).sqrt().raw, 3 * FX_ONE);
    assert_eq!(Fx::from_int(0).sqrt().raw, 0);
    // sqrt(2) to the fixed-point grid, rounded down
    let s2 = Fx::from_int(2).sqrt();
    assert!(approx(s2, 1.4142135, 0.0001));
}

#[test]
fn test_vec3_dot_cross() {
    let x = Vec3::new(Fx::from_int(1), Fx::zero(), Fx::zero());
    let y = Vec3::new(Fx::zero(), Fx::from_int(1), Fx::zero());
    assert_eq!(x.dot(y).raw, 0);
    assert_eq!(x.dot(x).raw, FX_ONE);
    let z = x.cross(y);
    assert_eq!((z.x.raw, z.y.raw, z.z.raw), (0, 0, FX_ONE));
}

#[test]
fn test_vec3_reflect() {
    let v = Vec3::new(Fx::from_int(1), Fx::from_int(-1), Fx::zero());
    let n = Vec3::new(Fx::zero(), Fx::from_int(1), Fx::zero());
    let r = v.reflect(n);
    assert_eq!((r.x.raw, r.y.raw, r.z.raw), (FX_ONE, FX_ONE, 0));
}

#[test]
fn test_vec3_normalize_length() {
    let v = Vec3::new(Fx::from_int(3), Fx::from_int(4), Fx::zero());
    assert!(approx(v.length(), 5.0, 0.001));
    let u = v.normalize();
    assert!(approx(u.length(), 1.0, 0.001));
}

#[test]
fn test_rotate() {
    let half = (90.0f64.to_radians()) / 2.0;
    let q = Quat::from_axis(
        Vec3::new(Fx::zero(), Fx::from_int(1), Fx::zero()),
        fxf(half.cos()),
        fxf(half.sin()),
    );
    let p = Vec3::new(Fx::from_int(1), Fx::zero(), Fx::zero());
    assert!(p.rotate(&q).sub(Vec3::new(Fx::zero(), Fx::zero(), Fx::from_int(-1))).near_zero());
}

#[test]
fn test_rotate_identity_is_exact() {
    let q = Quat::new(Fx::from_int(1), Fx::zero(), Fx::zero(), Fx::zero());
    let p = Vec3::new(fxf(0.3), fxf(-1.7), fxf(2.25));
    let r = p.rotate(&q);
    assert_eq!((r.x.raw, r.y.raw, r.z.raw), (p.x.raw, p.y.raw, p.z.raw));
}

#[test]
fn test_rotate_twice_composes() {
    // Rotating twice by 45 degrees lands within a few grid steps of one
    // 90-degree rotation; fixed-point rounding keeps it from being exact.
    let axis = Vec3::new(Fx::zero(), Fx::from_int(1), Fx::zero());
    let h45 = (45.0f64.to_radians()) / 2.0;
    let h90 = (90.0f64.to_radians()) / 2.0;
    let q45 = Quat::from_axis(axis, fxf(h45.cos()), fxf(h45.sin()));
    let q90 = Quat::from_axis(axis, fxf(h90.cos()), fxf(h90.sin()));
    let p = Vec3::new(Fx::from_int(1), Fx::zero(), Fx::zero());
    let twice = p.rotate(&q45).rotate(&q45);
    let once = p.rotate(&q90);
    let d = twice.sub(once);
    assert!(d.x.abs().raw < 256 && d.y.abs().raw < 256 && d.z.abs().raw < 256);
}

#[test]
fn test_lcg_deterministic() {
    let mut a = Lcg::new(42);
    let mut b = Lcg::new(42);
    for _ in 0..10 {
        assert_eq!(a.next_u64(), b.next_u64());
    }
    let u = a.next_unit();
    assert!(0 <= u.raw && u.raw < FX_ONE);
    let s = a.next_sym();
    assert!(-FX_ONE <= s.raw && s.raw < FX_ONE);
}

#[test]
fn test_sampling_stays_in_bounds() {
    let mut rng = Lcg::new(7);
    for _ in 0..200 {
        let p = Vec3::random_in_unit_sphere(&mut rng);
        assert!(p.sqrlen().raw < FX_ONE);
        let d = Vec3::random_in_unit_disk(&mut rng);
        assert!(d.sqrlen().raw < FX_ONE && d.z.raw == 0);
        let c = Vec3::random_cosine_direction(&mut rng);
        assert!(c.z.raw >= 0);
    }
}
