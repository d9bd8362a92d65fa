use vstd::prelude::*;
use crate::fx::{Fx, fx_add, fx_sub, fx_neg, fx_mul, fx_div, fx_abs, fx_max, fx_sqrt, FX_ONE, PI_RAW};
use crate::texture::clamp01;
use crate::vec3::{Vec2, Vec3};

verus! {

/// The raw fixed-point value of pi over four.
pub const QUARTER_PI_RAW: i64 = 51472;

/// The raw fixed-point value of pi over two.
pub const HALF_PI_RAW: i64 = 102944;

/// The raw fixed-point value of two pi.
pub const TWO_PI_RAW: i64 = 411774;

/// Coefficient of the arctangent correction term.
pub const ATAN_K_RAW: i64 = 17892;

/// An arctangent approximation on [0, 1]:
/// `atan(z) ~ (pi/4) z + k z (1 - z)`, accurate to a few thousandths of a
/// radian.
pub open spec fn atan_poly(z: Fx) -> Fx {
    fx_add(
        fx_mul(z, Fx { raw: QUARTER_PI_RAW }),
        fx_mul(fx_mul(z, fx_sub(Fx { raw: FX_ONE }, z)), Fx { raw: ATAN_K_RAW }),
    )
}

/// The angle of the point `(x, y)` in the plane, in (-pi, pi], by octant
/// reduction to the polynomial approximation; zero for the origin.
pub open spec fn spec_atan2(y: Fx, x: Fx) -> Fx {
    let ax = fx_abs(x);
    let ay = fx_abs(y);
    if ax@ == 0 && ay@ == 0 {
        Fx { raw: 0 }
    } else {
        let base = if ay@ <= ax@ {
            atan_poly(fx_div(ay, ax))
        } else {
            fx_sub(Fx { raw: HALF_PI_RAW }, atan_poly(fx_div(ax, ay)))
        };
        let base2 = if x@ < 0 {
            fx_sub(Fx { raw: PI_RAW }, base)
        } else {
            base
        };
        if y@ < 0 {
            fx_neg(base2)
        } else {
            base2
        }
    }
}

/// The surface coordinates of a point on the unit sphere at the origin:
/// `u` the fraction of the angle around the y axis, `v` the fraction of the
/// angle from the south to the north pole, both clamped to [0, 1].
pub open spec fn spec_sphere_uv(p: Vec3) -> Vec2 {
    let theta = spec_atan2(
        fx_sqrt(fx_max(fx_sub(Fx { raw: FX_ONE }, fx_mul(p.y, p.y)), Fx { raw: 0 })),
        fx_neg(p.y),
    );
    let phi0 = fx_add(spec_atan2(fx_neg(p.z), p.x), Fx { raw: PI_RAW });
    // the seam at the full turn wraps back to zero
    let phi = if phi0@ >= TWO_PI_RAW as int {
        fx_sub(phi0, Fx { raw: TWO_PI_RAW })
    } else {
        phi0
    };
    Vec2 {
        x: clamp01(fx_div(phi, Fx { raw: TWO_PI_RAW })),
        y: clamp01(fx_div(theta, Fx { raw: PI_RAW })),
    }
}

/// The exec arctangent polynomial; mirrors `atan_poly`.
fn atan_poly_exec(z: Fx) -> (r: Fx)
    ensures
        r == atan_poly(z),
{
    z.mul(Fx { raw: QUARTER_PI_RAW }).add(
        z.mul(Fx { raw: FX_ONE }.sub(z)).mul(Fx { raw: ATAN_K_RAW }),
    )
}

/// The exec planar angle; mirrors `spec_atan2`.
pub fn atan2_fx(y: Fx, x: Fx) -> (r: Fx)
    ensures
        r == spec_atan2(y, x),
{
    let ax = x.abs();
    let ay = y.abs();
    if ax.raw == 0 && ay.raw == 0 {
        return Fx { raw: 0 };
    }
    let base = if ay.raw <= ax.raw {
        atan_poly_exec(ay.div(ax))
    } else {
        Fx { raw: HALF_PI_RAW }.sub(atan_poly_exec(ax.div(ay)))
    };
    let base2 = if x.raw < 0 {
        Fx { raw: PI_RAW }.sub(base)
    } else {
        base
    };
    if y.raw < 0 {
        base2.neg()
    } else {
        base2
    }
}

/// The surface coordinates on a unit sphere centered at the origin of the
/// given point on it; mirrors `spec_sphere_uv`, so both components lie in
/// [0, 1].
pub fn get_sphere_uv(p: &Vec3) -> (uv: Vec2)
    ensures
        uv == spec_sphere_uv(*p),
        0 <= uv.x@ <= FX_ONE as int,
        0 <= uv.y@ <= FX_ONE as int,
{
    let one = Fx { raw: FX_ONE };
    let sin_sq = one.sub(p.y.mul(p.y)).max(Fx { raw: 0 });
    let theta = atan2_fx(sin_sq.sqrt(), p.y.neg());
    let phi0 = atan2_fx(p.z.neg(), p.x).add(Fx { raw: PI_RAW });
    let phi = if phi0.raw >= TWO_PI_RAW {
        phi0.sub(Fx { raw: TWO_PI_RAW })
    } else {
        phi0
    };
    let u = phi.div(Fx { raw: TWO_PI_RAW }).max(Fx { raw: 0 }).min(one);
    let v = theta.div(Fx { raw: PI_RAW }).max(Fx { raw: 0 }).min(one);
    Vec2 { x: u, y: v }
}

} // verus!
