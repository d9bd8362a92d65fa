use vstd::prelude::*;
use crate::fx::{Fx, fx_add, fx_sub, fx_neg, fx_mul, fx_div, fx_sqrt, fx_min, fx_abs, FX_ONE};

verus! {

/// A pair of fixed-point scalars, used for surface coordinates.
#[derive(Clone, Copy, PartialEq, Eq, Structural, Debug)]
pub struct Vec2 {
    pub x: Fx,
    pub y: Fx,
}

/// A three-component fixed-point vector; also used for points and colors.
#[derive(Clone, Copy, PartialEq, Eq, Structural, Debug)]
pub struct Vec3 {
    pub x: Fx,
    pub y: Fx,
    pub z: Fx,
}

/// The componentwise sum of two vectors.
pub open spec fn v3_add(a: Vec3, b: Vec3) -> Vec3 {
    Vec3 { x: fx_add(a.x, b.x), y: fx_add(a.y, b.y), z: fx_add(a.z, b.z) }
}

/// The componentwise difference of two vectors.
pub open spec fn v3_sub(a: Vec3, b: Vec3) -> Vec3 {
    Vec3 { x: fx_sub(a.x, b.x), y: fx_sub(a.y, b.y), z: fx_sub(a.z, b.z) }
}

/// The componentwise negation of a vector.
pub open spec fn v3_neg(a: Vec3) -> Vec3 {
    Vec3 { x: fx_neg(a.x), y: fx_neg(a.y), z: fx_neg(a.z) }
}

/// A vector scaled by a scalar.
pub open spec fn v3_scale(a: Vec3, s: Fx) -> Vec3 {
    Vec3 { x: fx_mul(a.x, s), y: fx_mul(a.y, s), z: fx_mul(a.z, s) }
}

/// The componentwise (Hadamard) product, used for color attenuation.
pub open spec fn v3_mul(a: Vec3, b: Vec3) -> Vec3 {
    Vec3 { x: fx_mul(a.x, b.x), y: fx_mul(a.y, b.y), z: fx_mul(a.z, b.z) }
}

/// A vector divided componentwise by a scalar.
pub open spec fn v3_div(a: Vec3, s: Fx) -> Vec3 {
    Vec3 { x: fx_div(a.x, s), y: fx_div(a.y, s), z: fx_div(a.z, s) }
}

/// The dot product, folded left to right.
pub open spec fn v3_dot(a: Vec3, b: Vec3) -> Fx {
    fx_add(fx_add(fx_mul(a.x, b.x), fx_mul(a.y, b.y)), fx_mul(a.z, b.z))
}

/// The cross product.
pub open spec fn v3_cross(a: Vec3, b: Vec3) -> Vec3 {
    Vec3 {
        x: fx_sub(fx_mul(a.y, b.z), fx_mul(a.z, b.y)),
        y: fx_sub(fx_mul(a.z, b.x), fx_mul(a.x, b.z)),
        z: fx_sub(fx_mul(a.x, b.y), fx_mul(a.y, b.x)),
    }
}

/// The squared length of a vector.
pub open spec fn v3_sqrlen(a: Vec3) -> Fx {
    v3_dot(a, a)
}

/// The length of a vector: the fixed-point square root of the squared length.
pub open spec fn v3_len(a: Vec3) -> Fx {
    fx_sqrt(v3_sqrlen(a))
}

/// The vector rescaled to length near one; a vector of length zero is
/// returned unchanged.
pub open spec fn v3_unit(a: Vec3) -> Vec3 {
    if v3_len(a)@ == 0 {
        a
    } else {
        v3_div(a, v3_len(a))
    }
}

/// Whether every component is within one whole fixed-point step of zero.
pub open spec fn v3_near_zero(a: Vec3) -> bool {
    fx_abs(a.x)@ < NEAR_ZERO_RAW as int && fx_abs(a.y)@ < NEAR_ZERO_RAW as int && fx_abs(a.z)@
        < NEAR_ZERO_RAW as int
}

/// The reflection of `v` about the unit normal `n`: `v - 2 (v . n) n`.
pub open spec fn v3_reflect(v: Vec3, n: Vec3) -> Vec3 {
    v3_sub(v, v3_scale(n, fx_add(v3_dot(v, n), v3_dot(v, n))))
}

/// The refraction of the unit vector `uv` at the unit normal `n` with
/// relative refraction index `eta`, by the decomposition into the
/// perpendicular and parallel parts.
pub open spec fn v3_refract(uv: Vec3, n: Vec3, eta: Fx) -> Vec3 {
    let cos_theta = fx_min(v3_dot(v3_neg(uv), n), Fx { raw: FX_ONE });
    let r_out_perp = v3_scale(v3_add(uv, v3_scale(n, cos_theta)), eta);
    let one_minus = fx_sub(Fx { raw: FX_ONE }, v3_sqrlen(r_out_perp));
    let par_len = fx_neg(fx_sqrt(fx_abs(one_minus)));
    v3_add(r_out_perp, v3_scale(n, par_len))
}

/// Raw threshold under which a component counts as zero: about 2.4e-4.
pub const NEAR_ZERO_RAW: i64 = 16;

impl Vec3 {
    /// The zero vector.
    pub fn zero() -> (r: Vec3)
        ensures
            r.x@ == 0 && r.y@ == 0 && r.z@ == 0,
    {
        Vec3 { x: Fx { raw: 0 }, y: Fx { raw: 0 }, z: Fx { raw: 0 } }
    }

    /// A vector from three scalars.
    pub fn new(x: Fx, y: Fx, z: Fx) -> (r: Vec3)
        ensures
            r == (Vec3 { x, y, z }),
    {
        Vec3 { x, y, z }
    }

    /// Componentwise sum.
    pub fn add(self, other: Vec3) -> (r: Vec3)
        ensures
            r == v3_add(self, other),
    {
        Vec3 { x: self.x.add(other.x), y: self.y.add(other.y), z: self.z.add(other.z) }
    }

    /// Componentwise difference.
    pub fn sub(self, other: Vec3) -> (r: Vec3)
        ensures
            r == v3_sub(self, other),
    {
        Vec3 { x: self.x.sub(other.x), y: self.y.sub(other.y), z: self.z.sub(other.z) }
    }

    /// Componentwise negation.
    pub fn neg(self) -> (r: Vec3)
        ensures
            r == v3_neg(self),
    {
        Vec3 { x: self.x.neg(), y: self.y.neg(), z: self.z.neg() }
    }

    /// Scale by a scalar.
    pub fn scale(self, s: Fx) -> (r: Vec3)
        ensures
            r == v3_scale(self, s),
    {
        Vec3 { x: self.x.mul(s), y: self.y.mul(s), z: self.z.mul(s) }
    }

    /// Componentwise product.
    pub fn mul(self, other: Vec3) -> (r: Vec3)
        ensures
            r == v3_mul(self, other),
    {
        Vec3 { x: self.x.mul(other.x), y: self.y.mul(other.y), z: self.z.mul(other.z) }
    }

    /// Componentwise division by a scalar.
    pub fn div(self, s: Fx) -> (r: Vec3)
        requires
            s@ != 0,
        ensures
            r == v3_div(self, s),
    {
        Vec3 { x: self.x.div(s), y: self.y.div(s), z: self.z.div(s) }
    }

    /// Dot product.
    pub fn dot(self, other: Vec3) -> (r: Fx)
        ensures
            r == v3_dot(self, other),
    {
        self.x.mul(other.x).add(self.y.mul(other.y)).add(self.z.mul(other.z))
    }

    /// Cross product.
    pub fn cross(self, other: Vec3) -> (r: Vec3)
        ensures
            r == v3_cross(self, other),
    {
        Vec3 {
            x: self.y.mul(other.z).sub(self.z.mul(other.y)),
            y: self.z.mul(other.x).sub(self.x.mul(other.z)),
            z: self.x.mul(other.y).sub(self.y.mul(other.x)),
        }
    }

    /// Squared length.
    pub fn sqrlen(self) -> (r: Fx)
        ensures
            r == v3_sqrlen(self),
            r@ >= 0,
    {
        proof {
            crate::fx::lemma_mul_self_nonneg(self.x);
            crate::fx::lemma_mul_self_nonneg(self.y);
            crate::fx::lemma_mul_self_nonneg(self.z);
        }
        self.dot(self)
    }

    /// Length.
    pub fn length(self) -> (r: Fx)
        ensures
            r == v3_len(self),
            r@ >= 0,
    {
        self.sqrlen().sqrt()
    }

    /// Rescale to length near one; the zero vector is returned unchanged.
    pub fn normalize(self) -> (r: Vec3)
        ensures
            r == v3_unit(self),
    {
        let len = self.length();
        if len.raw == 0 {
            self
        } else {
            self.div(len)
        }
    }

    /// Whether every component is within the near-zero threshold.
    pub fn near_zero(self) -> (r: bool)
        ensures
            r == v3_near_zero(self),
    {
        self.x.abs().raw < NEAR_ZERO_RAW && self.y.abs().raw < NEAR_ZERO_RAW && self.z.abs().raw
            < NEAR_ZERO_RAW
    }

    /// Reflect about a unit normal.
    pub fn reflect(self, n: Vec3) -> (r: Vec3)
        ensures
            r == v3_reflect(self, n),
    {
        let d = self.dot(n);
        self.sub(n.scale(d.add(d)))
    }

    /// Refract at a unit normal with the given relative refraction index.
    pub fn refract(self, n: Vec3, eta: Fx) -> (r: Vec3)
        ensures
            r == v3_refract(self, n, eta),
    {
        let cos_theta = self.neg().dot(n).min(Fx { raw: FX_ONE });
        let r_out_perp = self.add(n.scale(cos_theta)).scale(eta);
        let one_minus = Fx { raw: FX_ONE }.sub(r_out_perp.sqrlen());
        let par_len = one_minus.abs().sqrt().neg();
        r_out_perp.add(n.scale(par_len))
    }
}

} // verus!
