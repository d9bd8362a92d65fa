use vstd::prelude::*;
use crate::fx::{Fx, fx_add, fx_sub, fx_neg, fx_mul, FX_ONE};
use crate::vec3::{Vec3, v3_scale, v3_unit};
use vstd::arithmetic::div_mod::lemma_div_multiples_vanish;

verus! {

/// A quaternion `w + x i + y j + z k`, used to rotate vectors.
#[derive(Clone, Copy, PartialEq, Eq, Structural, Debug)]
pub struct Quat {
    pub w: Fx,
    pub x: Fx,
    pub y: Fx,
    pub z: Fx,
}

/// The Hamilton product of two quaternions.
pub open spec fn q_ham(a: Quat, b: Quat) -> Quat {
    Quat {
        w: fx_sub(
            fx_sub(fx_sub(fx_mul(a.w, b.w), fx_mul(a.x, b.x)), fx_mul(a.y, b.y)),
            fx_mul(a.z, b.z),
        ),
        x: fx_sub(
            fx_add(fx_add(fx_mul(a.w, b.x), fx_mul(a.x, b.w)), fx_mul(a.y, b.z)),
            fx_mul(a.z, b.y),
        ),
        y: fx_add(
            fx_add(fx_sub(fx_mul(a.w, b.y), fx_mul(a.x, b.z)), fx_mul(a.y, b.w)),
            fx_mul(a.z, b.x),
        ),
        z: fx_add(
            fx_sub(fx_add(fx_mul(a.w, b.z), fx_mul(a.x, b.y)), fx_mul(a.y, b.x)),
            fx_mul(a.z, b.w),
        ),
    }
}

/// The conjugate of a unit quaternion, which is its inverse.
pub open spec fn q_invert(q: Quat) -> Quat {
    Quat { w: q.w, x: fx_neg(q.x), y: fx_neg(q.y), z: fx_neg(q.z) }
}

/// A vector rotated by a quaternion: conjugation `q p q^-1` of the pure
/// quaternion `p` made from the vector. Opaque: proofs about the product
/// terms reveal it.
#[verifier::opaque]
pub open spec fn q_rotate(v: Vec3, q: Quat) -> Vec3 {
    let p = Quat { w: Fx { raw: 0 }, x: v.x, y: v.y, z: v.z };
    let r = q_ham(q_ham(q, p), q_invert(q));
    Vec3 { x: r.x, y: r.y, z: r.z }
}

impl Quat {
    /// A quaternion from its four components.
    pub fn new(w: Fx, x: Fx, y: Fx, z: Fx) -> (r: Quat)
        ensures
            r == (Quat { w, x, y, z }),
    {
        Quat { w, x, y, z }
    }

    /// The rotation quaternion about `axis` whose half-angle has the given
    /// cosine and sine: the trigonometric values are supplied by the caller.
    pub fn from_axis(axis: Vec3, cos_half: Fx, sin_half: Fx) -> (r: Quat)
        ensures
            ({
                let v = v3_scale(v3_unit(axis), sin_half);
                r == (Quat { w: cos_half, x: v.x, y: v.y, z: v.z })
            }),
    {
        let v = axis.normalize().scale(sin_half);
        Quat { w: cos_half, x: v.x, y: v.y, z: v.z }
    }

    /// The conjugate.
    pub fn invert(self) -> (r: Quat)
        ensures
            r == q_invert(self),
    {
        Quat { w: self.w, x: self.x.neg(), y: self.y.neg(), z: self.z.neg() }
    }

    /// The Hamilton product.
    pub fn hamiltonian_prod(self, other: Quat) -> (r: Quat)
        ensures
            r == q_ham(self, other),
    {
        Quat {
            w: self.w.mul(other.w).sub(self.x.mul(other.x)).sub(self.y.mul(other.y)).sub(
                self.z.mul(other.z),
            ),
            x: self.w.mul(other.x).add(self.x.mul(other.w)).add(self.y.mul(other.z)).sub(
                self.z.mul(other.y),
            ),
            y: self.w.mul(other.y).sub(self.x.mul(other.z)).add(self.y.mul(other.w)).add(
                self.z.mul(other.x),
            ),
            z: self.w.mul(other.z).add(self.x.mul(other.y)).sub(self.y.mul(other.x)).add(
                self.z.mul(other.w),
            ),
        }
    }
}

impl Vec3 {
    /// This vector rotated by a quaternion.
    pub fn rotate(self, q: &Quat) -> (r: Vec3)
        ensures
            r == q_rotate(self, *q),
    {
        proof {
            reveal(q_rotate);
        }
        let p = Quat { w: Fx { raw: 0 }, x: self.x, y: self.y, z: self.z };
        let r = q.hamiltonian_prod(p).hamiltonian_prod(q.invert());
        Vec3 { x: r.x, y: r.y, z: r.z }
    }
}

/// Multiplying by the fixed-point one is exact.
pub proof fn lemma_mul_one(a: Fx)
    ensures
        fx_mul(Fx { raw: FX_ONE }, a) == a,
        fx_mul(a, Fx { raw: FX_ONE }) == a,
{
    lemma_div_multiples_vanish(a@, FX_ONE as int);
    assert((FX_ONE as int) * a@ == a@ * (FX_ONE as int)) by (nonlinear_arith);
}

/// Multiplying by zero gives zero.
pub proof fn lemma_mul_zero(a: Fx)
    ensures
        fx_mul(Fx { raw: 0 }, a) == (Fx { raw: 0 }),
        fx_mul(a, Fx { raw: 0 }) == (Fx { raw: 0 }),
{
    assert(a@ * 0 == 0) by (nonlinear_arith);
    assert(0 * a@ == 0) by (nonlinear_arith);
}

/// Rotating by the identity quaternion is the identity: the whole
/// conjugation works out exactly on the fixed-point grid, because every
/// product involved has zero or one as a factor.
pub proof fn lemma_rotate_identity(v: Vec3)
    ensures
        q_rotate(v, Quat { w: Fx { raw: FX_ONE }, x: Fx { raw: 0 }, y: Fx { raw: 0 }, z: Fx { raw: 0 } })
            == v,
{
    reveal(q_rotate);
    let one = Fx { raw: FX_ONE };
    let zero = Fx { raw: 0 };
    let q = Quat { w: one, x: zero, y: zero, z: zero };
    lemma_mul_one(v.x);
    lemma_mul_one(v.y);
    lemma_mul_one(v.z);
    lemma_mul_zero(v.x);
    lemma_mul_zero(v.y);
    lemma_mul_zero(v.z);
    lemma_mul_one(one);
    lemma_mul_zero(one);
    lemma_mul_zero(zero);
    let p = Quat { w: zero, x: v.x, y: v.y, z: v.z };
    assert(q_ham(q, p) == p);
    assert(q_invert(q) == q);
    assert(q_ham(p, q) == p);
}

} // verus!
