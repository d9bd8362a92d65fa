use vstd::prelude::*;
use crate::fx::{Fx, fx_sub, fx_div, fx_min, fx_max};
use crate::ray::Ray;
use crate::vec3::Vec3;
use core::cmp::Ordering;

verus! {

/// An axis-aligned bounding box, given by its two corner points.
/// A well-formed box has `minimum <= maximum` componentwise.
#[derive(Clone, Copy, PartialEq, Eq, Structural, Debug)]
pub struct AxisAlignedBoundingBox {
    pub minimum: Vec3,
    pub maximum: Vec3,
}

/// The componentwise union of two boxes: the smallest box containing both.
pub open spec fn aabb_union(a: AxisAlignedBoundingBox, b: AxisAlignedBoundingBox) -> AxisAlignedBoundingBox {
    AxisAlignedBoundingBox {
        minimum: Vec3 {
            x: fx_min(a.minimum.x, b.minimum.x),
            y: fx_min(a.minimum.y, b.minimum.y),
            z: fx_min(a.minimum.z, b.minimum.z),
        },
        maximum: Vec3 {
            x: fx_max(a.maximum.x, b.maximum.x),
            y: fx_max(a.maximum.y, b.maximum.y),
            z: fx_max(a.maximum.z, b.maximum.z),
        },
    }
}

/// Box inclusion: every point of `a` lies in `b`.
pub open spec fn aabb_incl(a: AxisAlignedBoundingBox, b: AxisAlignedBoundingBox) -> bool {
    &&& b.minimum.x@ <= a.minimum.x@
    &&& b.minimum.y@ <= a.minimum.y@
    &&& b.minimum.z@ <= a.minimum.z@
    &&& a.maximum.x@ <= b.maximum.x@
    &&& a.maximum.y@ <= b.maximum.y@
    &&& a.maximum.z@ <= b.maximum.z@
}

/// Whether ray parameter `t` lies inside the slab of one axis: between the
/// two crossing times for a ray moving along the axis, or anywhere if the
/// ray is parallel to the slab and starts inside it.
pub open spec fn slab_contains_t(mn: Fx, mx: Fx, o: Fx, d: Fx, t: Fx) -> bool {
    if d@ == 0 {
        mn@ <= o@ <= mx@
    } else if d@ > 0 {
        fx_div(fx_sub(mn, o), d)@ <= t@ <= fx_div(fx_sub(mx, o), d)@
    } else {
        fx_div(fx_sub(mx, o), d)@ <= t@ <= fx_div(fx_sub(mn, o), d)@
    }
}

/// Whether ray parameter `t` lies inside the box: inside the slab of every
/// axis. Opaque: proofs that need the per-axis view reveal it.
#[verifier::opaque]
pub open spec fn aabb_contains_t(b: AxisAlignedBoundingBox, r: Ray, t: Fx) -> bool {
    &&& slab_contains_t(b.minimum.x, b.maximum.x, r.origin.x, r.direction.x, t)
    &&& slab_contains_t(b.minimum.y, b.maximum.y, r.origin.y, r.direction.y, t)
    &&& slab_contains_t(b.minimum.z, b.maximum.z, r.origin.z, r.direction.z, t)
}

/// One axis of the slab test: narrow the running parameter interval to the
/// slab, or report a miss when the ray is parallel to the slab and starts
/// outside it. The first component of the accumulator is the interval, the
/// second whether the ray can still hit.
pub open spec fn slab_clip(mn: Fx, mx: Fx, o: Fx, d: Fx, acc: ((Fx, Fx), bool)) -> ((Fx, Fx), bool) {
    if d@ == 0 {
        if mn@ <= o@ <= mx@ {
            acc
        } else {
            (acc.0, false)
        }
    } else {
        let t0 = if d@ > 0 {
            fx_div(fx_sub(mn, o), d)
        } else {
            fx_div(fx_sub(mx, o), d)
        };
        let t1 = if d@ > 0 {
            fx_div(fx_sub(mx, o), d)
        } else {
            fx_div(fx_sub(mn, o), d)
        };
        ((fx_max(acc.0.0, t0), fx_min(acc.0.1, t1)), acc.1)
    }
}

/// The slab test: whether the parameter interval `[tmin, tmax]`, clipped to
/// the slab of every axis, stays nonempty. Opaque: proofs that need the
/// per-axis view reveal it.
#[verifier::opaque]
pub open spec fn aabb_hit(b: AxisAlignedBoundingBox, r: Ray, tmin: Fx, tmax: Fx) -> bool {
    let a0 = ((tmin, tmax), true);
    let a1 = slab_clip(b.minimum.x, b.maximum.x, r.origin.x, r.direction.x, a0);
    let a2 = slab_clip(b.minimum.y, b.maximum.y, r.origin.y, r.direction.y, a1);
    let a3 = slab_clip(b.minimum.z, b.maximum.z, r.origin.z, r.direction.z, a2);
    a3.1 && a3.0.0@ <= a3.0.1@
}

impl AxisAlignedBoundingBox {
    /// A box from its two corners.
    pub fn new(minimum: Vec3, maximum: Vec3) -> (r: AxisAlignedBoundingBox)
        ensures
            r == (AxisAlignedBoundingBox { minimum, maximum }),
    {
        AxisAlignedBoundingBox { minimum, maximum }
    }

    /// One exec axis of the slab test; mirrors `slab_clip`.
    fn clip_axis(mn: Fx, mx: Fx, o: Fx, d: Fx, tmin: Fx, tmax: Fx) -> (r: (Fx, Fx, bool))
        ensures
            ({
                let s = slab_clip(mn, mx, o, d, ((tmin, tmax), true));
                r.0 == s.0.0 && r.1 == s.0.1 && r.2 == s.1
            }),
    {
        if d.raw == 0 {
            if mn.raw <= o.raw && o.raw <= mx.raw {
                (tmin, tmax, true)
            } else {
                (tmin, tmax, false)
            }
        } else {
            let ta = mn.sub(o).div(d);
            let tb = mx.sub(o).div(d);
            let (t0, t1) = if d.raw > 0 {
                (ta, tb)
            } else {
                (tb, ta)
            };
            (tmin.max(t0), tmax.min(t1), true)
        }
    }

    /// The slab intersection test: whether the ray passes through the box
    /// for some parameter in `[t_min, t_max]`.
    pub fn hit(&self, r: &Ray, t_min: Fx, t_max: Fx) -> (res: bool)
        ensures
            res == aabb_hit(*self, *r, t_min, t_max),
    {
        proof {
            reveal(aabb_hit);
        }
        let (tx0, tx1, okx) = Self::clip_axis(
            self.minimum.x,
            self.maximum.x,
            r.origin.x,
            r.direction.x,
            t_min,
            t_max,
        );
        if !okx {
            return false;
        }
        let (ty0, ty1, oky) = Self::clip_axis(
            self.minimum.y,
            self.maximum.y,
            r.origin.y,
            r.direction.y,
            tx0,
            tx1,
        );
        if !oky {
            return false;
        }
        let (tz0, tz1, okz) = Self::clip_axis(
            self.minimum.z,
            self.maximum.z,
            r.origin.z,
            r.direction.z,
            ty0,
            ty1,
        );
        okz && tz0.raw <= tz1.raw
    }

    /// Whether ray parameter `t` lies inside the box; mirrors
    /// `aabb_contains_t`.
    pub fn contains_t(&self, r: &Ray, t: Fx) -> (res: bool)
        ensures
            res == aabb_contains_t(*self, *r, t),
    {
        proof {
            reveal(aabb_contains_t);
        }
        Self::axis_contains(self.minimum.x, self.maximum.x, r.origin.x, r.direction.x, t)
            && Self::axis_contains(self.minimum.y, self.maximum.y, r.origin.y, r.direction.y, t)
            && Self::axis_contains(self.minimum.z, self.maximum.z, r.origin.z, r.direction.z, t)
    }

    /// One exec axis of the containment test; mirrors `slab_contains_t`.
    fn axis_contains(mn: Fx, mx: Fx, o: Fx, d: Fx, t: Fx) -> (res: bool)
        ensures
            res == slab_contains_t(mn, mx, o, d, t),
    {
        if d.raw == 0 {
            mn.raw <= o.raw && o.raw <= mx.raw
        } else {
            let ta = mn.sub(o).div(d);
            let tb = mx.sub(o).div(d);
            let (t0, t1) = if d.raw > 0 {
                (ta, tb)
            } else {
                (tb, ta)
            };
            t0.raw <= t.raw && t.raw <= t1.raw
        }
    }

    /// The smallest box containing this box and another.
    pub fn surrounding_box(&self, other: &Self) -> (r: Self)
        ensures
            r == aabb_union(*self, *other),
    {
        AxisAlignedBoundingBox {
            minimum: Vec3 {
                x: self.minimum.x.min(other.minimum.x),
                y: self.minimum.y.min(other.minimum.y),
                z: self.minimum.z.min(other.minimum.z),
            },
            maximum: Vec3 {
                x: self.maximum.x.max(other.maximum.x),
                y: self.maximum.y.max(other.maximum.y),
                z: self.maximum.z.max(other.maximum.z),
            },
        }
    }

    /// Order two boxes by the minimum corner along the given axis
    /// (0, 1, or 2 for x, y, z).
    pub fn compare(&self, other: &Self, axis: usize) -> (r: Ordering)
        requires
            axis < 3,
        ensures
            ({
                let a = self.axis_min_spec(axis as int);
                let b = other.axis_min_spec(axis as int);
                r == (if a < b {
                    Ordering::Less
                } else if a > b {
                    Ordering::Greater
                } else {
                    Ordering::Equal
                })
            }),
    {
        let a = self.axis_min(axis);
        let b = other.axis_min(axis);
        if a.raw < b.raw {
            Ordering::Less
        } else if a.raw > b.raw {
            Ordering::Greater
        } else {
            Ordering::Equal
        }
    }

    /// The raw minimum corner value along an axis.
    pub open spec fn axis_min_spec(&self, axis: int) -> int {
        if axis == 0 {
            self.minimum.x@
        } else if axis == 1 {
            self.minimum.y@
        } else {
            self.minimum.z@
        }
    }

    /// The minimum corner scalar along an axis.
    pub fn axis_min(&self, axis: usize) -> (r: Fx)
        requires
            axis < 3,
        ensures
            r@ == self.axis_min_spec(axis as int),
    {
        if axis == 0 {
            self.minimum.x
        } else if axis == 1 {
            self.minimum.y
        } else {
            self.minimum.z
        }
    }
}

/// Fixed-point division by the same divisor preserves order of the
/// dividends.
pub proof fn lemma_fx_div_mono(a: Fx, b: Fx, d: Fx)
    requires
        a@ <= b@,
        d@ != 0,
    ensures
        d@ > 0 ==> fx_div(a, d)@ <= fx_div(b, d)@,
        d@ < 0 ==> fx_div(b, d)@ <= fx_div(a, d)@,
{
    let s = crate::fx::FX_ONE as int;
    assert(a@ * s <= b@ * s) by (nonlinear_arith)
        requires
            a@ <= b@,
            s > 0,
    {}
    if d@ > 0 {
        vstd::arithmetic::div_mod::lemma_div_is_ordered(a@ * s, b@ * s, d@);
    } else {
        assert(-(b@ * s) <= -(a@ * s));
        vstd::arithmetic::div_mod::lemma_div_is_ordered(-(b@ * s), -(a@ * s), -d@);
    }
}

/// Containment in the slab of one axis is preserved by widening the slab.
proof fn lemma_slab_mono(mn1: Fx, mx1: Fx, mn2: Fx, mx2: Fx, o: Fx, d: Fx, t: Fx)
    requires
        mn2@ <= mn1@,
        mx1@ <= mx2@,
        slab_contains_t(mn1, mx1, o, d, t),
    ensures
        slab_contains_t(mn2, mx2, o, d, t),
{
    if d@ != 0 {
        lemma_fx_div_mono(fx_sub(mn2, o), fx_sub(mn1, o), d);
        lemma_fx_div_mono(fx_sub(mx1, o), fx_sub(mx2, o), d);
    }
}

/// Containment of a ray parameter is preserved by widening the box.
pub proof fn lemma_contains_mono_box(
    b1: AxisAlignedBoundingBox,
    b2: AxisAlignedBoundingBox,
    r: Ray,
    t: Fx,
)
    requires
        aabb_incl(b1, b2),
        aabb_contains_t(b1, r, t),
    ensures
        aabb_contains_t(b2, r, t),
{
    reveal(aabb_contains_t);
    lemma_slab_mono(b1.minimum.x, b1.maximum.x, b2.minimum.x, b2.maximum.x, r.origin.x, r.direction.x, t);
    lemma_slab_mono(b1.minimum.y, b1.maximum.y, b2.minimum.y, b2.maximum.y, r.origin.y, r.direction.y, t);
    lemma_slab_mono(b1.minimum.z, b1.maximum.z, b2.minimum.z, b2.maximum.z, r.origin.z, r.direction.z, t);
}

/// A box containing some parameter of the query interval passes the slab
/// test over that interval.
pub proof fn lemma_contains_to_hit(
    b: AxisAlignedBoundingBox,
    r: Ray,
    t: Fx,
    tmin: Fx,
    tmax: Fx,
)
    requires
        aabb_contains_t(b, r, t),
        tmin@ <= t@ <= tmax@,
    ensures
        aabb_hit(b, r, tmin, tmax),
{
    reveal(aabb_contains_t);
    reveal(aabb_hit);
}

/// Box union is commutative.
pub proof fn lemma_union_commutative(a: AxisAlignedBoundingBox, b: AxisAlignedBoundingBox)
    ensures
        aabb_union(a, b) == aabb_union(b, a),
{
}

/// Box union is associative.
pub proof fn lemma_union_associative(
    a: AxisAlignedBoundingBox,
    b: AxisAlignedBoundingBox,
    c: AxisAlignedBoundingBox,
)
    ensures
        aabb_union(aabb_union(a, b), c) == aabb_union(a, aabb_union(b, c)),
{
}

/// The union of a box with itself is the box.
pub proof fn lemma_union_idempotent(a: AxisAlignedBoundingBox)
    ensures
        aabb_union(a, a) == a,
{
}

/// Each operand is included in the union.
pub proof fn lemma_union_upper_bound(a: AxisAlignedBoundingBox, b: AxisAlignedBoundingBox)
    ensures
        aabb_incl(a, aabb_union(a, b)),
        aabb_incl(b, aabb_union(a, b)),
{
}

/// Inclusion is transitive.
pub proof fn lemma_incl_transitive(
    a: AxisAlignedBoundingBox,
    b: AxisAlignedBoundingBox,
    c: AxisAlignedBoundingBox,
)
    requires
        aabb_incl(a, b),
        aabb_incl(b, c),
    ensures
        aabb_incl(a, c),
{
}

} // verus!
