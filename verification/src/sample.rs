use vstd::prelude::*;
use crate::fx::{Fx, fx_add, fx_sub, fx_mul, fx_div, fx_sqrt, fx_min, fx_max, FX_ONE};
use crate::rng::Lcg;
use crate::vec3::{Vec3, v3_sqrlen, v3_len, v3_add, v3_scale, v3_div, v3_cross, v3_unit};

verus! {

/// Tries before rejection sampling falls back to a fixed value; the chance
/// of exhausting them is astronomically small.
pub const SAMPLE_TRIES: u64 = 64;

/// A point of the unit disk lifted onto the unit hemisphere: the z
/// coordinate completes the squared length to one.
pub open spec fn cosine_lift_of(p: Vec3) -> Vec3 {
    Vec3 {
        x: p.x,
        y: p.y,
        z: fx_sqrt(fx_max(fx_sub(Fx { raw: FX_ONE }, v3_sqrlen(p)), Fx { raw: 0 })),
    }
}

/// Whether a vector is some unit-disk point lifted onto the hemisphere —
/// the shape of every cosine-weighted sample.
pub open spec fn spec_cosine_lifted(d: Vec3) -> bool {
    exists|p: Vec3|
        v3_sqrlen(p)@ < FX_ONE as int && p.z@ == 0 && d == #[trigger] cosine_lift_of(p)
}

/// The direction built from one cone sample toward a sphere of the given
/// radius at the given squared distance: `u` picks the height between the
/// cone cosine and one, a unit-disk point `d` picks the azimuth (a fixed
/// azimuth when it is degenerate).
pub open spec fn cone_sample_of(radius: Fx, distance_squared: Fx, u: Fx, d: Vec3) -> Vec3 {
    let one = Fx { raw: FX_ONE };
    let ratio = fx_div(fx_mul(radius, radius), distance_squared);
    let cos_max = fx_min(fx_sqrt(fx_max(fx_sub(one, ratio), Fx { raw: 0 })), one);
    let z = fx_min(fx_add(cos_max, fx_mul(u, fx_sub(one, cos_max))), one);
    let zsin = fx_sqrt(fx_max(fx_sub(one, fx_mul(z, z)), Fx { raw: 0 }));
    if v3_len(d)@ == 0 {
        Vec3 { x: zsin, y: Fx { raw: 0 }, z }
    } else {
        let sc = v3_scale(v3_div(d, v3_len(d)), zsin);
        Vec3 { x: sc.x, y: sc.y, z }
    }
}

/// Whether a vector is some cone sample toward the given sphere — the
/// shape of every sample aimed at it.
pub open spec fn spec_cone_sample(radius: Fx, distance_squared: Fx, res: Vec3) -> bool {
    exists|u: Fx, d: Vec3|
        0 <= u@ < FX_ONE as int && v3_sqrlen(d)@ < FX_ONE as int && d.z@ == 0 && res
            == #[trigger] cone_sample_of(radius, distance_squared, u, d)
}

impl Vec3 {
    /// A vector with three fresh components in [0, 1).
    pub fn random_vector(rng: &mut Lcg) -> (r: Vec3)
        ensures
            0 <= r.x@ < FX_ONE as int,
            0 <= r.y@ < FX_ONE as int,
            0 <= r.z@ < FX_ONE as int,
    {
        let x = rng.next_unit();
        let y = rng.next_unit();
        let z = rng.next_unit();
        Vec3 { x, y, z }
    }

    /// A point strictly inside the unit sphere, by rejection sampling from
    /// the cube; after too many rejections, the center.
    pub fn random_in_unit_sphere(rng: &mut Lcg) -> (r: Vec3)
        ensures
            v3_sqrlen(r)@ < FX_ONE as int,
    {
        let mut tries: u64 = 0;
        while tries < SAMPLE_TRIES
            decreases SAMPLE_TRIES - tries,
        {
            let p = Vec3 { x: rng.next_sym(), y: rng.next_sym(), z: rng.next_sym() };
            if p.sqrlen().raw < FX_ONE {
                return p;
            }
            tries = tries + 1;
        }
        proof {
            crate::fx::lemma_mul_self_nonneg(Fx { raw: 0 });
        }
        Vec3::zero()
    }

    /// A unit-length vector in a fresh direction.
    pub fn random_unit_vector(rng: &mut Lcg) -> (r: Vec3)
        ensures
            exists|p: Vec3| v3_sqrlen(p)@ < FX_ONE as int && r == v3_unit(p),
    {
        let p = Self::random_in_unit_sphere(rng);
        let u = p.normalize();
        proof {
            assert(v3_sqrlen(p)@ < FX_ONE as int && u == v3_unit(p));
        }
        u
    }

    /// A point strictly inside the unit disk of the xy plane.
    pub fn random_in_unit_disk(rng: &mut Lcg) -> (r: Vec3)
        ensures
            v3_sqrlen(r)@ < FX_ONE as int,
            r.z@ == 0,
    {
        let mut tries: u64 = 0;
        while tries < SAMPLE_TRIES
            decreases SAMPLE_TRIES - tries,
        {
            let p = Vec3 { x: rng.next_sym(), y: rng.next_sym(), z: Fx { raw: 0 } };
            if p.sqrlen().raw < FX_ONE {
                return p;
            }
            tries = tries + 1;
        }
        proof {
            crate::fx::lemma_mul_self_nonneg(Fx { raw: 0 });
        }
        Vec3::zero()
    }

    /// A direction distributed with density proportional to the cosine of
    /// the angle to the z axis: a uniform disk point lifted onto the unit
    /// hemisphere.
    pub fn random_cosine_direction(rng: &mut Lcg) -> (r: Vec3)
        ensures
            spec_cosine_lifted(r),
            r.z@ >= 0,
    {
        let p = Self::random_in_unit_disk(rng);
        let one = Fx { raw: FX_ONE };
        let rest = one.sub(p.sqrlen()).max(Fx { raw: 0 });
        let z = rest.sqrt();
        proof {
            crate::fx::lemma_isqrt(rest@ * FX_ONE as int);
        }
        let r = Vec3 { x: p.x, y: p.y, z };
        proof {
            assert(r == cosine_lift_of(p));
        }
        r
    }

    /// A direction toward a sphere of the given radius whose center is at
    /// the given squared distance: uniform over the cone of directions that
    /// subtend the sphere — z drawn between the cone cosine and one, the
    /// azimuth from a fresh disk direction.
    pub fn random_to_sphere(radius: Fx, distance_squared: Fx, rng: &mut Lcg) -> (r: Vec3)
        requires
            distance_squared@ > 0,
        ensures
            spec_cone_sample(radius, distance_squared, r),
    {
        let one = Fx { raw: FX_ONE };
        let ratio = radius.mul(radius).div(distance_squared);
        let cos_max_sq = one.sub(ratio).max(Fx { raw: 0 });
        let cos_max = cos_max_sq.sqrt().min(one);
        proof {
            crate::fx::lemma_isqrt(cos_max_sq@ * FX_ONE as int);
        }
        let r2 = rng.next_unit();
        let z = cos_max.add(r2.mul(one.sub(cos_max))).min(one);
        let zsin_sq = one.sub(z.mul(z)).max(Fx { raw: 0 });
        let zsin = zsin_sq.sqrt();
        proof {
            crate::fx::lemma_isqrt(zsin_sq@ * FX_ONE as int);
        }
        let d = Self::random_in_unit_disk(rng);
        let dlen = d.length();
        let r = if dlen.raw == 0 {
            Vec3 { x: zsin, y: Fx { raw: 0 }, z }
        } else {
            let scaled = d.div(dlen).scale(zsin);
            Vec3 { x: scaled.x, y: scaled.y, z }
        };
        proof {
            assert(r == cone_sample_of(radius, distance_squared, r2, d));
        }
        r
    }
}

/// An orthonormal basis aligned so that its third axis points along a given
/// vector; maps locally sampled directions into world space.
#[derive(Clone, Copy, PartialEq, Eq, Structural, Debug)]
pub struct ONB {
    pub u_axis: Vec3,
    pub v_axis: Vec3,
    pub w_axis: Vec3,
}

/// The basis built from an up vector: the normalized vector becomes the
/// third axis, and two perpendicular axes come from cross products with a
/// helper axis picked away from it.
pub open spec fn onb_from_w(w: Vec3) -> ONB {
    let wn = v3_unit(w);
    let a = if crate::fx::fx_abs(wn.x)@ > 58982 {
        Vec3 { x: Fx { raw: 0 }, y: Fx { raw: FX_ONE }, z: Fx { raw: 0 } }
    } else {
        Vec3 { x: Fx { raw: FX_ONE }, y: Fx { raw: 0 }, z: Fx { raw: 0 } }
    };
    let v = v3_unit(v3_cross(wn, a));
    let u = v3_cross(wn, v);
    ONB { u_axis: u, v_axis: v, w_axis: wn }
}

/// A local coordinate triple mapped through the basis into world space.
pub open spec fn onb_local(o: ONB, a: Vec3) -> Vec3 {
    v3_add(v3_add(v3_scale(o.u_axis, a.x), v3_scale(o.v_axis, a.y)), v3_scale(o.w_axis, a.z))
}

impl ONB {
    /// The basis whose third axis points along `w`.
    pub fn from_w(w: &Vec3) -> (r: ONB)
        ensures
            r == onb_from_w(*w),
    {
        let wn = w.normalize();
        let a = if wn.x.abs().raw > 58982 {
            Vec3 { x: Fx { raw: 0 }, y: Fx { raw: FX_ONE }, z: Fx { raw: 0 } }
        } else {
            Vec3 { x: Fx { raw: FX_ONE }, y: Fx { raw: 0 }, z: Fx { raw: 0 } }
        };
        let v = wn.cross(a).normalize();
        let u = wn.cross(v);
        ONB { u_axis: u, v_axis: v, w_axis: wn }
    }

    /// Map a local coordinate triple into world space.
    pub fn local(&self, a: &Vec3) -> (r: Vec3)
        ensures
            r == onb_local(*self, *a),
    {
        self.u_axis.scale(a.x).add(self.v_axis.scale(a.y)).add(self.w_axis.scale(a.z))
    }

    /// The first axis.
    pub fn u(&self) -> (r: Vec3)
        ensures
            r == self.u_axis,
    {
        self.u_axis
    }

    /// The second axis.
    pub fn v(&self) -> (r: Vec3)
        ensures
            r == self.v_axis,
    {
        self.v_axis
    }

    /// The third axis, along the vector the basis was built from.
    pub fn w(&self) -> (r: Vec3)
        ensures
            r == self.w_axis,
    {
        self.w_axis
    }
}

} // verus!
