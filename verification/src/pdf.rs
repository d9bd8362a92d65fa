use vstd::prelude::*;
use crate::fx::{Fx, fx_add, fx_mul, fx_div, fx, FX_ONE, PI_RAW};
use crate::hittable::{Hittable, spec_hittable_pdf, spec_aimed_at, no_medium};
use crate::rng::Lcg;
use crate::sample::{ONB, onb_local, spec_cosine_lifted};
use crate::vec3::{Vec3, v3_dot, v3_sqrlen, v3_unit};

verus! {

broadcast use vstd::std_specs::vec::group_vec_axioms;

/// The raw fixed-point density of the uniform distribution over the whole
/// sphere of directions: one over four pi.
pub const UNIFORM_SPHERE_DENSITY_RAW: i64 = 5215;

/// A sampleable distribution over directions, together with its density:
/// the cosine-weighted hemisphere around a basis, the uniform sphere, a
/// direction cone aimed at a primitive, or a uniform mixture of several
/// distributions.
pub enum PDF<'a> {
    /// Cosine-weighted directions around the third axis of a basis.
    Cosine(ONB),
    /// Uniform over the whole sphere of directions, as an isotropic medium
    /// scatters.
    UniformSphere,
    /// A uniform mixture: sampling picks one member at random, the density
    /// is the average of the members' densities.
    Mixture(Vec<PDF<'a>>),
    /// Directions aimed at a primitive from an origin point.
    Hittable(&'a Hittable, Vec3),
}

/// The cosine-hemisphere density of a direction: the cosine of its angle
/// to the basis axis over pi, zero below the horizon.
pub open spec fn spec_cosine_density(uvw: ONB, direction: Vec3) -> Fx {
    let cosine = v3_dot(v3_unit(direction), uvw.w_axis);
    if cosine@ <= 0 {
        Fx { raw: 0 }
    } else {
        fx_div(cosine, Fx { raw: PI_RAW })
    }
}

/// Whether every primitive a distribution aims at is free of media, so its
/// density is a pure function.
pub open spec fn pdf_pure(p: PDF) -> bool
    decreases p,
{
    match p {
        PDF::Cosine(_) => true,
        PDF::UniformSphere => true,
        PDF::Mixture(ps) => forall|i: int| 0 <= i < ps@.len() ==> pdf_pure(#[trigger] ps@[i]),
        PDF::Hittable(h, _) => no_medium(*h),
    }
}

/// The density of a distribution at a direction.
pub open spec fn spec_pdf_density(p: PDF, direction: Vec3) -> Fx
    decreases p, 1int,
{
    match p {
        PDF::Cosine(uvw) => spec_cosine_density(uvw, direction),
        PDF::UniformSphere => Fx { raw: UNIFORM_SPHERE_DENSITY_RAW },
        PDF::Mixture(ps) => spec_mixture_density(
            ps@,
            direction,
            fx_div(Fx { raw: FX_ONE }, fx(ps@.len() as int * 65536)),
        ),
        PDF::Hittable(h, origin) => spec_hittable_pdf(*h, origin, direction),
    }
}

/// The members' densities, each weighted by `w` and summed.
pub open spec fn spec_mixture_density(s: Seq<PDF>, direction: Vec3, w: Fx) -> Fx
    decreases s, 2int,
{
    if s.len() == 0 {
        Fx { raw: 0 }
    } else {
        fx_add(
            spec_mixture_density(s.drop_last(), direction, w),
            fx_mul(w, spec_pdf_density(s.last(), direction)),
        )
    }
}

impl<'a> PDF<'a> {
    /// The density with which `generate` samples the given direction;
    /// mirrors `spec_pdf_density` when no medium is involved.
    #[verifier::loop_isolation(false)]
    pub fn value(&self, direction: &Vec3, rng: &mut Lcg) -> (res: Fx)
        ensures
            pdf_pure(*self) ==> ({
                &&& final(rng).state == old(rng).state
                &&& res == spec_pdf_density(*self, *direction)
            }),
        decreases *self,
    {
        match self {
            PDF::Cosine(uvw) => {
                let cosine = direction.normalize().dot(uvw.w());
                if cosine.raw <= 0 {
                    Fx { raw: 0 }
                } else {
                    cosine.div(Fx { raw: PI_RAW })
                }
            },
            PDF::UniformSphere => Fx { raw: UNIFORM_SPHERE_DENSITY_RAW },
            PDF::Mixture(ps) => {
                let ghost sq = ps@;
                if ps.len() == 0 {
                    return Fx { raw: 0 };
                }
                let w = Fx { raw: FX_ONE }.div(Fx::from_count(ps.len()));
                let mut acc = Fx { raw: 0 };
                let mut idx: usize = 0;
                while idx < ps.len()
                    invariant
                        idx <= sq.len(),
                        pdf_pure(*self) ==> ({
                            &&& rng.state == old(rng).state
                            &&& acc == spec_mixture_density(sq.subrange(0, idx as int), *direction, w)
                        }),
                    decreases sq.len() - idx,
                {
                    let v = ps[idx].value(direction, rng);
                    proof {
                        let sp = sq.subrange(0, idx as int + 1);
                        assert(sp.last() == sq[idx as int]);
                        assert(sp.drop_last() =~= sq.subrange(0, idx as int));
                    }
                    acc = acc.add(w.mul(v));
                    idx = idx + 1;
                }
                proof {
                    assert(sq.subrange(0, sq.len() as int) =~= sq);
                }
                acc
            },
            PDF::Hittable(h, origin) => h.pdf_value(origin, direction, rng),
        }
    }

    /// A direction sampled from this distribution: a lifted disk point
    /// through the basis for the cosine distribution, a fresh unit vector
    /// for the uniform sphere, the sample of a uniformly chosen member for
    /// a mixture (by the next state of the generator; a fixed axis for an
    /// empty mixture), and a direction aimed at the target primitive.
    pub fn generate(&self, rng: &mut Lcg) -> (res: Vec3)
        ensures
            spec_generated(*self, res),
            (match *self {
                PDF::Mixture(ps) => ps@.len() > 0 ==> spec_generated(
                    ps@[crate::rng::lcg_next(old(rng).state) as int % ps@.len() as int],
                    res,
                ),
                _ => true,
            }),
        decreases *self,
    {
        match self {
            PDF::Cosine(uvw) => {
                let local = Vec3::random_cosine_direction(rng);
                uvw.local(&local)
            },
            PDF::UniformSphere => Vec3::random_unit_vector(rng),
            PDF::Mixture(ps) => {
                if ps.len() == 0 {
                    Vec3 { x: Fx { raw: FX_ONE }, y: Fx { raw: 0 }, z: Fx { raw: 0 } }
                } else {
                    let idx = rng.next_index(ps.len());
                    ps[idx].generate(rng)
                }
            },
            PDF::Hittable(h, origin) => h.random(origin, rng),
        }
    }
}

/// What `generate` can return for a distribution: the shape of the sample,
/// with the randomness existentially quantified.
pub open spec fn spec_generated(p: PDF, res: Vec3) -> bool
    decreases p, 3int,
{
    match p {
        PDF::Cosine(uvw) => exists|d: Vec3| #[trigger] spec_cosine_lifted(d) && d.z@ >= 0 && res
            == onb_local(uvw, d),
        PDF::UniformSphere => exists|q: Vec3|
            v3_sqrlen(q)@ < FX_ONE as int && res == #[trigger] v3_unit(q),
        PDF::Mixture(ps) => if ps@.len() == 0 {
            res == (Vec3 { x: Fx { raw: FX_ONE }, y: Fx { raw: 0 }, z: Fx { raw: 0 } })
        } else {
            exists|i: int| 0 <= i < ps@.len() && spec_generated(#[trigger] ps@[i], res)
        },
        PDF::Hittable(h, origin) => spec_aimed_at(*h, origin, res),
    }
}

} // verus!
