use vstd::prelude::*;
use crate::fx::{Fx, fx_add, fx_sub, fx_neg, fx_sqrt, lemma_isqrt, FX_ONE};
use crate::aabb::lemma_fx_div_mono;
use crate::hittable::{Hittable, HitRecord, spec_hit, sphere_hit_t, list_first_hit};
use crate::material::Material;
use crate::ray::Ray;
use crate::texture::Texture;
use crate::vec3::Vec3;

verus! {

/// The two quadratic roots a sphere test considers are ordered: the root
/// using the negative square-root branch never exceeds the other.
proof fn lemma_sphere_roots_ordered(center: Vec3, radius: Fx, r: Ray)
    requires
        crate::vec3::v3_sqrlen(r.direction)@ > 0,
    ensures
        ({
            let oc = crate::vec3::v3_sub(r.origin, center);
            let a = crate::vec3::v3_sqrlen(r.direction);
            let half_b = crate::vec3::v3_dot(oc, r.direction);
            let c = fx_sub(crate::vec3::v3_sqrlen(oc), crate::fx::fx_mul(radius, radius));
            let disc = fx_sub(crate::fx::fx_mul(half_b, half_b), crate::fx::fx_mul(a, c));
            let sqrtd = fx_sqrt(disc);
            crate::fx::fx_div(fx_sub(fx_neg(half_b), sqrtd), a)@ <= crate::fx::fx_div(
                fx_add(fx_neg(half_b), sqrtd),
                a,
            )@
        }),
{
    reveal(sphere_hit_t);
    let oc = crate::vec3::v3_sub(r.origin, center);
    let a = crate::vec3::v3_sqrlen(r.direction);
    let half_b = crate::vec3::v3_dot(oc, r.direction);
    let c = fx_sub(crate::vec3::v3_sqrlen(oc), crate::fx::fx_mul(radius, radius));
    let disc = fx_sub(crate::fx::fx_mul(half_b, half_b), crate::fx::fx_mul(a, c));
    let sqrtd = fx_sqrt(disc);
    if disc@ >= 0 {
        assert(disc@ * FX_ONE as int >= 0) by (nonlinear_arith)
            requires
                disc@ >= 0,
        {}
        lemma_isqrt(disc@ * FX_ONE as int);
    } else {
        assert(disc@ * (FX_ONE as int) < 0) by (nonlinear_arith)
            requires
                disc@ < 0,
        {}
    }
    assert(sqrtd@ >= 0);
    lemma_fx_div_mono(fx_sub(fx_neg(half_b), sqrtd), fx_add(fx_neg(half_b), sqrtd), a);
}

/// Narrowing the far end of the query interval down to (at least) the hit
/// keeps a sphere hit unchanged.
proof fn lemma_sphere_narrow_some(center: Vec3, radius: Fx, r: Ray, tmin: Fx, tmax: Fx, tc: Fx, t: Fx)
    requires
        sphere_hit_t(center, radius, r, tmin, tmax) == Some(t),
        t@ <= tc@ <= tmax@,
    ensures
        sphere_hit_t(center, radius, r, tmin, tc) == Some(t),
{
    reveal(sphere_hit_t);
}

/// Narrowing the far end of the query interval strictly below the hit
/// makes a sphere miss.
proof fn lemma_sphere_narrow_none(center: Vec3, radius: Fx, r: Ray, tmin: Fx, tmax: Fx, tc: Fx, t: Fx)
    requires
        sphere_hit_t(center, radius, r, tmin, tmax) == Some(t),
        tc@ < t@,
        tc@ <= tmax@,
    ensures
        sphere_hit_t(center, radius, r, tmin, tc) is None,
{
    reveal(sphere_hit_t);
    lemma_sphere_roots_ordered(center, radius, r);
}

/// A sphere hit, narrowed to an interval still containing it, is kept.
proof fn lemma_spec_hit_sphere_narrow_some(
    s: Hittable,
    r: Ray,
    tmin: Fx,
    tmax: Fx,
    tc: Fx,
    h: HitRecord,
    m: Material,
)
    requires
        s is Sphere,
        spec_hit(s, r, tmin, tmax) == Some((h, m)),
        h.t@ <= tc@ <= tmax@,
    ensures
        spec_hit(s, r, tmin, tc) == Some((h, m)),
{
    reveal(spec_hit);
    reveal(sphere_hit_t);
    let c = s->Sphere_0.center;
    let rad = s->Sphere_0.radius;
    let t = sphere_hit_t(c, rad, r, tmin, tmax)->Some_0;
    crate::hittable::lemma_sphere_record_t(c, rad, r, t);
    lemma_sphere_narrow_some(c, rad, r, tmin, tmax, tc, t);
}

/// A sphere hit vanishes when the interval is narrowed strictly below it.
proof fn lemma_spec_hit_sphere_narrow_none(
    s: Hittable,
    r: Ray,
    tmin: Fx,
    tmax: Fx,
    tc: Fx,
    h: HitRecord,
    m: Material,
)
    requires
        s is Sphere,
        spec_hit(s, r, tmin, tmax) == Some((h, m)),
        tc@ < h.t@,
        tc@ <= tmax@,
    ensures
        spec_hit(s, r, tmin, tc) is None,
{
    reveal(spec_hit);
    reveal(sphere_hit_t);
    let c = s->Sphere_0.center;
    let rad = s->Sphere_0.radius;
    let t = sphere_hit_t(c, rad, r, tmin, tmax)->Some_0;
    crate::hittable::lemma_sphere_record_t(c, rad, r, t);
    lemma_sphere_narrow_none(c, rad, r, tmin, tmax, tc, t);
}

/// First-hit-wins over a pair, written out over the two members' results.
#[verifier::rlimit(50)]
proof fn lemma_lfh_pair(x: Hittable, y: Hittable, r: Ray, tmin: Fx, tmax: Fx)
    ensures
        list_first_hit(seq![x, y], r, tmin, tmax) == ({
            let first = match spec_hit(x, r, tmin, tmax) {
                Some((c, m)) => if c.t@ < tmax@ {
                    Some((c, m))
                } else {
                    None
                },
                None => None,
            };
            let closest = match first {
                Some((c, _)) => c.t,
                None => tmax,
            };
            match spec_hit(y, r, tmin, closest) {
                Some((nc, nm)) => if nc.t@ < closest@ {
                    Some((nc, nm))
                } else {
                    first
                },
                None => first,
            }
        }),
{
    reveal(spec_hit);
    let e = Seq::<Hittable>::empty();
    assert(list_first_hit(e, r, tmin, tmax) is None);
    assert(seq![x].drop_last() =~= e);
    let first = match spec_hit(x, r, tmin, tmax) {
        Some((c, m)) => if c.t@ < tmax@ {
            Some((c, m))
        } else {
            None
        },
        None => None,
    };
    assert(list_first_hit(seq![x], r, tmin, tmax) == first);
    let p = seq![x, y];
    assert(p.drop_last() =~= seq![x]);
    assert(p.last() == y);
    let closest = match first {
        Some((c, _)) => c.t,
        None => tmax,
    };
    assert(list_first_hit(p, r, tmin, tmax) == (match spec_hit(y, r, tmin, closest) {
        Some((nc, nm)) => if nc.t@ < closest@ {
            Some((nc, nm))
        } else {
            first
        },
        None => first,
    }));
}

/// Occlusion: when two spheres both hit a ray and one hit is strictly
/// nearer, first-hit-wins search over the pair reports the nearer hit —
/// whichever order the pair is listed in.
#[verifier::rlimit(100)]
#[verifier::spinoff_prover]
pub proof fn lemma_nearer_sphere_occludes(
    s1: Hittable,
    s2: Hittable,
    r: Ray,
    tmin: Fx,
    tmax: Fx,
    h1: HitRecord,
    m1: Material,
    h2: HitRecord,
    m2: Material,
)
    requires
        s1 is Sphere,
        s2 is Sphere,
        spec_hit(s1, r, tmin, tmax) == Some((h1, m1)),
        spec_hit(s2, r, tmin, tmax) == Some((h2, m2)),
        h1.t@ < h2.t@,
        h1.t@ < tmax@,
    ensures
        list_first_hit(seq![s1, s2], r, tmin, tmax) == Some((h1, m1)),
        list_first_hit(seq![s2, s1], r, tmin, tmax) == Some((h1, m1)),
{
    lemma_lfh_pair(s1, s2, r, tmin, tmax);
    lemma_spec_hit_sphere_narrow_none(s2, r, tmin, tmax, h1.t, h2, m2);
    lemma_lfh_pair(s2, s1, r, tmin, tmax);
    if h2.t@ < tmax@ {
        lemma_spec_hit_sphere_narrow_some(s1, r, tmin, tmax, h2.t, h1, m1);
    }
}

/// An empty scene never reports a hit, so the integrator's contract makes
/// it return the background color for every ray.
pub proof fn lemma_empty_scene_misses(r: Ray, tmin: Fx, tmax: Fx)
    ensures
        spec_hit(Hittable::Empty, r, tmin, tmax) is None,
{
    reveal(spec_hit);
}

/// A purely emissive surface of a constant color, seen on its front face,
/// contributes exactly that color: no attenuation path exists, so the
/// integrator's contract makes a ray that hits it return the emission
/// unchanged.
pub proof fn lemma_pure_light_emits_exactly(e: Vec3, hr: HitRecord)
    requires
        hr.front_face,
    ensures
        crate::material::spec_emit(Material::DiffuseLight(Texture::Solid(e)), hr) == e,
{
}

} // verus!
