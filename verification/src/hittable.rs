use vstd::prelude::*;
use crate::aabb::{AxisAlignedBoundingBox, aabb_union, aabb_hit, aabb_contains_t};
use crate::fx::{Fx, fx_add, fx_sub, fx_neg, fx_mul, fx_div, fx_abs, fx_min, fx_max, fx_sqrt, FX_ONE};
use crate::material::Material;
use crate::quat::{Quat, q_rotate, q_invert};
use crate::ray::{Ray, ray_at};
use crate::rng::Lcg;
use crate::sample::{onb_from_w, onb_local, spec_cone_sample};
use crate::uv::{get_sphere_uv, spec_sphere_uv};
use crate::vec3::{Vec2, Vec3, v3_add, v3_sub, v3_neg, v3_scale, v3_div, v3_dot, v3_sqrlen};

verus! {

broadcast use vstd::std_specs::vec::group_vec_axioms;

/// Raw epsilon separating the two boundary probes of a medium.
pub const MEDIUM_EPS_RAW: i64 = 7;

/// One intersection: the point, the normal oriented against the incoming
/// ray, the ray parameter, the surface coordinates, and whether the
/// geometric normal already pointed against the ray.
#[derive(Clone, Copy, PartialEq, Eq, Structural, Debug)]
pub struct HitRecord {
    pub p: Vec3,
    pub normal: Vec3,
    pub t: Fx,
    pub uv: Vec2,
    pub front_face: bool,
}

/// The record built from an outward normal: the stored normal is flipped
/// onto the side the ray came from, and the flip is remembered.
pub open spec fn hr_new(r: Ray, p: Vec3, t: Fx, uv: Vec2, outward_normal: Vec3) -> HitRecord {
    let front_face = v3_dot(r.direction, outward_normal)@ < 0;
    HitRecord {
        p,
        normal: if front_face {
            outward_normal
        } else {
            v3_neg(outward_normal)
        },
        t,
        uv,
        front_face,
    }
}

impl HitRecord {
    /// Build a record from an outward normal; mirrors `hr_new`.
    pub fn new(r: &Ray, p: Vec3, t: Fx, uv: Vec2, outward_normal: Vec3) -> (rec: Self)
        ensures
            rec == hr_new(*r, p, t, uv, outward_normal),
    {
        let front_face = r.direction.dot(outward_normal).is_neg();
        HitRecord {
            p,
            t,
            uv,
            front_face,
            normal: if front_face {
                outward_normal
            } else {
                outward_normal.neg()
            },
        }
    }
}

/// An axis-aligned box primitive.
#[derive(Debug)]
pub struct Cube {
    pub p0: Vec3,
    pub p1: Vec3,
    pub material: Material,
}

/// A sphere primitive.
#[derive(Debug)]
pub struct Sphere {
    pub center: Vec3,
    pub radius: Fx,
    pub material: Material,
}

/// A sphere whose center moves linearly between two times.
#[derive(Debug)]
pub struct MovingSphere {
    pub center_start: Vec3,
    pub center_end: Vec3,
    pub time_start: Fx,
    pub time_end: Fx,
    pub radius: Fx,
    pub material: Material,
}

/// A participating medium filling a boundary shape: rays scatter inside it
/// at an exponentially sampled free-flight distance.
#[derive(Debug)]
pub struct ConstantMedium {
    pub boundary: Box<Hittable>,
    pub neg_inv_density: Fx,
    pub material: Material,
}

/// A primitive shifted by an offset.
#[derive(Debug)]
pub struct Translate {
    pub hittable: Box<Hittable>,
    pub offset: Vec3,
}

/// A primitive rotated by a quaternion: rays are re-expressed in the
/// child's frame and results mapped back.
#[derive(Debug)]
pub struct Rotate {
    pub hittable: Box<Hittable>,
    pub rotation: Quat,
}

/// An inner node of the bounding-volume hierarchy, with its cached box.
#[derive(Debug)]
pub struct BvhNode {
    pub left: Box<Hittable>,
    pub right: Box<Hittable>,
    pub bounding_box: AxisAlignedBoundingBox,
}

/// Anything a ray can be tested against: the closed set of primitives,
/// the two spatial wrappers, and the two aggregates.
#[derive(Debug)]
pub enum Hittable {
    Cube(Cube),
    Sphere(Sphere),
    MovingSphere(MovingSphere),
    ConstantMedium(ConstantMedium),
    Translate(Translate),
    Rotate(Rotate),
    List(Vec<Hittable>),
    Bvh(BvhNode),
    Empty,
}

/// The center of a moving sphere at a time: linear interpolation between
/// the two endpoint centers; the start center for a degenerate time range.
/// Opaque: the executable mirror is its only direct reader.
#[verifier::opaque]
pub open spec fn ms_center(ms: MovingSphere, time: Fx) -> Vec3 {
    let s = fx_div(fx_sub(time, ms.time_start), fx_sub(ms.time_end, ms.time_start));
    v3_add(ms.center_start, v3_scale(v3_sub(ms.center_end, ms.center_start), s))
}

/// The componentwise minimum of two vectors.
pub open spec fn v3_cmin(a: Vec3, b: Vec3) -> Vec3 {
    Vec3 { x: fx_min(a.x, b.x), y: fx_min(a.y, b.y), z: fx_min(a.z, b.z) }
}

/// The componentwise maximum of two vectors.
pub open spec fn v3_cmax(a: Vec3, b: Vec3) -> Vec3 {
    Vec3 { x: fx_max(a.x, b.x), y: fx_max(a.y, b.y), z: fx_max(a.z, b.z) }
}

/// The box around a box rotated by the inverse of `q`: all eight corners
/// are rotated and enclosed. Rays are rotated by `q` before hitting the
/// child, so the child appears in world space rotated by the inverse.
pub open spec fn rotate_box(b: AxisAlignedBoundingBox, q: Quat) -> AxisAlignedBoundingBox {
    let qi = q_invert(q);
    let c0 = q_rotate(Vec3 { x: b.minimum.x, y: b.minimum.y, z: b.minimum.z }, qi);
    let c1 = q_rotate(Vec3 { x: b.minimum.x, y: b.minimum.y, z: b.maximum.z }, qi);
    let c2 = q_rotate(Vec3 { x: b.minimum.x, y: b.maximum.y, z: b.minimum.z }, qi);
    let c3 = q_rotate(Vec3 { x: b.minimum.x, y: b.maximum.y, z: b.maximum.z }, qi);
    let c4 = q_rotate(Vec3 { x: b.maximum.x, y: b.minimum.y, z: b.minimum.z }, qi);
    let c5 = q_rotate(Vec3 { x: b.maximum.x, y: b.minimum.y, z: b.maximum.z }, qi);
    let c6 = q_rotate(Vec3 { x: b.maximum.x, y: b.maximum.y, z: b.minimum.z }, qi);
    let c7 = q_rotate(Vec3 { x: b.maximum.x, y: b.maximum.y, z: b.maximum.z }, qi);
    AxisAlignedBoundingBox {
        minimum: v3_cmin(
            v3_cmin(v3_cmin(c0, c1), v3_cmin(c2, c3)),
            v3_cmin(v3_cmin(c4, c5), v3_cmin(c6, c7)),
        ),
        maximum: v3_cmax(
            v3_cmax(v3_cmax(c0, c1), v3_cmax(c2, c3)),
            v3_cmax(v3_cmax(c4, c5), v3_cmax(c6, c7)),
        ),
    }
}

/// The bounding box of the members of a list, folded in order: `None` as
/// soon as any member has none.
pub open spec fn sbb_list(s: Seq<Hittable>, t0: Fx, t1: Fx) -> Option<AxisAlignedBoundingBox>
    decreases s,
{
    if s.len() == 0 {
        None
    } else if s.len() == 1 {
        sbb(s[0], t0, t1)
    } else {
        match (sbb_list(s.drop_last(), t0, t1), sbb(s.last(), t0, t1)) {
            (Some(a), Some(b)) => Some(aabb_union(a, b)),
            _ => None,
        }
    }
}

/// The bounding box of a primitive over a time interval, or `None` where
/// none exists (the empty primitive, or a list containing it). Opaque:
/// proofs that need the one-step unfolding reveal it.
#[verifier::opaque]
pub open spec fn sbb(h: Hittable, t0: Fx, t1: Fx) -> Option<AxisAlignedBoundingBox>
    decreases h,
{
    match h {
        Hittable::Cube(c) => Some(AxisAlignedBoundingBox { minimum: c.p0, maximum: c.p1 }),
        Hittable::Sphere(s) => {
            let rv = fx_abs(s.radius);
            let rvec = Vec3 { x: rv, y: rv, z: rv };
            Some(
                AxisAlignedBoundingBox {
                    minimum: v3_sub(s.center, rvec),
                    maximum: v3_add(s.center, rvec),
                },
            )
        },
        Hittable::MovingSphere(ms) => {
            let rv = fx_abs(ms.radius);
            let rvec = Vec3 { x: rv, y: rv, z: rv };
            let c0 = ms_center(ms, t0);
            let c1 = ms_center(ms, t1);
            Some(
                aabb_union(
                    AxisAlignedBoundingBox { minimum: v3_sub(c0, rvec), maximum: v3_add(c0, rvec) },
                    AxisAlignedBoundingBox { minimum: v3_sub(c1, rvec), maximum: v3_add(c1, rvec) },
                ),
            )
        },
        Hittable::ConstantMedium(m) => sbb(*m.boundary, t0, t1),
        Hittable::Translate(tr) => match sbb(*tr.hittable, t0, t1) {
            Some(b) => Some(
                AxisAlignedBoundingBox {
                    minimum: v3_add(b.minimum, tr.offset),
                    maximum: v3_add(b.maximum, tr.offset),
                },
            ),
            None => None,
        },
        Hittable::Rotate(ro) => match sbb(*ro.hittable, t0, t1) {
            Some(b) => Some(rotate_box(b, ro.rotation)),
            None => None,
        },
        Hittable::List(items) => sbb_list(items@, t0, t1),
        Hittable::Bvh(node) => Some(node.bounding_box),
        Hittable::Empty => None,
    }
}

/// Whether a tree is free of participating media, whose scattering is
/// stochastic; for such trees intersection is a pure function.
pub open spec fn no_medium(h: Hittable) -> bool
    decreases h,
{
    match h {
        Hittable::ConstantMedium(_) => false,
        Hittable::Translate(tr) => no_medium(*tr.hittable),
        Hittable::Rotate(ro) => no_medium(*ro.hittable),
        Hittable::List(items) => forall|i: int|
            0 <= i < items@.len() ==> no_medium(#[trigger] items@[i]),
        Hittable::Bvh(node) => no_medium(*node.left) && no_medium(*node.right),
        _ => true,
    }
}

/// The ray parameter at which a ray meets a sphere, if any: the smaller
/// root of the quadratic if it lies in the interval, else the larger, else
/// none. A ray with a zero direction or a sphere of zero radius never hits.
/// Opaque: proofs about the roots reveal it.
#[verifier::opaque]
pub open spec fn sphere_hit_t(center: Vec3, radius: Fx, r: Ray, tmin: Fx, tmax: Fx) -> Option<Fx> {
    let oc = v3_sub(r.origin, center);
    let a = v3_sqrlen(r.direction);
    if a@ <= 0 || radius@ == 0 {
        None
    } else {
        let half_b = v3_dot(oc, r.direction);
        let c = fx_sub(v3_sqrlen(oc), fx_mul(radius, radius));
        let disc = fx_sub(fx_mul(half_b, half_b), fx_mul(a, c));
        if disc@ < 0 {
            None
        } else {
            let sqrtd = fx_sqrt(disc);
            let root1 = fx_div(fx_sub(fx_neg(half_b), sqrtd), a);
            if tmin@ <= root1@ <= tmax@ {
                Some(root1)
            } else {
                let root2 = fx_div(fx_add(fx_neg(half_b), sqrtd), a);
                if tmin@ <= root2@ <= tmax@ {
                    Some(root2)
                } else {
                    None
                }
            }
        }
    }
}

/// The full record of a sphere hit at parameter `t`. Opaque: callers work
/// with the record value itself; `lemma_sphere_record_t` exposes the one
/// field interval reasoning needs.
#[verifier::opaque]
pub open spec fn sphere_record(center: Vec3, radius: Fx, r: Ray, t: Fx) -> HitRecord {
    let p = ray_at(r, t);
    let outward = v3_div(v3_sub(p, center), radius);
    hr_new(r, p, t, spec_sphere_uv(outward), outward)
}

/// One axis of the cube's slab walk: narrow the running interval, or
/// reject when it empties or when the ray runs parallel to the slab
/// outside it.
pub open spec fn cube_slab(p0: Fx, p1: Fx, o: Fx, d: Fx, acc: Option<(Fx, Fx)>) -> Option<
    (Fx, Fx),
> {
    match acc {
        None => None,
        Some((lo, hi)) => {
            if d@ == 0 {
                if o@ < p0@ || o@ > p1@ {
                    None
                } else {
                    acc
                }
            } else {
                let ta = fx_div(fx_sub(p0, o), d);
                let tb = fx_div(fx_sub(p1, o), d);
                let t0 = if d@ > 0 {
                    ta
                } else {
                    tb
                };
                let t1 = if d@ > 0 {
                    tb
                } else {
                    ta
                };
                let lo2 = fx_max(lo, t0);
                let hi2 = fx_min(hi, t1);
                if hi2@ <= lo2@ {
                    None
                } else {
                    Some((lo2, hi2))
                }
            }
        },
    }
}

/// Raw tolerance for deciding which cube face a hit point lies on.
pub const CUBE_FACE_EPS_RAW: i64 = 131;

/// Raw component of the normalized all-ones fallback normal.
pub const CUBE_FALLBACK_RAW: i64 = 37837;

/// The outward normal of a cube face, picked by which normalized
/// coordinate of the hit point is near 0 or 1; a fallback diagonal when
/// none is (a degenerate cube or a grazing hit).
pub open spec fn cube_normal(rel: Vec3, degenerate: bool) -> Vec3 {
    let eps = CUBE_FACE_EPS_RAW as int;
    let one = FX_ONE as int;
    if degenerate {
        Vec3 {
            x: Fx { raw: CUBE_FALLBACK_RAW },
            y: Fx { raw: CUBE_FALLBACK_RAW },
            z: Fx { raw: CUBE_FALLBACK_RAW },
        }
    } else if rel.x@ < eps {
        Vec3 { x: Fx { raw: FX_ONE }, y: Fx { raw: 0 }, z: Fx { raw: 0 } }
    } else if rel.x@ > one - eps {
        Vec3 { x: Fx { raw: (-65536) as i64 }, y: Fx { raw: 0 }, z: Fx { raw: 0 } }
    } else if rel.y@ < eps {
        Vec3 { x: Fx { raw: 0 }, y: Fx { raw: FX_ONE }, z: Fx { raw: 0 } }
    } else if rel.y@ > one - eps {
        Vec3 { x: Fx { raw: 0 }, y: Fx { raw: (-65536) as i64 }, z: Fx { raw: 0 } }
    } else if rel.z@ < eps {
        Vec3 { x: Fx { raw: 0 }, y: Fx { raw: 0 }, z: Fx { raw: FX_ONE } }
    } else if rel.z@ > one - eps {
        Vec3 { x: Fx { raw: 0 }, y: Fx { raw: 0 }, z: Fx { raw: (-65536) as i64 } }
    } else {
        Vec3 {
            x: Fx { raw: CUBE_FALLBACK_RAW },
            y: Fx { raw: CUBE_FALLBACK_RAW },
            z: Fx { raw: CUBE_FALLBACK_RAW },
        }
    }
}

/// The record of a cube hit, if the slab walk keeps a nonempty interval:
/// the entry parameter, the face normal, and face-plane surface
/// coordinates. Opaque: the executable mirror is its only direct reader.
#[verifier::opaque]
pub open spec fn cube_arm(p0: Vec3, p1: Vec3, r: Ray, tmin: Fx, tmax: Fx) -> Option<HitRecord> {
    let acc = cube_slab(
        p0.z,
        p1.z,
        r.origin.z,
        r.direction.z,
        cube_slab(
            p0.y,
            p1.y,
            r.origin.y,
            r.direction.y,
            cube_slab(p0.x, p1.x, r.origin.x, r.direction.x, Some((tmin, tmax))),
        ),
    );
    match acc {
        None => None,
        Some((lo, hi)) => {
            let t = lo;
            let p = ray_at(r, t);
            let dx = fx_sub(p1.x, p0.x);
            let dy = fx_sub(p1.y, p0.y);
            let dz = fx_sub(p1.z, p0.z);
            let degenerate = dx@ == 0 || dy@ == 0 || dz@ == 0;
            let rel = if degenerate {
                Vec3 { x: Fx { raw: 0 }, y: Fx { raw: 0 }, z: Fx { raw: 0 } }
            } else {
                Vec3 {
                    x: fx_div(fx_sub(p.x, p0.x), dx),
                    y: fx_div(fx_sub(p.y, p0.y), dy),
                    z: fx_div(fx_sub(p.z, p0.z), dz),
                }
            };
            let normal = cube_normal(rel, degenerate);
            let u = fx_add(
                fx_add(fx_mul(rel.x, fx_abs(normal.z)), fx_mul(rel.y, fx_abs(normal.x))),
                fx_mul(rel.x, fx_abs(normal.y)),
            );
            let v = fx_add(
                fx_add(fx_mul(rel.y, fx_abs(normal.z)), fx_mul(rel.z, fx_abs(normal.x))),
                fx_mul(rel.z, fx_abs(normal.y)),
            );
            Some(hr_new(r, p, t, Vec2 { x: u, y: v }, normal))
        },
    }
}

/// The intersection result of a tree and a ray over a parameter interval:
/// the same function the executable `hit` computes, stated over the spec
/// arithmetic. A hit is kept only if its parameter lies inside the tree's
/// bounding box (the same conservative filter the executable applies), so
/// hierarchy pruning can never change the answer. The flip side of the
/// filter: a quadratic root the sphere test places in range is still
/// dropped in the rare case that rounding puts its parameter outside the
/// sphere's box on the fixed-point grid, and a rotated tree commutes with
/// its child's search only up to the same filter on the rotated box. The
/// medium arm is left out: its result is stochastic, and the executable
/// contract covers it separately. Opaque: proofs that need the one-step
/// unfolding reveal it.
#[verifier::opaque]
pub open spec fn spec_hit(h: Hittable, r: Ray, tmin: Fx, tmax: Fx) -> Option<(HitRecord, Material)>
    decreases h, 2int,
{
    let inner = spec_hit_arms(h, r, tmin, tmax);
    match inner {
        None => None,
        Some((rec, m)) => match sbb(h, r.time, r.time) {
            Some(b) => if aabb_contains_t(b, r, rec.t) {
                inner
            } else {
                None
            },
            None => inner,
        },
    }
}

/// The hierarchy search: reject on the cached box, search the left child,
/// then the right child restricted to strictly closer parameters.
pub open spec fn bvh_arm(node: BvhNode, r: Ray, tmin: Fx, tmax: Fx) -> Option<
    (HitRecord, Material),
>
    decreases node, 0int,
{
    if !aabb_hit(node.bounding_box, r, tmin, tmax) {
        None
    } else {
        match spec_hit(*node.left, r, tmin, tmax) {
            Some((lrec, lm)) => match spec_hit(*node.right, r, tmin, lrec.t) {
                Some((rrec, rm)) => if rrec.t@ < lrec.t@ {
                    Some((rrec, rm))
                } else {
                    Some((lrec, lm))
                },
                None => Some((lrec, lm)),
            },
            None => spec_hit(*node.right, r, tmin, tmax),
        }
    }
}

/// The per-variant intersection logic, before the bounding-box filter.
pub open spec fn spec_hit_arms(h: Hittable, r: Ray, tmin: Fx, tmax: Fx) -> Option<
    (HitRecord, Material),
>
    decreases h, 1int,
{
    match h {
        Hittable::Cube(c) => match cube_arm(c.p0, c.p1, r, tmin, tmax) {
            Some(rec) => Some((rec, c.material)),
            None => None,
        },
        Hittable::Sphere(s) => match sphere_hit_t(s.center, s.radius, r, tmin, tmax) {
            Some(t) => Some((sphere_record(s.center, s.radius, r, t), s.material)),
            None => None,
        },
        Hittable::MovingSphere(ms) => {
            let center = ms_center(ms, r.time);
            match sphere_hit_t(center, ms.radius, r, tmin, tmax) {
                Some(t) => Some((sphere_record(center, ms.radius, r, t), ms.material)),
                None => None,
            }
        },
        Hittable::ConstantMedium(_) => None,
        Hittable::Translate(tr) => {
            let moved = Ray {
                origin: v3_sub(r.origin, tr.offset),
                direction: r.direction,
                time: r.time,
            };
            match spec_hit(*tr.hittable, moved, tmin, tmax) {
                Some((rec, m)) => Some((HitRecord { p: v3_add(rec.p, tr.offset), ..rec }, m)),
                None => None,
            }
        },
        Hittable::Rotate(ro) => {
            let rotated = Ray {
                origin: q_rotate(r.origin, ro.rotation),
                direction: q_rotate(r.direction, ro.rotation),
                time: r.time,
            };
            match spec_hit(*ro.hittable, rotated, tmin, tmax) {
                Some((rec, m)) => Some(
                    (HitRecord {
                        p: q_rotate(rec.p, q_invert(ro.rotation)),
                        normal: q_rotate(rec.normal, q_invert(ro.rotation)),
                        ..rec
                    }, m),
                ),
                None => None,
            }
        },
        Hittable::List(items) => list_first_hit(items@, r, tmin, tmax),
        Hittable::Bvh(node) => bvh_arm(node, r, tmin, tmax),
        Hittable::Empty => None,
    }
}

/// First-hit-wins fold over a sequence of primitives: each member is
/// queried with the interval capped at the best parameter so far, and
/// replaces the record only with a strictly smaller parameter.
pub open spec fn list_first_hit(s: Seq<Hittable>, r: Ray, tmin: Fx, tmax: Fx) -> Option<
    (HitRecord, Material),
>
    decreases s, 2int,
{
    if s.len() == 0 {
        None
    } else {
        let prev = list_first_hit(s.drop_last(), r, tmin, tmax);
        let closest = match prev {
            Some((pr, _)) => pr.t,
            None => tmax,
        };
        match spec_hit(s.last(), r, tmin, closest) {
            Some((nr, nm)) => if nr.t@ < closest@ {
                Some((nr, nm))
            } else {
                prev
            },
            None => prev,
        }
    }
}

} // verus!

verus! {

/// Folding one more member into the list bounding box.
proof fn lemma_sbb_list_step(s: Seq<Hittable>, i: int, t0: Fx, t1: Fx)
    requires
        0 <= i < s.len(),
    ensures
        sbb_list(s.subrange(0, i + 1), t0, t1) == (if i == 0 {
            sbb(s[0], t0, t1)
        } else {
            match (sbb_list(s.subrange(0, i), t0, t1), sbb(s[i], t0, t1)) {
                (Some(a), Some(b)) => Some(aabb_union(a, b)),
                _ => None,
            }
        }),
{
    reveal(sbb);
    let sp = s.subrange(0, i + 1);
    assert(sp.last() == s[i]);
    if i > 0 {
        assert(sp.drop_last() =~= s.subrange(0, i));
    }
}

/// A list whose prefix has no bounding box has none as a whole.
proof fn lemma_sbb_list_none(s: Seq<Hittable>, i: int, t0: Fx, t1: Fx)
    requires
        1 <= i <= s.len(),
        sbb_list(s.subrange(0, i), t0, t1) is None,
    ensures
        sbb_list(s, t0, t1) is None,
    decreases s.len() - i,
{
    reveal(sbb);
    if i == s.len() {
        assert(s.subrange(0, i) =~= s);
    } else {
        lemma_sbb_list_step(s, i, t0, t1);
        lemma_sbb_list_none(s, i + 1, t0, t1);
    }
}

/// Folding one more member into the first-hit search.
proof fn lemma_lfh_step(s: Seq<Hittable>, i: int, r: Ray, tmin: Fx, tmax: Fx)
    requires
        0 <= i < s.len(),
    ensures
        list_first_hit(s.subrange(0, i + 1), r, tmin, tmax) == ({
            let prev = list_first_hit(s.subrange(0, i), r, tmin, tmax);
            let closest = match prev {
                Some((pr, _)) => pr.t,
                None => tmax,
            };
            match spec_hit(s[i], r, tmin, closest) {
                Some((nr, nm)) => if nr.t@ < closest@ {
                    Some((nr, nm))
                } else {
                    prev
                },
                None => prev,
            }
        }),
{
    reveal(spec_hit);
    let sp = s.subrange(0, i + 1);
    assert(sp.last() == s[i]);
    assert(sp.drop_last() =~= s.subrange(0, i));
}

/// The exec componentwise vector minimum; mirrors `v3_cmin`.
fn v3_cmin_exec(a: Vec3, b: Vec3) -> (r: Vec3)
    ensures
        r == v3_cmin(a, b),
{
    Vec3 { x: a.x.min(b.x), y: a.y.min(b.y), z: a.z.min(b.z) }
}

/// The exec componentwise vector maximum; mirrors `v3_cmax`.
fn v3_cmax_exec(a: Vec3, b: Vec3) -> (r: Vec3)
    ensures
        r == v3_cmax(a, b),
{
    Vec3 { x: a.x.max(b.x), y: a.y.max(b.y), z: a.z.max(b.z) }
}

/// The exec rotated bounding box; mirrors `rotate_box`.
fn rotate_box_exec(b: &AxisAlignedBoundingBox, q: &Quat) -> (r: AxisAlignedBoundingBox)
    ensures
        r == rotate_box(*b, *q),
{
    let qi = q.invert();
    let c0 = Vec3 { x: b.minimum.x, y: b.minimum.y, z: b.minimum.z }.rotate(&qi);
    let c1 = Vec3 { x: b.minimum.x, y: b.minimum.y, z: b.maximum.z }.rotate(&qi);
    let c2 = Vec3 { x: b.minimum.x, y: b.maximum.y, z: b.minimum.z }.rotate(&qi);
    let c3 = Vec3 { x: b.minimum.x, y: b.maximum.y, z: b.maximum.z }.rotate(&qi);
    let c4 = Vec3 { x: b.maximum.x, y: b.minimum.y, z: b.minimum.z }.rotate(&qi);
    let c5 = Vec3 { x: b.maximum.x, y: b.minimum.y, z: b.maximum.z }.rotate(&qi);
    let c6 = Vec3 { x: b.maximum.x, y: b.maximum.y, z: b.minimum.z }.rotate(&qi);
    let c7 = Vec3 { x: b.maximum.x, y: b.maximum.y, z: b.maximum.z }.rotate(&qi);
    AxisAlignedBoundingBox {
        minimum: v3_cmin_exec(
            v3_cmin_exec(v3_cmin_exec(c0, c1), v3_cmin_exec(c2, c3)),
            v3_cmin_exec(v3_cmin_exec(c4, c5), v3_cmin_exec(c6, c7)),
        ),
        maximum: v3_cmax_exec(
            v3_cmax_exec(v3_cmax_exec(c0, c1), v3_cmax_exec(c2, c3)),
            v3_cmax_exec(v3_cmax_exec(c4, c5), v3_cmax_exec(c6, c7)),
        ),
    }
}

impl MovingSphere {
    /// The interpolated center at a time; mirrors `ms_center`.
    pub fn center(&self, time: Fx) -> (r: Vec3)
        ensures
            r == ms_center(*self, time),
    {
        proof {
            reveal(ms_center);
        }
        let denom = self.time_end.sub(self.time_start);
        let s = if denom.raw == 0 {
            Fx { raw: 0 }
        } else {
            time.sub(self.time_start).div(denom)
        };
        self.center_start.add(self.center_end.sub(self.center_start).scale(s))
    }
}

/// The exec quadratic root search for a sphere; mirrors `sphere_hit_t`.
fn sphere_hit_exec(center: Vec3, radius: Fx, r: &Ray, tmin: Fx, tmax: Fx) -> (res: Option<Fx>)
    ensures
        res == sphere_hit_t(center, radius, *r, tmin, tmax),
        res matches Some(t) ==> tmin@ <= t@ <= tmax@ && radius@ != 0,
{
    proof {
        reveal(sphere_hit_t);
    }
    let oc = r.origin.sub(center);
    let a = r.direction.sqrlen();
    if a.raw <= 0 || radius.raw == 0 {
        return None;
    }
    let half_b = oc.dot(r.direction);
    let c = oc.sqrlen().sub(radius.mul(radius));
    let disc = half_b.mul(half_b).sub(a.mul(c));
    if disc.raw < 0 {
        return None;
    }
    let sqrtd = disc.sqrt();
    let root1 = half_b.neg().sub(sqrtd).div(a);
    if tmin.raw <= root1.raw && root1.raw <= tmax.raw {
        return Some(root1);
    }
    let root2 = half_b.neg().add(sqrtd).div(a);
    if tmin.raw <= root2.raw && root2.raw <= tmax.raw {
        return Some(root2);
    }
    None
}

/// A sphere record carries exactly the root it was built at.
pub proof fn lemma_sphere_record_t(center: Vec3, radius: Fx, r: Ray, t: Fx)
    ensures
        sphere_record(center, radius, r, t).t == t,
{
    reveal(sphere_record);
}

/// The exec full sphere record at a root; mirrors `sphere_record`.
fn sphere_record_exec(center: Vec3, radius: Fx, r: &Ray, t: Fx) -> (rec: HitRecord)
    requires
        radius@ != 0,
    ensures
        rec == sphere_record(center, radius, *r, t),
{
    proof {
        reveal(sphere_record);
    }
    let p = r.at(t);
    let outward = p.sub(center).div(radius);
    let uv = get_sphere_uv(&outward);
    HitRecord::new(r, p, t, uv, outward)
}

/// One exec axis of the cube slab walk; mirrors `cube_slab`.
fn cube_slab_exec(p0: Fx, p1: Fx, o: Fx, d: Fx, acc: Option<(Fx, Fx)>) -> (res: Option<(Fx, Fx)>)
    ensures
        res == cube_slab(p0, p1, o, d, acc),
{
    match acc {
        None => None,
        Some((lo, hi)) => {
            if d.raw == 0 {
                if o.raw < p0.raw || o.raw > p1.raw {
                    None
                } else {
                    Some((lo, hi))
                }
            } else {
                let ta = p0.sub(o).div(d);
                let tb = p1.sub(o).div(d);
                let (t0, t1) = if d.raw > 0 {
                    (ta, tb)
                } else {
                    (tb, ta)
                };
                let lo2 = lo.max(t0);
                let hi2 = hi.min(t1);
                if hi2.raw <= lo2.raw {
                    None
                } else {
                    Some((lo2, hi2))
                }
            }
        },
    }
}

/// The exec face-normal choice of a cube hit; mirrors `cube_normal`.
fn cube_normal_exec(rel: Vec3, degenerate: bool) -> (r: Vec3)
    ensures
        r == cube_normal(rel, degenerate),
{
    let one = FX_ONE;
    let fb = Vec3 {
        x: Fx { raw: CUBE_FALLBACK_RAW },
        y: Fx { raw: CUBE_FALLBACK_RAW },
        z: Fx { raw: CUBE_FALLBACK_RAW },
    };
    if degenerate {
        fb
    } else if rel.x.raw < CUBE_FACE_EPS_RAW {
        Vec3 { x: Fx { raw: one }, y: Fx { raw: 0 }, z: Fx { raw: 0 } }
    } else if rel.x.raw > one - CUBE_FACE_EPS_RAW {
        Vec3 { x: Fx { raw: -one }, y: Fx { raw: 0 }, z: Fx { raw: 0 } }
    } else if rel.y.raw < CUBE_FACE_EPS_RAW {
        Vec3 { x: Fx { raw: 0 }, y: Fx { raw: one }, z: Fx { raw: 0 } }
    } else if rel.y.raw > one - CUBE_FACE_EPS_RAW {
        Vec3 { x: Fx { raw: 0 }, y: Fx { raw: -one }, z: Fx { raw: 0 } }
    } else if rel.z.raw < CUBE_FACE_EPS_RAW {
        Vec3 { x: Fx { raw: 0 }, y: Fx { raw: 0 }, z: Fx { raw: one } }
    } else if rel.z.raw > one - CUBE_FACE_EPS_RAW {
        Vec3 { x: Fx { raw: 0 }, y: Fx { raw: 0 }, z: Fx { raw: -one } }
    } else {
        fb
    }
}

/// The exec cube intersection; mirrors `cube_arm`.
fn cube_hit_exec(p0: Vec3, p1: Vec3, r: &Ray, tmin: Fx, tmax: Fx) -> (res: Option<HitRecord>)
    ensures
        res == cube_arm(p0, p1, *r, tmin, tmax),
        res matches Some(rec) ==> tmin@ <= rec.t@ <= fx_max(tmin, tmax)@,
{
    proof {
        reveal(cube_arm);
    }
    let a1 = cube_slab_exec(p0.x, p1.x, r.origin.x, r.direction.x, Some((tmin, tmax)));
    proof {
        assert(a1 matches Some((l, h)) ==> tmin@ <= l@ && h@ <= tmax@ && (l@ < h@ || (l == tmin
            && h == tmax)));
    }
    let a2 = cube_slab_exec(p0.y, p1.y, r.origin.y, r.direction.y, a1);
    proof {
        assert(a2 matches Some((l, h)) ==> tmin@ <= l@ && h@ <= tmax@ && (l@ < h@ || (l == tmin
            && h == tmax)));
    }
    let a3 = cube_slab_exec(p0.z, p1.z, r.origin.z, r.direction.z, a2);
    proof {
        assert(a3 matches Some((l, h)) ==> tmin@ <= l@ && h@ <= tmax@ && (l@ < h@ || (l == tmin
            && h == tmax)));
    }
    match a3 {
        None => None,
        Some((lo, hi)) => {
            let t = lo;
            let p = r.at(t);
            let dx = p1.x.sub(p0.x);
            let dy = p1.y.sub(p0.y);
            let dz = p1.z.sub(p0.z);
            let degenerate = dx.raw == 0 || dy.raw == 0 || dz.raw == 0;
            let rel = if degenerate {
                Vec3::zero()
            } else {
                Vec3 {
                    x: p.x.sub(p0.x).div(dx),
                    y: p.y.sub(p0.y).div(dy),
                    z: p.z.sub(p0.z).div(dz),
                }
            };
            let normal = cube_normal_exec(rel, degenerate);
            let u = rel.x.mul(normal.z.abs()).add(rel.y.mul(normal.x.abs())).add(
                rel.x.mul(normal.y.abs()),
            );
            let v = rel.y.mul(normal.z.abs()).add(rel.z.mul(normal.x.abs())).add(
                rel.z.mul(normal.y.abs()),
            );
            Some(HitRecord::new(r, p, t, Vec2 { x: u, y: v }, normal))
        },
    }
}

impl Hittable {
    /// An axis-aligned box between two corner points.
    pub fn new_cube(p0: Vec3, p1: Vec3, material: Material) -> (r: Self)
        ensures
            r == Hittable::Cube(Cube { p0, p1, material }),
    {
        Hittable::Cube(Cube { p0, p1, material })
    }

    /// A sphere.
    pub fn new_sphere(center: Vec3, radius: Fx, material: Material) -> (r: Self)
        ensures
            r == Hittable::Sphere(Sphere { center, radius, material }),
    {
        Hittable::Sphere(Sphere { center, radius, material })
    }

    /// A sphere moving linearly between two centers over a time interval.
    pub fn new_moving_sphere(
        center_start: Vec3,
        center_end: Vec3,
        time_start: Fx,
        time_end: Fx,
        radius: Fx,
        material: Material,
    ) -> (r: Self)
        ensures
            r == Hittable::MovingSphere(
                MovingSphere { center_start, center_end, time_start, time_end, radius, material },
            ),
    {
        Hittable::MovingSphere(
            MovingSphere { center_start, center_end, time_start, time_end, radius, material },
        )
    }

    /// A participating medium of the given density filling a boundary.
    pub fn new_constant_medium(boundary: Hittable, density: Fx, color: Vec3) -> (r: Self)
        requires
            density@ > 0,
        ensures
            r == Hittable::ConstantMedium(
                ConstantMedium {
                    boundary: Box::new(boundary),
                    neg_inv_density: fx_div(fx_neg(Fx { raw: FX_ONE }), density),
                    material: Material::Isotropic(crate::texture::Texture::Solid(color)),
                },
            ),
    {
        let neg_inv_density = Fx { raw: -FX_ONE }.div(density);
        Hittable::ConstantMedium(
            ConstantMedium {
                boundary: Box::new(boundary),
                neg_inv_density,
                material: Material::new_isotropic(color),
            },
        )
    }

    /// A primitive shifted by an offset.
    pub fn new_translate(hittable: Hittable, offset: Vec3) -> (r: Self)
        ensures
            r == Hittable::Translate(Translate { hittable: Box::new(hittable), offset }),
    {
        Hittable::Translate(Translate { hittable: Box::new(hittable), offset })
    }

    /// A primitive rotated by a quaternion. The trigonometry that turns an
    /// angle and an axis into the quaternion is the caller's task.
    pub fn new_rotate(hittable: Hittable, rotation: Quat) -> (r: Self)
        ensures
            r == Hittable::Rotate(Rotate { hittable: Box::new(hittable), rotation }),
    {
        Hittable::Rotate(Rotate { hittable: Box::new(hittable), rotation })
    }

    /// The bounding box over a time interval; mirrors `sbb`.
    #[verifier::loop_isolation(false)]
    pub fn bounding_box(&self, time_start: Fx, time_end: Fx) -> (res: Option<
        AxisAlignedBoundingBox,
    >)
        ensures
            res == sbb(*self, time_start, time_end),
        decreases *self,
    {
        proof {
            reveal(sbb);
        }
        match self {
            Hittable::Cube(c) => Some(AxisAlignedBoundingBox { minimum: c.p0, maximum: c.p1 }),
            Hittable::Sphere(s) => {
                let rv = s.radius.abs();
                let rvec = Vec3 { x: rv, y: rv, z: rv };
                Some(
                    AxisAlignedBoundingBox {
                        minimum: s.center.sub(rvec),
                        maximum: s.center.add(rvec),
                    },
                )
            },
            Hittable::MovingSphere(ms) => {
                let rv = ms.radius.abs();
                let rvec = Vec3 { x: rv, y: rv, z: rv };
                let c0 = ms.center(time_start);
                let c1 = ms.center(time_end);
                let b0 = AxisAlignedBoundingBox { minimum: c0.sub(rvec), maximum: c0.add(rvec) };
                let b1 = AxisAlignedBoundingBox { minimum: c1.sub(rvec), maximum: c1.add(rvec) };
                Some(b0.surrounding_box(&b1))
            },
            Hittable::ConstantMedium(m) => m.boundary.bounding_box(time_start, time_end),
            Hittable::Translate(tr) => {
                match tr.hittable.bounding_box(time_start, time_end) {
                    Some(b) => Some(
                        AxisAlignedBoundingBox {
                            minimum: b.minimum.add(tr.offset),
                            maximum: b.maximum.add(tr.offset),
                        },
                    ),
                    None => None,
                }
            },
            Hittable::Rotate(ro) => {
                match ro.hittable.bounding_box(time_start, time_end) {
                    Some(b) => Some(rotate_box_exec(&b, &ro.rotation)),
                    None => None,
                }
            },
            Hittable::List(items) => {
                let ghost s = items@;
                let mut result: Option<AxisAlignedBoundingBox> = None;
                let mut idx: usize = 0;
                while idx < items.len()
                    invariant
                        idx <= s.len(),
                        items@ == s,
                        result == sbb_list(s.subrange(0, idx as int), time_start, time_end),
                        idx >= 1 ==> result is Some,
                    decreases s.len() - idx,
                {
                    let b = items[idx].bounding_box(time_start, time_end);
                    proof {
                        lemma_sbb_list_step(s, idx as int, time_start, time_end);
                    }
                    match b {
                        None => {
                            proof {
                                lemma_sbb_list_none(s, idx as int + 1, time_start, time_end);
                            }
                            return None;
                        },
                        Some(bb) => {
                            result = match result {
                                Some(acc) => Some(acc.surrounding_box(&bb)),
                                None => Some(bb),
                            };
                        },
                    }
                    idx = idx + 1;
                }
                proof {
                    assert(s.subrange(0, s.len() as int) =~= s);
                }
                result
            },
            Hittable::Bvh(node) => Some(node.bounding_box),
            Hittable::Empty => None,
        }
    }
}

} // verus!

verus! {

/// The entry and exit parameters a medium works between: the two boundary
/// probes clipped to the query interval, the entry also to zero.
pub open spec fn medium_entry_exit(e1: Fx, e2: Fx, tmin: Fx, tmax: Fx) -> (Fx, Fx) {
    (fx_max(fx_max(e1, tmin), Fx { raw: 0 }), fx_min(e2, tmax))
}

/// The parameter a medium scatters at: the entry plus the free-flight
/// distance over the ray length, clamped to the exit.
pub open spec fn medium_scatter_t(e1: Fx, e2: Fx, dist: Fx, r: Ray, tmin: Fx, tmax: Fx) -> Fx {
    let lo = medium_entry_exit(e1, e2, tmin, tmax).0;
    let hi = medium_entry_exit(e1, e2, tmin, tmax).1;
    fx_min(fx_add(lo, fx_div(dist, crate::vec3::v3_len(r.direction))), hi)
}

/// The medium arm of `hit`: two boundary probes for entry and exit, then
/// scattering at an exponentially sampled free-flight distance inside;
/// past the exit, no hit. A reported hit carries the medium's phase
/// material and the record built at the scattering parameter, which lies
/// between the clipped entry and exit (the clamp to the exit keeps it in
/// range); the flight distance itself is drawn from the generator, so only
/// its bounds are stated.
fn hit_medium<'a>(med: &'a ConstantMedium, r: &Ray, t_min: Fx, t_max: Fx, rng: &mut Lcg) -> (res:
    Option<(HitRecord, &'a Material)>)
    ensures
        res matches Some((hr, mm)) ==> ({
            &&& *mm == med.material
            &&& hr == hr_new(
                *r,
                ray_at(*r, hr.t),
                hr.t,
                (Vec2 { x: Fx { raw: 0 }, y: Fx { raw: 0 } }),
                (Vec3 { x: Fx { raw: FX_ONE }, y: Fx { raw: 0 }, z: Fx { raw: 0 } }),
            )
            &&& exists|e1: Fx, e2: Fx, dist: Fx|
                {
                    let lo = medium_entry_exit(e1, e2, t_min, t_max).0;
                    let hi = medium_entry_exit(e1, e2, t_min, t_max).1;
                    &&& lo@ < hi@
                    &&& crate::vec3::v3_len(r.direction)@ > 0
                    &&& 0 <= dist@ <= crate::fx::fx_mul(
                        fx_sub(hi, lo),
                        crate::vec3::v3_len(r.direction),
                    )@
                    &&& hr.t == #[trigger] medium_scatter_t(e1, e2, dist, *r, t_min, t_max)
                }
        }),
        res matches Some((hr, _)) ==> t_min@ <= hr.t@ <= fx_max(t_min, t_max)@,
    decreases *med,
{
    let big = Fx { raw: i64::MAX };
    let small = Fx { raw: i64::MIN };
    match med.boundary.hit(r, small, big, rng) {
        None => None,
        Some((h1, _)) => {
            match med.boundary.hit(r, h1.t.add(Fx { raw: MEDIUM_EPS_RAW }), big, rng) {
                None => None,
                Some((h2, _)) => {
                    let h1t0 = h1.t.max(t_min);
                    let h2t = h2.t.min(t_max);
                    if h1t0.raw >= h2t.raw {
                        None
                    } else {
                        let h1t = h1t0.max(Fx { raw: 0 });
                        if h1t.raw >= h2t.raw {
                            None
                        } else {
                            let len = r.direction.length();
                            if len.raw <= 0 {
                                None
                            } else {
                                let delta = h2t.sub(h1t);
                                let dist_inside = delta.mul(len);
                                let u = rng.next_unit();
                                let u1 = if u.raw < 1 {
                                    Fx { raw: 1 }
                                } else {
                                    u
                                };
                                let lnu = u1.ln_lower();
                                let hit_dist = med.neg_inv_density.mul(lnu);
                                if hit_dist.raw < 0 || hit_dist.raw > dist_inside.raw {
                                    None
                                } else {
                                    let dt = hit_dist.div(len);
                                    let t = h1t.add(dt).min(h2t);
                                    let p = r.at(t);
                                    let rec = HitRecord::new(
                                        r,
                                        p,
                                        t,
                                        Vec2 { x: Fx { raw: 0 }, y: Fx { raw: 0 } },
                                        Vec3 {
                                            x: Fx { raw: FX_ONE },
                                            y: Fx { raw: 0 },
                                            z: Fx { raw: 0 },
                                        },
                                    );
                                    proof {
                                        assert(rec.t == medium_scatter_t(
                                            h1.t,
                                            h2.t,
                                            hit_dist,
                                            *r,
                                            t_min,
                                            t_max,
                                        ));
                                    }
                                    Some((rec, &med.material))
                                }
                            }
                        }
                    }
                },
            }
        },
    }
}

/// The list arm of `hit`: first-hit-wins over the members, each queried
/// with the interval capped at the best parameter so far.
#[verifier::loop_isolation(false)]
fn hit_list<'a>(items: &'a Vec<Hittable>, r: &Ray, t_min: Fx, t_max: Fx, rng: &mut Lcg) -> (res:
    Option<(HitRecord, &'a Material)>)
    ensures
        (forall|i: int| 0 <= i < items@.len() ==> no_medium(#[trigger] items@[i])) ==> ({
            &&& final(rng).state == old(rng).state
            &&& match res {
                Some((hr, m)) => list_first_hit(items@, *r, t_min, t_max) == Some((hr, *m)),
                None => list_first_hit(items@, *r, t_min, t_max) is None,
            }
        }),
        res matches Some((hr, _)) ==> t_min@ <= hr.t@ <= fx_max(t_min, t_max)@,
    decreases *items,
{
    let ghost s = items@;
    let ghost pure = forall|i: int| 0 <= i < items@.len() ==> no_medium(#[trigger] items@[i]);
    let mut best: Option<(HitRecord, &'a Material)> = None;
    let mut closest = t_max;
    let mut idx: usize = 0;
    while idx < items.len()
        invariant
            idx <= s.len(),
            pure ==> rng.state == old(rng).state,
            pure ==> (match best {
                Some((hr, m)) => list_first_hit(s.subrange(0, idx as int), *r, t_min, t_max)
                    == Some((hr, *m)),
                None => list_first_hit(s.subrange(0, idx as int), *r, t_min, t_max) is None,
            }),
            closest == (match best {
                Some((hr, _)) => hr.t,
                None => t_max,
            }),
            best matches Some((hr, _)) ==> t_min@ <= hr.t@ <= fx_max(t_min, t_max)@,
        decreases s.len() - idx,
    {
        let res_i = items[idx].hit(r, t_min, closest, rng);
        proof {
            lemma_lfh_step(s, idx as int, *r, t_min, t_max);
        }
        match res_i {
            Some((nr, nm)) => {
                if nr.t.raw < closest.raw {
                    closest = nr.t;
                    best = Some((nr, nm));
                }
            },
            None => {},
        }
        idx = idx + 1;
    }
    proof {
        assert(s.subrange(0, s.len() as int) =~= s);
    }
    best
}

/// The hierarchy arm of `hit`; mirrors `bvh_arm`.
#[verifier::rlimit(100)]
#[verifier::spinoff_prover]
fn hit_bvh<'a>(node: &'a BvhNode, r: &Ray, t_min: Fx, t_max: Fx, rng: &mut Lcg) -> (res: Option<
    (HitRecord, &'a Material),
>)
    ensures
        (no_medium(*node.left) && no_medium(*node.right)) ==> ({
            &&& final(rng).state == old(rng).state
            &&& match res {
                Some((hr, m)) => bvh_arm(*node, *r, t_min, t_max) == Some((hr, *m)),
                None => bvh_arm(*node, *r, t_min, t_max) is None,
            }
        }),
        res matches Some((hr, _)) ==> t_min@ <= hr.t@ <= fx_max(t_min, t_max)@,
    decreases *node,
{
    proof {
        reveal(spec_hit);
    }
    if !node.bounding_box.hit(r, t_min, t_max) {
        None
    } else {
        match node.left.hit(r, t_min, t_max, rng) {
            Some((lrec, lm)) => {
                match node.right.hit(r, t_min, lrec.t, rng) {
                    Some((rrec, rm)) => {
                        if rrec.t.raw < lrec.t.raw {
                            Some((rrec, rm))
                        } else {
                            Some((lrec, lm))
                        }
                    },
                    None => Some((lrec, lm)),
                }
            },
            None => node.right.hit(r, t_min, t_max, rng),
        }
    }
}

impl Hittable {
    /// Intersect a ray with this tree over the parameter interval
    /// `[t_min, t_max]`, drawing any randomness a medium needs from `rng`.
    ///
    /// For trees without media the result is exactly the spec function
    /// `spec_hit` and the generator is untouched. For every tree, a returned
    /// parameter lies in the query interval, and lies inside the tree's
    /// bounding box at the ray's time — the same conservative filter the
    /// spec applies, so hierarchy pruning never loses a reported hit.
    #[verifier::rlimit(100)]
    #[verifier::spinoff_prover]
    pub fn hit<'a>(&'a self, r: &Ray, t_min: Fx, t_max: Fx, rng: &mut Lcg) -> (res: Option<
        (HitRecord, &'a Material),
    >)
        ensures
            no_medium(*self) ==> final(rng).state == old(rng).state,
            no_medium(*self) ==> (match res {
                Some((hr, m)) => spec_hit(*self, *r, t_min, t_max) == Some((hr, *m)),
                None => spec_hit(*self, *r, t_min, t_max) is None,
            }),
            res matches Some((hr, _)) ==> t_min@ <= hr.t@ <= fx_max(t_min, t_max)@,
            res matches Some((hr, _)) ==> (sbb(*self, r.time, r.time) matches Some(b)
                ==> aabb_contains_t(b, *r, hr.t)),
        decreases *self,
    {
        let inner: Option<(HitRecord, &'a Material)> = match self {
            Hittable::Cube(c) => {
                match cube_hit_exec(c.p0, c.p1, r, t_min, t_max) {
                    Some(rec) => Some((rec, &c.material)),
                    None => None,
                }
            },
            Hittable::Sphere(s) => {
                match sphere_hit_exec(s.center, s.radius, r, t_min, t_max) {
                    Some(t) => {
                        proof {
                            lemma_sphere_record_t(s.center, s.radius, *r, t);
                        }
                        Some((sphere_record_exec(s.center, s.radius, r, t), &s.material))
                    },
                    None => None,
                }
            },
            Hittable::MovingSphere(ms) => {
                let center = ms.center(r.time);
                match sphere_hit_exec(center, ms.radius, r, t_min, t_max) {
                    Some(t) => {
                        proof {
                            lemma_sphere_record_t(center, ms.radius, *r, t);
                        }
                        Some((sphere_record_exec(center, ms.radius, r, t), &ms.material))
                    },
                    None => None,
                }
            },
            Hittable::ConstantMedium(m) => hit_medium(m, r, t_min, t_max, rng),
            Hittable::Translate(tr) => {
                let moved = Ray::new(r.origin.sub(tr.offset), r.direction, r.time);
                match tr.hittable.hit(&moved, t_min, t_max, rng) {
                    Some((rec, mat)) => Some((HitRecord { p: rec.p.add(tr.offset), ..rec }, mat)),
                    None => None,
                }
            },
            Hittable::Rotate(ro) => {
                let origin = r.origin.rotate(&ro.rotation);
                let direction = r.direction.rotate(&ro.rotation);
                let rotated = Ray::new(origin, direction, r.time);
                match ro.hittable.hit(&rotated, t_min, t_max, rng) {
                    Some((rec, mat)) => {
                        let inv = ro.rotation.invert();
                        Some(
                            (HitRecord {
                                p: rec.p.rotate(&inv),
                                normal: rec.normal.rotate(&inv),
                                ..rec
                            }, mat),
                        )
                    },
                    None => None,
                }
            },
            Hittable::List(items) => hit_list(items, r, t_min, t_max, rng),
            Hittable::Bvh(node) => hit_bvh(node, r, t_min, t_max, rng),
            Hittable::Empty => None,
        };
        proof {
            reveal(spec_hit);
            if no_medium(*self) {
                assert(match inner {
                    Some((hr, m)) => spec_hit_arms(*self, *r, t_min, t_max) == Some((hr, *m)),
                    None => spec_hit_arms(*self, *r, t_min, t_max) is None,
                });
            }
        }
        match inner {
            Some((rec, mat)) => {
                match self.bounding_box(r.time, r.time) {
                    Some(b) => {
                        if b.contains_t(r, rec.t) {
                            Some((rec, mat))
                        } else {
                            None
                        }
                    },
                    None => Some((rec, mat)),
                }
            },
            None => None,
        }
    }
}

} // verus!

verus! {

/// The raw fixed-point value of two pi.
pub const TWO_PI_RAW: i64 = 411774;

/// The density, over the sphere of directions from `origin`, with which a
/// sphere primitive is sampled: the reciprocal of the solid angle its cone
/// of directions subtends, if the direction actually meets the sphere, and
/// zero otherwise or for any other primitive kind. A list averages its
/// members' densities.
pub open spec fn spec_hittable_pdf(h: Hittable, origin: Vec3, direction: Vec3) -> Fx
    decreases h, 4int,
{
    match h {
        Hittable::Sphere(s) => {
            let ray = Ray { origin, direction, time: Fx { raw: 0 } };
            let probe = spec_hit(h, ray, Fx { raw: 66 }, Fx { raw: i64::MAX });
            if probe is None {
                Fx { raw: 0 }
            } else {
                let one = Fx { raw: FX_ONE };
                let dsq = v3_sqrlen(v3_sub(s.center, origin));
                if dsq@ <= 0 {
                    Fx { raw: 0 }
                } else {
                    let ratio = fx_div(fx_mul(s.radius, s.radius), dsq);
                    let cmsq = fx_max(fx_sub(one, ratio), Fx { raw: 0 });
                    let cm = fx_min(fx_sqrt(cmsq), one);
                    let solid = fx_mul(Fx { raw: TWO_PI_RAW }, fx_sub(one, cm));
                    if solid@ <= 0 {
                        Fx { raw: 0 }
                    } else {
                        fx_div(one, solid)
                    }
                }
            }
        },
        Hittable::List(items) => spec_list_pdf(
            items@,
            origin,
            direction,
            fx_div(Fx { raw: FX_ONE }, crate::fx::fx(items@.len() as int * 65536)),
        ),
        _ => Fx { raw: 0 },
    }
}

/// What `random` can return for a tree: a cone sample toward a sphere
/// mapped through the basis aligned at it, some member's sample for a
/// list, and a fixed axis for every other kind (and for a degenerate
/// sphere at the origin or an empty list).
pub open spec fn spec_aimed_at(h: Hittable, origin: Vec3, res: Vec3) -> bool
    decreases h, 6int,
{
    match h {
        Hittable::Sphere(s) => {
            let dir = v3_sub(s.center, origin);
            let dsq = v3_sqrlen(dir);
            if dsq@ <= 0 {
                res == (Vec3 { x: Fx { raw: FX_ONE }, y: Fx { raw: 0 }, z: Fx { raw: 0 } })
            } else {
                exists|local: Vec3|
                    spec_cone_sample(s.radius, dsq, local) && res == #[trigger] onb_local(
                        onb_from_w(dir),
                        local,
                    )
            }
        },
        Hittable::List(items) => if items@.len() == 0 {
            res == (Vec3 { x: Fx { raw: FX_ONE }, y: Fx { raw: 0 }, z: Fx { raw: 0 } })
        } else {
            exists|i: int| 0 <= i < items@.len() && spec_aimed_at(#[trigger] items@[i], origin, res)
        },
        _ => res == (Vec3 { x: Fx { raw: FX_ONE }, y: Fx { raw: 0 }, z: Fx { raw: 0 } }),
    }
}

/// The members' sampling densities, each weighted by `w` and summed.
pub open spec fn spec_list_pdf(s: Seq<Hittable>, origin: Vec3, direction: Vec3, w: Fx) -> Fx
    decreases s, 5int,
{
    if s.len() == 0 {
        Fx { raw: 0 }
    } else {
        fx_add(
            spec_list_pdf(s.drop_last(), origin, direction, w),
            fx_mul(w, spec_hittable_pdf(s.last(), origin, direction)),
        )
    }
}

impl Hittable {
    /// The density with which `random` would sample the given direction
    /// from the given origin; mirrors `spec_hittable_pdf` for trees without
    /// media.
    #[verifier::loop_isolation(false)]
    pub fn pdf_value(&self, origin: &Vec3, direction: &Vec3, rng: &mut Lcg) -> (res: Fx)
        ensures
            no_medium(*self) ==> ({
                &&& final(rng).state == old(rng).state
                &&& res == spec_hittable_pdf(*self, *origin, *direction)
            }),
        decreases *self,
    {
        match self {
            Hittable::Sphere(s) => {
                let ray = Ray::new(*origin, *direction, Fx { raw: 0 });
                let probe = self.hit(&ray, Fx { raw: 66 }, Fx { raw: i64::MAX }, rng);
                match probe {
                    None => Fx { raw: 0 },
                    Some(_) => {
                        let one = Fx { raw: FX_ONE };
                        let dsq = s.center.sub(*origin).sqrlen();
                        if dsq.raw <= 0 {
                            Fx { raw: 0 }
                        } else {
                            let ratio = s.radius.mul(s.radius).div(dsq);
                            let cmsq = one.sub(ratio).max(Fx { raw: 0 });
                            let cm = cmsq.sqrt().min(one);
                            let solid = Fx { raw: TWO_PI_RAW }.mul(one.sub(cm));
                            if solid.raw <= 0 {
                                Fx { raw: 0 }
                            } else {
                                one.div(solid)
                            }
                        }
                    },
                }
            },
            Hittable::List(items) => {
                let ghost sq = items@;
                let mut acc = Fx { raw: 0 };
                let mut idx: usize = 0;
                if items.len() == 0 {
                    return Fx { raw: 0 };
                }
                let w = Fx { raw: FX_ONE }.div(Fx::from_count(items.len()));
                proof {
                    assert(w == fx_div(
                        Fx { raw: FX_ONE },
                        crate::fx::fx(sq.len() as int * 65536),
                    ));
                }
                while idx < items.len()
                    invariant
                        idx <= sq.len(),
                        sq.len() >= 1,
                        no_medium(*self) ==> ({
                            &&& rng.state == old(rng).state
                            &&& acc == spec_list_pdf(sq.subrange(0, idx as int), *origin, *direction, w)
                        }),
                    decreases sq.len() - idx,
                {
                    let v = items[idx].pdf_value(origin, direction, rng);
                    proof {
                        let sp = sq.subrange(0, idx as int + 1);
                        assert(sp.last() == sq[idx as int]);
                        assert(sp.drop_last() =~= sq.subrange(0, idx as int));
                    }
                    acc = acc.add(w.mul(v));
                    idx = idx + 1;
                }
                proof {
                    assert(sq.subrange(0, sq.len() as int) =~= sq);
                }
                acc
            },
            _ => Fx { raw: 0 },
        }
    }

    /// A direction sampled toward this primitive from the given origin:
    /// uniform over the cone subtending a sphere, the sample of a uniformly
    /// picked member of a list (by the next state of the generator), and a
    /// fixed axis for anything else.
    pub fn random(&self, origin: &Vec3, rng: &mut Lcg) -> (res: Vec3)
        ensures
            spec_aimed_at(*self, *origin, res),
            (match *self {
                Hittable::List(items) => items@.len() > 0 ==> spec_aimed_at(
                    items@[crate::rng::lcg_next(old(rng).state) as int % items@.len() as int],
                    *origin,
                    res,
                ),
                _ => true,
            }),
        decreases *self,
    {
        match self {
            Hittable::Sphere(s) => {
                let dir = s.center.sub(*origin);
                let dsq = dir.sqrlen();
                if dsq.raw <= 0 {
                    Vec3 { x: Fx { raw: FX_ONE }, y: Fx { raw: 0 }, z: Fx { raw: 0 } }
                } else {
                    let uvw = crate::sample::ONB::from_w(&dir);
                    let local = Vec3::random_to_sphere(s.radius, dsq, rng);
                    let res = uvw.local(&local);
                    proof {
                        assert(spec_cone_sample(s.radius, dsq, local) && res == onb_local(
                            onb_from_w(dir),
                            local,
                        ));
                    }
                    res
                }
            },
            Hittable::List(items) => {
                if items.len() == 0 {
                    Vec3 { x: Fx { raw: FX_ONE }, y: Fx { raw: 0 }, z: Fx { raw: 0 } }
                } else {
                    let idx = rng.next_index(items.len());
                    items[idx].random(origin, rng)
                }
            },
            _ => Vec3 { x: Fx { raw: FX_ONE }, y: Fx { raw: 0 }, z: Fx { raw: 0 } },
        }
    }
}

} // verus!
