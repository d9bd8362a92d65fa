use vstd::prelude::*;
use vstd::seq_lib::group_to_multiset_ensures;
use crate::aabb::aabb_union;
use crate::fx::{Fx, fx_max};
use crate::hittable::{Hittable, BvhNode, HitRecord, sbb, no_medium, spec_hit, sphere_hit_t, list_first_hit};
use crate::material::Material;
use crate::ray::Ray;
use crate::rng::Lcg;

verus! {

broadcast use vstd::std_specs::vec::group_vec_axioms, group_to_multiset_ensures;

/// The primitives a hierarchy stands over: hierarchy nodes unfold into
/// their children, anything else is one primitive of its own.
pub open spec fn prims(h: Hittable) -> Seq<Hittable>
    decreases h,
{
    match h {
        Hittable::Bvh(node) => prims(*node.left) + prims(*node.right),
        Hittable::Empty => Seq::empty(),
        _ => seq![h],
    }
}

/// The primitives of a whole sequence of trees, in order.
pub open spec fn prims_flat(s: Seq<Hittable>) -> Seq<Hittable>
    decreases s,
{
    if s.len() == 0 {
        Seq::empty()
    } else {
        prims_flat(s.drop_last()) + prims(s.last())
    }
}

/// A well-formed hierarchy over the time interval `[t0, t1]`: every inner
/// node caches exactly the union of its children's bounding boxes, and the
/// children exist and are well formed.
pub open spec fn wf_bvh(h: Hittable, t0: Fx, t1: Fx) -> bool
    decreases h,
{
    match h {
        Hittable::Bvh(node) => {
            &&& wf_bvh(*node.left, t0, t1)
            &&& wf_bvh(*node.right, t0, t1)
            &&& sbb(*node.left, t0, t1) is Some
            &&& sbb(*node.right, t0, t1) is Some
            &&& node.bounding_box == aabb_union(
                sbb(*node.left, t0, t1)->Some_0,
                sbb(*node.right, t0, t1)->Some_0,
            )
        },
        _ => true,
    }
}

/// The key the builder sorts by: the minimum corner of a tree's bounding
/// box along one axis, or zero where no box exists.
pub open spec fn box_key(h: Hittable, axis: int, t0: Fx, t1: Fx) -> int {
    match sbb(h, t0, t1) {
        Some(b) => b.axis_min_spec(axis),
        None => 0,
    }
}

/// The exec sort key; mirrors `box_key`.
fn box_key_exec(h: &Hittable, axis: usize, t0: Fx, t1: Fx) -> (r: i64)
    requires
        axis < 3,
    ensures
        r as int == box_key(*h, axis as int, t0, t1),
{
    match h.bounding_box(t0, t1) {
        Some(b) => b.axis_min(axis).raw,
        None => 0,
    }
}

/// Order the trees by the minimum corner of their boxes along one axis,
/// by repeatedly extracting a minimum. The result holds exactly the input
/// trees.
#[verifier::loop_isolation(false)]
fn sort_by_axis(items: Vec<Hittable>, axis: usize, t0: Fx, t1: Fx) -> (r: Vec<Hittable>)
    requires
        axis < 3,
    ensures
        r@.to_multiset() == items@.to_multiset(),
        r@.len() == items@.len(),
        forall|i: int, j: int|
            0 <= i < j < r@.len() ==> box_key(#[trigger] r@[i], axis as int, t0, t1) <= box_key(
                #[trigger] r@[j],
                axis as int,
                t0,
                t1,
            ),
{
    let ghost orig = items@;
    let mut rest = items;
    let mut out: Vec<Hittable> = Vec::new();
    while rest.len() > 0
        invariant
            out@.to_multiset().add(rest@.to_multiset()) =~= orig.to_multiset(),
            out@.len() + rest@.len() == orig.len(),
            forall|i: int, j: int|
                0 <= i < j < out@.len() ==> box_key(#[trigger] out@[i], axis as int, t0, t1)
                    <= box_key(#[trigger] out@[j], axis as int, t0, t1),
            forall|i: int, j: int|
                0 <= i < out@.len() && 0 <= j < rest@.len() ==> box_key(
                    #[trigger] out@[i],
                    axis as int,
                    t0,
                    t1,
                ) <= box_key(#[trigger] rest@[j], axis as int, t0, t1),
        decreases rest@.len(),
    {
        let mut min_i: usize = 0;
        let mut min_key: i64 = box_key_exec(&rest[0], axis, t0, t1);
        let mut k: usize = 1;
        while k < rest.len()
            invariant
                min_i < k <= rest@.len(),
                rest@.len() > 0,
                min_key as int == box_key(rest@[min_i as int], axis as int, t0, t1),
                forall|j: int|
                    0 <= j < k ==> min_key as int <= box_key(
                        #[trigger] rest@[j],
                        axis as int,
                        t0,
                        t1,
                    ),
            decreases rest@.len() - k,
        {
            let key_k = box_key_exec(&rest[k], axis, t0, t1);
            if key_k < min_key {
                min_i = k;
                min_key = key_k;
            }
            k = k + 1;
        }
        let ghost rest_before = rest@;
        let h = rest.remove(min_i);
        out.push(h);
        proof {
            assert(out@.to_multiset().add(rest@.to_multiset()) =~= orig.to_multiset());
            assert forall|j: int| 0 <= j < rest@.len() implies min_key as int <= box_key(
                #[trigger] rest@[j],
                axis as int,
                t0,
                t1,
            ) by {
                if j < min_i {
                    assert(rest@[j] == rest_before[j]);
                } else {
                    assert(rest@[j] == rest_before[j + 1]);
                }
            }
        }
    }
    out
}

/// An inner node over two subtrees, caching the union of their boxes.
fn new_bvh_from_left_right(left: Hittable, right: Hittable, time_start: Fx, time_end: Fx) -> (r:
    Hittable)
    requires
        sbb(left, time_start, time_end) is Some,
        sbb(right, time_start, time_end) is Some,
    ensures
        r == Hittable::Bvh(
            BvhNode {
                left: Box::new(left),
                right: Box::new(right),
                bounding_box: aabb_union(
                    sbb(left, time_start, time_end)->Some_0,
                    sbb(right, time_start, time_end)->Some_0,
                ),
            },
        ),
{
    let lb = left.bounding_box(time_start, time_end);
    let rb = right.bounding_box(time_start, time_end);
    match (lb, rb) {
        (Some(a), Some(b)) => {
            let bounding_box = a.surrounding_box(&b);
            Hittable::Bvh(BvhNode { left: Box::new(left), right: Box::new(right), bounding_box })
        },
        _ => {
            proof {
                assert(false);
            }
            Hittable::Empty
        },
    }
}

/// Build the hierarchy over trees that all carry bounding boxes: sort by a
/// random axis, split at the middle, and recurse; zero, one and two trees
/// end the recursion. Zero trees give the empty primitive and one tree is
/// returned untouched, as the construction prescribes.
#[verifier::loop_isolation(false)]
#[verifier::rlimit(100)]
#[verifier::spinoff_prover]
fn build_bvh(hittables: Vec<Hittable>, time_start: Fx, time_end: Fx, rng: &mut Lcg) -> (r:
    Hittable)
    requires
        forall|i: int|
            0 <= i < hittables@.len() ==> sbb(#[trigger] hittables@[i], time_start, time_end)
                is Some,
    ensures
        (forall|i: int| 0 <= i < hittables@.len() ==> wf_bvh(
            #[trigger] hittables@[i],
            time_start,
            time_end,
        )) ==> wf_bvh(r, time_start, time_end),
        prims(r).to_multiset() == prims_flat(hittables@).to_multiset(),
        hittables@.len() > 0 ==> sbb(r, time_start, time_end) is Some,
        (forall|i: int| 0 <= i < hittables@.len() ==> no_medium(#[trigger] hittables@[i]))
            ==> no_medium(r),
        hittables@.len() == 0 ==> r == Hittable::Empty,
        hittables@.len() == 1 ==> r == hittables@[0],
    decreases hittables@.len(),
    {
        proof {
            reveal(sbb);
        }
        let ghost orig = hittables@;
        let mut items = hittables;
        if items.len() >= 2 {
            let axis = rng.next_index(3);
            let sorted = sort_by_axis(items, axis, time_start, time_end);
            items = sorted;
        }
        proof {
            lemma_multiset_element_facts(orig, items@, time_start, time_end);
            lemma_prims_flat_permutation(items@, orig);
        }
        let ghost work = items@;
        if items.len() == 0 {
            proof {
                assert(prims_flat(work) =~= Seq::<Hittable>::empty());
                assert(prims(Hittable::Empty).to_multiset() =~= prims_flat(orig).to_multiset());
            }
            Hittable::Empty
        } else if items.len() == 1 {
            let h = match items.pop() {
                Some(h) => h,
                None => {
                    proof {
                        assert(false);
                    }
                    Hittable::Empty
                },
            };
            proof {
                assert(h == work[0]);
                assert(work.drop_last() =~= Seq::<Hittable>::empty());
                assert(prims_flat(work) == prims_flat(work.drop_last()) + prims(work.last()));
                assert(prims_flat(work.drop_last()) + prims(h) =~= prims(h));
            }
            h
        } else if items.len() == 2 {
            let right = match items.pop() {
                Some(h) => h,
                None => {
                    proof {
                        assert(false);
                    }
                    Hittable::Empty
                },
            };
            let left = match items.pop() {
                Some(h) => h,
                None => {
                    proof {
                        assert(false);
                    }
                    Hittable::Empty
                },
            };
            proof {
                assert(left == work[0] && right == work[1]);
            }
            let r = new_bvh_from_left_right(left, right, time_start, time_end);
            proof {
                assert(work.drop_last() =~= seq![left]);
                assert(work.last() == right);
                assert(prims_flat(work) == prims_flat(work.drop_last()) + prims(right));
                assert(seq![left].drop_last() =~= Seq::<Hittable>::empty());
                assert(prims_flat(seq![left]) == prims_flat(seq![left].drop_last()) + prims(left));
                assert(prims_flat(seq![left]) =~= prims(left));
                assert(prims_flat(work) =~= prims(left) + prims(right));
            }
            r
        } else {
            let mid = items.len() / 2;
            let right_items = items.split_off(mid);
            proof {
                assert(work =~= items@ + right_items@);
                lemma_prims_flat_split(work, items@, right_items@);
                assert(forall|i: int|
                    0 <= i < items@.len() ==> #[trigger] items@[i] == work[i]);
                assert(forall|i: int|
                    0 <= i < right_items@.len() ==> #[trigger] right_items@[i] == work[i + items@.len()]);
            }
            let ghost left_seq = items@;
            let ghost right_seq = right_items@;
            let left = build_bvh(items, time_start, time_end, rng);
            let right = build_bvh(right_items, time_start, time_end, rng);
            let r = new_bvh_from_left_right(left, right, time_start, time_end);
            proof {
                vstd::seq_lib::lemma_multiset_commutative(prims(left), prims(right));
                vstd::seq_lib::lemma_multiset_commutative(
                    prims_flat(left_seq),
                    prims_flat(right_seq),
                );
            }
            r
        }
    }

impl Hittable {
    /// Build a bounding-volume hierarchy over the given trees for the time
    /// interval `[time_start, time_end]`.
    ///
    /// A member without a bounding box cannot stand under a node whose
    /// cached box must enclose it, so such members are excluded from the
    /// box unions — not refused: they ride beside the hierarchy in a flat
    /// list and are still hit-tested. When every member has a box (the
    /// common case), the result is the plain hierarchy: well formed,
    /// holding exactly the given primitives, the empty primitive for no
    /// input and the sole member untouched for one.
    #[verifier::loop_isolation(false)]
    #[verifier::rlimit(100)]
    #[verifier::spinoff_prover]
    pub fn new_bvh(hittables: Vec<Hittable>, time_start: Fx, time_end: Fx, rng: &mut Lcg) -> (r:
        Hittable)
        ensures
            hittables@.len() == 0 ==> r == Hittable::Empty,
            (forall|i: int|
                0 <= i < hittables@.len() ==> sbb(#[trigger] hittables@[i], time_start, time_end)
                    is Some) ==> ({
                &&& hittables@.len() == 1 ==> r == hittables@[0]
                &&& (forall|i: int|
                    0 <= i < hittables@.len() ==> wf_bvh(
                        #[trigger] hittables@[i],
                        time_start,
                        time_end,
                    )) ==> wf_bvh(r, time_start, time_end)
                &&& prims(r).to_multiset() == prims_flat(hittables@).to_multiset()
                &&& hittables@.len() > 0 ==> sbb(r, time_start, time_end) is Some
            }),
            (forall|i: int| 0 <= i < hittables@.len() ==> no_medium(#[trigger] hittables@[i]))
                ==> no_medium(r),
    {
        let ghost orig = hittables@;
        let mut items = hittables;
        let mut boxed: Vec<Hittable> = Vec::new();
        let mut rest: Vec<Hittable> = Vec::new();
        while items.len() > 0
            invariant
                items@ =~= orig.subrange(
                    orig.len() - items@.len(),
                    orig.len() as int,
                ),
                boxed@.len() + rest@.len() + items@.len() == orig.len(),
                forall|i: int|
                    0 <= i < boxed@.len() ==> sbb(#[trigger] boxed@[i], time_start, time_end)
                        is Some,
                (forall|i: int|
                    0 <= i < orig.len() ==> sbb(#[trigger] orig[i], time_start, time_end)
                        is Some) ==> (rest@.len() == 0 && boxed@ =~= orig.subrange(
                    0,
                    boxed@.len() as int,
                )),
                (forall|i: int| 0 <= i < orig.len() ==> no_medium(#[trigger] orig[i])) ==> ((
                forall|i: int| 0 <= i < boxed@.len() ==> no_medium(#[trigger] boxed@[i])) && (
                forall|i: int| 0 <= i < rest@.len() ==> no_medium(#[trigger] rest@[i]))),
                (forall|i: int|
                    0 <= i < orig.len() ==> wf_bvh(#[trigger] orig[i], time_start, time_end))
                    ==> (forall|i: int|
                    0 <= i < boxed@.len() ==> wf_bvh(#[trigger] boxed@[i], time_start, time_end)),
            decreases items@.len(),
        {
            let ghost k = orig.len() - items@.len();
            let h = items.remove(0);
            proof {
                assert(h == orig[k as int]);
                assert(items@ =~= orig.subrange(orig.len() - items@.len(), orig.len() as int));
            }
            let has_box = h.bounding_box(time_start, time_end).is_some();
            if has_box {
                boxed.push(h);
            } else {
                rest.push(h);
            }
            proof {
                if forall|i: int|
                    0 <= i < orig.len() ==> sbb(#[trigger] orig[i], time_start, time_end)
                        is Some {
                    assert(boxed@ =~= orig.subrange(0, boxed@.len() as int));
                }
            }
        }
        proof {
            if forall|i: int|
                0 <= i < orig.len() ==> sbb(#[trigger] orig[i], time_start, time_end) is Some {
                assert(boxed@ =~= orig);
            }
        }
        let tree = build_bvh(boxed, time_start, time_end, rng);
        if rest.len() == 0 {
            tree
        } else {
            let mut members = rest;
            let holds_tree = match &tree {
                Hittable::Empty => false,
                _ => true,
            };
            if holds_tree {
                members.insert(0, tree);
            }
            Hittable::List(members)
        }
    }
}

/// Every member of a sequence with the same multiset as another keeps the
/// members' bounding-box and medium-freedom facts.
proof fn lemma_multiset_element_facts(a: Seq<Hittable>, b: Seq<Hittable>, t0: Fx, t1: Fx)
    requires
        a.to_multiset() == b.to_multiset(),
    ensures
        (forall|i: int| 0 <= i < a.len() ==> sbb(#[trigger] a[i], t0, t1) is Some) ==> (forall|
            i: int,
        |
            0 <= i < b.len() ==> sbb(#[trigger] b[i], t0, t1) is Some),
        (forall|i: int| 0 <= i < a.len() ==> no_medium(#[trigger] a[i])) ==> (forall|i: int|
            0 <= i < b.len() ==> no_medium(#[trigger] b[i])),
        (forall|i: int| 0 <= i < a.len() ==> wf_bvh(#[trigger] a[i], t0, t1)) ==> (forall|i: int|
            0 <= i < b.len() ==> wf_bvh(#[trigger] b[i], t0, t1)),
{
    assert forall|i: int| 0 <= i < b.len() implies a.contains(#[trigger] b[i]) by {
        assert(b.to_multiset().count(b[i]) > 0);
        assert(a.to_multiset().count(b[i]) > 0);
    }
}

/// Two sequences with the same multiset have flattened primitives with the
/// same multiset.
proof fn lemma_prims_flat_permutation(a: Seq<Hittable>, b: Seq<Hittable>)
    requires
        a.to_multiset() == b.to_multiset(),
    ensures
        prims_flat(a).to_multiset() == prims_flat(b).to_multiset(),
    decreases a.len(),
{
    if a.len() == 0 {
        assert(b.to_multiset().len() == 0);
        assert(b.len() == 0);
    } else {
        let x = a.last();
        assert(a.to_multiset().count(x) > 0);
        assert(b.to_multiset().count(x) > 0);
        assert(b.contains(x));
        let j = choose|j: int| 0 <= j < b.len() && b[j] == x;
        let b2 = b.remove(j);
        assert(b2.to_multiset() =~= b.to_multiset().remove(x));
        assert(a.drop_last().to_multiset() =~= a.to_multiset().remove(x)) by {
            assert(a.drop_last().push(x) =~= a);
            assert(a.drop_last().push(x).to_multiset() =~= a.drop_last().to_multiset().insert(x));
        }
        lemma_prims_flat_permutation(a.drop_last(), b2);
        lemma_prims_flat_remove(b, j);
        vstd::seq_lib::lemma_multiset_commutative(prims_flat(a.drop_last()), prims(x));
        vstd::seq_lib::lemma_multiset_commutative(prims_flat(b2), prims(x));
    }
}

/// Removing one member removes exactly its primitives from the flattening.
proof fn lemma_prims_flat_remove(b: Seq<Hittable>, j: int)
    requires
        0 <= j < b.len(),
    ensures
        prims_flat(b).to_multiset() == prims_flat(b.remove(j)).to_multiset().add(
            prims(b[j]).to_multiset(),
        ),
    decreases b.len(),
{
    vstd::seq_lib::lemma_multiset_commutative(prims_flat(b.drop_last()), prims(b.last()));
    if j == b.len() - 1 {
        assert(b.remove(j) =~= b.drop_last());
    } else {
        let b2 = b.remove(j);
        lemma_prims_flat_remove(b.drop_last(), j);
        assert(b2.drop_last() =~= b.drop_last().remove(j));
        assert(b2.last() == b.last());
        vstd::seq_lib::lemma_multiset_commutative(prims_flat(b2.drop_last()), prims(b2.last()));
    }
}

/// The flattening of exactly two trees.
proof fn lemma_prims_pair(empty_seq: Seq<Hittable>, left: Hittable, right: Hittable)
    requires
        empty_seq.len() == 0,
    ensures
        prims_flat(empty_seq.push(left).push(right)).to_multiset() == (prims(left)
            + prims(right)).to_multiset(),
{
    let s = empty_seq.push(left).push(right);
    assert(s.drop_last() =~= empty_seq.push(left));
    assert(s.last() == right);
    assert(empty_seq.push(left).drop_last() =~= empty_seq);
    assert(prims_flat(empty_seq) =~= Seq::<Hittable>::empty());
    assert(prims_flat(empty_seq.push(left)) =~= prims(left));
    assert(prims_flat(s) =~= prims(left) + prims(right));
}

/// Splitting a sequence splits its flattened primitives.
proof fn lemma_prims_flat_split(whole: Seq<Hittable>, a: Seq<Hittable>, b: Seq<Hittable>)
    requires
        whole =~= a + b,
    ensures
        prims_flat(whole).to_multiset() == prims_flat(a).to_multiset().add(
            prims_flat(b).to_multiset(),
        ),
    decreases b.len(),
{
    if b.len() == 0 {
        assert(whole =~= a);
        assert(prims_flat(b) =~= Seq::<Hittable>::empty());
    } else {
        assert(whole.drop_last() =~= a + b.drop_last());
        lemma_prims_flat_split(whole.drop_last(), a, b.drop_last());
        assert(whole.last() == b.last());
        vstd::seq_lib::lemma_multiset_commutative(prims_flat(whole.drop_last()), prims(whole.last()));
        vstd::seq_lib::lemma_multiset_commutative(prims_flat(b.drop_last()), prims(b.last()));
    }
}

} // verus!

verus! {

/// The cube walk keeps its entry parameter inside the queried interval.
proof fn lemma_cube_arm_range(p0: crate::vec3::Vec3, p1: crate::vec3::Vec3, r: Ray, a: Fx, b: Fx)
    ensures
        crate::hittable::cube_arm(p0, p1, r, a, b) matches Some(rec) ==> a@ <= rec.t@ <= fx_max(
            a,
            b,
        )@,
{
    reveal(crate::hittable::cube_arm);
    let a1 = crate::hittable::cube_slab(p0.x, p1.x, r.origin.x, r.direction.x, Some((a, b)));
    assert(a1 matches Some((l, hh)) ==> a@ <= l@ && hh@ <= b@ && (l@ < hh@ || (l == a && hh
        == b)));
    let a2 = crate::hittable::cube_slab(p0.y, p1.y, r.origin.y, r.direction.y, a1);
    assert(a2 matches Some((l, hh)) ==> a@ <= l@ && hh@ <= b@ && (l@ < hh@ || (l == a && hh
        == b)));
    let a3 = crate::hittable::cube_slab(p0.z, p1.z, r.origin.z, r.direction.z, a2);
    assert(a3 matches Some((l, hh)) ==> a@ <= l@ && hh@ <= b@ && (l@ < hh@ || (l == a && hh
        == b)));
}

/// Any reported intersection parameter lies within the queried interval
/// (up to the inverted-interval corner, where the cube keeps the lower
/// bound).
#[verifier::rlimit(100)]
#[verifier::spinoff_prover]
pub proof fn lemma_spec_hit_range(h: Hittable, r: Ray, a: Fx, b: Fx)
    ensures
        spec_hit(h, r, a, b) matches Some((c, m)) ==> a@ <= c.t@ <= fx_max(a, b)@,
    decreases h, 1int,
{
    reveal_with_fuel(spec_hit, 3);
    match h {
        Hittable::Cube(cb) => {
            lemma_cube_arm_range(cb.p0, cb.p1, r, a, b);
        },
        Hittable::Sphere(s) => {
            reveal(sphere_hit_t);
            if sphere_hit_t(s.center, s.radius, r, a, b) is Some {
                let t = sphere_hit_t(s.center, s.radius, r, a, b)->Some_0;
                crate::hittable::lemma_sphere_record_t(s.center, s.radius, r, t);
            }
        },
        Hittable::MovingSphere(ms) => {
            reveal(sphere_hit_t);
            let center = crate::hittable::ms_center(ms, r.time);
            if sphere_hit_t(center, ms.radius, r, a, b) is Some {
                let t = sphere_hit_t(center, ms.radius, r, a, b)->Some_0;
                crate::hittable::lemma_sphere_record_t(center, ms.radius, r, t);
            }
        },
        Hittable::ConstantMedium(_) => {},
        Hittable::Translate(tr) => {
            let moved = Ray {
                origin: crate::vec3::v3_sub(r.origin, tr.offset),
                direction: r.direction,
                time: r.time,
            };
            lemma_spec_hit_range(*tr.hittable, moved, a, b);
        },
        Hittable::Rotate(ro) => {
            let rotated = Ray {
                origin: crate::quat::q_rotate(r.origin, ro.rotation),
                direction: crate::quat::q_rotate(r.direction, ro.rotation),
                time: r.time,
            };
            lemma_spec_hit_range(*ro.hittable, rotated, a, b);
        },
        Hittable::List(items) => {
            lemma_first_hit_range(items@, r, a, b);
        },
        Hittable::Bvh(node) => {
            lemma_spec_hit_range(*node.left, r, a, b);
            if spec_hit(*node.left, r, a, b) is Some {
                let lt = spec_hit(*node.left, r, a, b)->Some_0.0.t;
                lemma_spec_hit_range(*node.right, r, a, lt);
            } else {
                lemma_spec_hit_range(*node.right, r, a, b);
            }
        },
        Hittable::Empty => {},
    }
}

/// Range of the first-hit fold over a member sequence.
pub proof fn lemma_first_hit_range(s: Seq<Hittable>, r: Ray, a: Fx, b: Fx)
    ensures
        list_first_hit(s, r, a, b) matches Some((c, m)) ==> a@ <= c.t@ <= fx_max(a, b)@,
    decreases s, 2int,
{
    reveal_with_fuel(spec_hit, 3);
    if s.len() > 0 {
        lemma_first_hit_range(s.drop_last(), r, a, b);
        let prev = list_first_hit(s.drop_last(), r, a, b);
        let closest = match prev {
            Some((pr, _)) => pr.t,
            None => b,
        };
        lemma_spec_hit_range(s.last(), r, a, closest);
    }
}

} // verus!

verus! {

/// A first-hit result lies strictly below the initial far bound: members
/// are only accepted when they strictly improve the running best.
pub proof fn lemma_first_hit_strict(s: Seq<Hittable>, r: Ray, a: Fx, b: Fx)
    ensures
        list_first_hit(s, r, a, b) matches Some((c, m)) ==> c.t@ < b@,
    decreases s,
{
    reveal_with_fuel(spec_hit, 3);
    if s.len() > 0 {
        lemma_first_hit_strict(s.drop_last(), r, a, b);
    }
}

/// First-hit-wins over a concatenation: search the left part over the full
/// interval, then the right part capped at the left result.
pub proof fn lemma_first_hit_concat(pl: Seq<Hittable>, pr: Seq<Hittable>, r: Ray, a: Fx, b: Fx)
    ensures
        list_first_hit(pl + pr, r, a, b) == (match list_first_hit(pl, r, a, b) {
            Some((lc, lm)) => match list_first_hit(pr, r, a, lc.t) {
                Some((rc, rm)) => if rc.t@ < lc.t@ {
                    Some((rc, rm))
                } else {
                    Some((lc, lm))
                },
                None => Some((lc, lm)),
            },
            None => list_first_hit(pr, r, a, b),
        }),
    decreases pr,
{
    reveal_with_fuel(spec_hit, 3);
    if pr.len() == 0 {
        assert(pl + pr =~= pl);
        match list_first_hit(pl, r, a, b) {
            Some((lc, lm)) => {
                assert(list_first_hit(pr, r, a, lc.t) is None);
            },
            None => {
                assert(list_first_hit(pr, r, a, b) is None);
            },
        }
    } else {
        let w = pl + pr;
        assert(w.drop_last() =~= pl + pr.drop_last());
        assert(w.last() == pr.last());
        lemma_first_hit_concat(pl, pr.drop_last(), r, a, b);
        match list_first_hit(pl, r, a, b) {
            Some((lc, lm)) => {
                lemma_first_hit_strict(pr.drop_last(), r, a, lc.t);
                // unfold the right-part fold at [a, lc.t]
                assert(list_first_hit(pr, r, a, lc.t) == ({
                    let prev = list_first_hit(pr.drop_last(), r, a, lc.t);
                    let closest = match prev {
                        Some((pc, _)) => pc.t,
                        None => lc.t,
                    };
                    match spec_hit(pr.last(), r, a, closest) {
                        Some((nr, nm)) => if nr.t@ < closest@ {
                            Some((nr, nm))
                        } else {
                            prev
                        },
                        None => prev,
                    }
                }));
            },
            None => {
            },
        }
    }
}

/// Whether a primitive's bounding box at the ray's own time (when it has
/// one) contains the given parameter.
pub open spec fn covers_at(p: Hittable, r: Ray, t: Fx) -> bool {
    match sbb(p, r.time, r.time) {
        Some(bp) => crate::aabb::aabb_contains_t(bp, r, t),
        None => true,
    }
}

/// The box filter inside `spec_hit`: a reported hit parameter lies inside the
/// tree's box at the ray's time.
pub proof fn lemma_spec_hit_guard(p: Hittable, r: Ray, a: Fx, b: Fx)
    ensures
        spec_hit(p, r, a, b) matches Some((c, m)) ==> covers_at(p, r, c.t),
{
    reveal(spec_hit);
}

/// A first-hit result originates from some member, whose own box filter it
/// passed.
pub proof fn lemma_first_hit_covers(s: Seq<Hittable>, r: Ray, a: Fx, b: Fx, c: HitRecord, m: Material)
    requires
        list_first_hit(s, r, a, b) == Some((c, m)),
    ensures
        exists|i: int| 0 <= i < s.len() && covers_at(#[trigger] s[i], r, c.t),
    decreases s,
{
    reveal_with_fuel(spec_hit, 3);
    let prev = list_first_hit(s.drop_last(), r, a, b);
    let closest = match prev {
        Some((pc, _)) => pc.t,
        None => b,
    };
    if prev == Some((c, m)) && (match spec_hit(s.last(), r, a, closest) {
        Some((nr, nm)) => !(nr.t@ < closest@),
        None => true,
    }) {
        lemma_first_hit_covers(s.drop_last(), r, a, b, c, m);
        let i = choose|i: int| 0 <= i < s.drop_last().len() && covers_at(#[trigger] s.drop_last()[i], r, c.t);
        assert(s[i] == s.drop_last()[i]);
        assert(covers_at(s[i], r, c.t));
    } else {
        lemma_spec_hit_guard(s.last(), r, a, closest);
        assert(covers_at(s[s.len() - 1], r, c.t));
    }
}

/// Within a well-formed hierarchy, every primitive's box over the scene
/// interval lies inside the tree's own box.
pub proof fn lemma_prims_boxes(h: Hittable, t0: Fx, t1: Fx)
    requires
        wf_bvh(h, t0, t1),
        sbb(h, t0, t1) is Some,
    ensures
        forall|i: int|
            0 <= i < prims(h).len() ==> (sbb(#[trigger] prims(h)[i], t0, t1) matches Some(bp)
                ==> crate::aabb::aabb_incl(bp, sbb(h, t0, t1)->Some_0)),
    decreases h,
{
    reveal(sbb);
    match h {
        Hittable::Bvh(node) => {
            lemma_prims_boxes(*node.left, t0, t1);
            lemma_prims_boxes(*node.right, t0, t1);
            let lb = sbb(*node.left, t0, t1)->Some_0;
            let rb = sbb(*node.right, t0, t1)->Some_0;
            crate::aabb::lemma_union_upper_bound(lb, rb);
            let pls = prims(*node.left);
            let prs = prims(*node.right);
            assert forall|i: int| 0 <= i < prims(h).len() implies (sbb(
                #[trigger] prims(h)[i],
                t0,
                t1,
            ) matches Some(bp) ==> crate::aabb::aabb_incl(bp, node.bounding_box)) by {
                if i < pls.len() {
                    assert(prims(h)[i] == pls[i]);
                    if sbb(pls[i], t0, t1) is Some {
                        crate::aabb::lemma_incl_transitive(
                            sbb(pls[i], t0, t1)->Some_0,
                            lb,
                            node.bounding_box,
                        );
                    }
                } else {
                    assert(prims(h)[i] == prs[i - pls.len()]);
                    if sbb(prs[i - pls.len()], t0, t1) is Some {
                        crate::aabb::lemma_incl_transitive(
                            sbb(prs[i - pls.len()], t0, t1)->Some_0,
                            rb,
                            node.bounding_box,
                        );
                    }
                }
            }
        },
        _ => {},
    }
}

} // verus!

verus! {

/// Whether a primitive's box at the ray's own time lies inside its box
/// over the whole scene interval. This holds of every primitive whose box
/// does not move over the interval, and of a moving sphere queried inside
/// the interval.
pub open spec fn box_time_stable(p: Hittable, r: Ray, t0: Fx, t1: Fx) -> bool {
    match (sbb(p, r.time, r.time), sbb(p, t0, t1)) {
        (Some(bp), Some(bbp)) => crate::aabb::aabb_incl(bp, bbp),
        _ => false,
    }
}

/// A hit reported by a well-formed subtree lies inside the subtree's box
/// over the scene interval.
proof fn lemma_subtree_covers(
    child: Hittable,
    r: Ray,
    t0: Fx,
    t1: Fx,
    a: Fx,
    b: Fx,
    c: HitRecord,
    m: Material,
)
    requires
        wf_bvh(child, t0, t1),
        sbb(child, t0, t1) is Some,
        spec_hit(child, r, a, b) == Some((c, m)),
        forall|i: int|
            0 <= i < prims(child).len() ==> box_time_stable(#[trigger] prims(child)[i], r, t0, t1),
    ensures
        crate::aabb::aabb_contains_t(sbb(child, t0, t1)->Some_0, r, c.t),
{
    lemma_spec_hit_guard(child, r, a, b);
    match child {
        Hittable::Bvh(node) => {
            reveal(sbb);
            assert(sbb(child, r.time, r.time) == Some(node.bounding_box));
        },
        Hittable::Empty => {
            reveal(sbb);
        },
        _ => {
            assert(prims(child) =~= seq![child]);
            assert(box_time_stable(prims(child)[0], r, t0, t1));
            let bp = sbb(child, r.time, r.time)->Some_0;
            let bbp = sbb(child, t0, t1)->Some_0;
            crate::aabb::lemma_contains_mono_box(bp, bbp, r, c.t);
        },
    }
}

/// When a node's cached box rejects the interval, no primitive under it
/// reports a hit: the pruning of the hierarchy is sound.
proof fn lemma_node_prune_sound(node: BvhNode, r: Ray, t0: Fx, t1: Fx, a: Fx, b: Fx)
    requires
        wf_bvh(Hittable::Bvh(node), t0, t1),
        a@ <= b@,
        !crate::aabb::aabb_hit(node.bounding_box, r, a, b),
        forall|i: int|
            0 <= i < prims(Hittable::Bvh(node)).len() ==> box_time_stable(
                #[trigger] prims(Hittable::Bvh(node))[i],
                r,
                t0,
                t1,
            ),
    ensures
        list_first_hit(prims(Hittable::Bvh(node)), r, a, b) is None,
{
    let h = Hittable::Bvh(node);
    let s = prims(h);
    if list_first_hit(s, r, a, b) is Some {
        let c = list_first_hit(s, r, a, b)->Some_0.0;
        let m = list_first_hit(s, r, a, b)->Some_0.1;
        lemma_first_hit_covers(s, r, a, b, c, m);
        let i = choose|i: int| 0 <= i < s.len() && covers_at(#[trigger] s[i], r, c.t);
        reveal(sbb);
        lemma_prims_boxes(h, t0, t1);
        assert(box_time_stable(s[i], r, t0, t1));
        let bp = sbb(s[i], r.time, r.time)->Some_0;
        let bbp = sbb(s[i], t0, t1)->Some_0;
        crate::aabb::lemma_contains_mono_box(bp, bbp, r, c.t);
        crate::aabb::lemma_contains_mono_box(bbp, node.bounding_box, r, c.t);
        lemma_first_hit_range(s, r, a, b);
        lemma_first_hit_strict(s, r, a, b);
        crate::aabb::lemma_contains_to_hit(node.bounding_box, r, c.t, a, b);
        assert(false);
    }
}

/// Traversal of a well-formed hierarchy reports the same nearest hit as
/// first-hit-wins search over its primitives, for every ray, whatever the
/// tree shape: the one difference is a hit exactly at the far bound of the
/// query, which the strict linear fold drops while the hierarchy may keep
/// it.
#[verifier::rlimit(100)]
#[verifier::spinoff_prover]
pub proof fn lemma_bvh_matches_linear(h: Hittable, r: Ray, t0: Fx, t1: Fx, a: Fx, b: Fx)
    requires
        wf_bvh(h, t0, t1),
        no_medium(h),
        a@ <= b@,
        forall|i: int|
            0 <= i < prims(h).len() ==> box_time_stable(#[trigger] prims(h)[i], r, t0, t1),
    ensures
        (match (spec_hit(h, r, a, b), list_first_hit(prims(h), r, a, b)) {
            (Some(x), Some(y)) => x == y,
            (None, None) => true,
            (Some((c, cm)), None) => c.t == b,
            (None, Some(y)) => false,
        }),
    decreases h,
{
    reveal_with_fuel(spec_hit, 3);
    match h {
        Hittable::Bvh(node) => {
            let pl = prims(*node.left);
            let pr = prims(*node.right);
            assert(prims(h) == pl + pr);
            assert forall|i: int| 0 <= i < pl.len() implies box_time_stable(
                #[trigger] pl[i],
                r,
                t0,
                t1,
            ) by {
                assert(prims(h)[i] == pl[i]);
            }
            assert forall|i: int| 0 <= i < pr.len() implies box_time_stable(
                #[trigger] pr[i],
                r,
                t0,
                t1,
            ) by {
                assert(prims(h)[i + pl.len()] == pr[i]);
            }
            if !crate::aabb::aabb_hit(node.bounding_box, r, a, b) {
                lemma_node_prune_sound(node, r, t0, t1, a, b);
            } else {
                lemma_first_hit_concat(pl, pr, r, a, b);
                lemma_bvh_matches_linear(*node.left, r, t0, t1, a, b);
                crate::aabb::lemma_union_upper_bound(
                    sbb(*node.left, t0, t1)->Some_0,
                    sbb(*node.right, t0, t1)->Some_0,
                );
                match spec_hit(*node.left, r, a, b) {
                    Some((lc, lm)) => {
                        lemma_spec_hit_range(h, r, a, b);
                        lemma_spec_hit_range(*node.left, r, a, b);
                        lemma_bvh_matches_linear(*node.right, r, t0, t1, a, lc.t);
                        lemma_first_hit_strict(pr, r, a, lc.t);
                        lemma_first_hit_strict(pl, r, a, b);
                        if list_first_hit(pl, r, a, b) is None {
                            // the left hit sits exactly at the far bound
                            assert(lc.t == b);
                            lemma_bvh_matches_linear(*node.right, r, t0, t1, a, b);
                        }
                        // the final record always comes from one child
                        let inner = crate::hittable::bvh_arm(node, r, a, b);
                        if inner is Some {
                            let c = inner->Some_0.0;
                            let m = inner->Some_0.1;
                            let from_right = match spec_hit(*node.right, r, a, lc.t) {
                                Some((rc, rm)) => rc.t@ < lc.t@,
                                None => false,
                            };
                            if from_right {
                                lemma_subtree_covers(*node.right, r, t0, t1, a, lc.t, c, m);
                                crate::aabb::lemma_contains_mono_box(
                                    sbb(*node.right, t0, t1)->Some_0,
                                    node.bounding_box,
                                    r,
                                    c.t,
                                );
                            } else {
                                lemma_subtree_covers(*node.left, r, t0, t1, a, b, c, m);
                                crate::aabb::lemma_contains_mono_box(
                                    sbb(*node.left, t0, t1)->Some_0,
                                    node.bounding_box,
                                    r,
                                    c.t,
                                );
                            }
                            reveal(sbb);
                            assert(sbb(h, r.time, r.time) == Some(node.bounding_box));
                        }
                    },
                    None => {
                        lemma_bvh_matches_linear(*node.right, r, t0, t1, a, b);
                        let inner = crate::hittable::bvh_arm(node, r, a, b);
                        if inner is Some {
                            let c = inner->Some_0.0;
                            let m = inner->Some_0.1;
                            lemma_subtree_covers(*node.right, r, t0, t1, a, b, c, m);
                            crate::aabb::lemma_contains_mono_box(
                                sbb(*node.right, t0, t1)->Some_0,
                                node.bounding_box,
                                r,
                                c.t,
                            );
                            reveal(sbb);
                            assert(sbb(h, r.time, r.time) == Some(node.bounding_box));
                        }
                    },
                }
            }
        },
        Hittable::Empty => {
            assert(prims(h) =~= Seq::<Hittable>::empty());
        },
        _ => {
            assert(prims(h) =~= seq![h]);
            lemma_spec_hit_range(h, r, a, b);
            let e = Seq::<Hittable>::empty();
            assert(list_first_hit(e, r, a, b) is None);
            assert(seq![h].drop_last() =~= e);
            assert(list_first_hit(seq![h], r, a, b) == (match spec_hit(h, r, a, b) {
                Some((c, m)) => if c.t@ < b@ {
                    Some((c, m))
                } else {
                    None
                },
                None => None,
            }));
        },
    }
}

} // verus!

verus! {

/// Whether a tree moves over time: only a moving sphere does, so every
/// other tree keeps one bounding box at all times.
pub open spec fn no_moving(h: Hittable) -> bool
    decreases h,
{
    match h {
        Hittable::MovingSphere(_) => false,
        Hittable::ConstantMedium(m) => no_moving(*m.boundary),
        Hittable::Translate(tr) => no_moving(*tr.hittable),
        Hittable::Rotate(ro) => no_moving(*ro.hittable),
        Hittable::List(items) => forall|i: int|
            0 <= i < items@.len() ==> no_moving(#[trigger] items@[i]),
        Hittable::Bvh(node) => no_moving(*node.left) && no_moving(*node.right),
        _ => true,
    }
}

/// The bounding box of a motionless tree does not depend on the time
/// interval it is asked for.
pub proof fn lemma_static_box(h: Hittable, x0: Fx, x1: Fx, y0: Fx, y1: Fx)
    requires
        no_moving(h),
    ensures
        sbb(h, x0, x1) == sbb(h, y0, y1),
    decreases h, 1int,
{
    reveal(sbb);
    match h {
        Hittable::ConstantMedium(m) => {
            lemma_static_box(*m.boundary, x0, x1, y0, y1);
        },
        Hittable::Translate(tr) => {
            lemma_static_box(*tr.hittable, x0, x1, y0, y1);
        },
        Hittable::Rotate(ro) => {
            lemma_static_box(*ro.hittable, x0, x1, y0, y1);
        },
        Hittable::List(items) => {
            lemma_static_box_list(items@, x0, x1, y0, y1);
        },
        _ => {},
    }
}

/// List version of `lemma_static_box`.
proof fn lemma_static_box_list(s: Seq<Hittable>, x0: Fx, x1: Fx, y0: Fx, y1: Fx)
    requires
        forall|i: int| 0 <= i < s.len() ==> no_moving(#[trigger] s[i]),
    ensures
        crate::hittable::sbb_list(s, x0, x1) == crate::hittable::sbb_list(s, y0, y1),
    decreases s, 2int,
{
    reveal(sbb);
    if s.len() == 1 {
        lemma_static_box(s[0], x0, x1, y0, y1);
    } else if s.len() > 1 {
        assert(forall|i: int|
            0 <= i < s.drop_last().len() ==> no_moving(#[trigger] s.drop_last()[i]));
        lemma_static_box_list(s.drop_last(), x0, x1, y0, y1);
        lemma_static_box(s.last(), x0, x1, y0, y1);
    }
}

/// A motionless primitive with a box satisfies the time-stability
/// hypothesis of the traversal theorem, at any ray time.
pub proof fn lemma_static_box_stable(p: Hittable, r: Ray, t0: Fx, t1: Fx)
    requires
        no_moving(p),
        sbb(p, t0, t1) is Some,
    ensures
        box_time_stable(p, r, t0, t1),
{
    lemma_static_box(p, r.time, r.time, t0, t1);
}

} // verus!

verus! {

/// The interpolated center of a moving sphere at a time inside an interval
/// lies componentwise between its centers at the interval's ends.
proof fn lemma_ms_center_between(ms: crate::hittable::MovingSphere, tau: Fx, t0: Fx, t1: Fx)
    requires
        t0@ <= tau@ <= t1@,
    ensures
        ({
            let c0 = crate::hittable::ms_center(ms, t0);
            let c1 = crate::hittable::ms_center(ms, t1);
            let ct = crate::hittable::ms_center(ms, tau);
            &&& crate::fx::fx_min(c0.x, c1.x)@ <= ct.x@ <= crate::fx::fx_max(c0.x, c1.x)@
            &&& crate::fx::fx_min(c0.y, c1.y)@ <= ct.y@ <= crate::fx::fx_max(c0.y, c1.y)@
            &&& crate::fx::fx_min(c0.z, c1.z)@ <= ct.z@ <= crate::fx::fx_max(c0.z, c1.z)@
        }),
{
    reveal(crate::hittable::ms_center);
    let den = crate::fx::fx_sub(ms.time_end, ms.time_start);
    let s0 = crate::fx::fx_div(crate::fx::fx_sub(t0, ms.time_start), den);
    let st = crate::fx::fx_div(crate::fx::fx_sub(tau, ms.time_start), den);
    let s1 = crate::fx::fx_div(crate::fx::fx_sub(t1, ms.time_start), den);
    if den@ != 0 {
        crate::aabb::lemma_fx_div_mono(
            crate::fx::fx_sub(t0, ms.time_start),
            crate::fx::fx_sub(tau, ms.time_start),
            den,
        );
        crate::aabb::lemma_fx_div_mono(
            crate::fx::fx_sub(tau, ms.time_start),
            crate::fx::fx_sub(t1, ms.time_start),
            den,
        );
    }
    let d = crate::vec3::v3_sub(ms.center_end, ms.center_start);
    let lo = crate::fx::fx_min(s0, s1);
    let hi = crate::fx::fx_max(s0, s1);
    crate::fx::lemma_fx_mul_mono(d.x, lo, st);
    crate::fx::lemma_fx_mul_mono(d.x, st, hi);
    crate::fx::lemma_fx_mul_mono(d.x, lo, hi);
    crate::fx::lemma_fx_mul_mono(d.y, lo, st);
    crate::fx::lemma_fx_mul_mono(d.y, st, hi);
    crate::fx::lemma_fx_mul_mono(d.y, lo, hi);
    crate::fx::lemma_fx_mul_mono(d.z, lo, st);
    crate::fx::lemma_fx_mul_mono(d.z, st, hi);
    crate::fx::lemma_fx_mul_mono(d.z, lo, hi);
}

/// The stability hypothesis of the traversal theorem holds for every
/// motionless primitive, and for a moving sphere whenever the ray's time
/// lies inside the interval the hierarchy was built for.
pub proof fn lemma_prim_box_stable(p: Hittable, r: Ray, t0: Fx, t1: Fx)
    requires
        sbb(p, t0, t1) is Some,
        no_moving(p) || (p is MovingSphere && t0@ <= r.time@ <= t1@),
    ensures
        box_time_stable(p, r, t0, t1),
{
    if no_moving(p) {
        lemma_static_box_stable(p, r, t0, t1);
    } else {
        reveal(sbb);
        lemma_ms_center_between(p->MovingSphere_0, r.time, t0, t1);
    }
}

} // verus!
