//! The bounding-volume hierarchy: a binary tree over primitives, built by
//! sorting on a randomly chosen axis and splitting at the median; every node
//! caches a box that encloses its subtree.

use vstd::prelude::*;
use vstd::multiset::Multiset;
use vstd::seq_lib::{lemma_multiset_commutative, to_multiset_build, to_multiset_remove};
use crate::aabb::{aabb_contains_box, aabb_hit_spec, aabb_surround_spec, Aabb, AabbV};
use crate::hittable::{opt_record_data, Hittable, HitData, HitRecord, Primitive};
use crate::ray::{Ray, RayV};
use crate::rng::random_below;
use crate::vec3::{v3_component, Axis, Vec3};

verus! {

broadcast use vstd::seq_lib::group_to_multiset_ensures, vstd::multiset::group_multiset_axioms;

pub enum BvhNode {
    Branch { left: Box<Bvh>, right: Box<Bvh> },
    Leaf(Primitive),
}

pub struct Bvh {
    pub node: BvhNode,
    pub bounding_box: Aabb,
    /// The shutter interval the tree was built for; the cached boxes are the
    /// primitives' boxes over this interval.
    pub times: Ghost<(int, int)>,
}

/// Every primitive has a box; the tree never fails to find one.
pub proof fn lemma_primitive_has_box(p: Primitive, time0: int, time1: int)
    ensures
        p.box_spec(time0, time1) is Some,
{
    match p {
        Primitive::Sphere(s) => {},
        Primitive::Moving(m) => {},
    }
}

/// The sort key: the minimum corner of the primitive's box along the chosen
/// axis.
pub open spec fn box_axis_value_spec(p: Primitive, time0: int, time1: int, axis: Axis) -> int {
    v3_component(p.box_spec(time0, time1).unwrap().minimum, axis)
}

fn get_box_axis_value(a: &Primitive, time0: i64, time1: i64, axis: &Axis) -> (r: i64)
    requires
        a.wf(),
    ensures
        r as int == box_axis_value_spec(*a, time0 as int, time1 as int, *axis),
{
    proof {
        lemma_primitive_has_box(*a, time0 as int, time1 as int);
    }
    let ob = a.bounding_box(time0, time1);
    match ob {
        Some(b) => b.minimum.component(*axis),
        None => {
            proof {
                assert(false);
            }
            0
        },
    }
}

/// Ascending by the box minimum along `axis`.
pub open spec fn sorted_by_axis(s: Seq<Primitive>, time0: int, time1: int, axis: Axis) -> bool {
    forall|i: int, j: int| 0 <= i < j < s.len() ==> #[trigger] box_axis_value_spec(s[i], time0,
        time1, axis) <= #[trigger] box_axis_value_spec(s[j], time0, time1, axis)
}

/// Selection sort into a fresh vector: a permutation of the input, ascending
/// along the chosen axis.
fn sort_by_axis(objects: Vec<Primitive>, time0: i64, time1: i64, axis: Axis) -> (r: Vec<
    Primitive>)
    requires
        forall|i: int| 0 <= i < objects@.len() ==> (#[trigger] objects@[i]).wf(),
    ensures
        r@.to_multiset() == objects@.to_multiset(),
        r@.len() == objects@.len(),
        forall|i: int| 0 <= i < r@.len() ==> (#[trigger] r@[i]).wf(),
        sorted_by_axis(r@, time0 as int, time1 as int, axis),
{
    let ghost all = objects@;
    let mut src = objects;
    let mut out: Vec<Primitive> = Vec::new();
    proof {
        assert(out@.to_multiset().add(src@.to_multiset()) =~= all.to_multiset());
    }
    while src.len() > 0
        invariant
            out@.to_multiset().add(src@.to_multiset()) == all.to_multiset(),
            out@.len() + src@.len() == all.len(),
            forall|i: int| 0 <= i < out@.len() ==> (#[trigger] out@[i]).wf(),
            forall|i: int| 0 <= i < src@.len() ==> (#[trigger] src@[i]).wf(),
            sorted_by_axis(out@, time0 as int, time1 as int, axis),
            forall|i: int, j: int| 0 <= i < out@.len() && 0 <= j < src@.len()
                ==> #[trigger] box_axis_value_spec(out@[i], time0 as int, time1 as int, axis)
                <= #[trigger] box_axis_value_spec(src@[j], time0 as int, time1 as int, axis),
        decreases src@.len(),
    {
        let mut m: usize = 0;
        let mut k: usize = 1;
        while k < src.len()
            invariant
                src@.len() > 0,
                m < k,
                k <= src@.len(),
                forall|i: int| 0 <= i < src@.len() ==> (#[trigger] src@[i]).wf(),
                forall|t: int| 0 <= t < k ==> box_axis_value_spec(src@[m as int], time0 as int,
                    time1 as int, axis) <= #[trigger] box_axis_value_spec(src@[t], time0 as int,
                    time1 as int, axis),
            decreases src@.len() - k,
        {
            if get_box_axis_value(&src[k], time0, time1, &axis) < get_box_axis_value(
                &src[m], time0, time1, &axis) {
                m = k;
            }
            k = k + 1;
        }
        proof {
            to_multiset_remove(src@, m as int);
        }
        let ghost old_src = src@;
        let ghost old_out = out@;
        let p = src.remove(m);
        proof {
            to_multiset_build(out@, p);
        }
        out.push(p);
        proof {
            assert(old_src.contains(p)) by {
                assert(old_src[m as int] == p);
            }
            assert(old_src.to_multiset().count(p) > 0);
            assert(out@.to_multiset() =~= old_out.to_multiset().insert(p));
            assert(src@.to_multiset() =~= old_src.to_multiset().remove(p));
            assert(out@.to_multiset().add(src@.to_multiset()) =~= all.to_multiset());
            assert forall|i: int| 0 <= i < src@.len() implies (#[trigger] src@[i]).wf() by {
                if i < m {
                    assert(src@[i] == old_src[i]);
                } else {
                    assert(src@[i] == old_src[i + 1]);
                }
            }
            assert forall|i: int, j: int| 0 <= i < out@.len() && 0 <= j < src@.len()
                implies #[trigger] box_axis_value_spec(out@[i], time0 as int, time1 as int,
                axis) <= #[trigger] box_axis_value_spec(src@[j], time0 as int, time1 as int,
                axis) by {
                let jj = if j < m { j } else { j + 1 };
                assert(src@[j] == old_src[jj]);
                if i < out@.len() - 1 {
                    assert(out@[i] == old_out[i]);
                } else {
                    assert(out@[i] == p);
                }
            }
        }
    }
    proof {
        assert(src@.to_multiset() =~= Multiset::<Primitive>::empty());
        assert(out@.to_multiset().add(src@.to_multiset()) =~= out@.to_multiset());
    }
    out
}

/// The in-order sequence of primitives at the leaves.
pub open spec fn bvh_prims(b: Bvh) -> Seq<Primitive>
    decreases b,
{
    match b.node {
        BvhNode::Leaf(p) => seq![p],
        BvhNode::Branch { left, right } => bvh_prims(*left) + bvh_prims(*right),
    }
}

impl Hittable for Bvh {
    /// Well-formedness is the enclosure invariant: leaves carry their
    /// primitive's box over the construction interval, and an interior box
    /// contains both children's boxes.
    open spec fn wf(&self) -> bool
        decreases self,
    {
        match self.node {
            BvhNode::Leaf(p) => p.wf() && p.box_spec(self.times@.0, self.times@.1)
                == Some(self.bounding_box@),
            BvhNode::Branch { left, right } => {
                &&& left.wf()
                &&& right.wf()
                &&& left.times@ == self.times@
                &&& right.times@ == self.times@
                &&& self.bounding_box@ == aabb_surround_spec(left.bounding_box@,
                    right.bounding_box@)
                &&& aabb_contains_box(self.bounding_box@, left.bounding_box@)
                &&& aabb_contains_box(self.bounding_box@, right.bounding_box@)
            },
        }
    }

    /// Traversal: prune by the slab test, query both children, return the
    /// closer record.
    open spec fn hit_spec(&self, r: RayV, t_min: int, t_max: int) -> Option<HitData>
        decreases self,
    {
        if !aabb_hit_spec(self.bounding_box@, r, t_min, t_max) {
            None
        } else {
            match self.node {
                BvhNode::Leaf(p) => p.hit_spec(r, t_min, t_max),
                BvhNode::Branch { left, right } => {
                    let lh = left.hit_spec(r, t_min, t_max);
                    let rh = right.hit_spec(r, t_min, t_max);
                    match (lh, rh) {
                        (Some(a), Some(b)) => if a.t < b.t {
                            Some(a)
                        } else {
                            Some(b)
                        },
                        (Some(a), None) => Some(a),
                        (None, Some(b)) => Some(b),
                        (None, None) => None,
                    }
                },
            }
        }
    }

    open spec fn box_spec(&self, time0: int, time1: int) -> Option<AabbV> {
        Some(self.bounding_box@)
    }

    fn hit(&self, ray: &Ray, t_min: i64, t_max: i64) -> (r: Option<HitRecord<'_>>)
        decreases *self,
    {
        if !self.bounding_box.hit(ray, t_min, t_max) {
            return None;
        }
        match &self.node {
            BvhNode::Leaf(p) => p.hit(ray, t_min, t_max),
            BvhNode::Branch { left, right } => {
                let hit_left = left.hit(ray, t_min, t_max);
                let hit_right = right.hit(ray, t_min, t_max);
                match (hit_left, hit_right) {
                    (Some(left_record), Some(right_record)) => {
                        if left_record.t < right_record.t {
                            Some(left_record)
                        } else {
                            Some(right_record)
                        }
                    },
                    (Some(left_record), None) => Some(left_record),
                    (None, Some(right_record)) => Some(right_record),
                    (None, None) => None,
                }
            },
        }
    }

    fn bounding_box(&self, time0: i64, time1: i64) -> (r: Option<Aabb>) {
        Some(self.bounding_box)
    }
}


/// Some leaf of the subtree reports a hit in the queried bounds.
pub open spec fn bvh_subtree_has_hit(b: Bvh, r: RayV, t_min: int, t_max: int) -> bool {
    exists|i: int| 0 <= i < bvh_prims(b).len() && (#[trigger] bvh_prims(b)[i].hit_spec(r,
        t_min, t_max)) is Some
}

/// The slab test never wrongly prunes on this query: every subtree holding a
/// hit primitive passes its box test. Exact on real arithmetic, this can fail
/// by a rounding step in fixed point (as it can in floating point), so the
/// completeness law below assumes it.
pub open spec fn bvh_no_false_prune(b: Bvh, r: RayV, t_min: int, t_max: int) -> bool
    decreases b,
{
    &&& (bvh_subtree_has_hit(b, r, t_min, t_max) ==> aabb_hit_spec(b.bounding_box@, r, t_min,
        t_max))
    &&& match b.node {
        BvhNode::Branch { left, right } => bvh_no_false_prune(*left, r, t_min, t_max)
            && bvh_no_false_prune(*right, r, t_min, t_max),
        BvhNode::Leaf(_) => true,
    }
}


/// BVH soundness: whatever the traversal returns is the reported hit of one
/// of the primitives at the leaves, on the same bounds.
pub proof fn lemma_bvh_hit_sound(b: Bvh, r: RayV, t_min: int, t_max: int)
    requires
        b.hit_spec(r, t_min, t_max) is Some,
    ensures
        exists|i: int| 0 <= i < bvh_prims(b).len() && (#[trigger] bvh_prims(b)[i].hit_spec(r,
            t_min, t_max)) == b.hit_spec(r, t_min, t_max),
    decreases b,
{
    let res = b.hit_spec(r, t_min, t_max);
    match b.node {
        BvhNode::Leaf(p) => {
            assert(bvh_prims(b)[0].hit_spec(r, t_min, t_max) == res);
        },
        BvhNode::Branch { left, right } => {
            let lp = bvh_prims(*left);
            let rp = bvh_prims(*right);
            assert(bvh_prims(b) == lp + rp);
            let lh = left.hit_spec(r, t_min, t_max);
            let rh = right.hit_spec(r, t_min, t_max);
            if lh is Some && res == lh {
                lemma_bvh_hit_sound(*left, r, t_min, t_max);
                let i = choose|i: int| 0 <= i < lp.len() && (#[trigger] lp[i].hit_spec(r,
                    t_min, t_max)) == lh;
                assert(bvh_prims(b)[i].hit_spec(r, t_min, t_max) == res);
            } else {
                assert(rh is Some && res == rh);
                lemma_bvh_hit_sound(*right, r, t_min, t_max);
                let i = choose|i: int| 0 <= i < rp.len() && (#[trigger] rp[i].hit_spec(r,
                    t_min, t_max)) == rh;
                assert(bvh_prims(b)[lp.len() + i].hit_spec(r, t_min, t_max) == res);
            }
        },
    }
}

/// BVH completeness and closest-hit: wherever the slab tests do not wrongly
/// prune, a ray that hits any primitive at the leaves gets a result from the
/// traversal, and that result's parameter is the smallest among all the
/// leaves' reported hits.
pub proof fn lemma_bvh_hit_complete(b: Bvh, r: RayV, t_min: int, t_max: int)
    requires
        bvh_no_false_prune(b, r, t_min, t_max),
    ensures
        forall|i: int| 0 <= i < bvh_prims(b).len() && (#[trigger] bvh_prims(b)[i].hit_spec(r,
            t_min, t_max)) is Some ==> b.hit_spec(r, t_min, t_max) is Some && b.hit_spec(r,
            t_min, t_max).unwrap().t <= bvh_prims(b)[i].hit_spec(r, t_min, t_max).unwrap().t,
    decreases b,
{
    let res = b.hit_spec(r, t_min, t_max);
    match b.node {
        BvhNode::Leaf(p) => {},
        BvhNode::Branch { left, right } => {
            lemma_bvh_hit_complete(*left, r, t_min, t_max);
            lemma_bvh_hit_complete(*right, r, t_min, t_max);
            let lp = bvh_prims(*left);
            let rp = bvh_prims(*right);
            assert(bvh_prims(b) == lp + rp);
            assert forall|i: int| 0 <= i < bvh_prims(b).len() && (#[trigger] bvh_prims(b)[
                i].hit_spec(r, t_min, t_max)) is Some implies res is Some && res.unwrap().t
                <= bvh_prims(b)[i].hit_spec(r, t_min, t_max).unwrap().t by {
                assert(bvh_subtree_has_hit(b, r, t_min, t_max));
                assert(aabb_hit_spec(b.bounding_box@, r, t_min, t_max));
                let lh = left.hit_spec(r, t_min, t_max);
                let rh = right.hit_spec(r, t_min, t_max);
                if i < lp.len() {
                    assert(lp[i] == bvh_prims(b)[i]);
                    assert(bvh_subtree_has_hit(*left, r, t_min, t_max));
                    assert(lh is Some && lh.unwrap().t <= lp[i].hit_spec(r, t_min,
                        t_max).unwrap().t);
                } else {
                    assert(rp[i - lp.len()] == bvh_prims(b)[i]);
                    assert(bvh_subtree_has_hit(*right, r, t_min, t_max));
                    assert(rh is Some && rh.unwrap().t <= rp[i - lp.len()].hit_spec(r, t_min,
                        t_max).unwrap().t);
                }
            }
        },
    }
}

/// Query equivalence with the linear scan: wherever the slab tests do not
/// wrongly prune, the tree and the flat list over its own leaves agree on
/// whether the ray hits and on the returned parameter. `Bvh::new` makes
/// those leaves a permutation of its input list.
pub proof fn lemma_bvh_matches_list(b: Bvh, r: RayV, t_min: int, t_max: int)
    requires
        bvh_no_false_prune(b, r, t_min, t_max),
    ensures
        ({
            let lres = crate::hittable::list_hit_loop(bvh_prims(b), r, t_min, None, t_max);
            let bres = b.hit_spec(r, t_min, t_max);
            &&& (lres is Some <==> bres is Some)
            &&& (lres is Some ==> lres.unwrap().t == bres.unwrap().t)
        }),
{
    let prims = bvh_prims(b);
    let lres = crate::hittable::list_hit_loop(prims, r, t_min, None, t_max);
    let bres = b.hit_spec(r, t_min, t_max);
    crate::hittable::lemma_list_loop_closest(prims, r, t_min, None, t_max);
    crate::hittable::lemma_list_loop_sound(prims, r, t_min, None, t_max);
    lemma_bvh_hit_complete(b, r, t_min, t_max);
    if bres is Some {
        lemma_bvh_hit_sound(b, r, t_min, t_max);
        let i = choose|i: int| 0 <= i < prims.len() && (#[trigger] prims[i].hit_spec(r, t_min,
            t_max)) == bres;
        assert(prims[i].hit_spec(r, t_min, t_max) == bres);
        assert(lres is Some && lres.unwrap().t <= bres.unwrap().t);
    }
    if lres is Some {
        let j = choose|j: int| 0 <= j < prims.len() && (#[trigger] prims[j].hit_spec(r, t_min,
            t_max)) == lres;
        assert(prims[j].hit_spec(r, t_min, t_max) == lres);
        assert(bres is Some && bres.unwrap().t <= lres.unwrap().t);
    }
}

impl Bvh {
    /// Build the tree over a non-empty primitive list for one shutter
    /// interval: pick a random axis, sort by it, split at the median, and
    /// cache the union box. The result satisfies the enclosure invariant and
    /// holds exactly the input primitives at its leaves.
    pub fn new(objects: Vec<Primitive>, time0: i64, time1: i64) -> (r: Bvh)
        requires
            objects@.len() >= 1,
            forall|i: int| 0 <= i < objects@.len() ==> (#[trigger] objects@[i]).wf(),
        ensures
            r.wf(),
            r.times@ == (time0 as int, time1 as int),
            bvh_prims(r).to_multiset() == objects@.to_multiset(),
        decreases objects@.len(),
    {
        let ghost input = objects@;
        let mut objects = objects;
        if objects.len() == 1 {
            let po = objects.pop();
            match po {
                Some(p) => {
                    proof {
                        lemma_primitive_has_box(p, time0 as int, time1 as int);
                        assert(input =~= seq![p]);
                    }
                    let ob = p.bounding_box(time0, time1);
                    match ob {
                        Some(bb) => {
                            let r = Bvh {
                                node: BvhNode::Leaf(p),
                                bounding_box: bb,
                                times: Ghost((time0 as int, time1 as int)),
                            };
                            proof {
                                assert(bvh_prims(r) =~= seq![p]);
                            }
                            r
                        },
                        None => {
                            proof {
                                assert(false);
                            }
                            Bvh {
                                node: BvhNode::Leaf(p),
                                bounding_box: Aabb::new(Vec3::zero(), Vec3::zero()),
                                times: Ghost((time0 as int, time1 as int)),
                            }
                        },
                    }
                },
                None => {
                    proof {
                        assert(false);
                    }
                    Bvh::new(objects, time0, time1)
                },
            }
        } else {
            let axis_idx = random_below(3);
            let axis = if axis_idx == 0 {
                Axis::X
            } else if axis_idx == 1 {
                Axis::Y
            } else {
                Axis::Z
            };
            let mut sorted = sort_by_axis(objects, time0, time1, axis);
            let mid = sorted.len() / 2;
            let ghost sorted_view = sorted@;
            let right_vec = sorted.split_off(mid);
            let left_vec = sorted;
            proof {
                assert(left_vec@ + right_vec@ =~= sorted_view);
                lemma_multiset_commutative(left_vec@, right_vec@);
            }
            let left = Bvh::new(left_vec, time0, time1);
            let right = Bvh::new(right_vec, time0, time1);
            let ghost lps = bvh_prims(left);
            let ghost rps = bvh_prims(right);
            let right_box = right.bounding_box;
            let left_box = left.bounding_box;
            let full_bounding_box = right_box.surrounding_box(&left_box);
            proof {
                assert(full_bounding_box@ == aabb_surround_spec(left_box@, right_box@));
            }
            let r = Bvh {
                node: BvhNode::Branch { left: Box::new(left), right: Box::new(right) },
                bounding_box: full_bounding_box,
                times: Ghost((time0 as int, time1 as int)),
            };
            proof {
                lemma_multiset_commutative(lps, rps);
                assert(bvh_prims(r) =~= lps + rps);
            }
            r
        }
    }
}

} // verus!
