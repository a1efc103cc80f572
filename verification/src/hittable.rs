//! The hit pipeline: intersection records, the `Hittable` capability, the
//! primitive sum type, and the linear-scan list of primitives.

use vstd::prelude::*;
use crate::aabb::{aabb_surround_spec, Aabb, AabbV};
use crate::materials::{material_wf, Material};
use crate::moving_sphere::MovingSphere;
use crate::ray::{Ray, RayV};
use crate::sphere::Sphere;
use crate::vec3::{v3_dot, v3_neg, Vec3, V3};

verus! {

/// Mathematical content of an intersection: the record's fields with the
/// material by value.
pub ghost struct HitData {
    pub p: V3,
    pub normal: V3,
    pub t: int,
    pub front_face: bool,
    pub u: int,
    pub v: int,
    pub material: Material,
}

/// Intersection payload handed up the hit pipeline; borrows the material from
/// the primitive that was hit.
pub struct HitRecord<'a> {
    pub p: Vec3,
    pub normal: Vec3,
    pub t: i64,
    pub front_face: bool,
    pub u: i64,
    pub v: i64,
    pub material: &'a Material,
}

pub open spec fn record_data<'a>(h: HitRecord<'a>) -> HitData {
    HitData {
        p: h.p@,
        normal: h.normal@,
        t: h.t as int,
        front_face: h.front_face,
        u: h.u as int,
        v: h.v as int,
        material: *h.material,
    }
}

pub open spec fn opt_record_data<'a>(r: Option<HitRecord<'a>>) -> Option<HitData> {
    match r {
        Some(h) => Some(record_data(h)),
        None => None,
    }
}

/// The record constructed from an outward normal: the stored normal is the
/// outward normal turned against the incident direction, and `front_face`
/// says which way it went.
pub open spec fn hit_data_new(p: V3, outward: V3, t: int, u: int, v: int, dir: V3, m: Material)
    -> HitData {
    let ff = v3_dot(dir, outward) < 0;
    HitData {
        p,
        normal: if ff { outward } else { v3_neg(outward) },
        t,
        front_face: ff,
        u,
        v,
        material: m,
    }
}

impl<'a> HitRecord<'a> {
    pub fn new(
        p: Vec3,
        outward_normal: Vec3,
        t: i64,
        u: i64,
        v: i64,
        ray: &Ray,
        material: &'a Material,
    ) -> (r: HitRecord<'a>)
        ensures
            record_data(r) == hit_data_new(p@, outward_normal@, t as int, u as int, v as int,
                ray@.direction, *material),
            r.front_face == (v3_dot(ray@.direction, outward_normal@) < 0),
            r.front_face ==> r.normal == outward_normal,
            !r.front_face ==> r.normal@ == v3_neg(outward_normal@),
    {
        let front_face = ray.direction.dot(outward_normal) < 0;
        HitRecord {
            p,
            normal: if front_face {
                outward_normal
            } else {
                outward_normal.neg()
            },
            t,
            front_face,
            u,
            v,
            material,
        }
    }
}

impl<'a> HitRecord<'a> {
    pub fn t(&self) -> (r: i64)
        ensures
            r == self.t,
    {
        self.t
    }

    pub fn normal(&self) -> (r: Vec3)
        ensures
            r == self.normal,
    {
        self.normal
    }

    pub fn p(&self) -> (r: Vec3)
        ensures
            r == self.p,
    {
        self.p
    }

    pub fn material(&self) -> (r: &'a Material)
        ensures
            r == self.material,
    {
        self.material
    }
}

/// The capability shared by primitives, primitive lists and the BVH:
/// intersection and bounds, each pinned to a spec-level account of itself.
pub trait Hittable: Sized {
    spec fn wf(&self) -> bool;

    spec fn hit_spec(&self, r: RayV, t_min: int, t_max: int) -> Option<HitData>;

    spec fn box_spec(&self, time0: int, time1: int) -> Option<AabbV>;

    fn hit(&self, ray: &Ray, t_min: i64, t_max: i64) -> (r: Option<HitRecord<'_>>)
        requires
            self.wf(),
        ensures
            opt_record_data(r) == self.hit_spec(ray@, t_min as int, t_max as int),
            match r {
                Some(h) => material_wf(*h.material),
                None => true,
            },
    ;

    fn bounding_box(&self, time0: i64, time1: i64) -> (r: Option<Aabb>)
        requires
            self.wf(),
        ensures
            match r {
                Some(b) => self.box_spec(time0 as int, time1 as int) == Some(b@),
                None => self.box_spec(time0 as int, time1 as int) is None,
            },
    ;
}

/// A concrete primitive.
pub enum Primitive {
    Sphere(Sphere),
    Moving(MovingSphere),
}

impl Hittable for Primitive {
    open spec fn wf(&self) -> bool {
        match self {
            Primitive::Sphere(s) => s.wf(),
            Primitive::Moving(m) => m.wf(),
        }
    }

    open spec fn hit_spec(&self, r: RayV, t_min: int, t_max: int) -> Option<HitData> {
        match self {
            Primitive::Sphere(s) => s.hit_spec(r, t_min, t_max),
            Primitive::Moving(m) => m.hit_spec(r, t_min, t_max),
        }
    }

    open spec fn box_spec(&self, time0: int, time1: int) -> Option<AabbV> {
        match self {
            Primitive::Sphere(s) => s.box_spec(time0, time1),
            Primitive::Moving(m) => m.box_spec(time0, time1),
        }
    }

    fn hit(&self, ray: &Ray, t_min: i64, t_max: i64) -> (r: Option<HitRecord<'_>>) {
        match self {
            Primitive::Sphere(s) => s.hit(ray, t_min, t_max),
            Primitive::Moving(m) => m.hit(ray, t_min, t_max),
        }
    }

    fn bounding_box(&self, time0: i64, time1: i64) -> (r: Option<Aabb>) {
        match self {
            Primitive::Sphere(s) => s.bounding_box(time0, time1),
            Primitive::Moving(m) => m.bounding_box(time0, time1),
        }
    }
}

/// The linear scan over a primitive list: each hit narrows the upper bound,
/// so the record that survives is the closest.
pub open spec fn list_hit_loop(
    s: Seq<Primitive>,
    r: RayV,
    t_min: int,
    acc: Option<HitData>,
    t_hi: int,
) -> Option<HitData>
    decreases s.len(),
{
    if s.len() == 0 {
        acc
    } else {
        match s[0].hit_spec(r, t_min, t_hi) {
            Some(h) => list_hit_loop(s.drop_first(), r, t_min, Some(h), h.t),
            None => list_hit_loop(s.drop_first(), r, t_min, acc, t_hi),
        }
    }
}

/// Union of all primitive boxes, folded from the first.
pub open spec fn list_box_loop(s: Seq<Primitive>, time0: int, time1: int, acc: AabbV)
    -> Option<AabbV>
    decreases s.len(),
{
    if s.len() == 0 {
        Some(acc)
    } else {
        match s[0].box_spec(time0, time1) {
            Some(b) => list_box_loop(s.drop_first(), time0, time1, aabb_surround_spec(acc, b)),
            None => None,
        }
    }
}


/// Interval facts of a primitive's hit: the parameter lies in the queried
/// range; a miss stays a miss when the range shrinks; and a hit whose
/// parameter still fits survives shrinking the upper bound.
pub proof fn lemma_primitive_hit_narrow(p: Primitive, r: RayV, t_min: int, t_hi: int, t_hi2: int)
    requires
        t_hi2 <= t_hi,
    ensures
        p.hit_spec(r, t_min, t_hi) is Some ==> t_min <= p.hit_spec(r, t_min, t_hi).unwrap().t
            <= t_hi,
        p.hit_spec(r, t_min, t_hi) is None ==> p.hit_spec(r, t_min, t_hi2) is None,
        (p.hit_spec(r, t_min, t_hi) is Some && p.hit_spec(r, t_min, t_hi).unwrap().t <= t_hi2)
            ==> p.hit_spec(r, t_min, t_hi2) == p.hit_spec(r, t_min, t_hi),
        p.hit_spec(r, t_min, t_hi2) is Some ==> p.hit_spec(r, t_min, t_hi) == p.hit_spec(r,
            t_min, t_hi2),
{
    match p {
        Primitive::Sphere(s) => {
            let oc = crate::vec3::v3_sub(r.origin, s.center@);
            let b = v3_dot(oc, r.direction);
            let c = crate::fixed::fx_sub_spec(crate::vec3::v3_length_squared(oc),
                crate::fixed::fx_mul_spec(s.radius as int, s.radius as int));
            let disc = crate::fixed::fx_sub_spec(crate::fixed::fx_mul_spec(b, b), c);
            if disc > 0 {
                crate::fixed::lemma_sqrt_floor_exists(disc * 65536);
            }
            assert(crate::fixed::fx_sqrt_spec(disc) >= 0);
        },
        Primitive::Moving(m) => {
            let center = crate::moving_sphere::moving_center_spec(m, r.time);
            let oc = crate::vec3::v3_sub(r.origin, center);
            let b = v3_dot(oc, r.direction);
            let c = crate::fixed::fx_sub_spec(crate::vec3::v3_length_squared(oc),
                crate::fixed::fx_mul_spec(m.radius as int, m.radius as int));
            let disc = crate::fixed::fx_sub_spec(crate::fixed::fx_mul_spec(b, b), c);
            if disc > 0 {
                crate::fixed::lemma_sqrt_floor_exists(disc * 65536);
            }
            assert(crate::fixed::fx_sqrt_spec(disc) >= 0);
        },
    }
}

/// The linear scan is complete and returns the closest hit: whenever some
/// primitive reports a hit inside the running bound, the fold's result
/// exists and its parameter is no larger; an accumulated record can only be
/// improved on.
pub proof fn lemma_list_loop_closest(
    s: Seq<Primitive>,
    r: RayV,
    t_min: int,
    acc: Option<HitData>,
    t_hi: int,
)
    requires
        acc is Some ==> acc.unwrap().t == t_hi,
    ensures
        ({
            let res = list_hit_loop(s, r, t_min, acc, t_hi);
            &&& (acc is Some ==> res is Some && res.unwrap().t <= acc.unwrap().t)
            &&& (res is Some ==> res.unwrap().t <= t_hi)
            &&& forall|i: int| 0 <= i < s.len() && (#[trigger] s[i].hit_spec(r, t_min,
                t_hi)) is Some ==> res is Some && res.unwrap().t <= s[i].hit_spec(r, t_min,
                t_hi).unwrap().t
        }),
    decreases s.len(),
{
    let res = list_hit_loop(s, r, t_min, acc, t_hi);
    if s.len() == 0 {
    } else {
        let rest = s.drop_first();
        match s[0].hit_spec(r, t_min, t_hi) {
            Some(h) => {
                lemma_primitive_hit_narrow(s[0], r, t_min, t_hi, t_hi);
                lemma_list_loop_closest(rest, r, t_min, Some(h), h.t);
                assert forall|i: int| 0 <= i < s.len() && (#[trigger] s[i].hit_spec(r, t_min,
                    t_hi)) is Some implies res is Some && res.unwrap().t <= s[i].hit_spec(r,
                    t_min, t_hi).unwrap().t by {
                    if i == 0 {
                    } else {
                        let hi2 = s[i].hit_spec(r, t_min, t_hi);
                        assert(rest[i - 1] == s[i]);
                        if hi2.unwrap().t <= h.t {
                            lemma_primitive_hit_narrow(s[i], r, t_min, t_hi, h.t);
                            assert(rest[i - 1].hit_spec(r, t_min, h.t) == hi2);
                        } else {
                            assert(res.unwrap().t <= h.t);
                        }
                    }
                }
            },
            None => {
                lemma_list_loop_closest(rest, r, t_min, acc, t_hi);
                assert forall|i: int| 0 <= i < s.len() && (#[trigger] s[i].hit_spec(r, t_min,
                    t_hi)) is Some implies res is Some && res.unwrap().t <= s[i].hit_spec(r,
                    t_min, t_hi).unwrap().t by {
                    if i > 0 {
                        assert(rest[i - 1] == s[i]);
                    }
                }
            },
        }
    }
}

/// List soundness for the fold: the record that survives is either the
/// accumulator that went in, or the hit one of the scanned primitives
/// reports on the fold's own bounds.
pub proof fn lemma_list_loop_sound(
    s: Seq<Primitive>,
    r: RayV,
    t_min: int,
    acc: Option<HitData>,
    t_hi: int,
)
    requires
        acc is Some ==> acc.unwrap().t == t_hi,
    ensures
        ({
            let res = list_hit_loop(s, r, t_min, acc, t_hi);
            res is Some ==> (acc is Some && res == acc) || exists|i: int| 0 <= i < s.len()
                && (#[trigger] s[i].hit_spec(r, t_min, t_hi)) == res
        }),
    decreases s.len(),
{
    let res = list_hit_loop(s, r, t_min, acc, t_hi);
    if s.len() > 0 {
        let rest = s.drop_first();
        match s[0].hit_spec(r, t_min, t_hi) {
            Some(h) => {
                lemma_primitive_hit_narrow(s[0], r, t_min, t_hi, t_hi);
                lemma_list_loop_sound(rest, r, t_min, Some(h), h.t);
                if res is Some {
                    if res == Some(h) {
                        assert(s[0].hit_spec(r, t_min, t_hi) == res);
                    } else {
                        let i = choose|i: int| 0 <= i < rest.len() && (#[trigger] rest[
                            i].hit_spec(r, t_min, h.t)) == res;
                        assert(rest[i] == s[i + 1]);
                        lemma_primitive_hit_narrow(s[i + 1], r, t_min, t_hi, h.t);
                        assert(s[i + 1].hit_spec(r, t_min, t_hi) == res);
                    }
                }
            },
            None => {
                lemma_list_loop_sound(rest, r, t_min, acc, t_hi);
                if res is Some && !(acc is Some && res == acc) {
                    let i = choose|i: int| 0 <= i < rest.len() && (#[trigger] rest[i].hit_spec(
                        r, t_min, t_hi)) == res;
                    assert(rest[i] == s[i + 1]);
                    assert(s[i + 1].hit_spec(r, t_min, t_hi) == res);
                }
            },
        }
    }
}

/// For any ray that hits at least one primitive of the list within the
/// bounds, the list's own hit exists and carries the smallest parameter
/// among every primitive's reported hit.
pub proof fn lemma_list_hit_closest(objects: Seq<Primitive>, r: RayV, t_min: int, t_max: int)
    ensures
        forall|i: int| 0 <= i < objects.len() && (#[trigger] objects[i].hit_spec(r, t_min,
            t_max)) is Some ==> list_hit_loop(objects, r, t_min, None, t_max) is Some
            && list_hit_loop(objects, r, t_min, None, t_max).unwrap().t
            <= objects[i].hit_spec(r, t_min, t_max).unwrap().t,
{
    lemma_list_loop_closest(objects, r, t_min, None, t_max);
}

impl Hittable for Vec<Primitive> {
    open spec fn wf(&self) -> bool {
        forall|i: int| 0 <= i < self@.len() ==> (#[trigger] self@[i]).wf()
    }

    open spec fn hit_spec(&self, r: RayV, t_min: int, t_max: int) -> Option<HitData> {
        list_hit_loop(self@, r, t_min, None, t_max)
    }

    open spec fn box_spec(&self, time0: int, time1: int) -> Option<AabbV> {
        if self@.len() == 0 {
            None
        } else {
            match self@[0].box_spec(time0, time1) {
                Some(b) => list_box_loop(self@.drop_first(), time0, time1, b),
                None => None,
            }
        }
    }

    #[verifier::rlimit(50)]
    fn hit(&self, ray: &Ray, t_min: i64, t_max: i64) -> (r: Option<HitRecord<'_>>) {
        let mut current: Option<HitRecord<'_>> = None;
        let mut closest: i64 = t_max;
        let mut i: usize = 0;
        proof {
            assert(self@.skip(0) =~= self@);
        }
        while i < self.len()
            invariant
                self.wf(),
                i <= self@.len(),
                list_hit_loop(self@.skip(i as int), ray@, t_min as int, opt_record_data(current),
                    closest as int) == list_hit_loop(self@, ray@, t_min as int, None,
                    t_max as int),
                match current {
                    Some(h) => closest == h.t && material_wf(*h.material),
                    None => closest == t_max,
                },
            decreases self@.len() - i,
        {
            proof {
                assert(self@.skip(i as int)[0] == self@[i as int]);
                assert(self@.skip(i as int).drop_first() =~= self@.skip(i as int + 1));
            }
            let res = self[i].hit(ray, t_min, closest);
            match res {
                Some(h) => {
                    closest = h.t;
                    current = Some(h);
                },
                None => {},
            }
            i = i + 1;
        }
        proof {
            assert(self@.skip(i as int) =~= Seq::<Primitive>::empty());
        }
        current
    }

    fn bounding_box(&self, time0: i64, time1: i64) -> (r: Option<Aabb>) {
        if self.len() == 0 {
            return None;
        }
        let first = self[0].bounding_box(time0, time1);
        let mut output: Aabb = match first {
            None => {
                return None;
            },
            Some(b) => b,
        };
        let mut i: usize = 1;
        while i < self.len()
            invariant
                self.wf(),
                1 <= i <= self@.len(),
                self@.len() >= 1,
                self@[0].box_spec(time0 as int, time1 as int) is Some,
                list_box_loop(self@.skip(i as int), time0 as int, time1 as int, output@)
                    == list_box_loop(self@.drop_first(), time0 as int, time1 as int,
                    self@[0].box_spec(time0 as int, time1 as int).unwrap()),
            decreases self@.len() - i,
        {
            proof {
                assert(self@.skip(i as int)[0] == self@[i as int]);
                assert(self@.skip(i as int).drop_first() =~= self@.skip(i as int + 1));
            }
            let ob = self[i].bounding_box(time0, time1);
            match ob {
                None => {
                    return None;
                },
                Some(b) => {
                    output = output.surrounding_box(&b);
                },
            }
            i = i + 1;
        }
        proof {
            assert(self@.skip(i as int) =~= Seq::<Primitive>::empty());
        }
        Some(output)
    }
}

} // verus!
