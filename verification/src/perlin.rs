//! Perlin value noise: a table of 256 random unit gradients indexed through
//! three shuffled permutations of 0..256, read at the eight corners of the
//! grid cell around a point and blended with Hermite-smoothed trilinear
//! weights.

use vstd::prelude::*;
use vstd::pervasive::VecAdditionalExecFns;
use vstd::seq_lib::to_multiset_update;
use crate::fixed::{
    fx_abs, fx_abs_spec, fx_add, fx_add_spec, fx_floor, fx_floor_spec, fx_mul, fx_mul_spec,
    fx_sub, fx_sub_spec, SCALE,
};
use crate::rng::random_below;
use crate::vec3::{v3_dot, Vec3, V3};

verus! {

/// Number of gradients and permutation entries.
pub const TABLE_SIZE: usize = 256;

pub struct Perlin {
    pub ranvec: Vec<Vec3>,
    pub permx: Vec<usize>,
    pub permy: Vec<usize>,
    pub permz: Vec<usize>,
}

/// A gradient as the unit-vector sampler delivers it: each component within
/// twice the unit (the sampler's rounding can push a component past one, but
/// never past two).
pub open spec fn gradient_in_range(g: V3) -> bool {
    &&& -(2 * SCALE as int) <= g.x <= 2 * SCALE as int
    &&& -(2 * SCALE as int) <= g.y <= 2 * SCALE as int
    &&& -(2 * SCALE as int) <= g.z <= 2 * SCALE as int
}

/// Table lengths, index ranges and gradient bounds that every lookup relies
/// on.
pub open spec fn perlin_wf(p: Perlin) -> bool {
    &&& p.ranvec@.len() == TABLE_SIZE
    &&& p.permx@.len() == TABLE_SIZE
    &&& p.permy@.len() == TABLE_SIZE
    &&& p.permz@.len() == TABLE_SIZE
    &&& forall|i: int| 0 <= i < TABLE_SIZE ==> #[trigger] p.permx@[i] < TABLE_SIZE
    &&& forall|i: int| 0 <= i < TABLE_SIZE ==> #[trigger] p.permy@[i] < TABLE_SIZE
    &&& forall|i: int| 0 <= i < TABLE_SIZE ==> #[trigger] p.permz@[i] < TABLE_SIZE
    &&& forall|i: int| 0 <= i < TABLE_SIZE ==> gradient_in_range((#[trigger] p.ranvec@[i])@)
}

/// The unshuffled table 0, 1, ..., 255.
pub open spec fn identity_perm() -> Seq<usize> {
    Seq::new(TABLE_SIZE as nat, |i: int| i as usize)
}

/// A rearrangement of 0..256.
pub open spec fn is_table_permutation(v: Seq<usize>) -> bool {
    v.to_multiset() == identity_perm().to_multiset()
}

/// Euclidean remainder modulo the table size (what masking an index with
/// 255 computes in two's complement).
pub open spec fn mod_table_spec(a: int) -> int {
    a % (TABLE_SIZE as int)
}

fn mod_table(a: i64) -> (r: usize)
    requires
        a > i64::MIN,
    ensures
        r as int == mod_table_spec(a as int),
        r < TABLE_SIZE,
{
    if a >= 0 {
        (a % 256) as usize
    } else {
        let m: i64 = (-a) % 256;
        proof {
            vstd::arithmetic::div_mod::lemma_fundamental_div_mod(a as int, 256);
            vstd::arithmetic::div_mod::lemma_fundamental_div_mod(-(a as int), 256);
        }
        if m == 0 {
            0
        } else {
            (256 - m) as usize
        }
    }
}

/// Hermite smoothing t² (3 - 2 t).
pub open spec fn hermite_spec(t: int) -> int {
    fx_mul_spec(fx_mul_spec(t, t), fx_sub_spec(3 * SCALE as int, fx_add_spec(t, t)))
}

fn hermite(t: i64) -> (r: i64)
    ensures
        r as int == hermite_spec(t as int),
{
    fx_mul(fx_mul(t, t), fx_sub(3 * SCALE, fx_add(t, t)))
}

/// One corner's contribution: the product of the three axis weights times the
/// gradient dotted with the offset from the corner.
pub open spec fn corner_term_spec(c: V3, uu: int, vv: int, ww: int, i: int, j: int, k: int)
    -> int {
    let fi = if i == 1 { uu } else { fx_sub_spec(SCALE as int, uu) };
    let fj = if j == 1 { vv } else { fx_sub_spec(SCALE as int, vv) };
    let fk = if k == 1 { ww } else { fx_sub_spec(SCALE as int, ww) };
    let weight = V3 {
        x: fx_sub_spec(uu, i * SCALE as int),
        y: fx_sub_spec(vv, j * SCALE as int),
        z: fx_sub_spec(ww, k * SCALE as int),
    };
    fx_mul_spec(fx_mul_spec(fx_mul_spec(fi, fj), fk), v3_dot(c, weight))
}

fn corner_term(c: Vec3, uu: i64, vv: i64, ww: i64, i: i64, j: i64, k: i64) -> (r: i64)
    requires
        i == 0 || i == 1,
        j == 0 || j == 1,
        k == 0 || k == 1,
    ensures
        r as int == corner_term_spec(c@, uu as int, vv as int, ww as int, i as int, j as int,
            k as int),
{
    let fi = if i == 1 { uu } else { fx_sub(SCALE, uu) };
    let fj = if j == 1 { vv } else { fx_sub(SCALE, vv) };
    let fk = if k == 1 { ww } else { fx_sub(SCALE, ww) };
    let weight = Vec3 {
        x: fx_sub(uu, i * SCALE),
        y: fx_sub(vv, j * SCALE),
        z: fx_sub(ww, k * SCALE),
    };
    fx_mul(fx_mul(fx_mul(fi, fj), fk), c.dot(weight))
}

/// The gradient for the cell corner at offset (di, dj, dk) from grid point
/// (gx, gy, gz).
pub open spec fn gradient_spec(p: Perlin, gx: int, gy: int, gz: int, di: int, dj: int, dk: int)
    -> V3
    recommends
        perlin_wf(p),
{
    let ix = p.permx@[mod_table_spec(gx + di)] as u64;
    let iy = p.permy@[mod_table_spec(gy + dj)] as u64;
    let iz = p.permz@[mod_table_spec(gz + dk)] as u64;
    p.ranvec@[(ix ^ iy ^ iz) as int]@
}

/// The noise value: Hermite-smoothed trilinear blend of the eight corner
/// gradients dotted with their offsets.
pub open spec fn noise_spec(p: Perlin, pt: V3) -> int
    recommends
        perlin_wf(p),
{
    let gx = fx_floor_spec(pt.x);
    let gy = fx_floor_spec(pt.y);
    let gz = fx_floor_spec(pt.z);
    let u = pt.x - gx * SCALE as int;
    let v = pt.y - gy * SCALE as int;
    let w = pt.z - gz * SCALE as int;
    let uu = hermite_spec(u);
    let vv = hermite_spec(v);
    let ww = hermite_spec(w);
    fx_add_spec(
        fx_add_spec(
            fx_add_spec(
                corner_term_spec(gradient_spec(p, gx, gy, gz, 0, 0, 0), uu, vv, ww, 0, 0, 0),
                corner_term_spec(gradient_spec(p, gx, gy, gz, 0, 0, 1), uu, vv, ww, 0, 0, 1),
            ),
            fx_add_spec(
                corner_term_spec(gradient_spec(p, gx, gy, gz, 0, 1, 0), uu, vv, ww, 0, 1, 0),
                corner_term_spec(gradient_spec(p, gx, gy, gz, 0, 1, 1), uu, vv, ww, 0, 1, 1),
            ),
        ),
        fx_add_spec(
            fx_add_spec(
                corner_term_spec(gradient_spec(p, gx, gy, gz, 1, 0, 0), uu, vv, ww, 1, 0, 0),
                corner_term_spec(gradient_spec(p, gx, gy, gz, 1, 0, 1), uu, vv, ww, 1, 0, 1),
            ),
            fx_add_spec(
                corner_term_spec(gradient_spec(p, gx, gy, gz, 1, 1, 0), uu, vv, ww, 1, 1, 0),
                corner_term_spec(gradient_spec(p, gx, gy, gz, 1, 1, 1), uu, vv, ww, 1, 1, 1),
            ),
        ),
    )
}

/// Iterative turbulence accumulator: each octave adds `weight * noise(pt)`,
/// then doubles the point and halves the weight.
pub open spec fn turb_iter_spec(p: Perlin, pt: V3, depth: nat, weight: int, acc: int) -> int
    recommends
        perlin_wf(p),
    decreases depth,
{
    if depth == 0 {
        acc
    } else {
        turb_iter_spec(
            p,
            crate::vec3::v3_scale(pt, 2 * SCALE as int),
            (depth - 1) as nat,
            fx_mul_spec(weight, (SCALE / 2) as int),
            fx_add_spec(acc, fx_mul_spec(weight, noise_spec(p, pt))),
        )
    }
}

/// Turbulence: the absolute value of the octave sum.
pub open spec fn turb_spec(p: Perlin, pt: V3, depth: nat) -> int
    recommends
        perlin_wf(p),
{
    fx_abs_spec(turb_iter_spec(p, pt, depth, SCALE as int, 0))
}


/// Hermite smoothing maps [0, 1) into [0, 1]: the cubic t²(3 - 2t) never
/// exceeds one there, and the truncating arithmetic only shrinks it.
pub proof fn lemma_hermite_unit(t: int)
    requires
        0 <= t < SCALE as int,
    ensures
        0 <= hermite_spec(t) <= SCALE as int,
{
    assert(0 <= t * t && t * t < 65536 * 65536) by (nonlinear_arith)
        requires 0 <= t, t < 65536,
    ;
    vstd::arithmetic::div_mod::lemma_fundamental_div_mod(t * t, 65536);
    let t2 = fx_mul_spec(t, t);
    assert(t2 == (t * t) / 65536);
    let m = fx_sub_spec(3 * SCALE as int, fx_add_spec(t, t));
    assert(m == 3 * 65536 - 2 * t);
    assert(t * t * m == 65536 * 65536 * 65536 - (65536 - t) * (65536 - t) * (2 * t + 65536))
        by (nonlinear_arith)
        requires m == 3 * 65536 - 2 * t,
    ;
    assert((65536 - t) * (65536 - t) * (2 * t + 65536) >= 0) by (nonlinear_arith)
        requires 0 <= t, t < 65536,
    ;
    assert(t2 * m * 65536 <= t * t * m) by (nonlinear_arith)
        requires t2 * 65536 <= t * t, m >= 0,
    ;
    assert(0 <= t2 * m) by (nonlinear_arith)
        requires 0 <= t2, 0 <= m,
    ;
    vstd::arithmetic::div_mod::lemma_fundamental_div_mod(t2 * m, 65536);
    assert(hermite_spec(t) == (t2 * m) / 65536);
}

/// One corner term is bounded by six: three unit weights and a dot product
/// of a twice-unit gradient with a unit offset.
pub proof fn lemma_corner_bound(c: V3, uu: int, vv: int, ww: int, i: int, j: int, k: int)
    requires
        gradient_in_range(c),
        0 <= uu <= SCALE as int,
        0 <= vv <= SCALE as int,
        0 <= ww <= SCALE as int,
        i == 0 || i == 1,
        j == 0 || j == 1,
        k == 0 || k == 1,
    ensures
        -(6 * SCALE as int) <= corner_term_spec(c, uu, vv, ww, i, j, k) <= 6 * SCALE as int,
{
    let fi = if i == 1 { uu } else { fx_sub_spec(SCALE as int, uu) };
    let fj = if j == 1 { vv } else { fx_sub_spec(SCALE as int, vv) };
    let fk = if k == 1 { ww } else { fx_sub_spec(SCALE as int, ww) };
    let wx = fx_sub_spec(uu, i * SCALE as int);
    let wy = fx_sub_spec(vv, j * SCALE as int);
    let wz = fx_sub_spec(ww, k * SCALE as int);
    assert(0 <= fi <= 65536 && 0 <= fj <= 65536 && 0 <= fk <= 65536);
    assert(-65536 <= wx <= 65536 && -65536 <= wy <= 65536 && -65536 <= wz <= 65536);
    assert(-(2 * 65536 * 65536) <= c.x * wx <= 2 * 65536 * 65536) by (nonlinear_arith)
        requires -(2 * 65536) <= c.x <= 2 * 65536, -65536 <= wx <= 65536,
    ;
    crate::fixed::lemma_fx_mul_abs(c.x, wx, 2 * SCALE as int);
    assert(-(2 * 65536 * 65536) <= c.y * wy <= 2 * 65536 * 65536) by (nonlinear_arith)
        requires -(2 * 65536) <= c.y <= 2 * 65536, -65536 <= wy <= 65536,
    ;
    crate::fixed::lemma_fx_mul_abs(c.y, wy, 2 * SCALE as int);
    assert(-(2 * 65536 * 65536) <= c.z * wz <= 2 * 65536 * 65536) by (nonlinear_arith)
        requires -(2 * 65536) <= c.z <= 2 * 65536, -65536 <= wz <= 65536,
    ;
    crate::fixed::lemma_fx_mul_abs(c.z, wz, 2 * SCALE as int);
    let d = v3_dot(c, V3 { x: wx, y: wy, z: wz });
    assert(-(6 * 65536) <= d <= 6 * 65536);
    assert(0 <= fi * fj <= 65536 * 65536) by (nonlinear_arith)
        requires 0 <= fi <= 65536, 0 <= fj <= 65536,
    ;
    crate::fixed::lemma_fx_mul_abs(fi, fj, SCALE as int);
    let fij = fx_mul_spec(fi, fj);
    assert(-(65536 * 65536) <= fij * fk <= 65536 * 65536) by (nonlinear_arith)
        requires -65536 <= fij <= 65536, 0 <= fk <= 65536,
    ;
    crate::fixed::lemma_fx_mul_abs(fij, fk, SCALE as int);
    let fijk = fx_mul_spec(fij, fk);
    assert(-(6 * 65536 * 65536) <= fijk * d <= 6 * 65536 * 65536) by (nonlinear_arith)
        requires -65536 <= fijk <= 65536, -(6 * 65536) <= d <= 6 * 65536,
    ;
    crate::fixed::lemma_fx_mul_abs(fijk, d, 6 * SCALE as int);
}

/// Every gradient the tables select is in range.
proof fn lemma_gradient_in_range(
    p: Perlin,
    gx: int,
    gy: int,
    gz: int,
    di: int,
    dj: int,
    dk: int,
)
    requires
        perlin_wf(p),
    ensures
        gradient_in_range(gradient_spec(p, gx, gy, gz, di, dj, dk)),
{
    let ix = p.permx@[mod_table_spec(gx + di)] as u64;
    let iy = p.permy@[mod_table_spec(gy + dj)] as u64;
    let iz = p.permz@[mod_table_spec(gz + dk)] as u64;
    assert(ix < 256 && iy < 256 && iz < 256);
    assert((ix ^ iy ^ iz) < 256) by (bit_vector)
        requires ix < 256, iy < 256, iz < 256,
    ;
}

/// The noise value is a blend of eight bounded corner terms, so its
/// magnitude stays below 48. (The real-arithmetic value is below sqrt(3);
/// the slack covers the coarse per-step rounding bounds, not the value.)
pub proof fn lemma_noise_bound(p: Perlin, pt: V3)
    requires
        perlin_wf(p),
    ensures
        -(48 * SCALE as int) <= noise_spec(p, pt) <= 48 * SCALE as int,
{
    let gx = fx_floor_spec(pt.x);
    let gy = fx_floor_spec(pt.y);
    let gz = fx_floor_spec(pt.z);
    let u = pt.x - gx * SCALE as int;
    let v = pt.y - gy * SCALE as int;
    let w = pt.z - gz * SCALE as int;
    vstd::arithmetic::div_mod::lemma_fundamental_div_mod(pt.x, 65536);
    vstd::arithmetic::div_mod::lemma_fundamental_div_mod(pt.y, 65536);
    vstd::arithmetic::div_mod::lemma_fundamental_div_mod(pt.z, 65536);
    assert(0 <= u < 65536 && 0 <= v < 65536 && 0 <= w < 65536);
    lemma_hermite_unit(u);
    lemma_hermite_unit(v);
    lemma_hermite_unit(w);
    let uu = hermite_spec(u);
    let vv = hermite_spec(v);
    let ww = hermite_spec(w);
    lemma_gradient_in_range(p, gx, gy, gz, 0, 0, 0);
    lemma_gradient_in_range(p, gx, gy, gz, 0, 0, 1);
    lemma_gradient_in_range(p, gx, gy, gz, 0, 1, 0);
    lemma_gradient_in_range(p, gx, gy, gz, 0, 1, 1);
    lemma_gradient_in_range(p, gx, gy, gz, 1, 0, 0);
    lemma_gradient_in_range(p, gx, gy, gz, 1, 0, 1);
    lemma_gradient_in_range(p, gx, gy, gz, 1, 1, 0);
    lemma_gradient_in_range(p, gx, gy, gz, 1, 1, 1);
    lemma_corner_bound(gradient_spec(p, gx, gy, gz, 0, 0, 0), uu, vv, ww, 0, 0, 0);
    lemma_corner_bound(gradient_spec(p, gx, gy, gz, 0, 0, 1), uu, vv, ww, 0, 0, 1);
    lemma_corner_bound(gradient_spec(p, gx, gy, gz, 0, 1, 0), uu, vv, ww, 0, 1, 0);
    lemma_corner_bound(gradient_spec(p, gx, gy, gz, 0, 1, 1), uu, vv, ww, 0, 1, 1);
    lemma_corner_bound(gradient_spec(p, gx, gy, gz, 1, 0, 0), uu, vv, ww, 1, 0, 0);
    lemma_corner_bound(gradient_spec(p, gx, gy, gz, 1, 0, 1), uu, vv, ww, 1, 0, 1);
    lemma_corner_bound(gradient_spec(p, gx, gy, gz, 1, 1, 0), uu, vv, ww, 1, 1, 0);
    lemma_corner_bound(gradient_spec(p, gx, gy, gz, 1, 1, 1), uu, vv, ww, 1, 1, 1);
}

/// Fisher-Yates shuffle of the identity table: the result holds each index
/// exactly once.
fn perlin_generate_perm() -> (r: Vec<usize>)
    ensures
        r@.len() == TABLE_SIZE,
        forall|i: int| 0 <= i < TABLE_SIZE ==> #[trigger] r@[i] < TABLE_SIZE,
        is_table_permutation(r@),
{
    let mut values: Vec<usize> = Vec::new();
    let mut n: usize = 0;
    while n < TABLE_SIZE
        invariant
            n <= TABLE_SIZE,
            values@ == Seq::new(n as nat, |i: int| i as usize),
        decreases TABLE_SIZE - n,
    {
        values.push(n);
        proof {
            assert(values@ =~= Seq::new((n + 1) as nat, |i: int| i as usize));
        }
        n = n + 1;
    }
    proof {
        assert(values@ =~= identity_perm());
    }
    let mut i: usize = TABLE_SIZE - 1;
    while i >= 1
        invariant
            i < TABLE_SIZE,
            values@.len() == TABLE_SIZE,
            forall|j: int| 0 <= j < TABLE_SIZE ==> #[trigger] values@[j] < TABLE_SIZE,
            values@.to_multiset() == identity_perm().to_multiset(),
        decreases i,
    {
        let target = random_below(i);
        let a = values[i];
        let b = values[target];
        let ghost before = values@;
        proof {
            to_multiset_update(values@, i as int, b);
        }
        values.set(i, b);
        proof {
            to_multiset_update(values@, target as int, a);
        }
        values.set(target, a);
        proof {
            vstd::seq_lib::to_multiset_contains(before, a);
            assert(before.contains(a)) by {
                assert(before[i as int] == a);
            }
            assert(values@.to_multiset() =~= before.to_multiset());
            assert forall|j: int| 0 <= j < TABLE_SIZE implies #[trigger] values@[j]
                < TABLE_SIZE by {
                if j != i as int && j != target as int {
                    assert(values@[j] == before[j]);
                }
            }
        }
        i = i - 1;
    }
    values
}

impl Perlin {
    pub fn new() -> (r: Perlin)
        ensures
            perlin_wf(r),
            is_table_permutation(r.permx@),
            is_table_permutation(r.permy@),
            is_table_permutation(r.permz@),
    {
        let mut ranvec: Vec<Vec3> = Vec::new();
        let mut n: usize = 0;
        while n < TABLE_SIZE
            invariant
                n <= TABLE_SIZE,
                ranvec@.len() == n,
                forall|i: int| 0 <= i < n ==> gradient_in_range((#[trigger] ranvec@[i])@),
            decreases TABLE_SIZE - n,
        {
            ranvec.push(Vec3::random_unit_vector());
            n = n + 1;
        }
        Perlin {
            ranvec,
            permx: perlin_generate_perm(),
            permy: perlin_generate_perm(),
            permz: perlin_generate_perm(),
        }
    }

    fn gradient(&self, gx: i64, gy: i64, gz: i64, di: i64, dj: i64, dk: i64) -> (r: Vec3)
        requires
            perlin_wf(*self),
            -140737488355328 <= gx <= 140737488355327,
            -140737488355328 <= gy <= 140737488355327,
            -140737488355328 <= gz <= 140737488355327,
            0 <= di <= 1,
            0 <= dj <= 1,
            0 <= dk <= 1,
        ensures
            r@ == gradient_spec(*self, gx as int, gy as int, gz as int, di as int, dj as int,
                dk as int),
    {
        let ix: u64 = self.permx[mod_table(gx + di)] as u64;
        let iy: u64 = self.permy[mod_table(gy + dj)] as u64;
        let iz: u64 = self.permz[mod_table(gz + dk)] as u64;
        let idx: u64 = ix ^ iy ^ iz;
        proof {
            assert(idx < 256) by (bit_vector)
                requires idx == ix ^ iy ^ iz, ix < 256, iy < 256, iz < 256,
            ;
        }
        self.ranvec[idx as usize]
    }

    pub fn noise(&self, pt: Vec3) -> (r: i64)
        requires
            perlin_wf(*self),
        ensures
            r as int == noise_spec(*self, pt@),
    {
        let gx = fx_floor(pt.x);
        let gy = fx_floor(pt.y);
        let gz = fx_floor(pt.z);
        proof {
            vstd::arithmetic::div_mod::lemma_fundamental_div_mod(pt.x as int, SCALE as int);
            vstd::arithmetic::div_mod::lemma_fundamental_div_mod(pt.y as int, SCALE as int);
            vstd::arithmetic::div_mod::lemma_fundamental_div_mod(pt.z as int, SCALE as int);
        }
        let u = pt.x - gx * SCALE;
        let v = pt.y - gy * SCALE;
        let w = pt.z - gz * SCALE;
        let uu = hermite(u);
        let vv = hermite(v);
        let ww = hermite(w);
        fx_add(
            fx_add(
                fx_add(
                    corner_term(self.gradient(gx, gy, gz, 0, 0, 0), uu, vv, ww, 0, 0, 0),
                    corner_term(self.gradient(gx, gy, gz, 0, 0, 1), uu, vv, ww, 0, 0, 1),
                ),
                fx_add(
                    corner_term(self.gradient(gx, gy, gz, 0, 1, 0), uu, vv, ww, 0, 1, 0),
                    corner_term(self.gradient(gx, gy, gz, 0, 1, 1), uu, vv, ww, 0, 1, 1),
                ),
            ),
            fx_add(
                fx_add(
                    corner_term(self.gradient(gx, gy, gz, 1, 0, 0), uu, vv, ww, 1, 0, 0),
                    corner_term(self.gradient(gx, gy, gz, 1, 0, 1), uu, vv, ww, 1, 0, 1),
                ),
                fx_add(
                    corner_term(self.gradient(gx, gy, gz, 1, 1, 0), uu, vv, ww, 1, 1, 0),
                    corner_term(self.gradient(gx, gy, gz, 1, 1, 1), uu, vv, ww, 1, 1, 1),
                ),
            ),
        )
    }

    pub fn turb(&self, pt: Vec3, depth: usize) -> (r: i64)
        requires
            perlin_wf(*self),
        ensures
            r as int == turb_spec(*self, pt@, depth as nat),
    {
        let mut accum: i64 = 0;
        let mut temp_p: Vec3 = pt;
        let mut weight: i64 = SCALE;
        let mut remaining: usize = depth;
        while remaining > 0
            invariant
                perlin_wf(*self),
                turb_iter_spec(*self, pt@, depth as nat, SCALE as int, 0) == turb_iter_spec(
                    *self, temp_p@, remaining as nat, weight as int, accum as int),
            decreases remaining,
        {
            accum = fx_add(accum, fx_mul(weight, self.noise(temp_p)));
            weight = fx_mul(weight, SCALE / 2);
            temp_p = temp_p.scale(2 * SCALE);
            remaining = remaining - 1;
        }
        fx_abs(accum)
    }
}

} // verus!
