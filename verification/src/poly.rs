//! Multilinear-extension polynomials: a vector of length `2^k` read as the
//! evaluation table of a `k`-variable multilinear polynomial on the Boolean
//! hypercube, together with the equality and index polynomials the protocol
//! builds on.

use crate::ext_field::ext_add;
use crate::ext_field::ext_mul;
use crate::ext_field::ext_one;
use crate::ext_field::ext_sub;
use crate::ext_field::ext_wf;
use crate::ext_field::ext_zero;
use crate::ext_field::lemma_ext_mul_comm;
use crate::ext_field::Goldilocks64Ext;
use crate::field::Goldilocks64;
use vstd::prelude::*;

verus! {

/// Every element of the sequence is canonical.
pub open spec fn ext_seq_wf(s: Seq<(int, int)>) -> bool {
    forall|i: int| 0 <= i < s.len() ==> ext_wf(#[trigger] s[i])
}

/// Every element of the vector is canonical.
pub open spec fn ext_vec_wf(v: Vec<Goldilocks64Ext>) -> bool {
    forall|i: int| 0 <= i < v@.len() ==> (#[trigger] v@[i]).wf()
}

/// Every element of a base-field vector is canonical.
pub open spec fn base_vec_wf(v: Vec<Goldilocks64>) -> bool {
    forall|i: int| 0 <= i < v@.len() ==> (#[trigger] v@[i]).wf()
}

/// The view of a vector of extension elements.
pub open spec fn ext_vec_view(v: Vec<Goldilocks64Ext>) -> Seq<(int, int)> {
    v@.map_values(|x: Goldilocks64Ext| x@)
}

/// The embedding of a vector of base elements into the extension field.
pub open spec fn base_vec_view(v: Vec<Goldilocks64>) -> Seq<(int, int)> {
    v@.map_values(|x: Goldilocks64| (x@, 0int))
}

/// One evaluation-table fold against a point coordinate: adjacent pairs
/// `(e0, e1)` collapse to `e0 + (e1 - e0) * r`.
pub open spec fn fold_once(evals: Seq<(int, int)>, r: (int, int)) -> Seq<(int, int)> {
    Seq::new(
        (evals.len() / 2) as nat,
        |i: int| ext_add(evals[2 * i], ext_mul(ext_sub(evals[2 * i + 1], evals[2 * i]), r)),
    )
}

/// Multilinear evaluation of an evaluation table at a point: fold the table
/// against each coordinate in order; the sole survivor is the value.
pub open spec fn mle_eval(evals: Seq<(int, int)>, point: Seq<(int, int)>) -> (int, int)
    decreases point.len(),
{
    if point.len() == 0 {
        if evals.len() > 0 {
            evals[0]
        } else {
            ext_zero()
        }
    } else {
        mle_eval(fold_once(evals, point[0]), point.subrange(1, point.len() as int))
    }
}

/// One factor of the closed-form equality polynomial:
/// `2*r*p - p - r + 1`, evaluated left to right as the code does.
pub open spec fn eq_term(r: (int, int), p: (int, int)) -> (int, int) {
    let t = ext_mul(p, r);
    ext_add(ext_sub(ext_sub(ext_add(t, t), p), r), ext_one())
}

/// The closed-form equality polynomial `eq(r, p)`: the product of one factor
/// per coordinate, multiplied from the last coordinate to the first.
pub open spec fn eq_eval(r: Seq<(int, int)>, p: Seq<(int, int)>) -> (int, int)
    decreases r.len(),
{
    if r.len() == 0 {
        ext_one()
    } else {
        ext_mul(
            eq_eval(r.subrange(1, r.len() as int), p.subrange(1, p.len() as int)),
            eq_term(r[0], p[0]),
        )
    }
}

/// One doubling step of the equality table: each entry `t` splits into
/// `t * (1 - b)` and `t * b`.
pub open spec fn eq_expand(table: Seq<(int, int)>, b: (int, int)) -> Seq<(int, int)> {
    Seq::new(
        (2 * table.len()) as nat,
        |i: int|
            if i % 2 == 0 {
                ext_mul(table[i / 2], ext_sub(ext_one(), b))
            } else {
                ext_mul(table[i / 2], b)
            },
    )
}

/// The evaluation table of the equality polynomial `eq(r, .)` on the
/// hypercube, built by doubling from the last coordinate to the first.
pub open spec fn eq_table(r: Seq<(int, int)>) -> Seq<(int, int)>
    decreases r.len(),
{
    if r.len() == 0 {
        seq![ext_one()]
    } else {
        eq_expand(eq_table(r.subrange(1, r.len() as int)), r[0])
    }
}

/// The equality table over `k` coordinates has `2^k` entries.
pub proof fn lemma_eq_table_len(r: Seq<(int, int)>)
    ensures
        eq_table(r).len() == vstd::arithmetic::power2::pow2(r.len()),
    decreases r.len(),
{
    if r.len() == 0 {
        vstd::arithmetic::power2::lemma2_to64();
    } else {
        vstd::arithmetic::power2::lemma_pow2_unfold(r.len());
        lemma_eq_table_len(r.subrange(1, r.len() as int));
    }
}

/// The evaluation table of the index polynomial: entry `x` holds
/// `offset + x`.
pub open spec fn ident_table(var_num: nat, offset: (int, int)) -> Seq<(int, int)> {
    Seq::new(
        vstd::arithmetic::power2::pow2(var_num),
        |x: int| ext_add((x, 0int), offset),
    )
}

/// The closed form of the index polynomial at a point:
/// `offset + point[0] + sum_i point[i] * 2^i`, accumulated left to right.
pub open spec fn ident_eval(point: Seq<(int, int)>, offset: (int, int)) -> (int, int)
    decreases point.len(),
{
    if point.len() <= 1 {
        if point.len() == 1 {
            ext_add(offset, point[0])
        } else {
            offset
        }
    } else {
        let k = (point.len() - 1) as int;
        ext_add(
            ident_eval(point.drop_last(), offset),
            ext_mul(
                point.last(),
                (((vstd::arithmetic::power2::pow2(k as nat) as int) % (crate::field::MOD as int)), 0int),
            ),
        )
    }
}

/// An ordered table of `2^k` field values, read as a multilinear polynomial
/// on the `k`-dimensional Boolean hypercube.
#[derive(Clone, Debug, PartialEq, Eq)]
pub struct MultiLinearPoly {
    pub evals: Vec<Goldilocks64Ext>,
}

impl View for MultiLinearPoly {
    type V = Seq<(int, int)>;

    open spec fn view(&self) -> Seq<(int, int)> {
        self.evals@.map_values(|x: Goldilocks64Ext| x@)
    }
}

impl MultiLinearPoly {
    pub open spec fn wf(&self) -> bool {
        ext_seq_wf(self@)
    }

    pub fn new(evals: Vec<Goldilocks64Ext>) -> (r: Self)
        ensures
            r@ == ext_vec_view(evals),
    {
        MultiLinearPoly { evals }
    }

    /// The multilinear extension of the indicator "the point equals `r`":
    /// a table of length `2^k`, built by doubling against the coordinates of
    /// `r` from the last to the first.
    pub fn new_eq(r: &Vec<Goldilocks64Ext>) -> (res: Self)
        requires
            ext_vec_wf(*r),
            r@.len() < 32,
        ensures
            res@ == eq_table(ext_vec_view(*r)),
            res.wf(),
    {
        let ghost rv = ext_vec_view(*r);
        let one = Goldilocks64Ext::one();
        let mut evals: Vec<Goldilocks64Ext> = Vec::new();
        evals.push(one);
        proof {
            assert(rv.subrange(r@.len() as int, r@.len() as int) =~= Seq::<(int, int)>::empty());
            assert(ext_vec_view(evals) =~= eq_table(rv.subrange(r@.len() as int, r@.len() as int)));
            vstd::arithmetic::power2::lemma2_to64();
        }
        let mut idx: usize = r.len();
        while idx > 0
            invariant
                idx <= r@.len(),
                r@.len() < 32,
                ext_vec_wf(*r),
                rv == ext_vec_view(*r),
                ext_vec_view(evals) == eq_table(rv.subrange(idx as int, rv.len() as int)),
                ext_vec_wf(evals),
                evals@.len() == vstd::arithmetic::power2::pow2((rv.len() - idx) as nat),
            decreases idx,
        {
            proof {
                lemma_eq_table_len(rv.subrange(idx as int, rv.len() as int));
                vstd::arithmetic::power2::lemma2_to64();
            }
            let b = r[idx - 1];
            let nb = Goldilocks64Ext::one().sub(b);
            let mut next: Vec<Goldilocks64Ext> = Vec::new();
            let ghost tail = rv.subrange(idx - 1, rv.len() as int);
            let ghost table = eq_table(rv.subrange(idx as int, rv.len() as int));
            proof {
                assert(tail.subrange(1, tail.len() as int) =~= rv.subrange(
                    idx as int,
                    rv.len() as int,
                ));
                assert(eq_table(tail) == eq_expand(table, b@));
            }
            let mut j: usize = 0;
            while j < evals.len()
                invariant
                    j <= evals@.len(),
                    next@.len() == 2 * j,
                    b.wf(),
                    nb.wf(),
                    nb@ == ext_sub(ext_one(), b@),
                    ext_vec_wf(evals),
                    table == ext_vec_view(evals),
                    forall|i: int|
                        0 <= i < 2 * j ==> (#[trigger] next@[i])@ == eq_expand(table, b@)[i]
                            && next@[i].wf(),
                decreases evals@.len() - j,
            {
                let p = evals[j];
                next.push(p.mul(nb));
                next.push(p.mul(b));
                j += 1;
            }
            evals = next;
            idx -= 1;
            proof {
                assert(ext_vec_view(evals) =~= eq_expand(table, b@));
                lemma_eq_table_len(rv.subrange(idx as int, rv.len() as int));
            }
        }
        proof {
            assert(rv.subrange(0, rv.len() as int) =~= rv);
        }
        MultiLinearPoly { evals }
    }

    /// The closed form of the equality polynomial, `O(k)` instead of
    /// `O(2^k)`: the product of `2*r_i*p_i - r_i - p_i + 1` over all
    /// coordinates.
    pub fn eval_eq(r: &Vec<Goldilocks64Ext>, point: &Vec<Goldilocks64Ext>) -> (res:
        Goldilocks64Ext)
        requires
            r@.len() == point@.len(),
            ext_vec_wf(*r),
            ext_vec_wf(*point),
        ensures
            res@ == eq_eval(ext_vec_view(*r), ext_vec_view(*point)),
            res.wf(),
    {
        let ghost rv = ext_vec_view(*r);
        let ghost pv = ext_vec_view(*point);
        let mut res = Goldilocks64Ext::one();
        let n = r.len();
        let mut i: usize = n;
        proof {
            assert(rv.subrange(n as int, n as int) =~= Seq::<(int, int)>::empty());
        }
        while i > 0
            invariant
                i <= n,
                n == rv.len(),
                n == pv.len(),
                rv == ext_vec_view(*r),
                pv == ext_vec_view(*point),
                ext_vec_wf(*r),
                ext_vec_wf(*point),
                res.wf(),
                res@ == eq_eval(
                    rv.subrange(i as int, n as int),
                    pv.subrange(i as int, n as int),
                ),
            decreases i,
        {
            let j = i - 1;
            let tmp = point[j].mul(r[j]);
            let term = tmp.add(tmp).sub(point[j]).sub(r[j]).add(Goldilocks64Ext::one());
            res = res.mul(term);
            i = j;
            proof {
                let rt = rv.subrange(i as int, n as int);
                let pt = pv.subrange(i as int, n as int);
                assert(rt.subrange(1, rt.len() as int) =~= rv.subrange(i + 1, n as int));
                assert(pt.subrange(1, pt.len() as int) =~= pv.subrange(i + 1, n as int));
                assert(term@ == eq_term(rt[0], pt[0]));
            }
        }
        proof {
            assert(rv.subrange(0, n as int) =~= rv);
            assert(pv.subrange(0, n as int) =~= pv);
        }
        res
    }

    /// The evaluation table of the index polynomial `offset + x` over a
    /// `var_num`-dimensional hypercube.
    pub fn new_identical(var_num: usize, offset: Goldilocks64Ext) -> (res: Self)
        requires
            var_num < 32,
            offset.wf(),
        ensures
            res@ == ident_table(var_num as nat, offset@),
            res.wf(),
    {
        proof {
            vstd::arithmetic::power2::lemma2_to64();
            vstd::arithmetic::power2::lemma_pow2_pos(var_num as nat);
            assert(vstd::arithmetic::power2::pow2(var_num as nat) == (1usize << var_num))
                by {
                vstd::bits::lemma_usize_shl_is_mul(1usize, var_num);
                vstd::arithmetic::power2::lemma_pow2(var_num as nat);
            }
        }
        let count: usize = 1usize << var_num;
        let mut evals: Vec<Goldilocks64Ext> = Vec::new();
        let mut x: usize = 0;
        while x < count
            invariant
                x <= count,
                count == vstd::arithmetic::power2::pow2(var_num as nat),
                count < 0x1_0000_0000,
                offset.wf(),
                evals@.len() == x,
                forall|i: int|
                    0 <= i < x ==> (#[trigger] evals@[i])@ == ext_add((i, 0int), offset@)
                        && evals@[i].wf(),
            decreases count - x,
        {
            let e = Goldilocks64Ext::from_u64(x as u64).add(offset);
            proof {
                vstd::arithmetic::div_mod::lemma_small_mod(x as nat, crate::field::MOD as nat);
            }
            evals.push(e);
            x += 1;
        }
        proof {
            assert(ext_vec_view(evals) =~= ident_table(var_num as nat, offset@));
        }
        MultiLinearPoly { evals }
    }

    /// The closed-form evaluation of the index polynomial at a point:
    /// `offset + sum_i point[i] * 2^i`.
    pub fn eval_identical(point: &Vec<Goldilocks64Ext>, offset: Goldilocks64Ext) -> (res:
        Goldilocks64Ext)
        requires
            point@.len() >= 1,
            ext_vec_wf(*point),
            offset.wf(),
        ensures
            res@ == ident_eval(ext_vec_view(*point), offset@),
            res.wf(),
    {
        let ghost pv = ext_vec_view(*point);
        let mut res = offset.add(point[0]);
        let mut t = Goldilocks64Ext::one();
        proof {
            assert(pv.subrange(0, 1) =~= seq![pv[0]]);
            vstd::arithmetic::power2::lemma2_to64();
            vstd::arithmetic::div_mod::lemma_small_mod(1nat, crate::field::MOD as nat);
        }
        let mut i: usize = 1;
        while i < point.len()
            invariant
                1 <= i <= pv.len(),
                pv == ext_vec_view(*point),
                ext_vec_wf(*point),
                res.wf(),
                t.wf(),
                t@ == (
                    (vstd::arithmetic::power2::pow2((i - 1) as nat) as int) % (crate::field::MOD as int),
                    0int,
                ),
                res@ == ident_eval(pv.subrange(0, i as int), offset@),
            decreases pv.len() - i,
        {
            let ghost t_pre = t@;
            t = t.add(t);
            res = res.add(point[i].mul(t));
            proof {
                let m = crate::field::MOD as int;
                let p2 = vstd::arithmetic::power2::pow2((i - 1) as nat) as int;
                vstd::arithmetic::power2::lemma_pow2_unfold((i) as nat);
                vstd::arithmetic::div_mod::lemma_add_mod_noop(p2, p2, m);
                assert(t@.0 == (2 * p2) % m);
                assert(vstd::arithmetic::power2::pow2(i as nat) == 2 * p2);
                let pre = pv.subrange(0, i + 1);
                assert(pre.drop_last() =~= pv.subrange(0, i as int));
                assert(pre.last() == pv[i as int]);
                lemma_ext_mul_comm(pv[i as int], t@);
            }
            i += 1;
        }
        proof {
            assert(pv.subrange(0, pv.len() as int) =~= pv);
        }
        res
    }

    /// Hypercube-folding evaluation of a base-field table at an
    /// extension-field point; the first fold mixes base values with the
    /// extension coordinate through the mixed primitives.
    pub fn eval_multilinear(evals: &Vec<Goldilocks64>, point: &Vec<Goldilocks64Ext>) -> (res:
        Goldilocks64Ext)
        requires
            point@.len() >= 1,
            point@.len() < 64,
            evals@.len() == vstd::arithmetic::power2::pow2(point@.len()),
            base_vec_wf(*evals),
            ext_vec_wf(*point),
        ensures
            res@ == mle_eval(base_vec_view(*evals), ext_vec_view(*point)),
            res.wf(),
    {
        let ghost ev = base_vec_view(*evals);
        let ghost pv = ext_vec_view(*point);
        let mut scratch: Vec<Goldilocks64Ext> = Vec::new();
        proof {
            vstd::arithmetic::power2::lemma_pow2_unfold(pv.len() as nat);
            vstd::arithmetic::power2::lemma_pow2_pos((pv.len() - 1) as nat);
        }
        let mut cur_eval_size: usize = evals.len() / 2;
        let r0 = point[0];
        let mut i: usize = 0;
        while i < cur_eval_size
            invariant
                i <= cur_eval_size,
                cur_eval_size == ev.len() / 2,
                2 * cur_eval_size == ev.len(),
                ev == base_vec_view(*evals),
                pv == ext_vec_view(*point),
                pv.len() >= 1,
                r0 == point@[0],
                r0.wf(),
                forall|j: int| 0 <= j < ev.len() ==> (#[trigger] evals@[j]).wf(),
                scratch@.len() == i,
                forall|j: int|
                    0 <= j < i ==> (#[trigger] scratch@[j])@ == fold_once(ev, pv[0])[j]
                        && scratch@[j].wf(),
            decreases cur_eval_size - i,
        {
            let e0 = evals[2 * i];
            let e1 = evals[2 * i + 1];
            let diff = e1.sub(e0);
            let pushed = r0.mul_base_elem(diff).add_base_elem(e0);
            proof {
                let a = ev[2 * i as int];
                let b = ev[2 * i + 1];
                assert(ext_sub(b, a) == (diff@, 0int));
                lemma_ext_mul_comm(pv[0], ext_sub(b, a));
            }
            scratch.push(pushed);
            i += 1;
        }
        proof {
            assert(ext_vec_view(scratch) =~= fold_once(ev, pv[0]));
            assert(ext_vec_view(scratch).subrange(0, cur_eval_size as int) =~= fold_once(
                ev,
                pv[0],
            ));
            assert(mle_eval(ev, pv) == mle_eval(
                fold_once(ev, pv[0]),
                pv.subrange(1, pv.len() as int),
            ));
            vstd::arithmetic::power2::lemma_pow2_unfold(pv.len() as nat);
        }
        let mut k: usize = 1;
        while k < point.len()
            invariant
                1 <= k <= pv.len(),
                pv == ext_vec_view(*point),
                ext_vec_wf(*point),
                scratch@.len() >= cur_eval_size,
                cur_eval_size >= 1,
                forall|j: int| 0 <= j < scratch@.len() ==> (#[trigger] scratch@[j]).wf(),
                mle_eval(
                    ext_vec_view(scratch).subrange(0, cur_eval_size as int),
                    pv.subrange(k as int, pv.len() as int),
                ) == mle_eval(ev, pv),
                vstd::arithmetic::power2::pow2((pv.len() - k) as nat) == cur_eval_size,
            decreases pv.len() - k,
        {
            proof {
                vstd::arithmetic::power2::lemma_pow2_unfold((pv.len() - k) as nat);
                vstd::arithmetic::power2::lemma_pow2_pos((pv.len() - k - 1) as nat);
            }
            let half = cur_eval_size / 2;
            let rk = point[k];
            let ghost pre = ext_vec_view(scratch).subrange(0, cur_eval_size as int);
            let mut j: usize = 0;
            while j < half
                invariant
                    j <= half,
                    2 * half == cur_eval_size,
                    cur_eval_size <= scratch@.len(),
                    rk.wf(),
                    rk@ == pv[k as int],
                    scratch@.len() == pre.len() + (scratch@.len() - cur_eval_size),
                    forall|l: int| 0 <= l < scratch@.len() ==> (#[trigger] scratch@[l]).wf(),
                    forall|l: int|
                        j <= l < cur_eval_size ==> (#[trigger] scratch@[l])@ == pre[l],
                    forall|l: int|
                        0 <= l < j ==> (#[trigger] scratch@[l])@ == fold_once(pre, rk@)[l],
                decreases half - j,
            {
                let s0 = scratch[2 * j];
                let s1 = scratch[2 * j + 1];
                let v = s0.add(s1.sub(s0).mul(rk));
                scratch[j] = v;
                proof {
                    assert(v@ == fold_once(pre, rk@)[j as int]);
                }
                j += 1;
            }
            cur_eval_size = half;
            k += 1;
            proof {
                assert(ext_vec_view(scratch).subrange(0, half as int) =~= fold_once(
                    pre,
                    rk@,
                ).subrange(0, half as int));
                assert(fold_once(pre, rk@).subrange(0, half as int) =~= fold_once(pre, rk@));
                let rest = pv.subrange(k - 1, pv.len() as int);
                assert(rest[0] == pv[k - 1]);
                assert(rest.subrange(1, rest.len() as int) =~= pv.subrange(
                    k as int,
                    pv.len() as int,
                ));
                assert(mle_eval(pre, rest) == mle_eval(
                    fold_once(pre, rk@),
                    pv.subrange(k as int, pv.len() as int),
                ));
            }
        }
        proof {
            assert(pv.subrange(pv.len() as int, pv.len() as int) =~= Seq::<(int, int)>::empty());
            vstd::arithmetic::power2::lemma2_to64();
        }
        scratch[0]
    }

    /// Hypercube-folding evaluation of an extension-field table at an
    /// extension-field point.
    pub fn eval_multilinear_ext(evals: &Vec<Goldilocks64Ext>, point: &Vec<Goldilocks64Ext>)
        -> (res: Goldilocks64Ext)
        requires
            point@.len() < 64,
            evals@.len() == vstd::arithmetic::power2::pow2(point@.len()),
            ext_vec_wf(*evals),
            ext_vec_wf(*point),
        ensures
            res@ == mle_eval(ext_vec_view(*evals), ext_vec_view(*point)),
            res.wf(),
    {
        let ghost ev = ext_vec_view(*evals);
        let ghost pv = ext_vec_view(*point);
        let mut scratch: Vec<Goldilocks64Ext> = evals.clone();
        proof {
            vstd::arithmetic::power2::lemma_pow2_pos(pv.len() as nat);
            assert(ext_vec_view(scratch) =~= ev);
        }
        let mut cur_eval_size: usize = evals.len();
        proof {
            assert(ext_vec_view(scratch).subrange(0, cur_eval_size as int) =~= ev);
            assert(pv.subrange(0, pv.len() as int) =~= pv);
        }
        let mut k: usize = 0;
        while k < point.len()
            invariant
                k <= pv.len(),
                pv == ext_vec_view(*point),
                ext_vec_wf(*point),
                scratch@.len() >= cur_eval_size,
                cur_eval_size >= 1,
                forall|j: int| 0 <= j < scratch@.len() ==> (#[trigger] scratch@[j]).wf(),
                mle_eval(
                    ext_vec_view(scratch).subrange(0, cur_eval_size as int),
                    pv.subrange(k as int, pv.len() as int),
                ) == mle_eval(ev, pv),
                vstd::arithmetic::power2::pow2((pv.len() - k) as nat) == cur_eval_size,
            decreases pv.len() - k,
        {
            proof {
                vstd::arithmetic::power2::lemma_pow2_unfold((pv.len() - k) as nat);
                vstd::arithmetic::power2::lemma_pow2_pos((pv.len() - k - 1) as nat);
            }
            let half = cur_eval_size / 2;
            let rk = point[k];
            let ghost pre = ext_vec_view(scratch).subrange(0, cur_eval_size as int);
            let mut j: usize = 0;
            while j < half
                invariant
                    j <= half,
                    2 * half == cur_eval_size,
                    cur_eval_size <= scratch@.len(),
                    rk.wf(),
                    rk@ == pv[k as int],
                    scratch@.len() == pre.len() + (scratch@.len() - cur_eval_size),
                    forall|l: int| 0 <= l < scratch@.len() ==> (#[trigger] scratch@[l]).wf(),
                    forall|l: int|
                        j <= l < cur_eval_size ==> (#[trigger] scratch@[l])@ == pre[l],
                    forall|l: int|
                        0 <= l < j ==> (#[trigger] scratch@[l])@ == fold_once(pre, rk@)[l],
                decreases half - j,
            {
                let s0 = scratch[2 * j];
                let s1 = scratch[2 * j + 1];
                let v = s0.add(s1.sub(s0).mul(rk));
                scratch[j] = v;
                proof {
                    assert(v@ == fold_once(pre, rk@)[j as int]);
                }
                j += 1;
            }
            cur_eval_size = half;
            k += 1;
            proof {
                assert(ext_vec_view(scratch).subrange(0, half as int) =~= fold_once(
                    pre,
                    rk@,
                ).subrange(0, half as int));
                assert(fold_once(pre, rk@).subrange(0, half as int) =~= fold_once(pre, rk@));
                let rest = pv.subrange(k - 1, pv.len() as int);
                assert(rest[0] == pv[k - 1]);
                assert(rest.subrange(1, rest.len() as int) =~= pv.subrange(
                    k as int,
                    pv.len() as int,
                ));
                assert(mle_eval(pre, rest) == mle_eval(
                    fold_once(pre, rk@),
                    pv.subrange(k as int, pv.len() as int),
                ));
            }
        }
        proof {
            assert(pv.subrange(pv.len() as int, pv.len() as int) =~= Seq::<(int, int)>::empty());
            vstd::arithmetic::power2::lemma2_to64();
        }
        scratch[0]
    }
}

} // verus!

verus! {

/// Embeds a base-field table into the extension field.
pub fn embed_base_vec(v: &Vec<Goldilocks64>) -> (r: Vec<Goldilocks64Ext>)
    requires
        base_vec_wf(*v),
    ensures
        r@.len() == v@.len(),
        ext_vec_wf(r),
        ext_vec_view(r) == base_vec_view(*v),
{
    let mut r: Vec<Goldilocks64Ext> = Vec::new();
    let mut i: usize = 0;
    while i < v.len()
        invariant
            i <= v@.len(),
            base_vec_wf(*v),
            r@.len() == i,
            ext_vec_wf(r),
            forall|j: int| 0 <= j < i ==> (#[trigger] r@[j])@ == (v@[j]@, 0int),
        decreases v@.len() - i,
    {
        r.push(Goldilocks64Ext::from_base(v[i]));
        i += 1;
    }
    proof {
        assert(ext_vec_view(r) =~= base_vec_view(*v));
    }
    r
}

/// A well-formed multilinear table has well-formed stored values.
pub proof fn lemma_mle_vec_wf(p: MultiLinearPoly)
    requires
        p.wf(),
    ensures
        ext_vec_wf(p.evals),
        p.evals@.len() == p@.len(),
{
    assert forall|l: int| 0 <= l < p.evals@.len() implies (#[trigger] p.evals@[l]).wf() by {
        assert(p@[l] == p.evals@[l]@);
    }
}

/// An element-wise copy of a base-field table.
pub fn clone_base_vec(v: &Vec<Goldilocks64>) -> (r: Vec<Goldilocks64>)
    ensures
        r@ == v@,
{
    let mut r: Vec<Goldilocks64> = Vec::new();
    let mut i: usize = 0;
    while i < v.len()
        invariant
            i <= v@.len(),
            r@.len() == i,
            forall|j: int| 0 <= j < i ==> r@[j] == v@[j],
        decreases v@.len() - i,
    {
        r.push(v[i]);
        i += 1;
    }
    proof {
        assert(r@ =~= v@);
    }
    r
}

/// Appends a copy of `src` to `dst`.
pub fn append_ext_vec(dst: &mut Vec<Goldilocks64Ext>, src: &Vec<Goldilocks64Ext>)
    requires
        ext_vec_wf(*old(dst)),
        ext_vec_wf(*src),
    ensures
        final(dst)@ == old(dst)@ + src@,
        ext_vec_wf(*final(dst)),
{
    let ghost pre = dst@;
    let mut i: usize = 0;
    while i < src.len()
        invariant
            i <= src@.len(),
            ext_vec_wf(*src),
            dst@ == pre + src@.subrange(0, i as int),
            ext_vec_wf(*dst),
        decreases src@.len() - i,
    {
        dst.push(src[i]);
        i += 1;
        proof {
            assert(dst@ =~= pre + src@.subrange(0, i as int));
        }
    }
    proof {
        assert(dst@ =~= pre + src@);
    }
}

/// A copy of the first `n` coordinates of a point.
pub fn prefix_ext_vec(v: &Vec<Goldilocks64Ext>, n: usize) -> (r: Vec<Goldilocks64Ext>)
    requires
        n <= v@.len(),
        ext_vec_wf(*v),
    ensures
        r@ == v@.subrange(0, n as int),
        r@.len() == n,
        ext_vec_wf(r),
{
    let mut r: Vec<Goldilocks64Ext> = Vec::new();
    let mut i: usize = 0;
    while i < n
        invariant
            i <= n,
            n <= v@.len(),
            ext_vec_wf(*v),
            r@.len() == i,
            forall|j: int| 0 <= j < i ==> r@[j] == v@[j],
            ext_vec_wf(r),
        decreases n - i,
    {
        r.push(v[i]);
        i += 1;
    }
    proof {
        assert(r@ =~= v@.subrange(0, n as int));
    }
    r
}

/// A copy of the coordinates of a point from `n` on.
pub fn suffix_ext_vec(v: &Vec<Goldilocks64Ext>, n: usize) -> (r: Vec<Goldilocks64Ext>)
    requires
        n <= v@.len(),
        ext_vec_wf(*v),
    ensures
        r@ == v@.subrange(n as int, v@.len() as int),
        ext_vec_wf(r),
{
    let mut r: Vec<Goldilocks64Ext> = Vec::new();
    let mut i: usize = n;
    while i < v.len()
        invariant
            n <= i <= v@.len(),
            ext_vec_wf(*v),
            r@.len() == i - n,
            forall|j: int| 0 <= j < i - n ==> r@[j] == v@[j + n],
            ext_vec_wf(r),
        decreases v@.len() - i,
    {
        r.push(v[i]);
        i += 1;
    }
    proof {
        assert(r@ =~= v@.subrange(n as int, v@.len() as int));
    }
    r
}

} // verus!

verus! {

/// Every entry of a table multiplied by one scalar.
pub open spec fn scale_table(table: Seq<(int, int)>, c: (int, int)) -> Seq<(int, int)> {
    Seq::new(table.len(), |j: int| ext_mul(table[j], c))
}

/// Folding one doubling step of the equality table against a point
/// coordinate scales the table by the matching closed-form factor:
/// `t*(1-b) + (t*b - t*(1-b))*p == t * (2*b*p - p - b + 1)`.
proof fn lemma_fold_eq_expand_entry(t: (int, int), b: (int, int), p: (int, int))
    requires
        ext_wf(p),
    ensures
        ext_add(
            ext_mul(t, ext_sub(ext_one(), b)),
            ext_mul(ext_sub(ext_mul(t, b), ext_mul(t, ext_sub(ext_one(), b))), p),
        ) == ext_mul(t, eq_term(b, p)),
{
    let one = ext_one();
    let nb = ext_sub(one, b);
    // t*b - t*nb == t*(b - nb)
    crate::ext_field::lemma_ext_mul_distributes_sub(t, b, nb);
    // (t*(b - nb))*p == t*((b - nb)*p)
    crate::ext_field::lemma_ext_mul_assoc(t, ext_sub(b, nb), p);
    // t*nb + t*((b - nb)*p) == t*(nb + (b - nb)*p)
    crate::ext_field::lemma_ext_mul_distributes_add(t, nb, ext_mul(ext_sub(b, nb), p));
    // the scalar factor equals the closed-form equality factor
    lemma_eq_term_shape(b, p);
}

/// The closed-form equality factor written two ways:
/// `(1-b) + (b - (1-b))*p == ((p*b + p*b) - p - b) + 1`.
proof fn lemma_eq_term_shape(b: (int, int), p: (int, int))
    requires
        ext_wf(p),
    ensures
        ext_add(ext_mul(ext_sub(b, ext_sub(ext_one(), b)), p), ext_sub(ext_one(), b)) == eq_term(
            b,
            p,
        ),
        ext_add(ext_sub(ext_one(), b), ext_mul(ext_sub(b, ext_sub(ext_one(), b)), p)) == eq_term(
            b,
            p,
        ),
{
    let m = crate::field::MOD as int;
    let one = ext_one();
    let nb = ext_sub(one, b);
    let t = ext_mul(p, b);
    // (b - nb)*p == p*b - p*nb
    crate::ext_field::lemma_ext_mul_comm(ext_sub(b, nb), p);
    crate::ext_field::lemma_ext_mul_distributes_sub(p, b, nb);
    // p*nb == p*1 - p*b == p - t
    crate::ext_field::lemma_ext_mul_distributes_sub(p, one, b);
    crate::ext_field::lemma_ext_one_identity(p);
    crate::ext_field::lemma_ext_mul_comm(p, one);
    assert(ext_mul(p, nb) == ext_sub(p, t));
    assert(ext_mul(ext_sub(b, nb), p) == ext_sub(t, ext_sub(p, t)));
    // the remaining additive rearrangement, componentwise
    let lhs = ext_add(ext_sub(t, ext_sub(p, t)), nb);
    let rhs = eq_term(b, p);
    assert(lhs.0 == rhs.0 && lhs.1 == rhs.1) by {
        lemma_add_rearrange(t.0, p.0, b.0, 1int);
        lemma_add_rearrange(t.1, p.1, b.1, 0int);
    }
    assert(ext_add(nb, ext_mul(ext_sub(b, nb), p)) == ext_add(ext_mul(ext_sub(b, nb), p), nb));
}

/// `(a - (p - a)) + (u - b) == (((a + a) - p) - b) + u`, under the modulus.
proof fn lemma_add_rearrange(a: int, p: int, b: int, u: int)
    ensures
        ((a - (p - a) % (crate::field::MOD as int)) % (crate::field::MOD as int) + (u - b) % (
        crate::field::MOD as int)) % (crate::field::MOD as int) == ((((a + a) % (
        crate::field::MOD as int) - p) % (crate::field::MOD as int) - b) % (
        crate::field::MOD as int) + u) % (crate::field::MOD as int),
{
    let m = crate::field::MOD as int;
    // left side: drop the inner reductions one at a time
    vstd::arithmetic::div_mod::lemma_sub_mod_noop_right(a, p - a, m);
    vstd::arithmetic::div_mod::lemma_add_mod_noop(a - (p - a), u - b, m);
    // right side likewise
    vstd::arithmetic::div_mod::lemma_sub_mod_noop_right(((a + a) % m), p, m);
    vstd::arithmetic::div_mod::lemma_sub_mod_noop(a + a, p, m);
    vstd::arithmetic::div_mod::lemma_sub_mod_noop_right(((a + a - p) % m), b, m);
    vstd::arithmetic::div_mod::lemma_sub_mod_noop(a + a - p, b, m);
    vstd::arithmetic::div_mod::lemma_add_mod_noop_right(u, a + a - p - b, m);
}

} // verus!

verus! {

/// One fold of a doubled equality table scales the whole table by the
/// matching closed-form factor.
proof fn lemma_fold_eq_expand(table: Seq<(int, int)>, b: (int, int), p: (int, int))
    requires
        ext_wf(p),
    ensures
        fold_once(eq_expand(table, b), p) == scale_table(table, eq_term(b, p)),
{
    let e = eq_expand(table, b);
    let f = fold_once(e, p);
    let s = scale_table(table, eq_term(b, p));
    assert forall|j: int| 0 <= j < table.len() implies f[j] == s[j] by {
        assert(e[2 * j] == ext_mul(table[j], ext_sub(ext_one(), b)));
        assert(e[2 * j + 1] == ext_mul(table[j], b));
        lemma_fold_eq_expand_entry(table[j], b, p);
    }
    assert(f =~= s);
}

/// Scaling commutes with one fold:
/// `t0*c + (t1*c - t0*c)*q == (t0 + (t1 - t0)*q)*c`.
proof fn lemma_scale_fold_entry(t0: (int, int), t1: (int, int), c: (int, int), q: (int, int))
    ensures
        ext_add(ext_mul(t0, c), ext_mul(ext_sub(ext_mul(t1, c), ext_mul(t0, c)), q)) == ext_mul(
            ext_add(t0, ext_mul(ext_sub(t1, t0), q)),
            c,
        ),
{
    let d = ext_sub(t1, t0);
    crate::ext_field::lemma_ext_mul_comm(t1, c);
    crate::ext_field::lemma_ext_mul_comm(t0, c);
    crate::ext_field::lemma_ext_mul_distributes_sub(c, t1, t0);
    assert(ext_sub(ext_mul(t1, c), ext_mul(t0, c)) == ext_mul(c, d));
    crate::ext_field::lemma_ext_mul_assoc(c, d, q);
    crate::ext_field::lemma_ext_mul_comm(c, ext_mul(d, q));
    assert(ext_mul(ext_mul(c, d), q) == ext_mul(ext_mul(d, q), c));
    crate::ext_field::lemma_ext_mul_comm(ext_add(t0, ext_mul(d, q)), c);
    crate::ext_field::lemma_ext_mul_distributes_add(c, t0, ext_mul(d, q));
    crate::ext_field::lemma_ext_mul_comm(c, t0);
    crate::ext_field::lemma_ext_mul_comm(c, ext_mul(d, q));
}

/// Evaluating a scaled table scales the evaluation.
proof fn lemma_scale_mle(table: Seq<(int, int)>, c: (int, int), pts: Seq<(int, int)>)
    requires
        table.len() == vstd::arithmetic::power2::pow2(pts.len()),
    ensures
        mle_eval(scale_table(table, c), pts) == ext_mul(mle_eval(table, pts), c),
    decreases pts.len(),
{
    if pts.len() == 0 {
        vstd::arithmetic::power2::lemma2_to64();
        assert(scale_table(table, c)[0] == ext_mul(table[0], c));
    } else {
        let q = pts[0];
        let rest = pts.subrange(1, pts.len() as int);
        assert(fold_once(scale_table(table, c), q) =~= scale_table(fold_once(table, q), c)) by {
            let lf = fold_once(scale_table(table, c), q);
            let rf = scale_table(fold_once(table, q), c);
            assert forall|j: int| 0 <= j < table.len() / 2 implies lf[j] == rf[j] by {
                lemma_scale_fold_entry(table[2 * j], table[2 * j + 1], c, q);
            }
        }
        vstd::arithmetic::power2::lemma_pow2_unfold(pts.len());
        lemma_scale_mle(fold_once(table, q), c, rest);
    }
}

/// The closed-form equality polynomial agrees with evaluating the equality
/// table as a multilinear polynomial: for every `r` and `point` of the same
/// length, `eval_eq(r, point) == eval_multilinear(new_eq(r), point)`.
pub proof fn lemma_eval_eq_consistency(r: Seq<(int, int)>, p: Seq<(int, int)>)
    requires
        r.len() == p.len(),
        ext_seq_wf(r),
        ext_seq_wf(p),
    ensures
        eq_eval(r, p) == mle_eval(eq_table(r), p),
    decreases r.len(),
{
    if r.len() == 0 {
        assert(eq_table(r)[0] == ext_one());
    } else {
        let rt = r.subrange(1, r.len() as int);
        let pt = p.subrange(1, p.len() as int);
        let table = eq_table(rt);
        lemma_eq_table_len(rt);
        lemma_fold_eq_expand(table, r[0], p[0]);
        lemma_scale_mle(table, eq_term(r[0], p[0]), pt);
        assert(ext_seq_wf(rt));
        assert(ext_seq_wf(pt));
        lemma_eval_eq_consistency(rt, pt);
        assert(mle_eval(eq_table(r), p) == mle_eval(
            fold_once(eq_expand(table, r[0]), p[0]),
            pt,
        ));
    }
}

} // verus!
