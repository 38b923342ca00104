//! The generalized sumcheck protocol: a multi-round reduction of a claim
//! about the sum of a low-degree combination of multilinear polynomials over
//! the Boolean hypercube to a claim about one evaluation point.
//!
//! The prover is pinned to the multilinear-evaluation semantics: the final
//! values it returns are exactly the original tables evaluated at the final
//! point.  The verifier is pinned to an exact specification-level mirror of
//! its round checks, so acceptance is a deterministic function of the claimed
//! values and the proof bytes.

use crate::ext_field::ext_add;
use crate::ext_field::ext_inv_spec;
use crate::ext_field::ext_mul;
use crate::ext_field::ext_one;
use crate::ext_field::ext_prod;
use crate::ext_field::ext_prod_except;
use crate::ext_field::ext_sub;
use crate::ext_field::ext_zero;
use crate::ext_field::batch_inverse;
use crate::ext_field::spec_as_bytes;
use crate::ext_field::spec_ext_deserialize;
use crate::ext_field::spec_ext_serialize;
use crate::ext_field::Goldilocks64Ext;
use crate::fiat_shamir::spec_next_digest;
use crate::fiat_shamir::Proof;
use crate::fiat_shamir::Transcript;
use crate::poly::ext_vec_view;
use crate::poly::ext_vec_wf;
use crate::poly::fold_once;
use crate::poly::mle_eval;
use vstd::prelude::*;

verus! {

/// The exact base-2 logarithm of a power of two.
pub open spec fn log2(n: nat) -> nat
    decreases n,
{
    if n <= 1 {
        0
    } else {
        1 + log2(n / 2)
    }
}

/// A size is an exact power of two when `2^(log2 n) == n`.
pub open spec fn is_power_of_two(n: nat) -> bool {
    vstd::arithmetic::power2::pow2(log2(n)) == n
}

/// Computes the exact base-2 logarithm of a power-of-two size.
pub fn log2_exact(n: usize) -> (r: usize)
    requires
        is_power_of_two(n as nat),
        n >= 1,
    ensures
        r == log2(n as nat),
        vstd::arithmetic::power2::pow2(r as nat) == n,
        r < 64,
{
    let mut m = n;
    let mut r: usize = 0;
    proof {
        vstd::arithmetic::power2::lemma2_to64();
        assert(vstd::arithmetic::power2::pow2(0) * n == n) by (nonlinear_arith)
            requires
                vstd::arithmetic::power2::pow2(0) == 1,
        ;
    }
    while m > 1
        invariant
            m >= 1,
            r <= 63,
            is_power_of_two(m as nat),
            log2(n as nat) == r + log2(m as nat),
            vstd::arithmetic::power2::pow2(log2(m as nat)) == m,
            vstd::arithmetic::power2::pow2(r as nat) <= n,
            vstd::arithmetic::power2::pow2(r as nat) * m == n,
        decreases m,
    {
        proof {
            vstd::arithmetic::power2::lemma_pow2_unfold(log2(m as nat));
            assert(m % 2 == 0) by {
                assert(vstd::arithmetic::power2::pow2(log2(m as nat)) == 2
                    * vstd::arithmetic::power2::pow2((log2(m as nat) - 1) as nat));
            }
            vstd::arithmetic::power2::lemma_pow2_adds(r as nat, 1);
            vstd::arithmetic::power2::lemma2_to64();
            assert(vstd::arithmetic::power2::pow2(r as nat + 1) * (m as nat / 2) == n) by (
            nonlinear_arith)
                requires
                    vstd::arithmetic::power2::pow2(r as nat) * m == n,
                    m as nat % 2 == 0,
                    vstd::arithmetic::power2::pow2(r as nat + 1) == 2 * vstd::arithmetic::power2::pow2(
                        r as nat,
                    ),
            ;
            assert(vstd::arithmetic::power2::pow2(r as nat + 1) <= n) by (nonlinear_arith)
                requires
                    vstd::arithmetic::power2::pow2(r as nat + 1) * (m as nat / 2) == n,
                    m as nat / 2 >= 1,
                    vstd::arithmetic::power2::pow2(r as nat + 1) >= 0,
            ;
            if r >= 63 {
                vstd::arithmetic::power2::lemma2_to64_rest();
                assert(vstd::arithmetic::power2::pow2(64) > usize::MAX);
                if r as nat + 1 > 64 {
                    vstd::arithmetic::power2::lemma_pow2_strictly_increases(64, r as nat + 1);
                }
                assert(false);
            }
        }
        m = m / 2;
        r += 1;
    }
    proof {
        assert(vstd::arithmetic::power2::pow2(r as nat) == n) by {
            assert(log2(m as nat) == 0);
        }
    }
    r
}

/// Iterated folding of an evaluation table against a sequence of points.
pub open spec fn fold_many(evals: Seq<(int, int)>, points: Seq<(int, int)>) -> Seq<(int, int)>
    decreases points.len(),
{
    if points.len() == 0 {
        evals
    } else {
        fold_many(fold_once(evals, points[0]), points.subrange(1, points.len() as int))
    }
}

/// Folding one more point extends the chain at its end.
pub proof fn lemma_fold_many_snoc(evals: Seq<(int, int)>, points: Seq<(int, int)>, c: (int, int))
    ensures
        fold_many(evals, points.push(c)) == fold_once(fold_many(evals, points), c),
    decreases points.len(),
{
    if points.len() == 0 {
        let p = points.push(c);
        assert(p[0] == c);
        assert(p.subrange(1, 1) =~= Seq::<(int, int)>::empty());
        assert(fold_many(evals, p) == fold_many(fold_once(evals, c), p.subrange(1, 1)));
        assert(fold_many(fold_once(evals, c), p.subrange(1, 1)) == fold_once(evals, c));
        assert(fold_many(evals, points) == evals);
    } else {
        assert(points.push(c)[0] == points[0]);
        assert(points.push(c).subrange(1, points.len() as int + 1) =~= points.subrange(
            1,
            points.len() as int,
        ).push(c));
        lemma_fold_many_snoc(fold_once(evals, points[0]), points.subrange(1, points.len() as int), c);
    }
}

/// Multilinear evaluation is the fold chain run to a single entry.
pub proof fn lemma_mle_eval_is_fold_many(evals: Seq<(int, int)>, points: Seq<(int, int)>)
    requires
        fold_many(evals, points).len() > 0,
    ensures
        mle_eval(evals, points) == fold_many(evals, points)[0],
    decreases points.len(),
{
    if points.len() == 0 {
    } else {
        lemma_mle_eval_is_fold_many(
            fold_once(evals, points[0]),
            points.subrange(1, points.len() as int),
        );
    }
}

/// An arithmetic combination function, given as data: one output per entry,
/// each output a sum of coefficient-scaled monomials in the input values.
#[derive(Clone, Debug)]
pub struct Combinator {
    pub outputs: Vec<Vec<(Goldilocks64Ext, Vec<usize>)>>,
}

/// The value of one monomial: the product of the selected input values,
/// multiplied up left to right.
pub open spec fn mono_eval(vals: Seq<(int, int)>, idxs: Seq<usize>) -> (int, int)
    decreases idxs.len(),
{
    if idxs.len() == 0 {
        ext_one()
    } else {
        ext_mul(mono_eval(vals, idxs.drop_last()), vals[idxs.last() as int])
    }
}

/// The value of one output: the sum of its scaled monomials, left to right.
pub open spec fn terms_eval(vals: Seq<(int, int)>, terms: Seq<(Goldilocks64Ext, Seq<usize>)>) -> (
    int,
    int,
)
    decreases terms.len(),
{
    if terms.len() == 0 {
        ext_zero()
    } else {
        ext_add(
            terms_eval(vals, terms.drop_last()),
            ext_mul(terms.last().0@, mono_eval(vals, terms.last().1)),
        )
    }
}

impl Combinator {
    /// The view of one output's term list.
    pub open spec fn term_view(terms: Vec<(Goldilocks64Ext, Vec<usize>)>) -> Seq<
        (Goldilocks64Ext, Seq<usize>),
    > {
        terms@.map_values(|t: (Goldilocks64Ext, Vec<usize>)| (t.0, t.1@))
    }

    /// The number of parallel outputs.
    pub open spec fn m_outputs(&self) -> int {
        self.outputs@.len() as int
    }

    /// Well-formed for `n` inputs: every coefficient canonical, every
    /// monomial index in range.
    pub open spec fn wf(&self, n: int) -> bool {
        forall|j: int, k: int|
            0 <= j < self.outputs@.len() && 0 <= k < self.outputs@[j]@.len() ==> {
                &&& (#[trigger] self.outputs@[j]@[k]).0.wf()
                &&& forall|l: int|
                    0 <= l < self.outputs@[j]@[k].1@.len() ==> (
                    #[trigger] self.outputs@[j]@[k].1@[l]) < n
            }
    }

    /// The value of output `j` on an assignment of the inputs.
    pub open spec fn output_eval(&self, vals: Seq<(int, int)>, j: int) -> (int, int) {
        terms_eval(vals, Self::term_view(self.outputs@[j]))
    }

    /// Applies the combination function to one assignment of the inputs.
    pub fn apply(&self, vals: &Vec<Goldilocks64Ext>) -> (r: Vec<Goldilocks64Ext>)
        requires
            self.wf(vals@.len() as int),
            ext_vec_wf(*vals),
        ensures
            r@.len() == self.m_outputs(),
            forall|j: int|
                0 <= j < r@.len() ==> (#[trigger] r@[j])@ == self.output_eval(
                    ext_vec_view(*vals),
                    j,
                ) && r@[j].wf(),
    {
        let ghost vv = ext_vec_view(*vals);
        let mut r: Vec<Goldilocks64Ext> = Vec::new();
        let mut j: usize = 0;
        while j < self.outputs.len()
            invariant
                j <= self.outputs@.len(),
                r@.len() == j,
                self.wf(vals@.len() as int),
                ext_vec_wf(*vals),
                vv == ext_vec_view(*vals),
                forall|i: int|
                    0 <= i < j ==> (#[trigger] r@[i])@ == self.output_eval(vv, i) && r@[i].wf(),
            decreases self.outputs@.len() - j,
        {
            let terms = &self.outputs[j];
            let mut acc = Goldilocks64Ext::zero();
            let mut k: usize = 0;
            while k < terms.len()
                invariant
                    k <= terms@.len(),
                    terms == &self.outputs@[j as int],
                    j < self.outputs@.len(),
                    self.wf(vals@.len() as int),
                    ext_vec_wf(*vals),
                    vv == ext_vec_view(*vals),
                    acc.wf(),
                    acc@ == terms_eval(vv, Self::term_view(*terms).subrange(0, k as int)),
                decreases terms@.len() - k,
            {
                let coeff = terms[k].0;
                let idxs = &terms[k].1;
                let mut m = Goldilocks64Ext::one();
                let mut l: usize = 0;
                while l < idxs.len()
                    invariant
                        l <= idxs@.len(),
                        idxs == &self.outputs@[j as int]@[k as int].1,
                        k < terms@.len(),
                        terms == &self.outputs@[j as int],
                        j < self.outputs@.len(),
                        self.wf(vals@.len() as int),
                        ext_vec_wf(*vals),
                        vv == ext_vec_view(*vals),
                        m.wf(),
                        m@ == mono_eval(vv, idxs@.subrange(0, l as int)),
                    decreases idxs@.len() - l,
                {
                    let idx = idxs[l];
                    m = m.mul(vals[idx]);
                    proof {
                        assert(idxs@.subrange(0, l + 1).drop_last() =~= idxs@.subrange(
                            0,
                            l as int,
                        ));
                    }
                    l += 1;
                }
                proof {
                    assert(idxs@.subrange(0, idxs@.len() as int) =~= idxs@);
                }
                acc = acc.add(coeff.mul(m));
                proof {
                    let tv = Self::term_view(*terms);
                    assert(tv.subrange(0, k + 1).drop_last() =~= tv.subrange(0, k as int));
                    assert(tv.subrange(0, k + 1).last() == tv[k as int]);
                }
                k += 1;
            }
            proof {
                assert(Self::term_view(*terms).subrange(
                    0,
                    Self::term_view(*terms).len() as int,
                ) =~= Self::term_view(*terms));
            }
            r.push(acc);
            j += 1;
        }
        r
    }
}

} // verus!

verus! {

/// The barycentric node weight `prod_{j != i} (i - j)` over the integer
/// nodes `0..=n`, accumulated left to right over `j < upto`.
pub open spec fn node_weight_upto(i: int, upto: int) -> (int, int)
    decreases upto,
{
    if upto <= 0 {
        ext_one()
    } else {
        let p = node_weight_upto(i, upto - 1);
        if upto - 1 == i {
            p
        } else {
            ext_mul(p, ext_sub((i, 0int), (upto - 1, 0int)))
        }
    }
}

/// The full table of barycentric node weights for nodes `0..=n`.
pub open spec fn bary_weights(n: int) -> Seq<(int, int)> {
    Seq::new((n + 1) as nat, |i: int| node_weight_upto(i, n + 1))
}

/// What `init_base` returns: the inverted barycentric weights by
/// Montgomery's trick.  The two degenerate branches (a zero weight, or a
/// zero product of weights) cannot occur in the field, but excluding them
/// outright would need the primality of the modulus, which is outside what
/// the verifier can establish; they are therefore handled explicitly.
pub open spec fn bary_base(n: int) -> Option<Seq<(int, int)>> {
    let ws = bary_weights(n);
    if exists|i: int| 0 <= i < ws.len() && ws[i] == ext_zero() {
        None
    } else if ext_prod(ws) == ext_zero() {
        Some(ws)
    } else {
        Some(
            Seq::new(
                ws.len(),
                |i: int| ext_mul(ext_inv_spec(ext_prod(ws)), ext_prod_except(ws, i)),
            ),
        )
    }
}

/// The Lagrange numerator `prod_{j != i, j < upto} (x - j)`, accumulated
/// left to right.
pub open spec fn lag_num_upto(x: (int, int), i: int, upto: int) -> (int, int)
    decreases upto,
{
    if upto <= 0 {
        ext_one()
    } else {
        let p = lag_num_upto(x, i, upto - 1);
        if upto - 1 == i {
            p
        } else {
            ext_mul(p, ext_sub(x, (upto - 1, 0int)))
        }
    }
}

/// The barycentric interpolation sum over the first `k` nodes:
/// `sum_i base[i] * (num_i(x) * v[i])`.
pub open spec fn lag_sum(
    base: Seq<(int, int)>,
    v: Seq<(int, int)>,
    x: (int, int),
    k: int,
) -> (int, int)
    decreases k,
{
    if k <= 0 {
        ext_zero()
    } else {
        ext_add(
            lag_sum(base, v, x, k - 1),
            ext_mul(base[k - 1], ext_mul(lag_num_upto(x, k - 1, base.len() as int), v[k - 1])),
        )
    }
}

/// The value at `x` of the degree-`n` polynomial through the points
/// `(i, v[i])`, via the precomputed barycentric base.
pub open spec fn lagrange_eval(base: Seq<(int, int)>, v: Seq<(int, int)>, x: (int, int)) -> (
    int,
    int,
) {
    lag_sum(base, v, x, base.len() as int)
}

/// A transcript state in the specification: the byte log, the start of the
/// unhashed suffix, and the rolling digest.
pub open spec fn ts_of(t: Transcript) -> (Seq<u8>, int, Seq<u8>) {
    (t.proof.bytes@, t.hash_start_idx as int, t.digest@)
}

/// Appending bytes to a transcript state.
pub open spec fn ts_append(ts: (Seq<u8>, int, Seq<u8>), bs: Seq<u8>) -> (Seq<u8>, int, Seq<u8>) {
    (ts.0 + bs, ts.1, ts.2)
}

/// The transcript state after drawing one challenge.
pub open spec fn ts_after_challenge(ts: (Seq<u8>, int, Seq<u8>)) -> (Seq<u8>, int, Seq<u8>) {
    (ts.0, ts.0.len() as int, spec_next_digest(ts.0, ts.1, ts.2))
}

/// The challenge value drawn from a transcript state.
pub open spec fn ts_challenge_value(ts: (Seq<u8>, int, Seq<u8>)) -> (int, int) {
    crate::ext_field::spec_ext_from_uniform_bytes(spec_next_digest(ts.0, ts.1, ts.2))
}

/// Reading `count` consecutive field elements from a proof byte stream.
pub open spec fn read_elems(bytes: Seq<u8>, idx: int, count: nat) -> Option<
    (Seq<Goldilocks64Ext>, int),
>
    decreases count,
{
    if count == 0 {
        Some((Seq::<Goldilocks64Ext>::empty(), idx))
    } else {
        match spec_ext_deserialize(bytes, idx) {
            None => None,
            Some(f) => match read_elems(bytes, idx + 16, (count - 1) as nat) {
                None => None,
                Some((s, i2)) => Some((seq![f] + s, i2)),
            },
        }
    }
}

/// Reading one more element extends the read at its end.
pub proof fn lemma_read_elems_snoc(bytes: Seq<u8>, idx: int, count: nat)
    ensures
        read_elems(bytes, idx, count + 1) == match read_elems(bytes, idx, count) {
            None => None::<(Seq<Goldilocks64Ext>, int)>,
            Some((s, i2)) => match spec_ext_deserialize(bytes, i2) {
                None => None::<(Seq<Goldilocks64Ext>, int)>,
                Some(f) => Some((s.push(f), i2 + 16)),
            },
        },
    decreases count,
{
    assert(read_elems(bytes, idx, count + 1) == (match spec_ext_deserialize(bytes, idx) {
        None => None::<(Seq<Goldilocks64Ext>, int)>,
        Some(f) => match read_elems(bytes, idx + 16, count) {
            None => None::<(Seq<Goldilocks64Ext>, int)>,
            Some((s, i2)) => Some((seq![f] + s, i2)),
        },
    }));
    if count == 0 {
        match spec_ext_deserialize(bytes, idx) {
            None => {
            },
            Some(f) => {
                assert(read_elems(bytes, idx + 16, 0) == Some(
                    (Seq::<Goldilocks64Ext>::empty(), idx + 16),
                ));
                assert(seq![f] + Seq::<Goldilocks64Ext>::empty() =~= Seq::<
                    Goldilocks64Ext,
                >::empty().push(f));
            },
        }
    } else {
        match spec_ext_deserialize(bytes, idx) {
            None => {
            },
            Some(f) => {
                lemma_read_elems_snoc(bytes, idx + 16, (count - 1) as nat);
                assert(read_elems(bytes, idx, count) == (match read_elems(
                    bytes,
                    idx + 16,
                    (count - 1) as nat,
                ) {
                    None => None::<(Seq<Goldilocks64Ext>, int)>,
                    Some((s, i2)) => Some((seq![f] + s, i2)),
                }));
                match read_elems(bytes, idx + 16, (count - 1) as nat) {
                    None => {
                    },
                    Some((s, i2)) => {
                        match spec_ext_deserialize(bytes, i2) {
                            None => {
                            },
                            Some(g) => {
                                assert(seq![f] + s.push(g) =~= (seq![f] + s).push(g));
                            },
                        }
                    },
                }
            },
        }
    }
}

/// One verifier round of the sumcheck: read the claimed evaluations, check
/// that the first two sum to the carried claim, absorb them into the
/// transcript, draw the round challenge and extrapolate the next claim.
pub open spec fn sumcheck_round_spec(
    y: Seq<(int, int)>,
    degree: int,
    base: Seq<(int, int)>,
    ts: (Seq<u8>, int, Seq<u8>),
    pbytes: Seq<u8>,
    idx: int,
) -> Option<(Seq<(int, int)>, (int, int), (Seq<u8>, int, Seq<u8>), int)> {
    let m = y.len() as int;
    match read_elems(pbytes, idx, (m * (degree + 1)) as nat) {
        None => None,
        Some((elems, idx2)) => {
            if forall|j: int|
                0 <= j < m ==> ext_add(
                    #[trigger] elems[j * (degree + 1)]@,
                    elems[j * (degree + 1) + 1]@,
                ) == y[j] {
                let ts1 = ts_append(ts, spec_as_bytes(elems));
                let c = ts_challenge_value(ts1);
                let ts2 = ts_after_challenge(ts1);
                let y2 = Seq::new(
                    m as nat,
                    |j: int|
                        lagrange_eval(
                            base,
                            elems.subrange(j * (degree + 1), (j + 1) * (degree + 1)).map_values(
                                |e: Goldilocks64Ext| e@,
                            ),
                            c,
                        ),
                );
                Some((y2, c, ts2, idx2))
            } else {
                None
            }
        },
    }
}

/// The verifier's round recursion: all remaining rounds, collecting the
/// challenge point.
pub open spec fn sumcheck_rounds_spec(
    y: Seq<(int, int)>,
    degree: int,
    base: Seq<(int, int)>,
    rounds: nat,
    ts: (Seq<u8>, int, Seq<u8>),
    pbytes: Seq<u8>,
    idx: int,
) -> Option<(Seq<(int, int)>, Seq<(int, int)>, (Seq<u8>, int, Seq<u8>), int)>
    decreases rounds,
{
    if rounds == 0 {
        Some((Seq::<(int, int)>::empty(), y, ts, idx))
    } else {
        match sumcheck_round_spec(y, degree, base, ts, pbytes, idx) {
            None => None,
            Some((y1, c, ts1, idx1)) => match sumcheck_rounds_spec(
                y1,
                degree,
                base,
                (rounds - 1) as nat,
                ts1,
                pbytes,
                idx1,
            ) {
                None => None,
                Some((pt, yf, tsf, idxf)) => Some((seq![c] + pt, yf, tsf, idxf)),
            },
        }
    }
}

/// The whole sumcheck verifier as a function of the claimed values, the
/// transcript state and the proof bytes.
#[verifier::opaque]
pub open spec fn sumcheck_verify_spec(
    y: Seq<(int, int)>,
    degree: int,
    var_num: nat,
    ts: (Seq<u8>, int, Seq<u8>),
    pbytes: Seq<u8>,
    idx: int,
) -> Option<(Seq<(int, int)>, Seq<(int, int)>, (Seq<u8>, int, Seq<u8>), int)> {
    match bary_base(degree) {
        None => None,
        Some(base) => sumcheck_rounds_spec(y, degree, base, var_num, ts, pbytes, idx),
    }
}

/// A byte log only ever grows: a prefix of it stays in place when more
/// bytes are appended.
pub proof fn lemma_prefix_extend(a: Seq<u8>, b: Seq<u8>, c: Seq<u8>)
    requires
        a.len() <= b.len(),
        a == b.subrange(0, a.len() as int),
    ensures
        a == (b + c).subrange(0, a.len() as int),
{
    assert((b + c).subrange(0, a.len() as int) =~= b.subrange(0, a.len() as int));
}

/// Prefixes chain: a prefix of a prefix is a prefix.
pub proof fn lemma_prefix_trans(a: Seq<u8>, b: Seq<u8>, c: Seq<u8>)
    requires
        a.len() <= b.len(),
        b.len() <= c.len(),
        a == b.subrange(0, a.len() as int),
        b == c.subrange(0, b.len() as int),
    ensures
        a == c.subrange(0, a.len() as int),
{
    assert(c.subrange(0, a.len() as int) =~= b.subrange(0, a.len() as int));
}

/// The generalized sumcheck protocol.
pub struct Sumcheck;

impl Sumcheck {
    /// Replaces an evaluation table with its fold against one challenge:
    /// entry `j` becomes `e[2j] + (e[2j+1] - e[2j]) * c`, and the table
    /// halves.
    pub fn fold_next_domain(
        poly_evals: &mut Vec<Goldilocks64Ext>,
        m: usize,
        challenge: Goldilocks64Ext,
    )
        requires
            old(poly_evals)@.len() == 2 * m,
            ext_vec_wf(*old(poly_evals)),
            challenge.wf(),
        ensures
            final(poly_evals)@.len() == m,
            ext_vec_wf(*final(poly_evals)),
            ext_vec_view(*final(poly_evals)) == fold_once(
                ext_vec_view(*old(poly_evals)),
                challenge@,
            ),
    {
        let ghost pre = ext_vec_view(*poly_evals);
        let total = poly_evals.len();
        let mut j: usize = 0;
        while j < m
            invariant
                j <= m,
                total == 2 * m,
                poly_evals@.len() == 2 * m,
                challenge.wf(),
                forall|l: int| 0 <= l < 2 * m ==> (#[trigger] poly_evals@[l]).wf(),
                forall|l: int| j <= l < 2 * m ==> (#[trigger] poly_evals@[l])@ == pre[l],
                forall|l: int|
                    0 <= l < j ==> (#[trigger] poly_evals@[l])@ == fold_once(pre, challenge@)[l],
            decreases m - j,
        {
            let e0 = poly_evals[2 * j];
            let e1 = poly_evals[2 * j + 1];
            let v = e0.add(e1.sub(e0).mul(challenge));
            poly_evals[j] = v;
            j += 1;
        }
        poly_evals.truncate(m);
        proof {
            assert(ext_vec_view(*poly_evals) =~= fold_once(pre, challenge@));
        }
    }

    /// The inverted barycentric weights over the nodes `0..=n`, via one
    /// batched inversion; `None` in the degenerate branches that the
    /// specification of `bary_base` spells out.
    pub fn init_base(n: usize) -> (r: Option<Vec<Goldilocks64Ext>>)
        requires
            n < 0x1000,
        ensures
            match bary_base(n as int) {
                None => r is None,
                Some(base) => r is Some && ext_vec_view(r->0) == base && ext_vec_wf(r->0)
                    && r->0@.len() == n + 1,
            },
    {
        let mut weights: Vec<Goldilocks64Ext> = Vec::new();
        let mut i: usize = 0;
        while i < n + 1
            invariant
                i <= n + 1,
                n < 0x1000,
                weights@.len() == i,
                forall|l: int|
                    0 <= l < i ==> (#[trigger] weights@[l])@ == node_weight_upto(l, n + 1)
                        && weights@[l].wf() && weights@[l]@ != ext_zero(),
            decreases n + 1 - i,
        {
            let mut prod = Goldilocks64Ext::one();
            let mut j: usize = 0;
            while j < n + 1
                invariant
                    j <= n + 1,
                    i <= n,
                    n < 0x1000,
                    prod.wf(),
                    prod@ == node_weight_upto(i as int, j as int),
                decreases n + 1 - j,
            {
                if i != j {
                    proof {
                        vstd::arithmetic::div_mod::lemma_small_mod(
                            j as nat,
                            crate::field::MOD as nat,
                        );
                        vstd::arithmetic::div_mod::lemma_small_mod(
                            i as nat,
                            crate::field::MOD as nat,
                        );
                    }
                    let node_i = Goldilocks64Ext::from_u64(i as u64);
                    let node_j = Goldilocks64Ext::from_u64(j as u64);
                    prod = prod.mul(node_i.sub(node_j));
                }
                j += 1;
            }
            if prod.is_zero() {
                proof {
                    assert(bary_weights(n as int)[i as int] == ext_zero());
                }
                return None;
            }
            weights.push(prod);
            i += 1;
        }
        proof {
            assert(ext_vec_view(weights) =~= bary_weights(n as int));
            assert(forall|l: int|
                0 <= l < bary_weights(n as int).len() ==> #[trigger] bary_weights(n as int)[l]
                    != ext_zero()) by {
                assert(forall|l: int|
                    0 <= l < weights@.len() ==> (#[trigger] weights@[l])@ == bary_weights(
                        n as int,
                    )[l]);
            }
        }
        let ghost ws = ext_vec_view(weights);
        batch_inverse(&mut weights);
        proof {
            assert(weights@.map_values(|x: Goldilocks64Ext| x@) == ws || ext_prod(ws)
                != ext_zero());
            if ext_prod(ws) != ext_zero() {
                let expected = Seq::new(
                    ws.len(),
                    |i: int| ext_mul(ext_inv_spec(ext_prod(ws)), ext_prod_except(ws, i)),
                );
                assert(ext_vec_view(weights) =~= expected);
            }
        }
        Some(weights)
    }

    /// Evaluates, at `x`, the degree-`n` univariate polynomial that passes
    /// through `(i, v[i])` for the integer nodes `i = 0..=n`, using the
    /// precomputed barycentric base.
    pub fn uni_extrapolate(
        base: &Vec<Goldilocks64Ext>,
        v: &Vec<Goldilocks64Ext>,
        x: Goldilocks64Ext,
    ) -> (res: Goldilocks64Ext)
        requires
            base@.len() == v@.len(),
            base@.len() >= 1,
            base@.len() < 0x1001,
            ext_vec_wf(*base),
            ext_vec_wf(*v),
            x.wf(),
        ensures
            res@ == lagrange_eval(ext_vec_view(*base), ext_vec_view(*v), x@),
            res.wf(),
    {
        let ghost bv = ext_vec_view(*base);
        let ghost vv = ext_vec_view(*v);
        let count = base.len();
        let mut numerator: Vec<Goldilocks64Ext> = Vec::new();
        let mut i: usize = 0;
        while i < count
            invariant
                i <= count,
                count == bv.len(),
                count < 0x1001,
                x.wf(),
                numerator@.len() == i,
                bv == ext_vec_view(*base),
                forall|l: int|
                    0 <= l < i ==> (#[trigger] numerator@[l])@ == lag_num_upto(
                        x@,
                        l,
                        count as int,
                    ) && numerator@[l].wf(),
            decreases count - i,
        {
            let mut prod = Goldilocks64Ext::one();
            let mut j: usize = 0;
            while j < count
                invariant
                    j <= count,
                    i < count,
                    count < 0x1001,
                    x.wf(),
                    prod.wf(),
                    prod@ == lag_num_upto(x@, i as int, j as int),
                decreases count - j,
            {
                if i != j {
                    proof {
                        vstd::arithmetic::div_mod::lemma_small_mod(
                            j as nat,
                            crate::field::MOD as nat,
                        );
                    }
                    prod = prod.mul(x.sub(Goldilocks64Ext::from_u64(j as u64)));
                }
                j += 1;
            }
            numerator.push(prod);
            i += 1;
        }
        let mut res = Goldilocks64Ext::zero();
        let mut i: usize = 0;
        while i < count
            invariant
                i <= count,
                count == bv.len(),
                count == vv.len(),
                bv == ext_vec_view(*base),
                vv == ext_vec_view(*v),
                ext_vec_wf(*base),
                ext_vec_wf(*v),
                x.wf(),
                numerator@.len() == count,
                forall|l: int|
                    0 <= l < count ==> (#[trigger] numerator@[l])@ == lag_num_upto(
                        x@,
                        l,
                        count as int,
                    ) && numerator@[l].wf(),
                res.wf(),
                res@ == lag_sum(bv, vv, x@, i as int),
            decreases count - i,
        {
            res = res.add(base[i].mul(numerator[i].mul(v[i])));
            i += 1;
        }
        res
    }
}

} // verus!

verus! {

/// The view of a family of evaluation tables.
pub open spec fn evals_view(e: Seq<Vec<Goldilocks64Ext>>) -> Seq<Seq<(int, int)>> {
    e.map_values(|x: Vec<Goldilocks64Ext>| ext_vec_view(x))
}

/// The data content of a combination function: one term list per output,
/// index vectors read as sequences.
pub open spec fn comb_view(c: Combinator) -> Seq<Seq<(Goldilocks64Ext, Seq<usize>)>> {
    c.outputs@.map_values(|t: Vec<(Goldilocks64Ext, Vec<usize>)>| Combinator::term_view(t))
}

/// The value of output `j` of a combination function given as data.
pub open spec fn outputs_eval(
    cv: Seq<Seq<(Goldilocks64Ext, Seq<usize>)>>,
    vals: Seq<(int, int)>,
    j: int,
) -> (int, int) {
    terms_eval(vals, cv[j])
}

/// The value of one input's multilinear restriction to the edge
/// `(v0, v1)` at the integer point `d`, built by repeated addition of the
/// endpoint difference.
pub open spec fn edge_extrap(v0: (int, int), v1: (int, int), d: int) -> (int, int)
    decreases d,
{
    if d <= 0 {
        v0
    } else if d == 1 {
        v1
    } else {
        ext_add(edge_extrap(v0, v1, d - 1), ext_sub(v1, v0))
    }
}

/// The assignment handed to the combination function on pair `p` at integer
/// point `d`: every input extrapolated along its edge.
pub open spec fn pair_assignment(evals: Seq<Seq<(int, int)>>, p: int, d: int) -> Seq<(int, int)> {
    Seq::new(evals.len(), |n: int| edge_extrap(evals[n][2 * p], evals[n][2 * p + 1], d))
}

/// The running sum of combinator output `j` at integer point `d` over the
/// first `pairs` adjacent pairs of the hypercube.
pub open spec fn message_sum(
    evals: Seq<Seq<(int, int)>>,
    cv: Seq<Seq<(Goldilocks64Ext, Seq<usize>)>>,
    j: int,
    d: int,
    pairs: nat,
) -> (int, int)
    decreases pairs,
{
    if pairs == 0 {
        ext_zero()
    } else {
        ext_add(
            message_sum(evals, cv, j, d, (pairs - 1) as nat),
            outputs_eval(cv, pair_assignment(evals, (pairs - 1) as int, d), j),
        )
    }
}

/// One full round message: for every output slot its `degree + 1` point
/// values, flattened in emission order.
pub open spec fn round_message(
    evals: Seq<Seq<(int, int)>>,
    cv: Seq<Seq<(Goldilocks64Ext, Seq<usize>)>>,
    degree: int,
) -> Seq<(int, int)> {
    Seq::new(
        (cv.len() * (degree + 1)) as nat,
        |k: int|
            message_sum(evals, cv, k / (degree + 1), k % (degree + 1), (evals[0].len() / 2) as nat),
    )
}

/// The prover side of the sumcheck as a function of the inputs and the
/// transcript state: per round the message is appended, the challenge drawn,
/// and every table folded; the result is the challenge point, the fully
/// folded tables and the final transcript state.
#[verifier::opaque]
pub open spec fn sumcheck_prove_spec(
    evals: Seq<Seq<(int, int)>>,
    cv: Seq<Seq<(Goldilocks64Ext, Seq<usize>)>>,
    degree: int,
    rounds: nat,
    ts: (Seq<u8>, int, Seq<u8>),
) -> (Seq<(int, int)>, Seq<Seq<(int, int)>>, (Seq<u8>, int, Seq<u8>))
    decreases rounds,
{
    if rounds == 0 {
        (Seq::<(int, int)>::empty(), evals, ts)
    } else {
        let ts1 = ts_append(ts, crate::ext_field::ser_views(round_message(evals, cv, degree)));
        let c = ts_challenge_value(ts1);
        let ts2 = ts_after_challenge(ts1);
        let folded = Seq::new(evals.len(), |n: int| fold_once(evals[n], c));
        let rest = sumcheck_prove_spec(folded, cv, degree, (rounds - 1) as nat, ts2);
        (seq![c] + rest.0, rest.1, rest.2)
    }
}

impl Sumcheck {
    /// One prover round: accumulate the message over all adjacent pairs,
    /// append it, draw the challenge and fold every table in half.
    #[verifier::spinoff_prover]
    #[verifier::rlimit(100)]
    fn prove_round(
        evals: &mut Vec<Vec<Goldilocks64Ext>>,
        degree: usize,
        transcript: &mut Transcript,
        comb: &Combinator,
        m: usize,
    ) -> (c: Goldilocks64Ext)
        requires
            old(evals)@.len() >= 1,
            forall|j: int|
                0 <= j < old(evals)@.len() ==> (#[trigger] old(evals)@[j])@.len() == m
                    && ext_vec_wf(old(evals)@[j]),
            m % 2 == 0,
            m >= 2,
            1 <= degree < 0x1000,
            comb.wf(old(evals)@.len() as int),
            old(transcript).wf(),
        ensures
            final(transcript).wf(),
            c.wf(),
            final(evals)@.len() == old(evals)@.len(),
            forall|j: int|
                0 <= j < old(evals)@.len() ==> (#[trigger] final(evals)@[j])@.len() == m / 2
                    && ext_vec_wf(final(evals)@[j]) && ext_vec_view(final(evals)@[j]) == fold_once(
                    ext_vec_view(old(evals)@[j]),
                    c@,
                ),
            ({
                let msg = round_message(evals_view(old(evals)@), comb_view(*comb), degree as int);
                let ts1 = ts_append(ts_of(*old(transcript)), crate::ext_field::ser_views(msg));
                &&& c@ == ts_challenge_value(ts1)
                &&& ts_of(*final(transcript)) == ts_after_challenge(ts1)
            }),
            old(transcript).proof.bytes@ == final(transcript).proof.bytes@.subrange(
                0,
                old(transcript).proof.bytes@.len() as int,
            ),
            old(transcript).proof.bytes@.len() <= final(transcript).proof.bytes@.len(),
            final(transcript).proof.idx == old(transcript).proof.idx,
    {
        let ghost vv = evals_view(evals@);
        let num_inputs = evals.len();
        let mm = comb.outputs.len();
        let dp1 = degree + 1;
        let ghost cv = comb_view(*comb);
        let ghost msg = round_message(vv, cv, degree as int);
        // one vector of degree + 1 running sums per combinator output
        let mut sums: Vec<Vec<Goldilocks64Ext>> = Vec::new();
        while sums.len() < mm
            invariant
                sums@.len() <= mm,
                dp1 == degree + 1,
                forall|j: int|
                    0 <= j < sums@.len() ==> (#[trigger] sums@[j])@.len() == dp1 && ext_vec_wf(
                        sums@[j],
                    ),
                forall|j: int, d: int|
                    0 <= j < sums@.len() && 0 <= d < dp1 ==> (#[trigger] sums@[j]@[d])@
                        == ext_zero(),
            decreases mm - sums@.len(),
        {
            let mut row: Vec<Goldilocks64Ext> = Vec::new();
            while row.len() < dp1
                invariant
                    row@.len() <= dp1,
                    ext_vec_wf(row),
                    forall|l: int| 0 <= l < row@.len() ==> (#[trigger] row@[l])@ == ext_zero(),
                decreases dp1 - row@.len(),
            {
                row.push(Goldilocks64Ext::zero());
            }
            sums.push(row);
        }
        let mut x: usize = 0;
        while x + 1 < m
            invariant
                x <= m,
                x % 2 == 0,
                m % 2 == 0,
                dp1 == degree + 1,
                1 <= degree < 0x1000,
                mm == comb.outputs@.len(),
                comb.wf(num_inputs as int),
                num_inputs >= 1,
                evals@ == old(evals)@,
                evals@.len() == num_inputs,
                vv == evals_view(evals@),
                forall|j: int|
                    0 <= j < num_inputs ==> (#[trigger] evals@[j])@.len() == m && ext_vec_wf(
                        evals@[j],
                    ),
                sums@.len() == mm,
                forall|j: int|
                    0 <= j < mm ==> (#[trigger] sums@[j])@.len() == dp1 && ext_vec_wf(sums@[j]),
                forall|j: int, d: int|
                    0 <= j < mm && 0 <= d < dp1 ==> (#[trigger] sums@[j]@[d])@ == message_sum(
                        vv,
                        cv,
                        j,
                        d,
                        (x / 2) as nat,
                    ),
            decreases m - x,
        {
            proof {
                assert(2 * (x as int / 2) == x as int);
            }
            // restrict every input to the edge (x, x+1) and extrapolate
            let mut extrap: Vec<Vec<Goldilocks64Ext>> = Vec::new();
            let mut j: usize = 0;
            while j < num_inputs
                invariant
                    j <= num_inputs,
                    x + 1 < m,
                    x % 2 == 0,
                    dp1 == degree + 1,
                    1 <= degree,
                    evals@ == old(evals)@,
                    evals@.len() == num_inputs,
                    vv == evals_view(evals@),
                    forall|l: int|
                        0 <= l < num_inputs ==> (#[trigger] evals@[l])@.len() == m && ext_vec_wf(
                            evals@[l],
                        ),
                    extrap@.len() == j,
                    forall|l: int|
                        0 <= l < j ==> (#[trigger] extrap@[l])@.len() == dp1 && ext_vec_wf(
                            extrap@[l],
                        ),
                    forall|l: int, d: int|
                        0 <= l < j && 0 <= d < dp1 ==> (#[trigger] extrap@[l]@[d])@
                            == edge_extrap(vv[l][x as int], vv[l][x as int + 1], d),
                decreases num_inputs - j,
            {
                let row = &evals[j];
                let v0 = row[x];
                let v1 = row[x + 1];
                let diff = v1.sub(v0);
                proof {
                    assert(v0@ == vv[j as int][x as int]);
                    assert(v1@ == vv[j as int][x as int + 1]);
                }
                let mut e: Vec<Goldilocks64Ext> = Vec::new();
                e.push(v0);
                e.push(v1);
                let mut k: usize = 1;
                while k < degree
                    invariant
                        1 <= k <= degree,
                        e@.len() == k + 1,
                        v0.wf(),
                        v1.wf(),
                        diff.wf(),
                        diff@ == ext_sub(v1@, v0@),
                        ext_vec_wf(e),
                        forall|d: int|
                            0 <= d <= k ==> (#[trigger] e@[d])@ == edge_extrap(v0@, v1@, d),
                    decreases degree - k,
                {
                    let last = e[k];
                    e.push(last.add(diff));
                    k += 1;
                }
                proof {
                    assert(forall|d: int|
                        0 <= d < dp1 ==> (#[trigger] e@[d])@ == edge_extrap(
                            vv[j as int][x as int],
                            vv[j as int][x as int + 1],
                            d,
                        ));
                }
                extrap.push(e);
                j += 1;
            }
            // combine at each of the degree + 1 evaluation points
            let mut d: usize = 0;
            while d < dp1
                invariant
                    d <= dp1,
                    x + 1 < m,
                    x % 2 == 0,
                    dp1 == degree + 1,
                    mm == comb.outputs@.len(),
                    comb.wf(num_inputs as int),
                    num_inputs >= 1,
                    vv.len() == num_inputs,
                    extrap@.len() == num_inputs,
                    forall|l: int|
                        0 <= l < num_inputs ==> (#[trigger] extrap@[l])@.len() == dp1
                            && ext_vec_wf(extrap@[l]),
                    forall|l: int, dd: int|
                        0 <= l < num_inputs && 0 <= dd < dp1 ==> (#[trigger] extrap@[l]@[dd])@
                            == edge_extrap(vv[l][x as int], vv[l][x as int + 1], dd),
                    sums@.len() == mm,
                    forall|l: int|
                        0 <= l < mm ==> (#[trigger] sums@[l])@.len() == dp1 && ext_vec_wf(
                            sums@[l],
                        ),
                    forall|jj: int, dd: int|
                        0 <= jj < mm && 0 <= dd < dp1 ==> (#[trigger] sums@[jj]@[dd])@
                            == message_sum(
                            vv,
                            cv,
                            jj,
                            dd,
                            if dd < d {
                                (x / 2 + 1) as nat
                            } else {
                                (x / 2) as nat
                            },
                        ),
                decreases dp1 - d,
            {
                let mut vals: Vec<Goldilocks64Ext> = Vec::new();
                let mut j: usize = 0;
                while j < num_inputs
                    invariant
                        j <= num_inputs,
                        d < dp1,
                        x % 2 == 0,
                        vv.len() == num_inputs,
                        vals@.len() == j,
                        ext_vec_wf(vals),
                        extrap@.len() == num_inputs,
                        forall|l: int|
                            0 <= l < num_inputs ==> (#[trigger] extrap@[l])@.len() == dp1
                                && ext_vec_wf(extrap@[l]),
                        forall|l: int, dd: int|
                            0 <= l < num_inputs && 0 <= dd < dp1 ==> (
                            #[trigger] extrap@[l]@[dd])@ == edge_extrap(
                                vv[l][x as int],
                                vv[l][x as int + 1],
                                dd,
                            ),
                        forall|l: int|
                            0 <= l < j ==> (#[trigger] vals@[l])@ == edge_extrap(
                                vv[l][x as int],
                                vv[l][x as int + 1],
                                d as int,
                            ),
                    decreases num_inputs - j,
                {
                    let erow = &extrap[j];
                    vals.push(erow[d]);
                    j += 1;
                }
                proof {
                    assert(2 * (x as int / 2) == x as int);
                    assert(ext_vec_view(vals) =~= pair_assignment(vv, x as int / 2, d as int));
                }
                let tmp = comb.apply(&vals);
                proof {
                    assert forall|l: int| 0 <= l < mm implies #[trigger] outputs_eval(
                        cv,
                        pair_assignment(vv, x as int / 2, d as int),
                        l,
                    ) == comb.output_eval(pair_assignment(vv, x as int / 2, d as int), l) by {
                        assert(cv[l] == Combinator::term_view(comb.outputs@[l]));
                    }
                }
                let mut j: usize = 0;
                while j < mm
                    invariant
                        j <= mm,
                        d < dp1,
                        x % 2 == 0,
                        dp1 == degree + 1,
                        tmp@.len() == mm,
                        vv.len() == num_inputs,
                        forall|l: int| 0 <= l < mm ==> (#[trigger] tmp@[l]).wf(),
                        forall|l: int|
                            0 <= l < mm ==> (#[trigger] tmp@[l])@ == outputs_eval(
                                cv,
                                pair_assignment(vv, x as int / 2, d as int),
                                l,
                            ),
                        sums@.len() == mm,
                        forall|l: int|
                            0 <= l < mm ==> (#[trigger] sums@[l])@.len() == dp1 && ext_vec_wf(
                                sums@[l],
                            ),
                        forall|jj: int, dd: int|
                            0 <= jj < mm && 0 <= dd < dp1 ==> (#[trigger] sums@[jj]@[dd])@
                                == message_sum(
                                vv,
                                cv,
                                jj,
                                dd,
                                if dd < d || (dd == d && jj < j) {
                                    (x / 2 + 1) as nat
                                } else {
                                    (x / 2) as nat
                                },
                            ),
                    decreases mm - j,
                {
                    let cur = sums[j][d];
                    let add_v = tmp[j];
                    let new_v = cur.add(add_v);
                    sums[j][d] = new_v;
                    j += 1;
                }
                d += 1;
            }
            x += 2;
        }
        proof {
            assert(x == m);
            assert(vv[0].len() == m);
            assert forall|jj: int, dd: int| 0 <= jj < mm && 0 <= dd < dp1 implies #[trigger] msg[
            jj * (degree + 1) + dd] == message_sum(vv, cv, jj, dd, (m / 2) as nat) by {
                let k = jj * (degree as int + 1) + dd;
                assert(0 <= k < mm * dp1) by (nonlinear_arith)
                    requires
                        k == jj * (degree as int + 1) + dd,
                        0 <= jj < mm,
                        0 <= dd < dp1,
                        dp1 == degree + 1,
                ;
                vstd::arithmetic::div_mod::lemma_fundamental_div_mod_converse(
                    k,
                    degree as int + 1,
                    jj,
                    dd,
                );
            }
        }
        // emit the round message
        let ghost ts_pre = ts_of(*transcript);
        let ghost bytes_pre = transcript.proof.bytes@;
        let mut j: usize = 0;
        while j < mm
            invariant
                j <= mm,
                dp1 == degree + 1,
                mm == comb.outputs@.len(),
                cv.len() == mm,
                vv.len() >= 1,
                msg == round_message(vv, cv, degree as int),
                msg.len() == mm * dp1,
                forall|l: int|
                    0 <= l < mm ==> (#[trigger] sums@[l])@.len() == dp1 && ext_vec_wf(sums@[l]),
                sums@.len() == mm,
                forall|jj: int, dd: int|
                    0 <= jj < mm && 0 <= dd < dp1 ==> (#[trigger] sums@[jj]@[dd])@ == message_sum(
                        vv,
                        cv,
                        jj,
                        dd,
                        (m / 2) as nat,
                    ),
                forall|jj: int, dd: int|
                    0 <= jj < mm && 0 <= dd < dp1 ==> (#[trigger] sums@[jj]@[dd])@ == msg[jj * (
                    degree + 1) + dd],
                transcript.wf(),
                transcript.hash_start_idx == old(transcript).hash_start_idx,
                transcript.digest@ == old(transcript).digest@,
                transcript.proof.bytes@ == bytes_pre + crate::ext_field::ser_views(
                    msg.subrange(0, j as int * (degree as int + 1)),
                ),
                old(transcript).proof.bytes@.len() <= transcript.proof.bytes@.len(),
                old(transcript).proof.bytes@ == transcript.proof.bytes@.subrange(
                    0,
                    old(transcript).proof.bytes@.len() as int,
                ),
                transcript.proof.idx == old(transcript).proof.idx,
            decreases mm - j,
        {
            let mut d: usize = 0;
            while d < dp1
                invariant
                    d <= dp1,
                    j < mm,
                    dp1 == degree + 1,
                    mm == comb.outputs@.len(),
                    cv.len() == mm,
                    vv.len() >= 1,
                    msg == round_message(vv, cv, degree as int),
                    msg.len() == mm * dp1,
                    forall|l: int|
                        0 <= l < mm ==> (#[trigger] sums@[l])@.len() == dp1 && ext_vec_wf(
                            sums@[l],
                        ),
                    sums@.len() == mm,
                    forall|jj: int, dd: int|
                        0 <= jj < mm && 0 <= dd < dp1 ==> (#[trigger] sums@[jj]@[dd])@ == msg[jj
                            * (degree + 1) + dd],
                    transcript.wf(),
                    transcript.hash_start_idx == old(transcript).hash_start_idx,
                    transcript.digest@ == old(transcript).digest@,
                    transcript.proof.bytes@ == bytes_pre + crate::ext_field::ser_views(
                        msg.subrange(0, j as int * (degree as int + 1) + d as int),
                    ),
                    old(transcript).proof.bytes@.len() <= transcript.proof.bytes@.len(),
                    old(transcript).proof.bytes@ == transcript.proof.bytes@.subrange(
                        0,
                        old(transcript).proof.bytes@.len() as int,
                    ),
                    transcript.proof.idx == old(transcript).proof.idx,
                decreases dp1 - d,
            {
                let ghost pre_bytes = transcript.proof.bytes@;
                let ghost kk: int = j as int * (degree as int + 1) + d as int;
                proof {
                    assert(0 <= kk && kk < mm * dp1) by (nonlinear_arith)
                        requires
                            kk == j as int * (degree as int + 1) + d as int,
                            0 <= j < mm,
                            0 <= d < dp1,
                            dp1 == degree + 1,
                    ;
                }
                let srow = &sums[j];
                transcript.append_f(srow[d]);
                proof {
                    lemma_prefix_extend(
                        old(transcript).proof.bytes@,
                        pre_bytes,
                        spec_ext_serialize(srow@[d as int]),
                    );
                    assert(crate::ext_field::ext_of_view(srow@[d as int]@) == srow@[d as int]);
                    assert(msg.subrange(0, kk + 1).drop_last() =~= msg.subrange(0, kk));
                    assert(msg.subrange(0, kk + 1).last() == msg[kk]);
                    assert(transcript.proof.bytes@ =~= bytes_pre + crate::ext_field::ser_views(
                        msg.subrange(0, kk + 1),
                    ));
                    assert(j as int * (degree as int + 1) + (d as int + 1) == kk + 1);
                }
                d += 1;
            }
            proof {
                assert((j as int + 1) * (degree as int + 1) == j as int * (degree as int + 1)
                    + (degree as int + 1)) by (nonlinear_arith);
            }
            j += 1;
        }
        proof {
            assert(msg.subrange(0, mm as int * (degree as int + 1)) =~= msg);
            assert(transcript.proof.bytes@ == bytes_pre + crate::ext_field::ser_views(msg));
            assert(ts_of(*transcript) == ts_append(ts_pre, crate::ext_field::ser_views(msg)));
        }
        let challenge = transcript.challenge_f();
        let half = m / 2;
        let mut j: usize = 0;
        while j < num_inputs
            invariant
                j <= num_inputs,
                m % 2 == 0,
                half == m / 2,
                challenge.wf(),
                evals@.len() == num_inputs,
                forall|l: int|
                    j <= l < num_inputs ==> (#[trigger] evals@[l])@.len() == m && ext_vec_wf(
                        evals@[l],
                    ) && evals@[l] == old(evals)@[l],
                forall|l: int|
                    0 <= l < j ==> (#[trigger] evals@[l])@.len() == half && ext_vec_wf(
                        evals@[l],
                    ) && ext_vec_view(evals@[l]) == fold_once(
                        ext_vec_view(old(evals)@[l]),
                        challenge@,
                    ),
            decreases num_inputs - j,
        {
            let col = &mut evals[j];
            Self::fold_next_domain(col, half, challenge);
            j += 1;
        }
        challenge
    }

    /// Runs the prover over `N` evaluation tables in lock step: per round it
    /// extrapolates each adjacent pair to `degree + 1` integer points,
    /// accumulates the combined values into the round message, appends the
    /// message to the transcript, draws the round challenge and folds every
    /// table in half against it.  The emitted messages, the drawn point and
    /// the final transcript state are pinned to `sumcheck_prove_spec`, and
    /// the returned final values are exactly the original tables evaluated,
    /// as multilinear polynomials, at the returned point.
    pub fn prove(
        evals: Vec<Vec<Goldilocks64Ext>>,
        degree: usize,
        transcript: &mut Transcript,
        comb: &Combinator,
    ) -> (r: (Vec<Goldilocks64Ext>, Vec<Goldilocks64Ext>))
        requires
            evals@.len() >= 1,
            forall|j: int|
                0 <= j < evals@.len() ==> (#[trigger] evals@[j])@.len() == evals@[0]@.len()
                    && ext_vec_wf(evals@[j]),
            is_power_of_two(evals@[0]@.len() as nat),
            evals@[0]@.len() >= 1,
            1 <= degree < 0x1000,
            comb.wf(evals@.len() as int),
            old(transcript).wf(),
        ensures
            final(transcript).wf(),
            old(transcript).proof.bytes@ == final(transcript).proof.bytes@.subrange(
                0,
                old(transcript).proof.bytes@.len() as int,
            ),
            old(transcript).proof.bytes@.len() <= final(transcript).proof.bytes@.len(),
            final(transcript).proof.idx == old(transcript).proof.idx,
            r.0@.len() == log2(evals@[0]@.len() as nat),
            ext_vec_wf(r.0),
            r.1@.len() == evals@.len(),
            forall|j: int|
                0 <= j < evals@.len() ==> (#[trigger] r.1@[j])@ == mle_eval(
                    ext_vec_view(evals@[j]),
                    ext_vec_view(r.0),
                ) && r.1@[j].wf(),
            ({
                let full = sumcheck_prove_spec(
                    evals_view(evals@),
                    comb_view(*comb),
                    degree as int,
                    log2(evals@[0]@.len() as nat),
                    ts_of(*old(transcript)),
                );
                &&& ext_vec_view(r.0) == full.0
                &&& ts_of(*final(transcript)) == full.2
                &&& forall|j: int|
                    0 <= j < evals@.len() ==> (#[trigger] r.1@[j])@ == full.1[j][0]
            }),
    {
        let ghost orig = evals_view(evals@);
        let ghost ts0 = ts_of(*transcript);
        let num_inputs = evals.len();
        let size0 = evals[0].len();
        let var_num = log2_exact(size0);
        let mut evals = evals;
        let mut new_point: Vec<Goldilocks64Ext> = Vec::new();
        let mut cur_m: usize = size0;
        let mut i: usize = 0;
        proof {
            reveal(sumcheck_prove_spec);
            assert(ext_vec_view(new_point) + sumcheck_prove_spec(
                orig,
                comb_view(*comb),
                degree as int,
                var_num as nat,
                ts0,
            ).0 =~= sumcheck_prove_spec(orig, comb_view(*comb), degree as int, var_num as nat, ts0).0);
        }
        while i < var_num
            invariant
                i <= var_num,
                evals@.len() == num_inputs,
                num_inputs >= 1,
                1 <= degree < 0x1000,
                comb.wf(num_inputs as int),
                cur_m == vstd::arithmetic::power2::pow2((var_num - i) as nat),
                cur_m >= 1,
                forall|j: int|
                    0 <= j < num_inputs ==> (#[trigger] evals@[j])@.len() == cur_m && ext_vec_wf(
                        evals@[j],
                    ),
                new_point@.len() == i,
                ext_vec_wf(new_point),
                orig.len() == num_inputs,
                forall|j: int|
                    0 <= j < num_inputs ==> ext_vec_view(#[trigger] evals@[j]) == fold_many(
                        orig[j],
                        ext_vec_view(new_point),
                    ),
                transcript.wf(),
                old(transcript).proof.bytes@.len() <= transcript.proof.bytes@.len(),
                old(transcript).proof.bytes@ == transcript.proof.bytes@.subrange(
                    0,
                    old(transcript).proof.bytes@.len() as int,
                ),
                transcript.proof.idx == old(transcript).proof.idx,
                ({
                    let full = sumcheck_prove_spec(
                        orig,
                        comb_view(*comb),
                        degree as int,
                        var_num as nat,
                        ts0,
                    );
                    let rest = sumcheck_prove_spec(
                        evals_view(evals@),
                        comb_view(*comb),
                        degree as int,
                        (var_num - i) as nat,
                        ts_of(*transcript),
                    );
                    &&& full.0 == ext_vec_view(new_point) + rest.0
                    &&& full.1 == rest.1
                    &&& full.2 == rest.2
                }),
            decreases var_num - i,
        {
            proof {
                vstd::arithmetic::power2::lemma_pow2_unfold((var_num - i) as nat);
                vstd::arithmetic::power2::lemma_pow2_pos((var_num - i - 1) as nat);
            }
            let m = cur_m;
            let ghost views_pre = evals_view(evals@);
            let ghost pts = ext_vec_view(new_point);
            let ghost bcall = transcript.proof.bytes@;
            let challenge = Self::prove_round(&mut evals, degree, transcript, comb, m);
            proof {
                lemma_prefix_trans(
                    old(transcript).proof.bytes@,
                    bcall,
                    transcript.proof.bytes@,
                );
            }
            new_point.push(challenge);
            cur_m = m / 2;
            i += 1;
            proof {
                reveal(sumcheck_prove_spec);
                assert(ext_vec_view(new_point) =~= pts.push(challenge@));
                assert forall|l: int| 0 <= l < num_inputs implies ext_vec_view(
                    #[trigger] evals@[l],
                ) == fold_many(orig[l], ext_vec_view(new_point)) by {
                    lemma_fold_many_snoc(orig[l], pts, challenge@);
                }
                let folded = Seq::new(
                    views_pre.len(),
                    |n: int| fold_once(views_pre[n], challenge@),
                );
                assert(evals_view(evals@) =~= folded);
                let rest = sumcheck_prove_spec(
                    evals_view(evals@),
                    comb_view(*comb),
                    degree as int,
                    (var_num - i) as nat,
                    ts_of(*transcript),
                );
                assert(pts + (seq![challenge@] + rest.0) =~= pts.push(challenge@) + rest.0);
            }
        }
        proof {
            reveal(sumcheck_prove_spec);
            vstd::arithmetic::power2::lemma2_to64();
            let rest = sumcheck_prove_spec(
                evals_view(evals@),
                comb_view(*comb),
                degree as int,
                0,
                ts_of(*transcript),
            );
            assert(ext_vec_view(new_point) + rest.0 =~= ext_vec_view(new_point));
        }
        let mut finals: Vec<Goldilocks64Ext> = Vec::new();
        let mut j: usize = 0;
        while j < num_inputs
            invariant
                j <= num_inputs,
                cur_m == 1,
                evals@.len() == num_inputs,
                orig.len() == num_inputs,
                forall|l: int|
                    0 <= l < num_inputs ==> (#[trigger] evals@[l])@.len() == 1 && ext_vec_wf(
                        evals@[l],
                    ) && ext_vec_view(evals@[l]) == fold_many(orig[l], ext_vec_view(new_point)),
                finals@.len() == j,
                forall|l: int|
                    0 <= l < j ==> (#[trigger] finals@[l])@ == mle_eval(
                        orig[l],
                        ext_vec_view(new_point),
                    ) && finals@[l].wf() && finals@[l]@ == ext_vec_view(evals@[l])[0],
            decreases num_inputs - j,
        {
            let row = &evals[j];
            let f = row[0];
            proof {
                lemma_mle_eval_is_fold_many(orig[j as int], ext_vec_view(new_point));
                assert(f@ == ext_vec_view(evals@[j as int])[0]);
            }
            finals.push(f);
            j += 1;
        }
        (new_point, finals)
    }
}

} // verus!

verus! {

/// A sequential read splits at any midpoint.
pub proof fn lemma_read_elems_split(bytes: Seq<u8>, idx: int, a: nat, b: nat)
    ensures
        read_elems(bytes, idx, a + b) == match read_elems(bytes, idx, a) {
            None => None::<(Seq<Goldilocks64Ext>, int)>,
            Some((s, i2)) => match read_elems(bytes, i2, b) {
                None => None::<(Seq<Goldilocks64Ext>, int)>,
                Some((s2, i3)) => Some((s + s2, i3)),
            },
        },
    decreases a,
{
    if a == 0 {
        match read_elems(bytes, idx, b) {
            None => {
            },
            Some((s2, i3)) => {
                assert(Seq::<Goldilocks64Ext>::empty() + s2 =~= s2);
            },
        }
    } else {
        match spec_ext_deserialize(bytes, idx) {
            None => {
                assert(read_elems(bytes, idx, a + b) is None);
                assert(read_elems(bytes, idx, a) is None);
            },
            Some(f) => {
                lemma_read_elems_split(bytes, idx + 16, (a - 1) as nat, b);
                assert(read_elems(bytes, idx, a + b) == (match read_elems(
                    bytes,
                    idx + 16,
                    (a + b - 1) as nat,
                ) {
                    None => None::<(Seq<Goldilocks64Ext>, int)>,
                    Some((s, i2)) => Some((seq![f] + s, i2)),
                }));
                match read_elems(bytes, idx + 16, (a - 1) as nat) {
                    None => {
                    },
                    Some((s, i2)) => {
                        match read_elems(bytes, i2, b) {
                            None => {
                            },
                            Some((s2, i3)) => {
                                assert(seq![f] + (s + s2) =~= (seq![f] + s) + s2);
                            },
                        }
                    },
                }
            },
        }
    }
}

impl Sumcheck {
    /// Replays the verifier side of the sumcheck: per round it reads the
    /// claimed evaluations from the proof, checks that the first two sum to
    /// the carried claim, absorbs them, draws the same challenge the prover
    /// drew and extrapolates the claim to that challenge.  The result is
    /// `Some` exactly when the specification-level mirror accepts, and every
    /// returned value equals the mirror's.
    pub fn verify(
        y: Vec<Goldilocks64Ext>,
        degree: usize,
        var_num: usize,
        transcript: &mut Transcript,
        proof: &mut Proof,
    ) -> (r: Option<(Vec<Goldilocks64Ext>, Vec<Goldilocks64Ext>)>)
        requires
            1 <= degree < 0x1000,
            1 <= y@.len() < 0x1000,
            ext_vec_wf(y),
            old(transcript).wf(),
        ensures
            final(transcript).wf(),
            final(proof).bytes@ == old(proof).bytes@,
            match sumcheck_verify_spec(
                ext_vec_view(y),
                degree as int,
                var_num as nat,
                ts_of(*old(transcript)),
                old(proof).bytes@,
                old(proof).idx as int,
            ) {
                None => r is None,
                Some((pt, yf, tsf, idxf)) => {
                    &&& r is Some
                    &&& ext_vec_view((r->0).0) == pt
                    &&& ext_vec_view((r->0).1) == yf
                    &&& ts_of(*final(transcript)) == tsf
                    &&& final(proof).idx == idxf
                    &&& ext_vec_wf((r->0).0)
                    &&& ext_vec_wf((r->0).1)
                    &&& (r->0).0@.len() == var_num
                    &&& (r->0).1@.len() == y@.len()
                },
            },
    {
        proof {
            reveal(sumcheck_verify_spec);
        }
        let ghost y0v = ext_vec_view(y);
        let ghost ts0 = ts_of(*transcript);
        let ghost pb = proof.bytes@;
        let ghost idx0 = proof.idx as int;
        let base = match Self::init_base(degree) {
            Some(b) => b,
            None => {
                return None;
            },
        };
        let ghost basev = ext_vec_view(base);
        let mm = y.len();
        let dp1 = degree + 1;
        proof {
            assert(mm * dp1 <= 0x1000000) by (nonlinear_arith)
                requires
                    mm < 0x1000,
                    dp1 <= 0x1000,
            ;
        }
        let total = mm * dp1;
        let mut ycur = y;
        let mut point: Vec<Goldilocks64Ext> = Vec::new();
        let mut i: usize = 0;
        while i < var_num
            invariant
                i <= var_num,
                1 <= degree < 0x1000,
                dp1 == degree + 1,
                1 <= mm < 0x1000,
                total == mm * dp1,
                total <= 0x1000000,
                base@.len() == degree + 1,
                ext_vec_wf(base),
                basev == ext_vec_view(base),
                bary_base(degree as int) == Some(basev),
                ycur@.len() == mm,
                ext_vec_wf(ycur),
                point@.len() == i,
                ext_vec_wf(point),
                transcript.wf(),
                proof.bytes@ == pb,
                sumcheck_rounds_spec(y0v, degree as int, basev, var_num as nat, ts0, pb, idx0)
                    == (match sumcheck_rounds_spec(
                    ext_vec_view(ycur),
                    degree as int,
                    basev,
                    (var_num - i) as nat,
                    ts_of(*transcript),
                    pb,
                    proof.idx as int,
                ) {
                    None => None::<(Seq<(int, int)>, Seq<(int, int)>, (Seq<u8>, int, Seq<u8>), int)>,
                    Some((pt, yf, tsf, idxf)) => Some((ext_vec_view(point) + pt, yf, tsf, idxf)),
                }),
            decreases var_num - i,
        {
            let ghost ycur_pre = ext_vec_view(ycur);
            let ghost ts_pre = ts_of(*transcript);
            let ghost idx_pre = proof.idx as int;
            // read the whole round message
            let mut flat: Vec<Goldilocks64Ext> = Vec::new();
            let mut k: usize = 0;
            while k < total
                invariant
                    k <= total,
                    flat@.len() == k,
                    ext_vec_wf(flat),
                    proof.bytes@ == pb,
                    read_elems(pb, idx_pre, k as nat) == Some((flat@, proof.idx as int)),
                decreases total - k,
            {
                let ghost flat_pre = flat@;
                let ghost idx_k = proof.idx as int;
                let x = match proof.get_next_and_step() {
                    Some(x) => x,
                    None => {
                        proof {
                            lemma_read_elems_split(pb, idx_pre, k as nat, (total - k) as nat);
                            assert(read_elems(pb, idx_k, (total - k) as nat) is None);
                            assert(read_elems(pb, idx_pre, total as nat) is None);
                            assert(sumcheck_round_spec(
                                ycur_pre,
                                degree as int,
                                basev,
                                ts_pre,
                                pb,
                                idx_pre,
                            ) is None);
                        }
                        return None;
                    },
                };
                flat.push(x);
                k += 1;
                proof {
                    lemma_read_elems_snoc(pb, idx_pre, (k - 1) as nat);
                    assert(flat@ =~= flat_pre.push(x));
                }
            }
            // check consistency with the carried claim
            let mut j: usize = 0;
            while j < mm
                invariant
                    j <= mm,
                    dp1 == degree + 1,
                    1 <= mm < 0x1000,
                    total == mm * dp1,
                    flat@.len() == total,
                    ext_vec_wf(flat),
                    ycur@.len() == mm,
                    forall|l: int|
                        0 <= l < j ==> ext_add(
                            #[trigger] flat@[l * (degree + 1)]@,
                            flat@[l * (degree + 1) + 1]@,
                        ) == ycur_pre[l],
                    ycur_pre == ext_vec_view(ycur),
                decreases mm - j,
            {
                proof {
                    assert((j + 1) * dp1 <= total && j * dp1 + 1 < (j + 1) * dp1) by (
                    nonlinear_arith)
                        requires
                            j < mm,
                            total == mm * dp1,
                            dp1 >= 2,
                    ;
                }
                let s0 = flat[j * dp1];
                let s1 = flat[j * dp1 + 1];
                let claim = s0.add(s1);
                if !(claim == ycur[j]) {
                    proof {
                        assert(!(forall|l: int|
                            0 <= l < mm ==> ext_add(
                                #[trigger] flat@[l * (degree + 1)]@,
                                flat@[l * (degree + 1) + 1]@,
                            ) == ycur_pre[l]));
                        assert(read_elems(pb, idx_pre, (mm * (degree + 1)) as nat) == Some(
                            (flat@, proof.idx as int),
                        ));
                        assert(sumcheck_round_spec(
                            ycur_pre,
                            degree as int,
                            basev,
                            ts_pre,
                            pb,
                            idx_pre,
                        ) is None);
                    }
                    return None;
                }
                proof {
                    assert(claim@ == ext_add(flat@[j * dp1]@, flat@[j * dp1 + 1]@));
                    assert(ycur@[j as int]@ == ycur_pre[j as int]);
                }
                j += 1;
            }
            // absorb the round message into the transcript
            let mut k: usize = 0;
            while k < total
                invariant
                    k <= total,
                    flat@.len() == total,
                    ext_vec_wf(flat),
                    transcript.wf(),
                    proof.bytes@ == pb,
                    transcript.proof.bytes@ == ts_pre.0 + spec_as_bytes(flat@.subrange(0, k as int)),
                    transcript.hash_start_idx as int == ts_pre.1,
                    transcript.digest@ == ts_pre.2,
                decreases total - k,
            {
                transcript.append_f(flat[k]);
                k += 1;
                proof {
                    assert(flat@.subrange(0, k as int).drop_last() =~= flat@.subrange(
                        0,
                        k - 1,
                    ));
                    assert(flat@.subrange(0, k as int).last() == flat@[k - 1]);
                    assert(transcript.proof.bytes@ =~= ts_pre.0 + spec_as_bytes(
                        flat@.subrange(0, k as int),
                    ));
                }
            }
            proof {
                assert(flat@.subrange(0, total as int) =~= flat@);
            }
            let c = transcript.challenge_f();
            let ghost ts1 = ts_append(ts_pre, spec_as_bytes(flat@));
            proof {
                assert(ts_of(*transcript) == ts_after_challenge(ts1));
                assert(c@ == ts_challenge_value(ts1));
            }
            // extrapolate the claim to the challenge
            let mut ynew: Vec<Goldilocks64Ext> = Vec::new();
            let mut j: usize = 0;
            while j < mm
                invariant
                    j <= mm,
                    dp1 == degree + 1,
                    1 <= mm < 0x1000,
                    total == mm * dp1,
                    flat@.len() == total,
                    ext_vec_wf(flat),
                    base@.len() == degree + 1,
                    ext_vec_wf(base),
                    basev == ext_vec_view(base),
                    c.wf(),
                    ynew@.len() == j,
                    forall|l: int|
                        0 <= l < j ==> (#[trigger] ynew@[l])@ == lagrange_eval(
                            basev,
                            flat@.subrange(l * (degree + 1), (l + 1) * (degree + 1)).map_values(
                                |e: Goldilocks64Ext| e@,
                            ),
                            c@,
                        ) && ynew@[l].wf(),
                decreases mm - j,
            {
                proof {
                    assert((j + 1) * dp1 <= total && j * dp1 + dp1 == (j + 1) * dp1) by (
                    nonlinear_arith)
                        requires
                            j < mm,
                            total == mm * dp1,
                            dp1 >= 2,
                    ;
                }
                let mut sub: Vec<Goldilocks64Ext> = Vec::new();
                let mut d: usize = 0;
                while d < dp1
                    invariant
                        d <= dp1,
                        j * dp1 + dp1 <= total,
                        flat@.len() == total,
                        ext_vec_wf(flat),
                        sub@.len() == d,
                        ext_vec_wf(sub),
                        forall|l: int| 0 <= l < d ==> sub@[l] == flat@[j * dp1 + l],
                    decreases dp1 - d,
                {
                    sub.push(flat[j * dp1 + d]);
                    d += 1;
                }
                proof {
                    assert(sub@ =~= flat@.subrange(
                        j as int * dp1 as int,
                        (j as int + 1) * dp1 as int,
                    ));
                }
                let yj = Self::uni_extrapolate(&base, &sub, c);
                proof {
                    assert(ext_vec_view(sub) =~= flat@.subrange(
                        j as int * (degree as int + 1),
                        (j as int + 1) * (degree as int + 1),
                    ).map_values(|e: Goldilocks64Ext| e@));
                }
                ynew.push(yj);
                j += 1;
            }
            point.push(c);
            ycur = ynew;
            i += 1;
            proof {
                let round = sumcheck_round_spec(ycur_pre, degree as int, basev, ts_pre, pb, idx_pre);
                assert(read_elems(pb, idx_pre, (mm * (degree + 1)) as nat) == Some(
                    (flat@, proof.idx as int),
                ));
                let y2 = Seq::new(
                    mm as nat,
                    |l: int|
                        lagrange_eval(
                            basev,
                            flat@.subrange(l * (degree + 1), (l + 1) * (degree + 1)).map_values(
                                |e: Goldilocks64Ext| e@,
                            ),
                            c@,
                        ),
                );
                assert(ext_vec_view(ycur) =~= y2);
                assert(round == Some((y2, c@, ts_of(*transcript), proof.idx as int)));
                assert(ext_vec_view(point) =~= ext_vec_view(point).subrange(0, i - 1).push(c@));
                let pt_pre = ext_vec_view(point).subrange(0, i - 1);
                match sumcheck_rounds_spec(
                    ext_vec_view(ycur),
                    degree as int,
                    basev,
                    (var_num - i) as nat,
                    ts_of(*transcript),
                    pb,
                    proof.idx as int,
                ) {
                    None => {
                    },
                    Some((pt, yf, tsf, idxf)) => {
                        assert(pt_pre + (seq![c@] + pt) =~= (pt_pre.push(c@)) + pt);
                    },
                }
            }
        }
        proof {
            assert(ext_vec_view(point) + Seq::<(int, int)>::empty() =~= ext_vec_view(point));
        }
        Some((point, ycur))
    }
}

} // verus!

verus! {

/// `log2` inverts `pow2`.
pub proof fn lemma_log2_pow2(k: nat)
    ensures
        log2(vstd::arithmetic::power2::pow2(k)) == k,
        is_power_of_two(vstd::arithmetic::power2::pow2(k)),
    decreases k,
{
    vstd::arithmetic::power2::lemma_pow2_pos(k);
    if k == 0 {
        vstd::arithmetic::power2::lemma2_to64();
    } else {
        lemma_log2_pow2((k - 1) as nat);
        vstd::arithmetic::power2::lemma_pow2_unfold(k);
        vstd::arithmetic::power2::lemma_pow2_pos((k - 1) as nat);
        assert(vstd::arithmetic::power2::pow2(k) / 2 == vstd::arithmetic::power2::pow2(
            (k - 1) as nat,
        ));
    }
}

} // verus!

verus! {

/// Reads `n` consecutive field elements from the proof stream; `None`
/// exactly when the specification-level read fails.
pub fn read_field_elems(proof: &mut Proof, n: usize) -> (r: Option<Vec<Goldilocks64Ext>>)
    ensures
        final(proof).bytes@ == old(proof).bytes@,
        match read_elems(old(proof).bytes@, old(proof).idx as int, n as nat) {
            None => r is None,
            Some((s, i2)) => {
                &&& r is Some
                &&& r->0@ == s
                &&& r->0@.len() == n
                &&& ext_vec_wf(r->0)
                &&& final(proof).idx == i2
            },
        },
{
    let ghost pb = proof.bytes@;
    let ghost idx0 = proof.idx as int;
    let mut flat: Vec<Goldilocks64Ext> = Vec::new();
    let mut k: usize = 0;
    while k < n
        invariant
            k <= n,
            flat@.len() == k,
            ext_vec_wf(flat),
            proof.bytes@ == pb,
            read_elems(pb, idx0, k as nat) == Some((flat@, proof.idx as int)),
        decreases n - k,
    {
        let ghost flat_pre = flat@;
        let ghost idx_k = proof.idx as int;
        let x = match proof.get_next_and_step() {
            Some(x) => x,
            None => {
                proof {
                    lemma_read_elems_split(pb, idx0, k as nat, (n - k) as nat);
                    assert(read_elems(pb, idx_k, (n - k) as nat) is None);
                    assert(read_elems(pb, idx0, n as nat) is None);
                }
                return None;
            },
        };
        flat.push(x);
        k += 1;
        proof {
            lemma_read_elems_snoc(pb, idx0, (k - 1) as nat);
            assert(flat@ =~= flat_pre.push(x));
        }
    }
    Some(flat)
}

} // verus!

verus! {

/// Appends a sequence of field elements to the transcript log.
pub fn append_field_elems(transcript: &mut Transcript, v: &Vec<Goldilocks64Ext>)
    requires
        old(transcript).wf(),
    ensures
        final(transcript).wf(),
        final(transcript).proof.bytes@ == old(transcript).proof.bytes@ + spec_as_bytes(v@),
        final(transcript).hash_start_idx == old(transcript).hash_start_idx,
        final(transcript).digest@ == old(transcript).digest@,
        final(transcript).proof.idx == old(transcript).proof.idx,
{
    let ghost pre = transcript.proof.bytes@;
    let mut k: usize = 0;
    while k < v.len()
        invariant
            k <= v@.len(),
            transcript.wf(),
            transcript.proof.bytes@ == pre + spec_as_bytes(v@.subrange(0, k as int)),
            transcript.hash_start_idx == old(transcript).hash_start_idx,
            transcript.digest@ == old(transcript).digest@,
            transcript.proof.idx == old(transcript).proof.idx,
        decreases v@.len() - k,
    {
        transcript.append_f(v[k]);
        k += 1;
        proof {
            assert(v@.subrange(0, k as int).drop_last() =~= v@.subrange(0, k - 1));
            assert(v@.subrange(0, k as int).last() == v@[k - 1]);
            assert(transcript.proof.bytes@ =~= pre + spec_as_bytes(v@.subrange(0, k as int)));
        }
    }
    proof {
        assert(v@.subrange(0, v@.len() as int) =~= v@);
    }
}

} // verus!

verus! {

/// The values of all inputs at one hypercube position.
pub open spec fn point_assignment(evals: Seq<Seq<(int, int)>>, x: int) -> Seq<(int, int)> {
    Seq::new(evals.len(), |n: int| evals[n][x])
}

/// The sum of combinator output `j` over the first `n` hypercube positions.
pub open spec fn hypercube_sum(
    evals: Seq<Seq<(int, int)>>,
    cv: Seq<Seq<(Goldilocks64Ext, Seq<usize>)>>,
    j: int,
    n: nat,
) -> (int, int)
    decreases n,
{
    if n == 0 {
        ext_zero()
    } else {
        ext_add(
            hypercube_sum(evals, cv, j, (n - 1) as nat),
            outputs_eval(cv, point_assignment(evals, (n - 1) as int), j),
        )
    }
}

/// The two leading message entries accumulate the even and odd halves of
/// the hypercube sum.
proof fn lemma_message_sum_halves(
    evals: Seq<Seq<(int, int)>>,
    cv: Seq<Seq<(Goldilocks64Ext, Seq<usize>)>>,
    j: int,
    k: nat,
)
    ensures
        ext_add(message_sum(evals, cv, j, 0, k), message_sum(evals, cv, j, 1, k))
            == hypercube_sum(evals, cv, j, 2 * k),
    decreases k,
{
    if k == 0 {
    } else {
        lemma_message_sum_halves(evals, cv, j, (k - 1) as nat);
        let am = message_sum(evals, cv, j, 0, (k - 1) as nat);
        let bm = message_sum(evals, cv, j, 1, (k - 1) as nat);
        let p = (k - 1) as int;
        assert(pair_assignment(evals, p, 0) =~= point_assignment(evals, 2 * p));
        assert(pair_assignment(evals, p, 1) =~= point_assignment(evals, 2 * p + 1));
        let a = outputs_eval(cv, point_assignment(evals, 2 * p), j);
        let b = outputs_eval(cv, point_assignment(evals, 2 * p + 1), j);
        assert(message_sum(evals, cv, j, 0, k) == ext_add(am, a));
        assert(message_sum(evals, cv, j, 1, k) == ext_add(bm, b));
        assert(2 * k == 2 * p + 2 && 2 * k - 1 == 2 * p + 1);
        assert(hypercube_sum(evals, cv, j, 2 * k) == ext_add(
            hypercube_sum(evals, cv, j, (2 * k - 1) as nat),
            outputs_eval(cv, point_assignment(evals, 2 * k - 1), j),
        ));
        assert(hypercube_sum(evals, cv, j, (2 * k - 1) as nat) == ext_add(
            hypercube_sum(evals, cv, j, (2 * p) as nat),
            outputs_eval(cv, point_assignment(evals, 2 * p), j),
        ));
        assert(hypercube_sum(evals, cv, j, 2 * k) == ext_add(
            ext_add(hypercube_sum(evals, cv, j, (2 * p) as nat), a),
            b,
        ));
        assert(hypercube_sum(evals, cv, j, (2 * p) as nat) == ext_add(am, bm));
        // shuffle (am + a) + (bm + b) into ((am + bm) + a) + b
        crate::ext_field::lemma_ext_add_assoc(am, a, ext_add(bm, b));
        assert(ext_add(ext_add(am, a), ext_add(bm, b)) == ext_add(am, ext_add(a, ext_add(bm, b))));
        crate::ext_field::lemma_ext_add_assoc(a, bm, b);
        assert(ext_add(a, ext_add(bm, b)) == ext_add(ext_add(a, bm), b));
        crate::ext_field::lemma_ext_add_comm(a, bm);
        crate::ext_field::lemma_ext_add_assoc(bm, a, b);
        assert(ext_add(ext_add(a, bm), b) == ext_add(bm, ext_add(a, b)));
        crate::ext_field::lemma_ext_add_assoc(am, bm, ext_add(a, b));
        assert(ext_add(am, ext_add(bm, ext_add(a, b))) == ext_add(ext_add(am, bm), ext_add(a, b)));
        crate::ext_field::lemma_ext_add_assoc(ext_add(am, bm), a, b);
        assert(ext_add(ext_add(am, bm), ext_add(a, b)) == ext_add(ext_add(ext_add(am, bm), a), b));
    }
}

/// Round-zero consistency of the emitted record: for every output slot, the
/// first two entries of the round message sum to the full hypercube total of
/// that output — exactly the claim the verifier checks against.
pub proof fn lemma_round_message_total(
    evals: Seq<Seq<(int, int)>>,
    cv: Seq<Seq<(Goldilocks64Ext, Seq<usize>)>>,
    degree: int,
    j: int,
)
    requires
        evals.len() >= 1,
        evals[0].len() % 2 == 0,
        degree >= 1,
        0 <= j < cv.len(),
    ensures
        ext_add(
            round_message(evals, cv, degree)[j * (degree + 1)],
            round_message(evals, cv, degree)[j * (degree + 1) + 1],
        ) == hypercube_sum(evals, cv, j, evals[0].len()),
{
    let dp1 = degree + 1;
    let k0 = j * dp1;
    assert(0 <= k0 && k0 + 1 < cv.len() * dp1) by (nonlinear_arith)
        requires
            k0 == j * dp1,
            0 <= j < cv.len(),
            dp1 >= 2,
    ;
    vstd::arithmetic::div_mod::lemma_fundamental_div_mod_converse(k0, dp1, j, 0);
    vstd::arithmetic::div_mod::lemma_fundamental_div_mod_converse(k0 + 1, dp1, j, 1);
    lemma_message_sum_halves(evals, cv, j, (evals[0].len() / 2) as nat);
    assert(2 * (evals[0].len() / 2) == evals[0].len());
}

} // verus!
