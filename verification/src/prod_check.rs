//! The grand-product argument: proves that the product of all entries of a
//! length-`2^k` vector equals a claimed value, via a log-depth tower of
//! pairwise halvings with one degree-3 sumcheck per level.
//!
//! The verifier is pinned to an exact specification-level mirror, so its
//! acceptance and every returned value is a deterministic function of the
//! proof bytes and the transcript state.

use crate::ext_field::ext_add;
use crate::ext_field::ext_mul;
use crate::ext_field::ext_sub;
use crate::ext_field::spec_as_bytes;
use crate::ext_field::spec_ext_serialize;
use crate::ext_field::ext_prod;
use crate::ext_field::lemma_ext_one_identity;
use crate::ext_field::lemma_ext_prod_concat;
use crate::ext_field::ser_views;
use crate::ext_field::Goldilocks64Ext;
use crate::field::Goldilocks64;
use crate::fiat_shamir::Proof;
use crate::fiat_shamir::Transcript;
use crate::poly::eq_eval;
use crate::poly::eq_table;
use crate::poly::ext_vec_view;
use crate::poly::ext_vec_wf;
use crate::poly::MultiLinearPoly;
use crate::sumcheck::is_power_of_two;
use crate::sumcheck::lemma_log2_pow2;
use crate::sumcheck::lemma_prefix_extend;
use crate::sumcheck::log2;
use crate::sumcheck::log2_exact;
use crate::sumcheck::read_elems;
use crate::sumcheck::sumcheck_verify_spec;
use crate::sumcheck::ts_after_challenge;
use crate::sumcheck::ts_append;
use crate::sumcheck::ts_challenge_value;
use crate::sumcheck::ts_of;
use crate::sumcheck::comb_view;
use crate::sumcheck::sumcheck_prove_spec;
use crate::sumcheck::Combinator;
use crate::sumcheck::Sumcheck;
use vstd::prelude::*;

verus! {

/// The grand-product check.
pub struct ProdCheck;

/// The verifier's rounds from level `i` upward: each level runs an
/// `i`-variable degree-3 sumcheck, reads the two half-products, checks them
/// against the reduced claim through the equality polynomial, and folds the
/// evaluation point one level deeper.
pub open spec fn prod_verify_rounds(
    i: nat,
    var_num: nat,
    point: Seq<(int, int)>,
    y: (int, int),
    ts: (Seq<u8>, int, Seq<u8>),
    pbytes: Seq<u8>,
    idx: int,
) -> Option<(Seq<(int, int)>, (int, int), (Seq<u8>, int, Seq<u8>), int)>
    decreases var_num - i,
{
    if i >= var_num {
        Some((point, y, ts, idx))
    } else {
        match sumcheck_verify_spec(seq![y], 3, i, ts, pbytes, idx) {
            None => None,
            Some((new_point, newy, ts1, idx1)) => match read_elems(pbytes, idx1, 2) {
                None => None,
                Some((vs, idx2)) => {
                    let v0 = vs[0]@;
                    let v1 = vs[1]@;
                    if ext_mul(ext_mul(v0, v1), eq_eval(new_point, point)) == newy[0] {
                        let ts2 = ts_append(ts1, spec_as_bytes(vs));
                        let c = ts_challenge_value(ts2);
                        let ts3 = ts_after_challenge(ts2);
                        prod_verify_rounds(
                            i + 1,
                            var_num,
                            seq![c] + new_point,
                            ext_add(v0, ext_mul(ext_sub(v1, v0), c)),
                            ts3,
                            pbytes,
                            idx2,
                        )
                    } else {
                        None
                    }
                },
            },
        }
    }
}

/// The whole grand-product verifier: read the two top-level products, fold
/// them against the first challenge, then replay every level.
pub open spec fn prod_verify_spec(
    var_num: nat,
    ts: (Seq<u8>, int, Seq<u8>),
    pbytes: Seq<u8>,
    idx: int,
) -> Option<((int, int), Seq<(int, int)>, (int, int), (Seq<u8>, int, Seq<u8>), int)> {
    match read_elems(pbytes, idx, 2) {
        None => None,
        Some((vs, idx1)) => {
            let v0 = vs[0]@;
            let v1 = vs[1]@;
            let ts1 = ts_append(ts, spec_as_bytes(vs));
            let c = ts_challenge_value(ts1);
            let ts2 = ts_after_challenge(ts1);
            let y = ext_add(v0, ext_mul(ext_sub(v1, v0), c));
            match prod_verify_rounds(1, var_num, seq![c], y, ts2, pbytes, idx1) {
                None => None,
                Some((point, yf, tsf, idxf)) => Some((ext_mul(v0, v1), point, yf, tsf, idxf)),
            }
        },
    }
}


/// One halving of a product-tower level: adjacent pairs multiplied.
pub open spec fn half_products(s: Seq<(int, int)>) -> Seq<(int, int)> {
    Seq::new((s.len() / 2) as nat, |j: int| ext_mul(s[2 * j], s[2 * j + 1]))
}

/// Level `l` of the product tower over a vector: `l` successive halvings.
pub open spec fn tower_level(evals: Seq<(int, int)>, l: nat) -> Seq<(int, int)>
    decreases l,
{
    if l == 0 {
        evals
    } else {
        half_products(tower_level(evals, (l - 1) as nat))
    }
}

/// The tower level lengths halve exactly.
pub proof fn lemma_tower_len(evals: Seq<(int, int)>, l: nat)
    requires
        evals.len() == vstd::arithmetic::power2::pow2(log2(evals.len())),
        l <= log2(evals.len()),
    ensures
        tower_level(evals, l).len() == vstd::arithmetic::power2::pow2(
            (log2(evals.len()) - l) as nat,
        ),
    decreases l,
{
    let k = log2(evals.len());
    if l == 0 {
    } else {
        lemma_tower_len(evals, (l - 1) as nat);
        vstd::arithmetic::power2::lemma_pow2_unfold((k - l + 1) as nat);
    }
}

/// Every tower entry is the product of its block of the original vector.
pub proof fn lemma_tower_entry(evals: Seq<(int, int)>, l: nat, j: int)
    requires
        crate::poly::ext_seq_wf(evals),
        evals.len() == vstd::arithmetic::power2::pow2(log2(evals.len())),
        l <= log2(evals.len()),
        0 <= j < tower_level(evals, l).len(),
    ensures
        tower_level(evals, l)[j] == ext_prod(
            evals.subrange(
                j * vstd::arithmetic::power2::pow2(l),
                (j + 1) * vstd::arithmetic::power2::pow2(l),
            ),
        ),
    decreases l,
{
    let k = log2(evals.len());
    let p2l = vstd::arithmetic::power2::pow2(l) as int;
    lemma_tower_len(evals, l);
    vstd::arithmetic::power2::lemma_pow2_pos(l);
    vstd::arithmetic::power2::lemma_pow2_adds((k - l) as nat, l);
    assert(tower_level(evals, l).len() * p2l == evals.len());
    if l == 0 {
        vstd::arithmetic::power2::lemma2_to64();
        let single = evals.subrange(j, j + 1);
        assert(single.drop_last() =~= Seq::<(int, int)>::empty());
        assert(ext_prod(single.drop_last()) == crate::ext_field::ext_one());
        assert(ext_prod(single) == ext_mul(crate::ext_field::ext_one(), single.last()));
        lemma_ext_one_identity(evals[j]);
    } else {
        let below = tower_level(evals, (l - 1) as nat);
        let p2b = vstd::arithmetic::power2::pow2((l - 1) as nat) as int;
        lemma_tower_len(evals, (l - 1) as nat);
        vstd::arithmetic::power2::lemma_pow2_unfold(l);
        vstd::arithmetic::power2::lemma_pow2_unfold((k - l + 1) as nat);
        assert(below.len() == 2 * tower_level(evals, l).len());
        assert(0 <= 2 * j < below.len() && 0 <= 2 * j + 1 < below.len());
        lemma_tower_entry(evals, (l - 1) as nat, 2 * j);
        lemma_tower_entry(evals, (l - 1) as nat, 2 * j + 1);
        let lo = j * p2l;
        let mid = (2 * j + 1) * p2b;
        let hi = (j + 1) * p2l;
        assert((2 * j) * p2b == lo && mid == lo + p2b && (2 * j + 2) * p2b == hi && hi == mid
            + p2b) by (nonlinear_arith)
            requires
                p2l == 2 * p2b,
                lo == j * p2l,
                mid == (2 * j + 1) * p2b,
                hi == (j + 1) * p2l,
        ;
        assert(0 <= lo && hi <= evals.len()) by (nonlinear_arith)
            requires
                lo == j * p2l,
                hi == (j + 1) * p2l,
                0 <= j < tower_level(evals, l).len(),
                tower_level(evals, l).len() * p2l == evals.len(),
                p2l > 0,
        ;
        lemma_ext_prod_concat(evals.subrange(lo, mid), evals.subrange(mid, hi));
        assert(evals.subrange(lo, mid) + evals.subrange(mid, hi) =~= evals.subrange(lo, hi));
    }
}

/// The data form of the degree-3 product combinator `v0 * v1 * v2`.
pub open spec fn product3_view() -> Seq<Seq<(Goldilocks64Ext, Seq<usize>)>> {
    seq![
        seq![
            (
                Goldilocks64Ext { c0: Goldilocks64 { v: 1u64 }, c1: Goldilocks64 { v: 0u64 } },
                seq![0usize, 1usize, 2usize],
            ),
        ],
    ]
}

/// The prover's levels from `ii` down to the bottom: per level a degree-3
/// sumcheck over the two halves and the equality polynomial of the
/// accumulated point, then its two final claims and the next challenge.
pub open spec fn prod_prove_rounds(
    evals: Seq<(int, int)>,
    var_num: nat,
    ii: nat,
    point: Seq<(int, int)>,
    ts: (Seq<u8>, int, Seq<u8>),
) -> (Seq<(int, int)>, (Seq<u8>, int, Seq<u8>))
    decreases ii,
{
    if ii == 0 {
        (point, ts)
    } else {
        let i = (ii - 1) as nat;
        let level = tower_level(evals, i);
        let evens = Seq::new((level.len() / 2) as nat, |j: int| level[2 * j]);
        let odds = Seq::new((level.len() / 2) as nat, |j: int| level[2 * j + 1]);
        let sc = sumcheck_prove_spec(
            seq![evens, odds, eq_table(point)],
            product3_view(),
            3,
            (var_num - ii) as nat,
            ts,
        );
        let ts1 = ts_append(sc.2, ser_views(seq![sc.1[0][0], sc.1[1][0]]));
        let r = ts_challenge_value(ts1);
        let ts2 = ts_after_challenge(ts1);
        prod_prove_rounds(evals, var_num, i, seq![r] + sc.0, ts2)
    }
}

/// The whole grand-product prover as a function of the vector and the
/// transcript state: the two top-of-tower values, the first challenge, then
/// every level.
#[verifier::opaque]
pub open spec fn prod_prove_spec(
    evals: Seq<(int, int)>,
    var_num: nat,
    ts: (Seq<u8>, int, Seq<u8>),
) -> (Seq<(int, int)>, (Seq<u8>, int, Seq<u8>)) {
    let top = tower_level(evals, (var_num - 1) as nat);
    let ts1 = ts_append(ts, ser_views(seq![top[0], top[1]]));
    let c0 = ts_challenge_value(ts1);
    let ts2 = ts_after_challenge(ts1);
    prod_prove_rounds(evals, var_num, (var_num - 1) as nat, seq![c0], ts2)
}

impl ProdCheck {
    /// The degree-3 product combinator `v0 * v1 * v2`.
    fn product3() -> (r: Combinator)
        ensures
            r.outputs@.len() == 1,
            r.wf(3),
            comb_view(r) == product3_view(),
    {
        let mut idxs: Vec<usize> = Vec::new();
        idxs.push(0);
        idxs.push(1);
        idxs.push(2);
        let mut terms: Vec<(Goldilocks64Ext, Vec<usize>)> = Vec::new();
        terms.push((Goldilocks64Ext::one(), idxs));
        let mut outputs: Vec<Vec<(Goldilocks64Ext, Vec<usize>)>> = Vec::new();
        outputs.push(terms);
        let r = Combinator { outputs };
        proof {
            assert(r.outputs@[0]@[0].1@ =~= seq![0usize, 1usize, 2usize]);
            assert(Combinator::term_view(r.outputs@[0]) =~= product3_view()[0]);
            assert(comb_view(r) =~= product3_view());
        }
        r
    }

    /// Proves a grand product: builds the halving tower, sends the two
    /// top-level values, and per level reduces the claim with a degree-3
    /// sumcheck over the two halves and the equality polynomial of the
    /// accumulated point.
    #[verifier::spinoff_prover]
    #[verifier::rlimit(100)]
    pub fn prove(evals: Vec<Goldilocks64Ext>, transcript: &mut Transcript) -> (point: Vec<
        Goldilocks64Ext,
    >)
        requires
            is_power_of_two(evals@.len() as nat),
            2 <= evals@.len(),
            evals@.len() < 0x1_0000_0000,
            ext_vec_wf(evals),
            old(transcript).wf(),
        ensures
            final(transcript).wf(),
            old(transcript).proof.bytes@ == final(transcript).proof.bytes@.subrange(
                0,
                old(transcript).proof.bytes@.len() as int,
            ),
            old(transcript).proof.bytes@.len() <= final(transcript).proof.bytes@.len(),
            final(transcript).proof.idx == old(transcript).proof.idx,
            point@.len() == log2(evals@.len() as nat),
            ext_vec_wf(point),
            ({
                let full = prod_prove_spec(
                    ext_vec_view(evals),
                    log2(evals@.len() as nat),
                    ts_of(*old(transcript)),
                );
                &&& ext_vec_view(point) == full.0
                &&& ts_of(*final(transcript)) == full.1
            }),
            ({
                let top = tower_level(
                    ext_vec_view(evals),
                    (log2(evals@.len() as nat) - 1) as nat,
                );
                ext_mul(top[0], top[1]) == ext_prod(ext_vec_view(evals))
            }),
    {
        let ghost vv = ext_vec_view(evals);
        let ghost ts0 = ts_of(*transcript);
        let var_num = log2_exact(evals.len());
        proof {
            assert forall|l: int| 0 <= l < vv.len() implies crate::ext_field::ext_wf(
                #[trigger] vv[l],
            ) by {
                assert(vv[l] == evals@[l]@);
            }
        }
        proof {
            if var_num >= 32 {
                vstd::arithmetic::power2::lemma2_to64();
                if var_num > 32 {
                    vstd::arithmetic::power2::lemma_pow2_strictly_increases(32, var_num as nat);
                }
                assert(false);
            }
        }
        let mut products: Vec<Vec<Goldilocks64Ext>> = Vec::new();
        products.push(evals);
        let mut i: usize = 1;
        while i < var_num
            invariant
                1 <= i <= var_num,
                var_num < 32,
                products@.len() == i,
                forall|l: int|
                    0 <= l < i ==> (#[trigger] products@[l])@.len()
                        == vstd::arithmetic::power2::pow2((var_num - l) as nat) && ext_vec_wf(
                        products@[l],
                    ),
                forall|l: int|
                    0 <= l < i ==> ext_vec_view(#[trigger] products@[l]) == tower_level(
                        vv,
                        l as nat,
                    ),
            decreases var_num - i,
        {
            proof {
                vstd::arithmetic::power2::lemma_pow2_unfold((var_num - i + 1) as nat);
                vstd::arithmetic::power2::lemma_pow2_pos((var_num - i) as nat);
            }
            let last = &products[i - 1];
            let m = last.len() / 2;
            let ghost levelv = tower_level(vv, (i - 1) as nat);
            let mut next: Vec<Goldilocks64Ext> = Vec::new();
            let mut j: usize = 0;
            while j < m
                invariant
                    j <= m,
                    2 * m == last@.len(),
                    ext_vec_wf(*last),
                    levelv == ext_vec_view(*last),
                    next@.len() == j,
                    ext_vec_wf(next),
                    forall|l: int|
                        0 <= l < j ==> (#[trigger] next@[l])@ == ext_mul(
                            levelv[2 * l],
                            levelv[2 * l + 1],
                        ),
                decreases m - j,
            {
                next.push(last[2 * j].mul(last[2 * j + 1]));
                j += 1;
            }
            proof {
                assert(ext_vec_view(next) =~= half_products(levelv));
            }
            products.push(next);
            i += 1;
        }
        proof {
            vstd::arithmetic::power2::lemma_pow2_unfold(1);
            vstd::arithmetic::power2::lemma2_to64();
            lemma_log2_pow2(var_num as nat);
            lemma_tower_len(vv, (var_num - 1) as nat);
        }
        let top = &products[var_num - 1];
        let ghost topv = tower_level(vv, (var_num - 1) as nat);
        proof {
            assert(ext_vec_view(*top) == topv);
            assert(top@[0]@ == topv[0] && top@[1]@ == topv[1]);
            assert(old(transcript).proof.bytes@ =~= old(transcript).proof.bytes@.subrange(
                0,
                old(transcript).proof.bytes@.len() as int,
            ));
        }
        transcript.append_f(top[0]);
        proof {
            lemma_prefix_extend(
                old(transcript).proof.bytes@,
                old(transcript).proof.bytes@,
                spec_ext_serialize(top@[0]),
            );
        }
        let ghost b1 = transcript.proof.bytes@;
        transcript.append_f(top[1]);
        proof {
            lemma_prefix_extend(old(transcript).proof.bytes@, b1, spec_ext_serialize(top@[1]));
            let tops = seq![topv[0], topv[1]];
            assert(crate::ext_field::ext_of_view(topv[0]) == top@[0]);
            assert(crate::ext_field::ext_of_view(topv[1]) == top@[1]);
            assert(tops.drop_last() =~= seq![topv[0]]);
            assert(seq![topv[0]].drop_last() =~= Seq::<(int, int)>::empty());
            assert(ser_views(Seq::<(int, int)>::empty()) == Seq::<u8>::empty());
            assert(ser_views(seq![topv[0]]) == Seq::<u8>::empty() + spec_ext_serialize(
                crate::ext_field::ext_of_view(topv[0]),
            ));
            assert(ser_views(tops) == ser_views(seq![topv[0]]) + spec_ext_serialize(
                crate::ext_field::ext_of_view(topv[1]),
            ));
            assert(transcript.proof.bytes@ =~= ts0.0 + ser_views(tops));
            assert(ts_of(*transcript) == ts_append(ts0, ser_views(tops)));
        }
        let c0 = transcript.challenge_f();
        let mut point: Vec<Goldilocks64Ext> = Vec::new();
        point.push(c0);
        let comb = Self::product3();
        proof {
            reveal(prod_prove_spec);
            assert(ext_vec_view(point) =~= seq![c0@]);
        }
        let mut ii: usize = var_num - 1;
        while ii > 0
            invariant
                ii <= var_num - 1,
                var_num < 32,
                vv.len() == vstd::arithmetic::power2::pow2(var_num as nat),
                log2(vv.len()) == var_num,
                products@.len() == var_num,
                forall|l: int|
                    0 <= l < var_num ==> (#[trigger] products@[l])@.len()
                        == vstd::arithmetic::power2::pow2((var_num - l) as nat) && ext_vec_wf(
                        products@[l],
                    ),
                forall|l: int|
                    0 <= l < var_num ==> ext_vec_view(#[trigger] products@[l]) == tower_level(
                        vv,
                        l as nat,
                    ),
                point@.len() == var_num - ii,
                ext_vec_wf(point),
                comb.outputs@.len() == 1,
                comb.wf(3),
                comb_view(comb) == product3_view(),
                transcript.wf(),
                old(transcript).proof.bytes@.len() <= transcript.proof.bytes@.len(),
                old(transcript).proof.bytes@ == transcript.proof.bytes@.subrange(
                    0,
                    old(transcript).proof.bytes@.len() as int,
                ),
                transcript.proof.idx == old(transcript).proof.idx,
                ({
                    let full = prod_prove_spec(vv, var_num as nat, ts0);
                    let rest = prod_prove_rounds(
                        vv,
                        var_num as nat,
                        ii as nat,
                        ext_vec_view(point),
                        ts_of(*transcript),
                    );
                    full.0 == rest.0 && full.1 == rest.1
                }),
            decreases ii,
        {
            let ghost point_pre = ext_vec_view(point);
            let ghost ts_round = ts_of(*transcript);
            let i = ii - 1;
            let eq = MultiLinearPoly::new_eq(&point);
            let level = &products[i];
            let ghost levelv = tower_level(vv, i as nat);
            let mut evals_0: Vec<Goldilocks64Ext> = Vec::new();
            let mut evals_1: Vec<Goldilocks64Ext> = Vec::new();
            let half = level.len() / 2;
            proof {
                vstd::arithmetic::power2::lemma_pow2_unfold((var_num - i) as nat);
                vstd::arithmetic::power2::lemma_pow2_pos((var_num - i - 1) as nat);
            }
            let mut j: usize = 0;
            while j < half
                invariant
                    j <= half,
                    2 * half == level@.len(),
                    ext_vec_wf(*level),
                    levelv == ext_vec_view(*level),
                    evals_0@.len() == j,
                    evals_1@.len() == j,
                    ext_vec_wf(evals_0),
                    ext_vec_wf(evals_1),
                    forall|l: int| 0 <= l < j ==> (#[trigger] evals_0@[l])@ == levelv[2 * l],
                    forall|l: int| 0 <= l < j ==> (#[trigger] evals_1@[l])@ == levelv[2 * l + 1],
                decreases half - j,
            {
                evals_0.push(level[2 * j]);
                evals_1.push(level[2 * j + 1]);
                j += 1;
            }
            let ghost evensv = Seq::new((levelv.len() / 2) as nat, |l: int| levelv[2 * l]);
            let ghost oddsv = Seq::new((levelv.len() / 2) as nat, |l: int| levelv[2 * l + 1]);
            proof {
                assert(ext_vec_view(evals_0) =~= evensv);
                assert(ext_vec_view(evals_1) =~= oddsv);
                crate::poly::lemma_eq_table_len(ext_vec_view(point));
                lemma_log2_pow2((var_num - i - 1) as nat);
            }
            let mut inputs: Vec<Vec<Goldilocks64Ext>> = Vec::new();
            inputs.push(evals_0);
            inputs.push(evals_1);
            inputs.push(eq.evals);
            proof {
                assert forall|l: int| 0 <= l < inputs@[2]@.len() implies (
                #[trigger] inputs@[2]@[l]).wf() by {
                    assert(ext_vec_view(inputs@[2])[l] == inputs@[2]@[l]@);
                }
                assert(inputs@[2]@.len() == ext_vec_view(inputs@[2]).len());
                crate::poly::lemma_eq_table_len(ext_vec_view(point));
                assert(crate::sumcheck::evals_view(inputs@) =~= seq![
                    evensv,
                    oddsv,
                    eq_table(point_pre),
                ]);
            }
            let ghost bcall = transcript.proof.bytes@;
            let (mut new_point, v) = Sumcheck::prove(inputs, 3, transcript, &comb);
            proof {
                crate::sumcheck::lemma_prefix_trans(
                    old(transcript).proof.bytes@,
                    bcall,
                    transcript.proof.bytes@,
                );
            }
            let ghost sc = sumcheck_prove_spec(
                seq![evensv, oddsv, eq_table(point_pre)],
                product3_view(),
                3,
                (var_num - ii) as nat,
                ts_round,
            );
            proof {
                assert(ext_vec_view(new_point) == sc.0);
                assert(ts_of(*transcript) == sc.2);
                assert(v@[0]@ == sc.1[0][0] && v@[1]@ == sc.1[1][0]);
            }
            let ghost bpre = transcript.proof.bytes@;
            transcript.append_f(v[0]);
            proof {
                lemma_prefix_extend(
                    old(transcript).proof.bytes@,
                    bpre,
                    spec_ext_serialize(v@[0]),
                );
            }
            let ghost bpre2 = transcript.proof.bytes@;
            transcript.append_f(v[1]);
            proof {
                lemma_prefix_extend(
                    old(transcript).proof.bytes@,
                    bpre2,
                    spec_ext_serialize(v@[1]),
                );
                let fins = seq![sc.1[0][0], sc.1[1][0]];
                assert(crate::ext_field::ext_of_view(sc.1[0][0]) == v@[0]);
                assert(crate::ext_field::ext_of_view(sc.1[1][0]) == v@[1]);
                assert(fins.drop_last() =~= seq![sc.1[0][0]]);
                assert(seq![sc.1[0][0]].drop_last() =~= Seq::<(int, int)>::empty());
                assert(ser_views(Seq::<(int, int)>::empty()) == Seq::<u8>::empty());
                assert(ser_views(seq![sc.1[0][0]]) == Seq::<u8>::empty() + spec_ext_serialize(
                    crate::ext_field::ext_of_view(sc.1[0][0]),
                ));
                assert(ser_views(fins) == ser_views(seq![sc.1[0][0]]) + spec_ext_serialize(
                    crate::ext_field::ext_of_view(sc.1[1][0]),
                ));
                assert(transcript.proof.bytes@ =~= bpre + ser_views(fins));
                assert(ts_of(*transcript) == ts_append(sc.2, ser_views(fins)));
            }
            let r = transcript.challenge_f();
            let mut next_point: Vec<Goldilocks64Ext> = Vec::new();
            next_point.push(r);
            let mut j: usize = 0;
            while j < new_point.len()
                invariant
                    j <= new_point@.len(),
                    next_point@.len() == j + 1,
                    next_point@[0] == r,
                    r.wf(),
                    ext_vec_wf(new_point),
                    ext_vec_wf(next_point),
                    forall|l: int| 0 <= l < j ==> next_point@[l + 1] == new_point@[l],
                decreases new_point@.len() - j,
            {
                next_point.push(new_point[j]);
                j += 1;
            }
            point = next_point;
            ii -= 1;
            proof {
                assert(ext_vec_view(point) =~= seq![r@] + sc.0);
            }
        }
        proof {
            reveal(prod_prove_spec);
            lemma_tower_entry(vv, var_num as nat, 0);
            lemma_tower_len(vv, var_num as nat);
            vstd::arithmetic::power2::lemma2_to64();
            assert(vv.subrange(0, vstd::arithmetic::power2::pow2(var_num as nat) as int) =~= vv);
        }
        point
    }

    /// Replays the grand-product verifier; `Some` exactly when the
    /// specification-level mirror accepts, returning the claimed product,
    /// the final evaluation point and the final claimed value.
    #[verifier::spinoff_prover]
    #[verifier::rlimit(100)]
    pub fn verify(var_num: usize, transcript: &mut Transcript, proof: &mut Proof) -> (r: Option<
        (Goldilocks64Ext, Vec<Goldilocks64Ext>, Goldilocks64Ext),
    >)
        requires
            1 <= var_num,
            old(transcript).wf(),
        ensures
            final(transcript).wf(),
            final(proof).bytes@ == old(proof).bytes@,
            match prod_verify_spec(
                var_num as nat,
                ts_of(*old(transcript)),
                old(proof).bytes@,
                old(proof).idx as int,
            ) {
                None => r is None,
                Some((prod, point, yf, tsf, idxf)) => {
                    &&& r is Some
                    &&& (r->0).0@ == prod
                    &&& ext_vec_view((r->0).1) == point
                    &&& (r->0).2@ == yf
                    &&& ts_of(*final(transcript)) == tsf
                    &&& final(proof).idx == idxf
                    &&& ext_vec_wf((r->0).1)
                    &&& (r->0).1@.len() == var_num
                    &&& (r->0).0.wf()
                    &&& (r->0).2.wf()
                },
            },
    {
        let ghost ts0 = ts_of(*transcript);
        let ghost pb = proof.bytes@;
        let ghost idx0 = proof.idx as int;
        let v0 = match proof.get_next_and_step() {
            Some(x) => x,
            None => {
                return None;
            },
        };
        let ghost idx1 = proof.idx as int;
        let v1 = match proof.get_next_and_step() {
            Some(x) => x,
            None => {
                proof {
                    crate::sumcheck::lemma_read_elems_snoc(pb, idx0, 1);
                    crate::sumcheck::lemma_read_elems_snoc(pb, idx0, 0);
                }
                return None;
            },
        };
        proof {
            crate::sumcheck::lemma_read_elems_snoc(pb, idx0, 1);
            crate::sumcheck::lemma_read_elems_snoc(pb, idx0, 0);
            assert(read_elems(pb, idx0, 2) == Some((seq![v0, v1], proof.idx as int)));
            assert(Seq::<Goldilocks64Ext>::empty().push(v0).push(v1) =~= seq![v0, v1]);
        }
        let prod = v0.mul(v1);
        let ghost bpre = transcript.proof.bytes@;
        transcript.append_f(v0);
        transcript.append_f(v1);
        proof {
            assert(spec_as_bytes(seq![v0, v1]) == spec_as_bytes(seq![v0]) + spec_ext_serialize(v1))
                by {
                assert(seq![v0, v1].drop_last() =~= seq![v0]);
            }
            assert(spec_as_bytes(seq![v0]) == spec_as_bytes(Seq::<Goldilocks64Ext>::empty())
                + spec_ext_serialize(v0)) by {
                assert(seq![v0].drop_last() =~= Seq::<Goldilocks64Ext>::empty());
            }
            assert(transcript.proof.bytes@ =~= bpre + spec_as_bytes(seq![v0, v1]));
        }
        let c0 = transcript.challenge_f();
        let mut point: Vec<Goldilocks64Ext> = Vec::new();
        point.push(c0);
        let mut y = v0.add(v1.sub(v0).mul(c0));
        proof {
            assert(ext_vec_view(point) =~= seq![c0@]);
        }
        let mut i: usize = 1;
        while i < var_num
            invariant
                1 <= i <= var_num,
                point@.len() == i,
                ext_vec_wf(point),
                y.wf(),
                transcript.wf(),
                proof.bytes@ == pb,
                prod_verify_spec(var_num as nat, ts0, pb, idx0) == (match prod_verify_rounds(
                    i as nat,
                    var_num as nat,
                    ext_vec_view(point),
                    y@,
                    ts_of(*transcript),
                    pb,
                    proof.idx as int,
                ) {
                    None => None::<
                        ((int, int), Seq<(int, int)>, (int, int), (Seq<u8>, int, Seq<u8>), int),
                    >,
                    Some((pt, yf, tsf, idxf)) => Some((prod@, pt, yf, tsf, idxf)),
                }),
            decreases var_num - i,
        {
            let ghost point_pre = ext_vec_view(point);
            let ghost y_pre = y@;
            let ghost ts_pre = ts_of(*transcript);
            let ghost idx_pre = proof.idx as int;
            let mut yvec: Vec<Goldilocks64Ext> = Vec::new();
            yvec.push(y);
            proof {
                assert(ext_vec_view(yvec) =~= seq![y@]);
            }
            let res = match Sumcheck::verify(yvec, 3, i, transcript, proof) {
                Some(res) => res,
                None => {
                    return None;
                },
            };
            let (new_point, newy) = res;
            let ghost idx_a = proof.idx as int;
            let w0 = match proof.get_next_and_step() {
                Some(x) => x,
                None => {
                    proof {
                        crate::sumcheck::lemma_read_elems_snoc(pb, idx_a, 1);
                        crate::sumcheck::lemma_read_elems_snoc(pb, idx_a, 0);
                    }
                    return None;
                },
            };
            let w1 = match proof.get_next_and_step() {
                Some(x) => x,
                None => {
                    proof {
                        crate::sumcheck::lemma_read_elems_snoc(pb, idx_a, 1);
                        crate::sumcheck::lemma_read_elems_snoc(pb, idx_a, 0);
                    }
                    return None;
                },
            };
            proof {
                crate::sumcheck::lemma_read_elems_snoc(pb, idx_a, 1);
                crate::sumcheck::lemma_read_elems_snoc(pb, idx_a, 0);
                assert(read_elems(pb, idx_a, 2) == Some((seq![w0, w1], proof.idx as int)));
                assert(Seq::<Goldilocks64Ext>::empty().push(w0).push(w1) =~= seq![w0, w1]);
            }
            let eq_v = MultiLinearPoly::eval_eq(&new_point, &point);
            let lhs = w0.mul(w1).mul(eq_v);
            if !(lhs == newy[0]) {
                return None;
            }
            let ghost bpre2 = transcript.proof.bytes@;
            transcript.append_f(w0);
            transcript.append_f(w1);
            proof {
                assert(spec_as_bytes(seq![w0, w1]) == spec_as_bytes(seq![w0])
                    + spec_ext_serialize(w1)) by {
                    assert(seq![w0, w1].drop_last() =~= seq![w0]);
                }
                assert(spec_as_bytes(seq![w0]) == spec_as_bytes(Seq::<Goldilocks64Ext>::empty())
                    + spec_ext_serialize(w0)) by {
                    assert(seq![w0].drop_last() =~= Seq::<Goldilocks64Ext>::empty());
                }
                assert(transcript.proof.bytes@ =~= bpre2 + spec_as_bytes(seq![w0, w1]));
            }
            let r = transcript.challenge_f();
            let mut next_point: Vec<Goldilocks64Ext> = Vec::new();
            next_point.push(r);
            let mut j: usize = 0;
            while j < new_point.len()
                invariant
                    j <= new_point@.len(),
                    next_point@.len() == j + 1,
                    next_point@[0] == r,
                    r.wf(),
                    ext_vec_wf(new_point),
                    ext_vec_wf(next_point),
                    forall|l: int| 0 <= l < j ==> next_point@[l + 1] == new_point@[l],
                decreases new_point@.len() - j,
            {
                next_point.push(new_point[j]);
                j += 1;
            }
            y = w0.add(w1.sub(w0).mul(r));
            point = next_point;
            i += 1;
            proof {
                assert(ext_vec_view(point) =~= seq![r@] + ext_vec_view(new_point));
            }
        }
        Some((prod, point, y))
    }
}

} // verus!
