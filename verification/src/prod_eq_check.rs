//! The product-equality argument: proves that two length-`2^k` vectors have
//! equal grand products, running the halving tower of the grand-product
//! argument on both vectors in parallel with two-slot sumchecks.  This is the
//! core of the permutation (copy-constraint) argument.

use crate::ext_field::ext_add;
use crate::ext_field::ext_mul;
use crate::ext_field::ext_sub;
use crate::ext_field::spec_as_bytes;
use crate::ext_field::spec_ext_serialize;
use crate::ext_field::ext_prod;
use crate::ext_field::ser_views;
use crate::ext_field::Goldilocks64Ext;
use crate::field::Goldilocks64;
use crate::fiat_shamir::Proof;
use crate::fiat_shamir::Transcript;
use crate::poly::eq_eval;
use crate::poly::eq_table;
use crate::poly::ext_vec_view;
use crate::poly::ext_vec_wf;
use crate::poly::MultiLinearPoly;
use crate::sumcheck::is_power_of_two;
use crate::sumcheck::lemma_log2_pow2;
use crate::sumcheck::lemma_prefix_extend;
use crate::sumcheck::lemma_prefix_trans;
use crate::sumcheck::lemma_read_elems_snoc;
use crate::sumcheck::log2;
use crate::sumcheck::log2_exact;
use crate::sumcheck::read_elems;
use crate::sumcheck::sumcheck_verify_spec;
use crate::sumcheck::ts_after_challenge;
use crate::sumcheck::ts_append;
use crate::sumcheck::ts_challenge_value;
use crate::sumcheck::ts_of;
use crate::sumcheck::comb_view;
use crate::sumcheck::sumcheck_prove_spec;
use crate::sumcheck::Combinator;
use crate::sumcheck::Sumcheck;
use crate::prod_check::half_products;
use crate::prod_check::lemma_tower_entry;
use crate::prod_check::lemma_tower_len;
use crate::prod_check::tower_level;
use vstd::prelude::*;

verus! {

/// The product-equality check.
pub struct ProdEqCheck;

/// One verifier level: an `i`-variable two-slot degree-3 sumcheck, the two
/// pairs of half-products each checked against its reduced claim through the
/// equality polynomial, and the next folding challenge.
pub open spec fn prod_eq_round_spec(
    i: nat,
    point: Seq<(int, int)>,
    y0: (int, int),
    y1: (int, int),
    ts: (Seq<u8>, int, Seq<u8>),
    pbytes: Seq<u8>,
    idx: int,
) -> Option<(Seq<(int, int)>, (int, int), (int, int), (Seq<u8>, int, Seq<u8>), int)> {
    match sumcheck_verify_spec(seq![y0, y1], 3, i, ts, pbytes, idx) {
        None => None,
        Some((new_point, newy, ts1, idx1)) => match read_elems(pbytes, idx1, 2) {
            None => None,
            Some((vsa, idx2)) => {
                if ext_mul(ext_mul(vsa[0]@, vsa[1]@), eq_eval(new_point, point)) == newy[0] {
                    let ts2 = ts_append(ts1, spec_as_bytes(vsa));
                    match read_elems(pbytes, idx2, 2) {
                        None => None,
                        Some((vsb, idx3)) => {
                            if ext_mul(ext_mul(vsb[0]@, vsb[1]@), eq_eval(new_point, point))
                                == newy[1] {
                                let ts3 = ts_append(ts2, spec_as_bytes(vsb));
                                let c = ts_challenge_value(ts3);
                                let ts4 = ts_after_challenge(ts3);
                                Some(
                                    (
                                        seq![c] + new_point,
                                        ext_add(vsa[0]@, ext_mul(ext_sub(vsa[1]@, vsa[0]@), c)),
                                        ext_add(vsb[0]@, ext_mul(ext_sub(vsb[1]@, vsb[0]@), c)),
                                        ts4,
                                        idx3,
                                    ),
                                )
                            } else {
                                None
                            }
                        },
                    }
                } else {
                    None
                }
            },
        },
    }
}

/// The verifier's rounds from level `i` upward.
pub open spec fn prod_eq_verify_rounds(
    i: nat,
    var_num: nat,
    point: Seq<(int, int)>,
    y0: (int, int),
    y1: (int, int),
    ts: (Seq<u8>, int, Seq<u8>),
    pbytes: Seq<u8>,
    idx: int,
) -> Option<(Seq<(int, int)>, (int, int), (int, int), (Seq<u8>, int, Seq<u8>), int)>
    decreases var_num - i,
{
    if i >= var_num {
        Some((point, y0, y1, ts, idx))
    } else {
        match prod_eq_round_spec(i, point, y0, y1, ts, pbytes, idx) {
            None => None,
            Some((point1, a, b, ts1, idx1)) => prod_eq_verify_rounds(
                i + 1,
                var_num,
                point1,
                a,
                b,
                ts1,
                pbytes,
                idx1,
            ),
        }
    }
}

/// The whole product-equality verifier: read both towers' top-level pairs,
/// check that the two grand products agree, fold both against the first
/// challenge, then replay every level.
pub open spec fn prod_eq_verify_spec(
    var_num: nat,
    ts: (Seq<u8>, int, Seq<u8>),
    pbytes: Seq<u8>,
    idx: int,
) -> Option<(Seq<(int, int)>, (int, int), (int, int), (Seq<u8>, int, Seq<u8>), int)> {
    match read_elems(pbytes, idx, 4) {
        None => None,
        Some((vs, idx1)) => {
            if ext_mul(vs[0]@, vs[1]@) == ext_mul(vs[2]@, vs[3]@) {
                let ts1 = ts_append(ts, spec_as_bytes(vs));
                let c = ts_challenge_value(ts1);
                let ts2 = ts_after_challenge(ts1);
                let y0 = ext_add(vs[0]@, ext_mul(ext_sub(vs[1]@, vs[0]@), c));
                let y1 = ext_add(vs[2]@, ext_mul(ext_sub(vs[3]@, vs[2]@), c));
                prod_eq_verify_rounds(1, var_num, seq![c], y0, y1, ts2, pbytes, idx1)
            } else {
                None
            }
        },
    }
}


/// The data form of the two-slot degree-3 combinator
/// `[v0*v1*v4, v2*v3*v4]`.
pub open spec fn product_pair_view() -> Seq<Seq<(Goldilocks64Ext, Seq<usize>)>> {
    seq![
        seq![
            (
                Goldilocks64Ext { c0: Goldilocks64 { v: 1u64 }, c1: Goldilocks64 { v: 0u64 } },
                seq![0usize, 1usize, 4usize],
            ),
        ],
        seq![
            (
                Goldilocks64Ext { c0: Goldilocks64 { v: 1u64 }, c1: Goldilocks64 { v: 0u64 } },
                seq![2usize, 3usize, 4usize],
            ),
        ],
    ]
}

/// The prover's levels from `ii` down to the bottom: per level one two-slot
/// degree-3 sumcheck over both towers' halves and the equality polynomial of
/// the accumulated point, then the four final claims and the next challenge.
pub open spec fn prod_eq_prove_rounds(
    evals0: Seq<(int, int)>,
    evals1: Seq<(int, int)>,
    var_num: nat,
    ii: nat,
    point: Seq<(int, int)>,
    ts: (Seq<u8>, int, Seq<u8>),
) -> (Seq<(int, int)>, (Seq<u8>, int, Seq<u8>))
    decreases ii,
{
    if ii == 0 {
        (point, ts)
    } else {
        let i = (ii - 1) as nat;
        let lvl0 = tower_level(evals0, i);
        let lvl1 = tower_level(evals1, i);
        let e00 = Seq::new((lvl0.len() / 2) as nat, |j: int| lvl0[2 * j]);
        let e01 = Seq::new((lvl0.len() / 2) as nat, |j: int| lvl0[2 * j + 1]);
        let e10 = Seq::new((lvl1.len() / 2) as nat, |j: int| lvl1[2 * j]);
        let e11 = Seq::new((lvl1.len() / 2) as nat, |j: int| lvl1[2 * j + 1]);
        let sc = sumcheck_prove_spec(
            seq![e00, e01, e10, e11, eq_table(point)],
            product_pair_view(),
            3,
            (var_num - ii) as nat,
            ts,
        );
        let ts1 = ts_append(
            sc.2,
            ser_views(seq![sc.1[0][0], sc.1[1][0], sc.1[2][0], sc.1[3][0]]),
        );
        let r = ts_challenge_value(ts1);
        let ts2 = ts_after_challenge(ts1);
        prod_eq_prove_rounds(evals0, evals1, var_num, i, seq![r] + sc.0, ts2)
    }
}

/// The whole product-equality prover as a function of the two vectors and
/// the transcript state: both towers' top pairs, the first challenge, then
/// every level.
#[verifier::opaque]
pub open spec fn prod_eq_prove_spec(
    evals0: Seq<(int, int)>,
    evals1: Seq<(int, int)>,
    var_num: nat,
    ts: (Seq<u8>, int, Seq<u8>),
) -> (Seq<(int, int)>, (Seq<u8>, int, Seq<u8>)) {
    let t0 = tower_level(evals0, (var_num - 1) as nat);
    let t1 = tower_level(evals1, (var_num - 1) as nat);
    let ts1 = ts_append(ts, ser_views(seq![t0[0], t0[1], t1[0], t1[1]]));
    let c0 = ts_challenge_value(ts1);
    let ts2 = ts_after_challenge(ts1);
    prod_eq_prove_rounds(evals0, evals1, var_num, (var_num - 1) as nat, seq![c0], ts2)
}

impl ProdEqCheck {
    /// The two-slot degree-3 combinator `[v0*v1*v4, v2*v3*v4]`.
    fn product_pair() -> (r: Combinator)
        ensures
            r.outputs@.len() == 2,
            r.wf(5),
            comb_view(r) == product_pair_view(),
    {
        let mut idxs0: Vec<usize> = Vec::new();
        idxs0.push(0);
        idxs0.push(1);
        idxs0.push(4);
        let mut terms0: Vec<(Goldilocks64Ext, Vec<usize>)> = Vec::new();
        terms0.push((Goldilocks64Ext::one(), idxs0));
        let mut idxs1: Vec<usize> = Vec::new();
        idxs1.push(2);
        idxs1.push(3);
        idxs1.push(4);
        let mut terms1: Vec<(Goldilocks64Ext, Vec<usize>)> = Vec::new();
        terms1.push((Goldilocks64Ext::one(), idxs1));
        let mut outputs: Vec<Vec<(Goldilocks64Ext, Vec<usize>)>> = Vec::new();
        outputs.push(terms0);
        outputs.push(terms1);
        let r = Combinator { outputs };
        proof {
            assert(r.outputs@[0]@[0].1@ =~= seq![0usize, 1usize, 4usize]);
            assert(r.outputs@[1]@[0].1@ =~= seq![2usize, 3usize, 4usize]);
            assert(Combinator::term_view(r.outputs@[0]) =~= product_pair_view()[0]);
            assert(Combinator::term_view(r.outputs@[1]) =~= product_pair_view()[1]);
            assert(comb_view(r) =~= product_pair_view());
        }
        r
    }

    /// Builds one halving tower: level `l` holds the pairwise products of
    /// level `l - 1`.
    fn build_tower(evals: Vec<Goldilocks64Ext>, var_num: usize) -> (tower: Vec<
        Vec<Goldilocks64Ext>,
    >)
        requires
            evals@.len() == vstd::arithmetic::power2::pow2(var_num as nat),
            1 <= var_num < 32,
            ext_vec_wf(evals),
        ensures
            tower@.len() == var_num,
            forall|l: int|
                0 <= l < var_num ==> (#[trigger] tower@[l])@.len()
                    == vstd::arithmetic::power2::pow2((var_num - l) as nat) && ext_vec_wf(
                    tower@[l],
                ),
            forall|l: int|
                0 <= l < var_num ==> ext_vec_view(#[trigger] tower@[l]) == tower_level(
                    ext_vec_view(evals),
                    l as nat,
                ),
    {
        let ghost vv = ext_vec_view(evals);
        let mut tower: Vec<Vec<Goldilocks64Ext>> = Vec::new();
        tower.push(evals);
        let mut i: usize = 1;
        while i < var_num
            invariant
                1 <= i <= var_num,
                var_num < 32,
                tower@.len() == i,
                forall|l: int|
                    0 <= l < i ==> (#[trigger] tower@[l])@.len()
                        == vstd::arithmetic::power2::pow2((var_num - l) as nat) && ext_vec_wf(
                        tower@[l],
                    ),
                forall|l: int|
                    0 <= l < i ==> ext_vec_view(#[trigger] tower@[l]) == tower_level(
                        vv,
                        l as nat,
                    ),
            decreases var_num - i,
        {
            proof {
                vstd::arithmetic::power2::lemma_pow2_unfold((var_num - i + 1) as nat);
                vstd::arithmetic::power2::lemma_pow2_pos((var_num - i) as nat);
            }
            let last = &tower[i - 1];
            let m = last.len() / 2;
            let ghost levelv = tower_level(vv, (i - 1) as nat);
            let mut next: Vec<Goldilocks64Ext> = Vec::new();
            let mut j: usize = 0;
            while j < m
                invariant
                    j <= m,
                    2 * m == last@.len(),
                    ext_vec_wf(*last),
                    levelv == ext_vec_view(*last),
                    next@.len() == j,
                    ext_vec_wf(next),
                    forall|l: int|
                        0 <= l < j ==> (#[trigger] next@[l])@ == ext_mul(
                            levelv[2 * l],
                            levelv[2 * l + 1],
                        ),
                decreases m - j,
            {
                next.push(last[2 * j].mul(last[2 * j + 1]));
                j += 1;
            }
            proof {
                assert(ext_vec_view(next) =~= crate::prod_check::half_products(levelv));
            }
            tower.push(next);
            i += 1;
        }
        tower
    }

    /// Proves that two vectors have the same grand product: both halving
    /// towers are built, their top pairs sent, and per level a two-slot
    /// degree-3 sumcheck reduces both claims at once.
    #[verifier::spinoff_prover]
    #[verifier::rlimit(100)]
    pub fn prove(evals: Vec<Vec<Goldilocks64Ext>>, transcript: &mut Transcript) -> (point: Vec<
        Goldilocks64Ext,
    >)
        requires
            evals@.len() == 2,
            is_power_of_two(evals@[0]@.len() as nat),
            2 <= evals@[0]@.len(),
            evals@[0]@.len() < 0x1_0000_0000,
            evals@[1]@.len() == evals@[0]@.len(),
            ext_vec_wf(evals@[0]),
            ext_vec_wf(evals@[1]),
            old(transcript).wf(),
        ensures
            final(transcript).wf(),
            old(transcript).proof.bytes@ == final(transcript).proof.bytes@.subrange(
                0,
                old(transcript).proof.bytes@.len() as int,
            ),
            old(transcript).proof.bytes@.len() <= final(transcript).proof.bytes@.len(),
            final(transcript).proof.idx == old(transcript).proof.idx,
            point@.len() == log2(evals@[0]@.len() as nat),
            ext_vec_wf(point),
            ({
                let full = prod_eq_prove_spec(
                    ext_vec_view(evals@[0]),
                    ext_vec_view(evals@[1]),
                    log2(evals@[0]@.len() as nat),
                    ts_of(*old(transcript)),
                );
                &&& ext_vec_view(point) == full.0
                &&& ts_of(*final(transcript)) == full.1
            }),
            ({
                let k = log2(evals@[0]@.len() as nat);
                let t0 = tower_level(ext_vec_view(evals@[0]), (k - 1) as nat);
                let t1 = tower_level(ext_vec_view(evals@[1]), (k - 1) as nat);
                &&& ext_mul(t0[0], t0[1]) == ext_prod(ext_vec_view(evals@[0]))
                &&& ext_mul(t1[0], t1[1]) == ext_prod(ext_vec_view(evals@[1]))
            }),
    {
        let ghost vv0 = ext_vec_view(evals@[0]);
        let ghost vv1 = ext_vec_view(evals@[1]);
        let ghost ts0 = ts_of(*transcript);
        proof {
            assert forall|l: int| 0 <= l < vv0.len() implies crate::ext_field::ext_wf(
                #[trigger] vv0[l],
            ) by {
                assert(vv0[l] == evals@[0]@[l]@);
            }
            assert forall|l: int| 0 <= l < vv1.len() implies crate::ext_field::ext_wf(
                #[trigger] vv1[l],
            ) by {
                assert(vv1[l] == evals@[1]@[l]@);
            }
        }
        let mut evals = evals;
        let evals1 = match evals.pop() {
            Some(v) => v,
            None => {
                proof {
                    assert(false);
                }
                unreached()
            },
        };
        let evals0 = match evals.pop() {
            Some(v) => v,
            None => {
                proof {
                    assert(false);
                }
                unreached()
            },
        };
        let var_num = log2_exact(evals0.len());
        proof {
            if var_num >= 32 {
                vstd::arithmetic::power2::lemma2_to64();
                if var_num > 32 {
                    vstd::arithmetic::power2::lemma_pow2_strictly_increases(32, var_num as nat);
                }
                assert(false);
            }
        }
        proof {
            assert(ext_vec_view(evals0) == vv0);
            assert(ext_vec_view(evals1) == vv1);
        }
        let tower0 = Self::build_tower(evals0, var_num);
        let tower1 = Self::build_tower(evals1, var_num);
        proof {
            vstd::arithmetic::power2::lemma_pow2_unfold(1);
            vstd::arithmetic::power2::lemma2_to64();
            lemma_log2_pow2(var_num as nat);
            lemma_tower_len(vv0, (var_num - 1) as nat);
            lemma_tower_len(vv1, (var_num - 1) as nat);
            assert(old(transcript).proof.bytes@ =~= old(transcript).proof.bytes@.subrange(
                0,
                old(transcript).proof.bytes@.len() as int,
            ));
        }
        let top0 = &tower0[var_num - 1];
        let top1 = &tower1[var_num - 1];
        let ghost t0v = tower_level(vv0, (var_num - 1) as nat);
        let ghost t1v = tower_level(vv1, (var_num - 1) as nat);
        proof {
            assert(ext_vec_view(*top0) == t0v);
            assert(ext_vec_view(*top1) == t1v);
            assert(top0@[0]@ == t0v[0] && top0@[1]@ == t0v[1]);
            assert(top1@[0]@ == t1v[0] && top1@[1]@ == t1v[1]);
        }
        let ghost b0 = transcript.proof.bytes@;
        transcript.append_f(top0[0]);
        proof {
            lemma_prefix_extend(old(transcript).proof.bytes@, b0, spec_ext_serialize(top0@[0]));
        }
        let ghost b1 = transcript.proof.bytes@;
        transcript.append_f(top0[1]);
        proof {
            lemma_prefix_extend(old(transcript).proof.bytes@, b1, spec_ext_serialize(top0@[1]));
        }
        let ghost b2 = transcript.proof.bytes@;
        transcript.append_f(top1[0]);
        proof {
            lemma_prefix_extend(old(transcript).proof.bytes@, b2, spec_ext_serialize(top1@[0]));
        }
        let ghost b3 = transcript.proof.bytes@;
        transcript.append_f(top1[1]);
        proof {
            lemma_prefix_extend(old(transcript).proof.bytes@, b3, spec_ext_serialize(top1@[1]));
            let tops = seq![t0v[0], t0v[1], t1v[0], t1v[1]];
            assert(crate::ext_field::ext_of_view(t0v[0]) == top0@[0]);
            assert(crate::ext_field::ext_of_view(t0v[1]) == top0@[1]);
            assert(crate::ext_field::ext_of_view(t1v[0]) == top1@[0]);
            assert(crate::ext_field::ext_of_view(t1v[1]) == top1@[1]);
            assert(tops.drop_last() =~= seq![t0v[0], t0v[1], t1v[0]]);
            assert(seq![t0v[0], t0v[1], t1v[0]].drop_last() =~= seq![t0v[0], t0v[1]]);
            assert(seq![t0v[0], t0v[1]].drop_last() =~= seq![t0v[0]]);
            assert(seq![t0v[0]].drop_last() =~= Seq::<(int, int)>::empty());
            assert(ser_views(Seq::<(int, int)>::empty()) == Seq::<u8>::empty());
            assert(ser_views(seq![t0v[0]]) == Seq::<u8>::empty() + spec_ext_serialize(
                crate::ext_field::ext_of_view(t0v[0]),
            ));
            assert(ser_views(seq![t0v[0], t0v[1]]) == ser_views(seq![t0v[0]])
                + spec_ext_serialize(crate::ext_field::ext_of_view(t0v[1])));
            assert(ser_views(seq![t0v[0], t0v[1], t1v[0]]) == ser_views(seq![t0v[0], t0v[1]])
                + spec_ext_serialize(crate::ext_field::ext_of_view(t1v[0])));
            assert(ser_views(tops) == ser_views(seq![t0v[0], t0v[1], t1v[0]])
                + spec_ext_serialize(crate::ext_field::ext_of_view(t1v[1])));
            assert(transcript.proof.bytes@ =~= ts0.0 + ser_views(tops));
            assert(ts_of(*transcript) == ts_append(ts0, ser_views(tops)));
        }
        let c0 = transcript.challenge_f();
        let mut point: Vec<Goldilocks64Ext> = Vec::new();
        point.push(c0);
        let comb = Self::product_pair();
        proof {
            reveal(prod_eq_prove_spec);
            assert(ext_vec_view(point) =~= seq![c0@]);
        }
        let mut ii: usize = var_num - 1;
        while ii > 0
            invariant
                ii <= var_num - 1,
                var_num < 32,
                vv0.len() == vstd::arithmetic::power2::pow2(var_num as nat),
                vv1.len() == vv0.len(),
                log2(vv0.len()) == var_num,
                tower0@.len() == var_num,
                tower1@.len() == var_num,
                forall|l: int|
                    0 <= l < var_num ==> (#[trigger] tower0@[l])@.len()
                        == vstd::arithmetic::power2::pow2((var_num - l) as nat) && ext_vec_wf(
                        tower0@[l],
                    ),
                forall|l: int|
                    0 <= l < var_num ==> (#[trigger] tower1@[l])@.len()
                        == vstd::arithmetic::power2::pow2((var_num - l) as nat) && ext_vec_wf(
                        tower1@[l],
                    ),
                forall|l: int|
                    0 <= l < var_num ==> ext_vec_view(#[trigger] tower0@[l]) == tower_level(
                        vv0,
                        l as nat,
                    ),
                forall|l: int|
                    0 <= l < var_num ==> ext_vec_view(#[trigger] tower1@[l]) == tower_level(
                        vv1,
                        l as nat,
                    ),
                point@.len() == var_num - ii,
                ext_vec_wf(point),
                comb.outputs@.len() == 2,
                comb.wf(5),
                comb_view(comb) == product_pair_view(),
                transcript.wf(),
                old(transcript).proof.bytes@.len() <= transcript.proof.bytes@.len(),
                old(transcript).proof.bytes@ == transcript.proof.bytes@.subrange(
                    0,
                    old(transcript).proof.bytes@.len() as int,
                ),
                transcript.proof.idx == old(transcript).proof.idx,
                ({
                    let full = prod_eq_prove_spec(vv0, vv1, var_num as nat, ts0);
                    let rest = prod_eq_prove_rounds(
                        vv0,
                        vv1,
                        var_num as nat,
                        ii as nat,
                        ext_vec_view(point),
                        ts_of(*transcript),
                    );
                    full.0 == rest.0 && full.1 == rest.1
                }),
            decreases ii,
        {
            let ghost point_pre = ext_vec_view(point);
            let ghost ts_round = ts_of(*transcript);
            let i = ii - 1;
            let eq = MultiLinearPoly::new_eq(&point);
            proof {
                vstd::arithmetic::power2::lemma_pow2_unfold((var_num - i) as nat);
                vstd::arithmetic::power2::lemma_pow2_pos((var_num - i - 1) as nat);
            }
            let level0 = &tower0[i];
            let level1 = &tower1[i];
            let ghost lvl0 = tower_level(vv0, i as nat);
            let ghost lvl1 = tower_level(vv1, i as nat);
            let half = level0.len() / 2;
            let mut evals_00: Vec<Goldilocks64Ext> = Vec::new();
            let mut evals_01: Vec<Goldilocks64Ext> = Vec::new();
            let mut evals_10: Vec<Goldilocks64Ext> = Vec::new();
            let mut evals_11: Vec<Goldilocks64Ext> = Vec::new();
            let mut j: usize = 0;
            while j < half
                invariant
                    j <= half,
                    2 * half == level0@.len(),
                    2 * half == level1@.len(),
                    ext_vec_wf(*level0),
                    ext_vec_wf(*level1),
                    lvl0 == ext_vec_view(*level0),
                    lvl1 == ext_vec_view(*level1),
                    evals_00@.len() == j,
                    evals_01@.len() == j,
                    evals_10@.len() == j,
                    evals_11@.len() == j,
                    ext_vec_wf(evals_00),
                    ext_vec_wf(evals_01),
                    ext_vec_wf(evals_10),
                    ext_vec_wf(evals_11),
                    forall|l: int| 0 <= l < j ==> (#[trigger] evals_00@[l])@ == lvl0[2 * l],
                    forall|l: int| 0 <= l < j ==> (#[trigger] evals_01@[l])@ == lvl0[2 * l + 1],
                    forall|l: int| 0 <= l < j ==> (#[trigger] evals_10@[l])@ == lvl1[2 * l],
                    forall|l: int| 0 <= l < j ==> (#[trigger] evals_11@[l])@ == lvl1[2 * l + 1],
                decreases half - j,
            {
                evals_00.push(level0[2 * j]);
                evals_01.push(level0[2 * j + 1]);
                evals_10.push(level1[2 * j]);
                evals_11.push(level1[2 * j + 1]);
                j += 1;
            }
            let ghost e00 = Seq::new((lvl0.len() / 2) as nat, |l: int| lvl0[2 * l]);
            let ghost e01 = Seq::new((lvl0.len() / 2) as nat, |l: int| lvl0[2 * l + 1]);
            let ghost e10 = Seq::new((lvl1.len() / 2) as nat, |l: int| lvl1[2 * l]);
            let ghost e11 = Seq::new((lvl1.len() / 2) as nat, |l: int| lvl1[2 * l + 1]);
            proof {
                assert(ext_vec_view(evals_00) =~= e00);
                assert(ext_vec_view(evals_01) =~= e01);
                assert(ext_vec_view(evals_10) =~= e10);
                assert(ext_vec_view(evals_11) =~= e11);
                crate::poly::lemma_eq_table_len(ext_vec_view(point));
                lemma_log2_pow2((var_num - i - 1) as nat);
            }
            let mut inputs: Vec<Vec<Goldilocks64Ext>> = Vec::new();
            inputs.push(evals_00);
            inputs.push(evals_01);
            inputs.push(evals_10);
            inputs.push(evals_11);
            inputs.push(eq.evals);
            proof {
                assert forall|l: int| 0 <= l < inputs@[4]@.len() implies (
                #[trigger] inputs@[4]@[l]).wf() by {
                    assert(ext_vec_view(inputs@[4])[l] == inputs@[4]@[l]@);
                }
                assert(inputs@[4]@.len() == ext_vec_view(inputs@[4]).len());
                assert(crate::sumcheck::evals_view(inputs@) =~= seq![
                    e00,
                    e01,
                    e10,
                    e11,
                    eq_table(point_pre),
                ]);
            }
            let ghost bcall = transcript.proof.bytes@;
            let (mut new_point, v) = Sumcheck::prove(inputs, 3, transcript, &comb);
            proof {
                lemma_prefix_trans(
                    old(transcript).proof.bytes@,
                    bcall,
                    transcript.proof.bytes@,
                );
            }
            let ghost sc = sumcheck_prove_spec(
                seq![e00, e01, e10, e11, eq_table(point_pre)],
                product_pair_view(),
                3,
                (var_num - ii) as nat,
                ts_round,
            );
            proof {
                assert(ext_vec_view(new_point) == sc.0);
                assert(ts_of(*transcript) == sc.2);
                assert(v@[0]@ == sc.1[0][0] && v@[1]@ == sc.1[1][0] && v@[2]@ == sc.1[2][0]
                    && v@[3]@ == sc.1[3][0]);
            }
            let ghost a0 = transcript.proof.bytes@;
            transcript.append_f(v[0]);
            proof {
                lemma_prefix_extend(old(transcript).proof.bytes@, a0, spec_ext_serialize(v@[0]));
            }
            let ghost a1 = transcript.proof.bytes@;
            transcript.append_f(v[1]);
            proof {
                lemma_prefix_extend(old(transcript).proof.bytes@, a1, spec_ext_serialize(v@[1]));
            }
            let ghost a2 = transcript.proof.bytes@;
            transcript.append_f(v[2]);
            proof {
                lemma_prefix_extend(old(transcript).proof.bytes@, a2, spec_ext_serialize(v@[2]));
            }
            let ghost a3 = transcript.proof.bytes@;
            transcript.append_f(v[3]);
            proof {
                lemma_prefix_extend(old(transcript).proof.bytes@, a3, spec_ext_serialize(v@[3]));
                let fins = seq![sc.1[0][0], sc.1[1][0], sc.1[2][0], sc.1[3][0]];
                assert(crate::ext_field::ext_of_view(sc.1[0][0]) == v@[0]);
                assert(crate::ext_field::ext_of_view(sc.1[1][0]) == v@[1]);
                assert(crate::ext_field::ext_of_view(sc.1[2][0]) == v@[2]);
                assert(crate::ext_field::ext_of_view(sc.1[3][0]) == v@[3]);
                assert(fins.drop_last() =~= seq![sc.1[0][0], sc.1[1][0], sc.1[2][0]]);
                assert(seq![sc.1[0][0], sc.1[1][0], sc.1[2][0]].drop_last() =~= seq![
                    sc.1[0][0],
                    sc.1[1][0],
                ]);
                assert(seq![sc.1[0][0], sc.1[1][0]].drop_last() =~= seq![sc.1[0][0]]);
                assert(seq![sc.1[0][0]].drop_last() =~= Seq::<(int, int)>::empty());
                assert(ser_views(Seq::<(int, int)>::empty()) == Seq::<u8>::empty());
                assert(ser_views(seq![sc.1[0][0]]) == Seq::<u8>::empty() + spec_ext_serialize(
                    crate::ext_field::ext_of_view(sc.1[0][0]),
                ));
                assert(ser_views(seq![sc.1[0][0], sc.1[1][0]]) == ser_views(seq![sc.1[0][0]])
                    + spec_ext_serialize(crate::ext_field::ext_of_view(sc.1[1][0])));
                assert(ser_views(seq![sc.1[0][0], sc.1[1][0], sc.1[2][0]]) == ser_views(
                    seq![sc.1[0][0], sc.1[1][0]],
                ) + spec_ext_serialize(crate::ext_field::ext_of_view(sc.1[2][0])));
                assert(ser_views(fins) == ser_views(seq![sc.1[0][0], sc.1[1][0], sc.1[2][0]])
                    + spec_ext_serialize(crate::ext_field::ext_of_view(sc.1[3][0])));
                assert(transcript.proof.bytes@ =~= a0 + ser_views(fins));
                assert(ts_of(*transcript) == ts_append(sc.2, ser_views(fins)));
            }
            let r = transcript.challenge_f();
            let mut next_point: Vec<Goldilocks64Ext> = Vec::new();
            next_point.push(r);
            let mut j: usize = 0;
            while j < new_point.len()
                invariant
                    j <= new_point@.len(),
                    next_point@.len() == j + 1,
                    next_point@[0] == r,
                    r.wf(),
                    ext_vec_wf(new_point),
                    ext_vec_wf(next_point),
                    forall|l: int| 0 <= l < j ==> next_point@[l + 1] == new_point@[l],
                decreases new_point@.len() - j,
            {
                next_point.push(new_point[j]);
                j += 1;
            }
            point = next_point;
            ii -= 1;
            proof {
                assert(ext_vec_view(point) =~= seq![r@] + sc.0);
            }
        }
        proof {
            reveal(prod_eq_prove_spec);
            lemma_tower_entry(vv0, var_num as nat, 0);
            lemma_tower_entry(vv1, var_num as nat, 0);
            lemma_tower_len(vv0, var_num as nat);
            lemma_tower_len(vv1, var_num as nat);
            vstd::arithmetic::power2::lemma2_to64();
            assert(vv0.subrange(0, vstd::arithmetic::power2::pow2(var_num as nat) as int)
                =~= vv0);
            assert(vv1.subrange(0, vstd::arithmetic::power2::pow2(var_num as nat) as int)
                =~= vv1);
        }
        point
    }

    /// One executable verifier level, pinned to `prod_eq_round_spec`.
    #[verifier::spinoff_prover]
    #[verifier::rlimit(100)]
    #[verifier::loop_isolation(true)]
    fn verify_round(
        i: usize,
        point: &Vec<Goldilocks64Ext>,
        y0: Goldilocks64Ext,
        y1: Goldilocks64Ext,
        transcript: &mut Transcript,
        proof: &mut Proof,
    ) -> (r: Option<(Vec<Goldilocks64Ext>, Goldilocks64Ext, Goldilocks64Ext)>)
        requires
            1 <= i,
            point@.len() == i,
            ext_vec_wf(*point),
            y0.wf(),
            y1.wf(),
            old(transcript).wf(),
        ensures
            final(transcript).wf(),
            final(proof).bytes@ == old(proof).bytes@,
            match prod_eq_round_spec(
                i as nat,
                ext_vec_view(*point),
                y0@,
                y1@,
                ts_of(*old(transcript)),
                old(proof).bytes@,
                old(proof).idx as int,
            ) {
                None => r is None,
                Some((point1, a, b, tsf, idxf)) => {
                    &&& r is Some
                    &&& ext_vec_view((r->0).0) == point1
                    &&& (r->0).1@ == a
                    &&& (r->0).2@ == b
                    &&& ts_of(*final(transcript)) == tsf
                    &&& final(proof).idx == idxf
                    &&& ext_vec_wf((r->0).0)
                    &&& (r->0).0@.len() == i + 1
                    &&& (r->0).1.wf()
                    &&& (r->0).2.wf()
                },
            },
    {
        let ghost pb = proof.bytes@;
        let mut yvec: Vec<Goldilocks64Ext> = Vec::new();
        yvec.push(y0);
        yvec.push(y1);
        proof {
            assert(ext_vec_view(yvec) =~= seq![y0@, y1@]);
        }
        let res = match Sumcheck::verify(yvec, 3, i, transcript, proof) {
            Some(res) => res,
            None => {
                return None;
            },
        };
        let (new_point, newy) = res;
        let ghost idx_a = proof.idx as int;
        let w0 = match proof.get_next_and_step() {
            Some(x) => x,
            None => {
                proof {
                    lemma_read_elems_snoc(pb, idx_a, 1);
                    lemma_read_elems_snoc(pb, idx_a, 0);
                }
                return None;
            },
        };
        let w1 = match proof.get_next_and_step() {
            Some(x) => x,
            None => {
                proof {
                    lemma_read_elems_snoc(pb, idx_a, 1);
                    lemma_read_elems_snoc(pb, idx_a, 0);
                }
                return None;
            },
        };
        proof {
            lemma_read_elems_snoc(pb, idx_a, 1);
            lemma_read_elems_snoc(pb, idx_a, 0);
            assert(Seq::<Goldilocks64Ext>::empty().push(w0).push(w1) =~= seq![w0, w1]);
            assert(read_elems(pb, idx_a, 2) == Some((seq![w0, w1], proof.idx as int)));
        }
        let eq_v = MultiLinearPoly::eval_eq(&new_point, point);
        if !(w0.mul(w1).mul(eq_v) == newy[0]) {
            return None;
        }
        let ghost ba = transcript.proof.bytes@;
        transcript.append_f(w0);
        transcript.append_f(w1);
        proof {
            assert(spec_as_bytes(seq![w0, w1]) == spec_as_bytes(seq![w0]) + spec_ext_serialize(w1))
                by {
                assert(seq![w0, w1].drop_last() =~= seq![w0]);
            }
            assert(spec_as_bytes(seq![w0]) == spec_as_bytes(Seq::<Goldilocks64Ext>::empty())
                + spec_ext_serialize(w0)) by {
                assert(seq![w0].drop_last() =~= Seq::<Goldilocks64Ext>::empty());
            }
            assert(transcript.proof.bytes@ =~= ba + spec_as_bytes(seq![w0, w1]));
        }
        let ghost idx_b = proof.idx as int;
        let w2 = match proof.get_next_and_step() {
            Some(x) => x,
            None => {
                proof {
                    lemma_read_elems_snoc(pb, idx_b, 1);
                    lemma_read_elems_snoc(pb, idx_b, 0);
                }
                return None;
            },
        };
        let w3 = match proof.get_next_and_step() {
            Some(x) => x,
            None => {
                proof {
                    lemma_read_elems_snoc(pb, idx_b, 1);
                    lemma_read_elems_snoc(pb, idx_b, 0);
                }
                return None;
            },
        };
        proof {
            lemma_read_elems_snoc(pb, idx_b, 1);
            lemma_read_elems_snoc(pb, idx_b, 0);
            assert(Seq::<Goldilocks64Ext>::empty().push(w2).push(w3) =~= seq![w2, w3]);
            assert(read_elems(pb, idx_b, 2) == Some((seq![w2, w3], proof.idx as int)));
        }
        if !(w2.mul(w3).mul(eq_v) == newy[1]) {
            return None;
        }
        let ghost bb = transcript.proof.bytes@;
        transcript.append_f(w2);
        transcript.append_f(w3);
        proof {
            assert(spec_as_bytes(seq![w2, w3]) == spec_as_bytes(seq![w2]) + spec_ext_serialize(w3))
                by {
                assert(seq![w2, w3].drop_last() =~= seq![w2]);
            }
            assert(spec_as_bytes(seq![w2]) == spec_as_bytes(Seq::<Goldilocks64Ext>::empty())
                + spec_ext_serialize(w2)) by {
                assert(seq![w2].drop_last() =~= Seq::<Goldilocks64Ext>::empty());
            }
            assert(transcript.proof.bytes@ =~= bb + spec_as_bytes(seq![w2, w3]));
        }
        let r = transcript.challenge_f();
        let mut next_point: Vec<Goldilocks64Ext> = Vec::new();
        next_point.push(r);
        let mut j: usize = 0;
        while j < new_point.len()
            invariant
                j <= new_point@.len(),
                next_point@.len() == j + 1,
                next_point@[0] == r,
                r.wf(),
                ext_vec_wf(new_point),
                ext_vec_wf(next_point),
                forall|l: int| 0 <= l < j ==> next_point@[l + 1] == new_point@[l],
            decreases new_point@.len() - j,
        {
            next_point.push(new_point[j]);
            j += 1;
        }
        let ny0 = w0.add(w1.sub(w0).mul(r));
        let ny1 = w2.add(w3.sub(w2).mul(r));
        proof {
            assert(ext_vec_view(next_point) =~= seq![r@] + ext_vec_view(new_point));
        }
        Some((next_point, ny0, ny1))
    }

    /// Replays the product-equality verifier; `Some` exactly when the
    /// specification-level mirror accepts, returning the final evaluation
    /// point and the two final claimed values.
    #[verifier::spinoff_prover]
    #[verifier::rlimit(100)]
    pub fn verify(var_num: usize, transcript: &mut Transcript, proof: &mut Proof) -> (r: Option<
        (Vec<Goldilocks64Ext>, Vec<Goldilocks64Ext>),
    >)
        requires
            1 <= var_num,
            old(transcript).wf(),
        ensures
            final(transcript).wf(),
            final(proof).bytes@ == old(proof).bytes@,
            match prod_eq_verify_spec(
                var_num as nat,
                ts_of(*old(transcript)),
                old(proof).bytes@,
                old(proof).idx as int,
            ) {
                None => r is None,
                Some((point, y0f, y1f, tsf, idxf)) => {
                    &&& r is Some
                    &&& ext_vec_view((r->0).0) == point
                    &&& ext_vec_view((r->0).1) == seq![y0f, y1f]
                    &&& ts_of(*final(transcript)) == tsf
                    &&& final(proof).idx == idxf
                    &&& ext_vec_wf((r->0).0)
                    &&& ext_vec_wf((r->0).1)
                    &&& (r->0).0@.len() == var_num
                    &&& (r->0).1@.len() == 2
                },
            },
    {
        let ghost ts0 = ts_of(*transcript);
        let ghost pb = proof.bytes@;
        let ghost idx0 = proof.idx as int;
        let v0 = match proof.get_next_and_step() {
            Some(x) => x,
            None => {
                return None;
            },
        };
        let v1 = match proof.get_next_and_step() {
            Some(x) => x,
            None => {
                proof {
                    lemma_read_elems_snoc(pb, idx0, 3);
                    lemma_read_elems_snoc(pb, idx0, 2);
                    lemma_read_elems_snoc(pb, idx0, 1);
                    lemma_read_elems_snoc(pb, idx0, 0);
                }
                return None;
            },
        };
        let v2 = match proof.get_next_and_step() {
            Some(x) => x,
            None => {
                proof {
                    lemma_read_elems_snoc(pb, idx0, 3);
                    lemma_read_elems_snoc(pb, idx0, 2);
                    lemma_read_elems_snoc(pb, idx0, 1);
                    lemma_read_elems_snoc(pb, idx0, 0);
                }
                return None;
            },
        };
        let v3 = match proof.get_next_and_step() {
            Some(x) => x,
            None => {
                proof {
                    lemma_read_elems_snoc(pb, idx0, 3);
                    lemma_read_elems_snoc(pb, idx0, 2);
                    lemma_read_elems_snoc(pb, idx0, 1);
                    lemma_read_elems_snoc(pb, idx0, 0);
                }
                return None;
            },
        };
        proof {
            lemma_read_elems_snoc(pb, idx0, 3);
            lemma_read_elems_snoc(pb, idx0, 2);
            lemma_read_elems_snoc(pb, idx0, 1);
            lemma_read_elems_snoc(pb, idx0, 0);
            assert(Seq::<Goldilocks64Ext>::empty().push(v0).push(v1).push(v2).push(v3) =~= seq![
                v0,
                v1,
                v2,
                v3,
            ]);
            assert(read_elems(pb, idx0, 4) == Some((seq![v0, v1, v2, v3], proof.idx as int)));
        }
        if !(v0.mul(v1) == v2.mul(v3)) {
            return None;
        }
        let ghost bpre = transcript.proof.bytes@;
        transcript.append_f(v0);
        transcript.append_f(v1);
        transcript.append_f(v2);
        transcript.append_f(v3);
        proof {
            let vs = seq![v0, v1, v2, v3];
            assert(spec_as_bytes(vs) == spec_as_bytes(seq![v0, v1, v2]) + spec_ext_serialize(v3))
                by {
                assert(seq![v0, v1, v2, v3].drop_last() =~= seq![v0, v1, v2]);
            }
            assert(spec_as_bytes(seq![v0, v1, v2]) == spec_as_bytes(seq![v0, v1])
                + spec_ext_serialize(v2)) by {
                assert(seq![v0, v1, v2].drop_last() =~= seq![v0, v1]);
            }
            assert(spec_as_bytes(seq![v0, v1]) == spec_as_bytes(seq![v0]) + spec_ext_serialize(v1))
                by {
                assert(seq![v0, v1].drop_last() =~= seq![v0]);
            }
            assert(spec_as_bytes(seq![v0]) == spec_as_bytes(Seq::<Goldilocks64Ext>::empty())
                + spec_ext_serialize(v0)) by {
                assert(seq![v0].drop_last() =~= Seq::<Goldilocks64Ext>::empty());
            }
            assert(transcript.proof.bytes@ =~= bpre + spec_as_bytes(vs));
        }
        let c0 = transcript.challenge_f();
        let mut point: Vec<Goldilocks64Ext> = Vec::new();
        point.push(c0);
        let mut y0 = v0.add(v1.sub(v0).mul(c0));
        let mut y1 = v2.add(v3.sub(v2).mul(c0));
        proof {
            assert(ext_vec_view(point) =~= seq![c0@]);
        }
        let mut i: usize = 1;
        while i < var_num
            invariant
                1 <= i <= var_num,
                point@.len() == i,
                ext_vec_wf(point),
                y0.wf(),
                y1.wf(),
                transcript.wf(),
                proof.bytes@ == pb,
                prod_eq_verify_spec(var_num as nat, ts0, pb, idx0) == prod_eq_verify_rounds(
                    i as nat,
                    var_num as nat,
                    ext_vec_view(point),
                    y0@,
                    y1@,
                    ts_of(*transcript),
                    pb,
                    proof.idx as int,
                ),
            decreases var_num - i,
        {
            let stepped = match Self::verify_round(i, &point, y0, y1, transcript, proof) {
                Some(x) => x,
                None => {
                    return None;
                },
            };
            let (next_point, ny0, ny1) = stepped;
            point = next_point;
            y0 = ny0;
            y1 = ny1;
            i += 1;
        }
        let mut ys: Vec<Goldilocks64Ext> = Vec::new();
        ys.push(y0);
        ys.push(y1);
        proof {
            assert(ext_vec_view(ys) =~= seq![y0@, y1@]);
        }
        Some((point, ys))
    }
}

} // verus!
