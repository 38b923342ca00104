//! The top-level prover: composes the circuit-relation sumcheck, the
//! permutation (product-equality) argument and the final binding sumcheck
//! into one proof byte stream, driven by the Fiat–Shamir transcript.

use crate::ext_field::Goldilocks64Ext;
use crate::field::Goldilocks64;
use crate::fiat_shamir::Proof;
use crate::fiat_shamir::Transcript;
use crate::ext_field::ext_add;
use crate::ext_field::ext_mul;
use crate::ext_field::ser_views;
use crate::ext_field::spec_ext_serialize;
use crate::sumcheck::ts_after_challenge;
use crate::sumcheck::ts_append;
use crate::sumcheck::ts_challenge_value;
use crate::sumcheck::ts_of;
use crate::verify::draw_challenges;
use crate::verify::fresh_ts;
use crate::poly::append_ext_vec;
use crate::poly::base_vec_wf;
use crate::poly::embed_base_vec;
use crate::poly::ext_vec_wf;
use crate::poly::prefix_ext_vec;
use crate::poly::base_vec_view;
use crate::poly::eq_table;
use crate::poly::ext_vec_view;
use crate::poly::ident_table;
use crate::poly::mle_eval;
use crate::poly::MultiLinearPoly;
use crate::poly_commit::PolyCommitProver;
use crate::prod_eq_check::prod_eq_prove_spec;
use crate::prod_eq_check::ProdEqCheck;
use crate::sumcheck::lemma_log2_pow2;
use crate::sumcheck::comb_view;
use crate::sumcheck::sumcheck_prove_spec;
use crate::sumcheck::Combinator;
use crate::sumcheck::Sumcheck;
use vstd::prelude::*;

verus! {

/// The prover's keys: the selector and permutation tables as multilinear
/// extensions, plus their binding through the commitment capability.
pub struct ProverKey<PC: PolyCommitProver> {
    pub selector: MultiLinearPoly,
    pub commitments: PC,
    pub permutation: Vec<MultiLinearPoly>,
}

impl<PC: PolyCommitProver> ProverKey<PC> {
    /// Shape over `2^nv` gates, every stored value canonical.
    pub open spec fn wf(&self, nv: nat) -> bool {
        &&& self.selector@.len() == vstd::arithmetic::power2::pow2(nv)
        &&& self.selector.wf()
        &&& self.permutation@.len() == 3
        &&& forall|i: int|
            0 <= i < 3 ==> (#[trigger] self.permutation@[i])@.len()
                == vstd::arithmetic::power2::pow2(nv) && self.permutation@[i].wf()
    }
}


/// The data form of the circuit-relation combinator over `(s, a, b, c, eq)`:
/// `eq*((1-s)*(a+b) + s*a*b + c)` expanded into scaled monomials.
pub open spec fn gate_combinator_view() -> Seq<Seq<(Goldilocks64Ext, Seq<usize>)>> {
    let one = Goldilocks64Ext { c0: Goldilocks64 { v: 1u64 }, c1: Goldilocks64 { v: 0u64 } };
    let minus_one = Goldilocks64Ext {
        c0: Goldilocks64 { v: 18446744069414584320u64 },
        c1: Goldilocks64 { v: 0u64 },
    };
    seq![
        seq![
            (one, seq![1usize, 4usize]),
            (one, seq![2usize, 4usize]),
            (minus_one, seq![0usize, 1usize, 4usize]),
            (minus_one, seq![0usize, 2usize, 4usize]),
            (one, seq![0usize, 1usize, 2usize, 4usize]),
            (one, seq![3usize, 4usize]),
        ],
    ]
}

/// The data form of the two-slot binding combinator `[v0*v2, v1*v3]`.
pub open spec fn point_pair_view() -> Seq<Seq<(Goldilocks64Ext, Seq<usize>)>> {
    let one = Goldilocks64Ext { c0: Goldilocks64 { v: 1u64 }, c1: Goldilocks64 { v: 0u64 } };
    seq![seq![(one, seq![0usize, 2usize])], seq![(one, seq![1usize, 3usize])]]
}

/// The whole prover as a function of the keys and the witness: the final
/// transcript state after the circuit-relation sumcheck, its four claims,
/// the copy-constraint argument over the flattened witness, the openings at
/// the reduced point, the binding sumcheck and the closing openings.  Its
/// first component is the emitted proof byte stream, and the last two are
/// the reduced opening points handed to the commitment capability.
#[verifier::opaque]
pub open spec fn prover_spec(
    selv: Seq<(int, int)>,
    p0v: Seq<(int, int)>,
    p1v: Seq<(int, int)>,
    p2v: Seq<(int, int)>,
    w0v: Seq<(int, int)>,
    w1v: Seq<(int, int)>,
    w2v: Seq<(int, int)>,
    nv: nat,
) -> (Seq<u8>, int, Seq<u8>, Seq<(int, int)>, Seq<(int, int)>) {
    let size = vstd::arithmetic::power2::pow2(nv) as int;
    let drawn = draw_challenges(fresh_ts(), nv);
    let rs = drawn.0;
    let ts1 = drawn.1;
    let sc1 = sumcheck_prove_spec(
        seq![selv, w0v, w1v, w2v, eq_table(rs)],
        gate_combinator_view(),
        4,
        nv,
        ts1,
    );
    let ts2 = ts_append(
        sc1.2,
        ser_views(seq![sc1.1[0][0], sc1.1[1][0], sc1.1[2][0], sc1.1[3][0]]),
    );
    let r1 = ts_challenge_value(ts2);
    let ts3 = ts_after_challenge(ts2);
    let r2 = ts_challenge_value(ts3);
    let ts4 = ts_after_challenge(ts3);
    let zeros = Seq::new(size as nat, |i: int| (0int, 0int));
    let wflat = w0v + w1v + w2v + zeros;
    let ident = ident_table(nv, (0int, 0int)) + ident_table(nv, (0x20000000int, 0int))
        + ident_table(nv, (0x40000000int, 0int)) + zeros;
    let pflat = p0v + p1v + p2v + zeros;
    let ev1 = Seq::new(
        (4 * size) as nat,
        |i: int| ext_add(ext_add(r1, wflat[i]), ext_mul(ident[i], r2)),
    );
    let ev2 = Seq::new(
        (4 * size) as nat,
        |i: int| ext_add(ext_add(r1, wflat[i]), ext_mul(pflat[i], r2)),
    );
    let pe = prod_eq_prove_spec(ev1, ev2, nv + 2, ts4);
    let pfx = pe.0.subrange(0, nv as int);
    let openings = seq![
        mle_eval(w0v, pfx),
        mle_eval(w1v, pfx),
        mle_eval(w2v, pfx),
        mle_eval(p0v, pfx),
        mle_eval(p1v, pfx),
        mle_eval(p2v, pfx),
    ];
    let ts5 = ts_append(pe.1, ser_views(openings));
    let r = ts_challenge_value(ts5);
    let ts6 = ts_after_challenge(ts5);
    let rr2 = ext_mul(r, r);
    let rr3 = ext_mul(rr2, r);
    let rr4 = ext_mul(rr3, r);
    let rr5 = ext_mul(rr4, r);
    let in0 = Seq::new(
        size as nat,
        |i: int|
            ext_add(
                ext_add(ext_add(selv[i], ext_mul(w0v[i], r)), ext_mul(w1v[i], rr2)),
                ext_mul(w2v[i], rr3),
            ),
    );
    let in1 = Seq::new(
        size as nat,
        |i: int|
            ext_add(
                ext_add(
                    ext_add(
                        ext_add(ext_add(p0v[i], ext_mul(p1v[i], r)), ext_mul(p2v[i], rr2)),
                        ext_mul(w0v[i], rr3),
                    ),
                    ext_mul(w1v[i], rr4),
                ),
                ext_mul(w2v[i], rr5),
            ),
    );
    let sc2 = sumcheck_prove_spec(
        seq![in0, in1, eq_table(sc1.0), eq_table(pfx)],
        point_pair_view(),
        2,
        nv,
        ts6,
    );
    let closing = seq![
        mle_eval(selv, sc2.0),
        mle_eval(p0v, sc2.0),
        mle_eval(p1v, sc2.0),
        mle_eval(p2v, sc2.0),
        mle_eval(w0v, sc2.0),
        mle_eval(w1v, sc2.0),
        mle_eval(w2v, sc2.0),
    ];
    let ts7 = ts_append(sc2.2, ser_views(closing));
    (ts7.0, ts7.1, ts7.2, pfx, sc2.0)
}

/// The top-level prover.
pub struct Prover<PC: PolyCommitProver> {
    pub prover_key: ProverKey<PC>,
}

impl<PC: PolyCommitProver> Prover<PC> {
    pub fn new(prover_key: ProverKey<PC>) -> (r: Self)
        ensures
            r.prover_key == prover_key,
    {
        Prover { prover_key }
    }

    /// Builds the full circuit argument for a witness: the circuit-relation
    /// sumcheck against a random equality polynomial, the randomized
    /// product-equality copy-constraint argument over the flattened witness
    /// with identity and permutation labels, the openings both reductions
    /// demand, and the final degree-2 sumcheck binding the two reduced
    /// points, all appended in order to a fresh transcript whose byte log is
    /// the proof.
    #[verifier::spinoff_prover]
    #[verifier::rlimit(100)]
    #[verifier::loop_isolation(true)]
    pub fn prove(&self, pp: &PC::Param, nv: usize, witness: Vec<Vec<Goldilocks64>>) -> (r: Proof)
        requires
            1 <= nv <= 25,
            self.prover_key.wf(nv as nat),
            witness@.len() == 3,
            forall|i: int|
                0 <= i < 3 ==> (#[trigger] witness@[i])@.len()
                    == vstd::arithmetic::power2::pow2(nv as nat) && base_vec_wf(witness@[i]),
        ensures
            r.idx == 0,
            ({
                let full = prover_spec(
                    self.prover_key.selector@,
                    self.prover_key.permutation@[0]@,
                    self.prover_key.permutation@[1]@,
                    self.prover_key.permutation@[2]@,
                    base_vec_view(witness@[0]),
                    base_vec_view(witness@[1]),
                    base_vec_view(witness@[2]),
                    nv as nat,
                );
                r.bytes@ == full.0 + self.prover_key.commitments.spec_open(
                    seq![full.3, full.4],
                )
            }),
    {
        let ghost selv = self.prover_key.selector@;
        let ghost p0v = self.prover_key.permutation@[0]@;
        let ghost p1v = self.prover_key.permutation@[1]@;
        let ghost p2v = self.prover_key.permutation@[2]@;
        let ghost w0v = base_vec_view(witness@[0]);
        let ghost w1v = base_vec_view(witness@[1]);
        let ghost w2v = base_vec_view(witness@[2]);
        let mut transcript = Transcript::new();
        proof {
            assert(ts_of(transcript) =~= fresh_ts()) by {
                assert(transcript.proof.bytes@ =~= Seq::<u8>::empty());
                assert(transcript.digest@ =~= crate::verify::zeros32());
            }
        }
        let size: usize = self.prover_key.selector.evals.len();
        proof {
            vstd::arithmetic::power2::lemma2_to64();
            vstd::arithmetic::power2::lemma_pow2_strictly_increases(nv as nat, 27);
            lemma_log2_pow2(nv as nat);
            assert(self.prover_key.selector@.len() == self.prover_key.selector.evals@.len());
        }
        // stage one: the circuit-relation sumcheck against eq(r, .)
        let mut rs: Vec<Goldilocks64Ext> = Vec::new();
        let mut i: usize = 0;
        proof {
            assert(ext_vec_view(rs) + draw_challenges(ts_of(transcript), nv as nat).0
                =~= draw_challenges(ts_of(transcript), nv as nat).0);
        }
        while i < nv
            invariant
                i <= nv,
                rs@.len() == i,
                ext_vec_wf(rs),
                transcript.wf(),
                transcript.proof.idx == 0,
                draw_challenges(fresh_ts(), nv as nat) == (
                    ext_vec_view(rs) + draw_challenges(ts_of(transcript), (nv - i) as nat).0,
                    draw_challenges(ts_of(transcript), (nv - i) as nat).1,
                ),
            decreases nv - i,
        {
            let ghost pre = ext_vec_view(rs);
            let ghost ts_pre = ts_of(transcript);
            let c = transcript.challenge_f();
            rs.push(c);
            i += 1;
            proof {
                let rest = draw_challenges(ts_of(transcript), (nv - i) as nat);
                assert(draw_challenges(ts_pre, (nv - i + 1) as nat) == (
                    seq![c@] + rest.0,
                    rest.1,
                ));
                assert(ext_vec_view(rs) =~= pre.push(c@));
                assert(pre + (seq![c@] + rest.0) =~= pre.push(c@) + rest.0);
            }
        }
        proof {
            assert(draw_challenges(ts_of(transcript), 0) == (
                Seq::<(int, int)>::empty(),
                ts_of(transcript),
            ));
            assert(ext_vec_view(rs) + Seq::<(int, int)>::empty() =~= ext_vec_view(rs));
            assert(ext_vec_view(rs) == draw_challenges(fresh_ts(), nv as nat).0);
            assert(ts_of(transcript) == draw_challenges(fresh_ts(), nv as nat).1);
        }
        let eq_r = MultiLinearPoly::new_eq(&rs);
        proof {
            crate::poly::lemma_eq_table_len(crate::poly::ext_vec_view(rs));
        }
        let w0 = embed_base_vec(&witness[0]);
        let w1 = embed_base_vec(&witness[1]);
        let w2 = embed_base_vec(&witness[2]);
        let sel = mle_evals_copy(&self.prover_key.selector);
        let mut gate_inputs: Vec<Vec<Goldilocks64Ext>> = Vec::new();
        gate_inputs.push(sel);
        gate_inputs.push(w0);
        gate_inputs.push(w1);
        gate_inputs.push(w2);
        gate_inputs.push(eq_r.evals);
        proof {
            assert forall|l: int| 0 <= l < gate_inputs@[4]@.len() implies (
            #[trigger] gate_inputs@[4]@[l]).wf() by {
                assert(crate::poly::ext_vec_view(gate_inputs@[4])[l] == gate_inputs@[4]@[l]@);
            }
            assert(gate_inputs@[4]@.len() == crate::poly::ext_vec_view(gate_inputs@[4]).len());
        }
        let gate_comb = gate_combinator();
        proof {
            assert(crate::sumcheck::evals_view(gate_inputs@) =~= seq![
                selv,
                w0v,
                w1v,
                w2v,
                eq_table(ext_vec_view(rs)),
            ]);
            lemma_log2_pow2(nv as nat);
        }
        let ghost ts_sc1 = ts_of(transcript);
        let (sumcheck_point, v) = Sumcheck::prove(gate_inputs, 4, &mut transcript, &gate_comb);
        let ghost sc1 = sumcheck_prove_spec(
            seq![selv, w0v, w1v, w2v, eq_table(draw_challenges(fresh_ts(), nv as nat).0)],
            gate_combinator_view(),
            4,
            nv as nat,
            ts_sc1,
        );
        proof {
            assert(ext_vec_view(sumcheck_point) == sc1.0);
            assert(ts_of(transcript) == sc1.2);
            assert(v@[0]@ == sc1.1[0][0] && v@[1]@ == sc1.1[1][0] && v@[2]@ == sc1.1[2][0]
                && v@[3]@ == sc1.1[3][0]);
        }
        let ghost bfin = transcript.proof.bytes@;
        transcript.append_f(v[0]);
        transcript.append_f(v[1]);
        transcript.append_f(v[2]);
        transcript.append_f(v[3]);
        proof {
            let fins = seq![sc1.1[0][0], sc1.1[1][0], sc1.1[2][0], sc1.1[3][0]];
            assert(crate::ext_field::ext_of_view(sc1.1[0][0]) == v@[0]);
            assert(crate::ext_field::ext_of_view(sc1.1[1][0]) == v@[1]);
            assert(crate::ext_field::ext_of_view(sc1.1[2][0]) == v@[2]);
            assert(crate::ext_field::ext_of_view(sc1.1[3][0]) == v@[3]);
            assert(fins.drop_last() =~= seq![sc1.1[0][0], sc1.1[1][0], sc1.1[2][0]]);
            assert(seq![sc1.1[0][0], sc1.1[1][0], sc1.1[2][0]].drop_last() =~= seq![
                sc1.1[0][0],
                sc1.1[1][0],
            ]);
            assert(seq![sc1.1[0][0], sc1.1[1][0]].drop_last() =~= seq![sc1.1[0][0]]);
            assert(seq![sc1.1[0][0]].drop_last() =~= Seq::<(int, int)>::empty());
            assert(ser_views(Seq::<(int, int)>::empty()) == Seq::<u8>::empty());
            assert(ser_views(seq![sc1.1[0][0]]) == Seq::<u8>::empty() + spec_ext_serialize(crate::ext_field::ext_of_view(sc1.1[0][0])));
            assert(ser_views(seq![sc1.1[0][0], sc1.1[1][0]]) == ser_views(seq![sc1.1[0][0]])
                + spec_ext_serialize(crate::ext_field::ext_of_view(sc1.1[1][0])));
            assert(ser_views(seq![sc1.1[0][0], sc1.1[1][0], sc1.1[2][0]]) == ser_views(
                seq![sc1.1[0][0], sc1.1[1][0]],
            ) + spec_ext_serialize(crate::ext_field::ext_of_view(sc1.1[2][0])));
            assert(ser_views(fins) == ser_views(seq![sc1.1[0][0], sc1.1[1][0], sc1.1[2][0]])
                + spec_ext_serialize(crate::ext_field::ext_of_view(sc1.1[3][0])));
            assert(transcript.proof.bytes@ =~= bfin + ser_views(fins));
            assert(ts_of(transcript) == ts_append(sc1.2, ser_views(fins)));
        }
        // stage two: the copy-constraint argument over the flattened witness
        let r_1 = transcript.challenge_f();
        let r_2 = transcript.challenge_f();
        let ghost ts4 = ts_of(transcript);
        let w0e = embed_base_vec(&witness[0]);
        let w1e = embed_base_vec(&witness[1]);
        let w2e = embed_base_vec(&witness[2]);
        let mut witness_flatten = w0e;
        append_ext_vec(&mut witness_flatten, &w1e);
        append_ext_vec(&mut witness_flatten, &w2e);
        let mut zeros: Vec<Goldilocks64Ext> = Vec::new();
        let mut i: usize = 0;
        while i < size
            invariant
                i <= size,
                zeros@.len() == i,
                ext_vec_wf(zeros),
                forall|l: int| 0 <= l < i ==> (#[trigger] zeros@[l])@ == (0int, 0int),
            decreases size - i,
        {
            zeros.push(Goldilocks64Ext::zero());
            i += 1;
        }
        let ghost zerosv = Seq::new(size as nat, |l: int| (0int, 0int));
        proof {
            assert(ext_vec_view(zeros) =~= zerosv);
        }
        append_ext_vec(&mut witness_flatten, &zeros);
        let id0 = MultiLinearPoly::new_identical(nv, Goldilocks64Ext::zero());
        let id1 = MultiLinearPoly::new_identical(nv, Goldilocks64Ext::from_u64(1u64 << 29));
        let id2 = MultiLinearPoly::new_identical(nv, Goldilocks64Ext::from_u64(1u64 << 30));
        proof {
            crate::poly::lemma_mle_vec_wf(id0);
            crate::poly::lemma_mle_vec_wf(id1);
            crate::poly::lemma_mle_vec_wf(id2);
        }
        let mut identical = id0.evals;
        append_ext_vec(&mut identical, &id1.evals);
        append_ext_vec(&mut identical, &id2.evals);
        append_ext_vec(&mut identical, &zeros);
        let p0 = mle_evals_copy(&self.prover_key.permutation[0]);
        let p1 = mle_evals_copy(&self.prover_key.permutation[1]);
        let p2 = mle_evals_copy(&self.prover_key.permutation[2]);
        let mut permutation = p0;
        append_ext_vec(&mut permutation, &p1);
        append_ext_vec(&mut permutation, &p2);
        append_ext_vec(&mut permutation, &zeros);
        let ghost wflat = w0v + w1v + w2v + zerosv;
        let ghost identv = ident_table(nv as nat, (0int, 0int)) + ident_table(
            nv as nat,
            (0x20000000int, 0int),
        ) + ident_table(nv as nat, (0x40000000int, 0int)) + zerosv;
        let ghost pflat = p0v + p1v + p2v + zerosv;
        proof {
            assert(identical@.len() == crate::poly::ident_table(nv as nat, (0int, 0int)).len()
                + crate::poly::ident_table(nv as nat, (0int, 0int)).len()
                + crate::poly::ident_table(nv as nat, (0int, 0int)).len() + size);
            vstd::arithmetic::div_mod::lemma_small_mod(0x20000000 as nat, crate::field::MOD as nat);
            vstd::arithmetic::div_mod::lemma_small_mod(0x40000000 as nat, crate::field::MOD as nat);
            assert((1u64 << 29) == 0x20000000u64 && (1u64 << 30) == 0x40000000u64)
                by (bit_vector);
            assert(ext_vec_view(witness_flatten) =~= wflat);
            assert(ext_vec_view(identical) =~= identv);
            assert(ext_vec_view(permutation) =~= pflat);
        }
        let full: usize = witness_flatten.len();
        let mut evals1: Vec<Goldilocks64Ext> = Vec::new();
        let mut evals2: Vec<Goldilocks64Ext> = Vec::new();
        let mut i: usize = 0;
        while i < full
            invariant
                i <= full,
                full == witness_flatten@.len(),
                full == identical@.len(),
                full == permutation@.len(),
                r_1.wf(),
                r_2.wf(),
                ext_vec_wf(witness_flatten),
                ext_vec_wf(identical),
                ext_vec_wf(permutation),
                evals1@.len() == i,
                evals2@.len() == i,
                ext_vec_wf(evals1),
                ext_vec_wf(evals2),
                wflat == ext_vec_view(witness_flatten),
                identv == ext_vec_view(identical),
                pflat == ext_vec_view(permutation),
                forall|l: int|
                    0 <= l < i ==> (#[trigger] evals1@[l])@ == ext_add(
                        ext_add(r_1@, wflat[l]),
                        ext_mul(identv[l], r_2@),
                    ),
                forall|l: int|
                    0 <= l < i ==> (#[trigger] evals2@[l])@ == ext_add(
                        ext_add(r_1@, wflat[l]),
                        ext_mul(pflat[l], r_2@),
                    ),
            decreases full - i,
        {
            evals1.push(r_1.add(witness_flatten[i]).add(identical[i].mul(r_2)));
            evals2.push(r_1.add(witness_flatten[i]).add(permutation[i].mul(r_2)));
            i += 1;
        }
        proof {
            vstd::arithmetic::power2::lemma_pow2_adds(nv as nat, 2);
            vstd::arithmetic::power2::lemma2_to64();
            assert(full == vstd::arithmetic::power2::pow2((nv + 2) as nat));
            lemma_log2_pow2((nv + 2) as nat);
        }
        let ghost ev1 = Seq::new(
            (4 * size as int) as nat,
            |l: int| ext_add(ext_add(r_1@, wflat[l]), ext_mul(identv[l], r_2@)),
        );
        let ghost ev2 = Seq::new(
            (4 * size as int) as nat,
            |l: int| ext_add(ext_add(r_1@, wflat[l]), ext_mul(pflat[l], r_2@)),
        );
        let mut prod_inputs: Vec<Vec<Goldilocks64Ext>> = Vec::new();
        prod_inputs.push(evals1);
        prod_inputs.push(evals2);
        proof {
            assert(ext_vec_view(prod_inputs@[0]) =~= ev1);
            assert(ext_vec_view(prod_inputs@[1]) =~= ev2);
            lemma_log2_pow2((nv + 2) as nat);
        }
        let prod_point = ProdEqCheck::prove(prod_inputs, &mut transcript);
        let ghost pe = prod_eq_prove_spec(ev1, ev2, (nv + 2) as nat, ts4);
        proof {
            assert(ext_vec_view(prod_point) == pe.0);
            assert(ts_of(transcript) == pe.1);
        }
        // stage three: open the witness and permutation tables at the reduced point
        let prod_prefix = prefix_ext_vec(&prod_point, nv);
        let ghost pfxv = pe.0.subrange(0, nv as int);
        proof {
            assert(ext_vec_view(prod_prefix) =~= pfxv);
        }
        let ghost openings = seq![
            mle_eval(w0v, pfxv),
            mle_eval(w1v, pfxv),
            mle_eval(w2v, pfxv),
            mle_eval(p0v, pfxv),
            mle_eval(p1v, pfxv),
            mle_eval(p2v, pfxv),
        ];
        let ghost b5 = transcript.proof.bytes@;
        let e0 = MultiLinearPoly::eval_multilinear(&witness[0], &prod_prefix);
        transcript.append_f(e0);
        let e1 = MultiLinearPoly::eval_multilinear(&witness[1], &prod_prefix);
        transcript.append_f(e1);
        let e2 = MultiLinearPoly::eval_multilinear(&witness[2], &prod_prefix);
        transcript.append_f(e2);
        let perm0 = &self.prover_key.permutation[0];
        let perm1 = &self.prover_key.permutation[1];
        let perm2 = &self.prover_key.permutation[2];
        proof {
            crate::poly::lemma_mle_vec_wf(*perm0);
            crate::poly::lemma_mle_vec_wf(*perm1);
            crate::poly::lemma_mle_vec_wf(*perm2);
        }
        let e3 = MultiLinearPoly::eval_multilinear_ext(&perm0.evals, &prod_prefix);
        transcript.append_f(e3);
        let e4 = MultiLinearPoly::eval_multilinear_ext(&perm1.evals, &prod_prefix);
        transcript.append_f(e4);
        let e5 = MultiLinearPoly::eval_multilinear_ext(&perm2.evals, &prod_prefix);
        transcript.append_f(e5);
        proof {
            assert(crate::poly::ext_vec_view(perm0.evals) =~= p0v);
            assert(crate::poly::ext_vec_view(perm1.evals) =~= p1v);
            assert(crate::poly::ext_vec_view(perm2.evals) =~= p2v);
            assert(e0@ == openings[0] && e1@ == openings[1] && e2@ == openings[2]);
            assert(e3@ == openings[3] && e4@ == openings[4] && e5@ == openings[5]);
            let s0 = Seq::<(int, int)>::empty();
            let s1 = s0.push(openings[0]);
            let s2 = s1.push(openings[1]);
            let s3 = s2.push(openings[2]);
            let s4 = s3.push(openings[3]);
            let s5 = s4.push(openings[4]);
            let s6 = s5.push(openings[5]);
            crate::ext_field::lemma_ser_views_push(s0, openings[0]);
            crate::ext_field::lemma_ser_views_push(s1, openings[1]);
            crate::ext_field::lemma_ser_views_push(s2, openings[2]);
            crate::ext_field::lemma_ser_views_push(s3, openings[3]);
            crate::ext_field::lemma_ser_views_push(s4, openings[4]);
            crate::ext_field::lemma_ser_views_push(s5, openings[5]);
            assert(s6 =~= openings);
            assert(crate::ext_field::ext_of_view(openings[0]) == e0);
            assert(crate::ext_field::ext_of_view(openings[1]) == e1);
            assert(crate::ext_field::ext_of_view(openings[2]) == e2);
            assert(crate::ext_field::ext_of_view(openings[3]) == e3);
            assert(crate::ext_field::ext_of_view(openings[4]) == e4);
            assert(crate::ext_field::ext_of_view(openings[5]) == e5);
            assert(transcript.proof.bytes@ =~= b5 + ser_views(openings));
            assert(ts_of(transcript) == ts_append(pe.1, ser_views(openings)));
        }
        // stage four: the final degree-2 sumcheck binding the two reduced points
        let r = transcript.challenge_f();
        let ghost ts6 = ts_of(transcript);
        let r2 = r.mul(r);
        let r3 = r2.mul(r);
        let r4 = r3.mul(r);
        let r5 = r4.mul(r);
        let sel2 = mle_evals_copy(&self.prover_key.selector);
        let pa = mle_evals_copy(&self.prover_key.permutation[0]);
        let pb = mle_evals_copy(&self.prover_key.permutation[1]);
        let pc = mle_evals_copy(&self.prover_key.permutation[2]);
        let wa = embed_base_vec(&witness[0]);
        let wb = embed_base_vec(&witness[1]);
        let wc = embed_base_vec(&witness[2]);
        let mut in0: Vec<Goldilocks64Ext> = Vec::new();
        let mut in1: Vec<Goldilocks64Ext> = Vec::new();
        let mut i: usize = 0;
        while i < size
            invariant
                i <= size,
                size == sel2@.len(),
                size == pa@.len(),
                size == pb@.len(),
                size == pc@.len(),
                size == wa@.len(),
                size == wb@.len(),
                size == wc@.len(),
                r.wf(),
                r2.wf(),
                r3.wf(),
                r4.wf(),
                r5.wf(),
                ext_vec_wf(sel2),
                ext_vec_wf(pa),
                ext_vec_wf(pb),
                ext_vec_wf(pc),
                ext_vec_wf(wa),
                ext_vec_wf(wb),
                ext_vec_wf(wc),
                in0@.len() == i,
                in1@.len() == i,
                ext_vec_wf(in0),
                ext_vec_wf(in1),
                ext_vec_view(sel2) == selv,
                ext_vec_view(pa) == p0v,
                ext_vec_view(pb) == p1v,
                ext_vec_view(pc) == p2v,
                ext_vec_view(wa) == w0v,
                ext_vec_view(wb) == w1v,
                ext_vec_view(wc) == w2v,
                forall|l: int|
                    0 <= l < i ==> (#[trigger] in0@[l])@ == ext_add(
                        ext_add(ext_add(selv[l], ext_mul(w0v[l], r@)), ext_mul(w1v[l], r2@)),
                        ext_mul(w2v[l], r3@),
                    ),
                forall|l: int|
                    0 <= l < i ==> (#[trigger] in1@[l])@ == ext_add(
                        ext_add(
                            ext_add(
                                ext_add(ext_add(p0v[l], ext_mul(p1v[l], r@)), ext_mul(p2v[l], r2@)),
                                ext_mul(w0v[l], r3@),
                            ),
                            ext_mul(w1v[l], r4@),
                        ),
                        ext_mul(w2v[l], r5@),
                    ),
            decreases size - i,
        {
            in0.push(sel2[i].add(wa[i].mul(r)).add(wb[i].mul(r2)).add(wc[i].mul(r3)));
            in1.push(
                pa[i].add(pb[i].mul(r)).add(pc[i].mul(r2)).add(wa[i].mul(r3)).add(
                    wb[i].mul(r4),
                ).add(wc[i].mul(r5)),
            );
            i += 1;
        }
        let eq_sc = MultiLinearPoly::new_eq(&sumcheck_point);
        let eq_prod = MultiLinearPoly::new_eq(&prod_prefix);
        proof {
            crate::poly::lemma_eq_table_len(crate::poly::ext_vec_view(sumcheck_point));
            crate::poly::lemma_eq_table_len(crate::poly::ext_vec_view(prod_prefix));
        }
        let mut final_inputs: Vec<Vec<Goldilocks64Ext>> = Vec::new();
        final_inputs.push(in0);
        final_inputs.push(in1);
        final_inputs.push(eq_sc.evals);
        final_inputs.push(eq_prod.evals);
        proof {
            assert forall|l: int| 0 <= l < final_inputs@[2]@.len() implies (
            #[trigger] final_inputs@[2]@[l]).wf() by {
                assert(crate::poly::ext_vec_view(final_inputs@[2])[l] == final_inputs@[2]@[l]@);
            }
            assert(final_inputs@[2]@.len() == crate::poly::ext_vec_view(final_inputs@[2]).len());
            assert forall|l: int| 0 <= l < final_inputs@[3]@.len() implies (
            #[trigger] final_inputs@[3]@[l]).wf() by {
                assert(crate::poly::ext_vec_view(final_inputs@[3])[l] == final_inputs@[3]@[l]@);
            }
            assert(final_inputs@[3]@.len() == crate::poly::ext_vec_view(final_inputs@[3]).len());
        }
        let ghost in0v = Seq::new(
            size as nat,
            |l: int|
                ext_add(
                    ext_add(ext_add(selv[l], ext_mul(w0v[l], r@)), ext_mul(w1v[l], r2@)),
                    ext_mul(w2v[l], r3@),
                ),
        );
        let ghost in1v = Seq::new(
            size as nat,
            |l: int|
                ext_add(
                    ext_add(
                        ext_add(
                            ext_add(ext_add(p0v[l], ext_mul(p1v[l], r@)), ext_mul(p2v[l], r2@)),
                            ext_mul(w0v[l], r3@),
                        ),
                        ext_mul(w1v[l], r4@),
                    ),
                    ext_mul(w2v[l], r5@),
                ),
        );
        let pair_comb = point_pair_combinator();
        proof {
            assert(ext_vec_view(final_inputs@[0]) =~= in0v);
            assert(ext_vec_view(final_inputs@[1]) =~= in1v);
            assert(ext_vec_view(final_inputs@[2]) =~= eq_table(sc1.0));
            assert(ext_vec_view(final_inputs@[3]) =~= eq_table(pfxv));
            assert(crate::sumcheck::evals_view(final_inputs@) =~= seq![
                in0v,
                in1v,
                eq_table(sc1.0),
                eq_table(pfxv),
            ]);
            lemma_log2_pow2(nv as nat);
        }
        let (point, _sc_evals) = Sumcheck::prove(final_inputs, 2, &mut transcript, &pair_comb);
        let ghost sc2 = sumcheck_prove_spec(
            seq![in0v, in1v, eq_table(sc1.0), eq_table(pfxv)],
            point_pair_view(),
            2,
            nv as nat,
            ts6,
        );
        proof {
            assert(ext_vec_view(point) == sc2.0);
            assert(ts_of(transcript) == sc2.2);
        }
        // stage five: open everything at the final point
        let ghost closing = seq![
            mle_eval(selv, sc2.0),
            mle_eval(p0v, sc2.0),
            mle_eval(p1v, sc2.0),
            mle_eval(p2v, sc2.0),
            mle_eval(w0v, sc2.0),
            mle_eval(w1v, sc2.0),
            mle_eval(w2v, sc2.0),
        ];
        let ghost b7 = transcript.proof.bytes@;
        let sel3 = &self.prover_key.selector;
        let cperm0 = &self.prover_key.permutation[0];
        let cperm1 = &self.prover_key.permutation[1];
        let cperm2 = &self.prover_key.permutation[2];
        proof {
            crate::poly::lemma_mle_vec_wf(*sel3);
            crate::poly::lemma_mle_vec_wf(*cperm0);
            crate::poly::lemma_mle_vec_wf(*cperm1);
            crate::poly::lemma_mle_vec_wf(*cperm2);
        }
        let f0 = MultiLinearPoly::eval_multilinear_ext(&sel3.evals, &point);
        transcript.append_f(f0);
        let f1 = MultiLinearPoly::eval_multilinear_ext(&cperm0.evals, &point);
        transcript.append_f(f1);
        let f2 = MultiLinearPoly::eval_multilinear_ext(&cperm1.evals, &point);
        transcript.append_f(f2);
        let f3 = MultiLinearPoly::eval_multilinear_ext(&cperm2.evals, &point);
        transcript.append_f(f3);
        let f4 = MultiLinearPoly::eval_multilinear(&witness[0], &point);
        transcript.append_f(f4);
        let f5 = MultiLinearPoly::eval_multilinear(&witness[1], &point);
        transcript.append_f(f5);
        let f6 = MultiLinearPoly::eval_multilinear(&witness[2], &point);
        transcript.append_f(f6);
        proof {
            assert(crate::poly::ext_vec_view(sel3.evals) =~= selv);
            assert(crate::poly::ext_vec_view(cperm0.evals) =~= p0v);
            assert(crate::poly::ext_vec_view(cperm1.evals) =~= p1v);
            assert(crate::poly::ext_vec_view(cperm2.evals) =~= p2v);
            assert(f0@ == closing[0] && f1@ == closing[1] && f2@ == closing[2]);
            assert(f3@ == closing[3] && f4@ == closing[4] && f5@ == closing[5]);
            assert(f6@ == closing[6]);
            let s0 = Seq::<(int, int)>::empty();
            let s1 = s0.push(closing[0]);
            let s2 = s1.push(closing[1]);
            let s3 = s2.push(closing[2]);
            let s4 = s3.push(closing[3]);
            let s5 = s4.push(closing[4]);
            let s6 = s5.push(closing[5]);
            let s7 = s6.push(closing[6]);
            crate::ext_field::lemma_ser_views_push(s0, closing[0]);
            crate::ext_field::lemma_ser_views_push(s1, closing[1]);
            crate::ext_field::lemma_ser_views_push(s2, closing[2]);
            crate::ext_field::lemma_ser_views_push(s3, closing[3]);
            crate::ext_field::lemma_ser_views_push(s4, closing[4]);
            crate::ext_field::lemma_ser_views_push(s5, closing[5]);
            crate::ext_field::lemma_ser_views_push(s6, closing[6]);
            assert(s7 =~= closing);
            assert(crate::ext_field::ext_of_view(closing[0]) == f0);
            assert(crate::ext_field::ext_of_view(closing[1]) == f1);
            assert(crate::ext_field::ext_of_view(closing[2]) == f2);
            assert(crate::ext_field::ext_of_view(closing[3]) == f3);
            assert(crate::ext_field::ext_of_view(closing[4]) == f4);
            assert(crate::ext_field::ext_of_view(closing[5]) == f5);
            assert(crate::ext_field::ext_of_view(closing[6]) == f6);
            assert(transcript.proof.bytes@ =~= b7 + ser_views(closing));
            assert(ts_of(transcript) == ts_append(sc2.2, ser_views(closing)));
        }
        let ghost full = prover_spec(selv, p0v, p1v, p2v, w0v, w1v, w2v, nv as nat);
        proof {
            reveal(prover_spec);
            assert(transcript.proof.bytes@ == full.0);
            assert(full.3 == pfxv && full.4 == sc2.0);
        }
        // hand the two reduced opening points to the commitment capability
        let pfx_copy = prefix_ext_vec(&prod_prefix, nv);
        let point_copy = prefix_ext_vec(&point, nv);
        let mut open_points: Vec<Vec<Goldilocks64Ext>> = Vec::new();
        open_points.push(pfx_copy);
        open_points.push(point_copy);
        proof {
            assert(prod_prefix@.subrange(0, nv as int) =~= prod_prefix@);
            assert(point@.subrange(0, nv as int) =~= point@);
            assert(ext_vec_view(open_points@[0]) =~= pfxv);
            assert(ext_vec_view(open_points@[1]) =~= sc2.0);
            assert(crate::sumcheck::evals_view(open_points@) =~= seq![full.3, full.4]);
        }
        PC::open(pp, &self.prover_key.commitments, &open_points, &mut transcript);
        transcript.proof
    }
}

/// The sum-of-monomials form of the circuit relation
/// `eq * ((1 - s) * (a + b) + s * a * b + c)` into scaled monomials over the
/// inputs `(s, a, b, c, eq)`.
fn gate_combinator() -> (r: Combinator)
    ensures
        r.outputs@.len() == 1,
        r.wf(5),
        comb_view(r) == gate_combinator_view(),
{
    let one = Goldilocks64Ext::one();
    let minus_one = Goldilocks64Ext::one().neg();
    let mut terms: Vec<(Goldilocks64Ext, Vec<usize>)> = Vec::new();
    let mut m1: Vec<usize> = Vec::new();
    m1.push(1);
    m1.push(4);
    terms.push((one, m1));
    let mut m2: Vec<usize> = Vec::new();
    m2.push(2);
    m2.push(4);
    terms.push((one, m2));
    let mut m3: Vec<usize> = Vec::new();
    m3.push(0);
    m3.push(1);
    m3.push(4);
    terms.push((minus_one, m3));
    let mut m4: Vec<usize> = Vec::new();
    m4.push(0);
    m4.push(2);
    m4.push(4);
    terms.push((minus_one, m4));
    let mut m5: Vec<usize> = Vec::new();
    m5.push(0);
    m5.push(1);
    m5.push(2);
    m5.push(4);
    terms.push((one, m5));
    let mut m6: Vec<usize> = Vec::new();
    m6.push(3);
    m6.push(4);
    terms.push((one, m6));
    let mut outputs: Vec<Vec<(Goldilocks64Ext, Vec<usize>)>> = Vec::new();
    outputs.push(terms);
    let r = Combinator { outputs };
    proof {
        assert(r.outputs@[0]@[0].1@ =~= seq![1usize, 4usize]);
        assert(r.outputs@[0]@[1].1@ =~= seq![2usize, 4usize]);
        assert(r.outputs@[0]@[2].1@ =~= seq![0usize, 1usize, 4usize]);
        assert(r.outputs@[0]@[3].1@ =~= seq![0usize, 2usize, 4usize]);
        assert(r.outputs@[0]@[4].1@ =~= seq![0usize, 1usize, 2usize, 4usize]);
        assert(r.outputs@[0]@[5].1@ =~= seq![3usize, 4usize]);
        assert(Combinator::term_view(r.outputs@[0]) =~= gate_combinator_view()[0]);
        assert(comb_view(r) =~= gate_combinator_view());
    }
    r
}

/// The two-slot degree-2 combinator `[v0*v2, v1*v3]` that binds two reduced
/// points at once.
fn point_pair_combinator() -> (r: Combinator)
    ensures
        r.outputs@.len() == 2,
        r.wf(4),
        comb_view(r) == point_pair_view(),
{
    let one = Goldilocks64Ext::one();
    let mut ma: Vec<usize> = Vec::new();
    ma.push(0);
    ma.push(2);
    let mut terms0: Vec<(Goldilocks64Ext, Vec<usize>)> = Vec::new();
    terms0.push((one, ma));
    let mut mb: Vec<usize> = Vec::new();
    mb.push(1);
    mb.push(3);
    let mut terms1: Vec<(Goldilocks64Ext, Vec<usize>)> = Vec::new();
    terms1.push((one, mb));
    let mut outputs: Vec<Vec<(Goldilocks64Ext, Vec<usize>)>> = Vec::new();
    outputs.push(terms0);
    outputs.push(terms1);
    let r = Combinator { outputs };
    proof {
        assert(r.outputs@[0]@[0].1@ =~= seq![0usize, 2usize]);
        assert(r.outputs@[1]@[0].1@ =~= seq![1usize, 3usize]);
        assert(Combinator::term_view(r.outputs@[0]) =~= point_pair_view()[0]);
        assert(Combinator::term_view(r.outputs@[1]) =~= point_pair_view()[1]);
        assert(comb_view(r) =~= point_pair_view());
    }
    r
}

/// A copy of a multilinear table's evaluations.
fn mle_evals_copy(p: &MultiLinearPoly) -> (r: Vec<Goldilocks64Ext>)
    requires
        p.wf(),
    ensures
        r@ == p.evals@,
        r@.len() == p@.len(),
        ext_vec_wf(r),
{
    let mut r: Vec<Goldilocks64Ext> = Vec::new();
    let mut i: usize = 0;
    proof {
        assert(p@.len() == p.evals@.len());
    }
    while i < p.evals.len()
        invariant
            i <= p.evals@.len(),
            p.wf(),
            r@.len() == i,
            forall|j: int| 0 <= j < i ==> r@[j] == p.evals@[j],
            ext_vec_wf(r),
        decreases p.evals@.len() - i,
    {
        let e = p.evals[i];
        proof {
            assert(p@[i as int] == p.evals@[i as int]@);
        }
        r.push(e);
        i += 1;
    }
    proof {
        assert(r@ =~= p.evals@);
    }
    r
}

} // verus!
