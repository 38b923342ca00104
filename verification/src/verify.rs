//! The top-level verifier: replays every reduction of the prover from the
//! proof byte stream with transcript-derived challenges and rejects on any
//! mismatch.  Acceptance is pinned to a specification-level mirror, so the
//! verdict is a deterministic function of the proof bytes alone.

use crate::ext_field::ext_add;
use crate::ext_field::ext_mul;
use crate::ext_field::ext_one;
use crate::ext_field::ext_sub;
use crate::ext_field::ext_zero;
use crate::ext_field::spec_as_bytes;
use crate::ext_field::Goldilocks64Ext;
use crate::fiat_shamir::Proof;
use crate::fiat_shamir::Transcript;
use crate::poly::eq_eval;
use crate::poly::ext_vec_view;
use crate::poly::ext_vec_wf;
use crate::poly::ident_eval;
use crate::poly::mle_eval;
use crate::poly::prefix_ext_vec;
use crate::poly::suffix_ext_vec;
use crate::poly::MultiLinearPoly;
use crate::poly_commit::PolyCommitVerifier;
use crate::prod_eq_check::prod_eq_verify_spec;
use crate::prod_eq_check::ProdEqCheck;
use crate::sumcheck::append_field_elems;
use crate::sumcheck::read_field_elems;
use crate::sumcheck::read_elems;
use crate::sumcheck::sumcheck_verify_spec;
use crate::sumcheck::ts_after_challenge;
use crate::sumcheck::ts_append;
use crate::sumcheck::ts_challenge_value;
use crate::sumcheck::ts_of;
use crate::sumcheck::Sumcheck;
use vstd::prelude::*;

verus! {

/// The verifier's key: the commitment to the selector and permutation
/// columns.
pub struct VerifierKey<PC: PolyCommitVerifier> {
    pub commitment: PC,
}

/// The top-level verifier.
pub struct Verifier<PC: PolyCommitVerifier> {
    pub verifier_key: VerifierKey<PC>,
}

impl<PC: PolyCommitVerifier> Verifier<PC> {
    pub fn new(verifier_key: VerifierKey<PC>) -> (r: Self)
        ensures
            r.verifier_key == verifier_key,
    {
        Verifier { verifier_key }
    }
}

} // verus!

verus! {

/// The all-zero digest of a fresh transcript.
pub open spec fn zeros32() -> Seq<u8> {
    Seq::new(32, |i: int| 0u8)
}

/// The state of a fresh transcript.
pub open spec fn fresh_ts() -> (Seq<u8>, int, Seq<u8>) {
    (Seq::<u8>::empty(), 0int, zeros32())
}

/// Drawing `n` consecutive challenges from a transcript state.
pub open spec fn draw_challenges(ts: (Seq<u8>, int, Seq<u8>), n: nat) -> (
    Seq<(int, int)>,
    (Seq<u8>, int, Seq<u8>),
)
    decreases n,
{
    if n == 0 {
        (Seq::<(int, int)>::empty(), ts)
    } else {
        let c = ts_challenge_value(ts);
        let ts1 = ts_after_challenge(ts);
        let r = draw_challenges(ts1, (n - 1) as nat);
        (seq![c] + r.0, r.1)
    }
}

/// The binding stage of the verifier's mirror: one more challenge folds the
/// gate claims and the copy-constraint openings into two carried values, a
/// degree-2 sumcheck reduces both to one final point, and the closing stage
/// checks the final openings there.
#[verifier::opaque]
pub open spec fn verifier_bind<PC: PolyCommitVerifier>(
    pc: PC,
    nv: nat,
    pbytes: Seq<u8>,
    s: (int, int),
    cw0: (int, int),
    cw1: (int, int),
    cw2: (int, int),
    sc_point: Seq<(int, int)>,
    pfx: Seq<(int, int)>,
    we0: (int, int),
    we1: (int, int),
    we2: (int, int),
    pe0: (int, int),
    pe1: (int, int),
    pe2: (int, int),
    ts: (Seq<u8>, int, Seq<u8>),
    idx: int,
) -> bool {
    let r = ts_challenge_value(ts);
    let ts2 = ts_after_challenge(ts);
    let ys0 = ext_add(
        s,
        ext_mul(r, ext_add(cw0, ext_mul(r, ext_add(cw1, ext_mul(r, cw2))))),
    );
    let ys1 = ext_add(
        pe0,
        ext_mul(
            r,
            ext_add(
                pe1,
                ext_mul(
                    r,
                    ext_add(
                        pe2,
                        ext_mul(
                            r,
                            ext_add(
                                we0,
                                ext_mul(r, ext_add(we1, ext_mul(r, we2))),
                            ),
                        ),
                    ),
                ),
            ),
        ),
    );
    match sumcheck_verify_spec(seq![ys0, ys1], 2, nv, ts2, pbytes, idx) {
        None => false,
        Some((point, fy, ts3, idx2)) => verifier_final(
            pc,
            pbytes,
            r,
            sc_point,
            pfx,
            point,
            fy,
            idx2,
        ),
    }
}

/// The closing stage of the verifier's mirror: the seven final openings,
/// the two consistency checks that bind them to the reduced claims, and the
/// commitment capability's verdict on those openings.
#[verifier::opaque]
pub open spec fn verifier_final<PC: PolyCommitVerifier>(
    pc: PC,
    pbytes: Seq<u8>,
    r: (int, int),
    sc_point: Seq<(int, int)>,
    pfx: Seq<(int, int)>,
    point: Seq<(int, int)>,
    fy: Seq<(int, int)>,
    idx: int,
) -> bool {
    match read_elems(pbytes, idx, 7) {
        None => false,
        Some((fs, idx3)) => {
            let sp = fs[0]@;
            let pp0 = fs[1]@;
            let pp1 = fs[2]@;
            let pp2 = fs[3]@;
            let wp0 = fs[4]@;
            let wp1 = fs[5]@;
            let wp2 = fs[6]@;
            let lhs0 = ext_mul(
                ext_add(
                    ext_mul(
                        ext_add(
                            ext_mul(ext_add(ext_mul(wp2, r), wp1), r),
                            wp0,
                        ),
                        r,
                    ),
                    sp,
                ),
                eq_eval(sc_point, point),
            );
            let lhs1 = ext_mul(
                ext_add(
                    ext_mul(
                        ext_add(
                            ext_mul(
                                ext_add(
                                    ext_mul(
                                        ext_add(
                                            ext_mul(
                                                ext_add(
                                                    ext_mul(wp2, r),
                                                    wp1,
                                                ),
                                                r,
                                            ),
                                            wp0,
                                        ),
                                        r,
                                    ),
                                    pp2,
                                ),
                                r,
                            ),
                            pp1,
                        ),
                        r,
                    ),
                    pp0,
                ),
                eq_eval(pfx, point),
            );
            lhs0 == fy[0] && lhs1 == fy[1] && pc.spec_verify(
                seq![pfx, point],
                fs.map_values(|e: Goldilocks64Ext| e@),
            )
        },
    }
}

/// The tail of the verifier's mirror, from the copy-constraint openings on:
/// the two permutation-side evaluation checks, the final binding sumcheck,
/// and the two closing consistency checks on the final openings.
#[verifier::opaque]
pub open spec fn verifier_tail<PC: PolyCommitVerifier>(
    pc: PC,
    nv: nat,
    pbytes: Seq<u8>,
    s: (int, int),
    cw0: (int, int),
    cw1: (int, int),
    cw2: (int, int),
    sc_point: Seq<(int, int)>,
    r1: (int, int),
    r2: (int, int),
    prod_point: Seq<(int, int)>,
    y0: (int, int),
    y1: (int, int),
    ts: (Seq<u8>, int, Seq<u8>),
    idx: int,
) -> bool {
    match read_elems(pbytes, idx, 6) {
        None => false,
        Some((es, idx1)) => {
            let ts1 = ts_append(ts, spec_as_bytes(es));
            let we0 = es[0]@;
            let we1 = es[1]@;
            let we2 = es[2]@;
            let pe0 = es[3]@;
            let pe1 = es[4]@;
            let pe2 = es[5]@;
            let pfx = prod_point.subrange(0, nv as int);
            let sfx = prod_point.subrange(nv as int, prod_point.len() as int);
            let va0 = ext_add(ext_add(ext_mul(r2, ident_eval(pfx, (0int, 0int))), r1), we0);
            let va1 = ext_add(
                ext_add(ext_mul(r2, ident_eval(pfx, (0x20000000int, 0int))), r1),
                we1,
            );
            let va2 = ext_add(
                ext_add(ext_mul(r2, ident_eval(pfx, (0x40000000int, 0int))), r1),
                we2,
            );
            if mle_eval(seq![va0, va1, va2, r1], sfx) == y0 {
                let vb0 = ext_add(ext_add(r1, we0), ext_mul(r2, pe0));
                let vb1 = ext_add(ext_add(r1, we1), ext_mul(r2, pe1));
                let vb2 = ext_add(ext_add(r1, we2), ext_mul(r2, pe2));
                if mle_eval(seq![vb0, vb1, vb2, r1], sfx) == y1 {
                    verifier_bind(
                        pc,
                        nv,
                        pbytes,
                        s,
                        cw0,
                        cw1,
                        cw2,
                        sc_point,
                        pfx,
                        we0,
                        we1,
                        we2,
                        pe0,
                        pe1,
                        pe2,
                        ts1,
                        idx1,
                    )
                } else {
                    false
                }
            } else {
                false
            }
        },
    }
}

/// The whole verifier as a boolean function of the proof bytes: replay the
/// circuit-relation sumcheck, its final claims, the copy-constraint argument
/// and the binding sumcheck, rejecting on any mismatch.
pub open spec fn verifier_accepts<PC: PolyCommitVerifier>(
    pc: PC,
    nv: nat,
    pbytes: Seq<u8>,
    idx: int,
) -> bool {
    let drawn = draw_challenges(fresh_ts(), nv);
    let rs = drawn.0;
    let ts1 = drawn.1;
    match sumcheck_verify_spec(seq![ext_zero()], 4, nv, ts1, pbytes, idx) {
        None => false,
        Some((sc_point, claim_y, ts2, idx2)) => match read_elems(pbytes, idx2, 4) {
            None => false,
            Some((claims, idx3)) => {
                let s = claims[0]@;
                let cw0 = claims[1]@;
                let cw1 = claims[2]@;
                let cw2 = claims[3]@;
                let ts3 = ts_append(ts2, spec_as_bytes(claims));
                let eq_v = eq_eval(rs, sc_point);
                if ext_mul(
                    ext_add(
                        ext_add(
                            ext_mul(ext_sub(ext_one(), s), ext_add(cw0, cw1)),
                            ext_mul(s, ext_mul(cw0, cw1)),
                        ),
                        cw2,
                    ),
                    eq_v,
                ) == claim_y[0] {
                    let r1 = ts_challenge_value(ts3);
                    let ts4 = ts_after_challenge(ts3);
                    let r2 = ts_challenge_value(ts4);
                    let ts5 = ts_after_challenge(ts4);
                    match prod_eq_verify_spec((nv + 2) as nat, ts5, pbytes, idx3) {
                        None => false,
                        Some((prod_point, y0, y1, ts6, idx4)) => verifier_tail(
                            pc,
                            nv,
                            pbytes,
                            s,
                            cw0,
                            cw1,
                            cw2,
                            sc_point,
                            r1,
                            r2,
                            prod_point,
                            y0,
                            y1,
                            ts6,
                            idx4,
                        ),
                    }
                } else {
                    false
                }
            },
        },
    }
}

/// Verification is deterministic: two verdicts derived from the same proof
/// bytes and starting state are always the same.
pub proof fn lemma_verify_idempotent<PC: PolyCommitVerifier>(
    pc: PC,
    r1: bool,
    r2: bool,
    nv: nat,
    pbytes: Seq<u8>,
    idx: int,
)
    requires
        r1 == verifier_accepts(pc, nv, pbytes, idx),
        r2 == verifier_accepts(pc, nv, pbytes, idx),
    ensures
        r1 == r2,
{
}

impl<PC: PolyCommitVerifier> Verifier<PC> {
    /// Replays every check of the argument from the proof bytes with a
    /// fresh transcript; returns exactly what the specification-level
    /// mirror returns.
    #[verifier::spinoff_prover]
    #[verifier::rlimit(100)]
    #[verifier::loop_isolation(true)]
    pub fn verify(&self, vp: &PC::Param, nv: usize, proof: Proof) -> (r: bool)
        requires
            1 <= nv <= 25,
        ensures
            r == verifier_accepts(
                self.verifier_key.commitment,
                nv as nat,
                proof.bytes@,
                proof.idx as int,
            ),
    {
        let ghost pb = proof.bytes@;
        let ghost idx0 = proof.idx as int;
        let mut proof = proof;
        let mut transcript = Transcript::new();
        proof {
            assert(ts_of(transcript) =~= fresh_ts()) by {
                assert(transcript.proof.bytes@ =~= Seq::<u8>::empty());
                assert(transcript.digest@ =~= zeros32());
            }
        }
        let mut rs: Vec<Goldilocks64Ext> = Vec::new();
        let mut i: usize = 0;
        proof {
            assert(ext_vec_view(rs) + draw_challenges(ts_of(transcript), nv as nat).0
                =~= draw_challenges(ts_of(transcript), nv as nat).0);
        }
        while i < nv
            invariant
                i <= nv,
                rs@.len() == i,
                ext_vec_wf(rs),
                transcript.wf(),
                proof.bytes@ == pb,
                proof.idx as int == idx0,
                draw_challenges(fresh_ts(), nv as nat) == (
                    ext_vec_view(rs) + draw_challenges(ts_of(transcript), (nv - i) as nat).0,
                    draw_challenges(ts_of(transcript), (nv - i) as nat).1,
                ),
            decreases nv - i,
        {
            let ghost pre = ext_vec_view(rs);
            let ghost ts_pre = ts_of(transcript);
            let c = transcript.challenge_f();
            rs.push(c);
            i += 1;
            proof {
                let rest = draw_challenges(ts_of(transcript), (nv - i) as nat);
                assert(draw_challenges(ts_pre, (nv - i + 1) as nat) == (
                    seq![c@] + rest.0,
                    rest.1,
                ));
                assert(ext_vec_view(rs) =~= pre.push(c@));
                assert(pre + (seq![c@] + rest.0) =~= pre.push(c@) + rest.0);
            }
        }
        proof {
            assert(draw_challenges(ts_of(transcript), 0) == (
                Seq::<(int, int)>::empty(),
                ts_of(transcript),
            ));
            assert(ext_vec_view(rs) + Seq::<(int, int)>::empty() =~= ext_vec_view(rs));
        }
        // stage one: the circuit-relation sumcheck, claimed total zero
        let mut zero_y: Vec<Goldilocks64Ext> = Vec::new();
        zero_y.push(Goldilocks64Ext::zero());
        proof {
            assert(ext_vec_view(zero_y) =~= seq![ext_zero()]);
        }
        let res = match Sumcheck::verify(zero_y, 4, nv, &mut transcript, &mut proof) {
            Some(x) => x,
            None => {
                return false;
            },
        };
        let (sumcheck_point, claim_y) = res;
        // stage two: the four claimed openings of the constraint columns
        let claims = match read_field_elems(&mut proof, 4) {
            Some(x) => x,
            None => {
                return false;
            },
        };
        let claim_s = claims[0];
        let claim_w0 = claims[1];
        let claim_w1 = claims[2];
        let claim_w2 = claims[3];
        proof {
            assert(claims@ =~= seq![claim_s, claim_w0, claim_w1, claim_w2]);
        }
        append_field_elems(&mut transcript, &claims);
        // stage three: the circuit-relation consistency check
        let eq_v = MultiLinearPoly::eval_eq(&rs, &sumcheck_point);
        let gate = Goldilocks64Ext::one().sub(claim_s).mul(claim_w0.add(claim_w1)).add(
            claim_s.mul(claim_w0.mul(claim_w1)),
        ).add(claim_w2).mul(eq_v);
        if !(gate == claim_y[0]) {
            return false;
        }
        // stage four: the copy-constraint argument
        let r_1 = transcript.challenge_f();
        let r_2 = transcript.challenge_f();
        let res = match ProdEqCheck::verify(nv + 2, &mut transcript, &mut proof) {
            Some(x) => x,
            None => {
                return false;
            },
        };
        let (prod_point, prod_y) = res;
        let ok = Self::verify_tail(
            vp,
            &self.verifier_key.commitment,
            nv,
            claim_s,
            claim_w0,
            claim_w1,
            claim_w2,
            &sumcheck_point,
            r_1,
            r_2,
            &prod_point,
            prod_y[0],
            prod_y[1],
            &mut transcript,
            &mut proof,
        );
        proof {
            assert(prod_y@[0]@ == ext_vec_view(prod_y)[0]);
            assert(prod_y@[1]@ == ext_vec_view(prod_y)[1]);
        }
        ok
    }

    /// The executable tail of the verifier, pinned to `verifier_tail`.
    #[verifier::spinoff_prover]
    #[verifier::rlimit(100)]
    #[verifier::loop_isolation(true)]
    fn verify_tail(
        vp: &PC::Param,
        pc: &PC,
        nv: usize,
        claim_s: Goldilocks64Ext,
        claim_w0: Goldilocks64Ext,
        claim_w1: Goldilocks64Ext,
        claim_w2: Goldilocks64Ext,
        sumcheck_point: &Vec<Goldilocks64Ext>,
        r_1: Goldilocks64Ext,
        r_2: Goldilocks64Ext,
        prod_point: &Vec<Goldilocks64Ext>,
        y0: Goldilocks64Ext,
        y1: Goldilocks64Ext,
        transcript: &mut Transcript,
        proof: &mut Proof,
    ) -> (r: bool)
        requires
            1 <= nv <= 25,
            claim_s.wf(),
            claim_w0.wf(),
            claim_w1.wf(),
            claim_w2.wf(),
            r_1.wf(),
            r_2.wf(),
            y0.wf(),
            y1.wf(),
            sumcheck_point@.len() == nv,
            ext_vec_wf(*sumcheck_point),
            prod_point@.len() == nv + 2,
            ext_vec_wf(*prod_point),
            old(transcript).wf(),
        ensures
            r == verifier_tail(
                *pc,
                nv as nat,
                old(proof).bytes@,
                claim_s@,
                claim_w0@,
                claim_w1@,
                claim_w2@,
                ext_vec_view(*sumcheck_point),
                r_1@,
                r_2@,
                ext_vec_view(*prod_point),
                y0@,
                y1@,
                ts_of(*old(transcript)),
                old(proof).idx as int,
            ),
    {
        proof {
            reveal(verifier_tail);
        }
        let ghost pb = proof.bytes@;
        let es = match read_field_elems(proof, 6) {
            Some(x) => x,
            None => {
                return false;
            },
        };
        let we0 = es[0];
        let we1 = es[1];
        let we2 = es[2];
        let pe0 = es[3];
        let pe1 = es[4];
        let pe2 = es[5];
        proof {
            assert(es@ =~= seq![we0, we1, we2, pe0, pe1, pe2]);
        }
        append_field_elems(transcript, &es);
        let prod_prefix = prefix_ext_vec(prod_point, nv);
        let prod_suffix = suffix_ext_vec(prod_point, nv);
        proof {
            assert(ext_vec_view(prod_prefix) =~= ext_vec_view(*prod_point).subrange(
                0,
                nv as int,
            ));
            assert(ext_vec_view(prod_suffix) =~= ext_vec_view(*prod_point).subrange(
                nv as int,
                prod_point@.len() as int,
            ));
            vstd::arithmetic::power2::lemma2_to64();
            assert((1u64 << 29) == 0x20000000u64 && (1u64 << 30) == 0x40000000u64)
                by (bit_vector);
            vstd::arithmetic::div_mod::lemma_small_mod(0x20000000 as nat, crate::field::MOD as nat);
            vstd::arithmetic::div_mod::lemma_small_mod(0x40000000 as nat, crate::field::MOD as nat);
        }
        let ia = MultiLinearPoly::eval_identical(&prod_prefix, Goldilocks64Ext::zero());
        let ib = MultiLinearPoly::eval_identical(
            &prod_prefix,
            Goldilocks64Ext::from_u64(1u64 << 29),
        );
        let ic = MultiLinearPoly::eval_identical(
            &prod_prefix,
            Goldilocks64Ext::from_u64(1u64 << 30),
        );
        let va0 = r_2.mul(ia).add(r_1).add(we0);
        let va1 = r_2.mul(ib).add(r_1).add(we1);
        let va2 = r_2.mul(ic).add(r_1).add(we2);
        let mut va: Vec<Goldilocks64Ext> = Vec::new();
        va.push(va0);
        va.push(va1);
        va.push(va2);
        va.push(r_1);
        proof {
            assert(ext_vec_view(va) =~= seq![va0@, va1@, va2@, r_1@]);
        }
        let lhs_a = MultiLinearPoly::eval_multilinear_ext(&va, &prod_suffix);
        if !(lhs_a == y0) {
            return false;
        }
        let vb0 = r_1.add(we0).add(r_2.mul(pe0));
        let vb1 = r_1.add(we1).add(r_2.mul(pe1));
        let vb2 = r_1.add(we2).add(r_2.mul(pe2));
        let mut vb: Vec<Goldilocks64Ext> = Vec::new();
        vb.push(vb0);
        vb.push(vb1);
        vb.push(vb2);
        vb.push(r_1);
        proof {
            assert(ext_vec_view(vb) =~= seq![vb0@, vb1@, vb2@, r_1@]);
        }
        let lhs_b = MultiLinearPoly::eval_multilinear_ext(&vb, &prod_suffix);
        if !(lhs_b == y1) {
            return false;
        }
        Self::verify_bind(
            vp,
            pc,
            nv,
            claim_s,
            claim_w0,
            claim_w1,
            claim_w2,
            sumcheck_point,
            &prod_prefix,
            we0,
            we1,
            we2,
            pe0,
            pe1,
            pe2,
            transcript,
            proof,
        )
    }

    /// The executable binding stage, pinned to `verifier_bind`.
    #[verifier::spinoff_prover]
    #[verifier::rlimit(100)]
    fn verify_bind(
        vp: &PC::Param,
        pc: &PC,
        nv: usize,
        claim_s: Goldilocks64Ext,
        claim_w0: Goldilocks64Ext,
        claim_w1: Goldilocks64Ext,
        claim_w2: Goldilocks64Ext,
        sumcheck_point: &Vec<Goldilocks64Ext>,
        prod_prefix: &Vec<Goldilocks64Ext>,
        we0: Goldilocks64Ext,
        we1: Goldilocks64Ext,
        we2: Goldilocks64Ext,
        pe0: Goldilocks64Ext,
        pe1: Goldilocks64Ext,
        pe2: Goldilocks64Ext,
        transcript: &mut Transcript,
        proof: &mut Proof,
    ) -> (r: bool)
        requires
            1 <= nv <= 25,
            claim_s.wf(),
            claim_w0.wf(),
            claim_w1.wf(),
            claim_w2.wf(),
            we0.wf(),
            we1.wf(),
            we2.wf(),
            pe0.wf(),
            pe1.wf(),
            pe2.wf(),
            sumcheck_point@.len() == nv,
            ext_vec_wf(*sumcheck_point),
            prod_prefix@.len() == nv,
            ext_vec_wf(*prod_prefix),
            old(transcript).wf(),
        ensures
            r == verifier_bind(
                *pc,
                nv as nat,
                old(proof).bytes@,
                claim_s@,
                claim_w0@,
                claim_w1@,
                claim_w2@,
                ext_vec_view(*sumcheck_point),
                ext_vec_view(*prod_prefix),
                we0@,
                we1@,
                we2@,
                pe0@,
                pe1@,
                pe2@,
                ts_of(*old(transcript)),
                old(proof).idx as int,
            ),
    {
        proof {
            reveal(verifier_bind);
        }
        let r = transcript.challenge_f();
        let ys0 = claim_s.add(r.mul(claim_w0.add(r.mul(claim_w1.add(r.mul(claim_w2))))));
        let ys1 = pe0.add(
            r.mul(
                pe1.add(
                    r.mul(pe2.add(r.mul(we0.add(r.mul(we1.add(r.mul(we2))))))),
                ),
            ),
        );
        let mut ys: Vec<Goldilocks64Ext> = Vec::new();
        ys.push(ys0);
        ys.push(ys1);
        proof {
            assert(ext_vec_view(ys) =~= seq![ys0@, ys1@]);
        }
        let res = match Sumcheck::verify(ys, 2, nv, transcript, proof) {
            Some(x) => x,
            None => {
                return false;
            },
        };
        let (point, fy) = res;
        Self::verify_final(vp, pc, &r, sumcheck_point, prod_prefix, &point, &fy, transcript, proof)
    }

    /// The executable closing stage, pinned to `verifier_final`.
    #[verifier::spinoff_prover]
    #[verifier::rlimit(100)]
    fn verify_final(
        vp: &PC::Param,
        pc: &PC,
        r: &Goldilocks64Ext,
        sumcheck_point: &Vec<Goldilocks64Ext>,
        prod_prefix: &Vec<Goldilocks64Ext>,
        point: &Vec<Goldilocks64Ext>,
        fy: &Vec<Goldilocks64Ext>,
        transcript: &mut Transcript,
        proof: &mut Proof,
    ) -> (res: bool)
        requires
            r.wf(),
            ext_vec_wf(*sumcheck_point),
            ext_vec_wf(*prod_prefix),
            ext_vec_wf(*point),
            ext_vec_wf(*fy),
            sumcheck_point@.len() == point@.len(),
            prod_prefix@.len() == point@.len(),
            fy@.len() == 2,
            old(transcript).wf(),
        ensures
            final(transcript).wf(),
            final(proof).bytes@ == old(proof).bytes@,
            res == verifier_final(
                *pc,
                old(proof).bytes@,
                r@,
                ext_vec_view(*sumcheck_point),
                ext_vec_view(*prod_prefix),
                ext_vec_view(*point),
                ext_vec_view(*fy),
                old(proof).idx as int,
            ),
    {
        proof {
            reveal(verifier_final);
        }
        let ghost pb = proof.bytes@;
        let r = *r;
        let fs = match read_field_elems(proof, 7) {
            Some(x) => x,
            None => {
                return false;
            },
        };
        let sp = fs[0];
        let pp0 = fs[1];
        let pp1 = fs[2];
        let pp2 = fs[3];
        let wp0 = fs[4];
        let wp1 = fs[5];
        let wp2 = fs[6];
        proof {
            assert(fs@ =~= seq![sp, pp0, pp1, pp2, wp0, wp1, wp2]);
        }
        let eq_sc = MultiLinearPoly::eval_eq(sumcheck_point, point);
        let check0 = wp2.mul(r).add(wp1).mul(r).add(wp0).mul(r).add(sp).mul(eq_sc);
        if !(check0 == fy[0]) {
            return false;
        }
        let eq_pp = MultiLinearPoly::eval_eq(prod_prefix, point);
        let check1 = wp2.mul(r).add(wp1).mul(r).add(wp0).mul(r).add(pp2).mul(r).add(pp1).mul(
            r,
        ).add(pp0).mul(eq_pp);
        if !(check1 == fy[1]) {
            return false;
        }
        // hand the accumulated opening claims to the commitment capability
        let pfx_copy = prefix_ext_vec(prod_prefix, prod_prefix.len());
        let point_copy = prefix_ext_vec(point, point.len());
        let mut pts: Vec<Vec<Goldilocks64Ext>> = Vec::new();
        pts.push(pfx_copy);
        pts.push(point_copy);
        proof {
            assert(prod_prefix@.subrange(0, prod_prefix@.len() as int) =~= prod_prefix@);
            assert(point@.subrange(0, point@.len() as int) =~= point@);
            assert(ext_vec_view(pts@[0]) =~= ext_vec_view(*prod_prefix));
            assert(ext_vec_view(pts@[1]) =~= ext_vec_view(*point));
            assert(crate::sumcheck::evals_view(pts@) =~= seq![
                ext_vec_view(*prod_prefix),
                ext_vec_view(*point),
            ]);
            assert(ext_vec_view(fs) =~= fs@.map_values(|e: Goldilocks64Ext| e@));
        }
        PC::verify(vp, pc, &pts, &fs, transcript, proof)
    }
}

} // verus!
