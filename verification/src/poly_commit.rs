//! The polynomial-commitment capability the protocol consumes: a narrow
//! commit/open/verify contract, together with the trivial backend that
//! commits to nothing.  The argument only needs the capability to be binding;
//! its internals live behind these traits.

use crate::ext_field::Goldilocks64Ext;
use crate::field::Goldilocks64;
use crate::fiat_shamir::Proof;
use crate::fiat_shamir::Transcript;
use crate::poly::ext_vec_view;
use crate::sumcheck::evals_view;
use vstd::prelude::*;

verus! {

/// Fixed-size serialization of a commitment digest.
pub trait CommitmentSerde: Sized {
    /// The byte size of a commitment to `np` polynomials over `nv`
    /// variables.
    fn size(nv: usize, np: usize) -> usize;

    /// Appends the digest's encoding to a buffer.
    fn serialize_into(&self, buffer: &mut Vec<u8>);

    /// Reads a digest back from a proof stream; `None` when the stream is
    /// exhausted.
    fn deserialize_from(proof: &mut Proof, var_num: usize, poly_num: usize) -> Option<Self>;
}

/// The prover half of the commitment capability.
pub trait PolyCommitProver: Sized {
    type Param;

    type Commitment: CommitmentSerde;

    /// The opening argument the scheme writes for a batch of points: a
    /// function of the bound polynomials and the points.
    spec fn spec_open(&self, points: Seq<Seq<(int, int)>>) -> Seq<u8>;

    /// Binds a batch of base-field polynomials.
    fn new(pp: &Self::Param, poly: &Vec<Vec<Goldilocks64>>) -> Self;

    /// The fixed-size digest of the bound polynomials.
    fn commit(&self) -> Self::Commitment;

    /// Opens the bound polynomials at the given points, appending exactly
    /// the scheme's opening argument to the transcript.
    fn open(
        pp: &Self::Param,
        prover: &Self,
        points: &Vec<Vec<Goldilocks64Ext>>,
        transcript: &mut Transcript,
    )
        requires
            old(transcript).wf(),
        ensures
            final(transcript).wf(),
            final(transcript).proof.bytes@ == old(transcript).proof.bytes@
                + prover.spec_open(evals_view(points@)),
            final(transcript).proof.idx == old(transcript).proof.idx,
    ;
}

/// The verifier half of the commitment capability.
pub trait PolyCommitVerifier: Sized {
    type Param;

    type Commitment: CommitmentSerde;

    /// The scheme's verdict on a batch of claimed evaluations: a function of
    /// the digest, the points and the claims.
    spec fn spec_verify(&self, points: Seq<Seq<(int, int)>>, evals: Seq<(int, int)>) -> bool;

    /// Accepts a digest to check openings against.
    fn new(pp: &Self::Param, commit: Self::Commitment) -> Self;

    /// Checks a batch of claimed evaluations against the digest; returns
    /// exactly the scheme's verdict.
    fn verify(
        pp: &Self::Param,
        verifier: &Self,
        points: &Vec<Vec<Goldilocks64Ext>>,
        evals: &Vec<Goldilocks64Ext>,
        transcript: &mut Transcript,
        proof: &mut Proof,
    ) -> (r: bool)
        requires
            old(transcript).wf(),
        ensures
            final(transcript).wf(),
            final(proof).bytes@ == old(proof).bytes@,
            r == verifier.spec_verify(evals_view(points@), ext_vec_view(*evals)),
    ;
}

/// The empty commitment: carries nothing and checks nothing.  It stands in
/// where the argument is exercised without a binding backend.
#[derive(Clone, Debug)]
pub struct NilCommitment;

impl CommitmentSerde for NilCommitment {
    fn size(nv: usize, np: usize) -> usize {
        0
    }

    fn serialize_into(&self, buffer: &mut Vec<u8>) {
    }

    fn deserialize_from(proof: &mut Proof, var_num: usize, poly_num: usize) -> Option<Self> {
        Some(NilCommitment)
    }
}

/// The prover side of the empty commitment scheme.
#[derive(Clone, Debug)]
pub struct NilPcProver;

impl PolyCommitProver for NilPcProver {
    type Param = ();

    type Commitment = NilCommitment;

    open spec fn spec_open(&self, points: Seq<Seq<(int, int)>>) -> Seq<u8> {
        Seq::<u8>::empty()
    }

    fn new(pp: &(), poly: &Vec<Vec<Goldilocks64>>) -> Self {
        NilPcProver
    }

    fn commit(&self) -> NilCommitment {
        NilCommitment
    }

    fn open(
        pp: &(),
        prover: &Self,
        points: &Vec<Vec<Goldilocks64Ext>>,
        transcript: &mut Transcript,
    ) {
        proof {
            assert(transcript.proof.bytes@ =~= transcript.proof.bytes@ + Seq::<u8>::empty());
        }
    }
}

/// The verifier side of the empty commitment scheme.
#[derive(Clone, Debug)]
pub struct NilPcVerifier;

impl PolyCommitVerifier for NilPcVerifier {
    type Param = ();

    type Commitment = NilCommitment;

    open spec fn spec_verify(&self, points: Seq<Seq<(int, int)>>, evals: Seq<(int, int)>) -> bool {
        true
    }

    fn new(pp: &(), commit: NilCommitment) -> Self {
        NilPcVerifier
    }

    fn verify(
        pp: &(),
        verifier: &Self,
        points: &Vec<Vec<Goldilocks64Ext>>,
        evals: &Vec<Goldilocks64Ext>,
        transcript: &mut Transcript,
        proof: &mut Proof,
    ) -> (r: bool) {
        true
    }
}

} // verus!
