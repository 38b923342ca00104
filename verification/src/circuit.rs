//! The circuit: per-gate selector values and the three wire-permutation
//! label columns, with the setup step that binds them through the
//! polynomial-commitment capability and builds their multilinear extensions.

use crate::field::Goldilocks64;
use crate::poly::base_vec_view;
use crate::poly::base_vec_wf;
use crate::poly::clone_base_vec;
use crate::poly::embed_base_vec;
use crate::poly::MultiLinearPoly;
use crate::poly_commit::PolyCommitProver;
use crate::poly_commit::PolyCommitVerifier;
use crate::prover::ProverKey;
use crate::verify::VerifierKey;
use vstd::prelude::*;

verus! {

/// The circuit gate is `(1 - s(X)) * (a(X) + b(X)) + s(X) * a(X) * b(X)
/// + c(X) = 0`; the permutation columns encode the fixed wiring.
pub struct Circuit {
    pub permutation: Vec<Vec<Goldilocks64>>,
    pub selector: Vec<Goldilocks64>,
}

impl Circuit {
    /// The circuit shape over `2^nv` gates: a selector column and three
    /// permutation columns of that length, all canonical.
    pub open spec fn wf(&self, nv: nat) -> bool {
        &&& self.permutation@.len() == 3
        &&& self.selector@.len() == vstd::arithmetic::power2::pow2(nv)
        &&& base_vec_wf(self.selector)
        &&& forall|i: int|
            0 <= i < 3 ==> (#[trigger] self.permutation@[i])@.len()
                == vstd::arithmetic::power2::pow2(nv) && base_vec_wf(self.permutation@[i])
    }

    /// Commits the selector and permutation columns through the commitment
    /// capability and builds their multilinear extensions for the prover.
    pub fn setup<PcProver: PolyCommitProver, PcVerifier: PolyCommitVerifier<
        Commitment = PcProver::Commitment,
    >>(&self, pp: &PcProver::Param, vp: &PcVerifier::Param, nv: usize) -> (r: (
        ProverKey<PcProver>,
        VerifierKey<PcVerifier>,
    ))
        requires
            self.wf(nv as nat),
        ensures
            r.0.wf(nv as nat),
            r.0.selector@ == base_vec_view(self.selector),
            forall|i: int|
                0 <= i < 3 ==> (#[trigger] r.0.permutation@[i])@ == base_vec_view(
                    self.permutation@[i],
                ),
    {
        let mut polys: Vec<Vec<Goldilocks64>> = Vec::new();
        polys.push(clone_base_vec(&self.selector));
        polys.push(clone_base_vec(&self.permutation[0]));
        polys.push(clone_base_vec(&self.permutation[1]));
        polys.push(clone_base_vec(&self.permutation[2]));
        let pc_prover = PcProver::new(pp, &polys);
        let commitment = pc_prover.commit();
        let mut permutation: Vec<MultiLinearPoly> = Vec::new();
        permutation.push(MultiLinearPoly::new(embed_base_vec(&self.permutation[0])));
        permutation.push(MultiLinearPoly::new(embed_base_vec(&self.permutation[1])));
        permutation.push(MultiLinearPoly::new(embed_base_vec(&self.permutation[2])));
        let pk = ProverKey {
            selector: MultiLinearPoly::new(embed_base_vec(&self.selector)),
            commitments: pc_prover,
            permutation,
        };
        let vk = VerifierKey { commitment: PcVerifier::new(vp, commitment) };
        (pk, vk)
    }
}

} // verus!
