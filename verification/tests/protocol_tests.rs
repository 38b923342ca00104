use hyperplonk::circuit::Circuit;
use hyperplonk::ext_field::Goldilocks64Ext;
use hyperplonk::field::Goldilocks64;
use hyperplonk::fiat_shamir::Transcript;
use hyperplonk::poly::MultiLinearPoly;
use hyperplonk::poly_commit::NilPcProver;
use hyperplonk::poly_commit::NilPcVerifier;
use hyperplonk::prod_check::ProdCheck;
use hyperplonk::prod_eq_check::ProdEqCheck;
use hyperplonk::prover::Prover;
use hyperplonk::sumcheck::Combinator;
use hyperplonk::sumcheck::Sumcheck;
use hyperplonk::verify::Verifier;

fn random_ext_vec(n: usize) -> Vec<Goldilocks64Ext> {
    let mut v = Vec::new();
    for _ in 0..n {
        v.push(Goldilocks64Ext::random());
    }
    v
}

#[test]
fn poly_eq() {
    // the closed-form equality polynomial agrees with evaluating its table
    let r = random_ext_vec(12);
    let eq_r = MultiLinearPoly::new_eq(&r);
    let point = random_ext_vec(12);
    assert_eq!(
        MultiLinearPoly::eval_eq(&r, &point),
        MultiLinearPoly::eval_multilinear_ext(&eq_r.evals, &point)
    );
    let identical = MultiLinearPoly::new_identical(12, Goldilocks64Ext::zero());
    let r = random_ext_vec(12);
    assert_eq!(
        MultiLinearPoly::eval_identical(&r, Goldilocks64Ext::zero()),
        MultiLinearPoly::eval_multilinear_ext(&identical.evals, &r)
    );
}

#[test]
fn sumcheck_test_sumcheck() {
    const VN: usize = 5;
    let a = random_ext_vec(1 << VN);
    let b = random_ext_vec(1 << VN);
    let c = random_ext_vec(1 << VN);
    let d = random_ext_vec(1 << VN);
    // two parallel claims: (a*b + c)*d and c*c*d
    let one = Goldilocks64Ext::one();
    let comb = Combinator {
        outputs: vec![
            vec![(one, vec![0, 1, 3]), (one, vec![2, 3])],
            vec![(one, vec![2, 2, 3])],
        ],
    };
    let mut transcript = Transcript::new();
    let (new_point, _evals) = Sumcheck::prove(
        vec![a.clone(), b.clone(), c.clone(), d.clone()],
        3,
        &mut transcript,
        &comb,
    );
    let mut y = vec![Goldilocks64Ext::zero(), Goldilocks64Ext::zero()];
    for x in 0..(1 << VN) {
        y[0] = y[0].add(a[x].mul(b[x]).add(c[x]).mul(d[x]));
        y[1] = y[1].add(c[x].mul(c[x]).mul(d[x]));
    }
    let mut proof = transcript.proof;
    proof.idx = 0;
    let mut transcript = Transcript::new();
    let (point, y) = Sumcheck::verify(y, 3, VN, &mut transcript, &mut proof).unwrap();
    assert_eq!(point, new_point);
    let ea = MultiLinearPoly::eval_multilinear_ext(&a, &point);
    let eb = MultiLinearPoly::eval_multilinear_ext(&b, &point);
    let ec = MultiLinearPoly::eval_multilinear_ext(&c, &point);
    let ed = MultiLinearPoly::eval_multilinear_ext(&d, &point);
    assert_eq!(ea.mul(eb).add(ec).mul(ed), y[0]);
    assert_eq!(ec.mul(ec).mul(ed), y[1]);
}

#[test]
fn prod_check_prod_check() {
    let evals = random_ext_vec(4096);
    let mut prod = Goldilocks64Ext::one();
    for x in evals.iter() {
        prod = prod.mul(*x);
    }
    let mut transcript = Transcript::new();
    let point = ProdCheck::prove(evals.clone(), &mut transcript);
    let mut proof = transcript.proof;
    proof.idx = 0;
    let mut transcript = Transcript::new();
    let (res, new_point, y) = ProdCheck::verify(12, &mut transcript, &mut proof).unwrap();
    assert_eq!(res, prod);
    assert_eq!(point, new_point);
    assert_eq!(MultiLinearPoly::eval_multilinear_ext(&evals, &point), y);
}

#[test]
fn prod_eq_check_prod_check() {
    const VN: usize = 5;
    let evals = random_ext_vec(1 << VN);
    let evals_rev: Vec<Goldilocks64Ext> = evals.iter().rev().cloned().collect();
    let mut transcript = Transcript::new();
    let point = ProdEqCheck::prove(vec![evals.clone(), evals_rev.clone()], &mut transcript);
    let mut proof = transcript.proof;
    proof.idx = 0;
    let mut transcript = Transcript::new();
    let (new_point, y) = ProdEqCheck::verify(VN, &mut transcript, &mut proof).unwrap();
    assert_eq!(point, new_point);
    assert_eq!(MultiLinearPoly::eval_multilinear_ext(&evals, &point), y[0]);
    assert_eq!(MultiLinearPoly::eval_multilinear_ext(&evals_rev, &new_point), y[1]);
}

#[test]
fn prod_check_rejects_tampered_leaf() {
    // tampering with one leaf before proving changes the grand product the
    // verifier extracts, so the claim no longer matches the original vector
    let mut evals = Vec::new();
    for i in 0..64u32 {
        evals.push(Goldilocks64Ext {
            c0: Goldilocks64::from_u32(i + 1),
            c1: Goldilocks64::from_u32(2 * i + 1),
        });
    }
    let mut prod = Goldilocks64Ext::one();
    for x in evals.iter() {
        prod = prod.mul(*x);
    }
    let mut tampered = evals.clone();
    tampered[5] = tampered[5].add(Goldilocks64Ext::one());
    let mut transcript = Transcript::new();
    let point = ProdCheck::prove(tampered, &mut transcript);
    let mut proof = transcript.proof;
    proof.idx = 0;
    let mut transcript = Transcript::new();
    let (res, new_point, y) = ProdCheck::verify(6, &mut transcript, &mut proof).unwrap();
    assert_eq!(point, new_point);
    let consistent_with_original = res == prod
        && MultiLinearPoly::eval_multilinear_ext(&evals, &new_point) == y;
    assert!(!consistent_with_original);
}

fn identity_circuit(nv: usize, selector: Vec<Goldilocks64>) -> Circuit {
    let n = 1usize << nv;
    let mut p0 = Vec::new();
    let mut p1 = Vec::new();
    let mut p2 = Vec::new();
    for x in 0..n as u64 {
        p0.push(Goldilocks64::from_u64(x));
        p1.push(Goldilocks64::from_u64(x + (1 << 29)));
        p2.push(Goldilocks64::from_u64(x + (1 << 30)));
    }
    Circuit {
        permutation: vec![p0, p1, p2],
        selector,
    }
}

fn gate_output(s: &Goldilocks64, a: &Goldilocks64, b: &Goldilocks64) -> Goldilocks64 {
    if s.v == 0 {
        a.add(*b).neg()
    } else {
        a.mul(*b).neg()
    }
}

#[test]
fn snark() {
    let nv: usize = 2;
    let num_gates: u64 = 1 << nv;
    let mut selector = Vec::new();
    for x in 0..num_gates {
        selector.push(Goldilocks64::from_u64(x & 1));
    }
    let circuit = identity_circuit(nv, selector.clone());
    let (pk, vk) = circuit.setup::<NilPcProver, NilPcVerifier>(&(), &(), nv);
    let prover = Prover::new(pk);
    let verifier = Verifier::new(vk);
    let mut a = Vec::new();
    let mut b = Vec::new();
    for _ in 0..num_gates {
        a.push(Goldilocks64::random());
        b.push(Goldilocks64::random());
    }
    let mut c = Vec::new();
    for i in 0..num_gates as usize {
        c.push(gate_output(&selector[i], &a[i], &b[i]));
    }
    let proof = prover.prove(&(), nv, vec![a, b, c]);
    assert!(verifier.verify(&(), nv, proof));
}

#[test]
fn circuit_example_and_flips() {
    // two gates: selector [0, 1], identity wiring,
    // a = [2, 3], b = [5, 7], so c = [-7, -21]
    let nv: usize = 1;
    let selector = vec![Goldilocks64::from_u32(0), Goldilocks64::from_u32(1)];
    let circuit = identity_circuit(nv, selector);
    let (pk, vk) = circuit.setup::<NilPcProver, NilPcVerifier>(&(), &(), nv);
    let prover = Prover::new(pk);
    let verifier = Verifier::new(vk);
    let a = vec![Goldilocks64::from_u32(2), Goldilocks64::from_u32(3)];
    let b = vec![Goldilocks64::from_u32(5), Goldilocks64::from_u32(7)];
    let c = vec![
        Goldilocks64::from_u32(7).neg(),
        Goldilocks64::from_u32(21).neg(),
    ];
    let proof = prover.prove(&(), nv, vec![a.clone(), b.clone(), c.clone()]);
    assert!(verifier.verify(&(), nv, proof));
    // flipping any single witness value makes verification fail
    for col in 0..3 {
        for i in 0..2 {
            let mut wa = a.clone();
            let mut wb = b.clone();
            let mut wc = c.clone();
            let target = match col {
                0 => &mut wa,
                1 => &mut wb,
                _ => &mut wc,
            };
            target[i] = target[i].add(Goldilocks64::from_u32(1));
            let proof = prover.prove(&(), nv, vec![wa.clone(), wb.clone(), wc.clone()]);
            assert!(!verifier.verify(&(), nv, proof));
        }
    }
}

#[test]
fn verify_is_idempotent() {
    let nv: usize = 2;
    let num_gates: u64 = 1 << nv;
    let mut selector = Vec::new();
    for x in 0..num_gates {
        selector.push(Goldilocks64::from_u64(x & 1));
    }
    let circuit = identity_circuit(nv, selector.clone());
    let (pk, vk) = circuit.setup::<NilPcProver, NilPcVerifier>(&(), &(), nv);
    let prover = Prover::new(pk);
    let verifier = Verifier::new(vk);
    let mut a = Vec::new();
    let mut b = Vec::new();
    for _ in 0..num_gates {
        a.push(Goldilocks64::random());
        b.push(Goldilocks64::random());
    }
    let mut c = Vec::new();
    for i in 0..num_gates as usize {
        c.push(gate_output(&selector[i], &a[i], &b[i]));
    }
    let proof = prover.prove(&(), nv, vec![a, b, c]);
    let first = verifier.verify(&(), nv, proof.clone());
    let second = verifier.verify(&(), nv, proof);
    assert_eq!(first, second);
    assert!(first);
    // also on a corrupted proof
    let mut selector2 = Vec::new();
    for x in 0..num_gates {
        selector2.push(Goldilocks64::from_u64(x & 1));
    }
    let circuit2 = identity_circuit(nv, selector2);
    let (pk2, _vk2) = circuit2.setup::<NilPcProver, NilPcVerifier>(&(), &(), nv);
    let prover2 = Prover::new(pk2);
    let mut bad = vec![Vec::new(), Vec::new(), Vec::new()];
    for _ in 0..num_gates {
        bad[0].push(Goldilocks64::random());
        bad[1].push(Goldilocks64::random());
        bad[2].push(Goldilocks64::random());
    }
    let bad_proof = prover2.prove(&(), nv, bad);
    let b1 = verifier.verify(&(), nv, bad_proof.clone());
    let b2 = verifier.verify(&(), nv, bad_proof);
    assert_eq!(b1, b2);
}

#[test]
fn sumcheck_verify_rejects_truncated_proof() {
    const VN: usize = 3;
    let a = random_ext_vec(1 << VN);
    let b = random_ext_vec(1 << VN);
    let one = Goldilocks64Ext::one();
    let comb = Combinator {
        outputs: vec![vec![(one, vec![0, 1])]],
    };
    let mut transcript = Transcript::new();
    let _ = Sumcheck::prove(vec![a.clone(), b.clone()], 2, &mut transcript, &comb);
    let mut y = vec![Goldilocks64Ext::zero()];
    for x in 0..(1 << VN) {
        y[0] = y[0].add(a[x].mul(b[x]));
    }
    let mut proof = transcript.proof;
    proof.idx = 0;
    proof.bytes.truncate(proof.bytes.len() - 1);
    let mut transcript = Transcript::new();
    assert!(Sumcheck::verify(y, 2, VN, &mut transcript, &mut proof).is_none());
}

#[test]
fn verifier_rejects_corrupted_proof() {
    let nv: usize = 2;
    let num_gates: u64 = 1 << nv;
    let mut selector = Vec::new();
    for x in 0..num_gates {
        selector.push(Goldilocks64::from_u64(x & 1));
    }
    let circuit = identity_circuit(nv, selector.clone());
    let (pk, vk) = circuit.setup::<NilPcProver, NilPcVerifier>(&(), &(), nv);
    let prover = Prover::new(pk);
    let verifier = Verifier::new(vk);
    let mut a = Vec::new();
    let mut b = Vec::new();
    for _ in 0..num_gates {
        a.push(Goldilocks64::random());
        b.push(Goldilocks64::random());
    }
    let mut c = Vec::new();
    for i in 0..num_gates as usize {
        c.push(gate_output(&selector[i], &a[i], &b[i]));
    }
    let mut proof = prover.prove(&(), nv, vec![a, b, c]);
    assert!(verifier.verify(&(), nv, proof.clone()));
    // flip one byte in the middle of the stream
    let mid = proof.bytes.len() / 2;
    proof.bytes[mid] = proof.bytes[mid].wrapping_add(1);
    assert!(!verifier.verify(&(), nv, proof));
}
