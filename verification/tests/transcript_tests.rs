use hyperplonk::ext_field::Goldilocks64Ext;
use hyperplonk::field::Goldilocks64;
use hyperplonk::fiat_shamir::Proof;
use hyperplonk::fiat_shamir::Transcript;

#[test]
fn challenge_from_fresh_transcript_matches_sha256() {
    // with nothing appended, the digest is SHA-256 of the all-zero digest,
    // and the challenge folds its first 16 bytes into the field
    let mut t = Transcript::new();
    let c = t.challenge_f();
    assert_eq!(c.c0.v, 251905144804489579);
    assert_eq!(c.c1.v, 15027681817783307627);
}

#[test]
fn challenge_commits_to_appended_bytes() {
    let mut t = Transcript::new();
    t.append_u8_slice(&vec![1u8, 2, 3], 3);
    let c = t.challenge_f();
    assert_eq!(c.c0.v, 6054830344248371338);
    assert_eq!(c.c1.v, 14661278682893217614);
    // a different log gives a different challenge
    let mut t2 = Transcript::new();
    t2.append_u8_slice(&vec![1u8, 2, 4], 3);
    let c2 = t2.challenge_f();
    assert_ne!(c, c2);
    // the same log gives the same challenge
    let mut t3 = Transcript::new();
    t3.append_u8_slice(&vec![1u8, 2, 3], 3);
    assert_eq!(t3.challenge_f(), c);
}

#[test]
fn append_f_round_trips_through_proof() {
    let mut t = Transcript::new();
    let f = Goldilocks64Ext {
        c0: Goldilocks64::from_u64(77),
        c1: Goldilocks64::from_u64(12345678901),
    };
    t.append_f(f);
    let mut proof = t.proof;
    let g = proof.get_next_and_step().unwrap();
    assert_eq!(f, g);
    // the stream is exhausted afterwards
    assert!(proof.get_next_and_step().is_none());
}

#[test]
fn proof_cursor_reads() {
    let mut p = Proof::new();
    let data: Vec<u8> = (0u8..40).collect();
    p.append_u8_slice(&data, 40);
    let head = p.get_next_slice(8).unwrap();
    assert_eq!(head, (0u8..8).collect::<Vec<u8>>());
    let hash = p.get_next_hash().unwrap();
    assert_eq!(hash.len(), 32);
    assert_eq!(hash[0], 8);
    // nothing left
    assert!(p.get_next_slice(1).is_none());
}

#[test]
fn challenge_usizes_count() {
    let mut t = Transcript::new();
    t.append_u8_slice(&vec![9u8; 5], 5);
    let xs = t.challenge_usizes(4);
    assert_eq!(xs.len(), 4);
    // deterministic across runs
    let mut t2 = Transcript::new();
    t2.append_u8_slice(&vec![9u8; 5], 5);
    assert_eq!(t2.challenge_usizes(4), xs);
}

#[test]
fn test_enc() {
    // encoding a value and decoding it back returns the original
    let p = Goldilocks64Ext::from_u64(10);
    let mut t = Transcript::new();
    t.append_f(p);
    let mut stream = t.proof;
    let p2 = stream.get_next_and_step().unwrap();
    assert_eq!(p, p2);
}
