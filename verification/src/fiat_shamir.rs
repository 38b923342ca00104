//! The Fiat–Shamir transcript: an append-only byte log of prover messages
//! plus a rolling SHA-256 digest from which every verifier challenge is
//! derived deterministically.  Prover and verifier obtain byte-identical
//! digests from identical message sequences, which is the security property.

use crate::ext_field::spec_ext_deserialize;
use crate::ext_field::spec_ext_from_uniform_bytes;
use crate::ext_field::spec_ext_serialize;
use crate::ext_field::Goldilocks64Ext;
use vstd::prelude::*;

verus! {

/// The number of bytes in a transcript digest.
pub const HASH_SIZE: usize = 32;

/// The SHA-256 digest of a byte string: a fixed 32-byte value that depends
/// on the input alone.
pub uninterp spec fn sha256_of(input: Seq<u8>) -> Seq<u8>;

/// Relies on sha2::Sha256::digest: hashes the input bytes and returns the
/// 32-byte digest, a function of the input alone.
#[verifier::external_body]
fn sha256(input: &[u8]) -> (r: Vec<u8>)
    ensures
        r@ == sha256_of(input@),
        r@.len() == 32,
{
    <sha2::Sha256 as sha2::Digest>::digest(input).to_vec()
}

/// A proof byte stream: a flat buffer that the prover appends to and the
/// verifier reads back sequentially through a cursor.
#[derive(Debug, Clone)]
pub struct Proof {
    pub idx: usize,
    pub bytes: Vec<u8>,
}

impl Proof {
    pub fn new() -> (r: Self)
        ensures
            r.bytes@ == Seq::<u8>::empty(),
            r.idx == 0,
    {
        Proof { idx: 0, bytes: Vec::new() }
    }

    /// Appends the first `size` bytes of `buffer` to the stream.
    pub fn append_u8_slice(&mut self, buffer: &Vec<u8>, size: usize)
        requires
            size <= buffer@.len(),
        ensures
            final(self).bytes@ == old(self).bytes@ + buffer@.subrange(0, size as int),
            final(self).idx == old(self).idx,
    {
        let ghost pre = self.bytes@;
        let mut i: usize = 0;
        while i < size
            invariant
                i <= size,
                size <= buffer@.len(),
                self.bytes@ == pre + buffer@.subrange(0, i as int),
                self.idx == old(self).idx,
            decreases size - i,
        {
            self.bytes.push(buffer[i]);
            i += 1;
            proof {
                assert(self.bytes@ =~= pre + buffer@.subrange(0, i as int));
            }
        }
    }

    /// Reads the next field element at the cursor and advances it; `None`
    /// when the stream is exhausted or the encoding is not canonical.
    pub fn get_next_and_step(&mut self) -> (r: Option<Goldilocks64Ext>)
        ensures
            final(self).bytes@ == old(self).bytes@,
            r == spec_ext_deserialize(old(self).bytes@, old(self).idx as int),
            r is Some ==> final(self).idx == old(self).idx + 16,
            r is None ==> final(self).idx == old(self).idx,
    {
        // reading the length ties it to a machine word, so stepping the
        // cursor cannot overflow
        let n = self.bytes.len();
        match Goldilocks64Ext::deserialize_from(&self.bytes, self.idx) {
            Some(f) => {
                self.idx += 16;
                Some(f)
            },
            None => None,
        }
    }

    /// Reads the next 32-byte digest at the cursor and advances it; `None`
    /// when fewer than 32 bytes remain.
    pub fn get_next_hash(&mut self) -> (r: Option<Vec<u8>>)
        ensures
            final(self).bytes@ == old(self).bytes@,
            old(self).idx + HASH_SIZE <= old(self).bytes@.len() ==> r is Some
                && final(self).idx == old(self).idx + HASH_SIZE,
            old(self).idx + HASH_SIZE > old(self).bytes@.len() ==> r is None
                && final(self).idx == old(self).idx,
            r is Some ==> r->0@ == old(self).bytes@.subrange(
                old(self).idx as int,
                old(self).idx + HASH_SIZE,
            ),
    {
        self.get_next_slice(HASH_SIZE)
    }

    /// Reads the next `len` bytes at the cursor and advances it; `None` when
    /// fewer than `len` bytes remain.
    pub fn get_next_slice(&mut self, len: usize) -> (r: Option<Vec<u8>>)
        ensures
            final(self).bytes@ == old(self).bytes@,
            old(self).idx + len <= old(self).bytes@.len() ==> r is Some && final(self).idx == old(
                self,
            ).idx + len,
            old(self).idx + len > old(self).bytes@.len() ==> r is None && final(self).idx == old(
                self,
            ).idx,
            r is Some ==> r->0@ == old(self).bytes@.subrange(
                old(self).idx as int,
                old(self).idx + len,
            ),
    {
        if self.idx > self.bytes.len() || self.bytes.len() - self.idx < len {
            return None;
        }
        let s = vstd::slice::slice_subrange(self.bytes.as_slice(), self.idx, self.idx + len);
        let ret = vstd::slice::slice_to_vec(s);
        self.idx += len;
        Some(ret)
    }
}

/// The transcript hasher; hashing is stateless, all state lives in the
/// transcript itself.
#[derive(Debug, Clone)]
pub struct SHA256hasher;

impl SHA256hasher {
    /// Hashes the first `input_len` bytes of `input` into `output`.
    pub fn hash(&self, output: &mut Vec<u8>, input: &Vec<u8>, input_len: usize)
        requires
            input_len <= input@.len(),
        ensures
            final(output)@ == sha256_of(input@.subrange(0, input_len as int)),
            final(output)@.len() == 32,
    {
        let s = vstd::slice::slice_subrange(input.as_slice(), 0, input_len);
        *output = sha256(s);
    }

    /// Hashes the first `input_len` bytes of `buffer` back into `buffer`.
    pub fn hash_inplace(&self, buffer: &mut Vec<u8>, input_len: usize)
        requires
            input_len <= old(buffer)@.len(),
        ensures
            final(buffer)@ == sha256_of(old(buffer)@.subrange(0, input_len as int)),
            final(buffer)@.len() == 32,
    {
        let s = vstd::slice::slice_subrange(buffer.as_slice(), 0, input_len);
        let digest = sha256(s);
        *buffer = digest;
    }
}

/// The digest a challenge is derived from: the hash of the bytes appended
/// since the previous challenge, or, when nothing new was appended, the hash
/// of the previous digest itself.
pub open spec fn spec_next_digest(bytes: Seq<u8>, start: int, digest: Seq<u8>) -> Seq<u8> {
    if bytes.len() > start {
        sha256_of(bytes.subrange(start, bytes.len() as int))
    } else {
        sha256_of(digest)
    }
}

/// The field element derived from a transcript state by one challenge step.
pub open spec fn spec_challenge(bytes: Seq<u8>, start: int, digest: Seq<u8>) -> (int, int) {
    spec_ext_from_uniform_bytes(spec_next_digest(bytes, start, digest))
}

/// The digest after `k` successive refreshes of a transcript state: the
/// first refresh hashes the unread log suffix, every later one re-hashes the
/// digest itself.
pub open spec fn spec_digest_iter(bytes: Seq<u8>, start: int, digest: Seq<u8>, k: nat) -> Seq<u8>
    decreases k,
{
    if k == 0 {
        digest
    } else if k == 1 {
        spec_next_digest(bytes, start, digest)
    } else {
        sha256_of(spec_digest_iter(bytes, start, digest, (k - 1) as nat))
    }
}

/// The big-endian word formed from the first `j` bytes of a digest.
pub open spec fn spec_be_head_u64(s: Seq<u8>, j: int) -> u64
    decreases j,
{
    if j <= 0 {
        0u64
    } else {
        (spec_be_head_u64(s, j - 1) << 8) | (s[j - 1] as u64)
    }
}

/// The Fiat–Shamir transcript: the proof byte log, the index of the first
/// byte not yet hashed, and the rolling digest.
#[derive(Debug)]
pub struct Transcript {
    pub hasher: SHA256hasher,
    pub hash_start_idx: usize,
    pub digest: Vec<u8>,
    pub proof: Proof,
}

impl Transcript {
    /// The transcript invariant: the digest has a fixed size and the unread
    /// suffix marker stays inside the log.
    pub open spec fn wf(&self) -> bool {
        &&& self.digest@.len() == 32
        &&& self.hash_start_idx <= self.proof.bytes@.len()
    }

    /// A fresh transcript: empty log, all-zero digest.
    pub fn new() -> (r: Self)
        ensures
            r.wf(),
            r.proof.bytes@ == Seq::<u8>::empty(),
            r.proof.idx == 0,
            r.hash_start_idx == 0,
            r.digest@ == Seq::new(32, |i: int| 0u8),
    {
        let mut digest: Vec<u8> = Vec::new();
        let mut i: usize = 0;
        while i < 32
            invariant
                i <= 32,
                digest@ =~= Seq::new(i as nat, |j: int| 0u8),
            decreases 32 - i,
        {
            digest.push(0u8);
            i += 1;
            proof {
                assert(digest@ =~= Seq::new(i as nat, |j: int| 0u8));
            }
        }
        Transcript { hasher: SHA256hasher, hash_start_idx: 0, digest, proof: Proof::new() }
    }

    /// Refreshes the rolling digest: hash the unconsumed log suffix, or the
    /// digest itself when nothing new was appended.
    fn hash_to_digest(&mut self)
        requires
            old(self).wf(),
        ensures
            final(self).wf(),
            final(self).digest@ == spec_next_digest(
                old(self).proof.bytes@,
                old(self).hash_start_idx as int,
                old(self).digest@,
            ),
            final(self).hash_start_idx == final(self).proof.bytes@.len(),
            final(self).proof.bytes@ == old(self).proof.bytes@,
            final(self).proof.idx == old(self).proof.idx,
    {
        let hash_end_idx = self.proof.bytes.len();
        if hash_end_idx > self.hash_start_idx {
            let s = vstd::slice::slice_subrange(
                self.proof.bytes.as_slice(),
                self.hash_start_idx,
                hash_end_idx,
            );
            let digest = sha256(s);
            self.digest = digest;
            self.hash_start_idx = hash_end_idx;
        } else {
            let s = vstd::slice::slice_subrange(self.digest.as_slice(), 0, 32);
            let digest = sha256(s);
            proof {
                assert(old(self).digest@.subrange(0, 32) =~= old(self).digest@);
            }
            self.digest = digest;
        }
    }

    /// Appends a field element's fixed-size encoding to the log.
    pub fn append_f(&mut self, f: Goldilocks64Ext)
        requires
            old(self).wf(),
        ensures
            final(self).wf(),
            final(self).proof.bytes@ == old(self).proof.bytes@ + spec_ext_serialize(f),
            final(self).hash_start_idx == old(self).hash_start_idx,
            final(self).digest@ == old(self).digest@,
            final(self).proof.idx == old(self).proof.idx,
    {
        f.serialize_into(&mut self.proof.bytes);
    }

    /// Appends the first `size` bytes of `buffer` to the log.
    pub fn append_u8_slice(&mut self, buffer: &Vec<u8>, size: usize)
        requires
            old(self).wf(),
            size <= buffer@.len(),
        ensures
            final(self).wf(),
            final(self).proof.bytes@ == old(self).proof.bytes@ + buffer@.subrange(0, size as int),
            final(self).hash_start_idx == old(self).hash_start_idx,
            final(self).digest@ == old(self).digest@,
            final(self).proof.idx == old(self).proof.idx,
    {
        self.proof.append_u8_slice(buffer, size);
    }

    /// Derives the next field challenge: refresh the digest over the unread
    /// log suffix and map it onto a field element.
    pub fn challenge_f(&mut self) -> (r: Goldilocks64Ext)
        requires
            old(self).wf(),
        ensures
            final(self).wf(),
            r.wf(),
            r@ == spec_challenge(
                old(self).proof.bytes@,
                old(self).hash_start_idx as int,
                old(self).digest@,
            ),
            final(self).digest@ == spec_next_digest(
                old(self).proof.bytes@,
                old(self).hash_start_idx as int,
                old(self).digest@,
            ),
            final(self).hash_start_idx == final(self).proof.bytes@.len(),
            final(self).proof.bytes@ == old(self).proof.bytes@,
            final(self).proof.idx == old(self).proof.idx,
    {
        self.hash_to_digest();
        Goldilocks64Ext::from_uniform_bytes(&self.digest)
    }

    /// Derives `num` pseudorandom indices, one digest refresh per index, each
    /// read big-endian from the head of the refreshed digest.
    pub fn challenge_usizes(&mut self, num: usize) -> (r: Vec<usize>)
        requires
            old(self).wf(),
        ensures
            final(self).wf(),
            r@.len() == num,
            forall|i: int|
                0 <= i < num ==> r@[i] == (spec_be_head_u64(
                    spec_digest_iter(
                        old(self).proof.bytes@,
                        old(self).hash_start_idx as int,
                        old(self).digest@,
                        (i + 1) as nat,
                    ),
                    8,
                ) as usize),
            final(self).digest@ == spec_digest_iter(
                old(self).proof.bytes@,
                old(self).hash_start_idx as int,
                old(self).digest@,
                num as nat,
            ),
            final(self).proof.bytes@ == old(self).proof.bytes@,
            final(self).proof.idx == old(self).proof.idx,
    {
        let ghost b0 = self.proof.bytes@;
        let ghost s0 = self.hash_start_idx as int;
        let ghost d0 = self.digest@;
        let mut res: Vec<usize> = Vec::new();
        let mut i: usize = 0;
        while i < num
            invariant
                i <= num,
                res@.len() == i,
                self.wf(),
                self.proof.bytes@ == b0,
                self.proof.idx == old(self).proof.idx,
                self.digest@ == spec_digest_iter(b0, s0, d0, i as nat),
                i == 0 ==> self.hash_start_idx as int == s0,
                i >= 1 ==> self.hash_start_idx as int == b0.len(),
                forall|l: int|
                    0 <= l < i ==> res@[l] == (spec_be_head_u64(
                        spec_digest_iter(b0, s0, d0, (l + 1) as nat),
                        8,
                    ) as usize),
            decreases num - i,
        {
            self.hash_to_digest();
            proof {
                if i >= 1 {
                    assert(self.digest@ == sha256_of(spec_digest_iter(b0, s0, d0, i as nat)));
                }
                assert(self.digest@ == spec_digest_iter(b0, s0, d0, (i + 1) as nat));
            }
            let mut x: u64 = 0;
            let mut j: usize = 0;
            while j < 8
                invariant
                    j <= 8,
                    self.digest@.len() == 32,
                    x == spec_be_head_u64(self.digest@, j as int),
                decreases 8 - j,
            {
                x = (x << 8) | (self.digest[j] as u64);
                j += 1;
            }
            #[verifier::truncate]
            let v = x as usize;
            res.push(v);
            i += 1;
        }
        res
    }
}

} // verus!
