//! The Goldilocks prime field: integers modulo `MOD = 2^64 - 2^32 + 1`.
//!
//! Every stored representative is canonical (`0 <= v < MOD`), and every
//! operation returns a canonical representative of the exact mathematical
//! result.

use vstd::prelude::*;

verus! {

/// The field modulus, `2^64 - 2^32 + 1`.
pub const MOD: u64 = 18446744069414584321u64;

/// An element of the Goldilocks prime field.
#[derive(Clone, Copy, Debug, PartialEq, Eq, Structural)]
pub struct Goldilocks64 {
    pub v: u64,
}

impl View for Goldilocks64 {
    type V = int;

    open spec fn view(&self) -> int {
        self.v as int
    }
}

impl Goldilocks64 {
    /// A stored element is well formed when its representative is canonical.
    pub open spec fn wf(&self) -> bool {
        self.v < MOD
    }

    /// The additive identity.
    pub fn zero() -> (r: Self)
        ensures
            r@ == 0,
            r.wf(),
    {
        Goldilocks64 { v: 0 }
    }

    /// The multiplicative identity.
    pub fn one() -> (r: Self)
        ensures
            r@ == 1,
            r.wf(),
    {
        Goldilocks64 { v: 1 }
    }

    pub fn is_zero(&self) -> (r: bool)
        ensures
            r == (self@ == 0),
    {
        self.v == 0
    }

    /// Exact modular addition.
    pub fn add(self, rhs: Self) -> (r: Self)
        requires
            self.wf(),
            rhs.wf(),
        ensures
            r.wf(),
            r@ == (self@ + rhs@) % (MOD as int),
    {
        let s: u128 = self.v as u128 + rhs.v as u128;
        let r: u64 = if s >= MOD as u128 {
            (s - MOD as u128) as u64
        } else {
            s as u64
        };
        proof {
            if self@ + rhs@ >= MOD {
                vstd::arithmetic::div_mod::lemma_mod_sub_multiples_vanish(
                    self@ + rhs@,
                    MOD as int,
                );
                vstd::arithmetic::div_mod::lemma_small_mod(
                    (self@ + rhs@ - MOD) as nat,
                    MOD as nat,
                );
            } else {
                vstd::arithmetic::div_mod::lemma_small_mod((self@ + rhs@) as nat, MOD as nat);
            }
        }
        Goldilocks64 { v: r }
    }

    /// Exact modular subtraction.
    pub fn sub(self, rhs: Self) -> (r: Self)
        requires
            self.wf(),
            rhs.wf(),
        ensures
            r.wf(),
            r@ == (self@ - rhs@) % (MOD as int),
    {
        let r: u64 = if self.v >= rhs.v {
            self.v - rhs.v
        } else {
            self.v + (MOD - rhs.v)
        };
        proof {
            if self.v >= rhs.v {
                vstd::arithmetic::div_mod::lemma_small_mod((self@ - rhs@) as nat, MOD as nat);
            } else {
                vstd::arithmetic::div_mod::lemma_mod_add_multiples_vanish(
                    self@ - rhs@,
                    MOD as int,
                );
                vstd::arithmetic::div_mod::lemma_small_mod(
                    (self@ - rhs@ + MOD) as nat,
                    MOD as nat,
                );
            }
        }
        Goldilocks64 { v: r }
    }

    /// Exact modular negation.
    pub fn neg(self) -> (r: Self)
        requires
            self.wf(),
        ensures
            r.wf(),
            r@ == (0 - self@) % (MOD as int),
    {
        let r: u64 = if self.v == 0 {
            0
        } else {
            MOD - self.v
        };
        proof {
            if self.v == 0 {
                vstd::arithmetic::div_mod::lemma_small_mod(0, MOD as nat);
            } else {
                vstd::arithmetic::div_mod::lemma_mod_add_multiples_vanish(
                    0 - self@,
                    MOD as int,
                );
                vstd::arithmetic::div_mod::lemma_small_mod((MOD - self@) as nat, MOD as nat);
            }
        }
        Goldilocks64 { v: r }
    }

    /// Exact modular multiplication; the full double-width product is formed
    /// before reduction, so no part of it is lost.
    pub fn mul(self, rhs: Self) -> (r: Self)
        requires
            self.wf(),
            rhs.wf(),
        ensures
            r.wf(),
            r@ == (self@ * rhs@) % (MOD as int),
    {
        proof {
            vstd::arithmetic::mul::lemma_mul_upper_bound(
                self.v as int,
                u64::MAX as int,
                rhs.v as int,
                u64::MAX as int,
            );
        }
        let prod: u128 = self.v as u128 * rhs.v as u128;
        let r: u64 = (prod % (MOD as u128)) as u64;
        Goldilocks64 { v: r }
    }

    /// Twice the element.
    pub fn double(self) -> (r: Self)
        requires
            self.wf(),
        ensures
            r.wf(),
            r@ == (self@ + self@) % (MOD as int),
    {
        self.add(self)
    }

    /// The element times itself.
    pub fn square(self) -> (r: Self)
        requires
            self.wf(),
        ensures
            r.wf(),
            r@ == (self@ * self@) % (MOD as int),
    {
        self.mul(self)
    }

    /// Binary (square-and-multiply) exponentiation.
    pub fn exp(&self, exponent: u64) -> (r: Self)
        requires
            self.wf(),
        ensures
            r.wf(),
            r@ == vstd::arithmetic::power::pow(self@, exponent as nat) % (MOD as int),
    {
        let ghost x0: int = self@;
        let ghost e0: nat = exponent as nat;
        let mut res = Goldilocks64 { v: 1 };
        let mut t = self.clone();
        let mut exponent = exponent;
        while exponent != 0
            invariant
                res.wf(),
                t.wf(),
                (res@ * vstd::arithmetic::power::pow(t@, exponent as nat)) % (MOD as int) == vstd::arithmetic::power::pow(x0, e0) % (MOD as int),
            decreases exponent,
        {
            let ghost res_pre: int = res@;
            let ghost t_pre: int = t@;
            let ghost e_pre: nat = exponent as nat;
            let half = exponent >> 1u64;
            let bit = exponent & 1u64;
            proof {
                assert(half == exponent / 2 && bit == exponent % 2) by (bit_vector)
                    requires
                        half == exponent >> 1u64,
                        bit == exponent & 1u64,
                ;
            }
            if bit == 1 {
                res = res.mul(t);
            }
            t = t.square();
            exponent = half;
            proof {
                lemma_exp_step(res_pre, t_pre, e_pre, res@, t@);
            }
        }
        proof {
            vstd::arithmetic::power::lemma_pow0(t@);
            vstd::arithmetic::div_mod::lemma_small_mod(res.v as nat, MOD as nat);
        }
        res
    }

    /// The multiplicative inverse by Fermat's little theorem: `None` exactly
    /// for the additive identity, otherwise the element raised to `MOD - 2`.
    /// The contract pins that exact power; that the power inverts the
    /// element is Fermat's little theorem for this prime, which lies outside
    /// what is proved here.
    pub fn inv(&self) -> (r: Option<Self>)
        requires
            self.wf(),
        ensures
            self@ == 0 <==> r is None,
            r is Some ==> r->0.wf() && r->0@ == vstd::arithmetic::power::pow(
                self@,
                (MOD - 2) as nat,
            ) % (MOD as int),
    {
        if self.is_zero() {
            return None;
        }
        Some(self.exp(MOD - 2))
    }
}

/// A field with a large power-of-two root of unity, as FFT-based encodings
/// need: the two-adicity of its multiplicative group and a root of unity of
/// that order.
pub trait FftField: Sized {
    /// The two-adicity, as the implementing field declares it.
    spec fn spec_log_order() -> u32;

    /// The declared root of unity.
    spec fn spec_root_of_unity() -> Self;

    fn log_order() -> (r: u32)
        ensures
            r == Self::spec_log_order(),
    ;

    fn root_of_unity() -> (r: Self)
        ensures
            r == Self::spec_root_of_unity(),
    ;
}

impl FftField for Goldilocks64 {
    open spec fn spec_log_order() -> u32 {
        32
    }

    open spec fn spec_root_of_unity() -> Goldilocks64 {
        Goldilocks64 { v: 2741030659394132017u64 }
    }

    fn log_order() -> (r: u32) {
        32
    }

    fn root_of_unity() -> (r: Goldilocks64) {
        Goldilocks64 { v: 2741030659394132017u64 }
    }
}

/// The canonical residue that a raw 64-bit word maps to: its exact
/// remainder modulo the field prime, so no part of the range is favoured
/// beyond the negligible wrap of the topmost residues.
pub open spec fn spec_from_u64(x: u64) -> int {
    (x as int) % (MOD as int)
}

/// Relies on rand::random: draws a value of a type that the `Standard`
/// distribution can produce; nothing is promised of the outcome.
pub assume_specification<T>[ rand::random::<T> ]() -> (r: T)
    where
        rand::distributions::Standard: rand::distributions::Distribution<T>,
;

impl Goldilocks64 {
    /// Maps a raw 64-bit word onto a canonical field element by exact
    /// modular reduction.
    pub fn from_u64(x: u64) -> (r: Self)
        ensures
            r.wf(),
            r@ == spec_from_u64(x),
    {
        let v: u64 = if x >= MOD {
            x - MOD
        } else {
            x
        };
        proof {
            if x >= MOD {
                vstd::arithmetic::div_mod::lemma_mod_sub_multiples_vanish(x as int, MOD as int);
                vstd::arithmetic::div_mod::lemma_small_mod((x - MOD) as nat, MOD as nat);
            } else {
                vstd::arithmetic::div_mod::lemma_small_mod(x as nat, MOD as nat);
            }
        }
        Goldilocks64 { v }
    }

    /// Embeds a 32-bit integer, which is already canonical.
    pub fn from_u32(x: u32) -> (r: Self)
        ensures
            r.wf(),
            r@ == x as int,
    {
        Goldilocks64 { v: x as u64 }
    }

    /// A uniformly sampled field element: an oversized 128-bit draw reduced
    /// into the canonical range, leaving only negligible modulo bias.
    pub fn random() -> (r: Self)
        ensures
            r.wf(),
    {
        let x: u128 = rand::random();
        let v: u64 = (x % (MOD as u128)) as u64;
        Goldilocks64 { v }
    }

    /// Appends the element's fixed-size little-endian encoding to a buffer.
    pub fn serialize_into(&self, buffer: &mut Vec<u8>)
        ensures
            final(buffer)@ == old(buffer)@ + vstd::bytes::spec_u64_to_le_bytes(self.v),
    {
        let bs = vstd::bytes::u64_to_le_bytes(self.v);
        let ghost pre = buffer@;
        let mut j: usize = 0;
        while j < 8
            invariant
                bs@ == vstd::bytes::spec_u64_to_le_bytes(self.v),
                bs@.len() == 8,
                j <= 8,
                buffer@ == pre + bs@.subrange(0, j as int),
            decreases 8 - j,
        {
            buffer.push(bs[j]);
            j += 1;
            proof {
                assert(buffer@ =~= pre + bs@.subrange(0, j as int));
            }
        }
        proof {
            assert(buffer@ =~= pre + bs@);
        }
    }

    /// Reads a canonical element back from 8 little-endian bytes at `offset`;
    /// `None` when the buffer is too short or the representative is not
    /// canonical.
    pub fn deserialize_from(buffer: &Vec<u8>, offset: usize) -> (r: Option<Self>)
        ensures
            r == spec_deserialize(buffer@, offset as int),
    {
        if offset > buffer.len() || buffer.len() - offset < 8 {
            return None;
        }
        let s = vstd::slice::slice_subrange(buffer.as_slice(), offset, offset + 8);
        let v = vstd::bytes::u64_from_le_bytes(s);
        if v < MOD {
            Some(Goldilocks64 { v })
        } else {
            None
        }
    }
}

/// What `deserialize_from` returns: the canonical element encoded by the 8
/// bytes at `offset`, if they are there and canonical.
pub open spec fn spec_deserialize(bytes: Seq<u8>, offset: int) -> Option<Goldilocks64> {
    if 0 <= offset && offset + 8 <= bytes.len() {
        let v = vstd::bytes::spec_u64_from_le_bytes(bytes.subrange(offset, offset + 8));
        if v < MOD {
            Some(Goldilocks64 { v })
        } else {
            None
        }
    } else {
        None
    }
}

/// Serialization round-trip: the little-endian encoding of a canonical
/// element always reads back as exactly that element.
pub proof fn lemma_serialize_round_trip(f: Goldilocks64)
    requires
        f.wf(),
    ensures
        spec_deserialize(vstd::bytes::spec_u64_to_le_bytes(f.v), 0) == Some(f),
{
    vstd::bytes::lemma_auto_spec_u64_to_from_le_bytes();
    let bytes = vstd::bytes::spec_u64_to_le_bytes(f.v);
    assert(bytes.subrange(0, 8) =~= bytes);
}

/// One square-and-multiply step keeps the running claim
/// `res * t^e == x0^e0 (mod MOD)` intact.
proof fn lemma_exp_step(res_pre: int, t_pre: int, e_pre: nat, res: int, t: int)
    requires
        e_pre > 0,
        0 <= res_pre < MOD,
        0 <= t_pre < MOD,
        t == (t_pre * t_pre) % (MOD as int),
        if e_pre % 2 == 1 {
            res == (res_pre * t_pre) % (MOD as int)
        } else {
            res == res_pre
        },
    ensures
        (res * vstd::arithmetic::power::pow(t, (e_pre / 2) as nat)) % (MOD as int) == (res_pre
            * vstd::arithmetic::power::pow(t_pre, e_pre)) % (MOD as int),
{
    let m = MOD as int;
    let h = (e_pre / 2) as nat;
    let p = vstd::arithmetic::power::pow(t_pre, e_pre);
    let p2h = vstd::arithmetic::power::pow(t_pre, (2 * h) as nat);
    let psq = vstd::arithmetic::power::pow((t_pre * t_pre) % m, h);
    // pow of a reduced base agrees with pow of the base, modulo m.
    vstd::arithmetic::power::lemma_pow_mod_noop(t_pre * t_pre, h, m);
    // (t^2)^h == t^(2h)
    vstd::arithmetic::power::lemma_pow_multiplies(t_pre, 2, h);
    vstd::arithmetic::power::lemma_square_is_pow2(t_pre);
    assert(psq % m == p2h % m);
    // drop the inner reductions from the product, one factor at a time
    vstd::arithmetic::div_mod::lemma_mul_mod_noop_right(res, psq, m);
    vstd::arithmetic::div_mod::lemma_mul_mod_noop_right(res, p2h, m);
    assert((res * psq) % m == (res * p2h) % m);
    if e_pre % 2 == 1 {
        assert(e_pre == 2 * h + 1);
        vstd::arithmetic::power::lemma_pow_adds(t_pre, (2 * h) as nat, 1);
        vstd::arithmetic::power::lemma_pow1(t_pre);
        assert(p == p2h * t_pre);
        vstd::arithmetic::div_mod::lemma_mul_mod_noop_left(res_pre * t_pre, p2h, m);
        assert((res * p2h) % m == ((res_pre * t_pre) * p2h) % m);
        vstd::arithmetic::mul::lemma_mul_is_associative(res_pre, t_pre, p2h);
        vstd::arithmetic::mul::lemma_mul_is_commutative(t_pre, p2h);
        vstd::arithmetic::mul::lemma_mul_is_associative(res_pre, p2h, t_pre);
        assert((res_pre * t_pre) * p2h == res_pre * p);
    } else {
        assert(e_pre == 2 * h);
        assert(p == p2h);
    }
}

} // verus!
