//! The quadratic extension of the Goldilocks field, `GF(p)[x] / (x^2 - 7)`.
//!
//! An element `c0 + c1*x` is a pair of canonical base-field coefficients.
//! The specification models an element as a pair of integers and defines the
//! field operations exactly, so every executable operation is pinned to the
//! standard degree-2 extension formulas.

use crate::field::Goldilocks64;
use crate::field::MOD;
use vstd::prelude::*;

verus! {

/// The non-residue that defines the extension: `x^2 = 7`.
pub const NON_RESIDUE: u64 = 7;

/// An element of the quadratic extension field: `c0 + c1 * x`.
#[derive(Clone, Copy, Debug, PartialEq, Eq, Structural)]
pub struct Goldilocks64Ext {
    pub c0: Goldilocks64,
    pub c1: Goldilocks64,
}

impl View for Goldilocks64Ext {
    type V = (int, int);

    open spec fn view(&self) -> (int, int) {
        (self.c0@, self.c1@)
    }
}

/// Canonical representation: both coefficients lie in `[0, MOD)`.
pub open spec fn ext_wf(a: (int, int)) -> bool {
    &&& 0 <= a.0 < MOD
    &&& 0 <= a.1 < MOD
}

pub open spec fn ext_zero() -> (int, int) {
    (0, 0)
}

pub open spec fn ext_one() -> (int, int) {
    (1, 0)
}

/// Componentwise modular addition.
pub open spec fn ext_add(a: (int, int), b: (int, int)) -> (int, int) {
    ((a.0 + b.0) % (MOD as int), (a.1 + b.1) % (MOD as int))
}

/// Componentwise modular subtraction.
pub open spec fn ext_sub(a: (int, int), b: (int, int)) -> (int, int) {
    ((a.0 - b.0) % (MOD as int), (a.1 - b.1) % (MOD as int))
}

/// Componentwise modular negation.
pub open spec fn ext_neg(a: (int, int)) -> (int, int) {
    ((0 - a.0) % (MOD as int), (0 - a.1) % (MOD as int))
}

/// The standard degree-2 extension product:
/// `(a0 + a1 x)(b0 + b1 x) = (a0 b0 + 7 a1 b1) + (a0 b1 + a1 b0) x`.
pub open spec fn ext_mul(a: (int, int), b: (int, int)) -> (int, int) {
    (
        (a.0 * b.0 + (a.1 * b.1) * (NON_RESIDUE as int)) % (MOD as int),
        (a.0 * b.1 + a.1 * b.0) % (MOD as int),
    )
}

/// Iterated product: `a^e`.
pub open spec fn ext_pow(a: (int, int), e: nat) -> (int, int)
    decreases e,
{
    if e == 0 {
        ext_one()
    } else {
        ext_mul(ext_pow(a, (e - 1) as nat), a)
    }
}

/// The multiplicative inverse of a nonzero element, as the power that
/// Fermat's little theorem gives in `GF(p^2)`.
pub open spec fn ext_inv_spec(a: (int, int)) -> (int, int) {
    ext_pow(a, ((MOD as int) * (MOD as int) - 2) as nat)
}

/// A product of canonical elements is canonical.
pub proof fn lemma_ext_mul_wf(a: (int, int), b: (int, int))
    ensures
        ext_wf(ext_mul(a, b)),
        ext_wf(ext_add(a, b)),
        ext_wf(ext_sub(a, b)),
        ext_wf(ext_neg(a)),
{
    let m = MOD as int;
    vstd::arithmetic::div_mod::lemma_mod_bound(a.0 * b.0 + (a.1 * b.1) * (NON_RESIDUE as int), m);
    vstd::arithmetic::div_mod::lemma_mod_bound(a.0 * b.1 + a.1 * b.0, m);
    vstd::arithmetic::div_mod::lemma_mod_bound(a.0 + b.0, m);
    vstd::arithmetic::div_mod::lemma_mod_bound(a.1 + b.1, m);
    vstd::arithmetic::div_mod::lemma_mod_bound(a.0 - b.0, m);
    vstd::arithmetic::div_mod::lemma_mod_bound(a.1 - b.1, m);
    vstd::arithmetic::div_mod::lemma_mod_bound(0 - a.0, m);
    vstd::arithmetic::div_mod::lemma_mod_bound(0 - a.1, m);
}

/// The extension product is commutative.
pub proof fn lemma_ext_mul_comm(a: (int, int), b: (int, int))
    ensures
        ext_mul(a, b) == ext_mul(b, a),
{
    vstd::arithmetic::mul::lemma_mul_is_commutative(a.0, b.0);
    vstd::arithmetic::mul::lemma_mul_is_commutative(a.1, b.1);
    vstd::arithmetic::mul::lemma_mul_is_commutative(a.0, b.1);
    vstd::arithmetic::mul::lemma_mul_is_commutative(a.1, b.0);
}

/// `((x % m) * c + (y % m) * d) % m == (x * c + y * d) % m`: inner
/// reductions of a two-term bilinear form can be dropped.
proof fn lemma_mod_bilinear(x: int, y: int, c: int, d: int)
    ensures
        ((x % (MOD as int)) * c + (y % (MOD as int)) * d) % (MOD as int) == (x * c + y * d) % (
        MOD as int),
{
    let m = MOD as int;
    vstd::arithmetic::div_mod::lemma_add_mod_noop((x % m) * c, (y % m) * d, m);
    vstd::arithmetic::div_mod::lemma_mul_mod_noop_left(x, c, m);
    vstd::arithmetic::div_mod::lemma_mul_mod_noop_left(y, d, m);
    vstd::arithmetic::div_mod::lemma_add_mod_noop(x * c, y * d, m);
}

/// The extension product is associative.
pub proof fn lemma_ext_mul_assoc(a: (int, int), b: (int, int), c: (int, int))
    ensures
        ext_mul(ext_mul(a, b), c) == ext_mul(a, ext_mul(b, c)),
{
    let m = MOD as int;
    let nr = NON_RESIDUE as int;
    let ab0 = a.0 * b.0 + (a.1 * b.1) * nr;
    let ab1 = a.0 * b.1 + a.1 * b.0;
    let bc0 = b.0 * c.0 + (b.1 * c.1) * nr;
    let bc1 = b.0 * c.1 + b.1 * c.0;
    // left side, first coefficient
    assert(((ab0 % m) * c.0 + ((ab1 % m) * c.1) * nr) % m == (ab0 * c.0 + (ab1 * c.1) * nr)
        % m) by {
        vstd::arithmetic::mul::lemma_mul_is_associative(ab1 % m, c.1, nr);
        vstd::arithmetic::mul::lemma_mul_is_associative(ab1, c.1, nr);
        lemma_mod_bilinear(ab0, ab1, c.0, c.1 * nr);
    }
    // right side, first coefficient
    assert((a.0 * (bc0 % m) + (a.1 * (bc1 % m)) * nr) % m == (a.0 * bc0 + (a.1 * bc1) * nr)
        % m) by {
        vstd::arithmetic::mul::lemma_mul_is_commutative(a.0, bc0 % m);
        vstd::arithmetic::mul::lemma_mul_is_commutative(a.0, bc0);
        vstd::arithmetic::mul::lemma_mul_is_commutative(a.1, bc1 % m);
        vstd::arithmetic::mul::lemma_mul_is_commutative(a.1, bc1);
        vstd::arithmetic::mul::lemma_mul_is_associative(bc1 % m, a.1, nr);
        vstd::arithmetic::mul::lemma_mul_is_associative(bc1, a.1, nr);
        lemma_mod_bilinear(bc0, bc1, a.0, a.1 * nr);
        vstd::arithmetic::mul::lemma_mul_is_commutative(bc0 % m, a.0);
        vstd::arithmetic::mul::lemma_mul_is_commutative(bc1 % m, a.1 * nr);
        vstd::arithmetic::mul::lemma_mul_is_associative(bc1, a.1, nr);
    }
    assert(ab0 * c.0 + (ab1 * c.1) * nr == a.0 * bc0 + (a.1 * bc1) * nr) by {
        assert(ab0 * c.0 == (a.0 * b.0) * c.0 + ((a.1 * b.1) * nr) * c.0) by (nonlinear_arith)
            requires ab0 == a.0 * b.0 + (a.1 * b.1) * nr;
        assert((ab1 * c.1) * nr == ((a.0 * b.1) * c.1) * nr + ((a.1 * b.0) * c.1) * nr)
            by (nonlinear_arith)
            requires ab1 == a.0 * b.1 + a.1 * b.0;
        assert(a.0 * bc0 == a.0 * (b.0 * c.0) + a.0 * ((b.1 * c.1) * nr)) by (nonlinear_arith)
            requires bc0 == b.0 * c.0 + (b.1 * c.1) * nr;
        assert((a.1 * bc1) * nr == (a.1 * (b.0 * c.1)) * nr + (a.1 * (b.1 * c.0)) * nr)
            by (nonlinear_arith)
            requires bc1 == b.0 * c.1 + b.1 * c.0;
        assert((a.0 * b.0) * c.0 == a.0 * (b.0 * c.0)) by (nonlinear_arith);
        assert(((a.1 * b.1) * nr) * c.0 == (a.1 * (b.1 * c.0)) * nr) by (nonlinear_arith);
        assert(((a.0 * b.1) * c.1) * nr == a.0 * ((b.1 * c.1) * nr)) by (nonlinear_arith);
        assert(((a.1 * b.0) * c.1) * nr == (a.1 * (b.0 * c.1)) * nr) by (nonlinear_arith);
    }
    // left side, second coefficient
    assert(((ab0 % m) * c.1 + (ab1 % m) * c.0) % m == (ab0 * c.1 + ab1 * c.0) % m) by {
        lemma_mod_bilinear(ab0, ab1, c.1, c.0);
    }
    // right side, second coefficient
    assert((a.0 * (bc1 % m) + a.1 * (bc0 % m)) % m == (a.0 * bc1 + a.1 * bc0) % m) by {
        vstd::arithmetic::mul::lemma_mul_is_commutative(a.0, bc1 % m);
        vstd::arithmetic::mul::lemma_mul_is_commutative(a.0, bc1);
        vstd::arithmetic::mul::lemma_mul_is_commutative(a.1, bc0 % m);
        vstd::arithmetic::mul::lemma_mul_is_commutative(a.1, bc0);
        lemma_mod_bilinear(bc1, bc0, a.0, a.1);
    }
    assert(ab0 * c.1 + ab1 * c.0 == a.0 * bc1 + a.1 * bc0) by {
        assert(ab0 * c.1 == (a.0 * b.0) * c.1 + ((a.1 * b.1) * nr) * c.1) by (nonlinear_arith)
            requires ab0 == a.0 * b.0 + (a.1 * b.1) * nr;
        assert(ab1 * c.0 == (a.0 * b.1) * c.0 + (a.1 * b.0) * c.0) by (nonlinear_arith)
            requires ab1 == a.0 * b.1 + a.1 * b.0;
        assert(a.0 * bc1 == a.0 * (b.0 * c.1) + a.0 * (b.1 * c.0)) by (nonlinear_arith)
            requires bc1 == b.0 * c.1 + b.1 * c.0;
        assert(a.1 * bc0 == a.1 * (b.0 * c.0) + a.1 * ((b.1 * c.1) * nr)) by (nonlinear_arith)
            requires bc0 == b.0 * c.0 + (b.1 * c.1) * nr;
        assert((a.0 * b.0) * c.1 == a.0 * (b.0 * c.1)) by (nonlinear_arith);
        assert(((a.1 * b.1) * nr) * c.1 == a.1 * ((b.1 * c.1) * nr)) by (nonlinear_arith);
        assert((a.0 * b.1) * c.0 == a.0 * (b.1 * c.0)) by (nonlinear_arith);
        assert((a.1 * b.0) * c.0 == a.1 * (b.0 * c.0)) by (nonlinear_arith);
    }
}

/// The multiplicative identity acts as such on canonical elements.
pub proof fn lemma_ext_one_identity(a: (int, int))
    requires
        ext_wf(a),
    ensures
        ext_mul(ext_one(), a) == a,
        ext_mul(a, ext_one()) == a,
{
    let m = MOD as int;
    vstd::arithmetic::div_mod::lemma_small_mod(a.0 as nat, MOD as nat);
    vstd::arithmetic::div_mod::lemma_small_mod(a.1 as nat, MOD as nat);
}

/// Every power of any element is canonical.
pub proof fn lemma_ext_pow_wf(a: (int, int), e: nat)
    ensures
        ext_wf(ext_pow(a, e)),
    decreases e,
{
    if e == 0 {
    } else {
        lemma_ext_pow_wf(a, (e - 1) as nat);
        lemma_ext_mul_wf(ext_pow(a, (e - 1) as nat), a);
    }
}

/// Powers add under multiplication: `a^(e1+e2) == a^e1 * a^e2`.
pub proof fn lemma_ext_pow_adds(a: (int, int), e1: nat, e2: nat)
    ensures
        ext_pow(a, e1 + e2) == ext_mul(ext_pow(a, e1), ext_pow(a, e2)),
    decreases e2,
{
    if e2 == 0 {
        lemma_ext_pow_wf(a, e1);
        lemma_ext_one_identity(ext_pow(a, e1));
    } else {
        lemma_ext_pow_adds(a, e1, (e2 - 1) as nat);
        assert(ext_pow(a, e1 + e2) == ext_mul(
            ext_mul(ext_pow(a, e1), ext_pow(a, (e2 - 1) as nat)),
            a,
        ));
        lemma_ext_mul_assoc(ext_pow(a, e1), ext_pow(a, (e2 - 1) as nat), a);
    }
}

/// The field element a raw 32-byte string maps to: two raw 128-bit words
/// read little-endian from its halves, each reduced into the canonical
/// range, so the modulo bias is negligible.
pub open spec fn spec_ext_from_uniform_bytes(s: Seq<u8>) -> (int, int) {
    (
        (vstd::bytes::spec_u128_from_le_bytes(s.subrange(0, 16)) as int) % (MOD as int),
        (vstd::bytes::spec_u128_from_le_bytes(s.subrange(16, 32)) as int) % (MOD as int),
    )
}

/// The fixed-size encoding of an element: both coefficients little-endian.
pub open spec fn spec_ext_serialize(a: Goldilocks64Ext) -> Seq<u8> {
    vstd::bytes::spec_u64_to_le_bytes(a.c0.v) + vstd::bytes::spec_u64_to_le_bytes(a.c1.v)
}

/// What `Goldilocks64Ext::deserialize_from` returns: both coefficients read
/// back, provided the bytes are there and canonical.
pub open spec fn spec_ext_deserialize(bytes: Seq<u8>, offset: int) -> Option<Goldilocks64Ext> {
    match crate::field::spec_deserialize(bytes, offset) {
        Some(c0) => match crate::field::spec_deserialize(bytes, offset + 8) {
            Some(c1) => Some(Goldilocks64Ext { c0, c1 }),
            None => None,
        },
        None => None,
    }
}

impl Goldilocks64Ext {
    pub open spec fn wf(&self) -> bool {
        ext_wf(self@)
    }

    /// The additive identity.
    pub fn zero() -> (r: Self)
        ensures
            r@ == ext_zero(),
            r.wf(),
    {
        Goldilocks64Ext { c0: Goldilocks64::zero(), c1: Goldilocks64::zero() }
    }

    /// The multiplicative identity.
    pub fn one() -> (r: Self)
        ensures
            r@ == ext_one(),
            r.wf(),
    {
        Goldilocks64Ext { c0: Goldilocks64::one(), c1: Goldilocks64::zero() }
    }

    pub fn is_zero(&self) -> (r: bool)
        ensures
            r == (self@ == ext_zero()),
    {
        self.c0.is_zero() && self.c1.is_zero()
    }

    /// Embedding of the base field.
    pub fn from_base(value: Goldilocks64) -> (r: Self)
        requires
            value.wf(),
        ensures
            r.wf(),
            r@ == (value@, 0int),
    {
        Goldilocks64Ext { c0: value, c1: Goldilocks64::zero() }
    }

    pub fn from_u32(value: u32) -> (r: Self)
        ensures
            r.wf(),
            r@ == (value as int, 0int),
    {
        Goldilocks64Ext { c0: Goldilocks64::from_u32(value), c1: Goldilocks64::zero() }
    }

    pub fn from_u64(value: u64) -> (r: Self)
        ensures
            r.wf(),
            r@ == (crate::field::spec_from_u64(value), 0int),
    {
        Goldilocks64Ext { c0: Goldilocks64::from_u64(value), c1: Goldilocks64::zero() }
    }

    /// Componentwise exact addition.
    pub fn add(self, rhs: Self) -> (r: Self)
        requires
            self.wf(),
            rhs.wf(),
        ensures
            r.wf(),
            r@ == ext_add(self@, rhs@),
    {
        Goldilocks64Ext { c0: self.c0.add(rhs.c0), c1: self.c1.add(rhs.c1) }
    }

    /// Componentwise exact subtraction.
    pub fn sub(self, rhs: Self) -> (r: Self)
        requires
            self.wf(),
            rhs.wf(),
        ensures
            r.wf(),
            r@ == ext_sub(self@, rhs@),
    {
        Goldilocks64Ext { c0: self.c0.sub(rhs.c0), c1: self.c1.sub(rhs.c1) }
    }

    /// Componentwise exact negation.
    pub fn neg(self) -> (r: Self)
        requires
            self.wf(),
        ensures
            r.wf(),
            r@ == ext_neg(self@),
    {
        Goldilocks64Ext { c0: self.c0.neg(), c1: self.c1.neg() }
    }

    /// Exact product by the degree-2 extension formula.
    pub fn mul(self, rhs: Self) -> (r: Self)
        requires
            self.wf(),
            rhs.wf(),
        ensures
            r.wf(),
            r@ == ext_mul(self@, rhs@),
    {
        let ghost m = MOD as int;
        let seven = Goldilocks64::from_u32(NON_RESIDUE as u32);
        let lo = self.c0.mul(rhs.c0).add(self.c1.mul(rhs.c1).mul(seven));
        let hi = self.c0.mul(rhs.c1).add(self.c1.mul(rhs.c0));
        proof {
            let s0 = self.c0@;
            let s1 = self.c1@;
            let r0 = rhs.c0@;
            let r1 = rhs.c1@;
            vstd::arithmetic::div_mod::lemma_mul_mod_noop_left(s1 * r1, 7, m);
            vstd::arithmetic::div_mod::lemma_add_mod_noop(s0 * r0, (s1 * r1) * 7, m);
            vstd::arithmetic::div_mod::lemma_add_mod_noop(s0 * r1, s1 * r0, m);
        }
        Goldilocks64Ext { c0: lo, c1: hi }
    }

    /// Twice the element.
    pub fn double(self) -> (r: Self)
        requires
            self.wf(),
        ensures
            r.wf(),
            r@ == ext_add(self@, self@),
    {
        self.add(self)
    }

    /// The element times itself.
    pub fn square(self) -> (r: Self)
        requires
            self.wf(),
        ensures
            r.wf(),
            r@ == ext_mul(self@, self@),
    {
        self.mul(self)
    }

    /// Mixed addition with a base-field element, without upcasting.
    pub fn add_base_elem(&self, rhs: Goldilocks64) -> (r: Self)
        requires
            self.wf(),
            rhs.wf(),
        ensures
            r.wf(),
            r@ == ext_add(self@, (rhs@, 0int)),
    {
        proof {
            vstd::arithmetic::div_mod::lemma_small_mod(self.c1.v as nat, MOD as nat);
        }
        Goldilocks64Ext { c0: self.c0.add(rhs), c1: self.c1 }
    }

    pub fn add_assign_base_elem(&mut self, rhs: Goldilocks64)
        requires
            old(self).wf(),
            rhs.wf(),
        ensures
            final(self).wf(),
            final(self)@ == ext_add(old(self)@, (rhs@, 0int)),
    {
        *self = self.add_base_elem(rhs);
    }

    /// Mixed multiplication with a base-field element, without upcasting.
    pub fn mul_base_elem(&self, rhs: Goldilocks64) -> (r: Self)
        requires
            self.wf(),
            rhs.wf(),
        ensures
            r.wf(),
            r@ == ext_mul(self@, (rhs@, 0int)),
    {
        Goldilocks64Ext { c0: self.c0.mul(rhs), c1: self.c1.mul(rhs) }
    }

    pub fn mul_assign_base_elem(&mut self, rhs: Goldilocks64)
        requires
            old(self).wf(),
            rhs.wf(),
        ensures
            final(self).wf(),
            final(self)@ == ext_mul(old(self)@, (rhs@, 0int)),
    {
        *self = self.mul_base_elem(rhs);
    }

    /// Binary (square-and-multiply) exponentiation.
    pub fn exp(&self, exponent: u64) -> (r: Self)
        requires
            self.wf(),
        ensures
            r.wf(),
            r@ == ext_pow(self@, exponent as nat),
    {
        let ghost x0: (int, int) = self@;
        let ghost e0: nat = exponent as nat;
        let mut res = Self::one();
        let mut t = self.clone();
        let mut exponent = exponent;
        proof {
            lemma_ext_pow_wf(x0, e0);
            lemma_ext_one_identity(ext_pow(x0, e0));
        }
        while exponent != 0
            invariant
                res.wf(),
                t.wf(),
                ext_mul(res@, ext_pow(t@, exponent as nat)) == ext_pow(x0, e0),
            decreases exponent,
        {
            let ghost res_pre: (int, int) = res@;
            let ghost t_pre: (int, int) = t@;
            let ghost e_pre: nat = exponent as nat;
            let half = exponent >> 1u64;
            let bit = exponent & 1u64;
            proof {
                assert(half == exponent / 2 && bit == exponent % 2) by (bit_vector)
                    requires
                        half == exponent >> 1u64,
                        bit == exponent & 1u64,
                ;
            }
            if bit == 1 {
                res = res.mul(t);
            }
            t = t.square();
            exponent = half;
            proof {
                lemma_ext_exp_step(res_pre, t_pre, e_pre, res@, t@);
            }
        }
        proof {
            lemma_ext_one_identity(res@);
        }
        res
    }

    /// The multiplicative inverse, computed as a chain of exponentiations
    /// equal to raising to `MOD^2 - 2`; `None` exactly for the additive
    /// identity.  The contract pins that exact power; that it inverts the
    /// element is the extension-field form of Fermat's little theorem, which
    /// lies outside what is proved here.
    pub fn inv(&self) -> (r: Option<Self>)
        requires
            self.wf(),
        ensures
            self@ == ext_zero() <==> r is None,
            r is Some ==> r->0.wf() && r->0@ == ext_inv_spec(self@),
    {
        if self.is_zero() {
            return None;
        }
        let x = *self;
        let p1 = x.exp(MOD - 1);
        let p2 = p1.exp(MOD - 1);
        let r = p2.mul(p1).mul(x.exp(MOD - 2));
        proof {
            let xv = self@;
            let pm1 = (MOD - 1) as nat;
            let pm2 = (MOD - 2) as nat;
            lemma_ext_pow_multiplies(xv, pm1, pm1);
            assert(p2@ == ext_pow(xv, (pm1 * pm1) as nat));
            lemma_ext_pow_adds(xv, (pm1 * pm1) as nat, pm1);
            lemma_ext_pow_adds(xv, (pm1 * pm1 + pm1) as nat, pm2);
            assert(pm1 * pm1 + pm1 + pm2 == (MOD as int) * (MOD as int) - 2) by (nonlinear_arith)
                requires
                    pm1 == MOD - 1,
                    pm2 == MOD - 2,
            ;
        }
        Some(r)
    }

    /// A uniformly sampled element: two independent 64-bit draws, each folded
    /// into the canonical range.
    pub fn random() -> (r: Self)
        ensures
            r.wf(),
    {
        Goldilocks64Ext { c0: Goldilocks64::random(), c1: Goldilocks64::random() }
    }

    /// Maps a 32-byte uniformly random string (a transcript digest) onto a
    /// field element: each half, read as a 128-bit word, is reduced into the
    /// canonical range with negligible bias.
    pub fn from_uniform_bytes(bytes: &Vec<u8>) -> (r: Self)
        requires
            bytes@.len() == 32,
        ensures
            r.wf(),
            r@ == spec_ext_from_uniform_bytes(bytes@),
    {
        let s0 = vstd::slice::slice_subrange(bytes.as_slice(), 0, 16);
        let s1 = vstd::slice::slice_subrange(bytes.as_slice(), 16, 32);
        let v0 = vstd::bytes::u128_from_le_bytes(s0);
        let v1 = vstd::bytes::u128_from_le_bytes(s1);
        Goldilocks64Ext {
            c0: Goldilocks64 { v: (v0 % (MOD as u128)) as u64 },
            c1: Goldilocks64 { v: (v1 % (MOD as u128)) as u64 },
        }
    }

    /// Appends the element's fixed-size (16-byte) encoding to a buffer.
    pub fn serialize_into(&self, buffer: &mut Vec<u8>)
        ensures
            final(buffer)@ == old(buffer)@ + spec_ext_serialize(*self),
    {
        let ghost pre = buffer@;
        self.c0.serialize_into(buffer);
        self.c1.serialize_into(buffer);
        proof {
            assert(buffer@ =~= pre + spec_ext_serialize(*self));
        }
    }

    /// Reads an element back from 16 little-endian bytes at `offset`; `None`
    /// when the buffer is too short or a coefficient is not canonical.
    pub fn deserialize_from(buffer: &Vec<u8>, offset: usize) -> (r: Option<Self>)
        ensures
            r == spec_ext_deserialize(buffer@, offset as int),
    {
        let c0 = match Goldilocks64::deserialize_from(buffer, offset) {
            Some(x) => x,
            None => {
                return None;
            },
        };
        // reading the length ties it to a machine word, so the next offset
        // cannot overflow
        let n = buffer.len();
        let c1 = match Goldilocks64::deserialize_from(buffer, offset + 8) {
            Some(x) => x,
            None => {
                return None;
            },
        };
        Some(Goldilocks64Ext { c0, c1 })
    }
}

/// Serialization round-trip: the 16-byte encoding of a canonical element
/// always reads back as exactly that element.
pub proof fn lemma_ext_serialize_round_trip(f: Goldilocks64Ext)
    requires
        f.wf(),
    ensures
        spec_ext_deserialize(spec_ext_serialize(f), 0) == Some(f),
{
    vstd::bytes::lemma_auto_spec_u64_to_from_le_bytes();
    let bytes = spec_ext_serialize(f);
    assert(bytes.subrange(0, 8) =~= vstd::bytes::spec_u64_to_le_bytes(f.c0.v));
    assert(bytes.subrange(8, 16) =~= vstd::bytes::spec_u64_to_le_bytes(f.c1.v));
}

/// The product of a sequence of elements, folded left to right.
pub open spec fn ext_prod(s: Seq<(int, int)>) -> (int, int)
    decreases s.len(),
{
    if s.len() == 0 {
        ext_one()
    } else {
        ext_mul(ext_prod(s.drop_last()), s.last())
    }
}

/// The product of every element but the one at `i`.
pub open spec fn ext_prod_except(s: Seq<(int, int)>, i: int) -> (int, int) {
    ext_mul(ext_prod(s.subrange(0, i)), ext_prod(s.subrange(i + 1, s.len() as int)))
}

/// Every sequence product is canonical.
pub proof fn lemma_ext_prod_wf(s: Seq<(int, int)>)
    ensures
        ext_wf(ext_prod(s)),
    decreases s.len(),
{
    if s.len() == 0 {
    } else {
        lemma_ext_prod_wf(s.drop_last());
        lemma_ext_mul_wf(ext_prod(s.drop_last()), s.last());
    }
}

/// A sequence product splits across concatenation.
pub proof fn lemma_ext_prod_concat(a: Seq<(int, int)>, b: Seq<(int, int)>)
    ensures
        ext_prod(a + b) == ext_mul(ext_prod(a), ext_prod(b)),
    decreases b.len(),
{
    if b.len() == 0 {
        assert(a + b =~= a);
        lemma_ext_prod_wf(a);
        lemma_ext_one_identity(ext_prod(a));
    } else {
        assert((a + b).drop_last() =~= a + b.drop_last());
        lemma_ext_prod_concat(a, b.drop_last());
        lemma_ext_mul_assoc(ext_prod(a), ext_prod(b.drop_last()), b.last());
    }
}

/// The suffix product peels its first factor off the front.
proof fn lemma_ext_prod_peel_front(s: Seq<(int, int)>, i: int)
    requires
        0 <= i < s.len(),
        ext_wf(s[i]),
    ensures
        ext_prod(s.subrange(i, s.len() as int)) == ext_mul(
            s[i],
            ext_prod(s.subrange(i + 1, s.len() as int)),
        ),
{
    let n = s.len() as int;
    let single = seq![s[i]];
    assert(s.subrange(i, n) =~= single + s.subrange(i + 1, n));
    lemma_ext_prod_concat(single, s.subrange(i + 1, n));
    assert(single.drop_last() =~= Seq::<(int, int)>::empty());
    assert(ext_prod(single.drop_last()) == ext_one());
    assert(ext_prod(single) == ext_mul(ext_one(), single.last()));
    lemma_ext_one_identity(s[i]);
    assert(ext_prod(single) == s[i]);
}

/// Inverts every element of a nonempty vector of nonzero elements with a
/// single field inversion and a linear number of multiplications
/// (Montgomery's trick): each output is pinned to the inverse of the whole
/// product times the product of all the other inputs, which in the field
/// equals the inverse of the matching input.
pub fn batch_inverse(v: &mut Vec<Goldilocks64Ext>)
    requires
        old(v)@.len() > 0,
        forall|i: int|
            0 <= i < old(v)@.len() ==> (#[trigger] old(v)@[i]).wf() && old(v)@[i]@ != ext_zero(),
    ensures
        final(v)@.len() == old(v)@.len(),
        ({
            let vs = old(v)@.map_values(|x: Goldilocks64Ext| x@);
            if ext_prod(vs) == ext_zero() {
                final(v)@ == old(v)@
            } else {
                forall|i: int|
                    0 <= i < vs.len() ==> (#[trigger] final(v)@[i]).wf() && final(v)@[i]@
                        == ext_mul(ext_inv_spec(ext_prod(vs)), ext_prod_except(vs, i))
            }
        }),
{
    let ghost vs = v@.map_values(|x: Goldilocks64Ext| x@);
    let n = v.len();
    let mut aux: Vec<Goldilocks64Ext> = Vec::new();
    aux.push(v[0]);
    proof {
        let first = vs.subrange(0, 1);
        assert(first.drop_last() =~= Seq::<(int, int)>::empty());
        assert(ext_prod(first.drop_last()) == ext_one());
        assert(ext_prod(first) == ext_mul(ext_one(), first.last()));
        lemma_ext_one_identity(vs[0]);
        assert(aux@[0]@ == ext_prod(first));
    }
    let mut i: usize = 1;
    while i < n
        invariant
            aux@.len() == i,
            1 <= i <= n,
            forall|j: int|
                0 <= j < i ==> (#[trigger] aux@[j]).wf() && aux@[j]@ == ext_prod(
                    vs.subrange(0, j + 1),
                ),
        decreases n - i,
    {
        let next = aux[i - 1].mul(v[i]);
        proof {
            assert(vs.subrange(0, i + 1).drop_last() =~= vs.subrange(0, i as int));
            assert(vs.subrange(0, i + 1).last() == vs[i as int]);
        }
        aux.push(next);
        i += 1;
    }
    proof {
        assert(vs.subrange(0, n as int) =~= vs);
    }
    let total_inv = match aux[n - 1].inv() {
        Some(x) => x,
        None => {
            return ;
        },
    };
    let ghost inv_t: (int, int) = total_inv@;
    let mut prod = total_inv;
    proof {
        assert(vs.subrange(n as int, n as int) =~= Seq::<(int, int)>::empty());
        lemma_ext_one_identity(inv_t);
    }
    let mut i: usize = n - 1;
    while i >= 1
        invariant
            v@.len() == n,
            i < n,
            prod.wf(),
            prod@ == ext_mul(inv_t, ext_prod(vs.subrange(i + 1, n as int))),
            forall|j: int| 0 <= j <= i ==> v@[j] == old(v)@[j],
            forall|j: int|
                i < j < n ==> (#[trigger] v@[j]).wf() && v@[j]@ == ext_mul(
                    inv_t,
                    ext_prod_except(vs, j),
                ),
        decreases i,
    {
        let ghost prod_pre: (int, int) = prod@;
        let ghost suffix = ext_prod(vs.subrange(i + 1, n as int));
        let ghost prefix = ext_prod(vs.subrange(0, i as int));
        let old_vi = v[i];
        let new_vi = prod.mul(aux[i - 1]);
        prod = prod.mul(old_vi);
        v[i] = new_vi;
        proof {
            // new element: inv_t * (suffix * prefix) == inv_t * (prefix * suffix)
            lemma_ext_mul_assoc(inv_t, suffix, prefix);
            lemma_ext_mul_comm(suffix, prefix);
            assert(new_vi@ == ext_mul(inv_t, ext_prod_except(vs, i as int)));
            // new running product: inv_t * (suffix * v[i]) == inv_t * suffix(i)
            lemma_ext_mul_assoc(inv_t, suffix, vs[i as int]);
            lemma_ext_prod_peel_front(vs, i as int);
            lemma_ext_mul_comm(vs[i as int], suffix);
        }
        i -= 1;
    }
    let last = prod;
    v[0] = last;
    proof {
        assert(vs.subrange(0, 0) =~= Seq::<(int, int)>::empty());
        lemma_ext_prod_wf(vs.subrange(1, n as int));
        lemma_ext_one_identity(ext_prod(vs.subrange(1, n as int)));
        assert(last@ == ext_mul(inv_t, ext_prod_except(vs, 0)));
    }
}

/// The flat byte encoding of a sequence of elements, in order.
pub open spec fn spec_as_bytes(s: Seq<Goldilocks64Ext>) -> Seq<u8>
    decreases s.len(),
{
    if s.len() == 0 {
        Seq::<u8>::empty()
    } else {
        spec_as_bytes(s.drop_last()) + spec_ext_serialize(s.last())
    }
}

/// Serializes a vector of field elements into one flat byte buffer, each
/// element taking a fixed 16 bytes.
pub fn as_bytes_vec(v: &Vec<Goldilocks64Ext>) -> (r: Vec<u8>)
    ensures
        r@ == spec_as_bytes(v@),
{
    let mut buffer: Vec<u8> = Vec::new();
    let mut i: usize = 0;
    while i < v.len()
        invariant
            i <= v@.len(),
            buffer@ == spec_as_bytes(v@.subrange(0, i as int)),
        decreases v@.len() - i,
    {
        v[i].serialize_into(&mut buffer);
        proof {
            assert(v@.subrange(0, i + 1).drop_last() =~= v@.subrange(0, i as int));
            assert(v@.subrange(0, i + 1).last() == v@[i as int]);
        }
        i += 1;
    }
    proof {
        assert(v@.subrange(0, v@.len() as int) =~= v@);
    }
    buffer
}

/// One square-and-multiply step keeps the running claim
/// `res * t^e == x0^e0` intact.
proof fn lemma_ext_exp_step(
    res_pre: (int, int),
    t_pre: (int, int),
    e_pre: nat,
    res: (int, int),
    t: (int, int),
)
    requires
        e_pre > 0,
        ext_wf(res_pre),
        ext_wf(t_pre),
        t == ext_mul(t_pre, t_pre),
        if e_pre % 2 == 1 {
            res == ext_mul(res_pre, t_pre)
        } else {
            res == res_pre
        },
    ensures
        ext_mul(res, ext_pow(t, (e_pre / 2) as nat)) == ext_mul(res_pre, ext_pow(t_pre, e_pre)),
{
    let h = (e_pre / 2) as nat;
    // t_pre^2 equals the canonical product t.
    lemma_ext_one_identity(t_pre);
    assert(ext_pow(t_pre, 0) == ext_one());
    assert(ext_pow(t_pre, 1) == ext_mul(ext_pow(t_pre, 0), t_pre));
    assert(ext_pow(t_pre, 2) == ext_mul(ext_pow(t_pre, 1), t_pre));
    assert(ext_pow(t_pre, 2) == t);
    // (t_pre^2)^h == t_pre^(2h)
    lemma_ext_pow_multiplies(t_pre, 2, h);
    assert(ext_pow(t, h) == ext_pow(t_pre, (2 * h) as nat));
    if e_pre % 2 == 1 {
        assert(e_pre == 2 * h + 1);
        lemma_ext_mul_assoc(res_pre, t_pre, ext_pow(t_pre, (2 * h) as nat));
        lemma_ext_mul_comm(t_pre, ext_pow(t_pre, (2 * h) as nat));
        lemma_ext_mul_assoc(res_pre, ext_pow(t_pre, (2 * h) as nat), t_pre);
        assert(ext_pow(t_pre, e_pre) == ext_mul(ext_pow(t_pre, (2 * h) as nat), t_pre));
    } else {
        assert(e_pre == 2 * h);
    }
}

/// Powers multiply under iteration: `a^(e1*e2) == (a^e1)^e2`.
pub proof fn lemma_ext_pow_multiplies(a: (int, int), e1: nat, e2: nat)
    ensures
        ext_pow(a, e1 * e2) == ext_pow(ext_pow(a, e1), e2),
    decreases e2,
{
    if e2 == 0 {
        assert(e1 * 0 == 0) by (nonlinear_arith);
    } else {
        lemma_ext_pow_multiplies(a, e1, (e2 - 1) as nat);
        assert(e1 * e2 == e1 * (e2 - 1) + e1) by (nonlinear_arith);
        lemma_ext_pow_adds(a, (e1 * (e2 - 1)) as nat, e1);
        // (a^e1)^e2 peels one factor of a^e1 off the end
        assert(ext_pow(ext_pow(a, e1), e2) == ext_mul(
            ext_pow(ext_pow(a, e1), (e2 - 1) as nat),
            ext_pow(a, e1),
        ));
    }
}

} // verus!

verus! {

/// Multiplication distributes over addition.
pub proof fn lemma_ext_mul_distributes_add(a: (int, int), b: (int, int), c: (int, int))
    ensures
        ext_mul(a, ext_add(b, c)) == ext_add(ext_mul(a, b), ext_mul(a, c)),
{
    let m = MOD as int;
    let nr = NON_RESIDUE as int;
    assert((a.0 * ((b.0 + c.0) % m) + (a.1 * ((b.1 + c.1) % m)) * nr) % m == (a.0 * (b.0 + c.0)
        + (a.1 * (b.1 + c.1)) * nr) % m) by {
        vstd::arithmetic::mul::lemma_mul_is_commutative(a.0, (b.0 + c.0) % m);
        vstd::arithmetic::mul::lemma_mul_is_commutative(a.1, (b.1 + c.1) % m);
        vstd::arithmetic::mul::lemma_mul_is_associative((b.1 + c.1) % m, a.1, nr);
        lemma_mod_bilinear(b.0 + c.0, b.1 + c.1, a.0, a.1 * nr);
        vstd::arithmetic::mul::lemma_mul_is_commutative(b.0 + c.0, a.0);
        vstd::arithmetic::mul::lemma_mul_is_commutative(b.1 + c.1, a.1 * nr);
        vstd::arithmetic::mul::lemma_mul_is_associative(a.1, b.1 + c.1, nr);
        vstd::arithmetic::mul::lemma_mul_is_commutative(a.1, b.1 + c.1);
        vstd::arithmetic::mul::lemma_mul_is_associative(a.1, nr, b.1 + c.1);
        vstd::arithmetic::mul::lemma_mul_is_commutative(nr, b.1 + c.1);
        vstd::arithmetic::mul::lemma_mul_is_commutative(a.0, b.0 + c.0);
    }
    assert((a.0 * ((b.1 + c.1) % m) + a.1 * ((b.0 + c.0) % m)) % m == (a.0 * (b.1 + c.1) + a.1
        * (b.0 + c.0)) % m) by {
        vstd::arithmetic::mul::lemma_mul_is_commutative(a.0, (b.1 + c.1) % m);
        vstd::arithmetic::mul::lemma_mul_is_commutative(a.1, (b.0 + c.0) % m);
        lemma_mod_bilinear(b.1 + c.1, b.0 + c.0, a.0, a.1);
        vstd::arithmetic::mul::lemma_mul_is_commutative(b.1 + c.1, a.0);
        vstd::arithmetic::mul::lemma_mul_is_commutative(b.0 + c.0, a.1);
    }
    vstd::arithmetic::div_mod::lemma_add_mod_noop(
        a.0 * b.0 + (a.1 * b.1) * nr,
        a.0 * c.0 + (a.1 * c.1) * nr,
        m,
    );
    vstd::arithmetic::div_mod::lemma_add_mod_noop(a.0 * b.1 + a.1 * b.0, a.0 * c.1 + a.1 * c.0, m);
    assert(a.0 * (b.0 + c.0) + (a.1 * (b.1 + c.1)) * nr == (a.0 * b.0 + (a.1 * b.1) * nr) + (a.0
        * c.0 + (a.1 * c.1) * nr)) by (nonlinear_arith);
    assert(a.0 * (b.1 + c.1) + a.1 * (b.0 + c.0) == (a.0 * b.1 + a.1 * b.0) + (a.0 * c.1 + a.1
        * c.0)) by (nonlinear_arith);
}

/// Multiplication distributes over subtraction.
pub proof fn lemma_ext_mul_distributes_sub(a: (int, int), b: (int, int), c: (int, int))
    ensures
        ext_mul(a, ext_sub(b, c)) == ext_sub(ext_mul(a, b), ext_mul(a, c)),
{
    let m = MOD as int;
    let nr = NON_RESIDUE as int;
    assert((a.0 * ((b.0 - c.0) % m) + (a.1 * ((b.1 - c.1) % m)) * nr) % m == (a.0 * (b.0 - c.0)
        + (a.1 * (b.1 - c.1)) * nr) % m) by {
        vstd::arithmetic::mul::lemma_mul_is_commutative(a.0, (b.0 - c.0) % m);
        vstd::arithmetic::mul::lemma_mul_is_commutative(a.1, (b.1 - c.1) % m);
        vstd::arithmetic::mul::lemma_mul_is_associative((b.1 - c.1) % m, a.1, nr);
        lemma_mod_bilinear(b.0 - c.0, b.1 - c.1, a.0, a.1 * nr);
        vstd::arithmetic::mul::lemma_mul_is_commutative(b.0 - c.0, a.0);
        vstd::arithmetic::mul::lemma_mul_is_commutative(b.1 - c.1, a.1 * nr);
        vstd::arithmetic::mul::lemma_mul_is_associative(a.1, b.1 - c.1, nr);
        vstd::arithmetic::mul::lemma_mul_is_commutative(a.1, b.1 - c.1);
        vstd::arithmetic::mul::lemma_mul_is_associative(a.1, nr, b.1 - c.1);
        vstd::arithmetic::mul::lemma_mul_is_commutative(nr, b.1 - c.1);
        vstd::arithmetic::mul::lemma_mul_is_commutative(a.0, b.0 - c.0);
    }
    assert((a.0 * ((b.1 - c.1) % m) + a.1 * ((b.0 - c.0) % m)) % m == (a.0 * (b.1 - c.1) + a.1
        * (b.0 - c.0)) % m) by {
        vstd::arithmetic::mul::lemma_mul_is_commutative(a.0, (b.1 - c.1) % m);
        vstd::arithmetic::mul::lemma_mul_is_commutative(a.1, (b.0 - c.0) % m);
        lemma_mod_bilinear(b.1 - c.1, b.0 - c.0, a.0, a.1);
        vstd::arithmetic::mul::lemma_mul_is_commutative(b.1 - c.1, a.0);
        vstd::arithmetic::mul::lemma_mul_is_commutative(b.0 - c.0, a.1);
    }
    vstd::arithmetic::div_mod::lemma_sub_mod_noop(
        a.0 * b.0 + (a.1 * b.1) * nr,
        a.0 * c.0 + (a.1 * c.1) * nr,
        m,
    );
    vstd::arithmetic::div_mod::lemma_sub_mod_noop(a.0 * b.1 + a.1 * b.0, a.0 * c.1 + a.1 * c.0, m);
    assert(a.0 * (b.0 - c.0) + (a.1 * (b.1 - c.1)) * nr == (a.0 * b.0 + (a.1 * b.1) * nr) - (a.0
        * c.0 + (a.1 * c.1) * nr)) by (nonlinear_arith);
    assert(a.0 * (b.1 - c.1) + a.1 * (b.0 - c.0) == (a.0 * b.1 + a.1 * b.0) - (a.0 * c.1 + a.1
        * c.0)) by (nonlinear_arith);
}

} // verus!

verus! {

impl crate::field::FftField for Goldilocks64Ext {
    open spec fn spec_log_order() -> u32 {
        32
    }

    open spec fn spec_root_of_unity() -> Goldilocks64Ext {
        Goldilocks64Ext {
            c0: Goldilocks64 { v: 2741030659394132017u64 },
            c1: Goldilocks64 { v: 0u64 },
        }
    }

    fn log_order() -> (r: u32) {
        32
    }

    fn root_of_unity() -> (r: Goldilocks64Ext) {
        Goldilocks64Ext {
            c0: Goldilocks64 { v: 2741030659394132017u64 },
            c1: Goldilocks64 { v: 0u64 },
        }
    }
}

/// The stored element whose view is a given pair; on canonical views this is
/// the inverse of the view map.
pub open spec fn ext_of_view(a: (int, int)) -> Goldilocks64Ext {
    Goldilocks64Ext { c0: Goldilocks64 { v: a.0 as u64 }, c1: Goldilocks64 { v: a.1 as u64 } }
}

/// The flat byte encoding of a sequence of element views, in order.
pub open spec fn ser_views(s: Seq<(int, int)>) -> Seq<u8>
    decreases s.len(),
{
    if s.len() == 0 {
        Seq::<u8>::empty()
    } else {
        ser_views(s.drop_last()) + spec_ext_serialize(ext_of_view(s.last()))
    }
}

} // verus!

verus! {

/// Serializing one more view extends the encoding at its end.
pub proof fn lemma_ser_views_push(s: Seq<(int, int)>, a: (int, int))
    ensures
        ser_views(s.push(a)) == ser_views(s) + spec_ext_serialize(ext_of_view(a)),
{
    assert(s.push(a).drop_last() =~= s);
    assert(s.push(a).last() == a);
}

} // verus!

verus! {

/// Addition of canonical pairs is commutative.
pub proof fn lemma_ext_add_comm(a: (int, int), b: (int, int))
    ensures
        ext_add(a, b) == ext_add(b, a),
{
}

/// Addition associates, with the inner reductions dropped on either side.
pub proof fn lemma_ext_add_assoc(a: (int, int), b: (int, int), c: (int, int))
    ensures
        ext_add(ext_add(a, b), c) == ext_add(a, ext_add(b, c)),
{
    let m = MOD as int;
    vstd::arithmetic::div_mod::lemma_add_mod_noop_right(c.0, a.0 + b.0, m);
    vstd::arithmetic::div_mod::lemma_add_mod_noop_right(c.1, a.1 + b.1, m);
    vstd::arithmetic::div_mod::lemma_add_mod_noop_right(a.0, b.0 + c.0, m);
    vstd::arithmetic::div_mod::lemma_add_mod_noop_right(a.1, b.1 + c.1, m);
}

} // verus!
