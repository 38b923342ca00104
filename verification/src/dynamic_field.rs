//! A prime field whose modulus is chosen at run time: exact modular
//! arithmetic over a 64-bit modulus carried alongside each value.

use vstd::prelude::*;

verus! {

/// Primality, stated directly: no divisor strictly between 1 and `n`.
pub open spec fn is_prime(n: nat) -> bool {
    &&& n >= 2
    &&& forall|d: nat| 2 <= d < n ==> #[trigger] (n as int % d as int) != 0
}

/// A residue modulo a run-time modulus.
#[derive(Clone, Copy, Debug, PartialEq, Eq, Structural)]
pub struct DynamicField {
    pub modulus: u64,
    pub v: u64,
}

impl DynamicField {
    /// Canonical representation under a usable modulus.
    pub open spec fn wf(&self) -> bool {
        &&& self.modulus >= 2
        &&& self.v < self.modulus
    }

    /// The additive identity carrying the given modulus.
    pub fn gen_sig(modulus: u64) -> (r: Self)
        requires
            modulus >= 2,
        ensures
            r.wf(),
            r.v == 0,
            r.modulus == modulus,
    {
        DynamicField { modulus, v: 0 }
    }

    /// A canonical residue from a value already below the modulus.
    pub fn from_with_modulus(a: u64, modulus: u64) -> (r: Self)
        requires
            modulus >= 2,
            a < modulus,
        ensures
            r.wf(),
            r.v == a,
            r.modulus == modulus,
    {
        DynamicField { modulus, v: a }
    }

    pub fn get_modulus(&self) -> (r: u64)
        ensures
            r == self.modulus,
    {
        self.modulus
    }

    /// The multiplicative identity carrying the given modulus.
    pub fn one_with_modulus(modulus: u64) -> (r: Self)
        requires
            modulus >= 2,
        ensures
            r.wf(),
            r.v == 1,
            r.modulus == modulus,
    {
        DynamicField { modulus, v: 1 }
    }

    /// Exact modular addition of values under one modulus.
    pub fn add(self, rhs: Self) -> (r: Self)
        requires
            self.wf(),
            rhs.wf(),
            rhs.modulus == self.modulus,
        ensures
            r.wf(),
            r.modulus == self.modulus,
            r.v as int == (self.v + rhs.v) % (self.modulus as int),
    {
        let m = self.modulus;
        let mut sum = self.v as u128 + rhs.v as u128;
        if sum >= m as u128 {
            sum = sum - m as u128;
        }
        proof {
            if self.v + rhs.v >= m {
                vstd::arithmetic::div_mod::lemma_mod_sub_multiples_vanish(
                    self.v + rhs.v,
                    m as int,
                );
                vstd::arithmetic::div_mod::lemma_small_mod(
                    (self.v + rhs.v - m) as nat,
                    m as nat,
                );
            } else {
                vstd::arithmetic::div_mod::lemma_small_mod((self.v + rhs.v) as nat, m as nat);
            }
        }
        DynamicField { modulus: m, v: sum as u64 }
    }

    /// Exact modular subtraction.
    pub fn sub(self, rhs: Self) -> (r: Self)
        requires
            self.wf(),
            rhs.wf(),
            rhs.modulus == self.modulus,
        ensures
            r.wf(),
            r.modulus == self.modulus,
            r.v as int == (self.v - rhs.v) % (self.modulus as int),
    {
        let m = self.modulus;
        let d: u64 = if self.v >= rhs.v {
            self.v - rhs.v
        } else {
            self.v + (m - rhs.v)
        };
        proof {
            if self.v >= rhs.v {
                vstd::arithmetic::div_mod::lemma_small_mod((self.v - rhs.v) as nat, m as nat);
            } else {
                vstd::arithmetic::div_mod::lemma_mod_add_multiples_vanish(
                    self.v - rhs.v,
                    m as int,
                );
                vstd::arithmetic::div_mod::lemma_small_mod(
                    (self.v - rhs.v + m) as nat,
                    m as nat,
                );
            }
        }
        DynamicField { modulus: m, v: d }
    }

    /// Exact modular negation.
    pub fn neg(self) -> (r: Self)
        requires
            self.wf(),
        ensures
            r.wf(),
            r.modulus == self.modulus,
            r.v as int == (0 - self.v) % (self.modulus as int),
    {
        let m = self.modulus;
        let d: u64 = if self.v == 0 {
            0
        } else {
            m - self.v
        };
        proof {
            if self.v == 0 {
                vstd::arithmetic::div_mod::lemma_small_mod(0, m as nat);
            } else {
                vstd::arithmetic::div_mod::lemma_mod_add_multiples_vanish(
                    0 - self.v,
                    m as int,
                );
                vstd::arithmetic::div_mod::lemma_small_mod((m - self.v) as nat, m as nat);
            }
        }
        DynamicField { modulus: m, v: d }
    }

    /// Exact modular multiplication over the full double-width product.
    pub fn mul(self, rhs: Self) -> (r: Self)
        requires
            self.wf(),
            rhs.wf(),
            rhs.modulus == self.modulus,
        ensures
            r.wf(),
            r.modulus == self.modulus,
            r.v as int == (self.v * rhs.v) % (self.modulus as int),
    {
        let m = self.modulus;
        proof {
            vstd::arithmetic::mul::lemma_mul_upper_bound(
                self.v as int,
                u64::MAX as int,
                rhs.v as int,
                u64::MAX as int,
            );
        }
        let prod: u128 = self.v as u128 * rhs.v as u128;
        let r: u64 = (prod % (m as u128)) as u64;
        DynamicField { modulus: m, v: r }
    }

    /// Binary (square-and-multiply) exponentiation under the given modulus.
    pub fn exp_with_modulus(&self, exponent: u64, modulus: u64) -> (r: Self)
        requires
            self.wf(),
            modulus == self.modulus,
        ensures
            r.wf(),
            r.modulus == modulus,
            r.v as int == vstd::arithmetic::power::pow(self.v as int, exponent as nat) % (
            modulus as int),
    {
        let ghost x0: int = self.v as int;
        let ghost e0: nat = exponent as nat;
        let mut res = Self::one_with_modulus(modulus);
        let mut t = self.clone();
        let mut exponent = exponent;
        while exponent != 0
            invariant
                res.wf(),
                t.wf(),
                res.modulus == modulus,
                t.modulus == modulus,
                modulus >= 2,
                (res.v * vstd::arithmetic::power::pow(t.v as int, exponent as nat)) % (
                modulus as int) == vstd::arithmetic::power::pow(x0, e0) % (modulus as int),
            decreases exponent,
        {
            let ghost res_pre: int = res.v as int;
            let ghost t_pre: int = t.v as int;
            let ghost e_pre: nat = exponent as nat;
            let half = exponent >> 1u64;
            let bit = exponent & 1u64;
            proof {
                assert(half == exponent / 2 && bit == exponent % 2) by (bit_vector)
                    requires
                        half == exponent >> 1u64,
                        bit == exponent & 1u64,
                ;
            }
            if bit == 1 {
                res = res.mul(t);
            }
            t = t.mul(t);
            exponent = half;
            proof {
                lemma_dyn_exp_step(modulus as int, res_pre, t_pre, e_pre, res.v as int, t.v as int);
            }
        }
        proof {
            vstd::arithmetic::power::lemma_pow0(t.v as int);
            vstd::arithmetic::div_mod::lemma_small_mod(res.v as nat, modulus as nat);
        }
        res
    }

    /// The multiplicative inverse by Fermat's little theorem for a prime
    /// modulus: `None` exactly for the additive identity, otherwise the
    /// value raised to `modulus - 2`.  The contract pins that exact power;
    /// that it inverts the input is Fermat's little theorem, which rests on
    /// the primality the caller asserts.
    pub fn inv_with_modulus(&self, modulus: u64) -> (r: Option<Self>)
        requires
            self.wf(),
            modulus == self.modulus,
            is_prime(modulus as nat),
        ensures
            self.v == 0 <==> r is None,
            r is Some ==> r->0.wf() && r->0.modulus == modulus && r->0.v as int
                == vstd::arithmetic::power::pow(self.v as int, (modulus - 2) as nat) % (
            modulus as int),
    {
        if self.v == 0 {
            return None;
        }
        Some(self.exp_with_modulus(modulus - 2, modulus))
    }
}

/// One square-and-multiply step keeps the running claim
/// `res * t^e == x0^e0 (mod m)` intact.
proof fn lemma_dyn_exp_step(m: int, res_pre: int, t_pre: int, e_pre: nat, res: int, t: int)
    requires
        m >= 2,
        e_pre > 0,
        0 <= res_pre < m,
        0 <= t_pre < m,
        t == (t_pre * t_pre) % m,
        if e_pre % 2 == 1 {
            res == (res_pre * t_pre) % m
        } else {
            res == res_pre
        },
    ensures
        (res * vstd::arithmetic::power::pow(t, (e_pre / 2) as nat)) % m == (res_pre
            * vstd::arithmetic::power::pow(t_pre, e_pre)) % m,
{
    let h = (e_pre / 2) as nat;
    let p = vstd::arithmetic::power::pow(t_pre, e_pre);
    let p2h = vstd::arithmetic::power::pow(t_pre, (2 * h) as nat);
    let psq = vstd::arithmetic::power::pow((t_pre * t_pre) % m, h);
    vstd::arithmetic::power::lemma_pow_mod_noop(t_pre * t_pre, h, m);
    vstd::arithmetic::power::lemma_pow_multiplies(t_pre, 2, h);
    vstd::arithmetic::power::lemma_square_is_pow2(t_pre);
    assert(psq % m == p2h % m);
    vstd::arithmetic::div_mod::lemma_mul_mod_noop_right(res, psq, m);
    vstd::arithmetic::div_mod::lemma_mul_mod_noop_right(res, p2h, m);
    assert((res * psq) % m == (res * p2h) % m);
    if e_pre % 2 == 1 {
        assert(e_pre == 2 * h + 1);
        vstd::arithmetic::power::lemma_pow_adds(t_pre, (2 * h) as nat, 1);
        vstd::arithmetic::power::lemma_pow1(t_pre);
        assert(p == p2h * t_pre);
        vstd::arithmetic::div_mod::lemma_mul_mod_noop_left(res_pre * t_pre, p2h, m);
        assert((res * p2h) % m == ((res_pre * t_pre) * p2h) % m);
        vstd::arithmetic::mul::lemma_mul_is_associative(res_pre, t_pre, p2h);
        vstd::arithmetic::mul::lemma_mul_is_commutative(t_pre, p2h);
        vstd::arithmetic::mul::lemma_mul_is_associative(res_pre, p2h, t_pre);
        assert((res_pre * t_pre) * p2h == res_pre * p);
    } else {
        assert(e_pre == 2 * h);
        assert(p == p2h);
    }
}

} // verus!
