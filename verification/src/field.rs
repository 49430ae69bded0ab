//! A minimal prime-field element type `Fp`, which only depends on an
//! `FpBackend` trait.
//!
//! The backend chooses the limb encoding of field elements (it may use, for
//! instance, a Montgomery form) and supplies the modular operations; the
//! trait's contracts pin the encoded value down, so everything built on top
//! of `Fp` is proved for every conforming backend.  Elements are stored as
//! fixed-width little-endian 32-bit limb integers.

use vstd::prelude::*;
use vstd::arithmetic::power2::pow2;

use crate::value::digits_value;

verus! {

/// A fixed-width unsigned integer, `N` little-endian 32-bit limbs.
#[derive(Debug)]
pub struct BigInt<const N: usize> {
    pub limbs: Vec<u32>,
}

impl<const N: usize> BigInt<N> {
    /// The representation holds exactly `N` limbs.
    pub open spec fn wf(&self) -> bool {
        self.limbs.len() == N
    }

    /// The integer the limbs denote.
    pub open spec fn value(&self) -> nat {
        digits_value(self.limbs@)
    }

    /// Build from a limb vector of the right width.
    pub fn from_limbs(limbs: Vec<u32>) -> (r: Self)
        requires
            limbs.len() == N,
        ensures
            r.wf(),
            r.limbs@ == limbs@,
    {
        BigInt { limbs }
    }
}

impl<const N: usize> Clone for BigInt<N> {
    fn clone(&self) -> (r: Self)
        ensures
            r.limbs@ == self.limbs@,
    {
        let limbs = self.limbs.clone();
        proof {
            assert(limbs@ =~= self.limbs@);
        }
        BigInt { limbs }
    }
}

impl<const N: usize> PartialEq for BigInt<N> {
    fn eq(&self, other: &Self) -> (r: bool) {
        if self.limbs.len() != other.limbs.len() {
            return false;
        }
        let n = self.limbs.len();
        let mut i: usize = 0;
        while i < n
            invariant
                i <= n,
                n == self.limbs.len() == other.limbs.len(),
                forall|j: int| 0 <= j < i ==> self.limbs@[j] == other.limbs@[j],
            decreases n - i,
        {
            if self.limbs[i] != other.limbs[i] {
                return false;
            }
            i += 1;
        }
        proof {
            assert(self.limbs@ =~= other.limbs@);
        }
        true
    }
}

impl<const N: usize> vstd::std_specs::cmp::PartialEqSpecImpl for BigInt<N> {
    open spec fn obeys_eq_spec() -> bool {
        true
    }

    open spec fn eq_spec(&self, other: &BigInt<N>) -> bool {
        self.limbs@ == other.limbs@
    }
}

/// The modular-arithmetic backend behind `Fp`.  A backend fixes the prime
/// modulus, the limb encoding of field elements, and the ring operations;
/// implementations must discharge the contracts below, so every property
/// proved of `Fp` holds for each of them.
pub trait FpBackend<const N: usize>: Sized {
    /// The prime modulus of the field.
    spec fn modulus() -> nat;

    /// Whether a limb sequence is a valid encoding of a field element.
    spec fn in_range(s: Seq<u32>) -> bool;

    /// The field value an encoding stands for.  This need not be the plain
    /// integer of the limbs: a backend may encode elements in a scaled form.
    spec fn rep_value(s: Seq<u32>) -> nat;

    /// The modulus is a nontrivial prime-field size and fits in `N` limbs.
    proof fn modulus_facts()
        ensures
            1 < Self::modulus(),
            Self::modulus() < pow2((32 * N) as nat);

    /// Valid encodings denote reduced values, and are canonical: equal
    /// values have equal limbs.
    proof fn rep_facts(x: Seq<u32>, y: Seq<u32>)
        requires
            Self::in_range(x),
            Self::in_range(y),
        ensures
            Self::rep_value(x) < Self::modulus(),
            Self::rep_value(x) == Self::rep_value(y) ==> x == y;

    /// The encoding of the additive identity.
    fn zero() -> (r: BigInt<N>)
        ensures
            r.wf(),
            Self::in_range(r.limbs@),
            Self::rep_value(r.limbs@) == 0;

    /// The encoding of the multiplicative identity.
    fn one() -> (r: BigInt<N>)
        ensures
            r.wf(),
            Self::in_range(r.limbs@),
            Self::rep_value(r.limbs@) == 1;

    /// Modular addition, in place on the left operand.
    fn add_assign(a: &mut Fp<Self, N>, b: &Fp<Self, N>)
        requires
            old(a).0.wf(),
            Self::in_range(old(a).0.limbs@),
            b.0.wf(),
            Self::in_range(b.0.limbs@),
        ensures
            final(a).0.wf(),
            Self::in_range(final(a).0.limbs@),
            Self::rep_value(final(a).0.limbs@) == (Self::rep_value(old(a).0.limbs@)
                + Self::rep_value(b.0.limbs@)) % Self::modulus();

    /// Modular multiplication, in place on the left operand.
    fn mul_assign(a: &mut Fp<Self, N>, b: &Fp<Self, N>)
        requires
            old(a).0.wf(),
            Self::in_range(old(a).0.limbs@),
            b.0.wf(),
            Self::in_range(b.0.limbs@),
        ensures
            final(a).0.wf(),
            Self::in_range(final(a).0.limbs@),
            Self::rep_value(final(a).0.limbs@) == (Self::rep_value(old(a).0.limbs@)
                * Self::rep_value(b.0.limbs@)) % Self::modulus();

    /// Construct a field element from an integer in `0..MODULUS-1`.
    /// Returns `None` if the integer is outside this range.
    fn from_bigint(other: BigInt<N>) -> (r: Option<Fp<Self, N>>)
        requires
            other.wf(),
        ensures
            match r {
                Some(f) => f.0.wf() && Self::in_range(f.0.limbs@) && other.value()
                    < Self::modulus() && Self::rep_value(f.0.limbs@) == other.value(),
                None => other.value() >= Self::modulus(),
            };
}

/// Represents an element of the prime field `F_p`, where `p == P::modulus()`.
/// This type can represent elements in any field of size at most `N * 32` bits.
#[derive(Debug)]
pub struct Fp<P: FpBackend<N>, const N: usize>(pub BigInt<N>, pub core::marker::PhantomData<P>);

impl<P: FpBackend<N>, const N: usize> Fp<P, N> {
    /// The element is a valid encoding for its backend.
    pub open spec fn wf(&self) -> bool {
        self.0.wf() && P::in_range(self.0.limbs@)
    }

    /// The field value of the element.
    pub open spec fn value(&self) -> nat {
        P::rep_value(self.0.limbs@)
    }

    /// The reduction boundary: projects an unreduced integer into the field,
    /// or reports that it is out of range.
    pub fn from_bigint(r: BigInt<N>) -> (res: Option<Self>)
        requires
            r.wf(),
        ensures
            match res {
                Some(f) => f.wf() && r.value() < P::modulus() && f.value() == r.value(),
                None => r.value() >= P::modulus(),
            },
    {
        P::from_bigint(r)
    }

    /// The additive identity.
    pub fn zero() -> (r: Self)
        ensures
            r.wf(),
            r.value() == 0,
    {
        Fp(P::zero(), core::marker::PhantomData)
    }

    /// Whether the element is the additive identity.
    pub fn is_zero(&self) -> (r: bool)
        requires
            self.wf(),
        ensures
            r <==> self.value() == 0,
    {
        let z = Self::zero();
        proof {
            P::rep_facts(self.0.limbs@, z.0.limbs@);
        }
        self.0 == z.0
    }

    /// The multiplicative identity.
    pub fn one() -> (r: Self)
        ensures
            r.wf(),
            r.value() == 1,
    {
        Fp(P::one(), core::marker::PhantomData)
    }

    /// Whether the element is the multiplicative identity.
    pub fn is_one(&self) -> (r: bool)
        requires
            self.wf(),
        ensures
            r <==> self.value() == 1,
    {
        let o = Self::one();
        proof {
            P::rep_facts(self.0.limbs@, o.0.limbs@);
        }
        self.0 == o.0
    }

    /// In-place modular addition.
    pub fn add_assign(&mut self, other: &Self)
        requires
            old(self).wf(),
            other.wf(),
        ensures
            final(self).wf(),
            final(self).value() == (old(self).value() + other.value()) % P::modulus(),
    {
        P::add_assign(self, other)
    }

    /// Modular addition.
    pub fn add(self, other: &Self) -> (r: Self)
        requires
            self.wf(),
            other.wf(),
        ensures
            r.wf(),
            r.value() == (self.value() + other.value()) % P::modulus(),
    {
        let mut res = self;
        res.add_assign(other);
        res
    }

    /// In-place modular multiplication.
    pub fn mul_assign(&mut self, other: &Self)
        requires
            old(self).wf(),
            other.wf(),
        ensures
            final(self).wf(),
            final(self).value() == (old(self).value() * other.value()) % P::modulus(),
    {
        P::mul_assign(self, other)
    }

    /// Modular multiplication.
    pub fn mul(self, other: &Self) -> (r: Self)
        requires
            self.wf(),
            other.wf(),
        ensures
            r.wf(),
            r.value() == (self.value() * other.value()) % P::modulus(),
    {
        let mut res = self;
        res.mul_assign(other);
        res
    }

    /// Squares the element in place, implemented with `mul_assign`.
    pub fn square_in_place(&mut self)
        requires
            old(self).wf(),
        ensures
            final(self).wf(),
            final(self).value() == (old(self).value() * old(self).value()) % P::modulus(),
    {
        let self_copy = self.clone();
        self.mul_assign(&self_copy);
    }
}

impl<P: FpBackend<N>, const N: usize> Clone for Fp<P, N> {
    fn clone(&self) -> (r: Self)
        ensures
            r.0.limbs@ == self.0.limbs@,
    {
        Fp(self.0.clone(), core::marker::PhantomData)
    }
}

impl<P: FpBackend<N>, const N: usize> PartialEq for Fp<P, N> {
    fn eq(&self, other: &Self) -> (r: bool) {
        self.0 == other.0
    }
}

impl<P: FpBackend<N>, const N: usize> vstd::std_specs::cmp::PartialEqSpecImpl for Fp<P, N> {
    open spec fn obeys_eq_spec() -> bool {
        true
    }

    open spec fn eq_spec(&self, other: &Fp<P, N>) -> bool {
        self.0.limbs@ == other.0.limbs@
    }
}

/// The prime modulus of the reference backend, `2^16 - 15`.
pub const SMALL_MODULUS: u32 = 65521;

/// A one-limb reference backend over the prime `65521`, using the plain
/// integer encoding.  It is small enough to reason about directly and lets
/// the whole trace-building pipeline be exercised end to end; production
/// deployments supply their own backend.
#[derive(Debug)]
pub struct F65521;

impl FpBackend<1> for F65521 {
    open spec fn modulus() -> nat {
        SMALL_MODULUS as nat
    }

    open spec fn in_range(s: Seq<u32>) -> bool {
        s.len() == 1 && s[0] < SMALL_MODULUS
    }

    open spec fn rep_value(s: Seq<u32>) -> nat {
        if s.len() == 0 {
            0
        } else {
            s[0] as nat
        }
    }

    proof fn modulus_facts() {
        vstd::arithmetic::power2::lemma2_to64();
    }

    proof fn rep_facts(x: Seq<u32>, y: Seq<u32>) {
        if Self::rep_value(x) == Self::rep_value(y) {
            assert(x =~= y);
        }
    }

    fn zero() -> (r: BigInt<1>) {
        BigInt { limbs: vec![0u32] }
    }

    fn one() -> (r: BigInt<1>) {
        BigInt { limbs: vec![1u32] }
    }

    fn add_assign(a: &mut Fp<Self, 1>, b: &Fp<Self, 1>) {
        let mut s = a.0.limbs[0] + b.0.limbs[0];
        if s >= SMALL_MODULUS {
            s = s - SMALL_MODULUS;
            proof {
                vstd::arithmetic::div_mod::lemma_mod_add_multiples_vanish(
                    s as int,
                    SMALL_MODULUS as int,
                );
                vstd::arithmetic::div_mod::lemma_small_mod(s as nat, SMALL_MODULUS as nat);
            }
        } else {
            proof {
                vstd::arithmetic::div_mod::lemma_small_mod(s as nat, SMALL_MODULUS as nat);
            }
        }
        a.0 = BigInt { limbs: vec![s] };
    }

    fn mul_assign(a: &mut Fp<Self, 1>, b: &Fp<Self, 1>) {
        let x = a.0.limbs[0] as u64;
        let y = b.0.limbs[0] as u64;
        proof {
            vstd::arithmetic::mul::lemma_mul_upper_bound(
                x as int,
                (SMALL_MODULUS - 1) as int,
                y as int,
                (SMALL_MODULUS - 1) as int,
            );
        }
        let p = x * y;
        let r = (p % (SMALL_MODULUS as u64)) as u32;
        a.0 = BigInt { limbs: vec![r] };
    }

    fn from_bigint(other: BigInt<1>) -> (r: Option<Fp<Self, 1>>) {
        proof {
            crate::value::lemma_digits_value_single(other.limbs@);
        }
        if other.limbs[0] < SMALL_MODULUS {
            Some(Fp(other, core::marker::PhantomData))
        } else {
            None
        }
    }
}

} // verus!
