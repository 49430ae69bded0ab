//! A commitment service built over an `FpBackend` scalar field.
//!
//! The reduction boundary is the verified part: an unreduced big-integer
//! cell is turned into 32-bit digits, padded to the field's limb width, and
//! projected through `Fp::from_bigint`; it succeeds exactly on values below
//! the modulus.  The commitment itself is deliberately plain — the reduced
//! evaluation vector is the commitment, binding but neither hiding nor
//! succinct — so the whole trace pipeline can run and be checked end to
//! end.  Production deployments supply an SRS-backed service through the
//! same `CurveService` boundary.

use vstd::prelude::*;
use vstd::arithmetic::power2::pow2;

use num_bigint::BigUint;

use crate::field::{BigInt, Fp, FpBackend};
use crate::value::{
    big_to_u32_digits, big_value, digits_value, lemma_digits_value_bound,
    lemma_digits_value_push_zero,
};
use crate::witness::CurveService;

verus! {

/// The plain commitment service over the field of backend `P`.
pub struct PlainCommitter<P: FpBackend<N>, const N: usize>(pub core::marker::PhantomData<P>);

impl<P: FpBackend<N>, const N: usize> PlainCommitter<P, N> {
    /// A fresh service; it carries no setup data.
    pub fn new() -> (r: Self) {
        PlainCommitter(core::marker::PhantomData)
    }
}

impl<P: FpBackend<N>, const N: usize> CurveService for PlainCommitter<P, N> {
    type FieldEl = Fp<P, N>;

    type Comm = Vec<Fp<P, N>>;

    type Point = ();

    open spec fn modulus(&self) -> nat {
        P::modulus()
    }

    open spec fn field_value(&self, f: Fp<P, N>) -> nat {
        P::rep_value(f.0.limbs@)
    }

    fn reduce(&self, v: &BigUint) -> (r: Option<Fp<P, N>>) {
        proof {
            P::modulus_facts();
        }
        let mut digits = big_to_u32_digits(v);
        if digits.len() > N {
            proof {
                let width = 32 * (digits@.len() - 1) as nat;
                if width > 32 * N as nat {
                    vstd::arithmetic::power2::lemma_pow2_strictly_increases(
                        32 * N as nat,
                        width,
                    );
                }
                assert(pow2(32 * N as nat) <= pow2(width));
                assert(pow2(width) <= big_value(*v));
            }
            return None;
        }
        while digits.len() < N
            invariant
                digits@.len() <= N,
                digits_value(digits@) == big_value(*v),
            decreases N - digits.len(),
        {
            proof {
                lemma_digits_value_push_zero(digits@);
            }
            digits.push(0u32);
        }
        let encoded = BigInt::<N>::from_limbs(digits);
        Fp::<P, N>::from_bigint(encoded)
    }

    fn commit_evaluations(&self, evals: &Vec<Fp<P, N>>) -> (r: Vec<Fp<P, N>>) {
        let mut out: Vec<Fp<P, N>> = Vec::new();
        let mut i: usize = 0;
        while i < evals.len()
            decreases evals.len() - i,
        {
            out.push(evals[i].clone());
            i = i + 1;
        }
        out
    }

    fn blinder_commitment(&self) -> (r: Vec<Fp<P, N>>) {
        let mut out: Vec<Fp<P, N>> = Vec::new();
        out.push(Fp::<P, N>::one());
        out
    }

    fn zero_point(&self) -> (r: ()) {
    }
}

} // verus!
