//! The big-integer value cell: every witness entry is an arbitrary-precision
//! non-negative integer, kept unreduced until the commitment boundary.
//!
//! The integers themselves live in `num_bigint::BigUint`; this module gives
//! that type a mathematical meaning (`big_value`) and contracts for the few
//! operations the trace builder performs on it.

use vstd::prelude::*;
use vstd::arithmetic::power2::pow2;

verus! {

#[verifier::external_type_specification]
#[verifier::external_body]
pub struct ExBigUint(num_bigint::BigUint);

/// The non-negative integer that a `BigUint` holds.
pub uninterp spec fn big_value(x: num_bigint::BigUint) -> nat;

/// The integer denoted by a little-endian sequence of 32-bit digits.
pub open spec fn digits_value(s: Seq<u32>) -> nat
    decreases s.len(),
{
    if s.len() == 0 {
        0
    } else {
        (s[0] + pow2(32) * digits_value(s.skip(1))) as nat
    }
}

/// The value of a one-digit sequence is its digit.
pub proof fn lemma_digits_value_single(s: Seq<u32>)
    requires
        s.len() == 1,
    ensures
        digits_value(s) == s[0],
{
    assert(s.skip(1).len() == 0);
    assert(digits_value(s.skip(1)) == 0);
    assert(digits_value(s) == (s[0] + pow2(32) * 0) as nat);
    vstd::arithmetic::mul::lemma_mul_basics(pow2(32) as int);
}

/// A sequence of `n` digits denotes a value below `2^(32 n)`.
pub proof fn lemma_digits_value_bound(s: Seq<u32>)
    ensures
        digits_value(s) < pow2(32 * s.len()),
    decreases s.len(),
{
    if s.len() == 0 {
        vstd::arithmetic::power2::lemma_pow2_pos(0);
        assert(pow2(0) == 1) by {
            vstd::arithmetic::power2::lemma2_to64();
        }
    } else {
        let d = digits_value(s.skip(1)) as int;
        let k = (s.len() - 1) as nat;
        let b = pow2(32) as int;
        let t = pow2(32 * k) as int;
        lemma_digits_value_bound(s.skip(1));
        assert(s[0] < pow2(32)) by {
            vstd::arithmetic::power2::lemma2_to64();
        }
        vstd::arithmetic::power2::lemma_pow2_adds(32, 32 * k);
        assert(pow2(32 * s.len()) == b * t);
        vstd::arithmetic::mul::lemma_mul_inequality(d, t - 1, b);
        vstd::arithmetic::mul::lemma_mul_is_commutative(d, b);
        vstd::arithmetic::mul::lemma_mul_is_distributive_sub(b, t, 1);
        assert(b * d <= b * t - b);
        assert(digits_value(s) == s[0] + b * d);
    }
}

/// Extending a digit sequence with zero digits does not change its value.
pub proof fn lemma_digits_value_push_zero(s: Seq<u32>)
    ensures
        digits_value(s.push(0u32)) == digits_value(s),
    decreases s.len(),
{
    if s.len() == 0 {
        assert(s.push(0u32) =~= seq![0u32]);
        lemma_digits_value_single(s.push(0u32));
    } else {
        assert(s.push(0u32).skip(1) =~= s.skip(1).push(0u32));
        lemma_digits_value_push_zero(s.skip(1));
    }
}

/// Relies on `<BigUint as From<u64>>::from`: the constructed integer is `v`.
#[verifier::external_body]
pub fn big_from_u64(v: u64) -> (r: num_bigint::BigUint)
    ensures
        big_value(r) == v,
{
    num_bigint::BigUint::from(v)
}

/// Relies on `<BigUint as Clone>::clone`: the copy holds the same integer.
#[verifier::external_body]
pub fn big_clone(x: &num_bigint::BigUint) -> (r: num_bigint::BigUint)
    ensures
        big_value(r) == big_value(*x),
{
    x.clone()
}

/// Relies on `<BigUint as PartialEq>::eq`: `BigUint` is a canonical
/// representation, so representations are equal exactly when the integers are.
#[verifier::external_body]
pub fn big_eq(a: &num_bigint::BigUint, b: &num_bigint::BigUint) -> (r: bool)
    ensures
        r <==> big_value(*a) == big_value(*b),
{
    a == b
}

/// Relies on `<BigUint as PartialOrd>::lt`: the order on `BigUint` is the
/// order of the integers it represents.
#[verifier::external_body]
pub fn big_lt(a: &num_bigint::BigUint, b: &num_bigint::BigUint) -> (r: bool)
    ensures
        r <==> big_value(*a) < big_value(*b),
{
    a < b
}

/// Relies on `<&BigUint as Mul>::mul`: big-integer multiplication.
#[verifier::external_body]
pub fn big_mul(a: &num_bigint::BigUint, b: &num_bigint::BigUint) -> (r: num_bigint::BigUint)
    ensures
        big_value(r) == big_value(*a) * big_value(*b),
{
    a * b
}

/// Relies on `<&BigUint as Shr<u32>>::shr`: shifting an unsigned big integer
/// right by `k` bits divides it by `2^k`, discarding the remainder.
#[verifier::external_body]
pub fn big_shr(a: &num_bigint::BigUint, k: u32) -> (r: num_bigint::BigUint)
    ensures
        big_value(r) == big_value(*a) / pow2(k as nat),
{
    a >> k
}

/// Relies on `<&BigUint as Rem>::rem`: the remainder of big-integer division.
/// Division by zero panics, so a positive modulus is required.
#[verifier::external_body]
pub fn big_rem(a: &num_bigint::BigUint, m: &num_bigint::BigUint) -> (r: num_bigint::BigUint)
    requires
        big_value(*m) > 0,
    ensures
        big_value(r) == big_value(*a) % big_value(*m),
{
    a % m
}

/// Relies on `BigUint::to_u32_digits`: the digits are returned least
/// significant first, with no trailing zero digit.
#[verifier::external_body]
pub fn big_to_u32_digits(a: &num_bigint::BigUint) -> (r: Vec<u32>)
    ensures
        digits_value(r@) == big_value(*a),
        r@.len() > 0 ==> pow2(32 * (r@.len() - 1) as nat) <= big_value(*a),
{
    a.to_u32_digits()
}

} // verus!
