//! Trusted view of the arbitrary-precision arithmetic provider: the
//! `num_bigint::BigUint` type is declared opaque, `big_val` names the natural
//! number such a value stands for, and each operation the protocol needs is
//! wrapped with a contract over that name.

use vstd::prelude::*;
use vstd::arithmetic::power::pow;
use vstd::arithmetic::power2::pow2;

verus! {

#[verifier::external_type_specification]
#[verifier::external_body]
pub struct ExBigUint(num_bigint::BigUint);

/// The natural number that a `num_bigint::BigUint` value stands for.
pub uninterp spec fn big_val(b: num_bigint::BigUint) -> nat;

/// The natural numbers that a sequence of big integers stands for, element by
/// element.
pub open spec fn big_vals(bs: Seq<num_bigint::BigUint>) -> Seq<nat> {
    bs.map_values(|b: num_bigint::BigUint| big_val(b))
}

/// Relies on `num_bigint::BigUint: From<u64>`: the big integer with exactly the
/// given value.
#[verifier::external_body]
pub(crate) fn big_from_u64(x: u64) -> (r: num_bigint::BigUint)
    ensures
        big_val(r) == x as nat,
{
    num_bigint::BigUint::from(x)
}

/// Relies on `Clone for num_bigint::BigUint`: the copy stands for the same
/// number.
#[verifier::external_body]
pub(crate) fn big_clone(a: &num_bigint::BigUint) -> (r: num_bigint::BigUint)
    ensures
        big_val(r) == big_val(*a),
{
    a.clone()
}

/// Relies on `Mul for &num_bigint::BigUint`: exact product of unbounded
/// non-negative integers.
#[verifier::external_body]
pub(crate) fn big_mul(a: &num_bigint::BigUint, b: &num_bigint::BigUint) -> (r: num_bigint::BigUint)
    ensures
        big_val(r) == big_val(*a) * big_val(*b),
{
    a * b
}

/// Relies on `Rem for &num_bigint::BigUint`: the Euclidean remainder. The
/// divisor must not be zero, on which the crate panics.
#[verifier::external_body]
pub(crate) fn big_mod(a: &num_bigint::BigUint, m: &num_bigint::BigUint) -> (r: num_bigint::BigUint)
    requires
        big_val(*m) > 0,
    ensures
        big_val(r) == big_val(*a) % big_val(*m),
{
    a % m
}

/// Relies on `Sub for &num_bigint::BigUint`: exact difference. The crate panics
/// on underflow, so the subtrahend must not exceed the minuend.
#[verifier::external_body]
pub(crate) fn big_sub(a: &num_bigint::BigUint, b: &num_bigint::BigUint) -> (r: num_bigint::BigUint)
    requires
        big_val(*b) <= big_val(*a),
    ensures
        big_val(r) == big_val(*a) - big_val(*b),
{
    a - b
}

/// Relies on `num_bigint::BigUint::modpow`: `base^exponent mod modulus`, which
/// panics when the modulus is zero.
#[verifier::external_body]
pub(crate) fn big_modpow(
    base: &num_bigint::BigUint,
    exponent: &num_bigint::BigUint,
    modulus: &num_bigint::BigUint,
) -> (r: num_bigint::BigUint)
    requires
        big_val(*modulus) > 0,
    ensures
        big_val(r) == pow(big_val(*base) as int, big_val(*exponent)) % (big_val(*modulus) as int),
{
    base.modpow(exponent, modulus)
}

/// Relies on `PartialEq for num_bigint::BigUint`, which compares the numbers
/// the two values stand for (the representation is canonical).
#[verifier::external_body]
pub(crate) fn big_eq(a: &num_bigint::BigUint, b: &num_bigint::BigUint) -> (r: bool)
    ensures
        r == (big_val(*a) == big_val(*b)),
{
    a == b
}

/// Relies on `Ord for num_bigint::BigUint`, which orders values as the numbers
/// they stand for.
#[verifier::external_body]
pub(crate) fn big_lt(a: &num_bigint::BigUint, b: &num_bigint::BigUint) -> (r: bool)
    ensures
        r == (big_val(*a) < big_val(*b)),
{
    a < b
}

/// Relies on `num_bigint::BigUint::bits`: the minimal number of bits that
/// represent the value, so a nonzero value lies between the two neighbouring
/// powers of two and zero reports zero bits.
#[verifier::external_body]
pub(crate) fn big_bits(a: &num_bigint::BigUint) -> (r: u64)
    ensures
        big_val(*a) < pow2(r as nat),
        big_val(*a) > 0 ==> r >= 1 && big_val(*a) >= pow2((r - 1) as nat),
{
    a.bits()
}

/// Relies on `num_bigint::RandomBits` sampled through `rand::Rng::sample`: a
/// uniformly random integer of at most `bits` bits. Nothing but the bound holds
/// of any single outcome.
#[verifier::external_body]
pub(crate) fn big_random_bits(bits: u64) -> (r: num_bigint::BigUint)
    ensures
        big_val(r) < pow2(bits as nat),
{
    rand::Rng::sample(&mut rand::thread_rng(), num_bigint::RandomBits::new(bits))
}

/// Relies on `rand::Rng::gen_range` over the half-open range `0..2`: a
/// uniformly random bit. Nothing but the range holds of any single outcome.
#[verifier::external_body]
pub(crate) fn rand_bit01() -> (r: u32)
    ensures
        r == 0 || r == 1,
{
    rand::Rng::gen_range(&mut rand::thread_rng(), 0..2u32)
}

} // verus!
