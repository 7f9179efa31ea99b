use num::{BigInt, BigRational};
use vstd::prelude::*;

verus! {

#[verifier::external_type_specification]
#[verifier::external_body]
#[verifier::reject_recursive_types(T)]
pub struct ExRatio<T>(num::rational::Ratio<T>);

#[verifier::external_type_specification]
#[verifier::external_body]
pub struct ExBigInt(num::BigInt);

/// The exact rational number that a `BigRational` stands for: its numerator
/// over its denominator, where that denominator is not zero.
pub uninterp spec fn rat_value(x: BigRational) -> real;

/// Whether a `BigRational`'s denominator is not zero. `Ratio::new_raw` builds
/// ratios without that check; the arithmetic of `Ratio` panics on them.
pub uninterp spec fn rat_ok(x: BigRational) -> bool;

/// Whether a `BigRational`'s denominator is positive, as `Ratio::new` and
/// `Ratio::from_integer` leave it. `Ratio::new_raw` may build one that is not.
pub uninterp spec fn rat_pos_den(x: BigRational) -> bool;

/// Relies on `Ratio::denom` and `Zero for BigInt`: whether the denominator is
/// not zero.
#[verifier::external_body]
pub(crate) fn rat_is_valid(x: &BigRational) -> (r: bool)
    ensures
        r == rat_ok(*x),
{
    !num::Zero::is_zero(x.denom())
}

/// Relies on `Ratio::from_integer` (and `BigInt: From<i64>`): the ratio `n / 1`.
#[verifier::external_body]
pub(crate) fn rat_from_int(n: i64) -> (r: BigRational)
    ensures
        rat_ok(r),
        rat_pos_den(r),
        rat_value(r) == n as real,
{
    BigRational::from_integer(BigInt::from(n))
}

/// Relies on `Clone for Ratio`: a copy of the same numerator and denominator.
#[verifier::external_body]
pub(crate) fn rat_clone(a: &BigRational) -> (r: BigRational)
    ensures
        rat_ok(r) == rat_ok(*a),
        rat_pos_den(r) == rat_pos_den(*a),
        rat_value(r) == rat_value(*a),
{
    a.clone()
}

/// Relies on `Add for &Ratio`: exact sum, reduced to a positive denominator;
/// it panics on a zero denominator, which `requires` leaves out.
#[verifier::external_body]
pub(crate) fn rat_add(a: &BigRational, b: &BigRational) -> (r: BigRational)
    requires
        rat_ok(*a),
        rat_ok(*b),
    ensures
        rat_ok(r),
        rat_pos_den(r),
        rat_value(r) == rat_value(*a) + rat_value(*b),
{
    a + b
}

/// Relies on `Sub for &Ratio`: exact difference, reduced to a positive
/// denominator; it panics on a zero denominator, which `requires` leaves out.
#[verifier::external_body]
pub(crate) fn rat_sub(a: &BigRational, b: &BigRational) -> (r: BigRational)
    requires
        rat_ok(*a),
        rat_ok(*b),
    ensures
        rat_ok(r),
        rat_pos_den(r),
        rat_value(r) == rat_value(*a) - rat_value(*b),
{
    a - b
}

/// Relies on `Mul for &Ratio`: exact product, reduced to a positive
/// denominator; it panics on a zero denominator, which `requires` leaves out.
#[verifier::external_body]
pub(crate) fn rat_mul(a: &BigRational, b: &BigRational) -> (r: BigRational)
    requires
        rat_ok(*a),
        rat_ok(*b),
    ensures
        rat_ok(r),
        rat_pos_den(r),
        rat_value(r) == rat_value(*a) * rat_value(*b),
{
    a * b
}

/// Relies on `Div for &Ratio`: exact quotient, reduced to a positive
/// denominator; it panics on a zero divisor or a zero denominator, which
/// `requires` leaves out.
#[verifier::external_body]
pub(crate) fn rat_div(a: &BigRational, b: &BigRational) -> (r: BigRational)
    requires
        rat_ok(*a),
        rat_ok(*b),
        rat_value(*b) != 0 as real,
    ensures
        rat_ok(r),
        rat_pos_den(r),
        rat_value(r) == rat_value(*a) / rat_value(*b),
{
    a / b
}

/// Relies on `Ratio::reduced`: the same value in lowest terms with a positive
/// denominator; it panics on a zero denominator, which `requires` leaves out.
#[verifier::external_body]
pub(crate) fn rat_reduced(a: &BigRational) -> (r: BigRational)
    requires
        rat_ok(*a),
    ensures
        rat_ok(r),
        rat_pos_den(r),
        rat_value(r) == rat_value(*a),
{
    a.reduced()
}

/// Relies on `PartialOrd for Ratio` (`>`): the comparison of the two exact
/// values. `Ord::cmp` assumes positive denominators (with equal numerators it
/// compares the denominators as magnitudes), so `requires` asks for them.
#[verifier::external_body]
pub(crate) fn rat_gt(a: &BigRational, b: &BigRational) -> (r: bool)
    requires
        rat_ok(*a),
        rat_ok(*b),
        rat_pos_den(*a),
        rat_pos_den(*b),
    ensures
        r == (rat_value(*a) > rat_value(*b)),
{
    a > b
}

} // verus!
