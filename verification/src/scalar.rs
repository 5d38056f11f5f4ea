//! The numbers that a simulation computes with.
//!
//! Every update equation in this crate is written against [`Scalar`], so the same
//! verified kernels run on hardware floats and on [`crate::symbolic::Expr`], where a kernel
//! hands back its update equation as a formula.
use vstd::prelude::*;

verus! {

/// Arithmetic on the components of the fields, the materials and the geometry.
///
/// Each operation is a function of its operands; nothing else is asked of it, so rounding is
/// up to the implementor and no algebraic identity may be taken for granted.
pub trait Scalar: Sized {
    spec fn zero_spec() -> Self;

    spec fn one_spec() -> Self;

    spec fn half_spec() -> Self;

    /// The largest finite number.
    spec fn largest_value_spec() -> Self;

    /// The distance from one to the next number.
    spec fn epsilon_spec() -> Self;

    /// The reciprocal of the circle constant.
    spec fn frac_1_pi_spec() -> Self;

    /// The number that stands for the natural number `n`.
    spec fn of_nat_spec(n: u32) -> Self;

    spec fn spec_add(self, rhs: Self) -> Self;

    spec fn spec_sub(self, rhs: Self) -> Self;

    spec fn spec_mul(self, rhs: Self) -> Self;

    spec fn spec_neg(self) -> Self;

    spec fn over_spec(self, rhs: Self) -> Self;

    spec fn recip_spec(self) -> Self;

    spec fn powi_spec(self, n: i32) -> Self;

    spec fn sqrt_spec(self) -> Self;

    /// Euler's number to the power of `self`.
    spec fn e_powf_spec(self) -> Self;

    spec fn ceil_spec(self) -> Self;

    /// `self` limited to the unit interval.
    spec fn clamp_unit_spec(self) -> Self;

    spec fn larger_spec(self, rhs: Self) -> Self;

    spec fn smaller_spec(self, rhs: Self) -> Self;

    /// `self`, or zero where `self` is infinite or no number.
    spec fn finite_or_zero_spec(self) -> Self;

    spec fn at_least_spec(self, rhs: Self) -> bool;

    /// `self` is larger than `rhs`.
    spec fn exceeds_spec(self, rhs: Self) -> bool;

    /// `self` comes behind `rhs` in the order of all numbers, which ranks those that do not compare
    /// too.
    spec fn ranks_above_spec(self, rhs: Self) -> bool;

    spec fn is_sign_negative_spec(self) -> bool;

    /// `self` rounded towards zero and limited to what an index can hold.
    spec fn to_index_spec(self) -> u32;

    /// `self` rounded towards zero and limited to what a length can be.
    spec fn to_count_spec(self) -> usize;

    fn zero() -> (r: Self)
        ensures
            r == Self::zero_spec(),
    ;

    fn one() -> (r: Self)
        ensures
            r == Self::one_spec(),
    ;

    fn half() -> (r: Self)
        ensures
            r == Self::half_spec(),
    ;

    fn largest_value() -> (r: Self)
        ensures
            r == Self::largest_value_spec(),
    ;

    fn epsilon() -> (r: Self)
        ensures
            r == Self::epsilon_spec(),
    ;

    fn frac_1_pi() -> (r: Self)
        ensures
            r == Self::frac_1_pi_spec(),
    ;

    fn of_nat(n: u32) -> (r: Self)
        ensures
            r == Self::of_nat_spec(n),
    ;

    fn dup(&self) -> (r: Self)
        ensures
            r == *self,
    ;

    fn plus(&self, rhs: &Self) -> (r: Self)
        ensures
            r == *self + *rhs,
    ;

    fn minus(&self, rhs: &Self) -> (r: Self)
        ensures
            r == *self - *rhs,
    ;

    fn times(&self, rhs: &Self) -> (r: Self)
        ensures
            r == *self * *rhs,
    ;

    fn negated(&self) -> (r: Self)
        ensures
            r == -*self,
    ;

    fn over(&self, rhs: &Self) -> (r: Self)
        ensures
            r == self.over_spec(*rhs),
    ;

    fn recip(&self) -> (r: Self)
        ensures
            r == self.recip_spec(),
    ;

    fn powi(&self, n: i32) -> (r: Self)
        ensures
            r == self.powi_spec(n),
    ;

    fn sqrt(&self) -> (r: Self)
        ensures
            r == self.sqrt_spec(),
    ;

    fn e_powf(&self) -> (r: Self)
        ensures
            r == self.e_powf_spec(),
    ;

    fn ceil(&self) -> (r: Self)
        ensures
            r == self.ceil_spec(),
    ;

    fn clamp_unit(&self) -> (r: Self)
        ensures
            r == self.clamp_unit_spec(),
    ;

    fn larger(&self, rhs: &Self) -> (r: Self)
        ensures
            r == self.larger_spec(*rhs),
    ;

    fn smaller(&self, rhs: &Self) -> (r: Self)
        ensures
            r == self.smaller_spec(*rhs),
    ;

    fn finite_or_zero(&self) -> (r: Self)
        ensures
            r == self.finite_or_zero_spec(),
    ;

    fn at_least(&self, rhs: &Self) -> (r: bool)
        ensures
            r == self.at_least_spec(*rhs),
    ;

    fn exceeds(&self, rhs: &Self) -> (r: bool)
        ensures
            r == self.exceeds_spec(*rhs),
    ;

    fn ranks_above(&self, rhs: &Self) -> (r: bool)
        ensures
            r == self.ranks_above_spec(*rhs),
    ;

    fn is_sign_negative(&self) -> (r: bool)
        ensures
            r == self.is_sign_negative_spec(),
    ;

    fn to_index(&self) -> (r: u32)
        ensures
            r == self.to_index_spec(),
    ;

    fn to_count(&self) -> (r: usize)
        ensures
            r == self.to_count_spec(),
    ;
}

/// One for `true`, zero for `false`.
pub open spec fn bit_spec<S: Scalar>(on: bool) -> S {
    S::of_nat_spec(if on { 1 } else { 0 })
}

pub fn bit<S: Scalar>(on: bool) -> (r: S)
    ensures
        r == bit_spec::<S>(on),
{
    S::of_nat(if on { 1 } else { 0 })
}

} // verus!
