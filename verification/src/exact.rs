//! Exact arithmetic: the numbers of a simulation read as real numbers.
//!
//! The numbers of a machine are rounded, so no law of algebra holds of them. What a computation is
//! meant to give is stated of every reading of its numbers as real numbers that the arithmetic
//! respects.
use crate::scalar::Scalar;
use vstd::prelude::*;

verus! {

/// The real number that `a` stands for.
pub open spec fn at<S>(read: spec_fn(S) -> real, a: S) -> real {
    read(a)
}

/// The larger of two real numbers.
pub open spec fn larger_real(a: real, b: real) -> real {
    if a >= b {
        a
    } else {
        b
    }
}

/// The smaller of two real numbers.
pub open spec fn smaller_real(a: real, b: real) -> real {
    if a <= b {
        a
    } else {
        b
    }
}

/// The product of two real numbers.
#[verifier::opaque]
pub open spec fn times(a: real, b: real) -> real {
    a * b
}

/// The quotient of two real numbers.
#[verifier::opaque]
pub open spec fn over(a: real, b: real) -> real {
    a / b
}

/// `x` to the power of `n`.
pub open spec fn power(x: real, n: nat) -> real
    decreases n,
{
    if n == 0 {
        1 as real
    } else {
        times(x, power(x, (n - 1) as nat))
    }
}

/// The arithmetic on numbers is the arithmetic on the real numbers that `read` makes of them.
/// Nothing is said of quotients by zero, and of the exponential function only that it is one.
pub open spec fn exact<S: Scalar>(read: spec_fn(S) -> real) -> bool {
    &&& at(read, S::zero_spec()) == 0 as real
    &&& at(read, S::one_spec()) == 1 as real
    &&& at(read, S::half_spec()) == over(1 as real, 2 as real)
    &&& forall|n: u32| at(read, #[trigger] S::of_nat_spec(n)) == n as real
    &&& forall|a: S, b: S| at(read, #[trigger] (a + b)) == at(read, a) + at(read, b)
    &&& forall|a: S, b: S| at(read, #[trigger] (a - b)) == at(read, a) - at(read, b)
    &&& forall|a: S, b: S| at(read, #[trigger] (a * b)) == times(at(read, a), at(read, b))
    &&& forall|a: S| at(read, #[trigger] (-a)) == -at(read, a)
    &&& forall|a: S, b: S|
        at(read, b) != 0 as real ==> at(read, #[trigger] a.over_spec(b)) == over(
            at(read, a),
            at(read, b),
        )
    &&& forall|a: S|
        at(read, a) != 0 as real ==> at(read, #[trigger] a.recip_spec()) == over(
            1 as real,
            at(read, a),
        )
    &&& forall|a: S, n: i32|
        n >= 0 ==> at(read, #[trigger] a.powi_spec(n)) == power(at(read, a), n as nat)
    &&& forall|a: S, b: S|
        at(read, #[trigger] a.larger_spec(b)) == larger_real(at(read, a), at(read, b))
    &&& forall|a: S, b: S|
        at(read, #[trigger] a.smaller_spec(b)) == smaller_real(at(read, a), at(read, b))
    &&& forall|a: S|
        at(read, #[trigger] a.clamp_unit_spec()) == larger_real(
            0 as real,
            smaller_real(1 as real, at(read, a)),
        )
    &&& forall|a: S| at(read, #[trigger] a.finite_or_zero_spec()) == at(read, a)
    &&& forall|a: S, b: S|
        at(read, a) == at(read, b) ==> at(read, #[trigger] a.e_powf_spec()) == at(
            read,
            #[trigger] b.e_powf_spec(),
        )
}

/// Square roots are exact.
pub open spec fn exact_roots<S: Scalar>(read: spec_fn(S) -> real) -> bool {
    forall|a: S|
        at(read, a) >= 0 as real ==> at(read, #[trigger] a.sqrt_spec()) >= 0 as real && times(
            at(read, a.sqrt_spec()),
            at(read, a.sqrt_spec()),
        ) == at(read, a)
}

/// Numbers are rounded up to the next whole number.
pub open spec fn exact_ceilings<S: Scalar>(
    read: spec_fn(S) -> real,
    whole: spec_fn(S) -> int,
) -> bool {
    forall|a: S|
        {
            let up = whole(a) as real;
            &&& at(read, #[trigger] a.ceil_spec()) == up
            &&& at(read, a) <= up
            &&& up < at(read, a) + 1 as real
        }
}

/// Numbers that an index can hold are rounded down to it.
pub open spec fn exact_indices<S: Scalar>(read: spec_fn(S) -> real) -> bool {
    forall|a: S|
        {
            let down = #[trigger] a.to_index_spec() as real;
            0 as real <= at(read, a) && at(read, a) <= u32::MAX as real ==> down <= at(read, a)
                && at(read, a) < down + 1 as real
        }
}

/// The factors of a product can be exchanged.
pub(crate) proof fn lemma_swap(a: real, b: real)
    ensures
        times(a, b) == times(b, a),
{
    reveal(times);
    assert(a * b == b * a) by (nonlinear_arith);
}

/// The factors of a product can be multiplied in any order.
pub(crate) proof fn lemma_shift(a: real, b: real, c: real)
    ensures
        times(times(a, b), c) == times(a, times(b, c)),
{
    reveal(times);
    assert(a * b * c == a * (b * c)) by (nonlinear_arith);
}

/// The last two factors of a product can be exchanged.
pub(crate) proof fn lemma_swap_last(a: real, b: real, c: real)
    ensures
        times(times(a, b), c) == times(times(a, c), b),
{
    reveal(times);
    assert(a * b * c == a * c * b) by (nonlinear_arith);
}

/// Products with sums.
pub(crate) proof fn lemma_distribute(a: real, b: real, c: real)
    ensures
        times(a, b + c) == times(a, b) + times(a, c),
        times(b + c, a) == times(b, a) + times(c, a),
{
    reveal(times);
    assert(a * (b + c) == a * b + a * c) by (nonlinear_arith);
    assert((b + c) * a == b * a + c * a) by (nonlinear_arith);
}

/// Products with differences.
pub(crate) proof fn lemma_distribute_minus(a: real, b: real, c: real)
    ensures
        times(a, b - c) == times(a, b) - times(a, c),
        times(b - c, a) == times(b, a) - times(c, a),
{
    reveal(times);
    assert(a * (b - c) == a * b - a * c) by (nonlinear_arith);
    assert((b - c) * a == b * a - c * a) by (nonlinear_arith);
}

/// The sign of a product.
pub(crate) proof fn lemma_negated(a: real, b: real)
    ensures
        times(-a, b) == -times(a, b),
        times(a, -b) == -times(a, b),
{
    reveal(times);
    assert((-a) * b == -(a * b)) by (nonlinear_arith);
    assert(a * (-b) == -(a * b)) by (nonlinear_arith);
}

/// Products with zero and one.
pub(crate) proof fn lemma_unit(a: real)
    ensures
        times(0 as real, a) == 0 as real,
        times(a, 0 as real) == 0 as real,
        times(1 as real, a) == a,
        times(a, 1 as real) == a,
{
    reveal(times);
}

/// A product with four times a factor.
pub(crate) proof fn lemma_four_times(a: real, b: real)
    ensures
        times(4 as real, a) == 4 as real * a,
        times(4 as real * a, b) == 4 as real * times(a, b),
        times(a, 4 as real * b) == 4 as real * times(a, b),
{
    reveal(times);
    assert((4 as real * a) * b == 4 as real * (a * b)) by (nonlinear_arith);
    assert(a * (4 as real * b) == 4 as real * (a * b)) by (nonlinear_arith);
}

/// A quotient times its divisor is the dividend.
pub(crate) proof fn lemma_times_divisor(a: real, e: real)
    requires
        e != 0 as real,
    ensures
        times(over(a, e), e) == a,
{
    reveal(times);
    reveal(over);
    assert(a / e * e == a) by (nonlinear_arith)
        requires
            e != 0 as real,
    ;
}

/// A product divided by one of its factors is the other.
pub(crate) proof fn lemma_quotient(a: real, b: real, e: real)
    requires
        e != 0 as real,
        a == times(b, e),
    ensures
        over(a, e) == b,
{
    reveal(times);
    reveal(over);
    assert(b * e / e == b) by (nonlinear_arith)
        requires
            e != 0 as real,
    ;
}

/// A quotient is the product with the reciprocal.
pub(crate) proof fn lemma_over(c: real, mu: real)
    requires
        mu != 0 as real,
    ensures
        over(c, mu) == times(c, over(1 as real, mu)),
{
    lemma_times_divisor(1 as real, mu);
    lemma_shift(c, over(1 as real, mu), mu);
    lemma_unit(c);
    lemma_quotient(c, times(c, over(1 as real, mu)), mu);
}

/// Products of numbers that are not negative, and of positive ones.
pub(crate) proof fn lemma_product_sign(a: real, b: real)
    requires
        a >= 0 as real,
        b >= 0 as real,
    ensures
        times(a, b) >= 0 as real,
        a > 0 as real && b > 0 as real ==> times(a, b) > 0 as real,
{
    reveal(times);
    assert(a * b >= 0 as real) by (nonlinear_arith)
        requires
            a >= 0 as real,
            b >= 0 as real,
    ;
    if a > 0 as real && b > 0 as real {
        assert(a * b > 0 as real) by (nonlinear_arith)
            requires
                a > 0 as real,
                b > 0 as real,
        ;
    }
}

/// Quotients of numbers that are not negative, and of positive ones.
pub(crate) proof fn lemma_quotient_sign(a: real, b: real)
    requires
        a >= 0 as real,
        b > 0 as real,
    ensures
        over(a, b) >= 0 as real,
        a > 0 as real ==> over(a, b) > 0 as real,
{
    reveal(over);
    assert(a / b >= 0 as real) by (nonlinear_arith)
        requires
            a >= 0 as real,
            b > 0 as real,
    ;
    if a > 0 as real {
        assert(a / b > 0 as real) by (nonlinear_arith)
            requires
                a > 0 as real,
                b > 0 as real,
        ;
    }
}

/// A quotient of numbers other than zero is not zero.
pub(crate) proof fn lemma_quotient_other_than_zero(a: real, b: real)
    requires
        a != 0 as real,
        b != 0 as real,
    ensures
        over(a, b) != 0 as real,
{
    lemma_times_divisor(a, b);
    lemma_unit(b);
}

/// Numbers with the same product with a number other than zero are the same.
pub(crate) proof fn lemma_same_factor(a: real, b: real, e: real)
    requires
        e != 0 as real,
        times(a, e) == times(b, e),
    ensures
        a == b,
{
    lemma_quotient(times(a, e), a, e);
    lemma_quotient(times(a, e), b, e);
}

/// The square of a number.
pub(crate) proof fn lemma_square(x: real)
    ensures
        power(x, 2) == times(x, x),
{
    reveal_with_fuel(power, 3);
    lemma_unit(x);
}

} // verus!
