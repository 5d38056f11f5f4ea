//! Formulas in whole numbers: an arithmetic that is exact where the laws of this crate ask for it.
use crate::box_laws::{ordered, up_to};
use crate::color::ranked_in_order;
use crate::equivalence::{alike, exact_at_zero, finite, null};
use crate::exact::{at, exact, larger_real, over, power, smaller_real, times};
use crate::pml::{ramp_sig, ramps_commute, ramps_end_at_zero};
use crate::scalar::Scalar;
use crate::symbolic::Expr;
use vstd::arithmetic::power::{lemma0_pow, pow};
use vstd::prelude::*;

verus! {

/// The larger of two whole numbers.
pub open spec fn max_of(a: int, b: int) -> int {
    if a >= b {
        a
    } else {
        b
    }
}

/// The value of a formula in whole numbers. Quotients are rounded down, a negative power is taken
/// for zero, and `other` gives the values of everything that has none in whole numbers.
pub open spec fn value(e: Expr, other: spec_fn(Expr) -> int) -> int
    decreases e,
{
    match e {
        Expr::Nat(n) => n as int,
        Expr::Plus(a, b) => value(*a, other) + value(*b, other),
        Expr::Minus(a, b) => value(*a, other) - value(*b, other),
        Expr::Times(a, b) => value(*a, other) * value(*b, other),
        Expr::Over(a, b) => value(*a, other) / value(*b, other),
        Expr::Larger(a, b) => max_of(value(*a, other), value(*b, other)),
        Expr::Smaller(a, b) => -max_of(-value(*a, other), -value(*b, other)),
        Expr::Neg(a) => -value(*a, other),
        Expr::ClampUnit(a) => if value(*a, other) >= 1 {
            1
        } else {
            0
        },
        Expr::FiniteOrZero(a) => value(*a, other),
        Expr::Powi(a, n) => if n >= 0 {
            pow(value(*a, other), n as nat)
        } else {
            0
        },
        _ => other(e),
    }
}

/// The formulas have the same value.
pub open spec fn same_value(other: spec_fn(Expr) -> int) -> spec_fn(Expr, Expr) -> bool {
    |a: Expr, b: Expr| value(a, other) == value(b, other)
}

/// The value of the first formula is not larger.
pub open spec fn up_to_value(other: spec_fn(Expr) -> int) -> spec_fn(Expr, Expr) -> bool {
    |a: Expr, b: Expr| value(a, other) <= value(b, other)
}

/// Up to their values, formulas are exact at zero.
pub proof fn law_formulas_are_exact_at_zero(other: spec_fn(Expr) -> int)
    ensures
        exact_at_zero(same_value(other)),
{
    let same = same_value(other);
    let zero = Expr::zero_spec();
    reveal(exact_at_zero);
    reveal_with_fuel(value, 3);
    assert forall|a: Expr| null(same, #[trigger] (a * zero)) by {
        assert(value(a, other) * 0 == 0) by (nonlinear_arith);
    }
    assert forall|a: Expr| null(same, #[trigger] (zero * a)) by {
        assert(0 * value(a, other) == 0) by (nonlinear_arith);
    }
    assert forall|a: Expr, b: Expr| alike(same, #[trigger] (zero - a * b), (-a) * b) by {
        let (x, y) = (value(a, other), value(b, other));
        assert(0 - x * y == (-x) * y) by (nonlinear_arith);
    }
    assert(finite(same, zero));
}

/// The values of formulas are ordered, where the machine epsilon is not negative.
pub proof fn law_formulas_are_ordered(other: spec_fn(Expr) -> int)
    requires
        other(Expr::Epsilon) >= 0,
    ensures
        ordered(up_to_value(other)),
{
    reveal(ordered);
    let le = up_to_value(other);
    let eps = Expr::epsilon_spec();
    assert(value(eps, other) == other(Expr::Epsilon));
    assert forall|a: Expr, b: Expr| up_to(le, a, b) implies up_to(
        le,
        #[trigger] (a - eps),
        #[trigger] (b - eps),
    ) by {}
}

/// Up to their values, the ramps of absorbing layers in formulas commute, and end at zero where the
/// grading order is positive.
pub proof fn law_formulas_have_exact_ramps(
    other: spec_fn(Expr) -> int,
    sig_max: Expr,
    grading_order: i32,
)
    ensures
        ramps_commute(same_value(other), sig_max, grading_order),
        grading_order > 0 ==> ramps_end_at_zero(same_value(other), sig_max, grading_order),
{
    let same = same_value(other);
    reveal_with_fuel(value, 5);
    if grading_order > 0 {
        assert forall|d: u32, w: u32| d >= w > 0 implies null(
            same,
            (Expr::one_spec() - (#[trigger] Expr::of_nat_spec(d)).over_spec(
                #[trigger] Expr::of_nat_spec(w),
            )).clamp_unit_spec(),
        ) by {
            assert(d as int / w as int >= 1) by (nonlinear_arith)
                requires
                    d >= w > 0,
            ;
            let quotient = Expr::of_nat_spec(d).over_spec(Expr::of_nat_spec(w));
            assert(value(quotient, other) == d as int / w as int);
            assert(value(Expr::one_spec() - quotient, other) == 1 - d as int / w as int);
        }
        assert forall|a: Expr, b: Expr| null(same, a) && null(same, b) implies null(
            same,
            #[trigger] ramp_sig(sig_max, grading_order, a + b),
        ) by {
            lemma0_pow(grading_order as nat);
            assert(value(sig_max, other) * 0 == 0) by (nonlinear_arith);
            assert(value(a + b, other) == 0);
            assert(value((a + b).powi_spec(grading_order), other) == 0);
        }
    }
}

/// The value of a formula in real numbers, where `exp` is the exponential function. `other` gives
/// the values of the inputs and of everything else that arithmetic does not fix.
pub open spec fn real_value(
    e: Expr,
    exp: spec_fn(real) -> real,
    other: spec_fn(Expr) -> real,
) -> real
    decreases e,
{
    match e {
        Expr::Nat(n) => n as real,
        Expr::Half => over(1 as real, 2 as real),
        Expr::Plus(a, b) => real_value(*a, exp, other) + real_value(*b, exp, other),
        Expr::Minus(a, b) => real_value(*a, exp, other) - real_value(*b, exp, other),
        Expr::Times(a, b) => times(real_value(*a, exp, other), real_value(*b, exp, other)),
        Expr::Over(a, b) => over(real_value(*a, exp, other), real_value(*b, exp, other)),
        Expr::Larger(a, b) => larger_real(
            real_value(*a, exp, other),
            real_value(*b, exp, other),
        ),
        Expr::Smaller(a, b) => smaller_real(
            real_value(*a, exp, other),
            real_value(*b, exp, other),
        ),
        Expr::Neg(a) => -real_value(*a, exp, other),
        Expr::Recip(a) => over(1 as real, real_value(*a, exp, other)),
        Expr::EPowf(a) => exp(real_value(*a, exp, other)),
        Expr::ClampUnit(a) => larger_real(
            0 as real,
            smaller_real(1 as real, real_value(*a, exp, other)),
        ),
        Expr::FiniteOrZero(a) => real_value(*a, exp, other),
        Expr::Powi(a, n) => if n >= 0 {
            power(real_value(*a, exp, other), n as nat)
        } else {
            other(e)
        },
        _ => other(e),
    }
}

/// Formulas read by their values in real numbers.
pub open spec fn by_real_value(
    exp: spec_fn(real) -> real,
    other: spec_fn(Expr) -> real,
) -> spec_fn(Expr) -> real {
    |e: Expr| real_value(e, exp, other)
}

/// Formulas compute exactly in real numbers.
pub proof fn law_formulas_compute_exactly(
    exp: spec_fn(real) -> real,
    other: spec_fn(Expr) -> real,
)
    ensures
        exact(by_real_value(exp, other)),
        forall|e: Expr| at(by_real_value(exp, other), e) == #[trigger] real_value(e, exp, other),
{
    reveal_with_fuel(real_value, 2);
}

/// Formulas are ranked in one order.
pub proof fn law_formulas_are_ranked_in_order()
    ensures
        ranked_in_order::<Expr>(),
{
}

} // verus!
