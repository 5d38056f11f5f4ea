//! When two numbers count as equal.
//!
//! Two ways to compute a number may give results that differ in a way nobody cares about, such as
//! the sign of a zero, or two formulas with the same value. The laws that say so hold for every
//! equivalence that the arithmetic respects.
use crate::scalar::Scalar;
use crate::vector::Vec4;
use vstd::prelude::*;

verus! {

/// `a` and `b` count as equal.
pub open spec fn alike<S>(same: spec_fn(S, S) -> bool, a: S, b: S) -> bool {
    same(a, b)
}

/// `same` is an equivalence, and the results of sums, differences, products and changes of sign are
/// the same where their operands are.
pub open spec fn respected<S: Scalar>(same: spec_fn(S, S) -> bool) -> bool {
    &&& forall|a: S| #[trigger] alike(same, a, a)
    &&& forall|a: S, b: S| #[trigger] alike(same, a, b) ==> alike(same, b, a)
    &&& forall|a: S, b: S, c: S| #[trigger]
        alike(same, a, b) && #[trigger] alike(same, b, c) ==> alike(same, a, c)
    &&& forall|a: S, b: S, c: S, d: S|
        alike(same, a, c) && alike(same, b, d) ==> alike(
            same,
            #[trigger] (a + b),
            #[trigger] (c + d),
        )
    &&& forall|a: S, b: S, c: S, d: S|
        alike(same, a, c) && alike(same, b, d) ==> alike(
            same,
            #[trigger] (a - b),
            #[trigger] (c - d),
        )
    &&& forall|a: S, b: S, c: S, d: S|
        alike(same, a, c) && alike(same, b, d) ==> alike(
            same,
            #[trigger] (a * b),
            #[trigger] (c * d),
        )
    &&& forall|a: S, b: S| alike(same, a, b) ==> alike(same, #[trigger] (-a), #[trigger] (-b))
}

/// The number is finite.
pub open spec fn finite<S: Scalar>(same: spec_fn(S, S) -> bool, a: S) -> bool {
    alike(same, a.finite_or_zero_spec(), a)
}

/// The number is zero.
pub open spec fn null<S: Scalar>(same: spec_fn(S, S) -> bool, a: S) -> bool {
    alike(same, a, S::zero_spec())
}

/// The arithmetic respects `same`, and up to it zero does what it should: adding or subtracting it
/// changes nothing, a finite number times zero is zero, and a product is subtracted from zero by
/// changing the sign of its first factor.
///
/// Floating point numbers meet this where the two zeros are the same, and all that are no numbers.
#[verifier::opaque]
pub open spec fn exact_at_zero<S: Scalar>(same: spec_fn(S, S) -> bool) -> bool {
    let zero = S::zero_spec();
    &&& respected(same)
    &&& finite(same, zero)
    &&& forall|a: S| alike(same, #[trigger] (a + zero), a)
    &&& forall|a: S| alike(same, #[trigger] (a - zero), a)
    &&& forall|a: S, b: S| alike(same, #[trigger] (zero - a * b), (-a) * b)
    &&& forall|a: S| finite(same, a) ==> null(same, #[trigger] (a * zero))
    &&& forall|a: S| finite(same, a) ==> null(same, #[trigger] (zero * a))
}

/// Every component of the vectors is the same.
pub open spec fn alike4<S>(same: spec_fn(S, S) -> bool, a: Vec4<S>, b: Vec4<S>) -> bool {
    &&& alike(same, a.x, b.x)
    &&& alike(same, a.y, b.y)
    &&& alike(same, a.z, b.z)
    &&& alike(same, a.w, b.w)
}

/// The vectors have the same length, and are the same one by one.
pub open spec fn all_alike<S>(
    same: spec_fn(S, S) -> bool,
    a: Seq<Vec4<S>>,
    b: Seq<Vec4<S>>,
) -> bool {
    &&& a.len() == b.len()
    &&& forall|i: int| 0 <= i < a.len() ==> alike4(same, #[trigger] a[i], #[trigger] b[i])
}

pub(crate) proof fn lemma_itself<S: Scalar>(same: spec_fn(S, S) -> bool, a: S)
    requires
        exact_at_zero(same),
    ensures
        alike(same, a, a),
{
    reveal(exact_at_zero);
}

pub(crate) proof fn lemma_itself4<S: Scalar>(same: spec_fn(S, S) -> bool, a: Vec4<S>)
    requires
        exact_at_zero(same),
    ensures
        alike4(same, a, a),
{
    reveal(exact_at_zero);
}

pub(crate) proof fn lemma_back<S: Scalar>(same: spec_fn(S, S) -> bool, a: S, b: S)
    requires
        exact_at_zero(same),
        alike(same, a, b),
    ensures
        alike(same, b, a),
{
    reveal(exact_at_zero);
}

pub(crate) proof fn lemma_chain<S: Scalar>(same: spec_fn(S, S) -> bool, a: S, b: S, c: S)
    requires
        exact_at_zero(same),
        alike(same, a, b),
        alike(same, b, c),
    ensures
        alike(same, a, c),
{
    reveal(exact_at_zero);
}

pub(crate) proof fn lemma_sum<S: Scalar>(same: spec_fn(S, S) -> bool, a: S, b: S, c: S, d: S)
    requires
        exact_at_zero(same),
        alike(same, a, c),
        alike(same, b, d),
    ensures
        alike(same, a + b, c + d),
{
    reveal(exact_at_zero);
}

pub(crate) proof fn lemma_difference<S: Scalar>(
    same: spec_fn(S, S) -> bool,
    a: S,
    b: S,
    c: S,
    d: S,
)
    requires
        exact_at_zero(same),
        alike(same, a, c),
        alike(same, b, d),
    ensures
        alike(same, a - b, c - d),
{
    reveal(exact_at_zero);
}

pub(crate) proof fn lemma_product<S: Scalar>(same: spec_fn(S, S) -> bool, a: S, b: S, c: S, d: S)
    requires
        exact_at_zero(same),
        alike(same, a, c),
        alike(same, b, d),
    ensures
        alike(same, a * b, c * d),
{
    reveal(exact_at_zero);
}

pub(crate) proof fn lemma_opposite<S: Scalar>(same: spec_fn(S, S) -> bool, a: S, b: S)
    requires
        exact_at_zero(same),
        alike(same, a, b),
    ensures
        alike(same, -a, -b),
{
    reveal(exact_at_zero);
}

/// Zero is zero, and adding or subtracting it changes nothing.
pub(crate) proof fn lemma_zero<S: Scalar>(same: spec_fn(S, S) -> bool, a: S, b: S)
    requires
        exact_at_zero(same),
    ensures
        null(same, S::zero_spec()),
        finite(same, S::zero_spec()),
        alike(same, a - S::zero_spec(), a),
        alike(same, S::zero_spec() - a * b, (-a) * b),
        null(same, b) ==> alike(same, a + b, a),
{
    reveal(exact_at_zero);
    let zero = S::zero_spec();
    if null(same, b) {
        lemma_itself(same, a);
        lemma_sum(same, a, b, a, zero);
        lemma_chain(same, a + b, a + zero, a);
    }
}

/// A product with zero is zero where the other factor is finite.
pub(crate) proof fn lemma_null_product<S: Scalar>(same: spec_fn(S, S) -> bool, a: S, b: S)
    requires
        exact_at_zero(same),
        finite(same, a) && null(same, b) || null(same, a) && finite(same, b),
    ensures
        null(same, a * b),
{
    let zero = S::zero_spec();
    lemma_itself(same, a);
    lemma_itself(same, b);
    if finite(same, a) && null(same, b) {
        lemma_product(same, a, b, a, zero);
        assert(null(same, a * zero)) by {
            reveal(exact_at_zero);
        }
        lemma_chain(same, a * b, a * zero, zero);
    } else {
        lemma_product(same, a, b, zero, b);
        assert(null(same, zero * b)) by {
            reveal(exact_at_zero);
        }
        lemma_chain(same, a * b, zero * b, zero);
    }
}

/// The product of two zeros is zero.
pub(crate) proof fn lemma_null_squared<S: Scalar>(same: spec_fn(S, S) -> bool, a: S, b: S)
    requires
        exact_at_zero(same),
        null(same, a),
        null(same, b),
    ensures
        null(same, a * b),
{
    let zero = S::zero_spec();
    lemma_zero(same, zero, zero);
    lemma_product(same, a, b, zero, zero);
    lemma_null_product(same, zero, zero);
    lemma_chain(same, a * b, zero * zero, zero);
}

/// The sum of two zeros is zero.
pub(crate) proof fn lemma_null_sum<S: Scalar>(same: spec_fn(S, S) -> bool, a: S, b: S)
    requires
        exact_at_zero(same),
        null(same, a),
        null(same, b),
    ensures
        null(same, a + b),
{
    lemma_zero(same, a, b);
    lemma_chain(same, a + b, a, S::zero_spec());
}

} // verus!
