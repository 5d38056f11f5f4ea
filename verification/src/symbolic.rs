//! Symbolic numbers.
//!
//! Running a kernel on [`Expr`] values yields the update equation it computes, as a formula over
//! the inputs.
use crate::scalar::Scalar;
use vstd::prelude::*;

verus! {

/// A formula over numbered inputs.
#[derive(Debug, PartialEq, Eq)]
pub enum Expr {
    Input(u32),
    Nat(u32),
    Half,
    LargestValue,
    Epsilon,
    Frac1Pi,
    Plus(Box<Expr>, Box<Expr>),
    Minus(Box<Expr>, Box<Expr>),
    Times(Box<Expr>, Box<Expr>),
    Over(Box<Expr>, Box<Expr>),
    Larger(Box<Expr>, Box<Expr>),
    Smaller(Box<Expr>, Box<Expr>),
    Neg(Box<Expr>),
    Recip(Box<Expr>),
    Sqrt(Box<Expr>),
    EPowf(Box<Expr>),
    Ceil(Box<Expr>),
    ClampUnit(Box<Expr>),
    FiniteOrZero(Box<Expr>),
    Powi(Box<Expr>, i32),
}

impl Scalar for Expr {
    open spec fn zero_spec() -> Self {
        Expr::Nat(0)
    }

    open spec fn one_spec() -> Self {
        Expr::Nat(1)
    }

    open spec fn half_spec() -> Self {
        Expr::Half
    }

    open spec fn largest_value_spec() -> Self {
        Expr::LargestValue
    }

    open spec fn epsilon_spec() -> Self {
        Expr::Epsilon
    }

    open spec fn frac_1_pi_spec() -> Self {
        Expr::Frac1Pi
    }

    open spec fn of_nat_spec(n: u32) -> Self {
        Expr::Nat(n)
    }

    open spec fn spec_add(self, rhs: Self) -> Self {
        Expr::Plus(Box::new(self), Box::new(rhs))
    }

    open spec fn spec_sub(self, rhs: Self) -> Self {
        Expr::Minus(Box::new(self), Box::new(rhs))
    }

    open spec fn spec_mul(self, rhs: Self) -> Self {
        Expr::Times(Box::new(self), Box::new(rhs))
    }

    open spec fn spec_neg(self) -> Self {
        Expr::Neg(Box::new(self))
    }

    open spec fn over_spec(self, rhs: Self) -> Self {
        Expr::Over(Box::new(self), Box::new(rhs))
    }

    open spec fn recip_spec(self) -> Self {
        Expr::Recip(Box::new(self))
    }

    open spec fn powi_spec(self, n: i32) -> Self {
        Expr::Powi(Box::new(self), n)
    }

    open spec fn sqrt_spec(self) -> Self {
        Expr::Sqrt(Box::new(self))
    }

    open spec fn e_powf_spec(self) -> Self {
        Expr::EPowf(Box::new(self))
    }

    open spec fn ceil_spec(self) -> Self {
        Expr::Ceil(Box::new(self))
    }

    open spec fn clamp_unit_spec(self) -> Self {
        Expr::ClampUnit(Box::new(self))
    }

    open spec fn larger_spec(self, rhs: Self) -> Self {
        Expr::Larger(Box::new(self), Box::new(rhs))
    }

    open spec fn smaller_spec(self, rhs: Self) -> Self {
        Expr::Smaller(Box::new(self), Box::new(rhs))
    }

    open spec fn finite_or_zero_spec(self) -> Self {
        Expr::FiniteOrZero(Box::new(self))
    }

    /// Only two literals compare; a formula is at least nothing.
    open spec fn at_least_spec(self, rhs: Self) -> bool {
        match (self, rhs) {
            (Expr::Nat(a), Expr::Nat(b)) => a >= b,
            _ => false,
        }
    }

    /// Only two literals compare.
    open spec fn exceeds_spec(self, rhs: Self) -> bool {
        match (self, rhs) {
            (Expr::Nat(a), Expr::Nat(b)) => a > b,
            _ => false,
        }
    }

    /// Literals rank by their value; all other formulas rank alike, below them.
    open spec fn ranks_above_spec(self, rhs: Self) -> bool {
        match (self, rhs) {
            (Expr::Nat(a), Expr::Nat(b)) => a > b,
            (Expr::Nat(_), _) => true,
            _ => false,
        }
    }

    /// A formula is negative where a negation stands at its head.
    open spec fn is_sign_negative_spec(self) -> bool {
        self is Neg
    }

    /// A literal is its own index; any other formula indexes the first cell.
    open spec fn to_index_spec(self) -> u32 {
        match self {
            Expr::Nat(n) => n,
            _ => 0,
        }
    }

    /// A literal is its own count; any other formula counts nothing.
    open spec fn to_count_spec(self) -> usize {
        match self {
            Expr::Nat(n) => n as usize,
            _ => 0,
        }
    }

    fn zero() -> Self {
        Expr::Nat(0)
    }

    fn one() -> Self {
        Expr::Nat(1)
    }

    fn half() -> Self {
        Expr::Half
    }

    fn largest_value() -> Self {
        Expr::LargestValue
    }

    fn epsilon() -> Self {
        Expr::Epsilon
    }

    fn frac_1_pi() -> Self {
        Expr::Frac1Pi
    }

    fn of_nat(n: u32) -> Self {
        Expr::Nat(n)
    }

    fn dup(&self) -> (r: Self)
        decreases *self,
    {
        match self {
            Expr::Input(i) => Expr::Input(*i),
            Expr::Nat(n) => Expr::Nat(*n),
            Expr::Half => Expr::Half,
            Expr::LargestValue => Expr::LargestValue,
            Expr::Epsilon => Expr::Epsilon,
            Expr::Frac1Pi => Expr::Frac1Pi,
            Expr::Plus(a, b) => Expr::Plus(Box::new(a.dup()), Box::new(b.dup())),
            Expr::Minus(a, b) => Expr::Minus(Box::new(a.dup()), Box::new(b.dup())),
            Expr::Times(a, b) => Expr::Times(Box::new(a.dup()), Box::new(b.dup())),
            Expr::Over(a, b) => Expr::Over(Box::new(a.dup()), Box::new(b.dup())),
            Expr::Larger(a, b) => Expr::Larger(Box::new(a.dup()), Box::new(b.dup())),
            Expr::Smaller(a, b) => Expr::Smaller(Box::new(a.dup()), Box::new(b.dup())),
            Expr::Neg(a) => Expr::Neg(Box::new(a.dup())),
            Expr::Recip(a) => Expr::Recip(Box::new(a.dup())),
            Expr::Sqrt(a) => Expr::Sqrt(Box::new(a.dup())),
            Expr::EPowf(a) => Expr::EPowf(Box::new(a.dup())),
            Expr::Ceil(a) => Expr::Ceil(Box::new(a.dup())),
            Expr::ClampUnit(a) => Expr::ClampUnit(Box::new(a.dup())),
            Expr::FiniteOrZero(a) => Expr::FiniteOrZero(Box::new(a.dup())),
            Expr::Powi(a, n) => Expr::Powi(Box::new(a.dup()), *n),
        }
    }

    fn plus(&self, rhs: &Self) -> Self {
        Expr::Plus(Box::new(self.dup()), Box::new(rhs.dup()))
    }

    fn minus(&self, rhs: &Self) -> Self {
        Expr::Minus(Box::new(self.dup()), Box::new(rhs.dup()))
    }

    fn times(&self, rhs: &Self) -> Self {
        Expr::Times(Box::new(self.dup()), Box::new(rhs.dup()))
    }

    fn negated(&self) -> Self {
        Expr::Neg(Box::new(self.dup()))
    }

    fn over(&self, rhs: &Self) -> Self {
        Expr::Over(Box::new(self.dup()), Box::new(rhs.dup()))
    }

    fn recip(&self) -> Self {
        Expr::Recip(Box::new(self.dup()))
    }

    fn powi(&self, n: i32) -> Self {
        Expr::Powi(Box::new(self.dup()), n)
    }

    fn sqrt(&self) -> Self {
        Expr::Sqrt(Box::new(self.dup()))
    }

    fn e_powf(&self) -> Self {
        Expr::EPowf(Box::new(self.dup()))
    }

    fn ceil(&self) -> Self {
        Expr::Ceil(Box::new(self.dup()))
    }

    fn clamp_unit(&self) -> Self {
        Expr::ClampUnit(Box::new(self.dup()))
    }

    fn larger(&self, rhs: &Self) -> Self {
        Expr::Larger(Box::new(self.dup()), Box::new(rhs.dup()))
    }

    fn smaller(&self, rhs: &Self) -> Self {
        Expr::Smaller(Box::new(self.dup()), Box::new(rhs.dup()))
    }

    fn finite_or_zero(&self) -> Self {
        Expr::FiniteOrZero(Box::new(self.dup()))
    }

    fn at_least(&self, rhs: &Self) -> bool {
        match (self, rhs) {
            (Expr::Nat(a), Expr::Nat(b)) => *a >= *b,
            _ => false,
        }
    }

    fn exceeds(&self, rhs: &Self) -> bool {
        match (self, rhs) {
            (Expr::Nat(a), Expr::Nat(b)) => *a > *b,
            _ => false,
        }
    }

    fn ranks_above(&self, rhs: &Self) -> bool {
        match (self, rhs) {
            (Expr::Nat(a), Expr::Nat(b)) => *a > *b,
            (Expr::Nat(_), _) => true,
            _ => false,
        }
    }

    fn is_sign_negative(&self) -> bool {
        match self {
            Expr::Neg(_) => true,
            _ => false,
        }
    }

    fn to_index(&self) -> u32 {
        match self {
            Expr::Nat(n) => *n,
            _ => 0,
        }
    }

    fn to_count(&self) -> usize {
        match self {
            Expr::Nat(n) => *n as usize,
            _ => 0,
        }
    }
}

} // verus!
