//! Subtraction that stops at zero.
use vstd::prelude::*;

verus! {

/// `a - b`, or 0 where `b` is larger.
pub open spec fn sat_sub(a: int, b: int) -> int {
    if a > b {
        a - b
    } else {
        0
    }
}

/// A trait that computes `a.saturating_sub(b)` with a comparison and a plain subtraction only.
pub trait GpuSaturatingSub: Sized {
    spec fn value(self) -> int;

    fn gpu_saturating_sub(self, rhs: Self) -> (r: Self)
        ensures
            r.value() == sat_sub(self.value(), rhs.value()),
    ;
}

impl GpuSaturatingSub for u32 {
    open spec fn value(self) -> int {
        self as int
    }

    fn gpu_saturating_sub(self, rhs: Self) -> (r: Self) {
        if self > rhs {
            self - rhs
        } else {
            0
        }
    }
}

impl GpuSaturatingSub for usize {
    open spec fn value(self) -> int {
        self as int
    }

    fn gpu_saturating_sub(self, rhs: Self) -> (r: Self) {
        if self > rhs {
            self - rhs
        } else {
            0
        }
    }
}

/// `a - b`, or 0 where `b` is larger.
pub fn saturating_sub(a: usize, b: usize) -> (r: usize)
    ensures
        r == sat_sub(a as int, b as int),
{
    if a > b {
        a - b
    } else {
        0
    }
}

/// Saturating subtraction is the difference, but never less than zero.
pub proof fn law_saturating_sub_is_the_positive_part(a: int, b: int)
    ensures
        sat_sub(a, b) >= 0,
        sat_sub(a, b) >= a - b,
        sat_sub(a, b) == 0 || sat_sub(a, b) == a - b,
{
}

} // verus!
