//! Integers that are not zero.
use vstd::prelude::*;

verus! {

/// A `u32` that is not zero.
#[derive(Copy, Clone, Debug, PartialEq, Eq, Structural)]
pub struct NonZeroU32 {
    value: u32,
}

impl View for NonZeroU32 {
    type V = u32;

    closed spec fn view(&self) -> u32 {
        self.value
    }
}

impl NonZeroU32 {
    #[verifier::type_invariant]
    spec fn not_zero(self) -> bool {
        self.value != 0
    }

    /// The number, unless it is zero.
    pub fn new(value: u32) -> (r: Option<Self>)
        ensures
            r is Some <==> value != 0,
            r matches Some(n) ==> n@ == value,
    {
        if value == 0 {
            None
        } else {
            Some(NonZeroU32 { value })
        }
    }

    pub(crate) fn of(value: u32) -> (r: Self)
        requires
            value != 0,
        ensures
            r@ == value,
    {
        NonZeroU32 { value }
    }

    pub fn get(self) -> (r: u32)
        ensures
            r == self@,
            r != 0,
    {
        proof {
            use_type_invariant(&self);
        }
        self.value
    }
}

/// An `i32` that is not zero.
#[derive(Copy, Clone, Debug, PartialEq, Eq, Structural)]
pub struct NonZeroI32 {
    value: i32,
}

impl View for NonZeroI32 {
    type V = i32;

    closed spec fn view(&self) -> i32 {
        self.value
    }
}

impl NonZeroI32 {
    #[verifier::type_invariant]
    spec fn not_zero(self) -> bool {
        self.value != 0
    }

    /// The number, unless it is zero.
    pub fn new(value: i32) -> (r: Option<Self>)
        ensures
            r is Some <==> value != 0,
            r matches Some(n) ==> n@ == value,
    {
        if value == 0 {
            None
        } else {
            Some(NonZeroI32 { value })
        }
    }

    pub(crate) fn of(value: i32) -> (r: Self)
        requires
            value != 0,
        ensures
            r@ == value,
    {
        NonZeroI32 { value }
    }

    pub fn get(self) -> (r: i32)
        ensures
            r == self@,
            r != 0,
    {
        proof {
            use_type_invariant(&self);
        }
        self.value
    }
}

} // verus!
