//! Boxes in space.
use crate::axis::Axis;
use crate::exact::{
    at, exact, lemma_distribute, lemma_over, lemma_times_divisor, lemma_unit, over, times,
};
use crate::scalar::Scalar;
use crate::vect::{Vect, VectorValueExt};
use crate::vector::Vec3;
use vstd::prelude::*;

verus! {

/// An axis-aligned box.
#[derive(Copy, Clone, Debug, PartialEq)]
pub struct Aabb<S> {
    pub mins: Vec3<S>,
    pub maxs: Vec3<S>,
}

impl<S: Scalar> Aabb<S> {
    /// The box that contains nothing: merging it with a box gives that box.
    pub open spec fn invalid_spec() -> Self {
        Aabb {
            mins: Vec3::splat_spec(S::largest_value_spec()),
            maxs: Vec3::splat_spec(-S::largest_value_spec()),
        }
    }

    pub fn new_invalid() -> (r: Self)
        ensures
            r == Self::invalid_spec(),
    {
        let largest: S = S::largest_value();
        Aabb { mins: Vec3::splat(&largest), maxs: Vec3::splat(&largest.negated()) }
    }

    pub open spec fn merged_spec(self, other: Self) -> Self {
        Aabb {
            mins: self.mins.smaller_spec(other.mins),
            maxs: self.maxs.larger_spec(other.maxs),
        }
    }

    /// Enlarge the box to contain `other`.
    pub fn merge(&mut self, other: &Self)
        ensures
            *final(self) == old(self).merged_spec(*other),
    {
        self.mins = self.mins.smaller(&other.mins);
        self.maxs = self.maxs.larger(&other.maxs);
    }

    /// The point box at `p`.
    pub open spec fn at_point(p: Vec3<S>) -> Self {
        Aabb { mins: p, maxs: p }
    }

    pub open spec fn center_spec(self) -> Vec3<S> {
        (self.mins + self.maxs).scaled_spec(S::half_spec())
    }

    pub fn center(&self) -> (r: Vec3<S>)
        ensures
            r == self.center_spec(),
    {
        self.mins.plus(&self.maxs).scaled(&S::half())
    }

    pub open spec fn extents_spec(self) -> Vec3<S> {
        self.maxs - self.mins
    }

    pub fn extents(&self) -> (r: Vec3<S>)
        ensures
            r == self.extents_spec(),
    {
        self.maxs.minus(&self.mins)
    }

    pub open spec fn grown_spec(self, half_extents: Vec3<S>) -> Self {
        Aabb { mins: self.mins - half_extents, maxs: self.maxs + half_extents }
    }

    /// The box enlarged by `half_extents` on every side.
    pub fn add_half_extents(&self, half_extents: &Vec3<S>) -> (r: Self)
        ensures
            r == self.grown_spec(*half_extents),
    {
        Aabb { mins: self.mins.minus(half_extents), maxs: self.maxs.plus(half_extents) }
    }
}

/// A box given by its middle and its extents from there.
#[derive(Copy, Clone, Debug, PartialEq)]
pub struct Cuboid<S> {
    pub half_extents: Vec3<S>,
    pub middle: Vec3<S>,
}

impl<S: Scalar> Cuboid<S> {
    /// The box from `start` to `end`. Along axes that are not spatial it extends by its largest
    /// dimension.
    pub open spec fn spanned(start: Vect<S>, end: Vect<S>) -> Self {
        let dims = end - start;
        let largest = crate::vect::fold_right(dims.array(), |a: S, b: S| a.larger_spec(b));
        Cuboid {
            half_extents: dims.divided_spec(S::of_nat_spec(2)).to_3d_spec(Vec3::splat_spec(largest)),
            middle: (start + end).divided_spec(S::of_nat_spec(2)).to_3d_spec(
                Vec3::splat_spec(S::zero_spec()),
            ),
        }
    }

    /// The box from `start` to `end`. Along axes that are not spatial it extends by its largest
    /// dimension.
    pub fn span(start: &Vect<S>, end: &Vect<S>) -> (r: Self)
        requires
            start.dim() == end.dim(),
        ensures
            r == Self::spanned(*start, *end),
    {
        let two: S = S::of_nat(2);
        let dims: Vect<S> = end.minus(start);
        let half: Vect<S> = dims.divided(&two);
        let middle: Vect<S> = start.plus(end).divided(&two);
        let ghost f = |a: S, b: S| a.larger_spec(b);
        let ghost g = |a: S, b: S| <Vect<S> as VectorValueExt>::larger_of(a, b);
        assert(f =~= g);
        let largest: S = dims.largest_element();
        Cuboid {
            half_extents: half.to_3d(&Vec3::splat(&largest)),
            middle: middle.to_3d(&Vec3::splat(&S::zero())),
        }
    }
}

/// Twice a half is the whole.
proof fn lemma_halves(a: real)
    ensures
        times(a, over(1 as real, 2 as real)) == over(a, 2 as real),
        over(a, 2 as real) + over(a, 2 as real) == a,
{
    lemma_over(a, 2 as real);
    lemma_times_divisor(a, 2 as real);
    let half = over(a, 2 as real);
    lemma_distribute(half, 1 as real, 1 as real);
    lemma_unit(half);
    assert(1 as real + 1 as real == 2 as real);
}

/// The middle of a box is as far from its lower as from its upper side, and the extents reach from
/// one to the other.
pub proof fn law_center_is_in_the_middle<S: Scalar>(
    read: spec_fn(S) -> real,
    bb: Aabb<S>,
    axis: Axis,
)
    requires
        exact(read),
        axis.valid(),
    ensures
        ({
            let (lo, hi) = (at(read, bb.mins.at(axis)), at(read, bb.maxs.at(axis)));
            let mid = at(read, bb.center_spec().at(axis));
            &&& mid - lo == hi - mid
            &&& lo + at(read, bb.extents_spec().at(axis)) == hi
        }),
{
    lemma_halves(at(read, bb.mins.at(axis)) + at(read, bb.maxs.at(axis)));
}

/// A box that grows keeps its middle, and its sides move outwards by the half extents.
pub proof fn law_grown_box_keeps_its_middle<S: Scalar>(
    read: spec_fn(S) -> real,
    bb: Aabb<S>,
    half_extents: Vec3<S>,
    axis: Axis,
)
    requires
        exact(read),
        axis.valid(),
    ensures
        ({
            let grown = bb.grown_spec(half_extents);
            let d = at(read, half_extents.at(axis));
            &&& at(read, grown.center_spec().at(axis)) == at(read, bb.center_spec().at(axis))
            &&& at(read, bb.mins.at(axis)) - at(read, grown.mins.at(axis)) == d
            &&& at(read, grown.maxs.at(axis)) - at(read, bb.maxs.at(axis)) == d
        }),
{
    law_center_is_in_the_middle(read, bb, axis);
    law_center_is_in_the_middle(read, bb.grown_spec(half_extents), axis);
}

/// A spanned box reaches from `start` to `end` along the spatial axes. Along the others its middle
/// is at the origin, and it reaches no less far to either side than it is long along any axis.
pub proof fn law_spanned_box_reaches_from_start_to_end<S: Scalar>(
    read: spec_fn(S) -> real,
    start: Vect<S>,
    end: Vect<S>,
    axis: Axis,
    i: int,
)
    requires
        exact(read),
        start.dim() == end.dim(),
        axis.valid(),
        0 <= i < start.array().len(),
    ensures
        ({
            let none = Vec3::splat_spec(S::zero_spec());
            let cuboid = Cuboid::spanned(start, end);
            let middle = at(read, cuboid.middle.at(axis));
            let reach = at(read, cuboid.half_extents.at(axis));
            &&& crate::axis::spatial(start.dim(), axis) ==> {
                &&& middle - reach == at(read, start.to_3d_spec(none).at(axis))
                &&& middle + reach == at(read, end.to_3d_spec(none).at(axis))
            }
            &&& !crate::axis::spatial(start.dim(), axis) ==> {
                &&& middle == 0 as real
                &&& reach >= at(read, end.array()[i]) - at(read, start.array()[i])
            }
        }),
{
    let none = Vec3::splat_spec(S::zero_spec());
    let (a, b) = (
        at(read, start.to_3d_spec(none).at(axis)),
        at(read, end.to_3d_spec(none).at(axis)),
    );
    lemma_halves(a + b);
    lemma_halves(b - a);
    let dims = (end - start).array();
    assert(forall|j: int|
        0 <= j < dims.len() ==> #[trigger] dims[j] == end.array()[j] - start.array()[j]);
    assert(dims[i] == end.array()[i] - start.array()[i]);
}

} // verus!
