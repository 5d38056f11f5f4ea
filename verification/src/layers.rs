//! Layers of cells at the boundary of a grid.
use crate::axis::{spatial, Axis, Dim, SpatialAxis};
use crate::index::GridIndex;
use vstd::prelude::*;

verus! {

/// Widths of a layer on the lo- and hi- ends along an axis.
///
/// Used by [`LayerWidths`]
#[derive(Copy, Clone, Debug, PartialEq, Eq, Structural)]
pub struct LoHiWidths {
    pub lo: u32,
    pub hi: u32,
}

impl LoHiWidths {
    pub open spec fn splat_spec(width: u32) -> Self {
        LoHiWidths { lo: width, hi: width }
    }

    pub fn splat(width: u32) -> (r: Self)
        ensures
            r == Self::splat_spec(width),
    {
        LoHiWidths { lo: width, hi: width }
    }
}

impl Default for LoHiWidths {
    fn default() -> (r: Self)
        ensures
            r == Self::splat_spec(0),
    {
        LoHiWidths { lo: 0, hi: 0 }
    }
}

/// The widths of layers of cells at the boundary of the simulation. (e.g. PMLs)
///
/// Stores the "low" and "high" widths on each axis.
#[derive(Copy, Clone, Debug, PartialEq, Eq)]
pub struct LayerWidths {
    pub widths: [LoHiWidths; 3],
}

impl LayerWidths {
    /// The widths along `axis`.
    pub open spec fn at(self, axis: Axis) -> LoHiWidths {
        self.widths[axis.index_spec() as int]
    }

    /// The widths along `axis`.
    pub fn get(&self, axis: Axis) -> (r: LoHiWidths)
        requires
            axis.valid(),
        ensures
            r == self.at(axis),
    {
        self.widths[axis.index() as usize]
    }

    /// Set the widths along `axis`.
    pub fn put(&mut self, axis: Axis, widths: LoHiWidths)
        requires
            axis.valid(),
        ensures
            final(self).at(axis) == widths,
            forall|b: Axis| #[trigger]
                b.valid() && b != axis ==> final(self).at(b) == old(self).at(b),
    {
        self.widths[axis.index() as usize] = widths;
    }

    /// [`LayerWidths`] with widths along all axes set to `width`.
    pub fn splat(width: u32) -> (r: Self)
        ensures
            forall|a: Axis| #[trigger] a.valid() ==> r.at(a) == LoHiWidths::splat_spec(width),
    {
        let w = LoHiWidths::splat(width);
        LayerWidths { widths: [w, w, w] }
    }

    /// [`LayerWidths`] with widths along the spatial axes set to `width`, and none along the others.
    pub fn splat_spatial(dim: Dim, width: u32) -> (r: Self)
        ensures
            forall|a: Axis| #[trigger]
                a.valid() ==> r.at(a) == LoHiWidths::splat_spec(
                    if spatial(dim, a) {
                        width
                    } else {
                        0
                    },
                ),
    {
        let w = LoHiWidths::splat(width);
        let none = LoHiWidths::splat(0);
        match dim {
            Dim::One => LayerWidths { widths: [none, none, w] },
            Dim::Two => LayerWidths { widths: [w, w, none] },
            Dim::Three => LayerWidths { widths: [w, w, w] },
        }
    }

    /// `self` with the widths along `axis` replaced.
    pub fn with_axis_widths(self, axis: SpatialAxis, widths: LoHiWidths) -> (r: Self)
        ensures
            r.at(axis.axis()) == widths,
            forall|b: Axis| #[trigger] b.valid() && b != axis.axis() ==> r.at(b) == self.at(b),
    {
        let mut r = self;
        r.put(Axis::from(axis), widths);
        r
    }

    /// How many cells the layers add along `axis`.
    pub open spec fn total(self, axis: Axis) -> int {
        self.at(axis).lo + self.at(axis).hi
    }

    /// The grid is still countable once the layers are added.
    pub open spec fn sum_fits(self, n_cells: GridIndex) -> bool {
        forall|s: SpatialAxis| #[trigger]
            s.of_dim(n_cells.dim()) ==> n_cells.at(s.axis()) + self.total(s.axis()) <= u32::MAX
    }

    /// `summed` are the dimensions of a grid of `n_cells` with the layers added.
    pub open spec fn sums_to(self, n_cells: GridIndex, summed: GridIndex) -> bool {
        &&& summed.dim() == n_cells.dim()
        &&& forall|s: SpatialAxis| #[trigger]
            s.of_dim(n_cells.dim()) ==> summed.at(s.axis()) == n_cells.at(s.axis()) + self.total(
                s.axis(),
            )
    }

    /// Adds `self` to `n_cells`, the dimensions of a grid in cells.
    pub fn sum_with_n_cells(&self, n_cells: GridIndex) -> (r: GridIndex)
        requires
            self.sum_fits(n_cells),
        ensures
            self.sums_to(n_cells, r),
    {
        let w = self.widths;
        assert(SpatialAxis::X.of_dim(n_cells.dim()) ==> n_cells.at(Axis::X) + self.total(Axis::X)
            <= u32::MAX);
        assert(SpatialAxis::Y.of_dim(n_cells.dim()) ==> n_cells.at(Axis::Y) + self.total(Axis::Y)
            <= u32::MAX);
        assert(SpatialAxis::Z.of_dim(n_cells.dim()) ==> n_cells.at(Axis::Z) + self.total(Axis::Z)
            <= u32::MAX);
        match n_cells {
            GridIndex::One(z) => GridIndex::One(z + (w[2].lo + w[2].hi)),
            GridIndex::Two(x, y) => GridIndex::Two(
                x + (w[0].lo + w[0].hi),
                y + (w[1].lo + w[1].hi),
            ),
            GridIndex::Three(x, y, z) => GridIndex::Three(
                x + (w[0].lo + w[0].hi),
                y + (w[1].lo + w[1].hi),
                z + (w[2].lo + w[2].hi),
            ),
        }
    }

    /// The widths along the spatial axes, in their order.
    pub fn iter_axes(&self, dim: Dim) -> (r: Vec<LoHiWidths>)
        ensures
            r@ == SpatialAxis::all_spatial_spec(dim).map_values(
                |s: SpatialAxis| self.at(s.axis()),
            ),
    {
        let r = match dim {
            Dim::One => vec![self.widths[2]],
            Dim::Two => vec![self.widths[0], self.widths[1]],
            Dim::Three => vec![self.widths[0], self.widths[1], self.widths[2]],
        };
        assert(r@ =~= SpatialAxis::all_spatial_spec(dim).map_values(
            |s: SpatialAxis| self.at(s.axis()),
        ));
        r
    }

    /// The spatial axes with the widths along them, in their order.
    pub fn iter_spatial_axes(&self, dim: Dim) -> (r: Vec<(SpatialAxis, LoHiWidths)>)
        ensures
            r@ == SpatialAxis::all_spatial_spec(dim).map_values(
                |s: SpatialAxis| (s, self.at(s.axis())),
            ),
    {
        let (x, y, z) = (SpatialAxis::X, SpatialAxis::Y, SpatialAxis::Z);
        let w = self.widths;
        let r = match dim {
            Dim::One => vec![(z, w[2])],
            Dim::Two => vec![(x, w[0]), (y, w[1])],
            Dim::Three => vec![(x, w[0]), (y, w[1]), (z, w[2])],
        };
        assert(r@ =~= SpatialAxis::all_spatial_spec(dim).map_values(
            |s: SpatialAxis| (s, self.at(s.axis())),
        ));
        r
    }

    pub open spec fn plus_fits(self, rhs: LayerWidths) -> bool {
        forall|a: Axis| #[trigger]
            a.valid() ==> self.at(a).lo + rhs.at(a).lo <= u32::MAX && self.at(a).hi + rhs.at(a).hi
                <= u32::MAX
    }

    /// `sum` has the widths of `self` and `rhs` added.
    pub open spec fn adds_to(self, rhs: LayerWidths, sum: LayerWidths) -> bool {
        forall|a: Axis| #[trigger]
            a.valid() ==> sum.at(a).lo == self.at(a).lo + rhs.at(a).lo && sum.at(a).hi
                == self.at(a).hi + rhs.at(a).hi
    }

    pub open spec fn sum_spec(self, rhs: Self) -> LayerWidths {
        let (a, b) = (self.widths, rhs.widths);
        LayerWidths {
            widths: [
                LoHiWidths { lo: (a[0].lo + b[0].lo) as u32, hi: (a[0].hi + b[0].hi) as u32 },
                LoHiWidths { lo: (a[1].lo + b[1].lo) as u32, hi: (a[1].hi + b[1].hi) as u32 },
                LoHiWidths { lo: (a[2].lo + b[2].lo) as u32, hi: (a[2].hi + b[2].hi) as u32 },
            ],
        }
    }

    /// The sum of the widths along each axis.
    pub fn plus(self, rhs: Self) -> (r: Self)
        requires
            self.plus_fits(rhs),
        ensures
            r == self.sum_spec(rhs),
            self.adds_to(rhs, r),
    {
        let (a, b) = (self.widths, rhs.widths);
        assert(Axis::X.valid() && Axis::Y.valid() && Axis::Z.valid());
        let r = LayerWidths {
            widths: [
                LoHiWidths { lo: a[0].lo + b[0].lo, hi: a[0].hi + b[0].hi },
                LoHiWidths { lo: a[1].lo + b[1].lo, hi: a[1].hi + b[1].hi },
                LoHiWidths { lo: a[2].lo + b[2].lo, hi: a[2].hi + b[2].hi },
            ],
        };
        assert(r.widths =~= self.sum_spec(rhs).widths);
        r
    }

    /// Add the widths of `rhs` to those of `self`.
    pub fn add_assign(&mut self, rhs: Self)
        requires
            old(self).plus_fits(rhs),
        ensures
            old(self).adds_to(rhs, *final(self)),
    {
        *self = self.plus(rhs);
    }

    pub open spec fn minus_fits(self, rhs: LayerWidths) -> bool {
        forall|a: Axis| #[trigger]
            a.valid() ==> self.at(a).lo >= rhs.at(a).lo && self.at(a).hi >= rhs.at(a).hi
    }

    pub open spec fn difference_spec(self, rhs: Self) -> LayerWidths {
        let (a, b) = (self.widths, rhs.widths);
        LayerWidths {
            widths: [
                LoHiWidths { lo: (a[0].lo - b[0].lo) as u32, hi: (a[0].hi - b[0].hi) as u32 },
                LoHiWidths { lo: (a[1].lo - b[1].lo) as u32, hi: (a[1].hi - b[1].hi) as u32 },
                LoHiWidths { lo: (a[2].lo - b[2].lo) as u32, hi: (a[2].hi - b[2].hi) as u32 },
            ],
        }
    }

    /// The difference of the widths along each axis.
    pub fn minus(self, rhs: Self) -> (r: Self)
        requires
            self.minus_fits(rhs),
        ensures
            r == self.difference_spec(rhs),
            r.adds_to(rhs, self),
    {
        let (a, b) = (self.widths, rhs.widths);
        assert(Axis::X.valid() && Axis::Y.valid() && Axis::Z.valid());
        let r = LayerWidths {
            widths: [
                LoHiWidths { lo: a[0].lo - b[0].lo, hi: a[0].hi - b[0].hi },
                LoHiWidths { lo: a[1].lo - b[1].lo, hi: a[1].hi - b[1].hi },
                LoHiWidths { lo: a[2].lo - b[2].lo, hi: a[2].hi - b[2].hi },
            ],
        };
        assert(r.widths =~= self.difference_spec(rhs).widths);
        r
    }

    /// Take the widths of `rhs` from those of `self`.
    pub fn sub_assign(&mut self, rhs: Self)
        requires
            old(self).minus_fits(rhs),
        ensures
            final(self).adds_to(rhs, *old(self)),
    {
        *self = self.minus(rhs);
    }
}

impl Default for LayerWidths {
    fn default() -> (r: Self)
        ensures
            forall|a: Axis| #[trigger] a.valid() ==> r.at(a) == LoHiWidths::splat_spec(0),
    {
        LayerWidths::splat(0)
    }
}

impl core::ops::Add for LayerWidths {
    type Output = LayerWidths;

    fn add(self, rhs: Self) -> (r: LayerWidths) {
        self.plus(rhs)
    }
}

impl vstd::std_specs::ops::AddSpecImpl for LayerWidths {
    open spec fn obeys_add_spec() -> bool {
        true
    }

    open spec fn add_req(self, rhs: Self) -> bool {
        self.plus_fits(rhs)
    }

    open spec fn add_spec(self, rhs: Self) -> LayerWidths {
        self.sum_spec(rhs)
    }
}

impl core::ops::Sub for LayerWidths {
    type Output = LayerWidths;

    fn sub(self, rhs: Self) -> (r: LayerWidths) {
        self.minus(rhs)
    }
}

impl vstd::std_specs::ops::SubSpecImpl for LayerWidths {
    open spec fn obeys_sub_spec() -> bool {
        true
    }

    open spec fn sub_req(self, rhs: Self) -> bool {
        self.minus_fits(rhs)
    }

    open spec fn sub_spec(self, rhs: Self) -> LayerWidths {
        self.difference_spec(rhs)
    }
}

/// Adding widths and taking them away again changes nothing.
pub proof fn law_adding_widths_is_undone(
    a: LayerWidths,
    b: LayerWidths,
    sum: LayerWidths,
    back: LayerWidths,
)
    requires
        a.adds_to(b, sum),
        back.adds_to(b, sum),
    ensures
        forall|x: Axis| #[trigger] x.valid() ==> back.at(x) == a.at(x),
{
}

/// Adding two layers one after the other makes a grid as large as adding them at once.
pub proof fn law_layers_add_up(
    a: LayerWidths,
    b: LayerWidths,
    both: LayerWidths,
    n: GridIndex,
    n_a: GridIndex,
    n_ab: GridIndex,
)
    requires
        a.adds_to(b, both),
        a.sums_to(n, n_a),
        b.sums_to(n_a, n_ab),
    ensures
        both.sums_to(n, n_ab),
{
    assert forall|s: SpatialAxis| #[trigger] s.of_dim(n.dim()) implies n_ab.at(s.axis()) == n.at(
        s.axis(),
    ) + both.total(s.axis()) by {
        assert(s.axis().valid());
        assert(s.of_dim(n_a.dim()));
    }
}

} // verus!
