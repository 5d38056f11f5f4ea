//! Axes of space and the number of them that a simulation spans.
use vstd::prelude::*;

verus! {

pub const MAX_DIM: usize = 3;

/// How many dimensions the computational domain has: the Z axis in 1D, the X-Y plane in 2D,
/// X-Y-Z space in 3D.
#[derive(Copy, Clone, Debug, PartialEq, Eq, Structural)]
pub enum Dim {
    One,
    Two,
    Three,
}

impl Dim {
    pub open spec fn count_spec(self) -> usize {
        match self {
            Dim::One => 1,
            Dim::Two => 2,
            Dim::Three => 3,
        }
    }

    pub fn count(self) -> (r: usize)
        ensures
            r == self.count_spec(),
    {
        match self {
            Dim::One => 1,
            Dim::Two => 2,
            Dim::Three => 3,
        }
    }
}

/// Decide the dimension of a build from which of its three dimension switches are on: exactly one
/// has to be.
pub fn dimensions_check(dim1: bool, dim2: bool, dim3: bool) -> (r: Result<Dim, DimensionError>)
    ensures
        r == Ok::<Dim, DimensionError>(Dim::One) <==> dim1 && !dim2 && !dim3,
        r == Ok::<Dim, DimensionError>(Dim::Two) <==> !dim1 && dim2 && !dim3,
        r == Ok::<Dim, DimensionError>(Dim::Three) <==> !dim1 && !dim2 && dim3,
        r == Err::<Dim, DimensionError>(DimensionError::NoDimension) <==> !dim1 && !dim2 && !dim3,
        r == Err::<Dim, DimensionError>(DimensionError::TooManyDimensions) <==> (dim1 && dim2)
            || (dim1 && dim3) || (dim2 && dim3),
{
    match (dim1, dim2, dim3) {
        (false, false, false) => Err(DimensionError::NoDimension),
        (true, false, false) => Ok(Dim::One),
        (false, true, false) => Ok(Dim::Two),
        (false, false, true) => Ok(Dim::Three),
        _ => Err(DimensionError::TooManyDimensions),
    }
}

#[derive(Copy, Clone, Debug, PartialEq, Eq, Structural)]
pub enum DimensionError {
    /// One dimension has to be chosen, but none was.
    NoDimension,
    /// More than one dimension was chosen.
    TooManyDimensions,
}

/// A helper enum for indexing into various things (e.g. the components of a vector).
#[derive(Copy, Clone, Debug, PartialEq, Eq, Structural)]
pub enum Axis {
    X,
    Y,
    Z,
    INVALID,
}

impl Axis {
    pub open spec fn index_spec(self) -> u32 {
        match self {
            Axis::X => 0,
            Axis::Y => 1,
            Axis::Z => 2,
            Axis::INVALID => u32::MAX,
        }
    }

    pub open spec fn valid(self) -> bool {
        self != Axis::INVALID
    }

    /// The number of the axis: 0, 1, 2, or `u32::MAX` for [`Axis::INVALID`].
    pub fn index(self) -> (r: u32)
        ensures
            r == self.index_spec(),
    {
        match self {
            Axis::X => 0,
            Axis::Y => 1,
            Axis::Z => 2,
            Axis::INVALID => u32::MAX,
        }
    }

    /// The three axes in order.
    pub fn all_axes() -> (r: [Axis; 3])
        ensures
            r@ == seq![Axis::X, Axis::Y, Axis::Z],
    {
        [Axis::X, Axis::Y, Axis::Z]
    }

    pub open spec fn permute_spec(self) -> Axis {
        match self {
            Axis::X => Axis::Y,
            Axis::Y => Axis::Z,
            Axis::Z => Axis::X,
            Axis::INVALID => Axis::INVALID,
        }
    }

    /// Circular permutation of `self` in the following sequence:
    ///
    /// [`Axis::X`] -> [`Axis::Y`] -> [`Axis::Z`] -> [`Axis::X`] -> ...
    pub fn permute(&self) -> (r: Self)
        requires
            self.valid(),
        ensures
            r == self.permute_spec(),
    {
        match *self {
            Axis::X => Axis::Y,
            Axis::Y => Axis::Z,
            Axis::Z => Axis::X,
            Axis::INVALID => Axis::INVALID,
        }
    }

    pub open spec fn from_index_spec(idx: u32) -> Axis {
        match idx {
            0 => Axis::X,
            1 => Axis::Y,
            2 => Axis::Z,
            _ => Axis::INVALID,
        }
    }

    /// The axis of number `idx`, which has to be 0, 1 or 2. [`Axis::try_from`] takes any number.
    pub fn from_index_unchecked(idx: u32) -> (r: Self)
        requires
            idx < 3,
        ensures
            r.valid(),
            r.index_spec() == idx,
    {
        match idx {
            0 => Axis::X,
            1 => Axis::Y,
            _ => Axis::Z,
        }
    }
}

impl TryFrom<u32> for Axis {
    type Error = ();

    fn try_from(value: u32) -> (r: Result<Self, ()>) {
        match value {
            0 => Ok(Axis::X),
            1 => Ok(Axis::Y),
            2 => Ok(Axis::Z),
            _ => Err(()),
        }
    }
}

impl vstd::std_specs::convert::TryFromSpecImpl<u32> for Axis {
    open spec fn obeys_try_from_spec() -> bool {
        true
    }

    open spec fn try_from_spec(v: u32) -> Result<Self, ()> {
        if v < 3 {
            Ok(Axis::from_index_spec(v))
        } else {
            Err(())
        }
    }
}

impl From<SpatialAxis> for Axis {
    fn from(value: SpatialAxis) -> (r: Self) {
        match value {
            SpatialAxis::X => Axis::X,
            SpatialAxis::Y => Axis::Y,
            SpatialAxis::Z => Axis::Z,
        }
    }
}

impl vstd::std_specs::convert::FromSpecImpl<SpatialAxis> for Axis {
    open spec fn obeys_from_spec() -> bool {
        true
    }

    open spec fn from_spec(v: SpatialAxis) -> Self {
        v.axis()
    }
}

/// The axes that are in the computational domain. EM waves only propagate in the space that these
/// axes form (Z axis in 1D; X-Y plane in 2D; X-Y-Z space in 3D).
#[derive(Copy, Clone, Debug, PartialEq, Eq, Structural)]
pub enum SpatialAxis {
    X,
    Y,
    Z,
}

/// Whether waves propagate along `axis` in a domain of dimension `dim`.
pub open spec fn spatial(dim: Dim, axis: Axis) -> bool {
    match axis {
        Axis::X => dim != Dim::One,
        Axis::Y => dim != Dim::One,
        Axis::Z => dim != Dim::Two,
        Axis::INVALID => false,
    }
}

impl SpatialAxis {
    pub open spec fn axis(self) -> Axis {
        match self {
            SpatialAxis::X => Axis::X,
            SpatialAxis::Y => Axis::Y,
            SpatialAxis::Z => Axis::Z,
        }
    }

    /// Whether `self` is an axis of a domain of dimension `dim`.
    pub open spec fn of_dim(self, dim: Dim) -> bool {
        spatial(dim, self.axis())
    }

    /// The place of the axis among the spatial axes of `dim`.
    pub open spec fn index_spec(self, dim: Dim) -> u32 {
        match self {
            SpatialAxis::X => 0,
            SpatialAxis::Y => 1,
            SpatialAxis::Z => if dim == Dim::One {
                0
            } else {
                2
            },
        }
    }

    pub fn index(self, dim: Dim) -> (r: u32)
        ensures
            r == self.index_spec(dim),
    {
        match self {
            SpatialAxis::X => 0,
            SpatialAxis::Y => 1,
            SpatialAxis::Z => if dim == Dim::One {
                0
            } else {
                2
            },
        }
    }

    pub open spec fn all_spatial_spec(dim: Dim) -> Seq<SpatialAxis> {
        match dim {
            Dim::One => seq![SpatialAxis::Z],
            Dim::Two => seq![SpatialAxis::X, SpatialAxis::Y],
            Dim::Three => seq![SpatialAxis::X, SpatialAxis::Y, SpatialAxis::Z],
        }
    }

    /// All spatial axes, depending on how many dimensions there are:
    ///
    /// - 1D: Z axis
    /// - 2D: X and Y axes
    /// - 3D: X, Y, and Z axes
    pub fn all_spatial(dim: Dim) -> (r: Vec<SpatialAxis>)
        ensures
            r@ == Self::all_spatial_spec(dim),
    {
        match dim {
            Dim::One => vec![SpatialAxis::Z],
            Dim::Two => vec![SpatialAxis::X, SpatialAxis::Y],
            Dim::Three => vec![SpatialAxis::X, SpatialAxis::Y, SpatialAxis::Z],
        }
    }

    /// [`SpatialAxis::all_spatial`], each as an [`Axis`].
    pub fn all_axes(dim: Dim) -> (r: Vec<Axis>)
        ensures
            r@ == Self::all_spatial_spec(dim).map_values(|s: SpatialAxis| s.axis()),
    {
        let r = match dim {
            Dim::One => vec![Axis::Z],
            Dim::Two => vec![Axis::X, Axis::Y],
            Dim::Three => vec![Axis::X, Axis::Y, Axis::Z],
        };
        assert(r@ =~= Self::all_spatial_spec(dim).map_values(|s: SpatialAxis| s.axis()));
        r
    }

    /// Efficiently check if an [`Axis`] is a spatial axis.
    pub fn is_spatial_axis(dim: Dim, axis: Axis) -> (r: bool)
        ensures
            r == spatial(dim, axis),
    {
        match dim {
            Dim::One => matches!(axis, Axis::Z),
            Dim::Two => axis.index() < 2,
            Dim::Three => axis.index() < 3,
        }
    }

    /// The spatial axis that `axis` is in a domain of dimension `dim`.
    pub fn try_from_axis(dim: Dim, axis: Axis) -> (r: Result<SpatialAxis, ()>)
        ensures
            r is Ok <==> spatial(dim, axis),
            r matches Ok(s) ==> s.axis() == axis,
    {
        match axis {
            Axis::X => if dim == Dim::One {
                Err(())
            } else {
                Ok(SpatialAxis::X)
            },
            Axis::Y => if dim == Dim::One {
                Err(())
            } else {
                Ok(SpatialAxis::Y)
            },
            Axis::Z => if dim == Dim::Two {
                Err(())
            } else {
                Ok(SpatialAxis::Z)
            },
            Axis::INVALID => Err(()),
        }
    }

    /// The spatial axis that stands in place `value` among those of `dim`.
    pub fn try_from_index(dim: Dim, value: u32) -> (r: Result<SpatialAxis, ()>)
        ensures
            r is Ok <==> value < dim.count_spec(),
            r matches Ok(s) ==> s.of_dim(dim) && s.index_spec(dim) == value,
    {
        match value {
            0 => if dim == Dim::One {
                Ok(SpatialAxis::Z)
            } else {
                Ok(SpatialAxis::X)
            },
            1 => if dim == Dim::One {
                Err(())
            } else {
                Ok(SpatialAxis::Y)
            },
            2 => if dim == Dim::Three {
                Ok(SpatialAxis::Z)
            } else {
                Err(())
            },
            _ => Err(()),
        }
    }
}

impl Default for Dim {
    /// Space: every axis is spatial.
    fn default() -> (r: Self)
        ensures
            r == Dim::Three,
    {
        Dim::Three
    }
}

/// The number of an [`Axis`], as it is stored in a buffer.
#[derive(Copy, Clone, Debug, PartialEq, Eq, Structural)]
pub struct AxisIndex(u32);

impl View for AxisIndex {
    type V = u32;

    closed spec fn view(&self) -> u32 {
        self.0
    }
}

impl Default for AxisIndex {
    fn default() -> (r: Self)
        ensures
            r@ == 0,
            r.encodes(Axis::X),
    {
        AxisIndex(0)
    }
}

impl AxisIndex {
    #[verifier::type_invariant]
    spec fn names_an_axis(self) -> bool {
        self.0 < 3 || self.0 == u32::MAX
    }

    pub open spec fn encodes(self, axis: Axis) -> bool {
        self@ == axis.index_spec()
    }

    /// The number that stands for no axis.
    pub fn invalid() -> (r: Self)
        ensures
            r.encodes(Axis::INVALID),
    {
        AxisIndex(u32::MAX)
    }

    pub fn from_axis(axis: Axis) -> (r: Self)
        ensures
            r.encodes(axis),
    {
        AxisIndex(axis.index())
    }

    /// The axis that was encoded by [`AxisIndex::from_axis`].
    pub fn into_axis(self) -> (r: Axis)
        ensures
            self.encodes(r),
    {
        proof {
            use_type_invariant(&self);
        }
        match self.0 {
            0 => Axis::X,
            1 => Axis::Y,
            2 => Axis::Z,
            _ => Axis::INVALID,
        }
    }

    pub fn as_usize(self) -> (r: usize)
        ensures
            r == self@,
    {
        self.0 as usize
    }

    /// The element of `array` that belongs to the axis.
    pub fn element_of<'a, T, const N: usize>(self, array: &'a [T; N]) -> (r: &'a T)
        requires
            self@ < N,
        ensures
            *r == array@[self@ as int],
    {
        &array[self.0 as usize]
    }
}

/// Permuting three times leads back to where one started, and the three steps visit every axis.
pub proof fn law_permute_is_a_cycle(axis: Axis)
    requires
        axis.valid(),
    ensures
        axis.permute_spec().valid(),
        axis.permute_spec().permute_spec().permute_spec() == axis,
        axis.permute_spec() != axis,
        axis.permute_spec().permute_spec() != axis,
        axis.permute_spec().permute_spec() != axis.permute_spec(),
{
}

/// The spatial axes of a dimension are exactly those that [`SpatialAxis::all_spatial`] lists, and
/// each stands in the place that its index names.
pub proof fn law_all_spatial_lists_every_spatial_axis(dim: Dim, s: SpatialAxis)
    ensures
        SpatialAxis::all_spatial_spec(dim).len() == dim.count_spec(),
        s.of_dim(dim) <==> SpatialAxis::all_spatial_spec(dim).contains(s),
        s.of_dim(dim) ==> s.index_spec(dim) < dim.count_spec() && SpatialAxis::all_spatial_spec(
            dim,
        )[s.index_spec(dim) as int] == s,
{
    let all = SpatialAxis::all_spatial_spec(dim);
    match dim {
        Dim::One => {
            assert(all[0] == SpatialAxis::Z);
        },
        Dim::Two => {
            assert(all[0] == SpatialAxis::X);
            assert(all[1] == SpatialAxis::Y);
        },
        Dim::Three => {
            assert(all[0] == SpatialAxis::X);
            assert(all[1] == SpatialAxis::Y);
            assert(all[2] == SpatialAxis::Z);
        },
    }
}

/// The number of an axis determines the axis, so encoding one in an [`AxisIndex`] loses nothing.
pub proof fn law_axis_index_is_injective(i: AxisIndex, a: Axis, b: Axis)
    requires
        i.encodes(a),
        i.encodes(b),
    ensures
        a == b,
{
}

} // verus!
