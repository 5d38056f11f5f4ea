//! Which components of the fields are simulated.
use crate::axis::{Axis, Dim};
use crate::exact::{at, exact, exact_roots, lemma_negated, lemma_product_sign, lemma_unit, times};
use crate::params::PolarizationModeIndex;
use crate::scalar::Scalar;
use crate::vector::{Vec3, Vec4};
use vstd::prelude::*;

verus! {

/// Polarization mode affects which field components are computed in the simulation, depending on
/// how many spatial dimensions there are.
/// In 3D, all axes are computed for all fields.
/// See the docs of this enum's variants to know which axes are enabled for each mode.
///
/// A little pedantic note: The word "polarization" here actually refers to how a specific vector
/// field has to be transverse to the simulation domain in 2D FDTD, so the word makes less sense in
/// 1D and 3D contexts, but it's used here anyway for simplicity.
#[derive(Copy, Clone, Debug, PartialEq, Eq, Structural)]
pub enum PolarizationMode {
    /// 1D: Ey, Hx
    /// 2D: Ex, Ey, Hz
    /// 3D: All axes
    TransverseMagnetic,
    /// 1D: Ex, Hy
    /// 2D: Ez, Hx, Hy
    /// 3D: All axes
    TransverseElectric,
}

impl Default for PolarizationMode {
    fn default() -> (r: Self)
        ensures
            r == PolarizationMode::TransverseMagnetic,
    {
        PolarizationMode::TransverseMagnetic
    }
}

impl PolarizationMode {
    /// The axes along which the E field is computed.
    pub open spec fn e_axes(self, dim: Dim) -> Seq<Axis> {
        match (dim, self) {
            (Dim::One, PolarizationMode::TransverseMagnetic) => seq![Axis::Y],
            (Dim::One, PolarizationMode::TransverseElectric) => seq![Axis::X],
            (Dim::Two, PolarizationMode::TransverseMagnetic) => seq![Axis::X, Axis::Y],
            (Dim::Two, PolarizationMode::TransverseElectric) => seq![Axis::Z],
            (Dim::Three, _) => seq![Axis::X, Axis::Y, Axis::Z],
        }
    }

    /// The axes along which the H field is computed.
    pub open spec fn h_axes(self, dim: Dim) -> Seq<Axis> {
        match (dim, self) {
            (Dim::One, PolarizationMode::TransverseMagnetic) => seq![Axis::X],
            (Dim::One, PolarizationMode::TransverseElectric) => seq![Axis::Y],
            (Dim::Two, PolarizationMode::TransverseMagnetic) => seq![Axis::Z],
            (Dim::Two, PolarizationMode::TransverseElectric) => seq![Axis::X, Axis::Y],
            (Dim::Three, _) => seq![Axis::X, Axis::Y, Axis::Z],
        }
    }

    /// The magnitude of an E vector: the component itself where only one is computed, else the
    /// length.
    pub open spec fn e_magnitude<S: Scalar>(self, dim: Dim, e: Vec4<S>) -> S {
        if self.e_axes(dim).len() == 1 {
            e.at(self.e_axes(dim)[0])
        } else {
            e.length_spec()
        }
    }

    pub fn get_e_magnitude<S: Scalar>(&self, dim: Dim, e: &Vec4<S>) -> (r: S)
        ensures
            r == self.e_magnitude(dim, *e),
    {
        match *self {
            PolarizationMode::TransverseMagnetic => match dim {
                Dim::One => e.y.dup(),
                Dim::Two => e.length(),
                Dim::Three => e.length(),
            },
            PolarizationMode::TransverseElectric => match dim {
                Dim::One => e.x.dup(),
                Dim::Two => e.z.dup(),
                Dim::Three => e.length(),
            },
        }
    }

    /// The components of an E vector that are computed, the others zero. In 2D the vector that
    /// stands on the domain is the Z direction times its component.
    pub open spec fn e_vector<S: Scalar>(self, dim: Dim, e: Vec4<S>) -> Vec3<S> {
        let zero = S::zero_spec();
        match (dim, self) {
            (Dim::One, PolarizationMode::TransverseMagnetic) => Vec3 { x: zero, y: e.y, z: zero },
            (Dim::One, PolarizationMode::TransverseElectric) => Vec3 { x: e.x, y: zero, z: zero },
            (Dim::Two, PolarizationMode::TransverseMagnetic) => Vec3 { x: e.x, y: e.y, z: zero },
            (Dim::Two, PolarizationMode::TransverseElectric) => Vec3 {
                x: zero,
                y: zero,
                z: S::one_spec(),
            }.scaled_spec(e.z),
            (Dim::Three, _) => e.xyz_spec(),
        }
    }

    pub fn extract_e_vector<S: Scalar>(&self, dim: Dim, e: &Vec4<S>) -> (r: Vec3<S>)
        ensures
            r == self.e_vector(dim, *e),
    {
        match *self {
            PolarizationMode::TransverseMagnetic => match dim {
                Dim::One => Vec3 { x: S::zero(), y: e.y.dup(), z: S::zero() },
                Dim::Two => Vec3 { x: e.x.dup(), y: e.y.dup(), z: S::zero() },
                Dim::Three => e.xyz(),
            },
            PolarizationMode::TransverseElectric => match dim {
                Dim::One => Vec3 { x: e.x.dup(), y: S::zero(), z: S::zero() },
                Dim::Two => Vec3 { x: S::zero(), y: S::zero(), z: S::one() }.scaled(&e.z),
                Dim::Three => e.xyz(),
            },
        }
    }
}

/// What a list of at most three axes contains.
proof fn lemma_axes_contained(axes: Seq<Axis>)
    requires
        1 <= axes.len() <= 3,
    ensures
        forall|a: Axis|
            #![trigger axes.contains(a)]
            axes.contains(a) <==> axes[0] == a || (axes.len() > 1 && axes[1] == a) || (axes.len()
                > 2 && axes[2] == a),
{
    assert forall|a: Axis| #![trigger axes.contains(a)] axes.contains(a) implies axes[0] == a || (
    axes.len() > 1 && axes[1] == a) || (axes.len() > 2 && axes[2] == a) by {
        let i = choose|i: int| 0 <= i < axes.len() && axes[i] == a;
        assert(i == 0 || i == 1 || i == 2);
    }
}

impl From<PolarizationMode> for PolarizationModeIndex {
    fn from(value: PolarizationMode) -> (r: Self) {
        match value {
            PolarizationMode::TransverseMagnetic => PolarizationModeIndex::tm(),
            PolarizationMode::TransverseElectric => PolarizationModeIndex::te(),
        }
    }
}

impl vstd::std_specs::convert::FromSpecImpl<PolarizationMode> for PolarizationModeIndex {
    open spec fn obeys_from_spec() -> bool {
        true
    }

    open spec fn from_spec(v: PolarizationMode) -> Self {
        match v {
            PolarizationMode::TransverseMagnetic => PolarizationModeIndex::tm_spec(),
            PolarizationMode::TransverseElectric => PolarizationModeIndex::te_spec(),
        }
    }
}

/// The axes of a polarization mode as a kernel reads them: three entries per field, the axes that
/// are computed first and [`Axis::INVALID`] behind them.
#[derive(Copy, Clone, Debug, PartialEq, Eq)]
pub struct GpuPolarizationMode {
    h_axes: (Axis, Axis, Axis),
    mode: u32,
    dn_axes: (Axis, Axis, Axis),
}

impl Default for GpuPolarizationMode {
    /// Transverse magnetic, in the default dimension.
    fn default() -> (r: Self)
        ensures
            r.encodes(Dim::Three, PolarizationMode::TransverseMagnetic),
    {
        GpuPolarizationMode::tm(Dim::default())
    }
}

impl GpuPolarizationMode {
    pub closed spec fn is_tm_spec(self) -> bool {
        self.mode == 0
    }

    pub closed spec fn is_te_spec(self) -> bool {
        self.mode == 1
    }

    /// The axes along which the H field is computed.
    pub closed spec fn h_list(self) -> Seq<Axis> {
        listed(self.h_axes)
    }

    /// The axes along which the D and E fields are computed.
    pub closed spec fn dn_list(self) -> Seq<Axis> {
        listed(self.dn_axes)
    }

    /// The mode computes what `mode` does.
    pub open spec fn encodes(self, dim: Dim, mode: PolarizationMode) -> bool {
        &&& self.is_tm_spec() == (mode == PolarizationMode::TransverseMagnetic)
        &&& self.is_te_spec() == (mode == PolarizationMode::TransverseElectric)
        &&& self.h_list() == mode.h_axes(dim)
        &&& self.dn_list() == mode.e_axes(dim)
    }

    /// Transverse magnetic.
    pub fn tm(dim: Dim) -> (r: Self)
        ensures
            r.encodes(dim, PolarizationMode::TransverseMagnetic),
    {
        let axes1 = Self::field_axes1(dim);
        let axes2 = Self::field_axes2(dim);
        if matches!(dim, Dim::Two) {
            GpuPolarizationMode { h_axes: axes2, mode: 0, dn_axes: axes1 }
        } else {
            GpuPolarizationMode { h_axes: axes1, mode: 0, dn_axes: axes2 }
        }
    }

    /// Transverse electric.
    pub fn te(dim: Dim) -> (r: Self)
        ensures
            r.encodes(dim, PolarizationMode::TransverseElectric),
    {
        let axes1 = Self::field_axes1(dim);
        let axes2 = Self::field_axes2(dim);
        if matches!(dim, Dim::Two) {
            GpuPolarizationMode { h_axes: axes1, mode: 1, dn_axes: axes2 }
        } else {
            GpuPolarizationMode { h_axes: axes2, mode: 1, dn_axes: axes1 }
        }
    }

    fn field_axes1(dim: Dim) -> (r: (Axis, Axis, Axis))
        ensures
            r == match dim {
                Dim::One => (Axis::X, Axis::INVALID, Axis::INVALID),
                Dim::Two => (Axis::X, Axis::Y, Axis::INVALID),
                Dim::Three => (Axis::X, Axis::Y, Axis::Z),
            },
    {
        match dim {
            Dim::One => (Axis::X, Axis::INVALID, Axis::INVALID),
            Dim::Two => (Axis::X, Axis::Y, Axis::INVALID),
            Dim::Three => (Axis::X, Axis::Y, Axis::Z),
        }
    }

    fn field_axes2(dim: Dim) -> (r: (Axis, Axis, Axis))
        ensures
            r == match dim {
                Dim::One => (Axis::Y, Axis::INVALID, Axis::INVALID),
                Dim::Two => (Axis::Z, Axis::INVALID, Axis::INVALID),
                Dim::Three => (Axis::X, Axis::Y, Axis::Z),
            },
    {
        match dim {
            Dim::One => (Axis::Y, Axis::INVALID, Axis::INVALID),
            Dim::Two => (Axis::Z, Axis::INVALID, Axis::INVALID),
            Dim::Three => (Axis::X, Axis::Y, Axis::Z),
        }
    }

    /// The mode as a kernel reads it.
    pub fn from_mode(dim: Dim, value: PolarizationMode) -> (r: Self)
        ensures
            r.encodes(dim, value),
    {
        match value {
            PolarizationMode::TransverseMagnetic => Self::tm(dim),
            PolarizationMode::TransverseElectric => Self::te(dim),
        }
    }

    /// Is Transverse Magnetic
    pub fn is_tm(&self) -> (r: bool)
        ensures
            r == self.is_tm_spec(),
    {
        self.mode == 0
    }

    /// Is Transverse Electric
    pub fn is_te(&self) -> (r: bool)
        ensures
            r == self.is_te_spec(),
    {
        self.mode == 1
    }

    /// The axes along which the H field is computed, [`Axis::INVALID`] behind them.
    pub fn get_h_axes(&self) -> (r: [Axis; 3])
        ensures
            listed((r[0], r[1], r[2])) == self.h_list(),
    {
        [self.h_axes.0, self.h_axes.1, self.h_axes.2]
    }

    /// The axes along which the D and E fields are computed, [`Axis::INVALID`] behind them.
    pub fn get_dn_axes(&self) -> (r: [Axis; 3])
        ensures
            listed((r[0], r[1], r[2])) == self.dn_list(),
    {
        [self.dn_axes.0, self.dn_axes.1, self.dn_axes.2]
    }
}

/// The axes before the first invalid one.
pub open spec fn listed(axes: (Axis, Axis, Axis)) -> Seq<Axis> {
    if axes.0 == Axis::INVALID {
        seq![]
    } else if axes.1 == Axis::INVALID {
        seq![axes.0]
    } else if axes.2 == Axis::INVALID {
        seq![axes.0, axes.1]
    } else {
        seq![axes.0, axes.1, axes.2]
    }
}

/// The axes before the first invalid one.
pub fn live_axes(axes: &[Axis; 3]) -> (r: Vec<Axis>)
    ensures
        r@ == listed((axes[0], axes[1], axes[2])),
        forall|i: int| 0 <= i < r.len() ==> (#[trigger] r[i]).valid(),
{
    let mut r: Vec<Axis> = Vec::new();
    if axes[0] != Axis::INVALID {
        r.push(axes[0]);
        if axes[1] != Axis::INVALID {
            r.push(axes[1]);
            if axes[2] != Axis::INVALID {
                r.push(axes[2]);
            }
        }
    }
    assert(r@ =~= listed((axes[0], axes[1], axes[2])));
    r
}

/// In 1D and 2D the E and H fields are computed along different axes, and the two modes exchange
/// the roles of the fields.
pub proof fn law_modes_exchange_the_fields(dim: Dim)
    requires
        dim != Dim::Three,
    ensures
        PolarizationMode::TransverseMagnetic.e_axes(dim)
            == PolarizationMode::TransverseElectric.h_axes(dim),
        PolarizationMode::TransverseMagnetic.h_axes(dim)
            == PolarizationMode::TransverseElectric.e_axes(dim),
        forall|mode: PolarizationMode, a: Axis|
            !(#[trigger] mode.e_axes(dim).contains(a) && #[trigger] mode.h_axes(dim).contains(a)),
{
    lemma_axes_contained(PolarizationMode::TransverseMagnetic.e_axes(dim));
    lemma_axes_contained(PolarizationMode::TransverseElectric.e_axes(dim));
}

/// The sum of the squares of the components along the first `k` of `axes`.
pub open spec fn sum_of_squares<S: Scalar>(
    read: spec_fn(S) -> real,
    v: Vec4<S>,
    axes: Seq<Axis>,
    k: nat,
) -> real
    decreases k,
{
    if k == 0 {
        0 as real
    } else {
        let c = at(read, v.at(axes[k - 1]));
        sum_of_squares(read, v, axes, (k - 1) as nat) + times(c, c)
    }
}

/// The components that are not along `axes` are zero.
pub open spec fn only_along<S: Scalar>(
    read: spec_fn(S) -> real,
    v: Vec4<S>,
    axes: Seq<Axis>,
) -> bool {
    &&& at(read, v.w) == 0 as real
    &&& forall|axis: Axis|
        axis.valid() && !axes.contains(axis) ==> at(read, #[trigger] v.at(axis)) == 0 as real
}

/// The length of a vector is the root of the sum of the squares of its components.
pub(crate) proof fn lemma_length<S: Scalar>(read: spec_fn(S) -> real, v: Vec4<S>)
    requires
        exact(read),
        exact_roots(read),
        at(read, v.w) == 0 as real,
    ensures
        ({
            let (x, y, z) = (at(read, v.x), at(read, v.y), at(read, v.z));
            let l = at(read, v.length_spec());
            &&& l >= 0 as real
            &&& times(l, l) == times(x, x) + times(y, y) + times(z, z)
            &&& times(x, x) >= 0 as real
            &&& times(y, y) >= 0 as real
            &&& times(z, z) >= 0 as real
        }),
{
    let (x, y, z) = (at(read, v.x), at(read, v.y), at(read, v.z));
    lemma_square_sign(x);
    lemma_square_sign(y);
    lemma_square_sign(z);
    lemma_unit(0 as real);
}

/// A square is not negative.
pub(crate) proof fn lemma_square_sign(a: real)
    ensures
        times(a, a) >= 0 as real,
{
    if a >= 0 as real {
        lemma_product_sign(a, a);
    } else {
        lemma_product_sign(-a, -a);
        lemma_negated(a, -a);
        lemma_negated(a, a);
    }
}

/// The magnitude of an E vector is its length: its square is the sum of the squares of the
/// components that the mode computes.
pub proof fn law_magnitude_is_the_length<S: Scalar>(
    read: spec_fn(S) -> real,
    mode: PolarizationMode,
    dim: Dim,
    e: Vec4<S>,
)
    requires
        exact(read),
        exact_roots(read),
        only_along(read, e, mode.e_axes(dim)),
    ensures
        ({
            let l = at(read, mode.e_magnitude(dim, e));
            let axes = mode.e_axes(dim);
            &&& times(l, l) == sum_of_squares(read, e, axes, axes.len())
            &&& axes.len() > 1 ==> l >= 0 as real
            &&& axes.len() == 1 ==> l == at(read, e.at(axes[0]))
        }),
{
    reveal_with_fuel(sum_of_squares, 4);
    lemma_length(read, e);
    lemma_unit(0 as real);
    let axes = mode.e_axes(dim);
    lemma_axes_contained(axes);
    assert(axes.contains(Axis::Z) || at(read, e.at(Axis::Z)) == 0 as real);
}

/// The vector of the E field has the components that the mode computes, and no others.
pub proof fn law_vector_has_the_computed_components<S: Scalar>(
    read: spec_fn(S) -> real,
    mode: PolarizationMode,
    dim: Dim,
    e: Vec4<S>,
    axis: Axis,
)
    requires
        exact(read),
        axis.valid(),
    ensures
        at(read, mode.e_vector(dim, e).at(axis)) == if mode.e_axes(dim).contains(axis) {
            at(read, e.at(axis))
        } else {
            0 as real
        },
{
    lemma_axes_contained(mode.e_axes(dim));
    lemma_unit(at(read, e.z));
}

/// In the plane of a 2D simulation lie the E field of the transverse magnetic mode and the H field of
/// the transverse electric one, and the other field stands on it. In 1D both fields stand across the
/// axis, and the axis that follows that of H is the one of E in the transverse magnetic mode, and the
/// other way round in the transverse electric one. In 3D everything is computed.
pub proof fn law_modes_name_their_components(dim: Dim, mode: PolarizationMode, axis: Axis)
    requires
        axis.valid(),
    ensures
        dim == Dim::Two ==> {
            &&& mode.e_axes(dim).contains(axis) <==> (mode == PolarizationMode::TransverseMagnetic
                <==> crate::axis::spatial(dim, axis))
            &&& mode.h_axes(dim).contains(axis) <==> (mode == PolarizationMode::TransverseElectric
                <==> crate::axis::spatial(dim, axis))
        },
        dim == Dim::One ==> {
            let (e, h) = (mode.e_axes(dim)[0], mode.h_axes(dim)[0]);
            &&& mode.e_axes(dim).len() == 1 && mode.h_axes(dim).len() == 1
            &&& !crate::axis::spatial(dim, e) && !crate::axis::spatial(dim, h)
            &&& mode == PolarizationMode::TransverseMagnetic ==> h.permute_spec() == e
            &&& mode == PolarizationMode::TransverseElectric ==> e.permute_spec() == h
        },
        dim == Dim::Three ==> mode.e_axes(dim).contains(axis) && mode.h_axes(dim).contains(axis),
{
    lemma_axes_contained(mode.e_axes(dim));
    lemma_axes_contained(mode.h_axes(dim));
}

} // verus!
