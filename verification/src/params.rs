//! The values that the kernels read: the description of the grid, the update coefficients, the
//! running sums of the absorbing layer and the sources.
use crate::axis::{spatial, Axis, Dim};
use crate::index::{flat3, lemma_flat3_bounds, stride, GridIndex};
use crate::scalar::{bit, bit_spec, Scalar};
use crate::vector::{UVec3, Vec2, Vec3, Vec4};
use vstd::prelude::*;

verus! {

/// Information describing the grid.
#[derive(Copy, Clone, Debug)]
pub struct GridParameters<S> {
    pub dim: Dim,
    /// Increments by 1 in i/j/k indices for flat indexing. Used for accessing
    /// data from neighboring cells.
    pub flat_idx_incrs: UVec3,
    pub polarization_mode_index: PolarizationModeIndex,
    pub n_cells3: UVec3,
    pub dt: S,
    /// Spatial differentials (cell size)
    pub d: Vec3<S>,
    pub inv_dt: S,
    /// Inverse of spatial differential (reciprocated cell size)
    pub inv_d: Vec3<S>,
    pub cell_count: u32,
    pub problem_space_min: UVec3,
    pub problem_space_max: UVec3,
}

impl<S: Scalar> GridParameters<S> {
    /// Everything zero, in the default dimension.
    pub open spec fn zero_spec() -> Self {
        let zero = S::zero_spec();
        GridParameters {
            dim: Dim::Three,
            flat_idx_incrs: UVec3::splat_spec(0),
            polarization_mode_index: PolarizationModeIndex::tm_spec(),
            n_cells3: UVec3::splat_spec(0),
            dt: zero,
            d: Vec3::splat_spec(zero),
            inv_dt: zero,
            inv_d: Vec3::splat_spec(zero),
            cell_count: 0,
            problem_space_min: UVec3::splat_spec(0),
            problem_space_max: UVec3::splat_spec(0),
        }
    }
}

impl<S: Scalar> Default for GridParameters<S> {
    fn default() -> (r: Self)
        ensures
            r == Self::zero_spec(),
    {
        GridParameters {
            dim: Dim::default(),
            flat_idx_incrs: UVec3::splat(0),
            polarization_mode_index: PolarizationModeIndex::default(),
            n_cells3: UVec3::splat(0),
            dt: S::zero(),
            d: Vec3::splat(&S::zero()),
            inv_dt: S::zero(),
            inv_d: Vec3::splat(&S::zero()),
            cell_count: 0,
            problem_space_min: UVec3::splat(0),
            problem_space_max: UVec3::splat(0),
        }
    }
}

/// `n` are the dimensions of a grid: at least one cell along every axis, and no more than one along
/// an axis that is not spatial.
pub open spec fn grid_shape(dim: Dim, n: UVec3) -> bool {
    &&& n.x >= 1 && n.y >= 1 && n.z >= 1
    &&& dim == Dim::One ==> n.x == 1 && n.y == 1
    &&& dim == Dim::Two ==> n.z == 1
    &&& n.product_spec() <= u32::MAX
}

/// `incrs` holds the distance in storage to the next cell along each spatial axis.
pub open spec fn strides_of(dim: Dim, n: UVec3, incrs: UVec3) -> bool {
    &&& spatial(dim, Axis::X) ==> incrs.x == stride(n, Axis::X)
    &&& spatial(dim, Axis::Y) ==> incrs.y == stride(n, Axis::Y)
    &&& spatial(dim, Axis::Z) ==> incrs.z == stride(n, Axis::Z)
}

impl<S> GridParameters<S> {
    /// The sizes and distances belong to one grid.
    pub open spec fn wf(self) -> bool {
        &&& grid_shape(self.dim, self.n_cells3)
        &&& strides_of(self.dim, self.n_cells3, self.flat_idx_incrs)
        &&& self.cell_count == self.n_cells3.product_spec()
    }

    /// Where the cell `c` is stored.
    pub open spec fn place(self, c: UVec3) -> int {
        flat3(c, self.n_cells3)
    }

    /// `c` lies on the first or last layer of cells along some spatial axis.
    pub open spec fn on_boundary(self, c: UVec3) -> bool {
        boundary_cell(self.dim, c, self.n_cells3)
    }

    /// `c` is a cell of the grid that lies on no boundary.
    pub open spec fn inner(self, c: UVec3) -> bool {
        c.below(self.n_cells3) && !self.on_boundary(c)
    }

    /// `c` is a cell between the absorbing layers.
    pub open spec fn in_problem_space(self, c: UVec3) -> bool {
        &&& c.below(self.n_cells3)
        &&& spatial(self.dim, Axis::X) ==> self.problem_space_min.x <= c.x
            <= self.problem_space_max.x
        &&& spatial(self.dim, Axis::Y) ==> self.problem_space_min.y <= c.y
            <= self.problem_space_max.y
        &&& spatial(self.dim, Axis::Z) ==> self.problem_space_min.z <= c.z
            <= self.problem_space_max.z
    }

    /// Where the cell `c` is stored.
    pub fn cell_place(&self, c: &UVec3) -> (r: usize)
        requires
            self.wf(),
            c.below(self.n_cells3),
        ensures
            r == self.place(*c),
            r < self.cell_count,
    {
        cell_place(self.dim, c, &self.n_cells3)
    }

    /// Whether `c` lies on the first or last layer of cells along some spatial axis.
    pub fn is_on_boundary(&self, c: &UVec3) -> (r: bool)
        requires
            self.wf(),
        ensures
            r == self.on_boundary(*c),
    {
        let n = &self.n_cells3;
        let along_xy = (c.x == 0 || c.x == n.x - 1) || (c.y == 0 || c.y == n.y - 1);
        let along_z = c.z == 0 || c.z == n.z - 1;
        match self.dim {
            Dim::One => along_z,
            Dim::Two => along_xy,
            Dim::Three => along_xy || along_z,
        }
    }

    /// Whether `c` is a cell between the absorbing layers.
    pub fn is_in_problem_space(&self, c: &UVec3) -> (r: bool)
        ensures
            r == self.in_problem_space(*c),
    {
        let min = &self.problem_space_min;
        let max = &self.problem_space_max;
        let along_xy = min.x <= c.x && c.x <= max.x && min.y <= c.y && c.y <= max.y;
        let along_z = min.z <= c.z && c.z <= max.z;
        let inside = match self.dim {
            Dim::One => along_z,
            Dim::Two => along_xy,
            Dim::Three => along_xy && along_z,
        };
        inside && c.all_below(&self.n_cells3)
    }
}

/// `c` lies on the first or last layer of the cells of a grid along some spatial axis.
pub open spec fn boundary_cell(dim: Dim, c: UVec3, n: UVec3) -> bool {
    ||| spatial(dim, Axis::X) && (c.x == 0 || c.x == n.x - 1)
    ||| spatial(dim, Axis::Y) && (c.y == 0 || c.y == n.y - 1)
    ||| spatial(dim, Axis::Z) && (c.z == 0 || c.z == n.z - 1)
}

/// Where the cell `c` of a grid with the dimensions `n` is stored.
pub fn cell_place(dim: Dim, c: &UVec3, n: &UVec3) -> (r: usize)
    requires
        grid_shape(dim, *n),
        c.below(*n),
    ensures
        r == flat3(*c, *n),
        r < n.product_spec(),
{
    proof {
        lemma_flat3_bounds(*c, *n);
        assert(GridIndex::from_uvec3_spec(dim, *c).cell3() == *c);
        assert(GridIndex::from_uvec3_spec(dim, *n).cells3() == *n);
    }
    GridIndex::from_uvec3(dim, *c).to_flat_idx(GridIndex::from_uvec3(dim, *n)) as usize
}

/// The neighbours of an inner cell are cells of the grid, one stride away.
pub proof fn lemma_inner_neighbours<S>(grid: GridParameters<S>, c: UVec3, axis: Axis)
    requires
        grid.wf(),
        grid.inner(c),
        spatial(grid.dim, axis),
    ensures
        0 <= grid.place(c) - grid.flat_idx_incrs.at(axis),
        grid.place(c) + grid.flat_idx_incrs.at(axis) < grid.cell_count,
        grid.flat_idx_incrs.at(axis) >= 1,
        c.at(axis) >= 1,
        c.at(axis) + 1 < grid.n_cells3.at(axis),
        grid.place(c.with_spec(axis, (c.at(axis) - 1) as u32)) == grid.place(c)
            - grid.flat_idx_incrs.at(axis),
        grid.place(c.with_spec(axis, (c.at(axis) + 1) as u32)) == grid.place(c)
            + grid.flat_idx_incrs.at(axis),
{
    let n = grid.n_cells3;
    let before = c.with_spec(axis, (c.at(axis) - 1) as u32);
    let behind = c.with_spec(axis, (c.at(axis) + 1) as u32);
    crate::index::law_neighbour_is_one_stride_away(before, n, axis);
    crate::index::law_neighbour_is_one_stride_away(c, n, axis);
    assert(before.with_spec(axis, c.at(axis)) == c);
    lemma_flat3_bounds(before, n);
    lemma_flat3_bounds(behind, n);
    assert(n.x * n.y >= 1) by (nonlinear_arith)
        requires
            n.x >= 1,
            n.y >= 1,
    ;
}

/// A newtype of an index representing the polarization mode.
#[derive(Copy, Clone, Debug, PartialEq, Eq, Structural)]
pub struct PolarizationModeIndex(u32);

impl View for PolarizationModeIndex {
    type V = u32;

    closed spec fn view(&self) -> u32 {
        self.0
    }
}

impl Default for PolarizationModeIndex {
    /// Transverse magnetic.
    fn default() -> (r: Self)
        ensures
            r == PolarizationModeIndex::tm_spec(),
            r@ == 0,
    {
        PolarizationModeIndex::tm()
    }
}

impl PolarizationModeIndex {
    pub closed spec fn tm_spec() -> Self {
        PolarizationModeIndex(0)
    }

    pub closed spec fn te_spec() -> Self {
        PolarizationModeIndex(1)
    }

    /// Transverse magnetic.
    pub fn tm() -> (r: Self)
        ensures
            r == Self::tm_spec(),
            r@ == 0,
    {
        PolarizationModeIndex(0)
    }

    /// Transverse electric.
    pub fn te() -> (r: Self)
        ensures
            r == Self::te_spec(),
            r@ == 1,
    {
        PolarizationModeIndex(1)
    }

    pub fn is_tm(self) -> (r: bool)
        ensures
            r == (self@ == 0),
    {
        self.0 == 0
    }

    pub fn is_te(self) -> (r: bool)
        ensures
            r == (self@ == 1),
    {
        self.0 == 1
    }

    /// Add the source term of the H field to `v`; in 3D only in TE mode.
    pub fn inject_h_source<S: Scalar>(self, dim: Dim, v: &mut Vec4<S>, src_term: &Vec4<S>)
        ensures
            *final(v) == if dim == Dim::Three {
                *old(v) + src_term.scaled_spec(bit_spec::<S>(self@ == 1))
            } else {
                *old(v) + *src_term
            },
    {
        if matches!(dim, Dim::Three) {
            let on: S = bit(self.is_te());
            *v = v.plus(&src_term.scaled(&on));
        } else {
            *v = v.plus(src_term);
        }
    }

    /// Add the source term of the D field to `v`; in 3D only in TM mode.
    pub fn inject_dn_source<S: Scalar>(self, dim: Dim, v: &mut Vec4<S>, src_term: &Vec4<S>)
        ensures
            *final(v) == if dim == Dim::Three {
                *old(v) + src_term.scaled_spec(bit_spec::<S>(self@ == 0))
            } else {
                *old(v) + *src_term
            },
    {
        if matches!(dim, Dim::Three) {
            let on: S = bit(self.is_tm());
            *v = v.plus(&src_term.scaled(&on));
        } else {
            *v = v.plus(src_term);
        }
    }
}

/// The two modes have the numbers 0 and 1, and are told apart by them.
pub proof fn law_modes_have_their_numbers()
    ensures
        PolarizationModeIndex::tm_spec()@ == 0,
        PolarizationModeIndex::te_spec()@ == 1,
        forall|a: PolarizationModeIndex, b: PolarizationModeIndex| #[trigger] a@ == #[trigger] b@
            ==> a == b,
{
}

/// Update coefficients for H, D, and E fields with a UPML.
///
/// `h4` and `dn4` are used in 2D and 3D only.
#[derive(Copy, Clone, Debug)]
pub struct PmlCoefficients<S> {
    pub h1: Vec4<S>,
    pub h2: Vec4<S>,
    pub h3: Vec4<S>,
    pub h4: Vec4<S>,
    pub dn1: Vec4<S>,
    pub dn2: Vec4<S>,
    pub dn_loss1: Vec4<S>,
    pub dn_loss2: Vec4<S>,
    pub dn3: Vec4<S>,
    pub dn4: Vec4<S>,
    pub en1: Vec4<S>,
}

impl<S: Scalar> PmlCoefficients<S> {
    pub open spec fn zero_spec() -> Self {
        let zero = Vec4::zero_spec();
        PmlCoefficients {
            h1: zero,
            h2: zero,
            h3: zero,
            h4: zero,
            dn1: zero,
            dn2: zero,
            dn_loss1: zero,
            dn_loss2: zero,
            dn3: zero,
            dn4: zero,
            en1: zero,
        }
    }
}

impl<S: Scalar> Default for PmlCoefficients<S> {
    fn default() -> (r: Self)
        ensures
            r == Self::zero_spec(),
    {
        PmlCoefficients {
            h1: Vec4::zero(),
            h2: Vec4::zero(),
            h3: Vec4::zero(),
            h4: Vec4::zero(),
            dn1: Vec4::zero(),
            dn2: Vec4::zero(),
            dn_loss1: Vec4::zero(),
            dn_loss2: Vec4::zero(),
            dn3: Vec4::zero(),
            dn4: Vec4::zero(),
            en1: Vec4::zero(),
        }
    }
}

/// Integration terms used in updating H and D fields.
///
/// `h` and `dn` are used in 2D and 3D only.
#[derive(Copy, Clone, Debug)]
pub struct PmlIntegrals<S> {
    /// Used for loss.
    pub en: Vec4<S>,
    pub en_curl: Vec4<S>,
    pub h: Vec4<S>,
    pub h_curl: Vec4<S>,
    pub dn: Vec4<S>,
}

impl<S: Scalar> PmlIntegrals<S> {
    pub open spec fn zero_spec() -> Self {
        let zero = Vec4::zero_spec();
        PmlIntegrals { en: zero, en_curl: zero, h: zero, h_curl: zero, dn: zero }
    }

    pub fn dup(&self) -> (r: Self)
        ensures
            r == *self,
    {
        PmlIntegrals {
            en: self.en.dup(),
            en_curl: self.en_curl.dup(),
            h: self.h.dup(),
            h_curl: self.h_curl.dup(),
            dn: self.dn.dup(),
        }
    }
}

impl<S: Scalar> Default for PmlIntegrals<S> {
    fn default() -> (r: Self)
        ensures
            r == Self::zero_spec(),
    {
        PmlIntegrals {
            en: Vec4::zero(),
            en_curl: Vec4::zero(),
            h: Vec4::zero(),
            h_curl: Vec4::zero(),
            dn: Vec4::zero(),
        }
    }
}

/// What the sources add to the fields of a cell in the current step.
#[derive(Copy, Clone, Debug)]
pub struct SourceTerms<S> {
    pub h: Vec4<S>,
    pub dn: Vec4<S>,
}

impl<S: Scalar> SourceTerms<S> {
    pub open spec fn zero_spec() -> Self {
        SourceTerms { h: Vec4::zero_spec(), dn: Vec4::zero_spec() }
    }
}

impl<S: Scalar> Default for SourceTerms<S> {
    fn default() -> (r: Self)
        ensures
            r == Self::zero_spec(),
    {
        SourceTerms { h: Vec4::zero(), dn: Vec4::zero() }
    }
}

/// What a dipole oscillates.
#[derive(Copy, Clone, Debug, PartialEq, Eq, Structural)]
pub enum DipoleType {
    /// An oscillating point charge
    Electric,
    /// An infinitesimal current loop
    Magnetic,
}

impl Default for DipoleType {
    fn default() -> (r: Self)
        ensures
            r == DipoleType::Electric,
    {
        DipoleType::Electric
    }
}

/// A dipole source
#[derive(Copy, Clone, Debug)]
pub struct GpuDipole<S> {
    pub cell_idx: u32,
    pub vals_start: u32,
    pub vals_end: u32,
    pub t_start: u32,
    pub moment: Vec4<S>,
    pub dipole_type: DipoleType,
}

impl<S: Scalar> GpuDipole<S> {
    pub open spec fn zero_spec() -> Self {
        GpuDipole {
            cell_idx: 0,
            vals_start: 0,
            vals_end: 0,
            t_start: 0,
            moment: Vec4::zero_spec(),
            dipole_type: DipoleType::Electric,
        }
    }
}

impl<S: Scalar> Default for GpuDipole<S> {
    fn default() -> (r: Self)
        ensures
            r == Self::zero_spec(),
    {
        GpuDipole {
            cell_idx: 0,
            vals_start: 0,
            vals_end: 0,
            t_start: 0,
            moment: Vec4::zero(),
            dipole_type: DipoleType::Electric,
        }
    }
}

/// The direction in which a plane wave travels along its axis.
#[derive(Copy, Clone, Debug, PartialEq, Eq, Structural)]
pub enum WaveDirection {
    Positive,
    Negative,
}

impl WaveDirection {
    /// The sign of the direction.
    pub fn sign(self) -> (r: i32)
        ensures
            r == if self == WaveDirection::Positive {
                1int
            } else {
                -1
            },
    {
        match self {
            WaveDirection::Positive => 1,
            WaveDirection::Negative => -1,
        }
    }
}

/// A plane wave source (TF/SF).
///
/// A source whose first and last value have the same place is inactive.
#[derive(Copy, Clone, Debug)]
pub struct GpuTfsf<S> {
    pub a: Axis,
    pub a1: Axis,
    pub a2: Axis,
    pub direction: WaveDirection,
    /// The smallest index component of a cell that is fully inside the TF/SF boundary.
    ///
    /// (component of cell idx is along the `a` direction)
    pub tf_min_a: u32,
    pub tf_min_a1: u32,
    pub tf_min_a2: u32,
    /// The largest index component of a cell that is half-inside the TF/SF boundary.
    /// Only the En components of the cell are within the TF/SF boundary.
    ///
    /// (component of cell idx is along the `a` direction)
    pub tf_max_a: u32,
    pub tf_max_a1: u32,
    pub tf_max_a2: u32,
    pub grid_start: u32,
    pub vals_start: u32,
    pub vals_end: u32,
    pub t_start: u32,
    pub n_cells: u32,
    pub polarization_a1: S,
    pub polarization_a2: S,
    pub corrections_start: u32,
    pub num_correction_cells: u32,
    pub inv_d_a: S,
    pub inv_d_a1: S,
    pub inv_d_a2: S,
}

impl<S: Scalar> GpuTfsf<S> {
    pub open spec fn zero_spec() -> Self {
        let zero = S::zero_spec();
        GpuTfsf {
            a: Axis::X,
            a1: Axis::X,
            a2: Axis::X,
            direction: WaveDirection::Positive,
            tf_min_a: 0,
            tf_min_a1: 0,
            tf_min_a2: 0,
            tf_max_a: 0,
            tf_max_a1: 0,
            tf_max_a2: 0,
            grid_start: 0,
            vals_start: 0,
            vals_end: 0,
            t_start: 0,
            n_cells: 0,
            polarization_a1: zero,
            polarization_a2: zero,
            corrections_start: 0,
            num_correction_cells: 0,
            inv_d_a: zero,
            inv_d_a1: zero,
            inv_d_a2: zero,
        }
    }

    pub open spec fn active(self) -> bool {
        self.vals_start != self.vals_end
    }
}

impl<S: Scalar> Default for GpuTfsf<S> {
    fn default() -> (r: Self)
        ensures
            r == Self::zero_spec(),
            !r.active(),
    {
        GpuTfsf {
            a: Axis::X,
            a1: Axis::X,
            a2: Axis::X,
            direction: WaveDirection::Positive,
            tf_min_a: 0,
            tf_min_a1: 0,
            tf_min_a2: 0,
            tf_max_a: 0,
            tf_max_a1: 0,
            tf_max_a2: 0,
            grid_start: 0,
            vals_start: 0,
            vals_end: 0,
            t_start: 0,
            n_cells: 0,
            polarization_a1: S::zero(),
            polarization_a2: S::zero(),
            corrections_start: 0,
            num_correction_cells: 0,
            inv_d_a: S::zero(),
            inv_d_a1: S::zero(),
            inv_d_a2: S::zero(),
        }
    }
}

/// A mask that enables and/or negates TFSF source values used in the correction terms.
#[derive(Copy, Clone, Debug)]
pub struct TfsfMask<S> {
    pub en_src_a2_pa1: S,
    pub en_src_a1_pa2: S,
    pub en_src_a2_pa: S,
    pub en_src_a1_pa: S,
    pub h_src_a2_ma1: S,
    pub h_src_a1_ma2: S,
    pub h_src_a2_ma: S,
    pub h_src_a1_ma: S,
}

impl<S: Scalar> TfsfMask<S> {
    pub open spec fn zero_spec() -> Self {
        let zero = S::zero_spec();
        TfsfMask {
            en_src_a2_pa1: zero,
            en_src_a1_pa2: zero,
            en_src_a2_pa: zero,
            en_src_a1_pa: zero,
            h_src_a2_ma1: zero,
            h_src_a1_ma2: zero,
            h_src_a2_ma: zero,
            h_src_a1_ma: zero,
        }
    }
}

impl<S: Scalar> Default for TfsfMask<S> {
    fn default() -> (r: Self)
        ensures
            r == Self::zero_spec(),
    {
        TfsfMask {
            en_src_a2_pa1: S::zero(),
            en_src_a1_pa2: S::zero(),
            en_src_a2_pa: S::zero(),
            en_src_a1_pa: S::zero(),
            h_src_a2_ma1: S::zero(),
            h_src_a1_ma2: S::zero(),
            h_src_a2_ma: S::zero(),
            h_src_a1_ma: S::zero(),
        }
    }
}

/// A vector of the auxiliary grid: the components along the two axes across the wave's axis.
pub type AuxVect<S> = Vec2<S>;

/// Update coefficients of a cell of an auxiliary grid.
#[derive(Copy, Clone, Debug)]
pub struct AuxGridPmlCoeffs<S> {
    pub h1: Vec2<S>,
    pub h2: Vec2<S>,
    pub dn1: Vec2<S>,
    pub dn2: Vec2<S>,
    pub en1: Vec2<S>,
}

impl<S: Scalar> AuxGridPmlCoeffs<S> {
    pub open spec fn zero_spec() -> Self {
        let zero = Vec2::splat_spec(S::zero_spec());
        AuxGridPmlCoeffs { h1: zero, h2: zero, dn1: zero, dn2: zero, en1: zero }
    }
}

impl<S: Scalar> Default for AuxGridPmlCoeffs<S> {
    fn default() -> (r: Self)
        ensures
            r == Self::zero_spec(),
    {
        let zero: S = S::zero();
        AuxGridPmlCoeffs {
            h1: Vec2::splat(&zero),
            h2: Vec2::splat(&zero),
            dn1: Vec2::splat(&zero),
            dn2: Vec2::splat(&zero),
            en1: Vec2::splat(&zero),
        }
    }
}

/// The fields of a plane wave at one of its wavefronts.
#[derive(Copy, Clone, Debug)]
pub struct TfsfSourceValues<S> {
    pub en_a1: S,
    pub en_a2: S,
    pub h_a1: S,
    pub h_a2: S,
}

impl<S: Scalar> TfsfSourceValues<S> {
    pub open spec fn zero_spec() -> Self {
        let zero = S::zero_spec();
        TfsfSourceValues { en_a1: zero, en_a2: zero, h_a1: zero, h_a2: zero }
    }
}

impl<S: Scalar> Default for TfsfSourceValues<S> {
    fn default() -> (r: Self)
        ensures
            r == Self::zero_spec(),
    {
        TfsfSourceValues { en_a1: S::zero(), en_a2: S::zero(), h_a1: S::zero(), h_a2: S::zero() }
    }
}

} // verus!
