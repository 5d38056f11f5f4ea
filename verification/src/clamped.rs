//! Grids whose border cells are updated too: a neighbour beyond the border counts as zero, and what
//! is read in its place is the last element of the buffer.
use crate::axis::{spatial, Axis, Dim, SpatialAxis};
use crate::params::{cell_place, grid_shape, strides_of};
use crate::polarization::{GpuPolarizationMode, PolarizationMode};
use crate::saturating::{sat_sub, saturating_sub};
use crate::scalar::{bit, bit_spec, Scalar};
use crate::source_terms::smaller_int;
use crate::vector::{UVec3, Vec3, Vec4};
use vstd::prelude::*;

verus! {

/// Information describing the grid.
#[derive(Copy, Clone, Debug)]
pub struct GridParameters2<S> {
    pub dim: Dim,
    /// Increments by 1 in i/j/k indices for flat indexing. Used for accessing
    /// data from neighboring cells.
    pub flat_idx_incrs: UVec3,
    pub n_cells3: UVec3,
    /// Spatial differentials (cell size)
    pub d: Vec3<S>,
    pub polarization_mode: GpuPolarizationMode,
}

impl<S: Scalar> Default for GridParameters2<S> {
    /// No cells, in the default dimension and polarization mode.
    fn default() -> (r: Self)
        ensures
            r.dim == Dim::Three,
            r.flat_idx_incrs == UVec3::splat_spec(0),
            r.n_cells3 == UVec3::splat_spec(0),
            r.d == Vec3::splat_spec(S::zero_spec()),
            r.polarization_mode.encodes(Dim::Three, PolarizationMode::TransverseMagnetic),
    {
        GridParameters2 {
            dim: Dim::default(),
            flat_idx_incrs: UVec3::splat(0),
            n_cells3: UVec3::splat(0),
            d: Vec3::splat(&S::zero()),
            polarization_mode: GpuPolarizationMode::default(),
        }
    }
}

impl<S> GridParameters2<S> {
    /// The sizes and distances belong to one grid.
    pub open spec fn wf(self) -> bool {
        &&& grid_shape(self.dim, self.n_cells3)
        &&& strides_of(self.dim, self.n_cells3, self.flat_idx_incrs)
    }

    pub open spec fn cell_count(self) -> int {
        self.n_cells3.product_spec()
    }

    /// Where the cell `c` is stored.
    pub open spec fn place(self, c: UVec3) -> int {
        crate::index::flat3(c, self.n_cells3)
    }

    /// Where the cell `c` is stored.
    pub fn cell_place(&self, c: &UVec3) -> (r: usize)
        requires
            self.wf(),
            c.below(self.n_cells3),
        ensures
            r == self.place(*c),
            r < self.cell_count(),
    {
        cell_place(self.dim, c, &self.n_cells3)
    }
}

/// `idx` moved by `incr`, forwards or backwards with wrap-around, but no further than the last of
/// `len` elements.
pub open spec fn clamped_place(idx: int, incr: int, len: int, forwards: bool) -> int {
    let moved = if forwards {
        idx + incr
    } else if idx >= incr {
        idx - incr
    } else {
        idx - incr + usize::MAX + 1
    };
    smaller_int(moved, len - 1)
}

fn clamp_place(idx: usize, incr: usize, len: usize, forwards: bool) -> (r: usize)
    requires
        idx < len,
    ensures
        r == clamped_place(idx as int, incr as int, len as int, forwards),
        r < len,
{
    if forwards {
        if incr <= len - 1 - idx {
            idx + incr
        } else {
            len - 1
        }
    } else {
        let moved: usize = idx.wrapping_sub(incr);
        if moved <= len - 1 {
            moved
        } else {
            len - 1
        }
    }
}

/// The cell `c` has a neighbour along `axis`.
pub open spec fn has_neighbour(c: UVec3, n: UVec3, axis: Axis, forwards: bool) -> bool {
    if forwards {
        c.at(axis) < n.at(axis) - 1
    } else {
        c.at(axis) > 0
    }
}

/// How the component along `across` of a field changes between the cell `c` and its neighbour along
/// `along`, per length.
pub open spec fn slope<S: Scalar>(
    grid: GridParameters2<S>,
    c: UVec3,
    v: Seq<Vec4<S>>,
    v_self: Vec4<S>,
    along: Axis,
    across: Axis,
    forwards: bool,
) -> S {
    let neighbour = v[clamped_place(
        grid.place(c),
        grid.flat_idx_incrs.at(along) as int,
        v.len() as int,
        forwards,
    )].at(across) * bit_spec::<S>(has_neighbour(c, grid.n_cells3, along, forwards));
    if forwards {
        (neighbour - v_self.at(across)).over_spec(grid.d.at(along))
    } else {
        (v_self.at(across) - neighbour).over_spec(grid.d.at(along))
    }
}

pub fn compute_slope<S: Scalar>(
    grid: &GridParameters2<S>,
    c: &UVec3,
    idx: usize,
    v: &Vec<Vec4<S>>,
    v_self: &Vec4<S>,
    along: Axis,
    across: Axis,
    forwards: bool,
) -> (r: S)
    requires
        grid.wf(),
        c.below(grid.n_cells3),
        idx == grid.place(*c),
        idx < v.len(),
        along.valid(),
        across.valid(),
    ensures
        r == slope(*grid, *c, v@, *v_self, along, across, forwards),
{
    let incr: usize = grid.flat_idx_incrs.get(along) as usize;
    let neighbour_idx: usize = clamp_place(idx, incr, v.len(), forwards);
    let here: u32 = c.get(along);
    let has_neighbour = if forwards {
        here < grid.n_cells3.get(along) - 1
    } else {
        here > 0
    };
    let neighbour: S = v[neighbour_idx].get(across).times(&bit(has_neighbour));
    if forwards {
        neighbour.minus(v_self.get(across)).over(grid.d.get(along))
    } else {
        v_self.get(across).minus(&neighbour).over(grid.d.get(along))
    }
}

/// Forwards & backwards component-wise curl operator
pub open spec fn curl_along<S: Scalar>(
    grid: GridParameters2<S>,
    c: UVec3,
    v: Seq<Vec4<S>>,
    v_self: Vec4<S>,
    axis: Axis,
    forwards: bool,
) -> S {
    let axis1 = axis.permute_spec();
    let axis2 = axis1.permute_spec();
    let curl_term1 = if spatial(grid.dim, axis1) {
        slope(grid, c, v, v_self, axis1, axis2, forwards)
    } else {
        S::zero_spec()
    };
    let curl_term2 = if spatial(grid.dim, axis2) {
        slope(grid, c, v, v_self, axis2, axis1, forwards)
    } else {
        S::zero_spec()
    };
    curl_term1 - curl_term2
}

/// Forwards & backwards component-wise curl operator
pub fn compute_curl<S: Scalar>(
    grid: &GridParameters2<S>,
    c: &UVec3,
    idx: usize,
    v: &Vec<Vec4<S>>,
    v_self: &Vec4<S>,
    axis: Axis,
    forwards: bool,
) -> (r: S)
    requires
        grid.wf(),
        c.below(grid.n_cells3),
        idx == grid.place(*c),
        idx < v.len(),
        axis.valid(),
    ensures
        r == curl_along(*grid, *c, v@, *v_self, axis, forwards),
{
    let axis1: Axis = axis.permute();
    let axis2: Axis = axis1.permute();
    let curl_term1: S = if SpatialAxis::is_spatial_axis(grid.dim, axis1) {
        compute_slope(grid, c, idx, v, v_self, axis1, axis2, forwards)
    } else {
        S::zero()
    };
    let curl_term2: S = if SpatialAxis::is_spatial_axis(grid.dim, axis2) {
        compute_slope(grid, c, idx, v, v_self, axis2, axis1, forwards)
    } else {
        S::zero()
    };
    curl_term1.minus(&curl_term2)
}

/// An electric dipole source
#[derive(Copy, Clone, Debug, PartialEq, Eq)]
pub struct GpuDipole {
    pub cell_idx: u32,
    pub vals_range: [u32; 2],
    pub t_start: u32,
}

impl Default for GpuDipole {
    fn default() -> (r: Self)
        ensures
            r.cell_idx == 0,
            r.vals_range@ == seq![0u32, 0u32],
            r.t_start == 0,
    {
        let r = GpuDipole { cell_idx: 0, vals_range: [0, 0], t_start: 0 };
        assert(r.vals_range@ =~= seq![0u32, 0u32]);
        r
    }
}

impl GpuDipole {
    /// Where the value of step `t` would be stored if the signal had no end.
    pub open spec fn value_place(self, t: u32) -> int {
        self.vals_range[0] + sat_sub(t as int, self.t_start as int)
    }

    pub open spec fn emits(self, t: u32) -> bool {
        t >= self.t_start && self.value_place(t) <= self.vals_range[1]
    }

    /// What the dipole adds in the cell that is stored at `idx` in step `t`.
    pub open spec fn term<S: Scalar>(self, vals: Seq<S>, t: u32, idx: int) -> S {
        vals[smaller_int(self.value_place(t), self.vals_range[1] as int)] * bit_spec::<S>(
            self.cell_idx == idx && self.emits(t),
        )
    }
}

/// The sum of what the first `k` dipoles add in the cell that is stored at `idx` in step `t`.
pub open spec fn source_sum<S: Scalar>(
    dipoles: Seq<GpuDipole>,
    vals: Seq<S>,
    t: u32,
    idx: int,
    k: nat,
) -> S
    decreases k,
{
    if k == 0 {
        S::zero_spec()
    } else {
        source_sum(dipoles, vals, t, idx, (k - 1) as nat) + dipoles[k - 1].term(vals, t, idx)
    }
}

/// The sum of what the dipoles add in the cell that is stored at `idx` in step `steps`.
pub fn compute_source_sum<S: Scalar>(
    dipoles: &Vec<GpuDipole>,
    vals: &Vec<S>,
    steps: u32,
    idx: usize,
) -> (r: S)
    requires
        forall|k: int|
            0 <= k < dipoles.len() ==> (#[trigger] dipoles[k]).vals_range[1] < vals.len(),
    ensures
        r == source_sum(dipoles@, vals@, steps, idx as int, dipoles.len() as nat),
{
    let mut source_term: S = S::zero();
    for i in 0..dipoles.len()
        invariant
            forall|k: int|
                0 <= k < dipoles.len() ==> (#[trigger] dipoles[k]).vals_range[1] < vals.len(),
            source_term == source_sum(dipoles@, vals@, steps, idx as int, i as nat),
    {
        let dipole: &GpuDipole = &dipoles[i];
        let start: u64 = dipole.vals_range[0] as u64;
        let end: u64 = dipole.vals_range[1] as u64;
        let t: usize = saturating_sub(steps as usize, dipole.t_start as usize);
        let vals_i: u64 = start + t as u64;
        let enable = dipole.cell_idx as usize == idx && steps >= dipole.t_start && vals_i <= end;
        let place: usize = if vals_i <= end {
            vals_i as usize
        } else {
            end as usize
        };
        source_term = source_term.plus(&vals[place].times(&bit(enable)));
    }
    source_term
}

/// Whether a thread belongs to the first cell, which counts the steps.
pub fn is_first(c: &UVec3) -> (r: bool)
    ensures
        r == (*c == UVec3::splat_spec(0)),
{
    c.x == 0 && c.y == 0 && c.z == 0
}

} // verus!
