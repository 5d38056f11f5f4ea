//! The buffers of a running simulation.
use crate::index::GridIndex;
use crate::params::{
    GpuDipole, GpuTfsf, GridParameters, PmlCoefficients, PmlIntegrals, SourceTerms,
};
use crate::plane_waves::GpuPlaneWave;
use crate::scalar::Scalar;
use crate::tfsf_setup::{mask_thread_count, masks_fit, TfsfDispatchData};
use crate::vector::{UVec3, Vec4};
use vstd::prelude::*;

verus! {

/// Buffers and data needed for running the simulation
#[derive(Clone, Debug)]
pub struct FdtdLossyState<S> {
    // Uniforms / thread-independent vars
    pub grid_params: GridParameters<S>,
    pub t_idx: u32,
    // Vector fields
    pub h: Vec<Vec4<S>>,
    pub dn: Vec<Vec4<S>>,
    pub en: Vec<Vec4<S>>,
    // For computing source terms
    pub dipoles: Vec<GpuDipole<S>>,
    pub plane_waves: Vec<GpuPlaneWave>,
    pub tfsf_dispatch_data: TfsfDispatchData<S>,
    pub source_vals: Vec<S>,
    // For update equation terms
    pub source_terms: Vec<SourceTerms<S>>,
    pub int_terms: Vec<PmlIntegrals<S>>,
    pub grid_coeffs: Vec<PmlCoefficients<S>>,
    // Misc data
    pub thread_count: [u32; 3],
    pub n_cells: GridIndex,
}

/// The signal of a dipole is stored among `len` values.
pub open spec fn dipole_ok<S: Scalar>(d: GpuDipole<S>, len: int) -> bool {
    d.vals_start <= len && d.vals_end < len
}

/// A plane wave is inactive, or its parts of the buffers lie in them, in a grid of `n` cells along
/// the axes.
pub open spec fn tfsf_ok<S: Scalar>(
    s: GpuTfsf<S>,
    vals: int,
    corrections: int,
    aux_cells: int,
    n: UVec3,
) -> bool {
    s.active() ==> {
        &&& s.axes_valid()
        &&& s.tf_max_a < u32::MAX && s.tf_max_a1 < u32::MAX && s.tf_max_a2 < u32::MAX
        &&& s.vals_start <= vals
        &&& s.vals_end < vals
        &&& s.num_correction_cells >= 1
        &&& s.corrections_start + s.num_correction_cells <= corrections
        &&& s.corrections_start + s.num_correction_cells <= u32::MAX
        &&& s.corrections_start + n.at(s.a) <= u32::MAX
        &&& s.grid_start + s.n_cells <= aux_cells
    }
}

impl<S: Scalar> TfsfDispatchData<S> {
    /// The buffers of the plane waves belong together, in a grid with the parameters `grid`.
    pub open spec fn wf(self, grid: GridParameters<S>, vals: int) -> bool {
        &&& self.h.len() == self.en.len()
        &&& self.dn.len() == self.en.len()
        &&& self.auxgr_coeffs.len() >= self.en.len()
        &&& forall|k: int|
            0 <= k < self.tfsf_sources.len() ==> tfsf_ok(
                #[trigger] self.tfsf_sources[k],
                vals,
                self.corrections.len() as int,
                self.en.len() as int,
                grid.n_cells3,
            )
        &&& match self.mask_init_thread_count {
            Some(t) => {
                &&& masks_fit(grid.dim, grid.n_cells3, self.tfsf_sources.len() as int)
                &&& self.tfsf_masks.len() >= self.tfsf_sources.len() * grid.cell_count
                &&& t@ == mask_thread_count(
                    grid.dim,
                    grid.n_cells3,
                    self.tfsf_sources.len() as int,
                )
            },
            None => forall|k: int|
                0 <= k < self.tfsf_sources.len() ==> !(#[trigger] self.tfsf_sources[k]).active(),
        }
        &&& match self.aux_grid_thread_count {
            Some(t) => t[0] == self.tfsf_sources.len(),
            None => true,
        }
    }
}

impl<S: Scalar> FdtdLossyState<S> {
    /// The buffers belong to one grid, and everything that is read lies in them.
    pub open spec fn wf(self) -> bool {
        let grid = self.grid_params;
        let count = grid.cell_count;
        &&& grid.wf()
        &&& self.n_cells.dim() == grid.dim
        &&& self.n_cells.cells3() == grid.n_cells3
        &&& self.thread_count@ == seq![grid.n_cells3.x, grid.n_cells3.y, grid.n_cells3.z]
        &&& self.h.len() == count
        &&& self.dn.len() == count
        &&& self.en.len() == count
        &&& self.source_terms.len() == count
        &&& self.int_terms.len() == count
        &&& self.grid_coeffs.len() == count
        &&& forall|k: int|
            0 <= k < self.dipoles.len() ==> dipole_ok(
                #[trigger] self.dipoles[k],
                self.source_vals.len() as int,
            )
        &&& self.tfsf_dispatch_data.wf(grid, self.source_vals.len() as int)
    }
}

} // verus!
