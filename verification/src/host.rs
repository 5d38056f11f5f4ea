//! Running kernels on the host, one thread after the other.
use crate::axis::SpatialAxis;
use crate::boundary_kernels::{
    gpu_pec_boundary, gpu_periodic_x_en, gpu_periodic_x_h, gpu_periodic_y_en, gpu_periodic_y_h,
    gpu_periodic_z_en, gpu_periodic_z_h,
};
use crate::index::lemma_flat3_bounds;
use crate::params::{AuxVect, PmlIntegrals, SourceTerms, TfsfMask, TfsfSourceValues};
use crate::scalar::Scalar;
use crate::source_terms::{dipole_terms, gpu_compute_source_terms, tfsf_terms};
use crate::state::FdtdLossyState;
use crate::tfsf::{
    aux_grid_update, init_tfsf_masks, mask_cell, mask_source, mask_threads, thread_below,
};
use crate::update::{first_inner, gpu_lossy_update, lossy_step};
use crate::vector::{UVec3, Vec4};
use vstd::prelude::*;

verus! {

/// The kernels of a simulation.
#[derive(Copy, Clone, Debug, PartialEq, Eq, Structural)]
pub enum Kernel {
    /// [`init_tfsf_masks`]
    InitTfsfMasks,
    /// [`gpu_pec_boundary`]
    PecBoundary,
    /// Prepares the coefficients for a conducting boundary across an axis. It runs on the device
    /// only.
    PecBoundaryInit(SpatialAxis),
    /// [`gpu_periodic_x_en`] and its likes along the other axes
    PeriodicEn(SpatialAxis),
    /// [`gpu_periodic_x_h`] and its likes along the other axes
    PeriodicH(SpatialAxis),
    /// [`aux_grid_update`]
    AuxGridUpdate,
    /// [`gpu_compute_source_terms`]
    ComputeSourceTerms,
    /// [`gpu_lossy_update`]
    LossyUpdate,
    /// A kernel of a boundary condition's own, by a number that its author gives it. It runs on the
    /// device only.
    Own(u32),
}

/// What changes while a simulation runs.
pub ghost struct Fields<S> {
    pub t_idx: u32,
    pub h: Seq<Vec4<S>>,
    pub dn: Seq<Vec4<S>>,
    pub en: Seq<Vec4<S>>,
    pub source_terms: Seq<SourceTerms<S>>,
    pub int_terms: Seq<PmlIntegrals<S>>,
    pub masks: Seq<TfsfMask<S>>,
    pub corrections: Seq<TfsfSourceValues<S>>,
    pub aux_h: Seq<AuxVect<S>>,
    pub aux_dn: Seq<AuxVect<S>>,
    pub aux_en: Seq<AuxVect<S>>,
}

impl<S: Scalar> FdtdLossyState<S> {
    /// What changes while the simulation runs.
    pub open spec fn fields(self) -> Fields<S> {
        let tfsf = self.tfsf_dispatch_data;
        Fields {
            t_idx: self.t_idx,
            h: self.h@,
            dn: self.dn@,
            en: self.en@,
            source_terms: self.source_terms@,
            int_terms: self.int_terms@,
            masks: tfsf.tfsf_masks@,
            corrections: tfsf.corrections@,
            aux_h: tfsf.h@,
            aux_dn: tfsf.dn@,
            aux_en: tfsf.en@,
        }
    }

    /// What does not change while a simulation runs is the same in `self` and `other`.
    pub open spec fn same_setup(self, other: Self) -> bool {
        let (a, b) = (self.tfsf_dispatch_data, other.tfsf_dispatch_data);
        &&& self.grid_params == other.grid_params
        &&& self.dipoles@ == other.dipoles@
        &&& self.plane_waves@ == other.plane_waves@
        &&& self.source_vals@ == other.source_vals@
        &&& self.grid_coeffs@ == other.grid_coeffs@
        &&& self.thread_count == other.thread_count
        &&& self.n_cells == other.n_cells
        &&& a.tfsf_sources@ == b.tfsf_sources@
        &&& a.auxgr_coeffs@ == b.auxgr_coeffs@
        &&& a.aux_grid_thread_count == b.aux_grid_thread_count
        &&& a.mask_init_thread_count == b.mask_init_thread_count
    }

    /// The places of the values of step `t` can be counted.
    pub open spec fn clock_fits(self, t: int) -> bool {
        self.source_vals@.len() + t < u32::MAX
    }

    /// The kernel reads the signals of the sources.
    pub open spec fn reads_signals(self, kernel: Kernel) -> bool {
        kernel == Kernel::AuxGridUpdate || kernel == Kernel::ComputeSourceTerms
    }

    /// The kernel can run on the host, for the threads that it is made for.
    pub open spec fn launchable(self, kernel: Kernel) -> bool {
        match kernel {
            Kernel::PecBoundaryInit(_) | Kernel::Own(_) => false,
            Kernel::PeriodicEn(s) | Kernel::PeriodicH(s) => s.of_dim(self.grid_params.dim)
                && self.grid_params.n_cells3.at(s.axis()) >= 2,
            Kernel::InitTfsfMasks => self.tfsf_dispatch_data.mask_init_thread_count is Some,
            _ => true,
        }
    }

    /// A thread has work of the kernel to do, or nothing to do at all.
    pub open spec fn thread_ok(self, kernel: Kernel, thread: UVec3) -> bool {
        kernel == Kernel::AuxGridUpdate ==> thread.x < self.tfsf_dispatch_data.tfsf_sources@.len()
    }
}

/// What a thread of a kernel makes of the fields `f`, where `c` holds what does not change.
pub open spec fn thread_effect<S: Scalar>(
    c: FdtdLossyState<S>,
    kernel: Kernel,
    f: Fields<S>,
    thread: UVec3,
) -> Fields<S> {
    let grid = c.grid_params;
    let n = grid.n_cells3;
    let idx = grid.place(thread);
    let sources = c.tfsf_dispatch_data.tfsf_sources@;
    match kernel {
        Kernel::InitTfsfMasks => {
            let src = mask_source(grid.dim, n, thread);
            let source = sources[src];
            let cell = mask_cell(grid.dim, n, thread);
            let p = (cell.at(source.a), cell.at(source.a1), cell.at(source.a2));
            if thread_below(thread, mask_threads(grid.dim, n, sources.len() as int))
                && source.active() && !source.leaves_in_1d(grid.dim, p) {
                Fields {
                    masks: f.masks.update(
                        src * grid.cell_count + grid.place(cell),
                        source.mask_at(grid.dim, p),
                    ),
                    ..f
                }
            } else {
                f
            }
        },
        Kernel::PecBoundary => if thread.below(n) && grid.on_boundary(thread) {
            Fields {
                h: f.h.update(idx, Vec4::zero_spec()),
                dn: f.dn.update(idx, Vec4::zero_spec()),
                en: f.en.update(idx, Vec4::zero_spec()),
                ..f
            }
        } else {
            f
        },
        Kernel::PecBoundaryInit(_) | Kernel::Own(_) => f,
        Kernel::PeriodicEn(s) => if thread.below(n) && thread.at(s.axis()) == n.at(s.axis()) - 1 {
            Fields {
                en: f.en.update(idx, f.en[grid.place(thread.with_spec(s.axis(), 1))]),
                ..f
            }
        } else {
            f
        },
        Kernel::PeriodicH(s) => if thread.below(n) && thread.at(s.axis()) == 0 {
            Fields {
                h: f.h.update(
                    idx,
                    f.h[grid.place(thread.with_spec(s.axis(), (n.at(s.axis()) - 2) as u32))],
                ),
                ..f
            }
        } else {
            f
        },
        Kernel::AuxGridUpdate => {
            let source = sources[thread.x as int];
            let i = thread.z as int;
            let at = source.grid_start + i;
            let cell = source.aux_cell(
                i,
                f.t_idx,
                c.tfsf_dispatch_data.auxgr_coeffs@[at],
                c.source_vals@,
                f.aux_h,
                f.aux_dn,
                f.aux_en,
            );
            if source.active() && i < source.n_cells {
                Fields {
                    aux_h: f.aux_h.update(at, cell.h),
                    aux_dn: f.aux_dn.update(at, cell.dn),
                    aux_en: f.aux_en.update(at, cell.en),
                    corrections: if source.hands_over(i) {
                        f.corrections.update(
                            source.handed_to(i),
                            TfsfSourceValues {
                                en_a1: f.aux_en[at].x,
                                en_a2: f.aux_en[at].y,
                                h_a1: cell.h.x,
                                h_a2: cell.h.y,
                            },
                        )
                    } else {
                        f.corrections
                    },
                    ..f
                }
            } else {
                f
            }
        },
        Kernel::ComputeSourceTerms => if grid.in_problem_space(thread) {
            Fields {
                source_terms: f.source_terms.update(
                    idx,
                    tfsf_terms(
                        dipole_terms(
                            c.dipoles@,
                            c.source_vals@,
                            f.t_idx,
                            idx,
                            c.dipoles@.len(),
                        ),
                        sources,
                        thread,
                        idx,
                        grid.cell_count as int,
                        f.masks,
                        f.corrections,
                        c.grid_coeffs@[idx],
                        sources.len(),
                    ),
                ),
                ..f
            }
        } else {
            f
        },
        Kernel::LossyUpdate => if grid.inner(thread) {
            let (cell, ints) = lossy_step(
                grid,
                idx,
                f.h,
                f.dn,
                f.en,
                f.int_terms[idx],
                c.grid_coeffs@[idx],
                f.source_terms[idx],
            );
            Fields {
                h: f.h.update(idx, cell.h),
                dn: f.dn.update(idx, cell.dn),
                en: f.en.update(idx, cell.en),
                int_terms: f.int_terms.update(idx, ints),
                t_idx: if first_inner(grid.dim, thread) {
                    (f.t_idx + 1) as u32
                } else {
                    f.t_idx
                },
                ..f
            }
        } else {
            f
        },
    }
}

/// The thread is the one that counts the step.
pub open spec fn counts_step<S: Scalar>(
    c: FdtdLossyState<S>,
    kernel: Kernel,
    thread: UVec3,
) -> bool {
    &&& kernel == Kernel::LossyUpdate
    &&& c.grid_params.inner(thread)
    &&& first_inner(c.grid_params.dim, thread)
}

/// Run one thread of a kernel.
pub fn run_thread<S: Scalar>(state: &mut FdtdLossyState<S>, kernel: Kernel, thread: UVec3)
    requires
        old(state).wf(),
        old(state).launchable(kernel),
        old(state).thread_ok(kernel, thread),
        old(state).reads_signals(kernel) ==> old(state).clock_fits(old(state).t_idx as int),
        counts_step(*old(state), kernel, thread) ==> old(state).t_idx < u32::MAX,
    ensures
        final(state).wf(),
        final(state).same_setup(*old(state)),
        final(state).fields() == thread_effect(*old(state), kernel, old(state).fields(), thread),
{
    proof {
        if thread.below(state.grid_params.n_cells3) {
            lemma_flat3_bounds(thread, state.grid_params.n_cells3);
        }
    }
    match kernel {
        Kernel::InitTfsfMasks => {
            init_tfsf_masks(
                thread,
                &state.grid_params,
                &state.tfsf_dispatch_data.tfsf_sources,
                &mut state.tfsf_dispatch_data.tfsf_masks,
            );
        },
        Kernel::PecBoundary => {
            gpu_pec_boundary(
                thread,
                &state.grid_params,
                &mut state.h,
                &mut state.dn,
                &mut state.en,
            );
        },
        Kernel::PecBoundaryInit(_) | Kernel::Own(_) => {},
        Kernel::PeriodicEn(s) => match s {
            SpatialAxis::X => gpu_periodic_x_en(thread, &state.grid_params, &mut state.en),
            SpatialAxis::Y => gpu_periodic_y_en(thread, &state.grid_params, &mut state.en),
            SpatialAxis::Z => gpu_periodic_z_en(thread, &state.grid_params, &mut state.en),
        },
        Kernel::PeriodicH(s) => match s {
            SpatialAxis::X => gpu_periodic_x_h(thread, &state.grid_params, &mut state.h),
            SpatialAxis::Y => gpu_periodic_y_h(thread, &state.grid_params, &mut state.h),
            SpatialAxis::Z => gpu_periodic_z_h(thread, &state.grid_params, &mut state.h),
        },
        Kernel::AuxGridUpdate => {
            assert(crate::state::tfsf_ok(
                state.tfsf_dispatch_data.tfsf_sources[thread.x as int],
                state.source_vals.len() as int,
                state.tfsf_dispatch_data.corrections.len() as int,
                state.tfsf_dispatch_data.en.len() as int,
                state.grid_params.n_cells3,
            ));
            let tfsf = &mut state.tfsf_dispatch_data;
            aux_grid_update(
                thread,
                &tfsf.tfsf_sources,
                &state.t_idx,
                &mut tfsf.corrections,
                &state.source_vals,
                &tfsf.auxgr_coeffs,
                &mut tfsf.h,
                &mut tfsf.dn,
                &mut tfsf.en,
            );
        },
        Kernel::ComputeSourceTerms => {
            proof {
                lemma_source_terms_ready(*state, thread);
            }
            gpu_compute_source_terms(
                thread,
                &state.grid_params,
                &state.t_idx,
                &mut state.source_terms,
                &state.source_vals,
                &state.dipoles,
                &state.tfsf_dispatch_data.tfsf_sources,
                &state.tfsf_dispatch_data.corrections,
                &state.tfsf_dispatch_data.tfsf_masks,
                &state.grid_coeffs,
            );
        },
        Kernel::LossyUpdate => {
            gpu_lossy_update(
                thread,
                &state.grid_params,
                &mut state.t_idx,
                &mut state.h,
                &mut state.dn,
                &mut state.en,
                &mut state.int_terms,
                &state.grid_coeffs,
                &state.source_terms,
            );
        },
    }
}

/// The values and wavefronts that a thread reads are in the buffers.
proof fn lemma_source_terms_ready<S: Scalar>(state: FdtdLossyState<S>, thread: UVec3)
    requires
        state.wf(),
        state.clock_fits(state.t_idx as int),
    ensures
        forall|k: int|
            state.grid_params.in_problem_space(thread) && 0 <= k < state.dipoles.len() ==> (
            #[trigger] state.dipoles[k]).reads_below(
                state.source_vals.len() as int,
                state.t_idx,
            ),
        forall|k: int|
            state.grid_params.in_problem_space(thread) && 0 <= k
                < state.tfsf_dispatch_data.tfsf_sources.len() && (
            #[trigger] state.tfsf_dispatch_data.tfsf_sources[k]).active() ==> {
                let s = state.tfsf_dispatch_data.tfsf_sources[k];
                &&& s.axes_valid()
                &&& s.corrects_below(
                    state.tfsf_dispatch_data.corrections.len() as int,
                    thread.at(s.a),
                )
                &&& (k + 1) * state.grid_params.cell_count
                    <= state.tfsf_dispatch_data.tfsf_masks.len()
            },
{
    let tfsf = state.tfsf_dispatch_data;
    let count = state.grid_params.cell_count as int;
    assert forall|k: int|
        state.grid_params.in_problem_space(thread) && 0 <= k < tfsf.tfsf_sources.len() && (
        #[trigger] tfsf.tfsf_sources[k]).active() implies {
        let s = tfsf.tfsf_sources[k];
        &&& s.axes_valid()
        &&& s.corrects_below(tfsf.corrections.len() as int, thread.at(s.a))
        &&& (k + 1) * count <= tfsf.tfsf_masks.len()
    } by {
        let len = tfsf.tfsf_sources.len() as int;
        assert((k + 1) * count <= len * count) by (nonlinear_arith)
            requires
                k + 1 <= len,
                count >= 0,
        ;
    }
}

} // verus!
