//! Simulating Maxwell's equations with the finite-difference time-domain method.
//!
//! A simulation is described by a [`simulation::FdtdLossySimulation`]: its materials, its sources
//! and how finely it is resolved, in one, two or three dimensions. Finalizing it lays out a
//! [`state::FdtdLossyState`], which holds everything that the kernels read and write. A
//! [`pipeline::FdtdLossyPipeline`] records which kernels run in a step and in which order, and
//! [`launch::run_pass`] runs what was recorded.
//!
//! The equations are written against [`scalar::Scalar`], so that every contract says which
//! arithmetic operations a number is the result of, in which order.
pub mod aux_laws;
pub mod axis;
pub mod backend;
pub mod boundary;
pub mod boundary_condition;
pub mod boundary_kernels;
pub mod box_laws;
pub mod cells;
pub mod clamped;
pub mod clamped_laws;
pub mod color;
pub mod dipole_laws;
pub mod equivalence;
pub mod error;
pub mod exact;
pub mod fdtd1;
pub mod fdtd_1d;
pub mod finalized_laws;
pub mod formula_laws;
pub mod geometry;
pub mod host;
pub mod index;
pub mod launch;
pub mod launch_laws;
pub mod layers;
pub mod mask_laws;
pub mod materials;
pub mod maxwell_laws;
pub mod nonzero;
pub mod params;
pub mod pipeline;
pub mod placement_laws;
pub mod plane_waves;
pub mod pml;
pub mod pml_laws;
pub mod polarization;
pub mod polarized;
pub mod readback;
pub mod readiness;
pub mod saturating;
pub mod scalar;
pub mod simulation;
pub mod source;
pub mod source_terms;
pub mod stability;
pub mod state;
pub mod symbolic;
pub mod tabled;
pub mod tfsf;
pub mod tfsf_laws;
pub mod tfsf_setup;
pub mod update;
pub mod update_laws;
pub mod vect;
pub mod vector;
pub mod visual;
pub mod wave_laws;
pub mod whole_vector;
