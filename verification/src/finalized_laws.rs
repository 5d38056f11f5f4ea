//! What a simulation is made of before its first step.
use crate::axis::{Axis, Dim};
use crate::dipole_laws::law_dipoles_in_a_cell_add_up;
use crate::exact::{at, exact, lemma_unit};
use crate::geometry::Aabb;
use crate::index::GridIndex;
use crate::materials::block_of;
use crate::maxwell_laws::{law_step_solves_the_field_equations, layers_absorb, rotation, solves};
use crate::params::{GpuDipole, GpuTfsf, GridParameters, PmlCoefficients, SourceTerms};
use crate::pml::{cell_coefficients, profiles, FreeSpace};
use crate::pml_laws::physical;
use crate::scalar::Scalar;
use crate::simulation::FdtdLossySimulation;
use crate::source::Source;
use crate::source_terms::dipole_terms;
use crate::stability::FdtdStability;
use crate::state::FdtdLossyState;
use crate::tfsf_setup::TfsfSetup;
use crate::update::{lossy_step, updated, Buffers};
use crate::vector::{UVec3, Vec2, Vec3, Vec4};
use vstd::prelude::*;

verus! {

/// The coefficients of every cell are those of its own material and of the layers at its own place,
/// for the time step of the simulation.
pub proof fn law_coefficients_belong_to_their_cells<
    S: Scalar,
    G,
    F: Fn(&G, &Vec3<S>, &Vec3<S>) -> bool,
>(
    sim: FdtdLossySimulation<S, G>,
    r: FdtdLossyState<S>,
    bb: Aabb<S>,
    contains: F,
    stability: FdtdStability<S>,
    space: FreeSpace<S>,
    c: UVec3,
)
    requires
        sim.lays_out(r, bb, contains, stability, space),
        r.grid_params.wf(),
        c.below(r.grid_params.n_cells3),
    ensures
        ({
            let grid = r.grid_params;
            let i = grid.place(c);
            &&& r.grid_coeffs@.len() == grid.cell_count
            &&& r.grid_coeffs@[i] == cell_coefficients(
                grid.dim,
                profiles(grid.n_cells3, sim.pml_parameters),
                c,
                sim.material_grid(bb, r.n_cells, contains)[i],
                grid.dt,
                space,
            )
        }),
{
    let grid = r.grid_params;
    let n = r.n_cells;
    crate::index::lemma_flat3_bounds(c, grid.n_cells3);
    let cell = GridIndex::from_uvec3_spec(grid.dim, c);
    assert(cell.cell3() == c);
    assert(cell.cell_of(n));
    crate::index::law_cell_to_flat_and_back(cell, n);
}

/// Every inner cell of a finalized simulation solves the equations of the fields from step to step,
/// in the material at its place and the layers of the simulation.
pub proof fn law_finalized_simulation_solves_the_field_equations<
    S: Scalar,
    G,
    F: Fn(&G, &Vec3<S>, &Vec3<S>) -> bool,
>(
    read: spec_fn(S) -> real,
    sim: FdtdLossySimulation<S, G>,
    r: FdtdLossyState<S>,
    bb: Aabb<S>,
    contains: F,
    stability: FdtdStability<S>,
    space: FreeSpace<S>,
    c: UVec3,
    terms: Seq<SourceTerms<S>>,
    before: Buffers<S>,
    after: Buffers<S>,
    axis: Axis,
)
    requires
        exact(read),
        sim.lays_out(r, bb, contains, stability, space),
        r.grid_params.wf(),
        r.grid_params.inner(c),
        axis.valid(),
        r.grid_params.dim == Dim::One ==> axis != Axis::Z,
        before.h.len() >= r.grid_params.cell_count,
        before.dn.len() >= r.grid_params.cell_count,
        before.en.len() >= r.grid_params.cell_count,
        updated(r.grid_params, c, r.grid_coeffs@, terms, before, after),
        physical(
            read,
            sim.material_grid(bb, r.n_cells, contains)[r.grid_params.place(c)],
            sim.fdtd_parameters.dt,
            space,
        ),
        layers_absorb(
            read,
            r.grid_params.dim,
            profiles(r.grid_params.n_cells3, sim.pml_parameters),
            c,
        ),
    ensures
        solves(
            read,
            r.grid_params,
            c,
            profiles(r.grid_params.n_cells3, sim.pml_parameters),
            sim.material_grid(bb, r.n_cells, contains)[r.grid_params.place(c)],
            space,
            terms[r.grid_params.place(c)],
            before,
            after,
            axis,
        ),
{
    law_coefficients_belong_to_their_cells(sim, r, bb, contains, stability, space, c);
    law_step_solves_the_field_equations(
        read,
        r.grid_params,
        c,
        r.grid_coeffs@,
        terms,
        profiles(r.grid_params.n_cells3, sim.pml_parameters),
        sim.material_grid(bb, r.n_cells, contains)[r.grid_params.place(c)],
        space,
        before,
        after,
        axis,
    );
}

/// A finalized simulation is at rest: no step is made, and the fields, the sums and the source terms
/// of all cells and the fields of all plane waves are zero.
pub proof fn law_finalized_simulation_is_at_rest<
    S: Scalar,
    G,
    F: Fn(&G, &Vec3<S>, &Vec3<S>) -> bool,
>(
    sim: FdtdLossySimulation<S, G>,
    r: FdtdLossyState<S>,
    bb: Aabb<S>,
    contains: F,
    stability: FdtdStability<S>,
    space: FreeSpace<S>,
    c: UVec3,
    j: int,
)
    requires
        sim.lays_out(r, bb, contains, stability, space),
        r.grid_params.wf(),
        c.below(r.grid_params.n_cells3),
        0 <= j < r.tfsf_dispatch_data.h@.len(),
    ensures
        ({
            let i = r.grid_params.place(c);
            let zero = Vec4::<S>::zero_spec();
            let none = Vec2::splat_spec(S::zero_spec());
            let waves = r.tfsf_dispatch_data;
            &&& r.t_idx == 0
            &&& r.h@[i] == zero && r.dn@[i] == zero && r.en@[i] == zero
            &&& r.source_terms@[i].h == zero && r.source_terms@[i].dn == zero
            &&& r.int_terms@[i].en == zero && r.int_terms@[i].en_curl == zero
            &&& r.int_terms@[i].h == zero && r.int_terms@[i].h_curl == zero
            &&& r.int_terms@[i].dn == zero
            &&& waves.h@[j] == none && waves.dn@[j] == none && waves.en@[j] == none
        }),
{
    crate::index::lemma_flat3_bounds(c, r.grid_params.n_cells3);
}

/// Nothing comes from nothing: where E does not turn about an axis, and H and the sums along it are
/// zero, H stays zero along it without a source.
pub proof fn law_nothing_comes_from_nothing<S: Scalar>(
    read: spec_fn(S) -> real,
    grid: GridParameters<S>,
    idx: int,
    h: Seq<Vec4<S>>,
    dn: Seq<Vec4<S>>,
    en: Seq<Vec4<S>>,
    ints: crate::params::PmlIntegrals<S>,
    m: PmlCoefficients<S>,
    axis: Axis,
)
    requires
        exact(read),
        axis.valid(),
        0 <= idx < h.len(),
        rotation(read, grid, en, idx, axis, true) == 0 as real,
        at(read, h[idx].at(axis)) == 0 as real,
        at(read, ints.en_curl.at(axis)) == 0 as real,
        at(read, ints.h.at(axis)) == 0 as real,
    ensures
        ({
            let none = SourceTerms { h: Vec4::zero_spec(), dn: Vec4::zero_spec() };
            let new = lossy_step(grid, idx, h, dn, en, ints, m, none).0;
            at(read, new.h.at(axis)) == 0 as real
        }),
{
    crate::maxwell_laws::law_curls_are_rotations(read, grid, en, idx, axis, true);
    lemma_unit(at(read, m.h1.at(axis)));
    lemma_unit(at(read, m.h2.at(axis)));
    lemma_unit(at(read, m.h3.at(axis)));
    lemma_unit(at(read, m.h4.at(axis)));
}

/// What stands in an empty list of sources adds nothing anywhere: its dipole has no moment, and its
/// plane wave is inactive.
pub proof fn law_placeholders_add_nothing<S: Scalar>(
    read: spec_fn(S) -> real,
    vals: Seq<S>,
    t: u32,
    idx: int,
    axis: Axis,
)
    requires
        exact(read),
        axis.valid(),
    ensures
        at(
            read,
            dipole_terms(seq![GpuDipole::<S>::zero_spec()], vals, t, idx, 1).dn.at(axis),
        ) == 0 as real,
        at(
            read,
            dipole_terms(seq![GpuDipole::<S>::zero_spec()], vals, t, idx, 1).h.at(axis),
        ) == 0 as real,
        !GpuTfsf::<S>::zero_spec().active(),
{
    let dipoles = seq![GpuDipole::<S>::zero_spec()];
    law_dipoles_in_a_cell_add_up(read, dipoles, vals, t, idx, axis, 1);
    reveal_with_fuel(crate::dipole_laws::emitted_together, 2);
    let value = at(read, crate::dipole_laws::signal_value(dipoles[0], vals, t, 0));
    lemma_unit(value);
}

/// No auxiliary grid has more cells than threads are launched for.
pub proof fn law_threads_reach_every_auxiliary_cell<S: Scalar>(
    setup: TfsfSetup<S>,
    sources: Seq<Source<S>>,
    vals: Seq<S>,
    k: nat,
    i: int,
)
    requires
        setup.packs(sources, vals, k),
        k <= sources.len(),
        0 <= i < setup.pack(sources, vals, k).sources.len(),
    ensures
        setup.pack(sources, vals, k).sources[i].n_cells <= setup.pack(sources, vals, k).max_cells,
    decreases k,
{
    if k > 0 {
        let before = setup.pack(sources, vals, (k - 1) as nat);
        assert(sources[k - 1] == sources[k - 1]);
        if i < before.sources.len() {
            law_threads_reach_every_auxiliary_cell(setup, sources, vals, (k - 1) as nat, i);
        }
    }
}

/// The cells that a cell of a downscaled grid stands for are those of its block, and no others.
pub proof fn law_block_cells_belong_to_the_block(b: GridIndex, f: u32, rest: GridIndex)
    requires
        f > 0,
        rest.cell_of(GridIndex::splat_spec(b.dim(), f)),
        b.times_fits(f as int),
        b.times_spec(f as int).plus_fits(rest),
    ensures
        block_of(b.times_spec(f as int).plus_spec(rest), f) == b,
{
    let (b3, r3) = (b.cell3(), rest.cell3());
    lemma_block(b3.x as int, r3.x as int, f as int);
    lemma_block(b3.y as int, r3.y as int, f as int);
    lemma_block(b3.z as int, r3.z as int, f as int);
}

proof fn lemma_block(b: int, r: int, f: int)
    requires
        0 <= b,
        0 <= r,
        f > 0,
    ensures
        r < f ==> (b * f + r) / f == b,
        0 <= b * f,
{
    assert(0 <= b * f) by (nonlinear_arith)
        requires
            0 <= b,
            f > 0,
    ;
    if r < f {
        vstd::arithmetic::div_mod::lemma_fundamental_div_mod_converse(b * f + r, f, b, r);
    }
}

} // verus!
