//! Where a simulation puts its sources, and what it tells them.
use crate::axis::{spatial, Axis};
use crate::exact::{
    at, exact, exact_ceilings, exact_indices, lemma_distribute_minus, lemma_product_sign,
    lemma_quotient_sign, lemma_swap, lemma_times_divisor, over, times,
};
use crate::geometry::Aabb;
use crate::index::GridIndex;
use crate::materials::{law_finer_grid_has_the_same_middle, law_simulation_is_centered_on_the_grid};
use crate::params::WaveDirection;
use crate::plane_waves::pack_plane_waves;
use crate::pml::FreeSpace;
use crate::scalar::Scalar;
use crate::simulation::{pack_dipoles, FdtdLossySimulation, MaterialDiscretization};
use crate::source::Source;
use crate::tfsf_setup::TfsfSetup;
use crate::vect::Vect;
use crate::vector::Vec3;
use vstd::prelude::*;

verus! {

/// `i` is the number of whole steps of the length `step` in `whole`.
pub open spec fn counts_whole_steps(i: u32, whole: real, step: real) -> bool {
    &&& times(i as real, step) <= whole
    &&& whole < times(i as real + 1 as real, step)
}

/// A quotient rounded down counts whole steps.
proof fn lemma_whole_steps<S: Scalar>(read: spec_fn(S) -> real, whole: S, step: S)
    requires
        exact(read),
        exact_indices(read),
        at(read, step) > 0 as real,
        at(read, whole) >= 0 as real,
        over(at(read, whole), at(read, step)) <= u32::MAX as real,
    ensures
        counts_whole_steps(
            whole.over_spec(step).to_index_spec(),
            at(read, whole),
            at(read, step),
        ),
{
    let (w, s) = (at(read, whole), at(read, step));
    let q = over(w, s);
    let i = whole.over_spec(step).to_index_spec() as real;
    lemma_quotient_sign(w, s);
    lemma_times_divisor(w, s);
    assert(i <= q && q < i + 1 as real);
    lemma_product_sign(s, q - i);
    lemma_distribute_minus(s, q, i);
    lemma_swap(s, q - i);
    lemma_product_sign(s, i + 1 as real - q);
    lemma_swap(s, i + 1 as real - q);
    lemma_distribute_minus(s, i + 1 as real, q);
}

/// A dipole keeps its kind and its moment. It sits in the cell that contains its position, moved
/// with the simulation, and starts in the step that its start time falls into.
pub proof fn law_dipole_sits_at_its_position<S: Scalar>(
    read: spec_fn(S) -> real,
    sources: Seq<Source<S>>,
    offset: Vect<S>,
    cell_size: Vect<S>,
    n_cells: GridIndex,
    dt: S,
    j: int,
    k: nat,
    axis: Axis,
)
    requires
        exact(read),
        exact_indices(read),
        0 <= j < k <= sources.len(),
        sources[j] is Dipole,
        spatial(cell_size.dim(), axis),
        offset.dim() == cell_size.dim(),
        sources[j]->Dipole_position.dim() == cell_size.dim(),
        ({
            let none = Vec3::splat_spec(S::zero_spec());
            let place = at(read, offset.to_3d_spec(none).at(axis)) + at(
                read,
                sources[j]->Dipole_position.to_3d_spec(none).at(axis),
            );
            let size = at(read, cell_size.to_3d_spec(none).at(axis));
            &&& size > 0 as real
            &&& place >= 0 as real
            &&& over(place, size) <= u32::MAX as real
            &&& at(read, dt) > 0 as real
            &&& at(read, sources[j]->Dipole_t_start) >= 0 as real
            &&& over(at(read, sources[j]->Dipole_t_start), at(read, dt)) <= u32::MAX as real
        }),
    ensures
        ({
            let none = Vec3::splat_spec(S::zero_spec());
            let before = pack_dipoles(sources, offset, cell_size, n_cells, dt, j as nat).0.len();
            let d = pack_dipoles(sources, offset, cell_size, n_cells, dt, k).0[before as int];
            let place = at(read, offset.to_3d_spec(none).at(axis)) + at(
                read,
                sources[j]->Dipole_position.to_3d_spec(none).at(axis),
            );
            &&& d.dipole_type == sources[j]->Dipole_dipole_type
            &&& d.moment.at(axis) == sources[j]->Dipole_moment.at(axis)
            &&& counts_whole_steps(
                d.t_start,
                at(read, sources[j]->Dipole_t_start),
                at(read, dt),
            )
            &&& exists|cell: GridIndex|
                d.cell_idx == #[trigger] cell.flat(n_cells) as u32 && counts_whole_steps(
                    cell.at(axis),
                    place,
                    at(read, cell_size.to_3d_spec(none).at(axis)),
                )
        }),
    decreases k,
{
    let before = pack_dipoles(sources, offset, cell_size, n_cells, dt, (k - 1) as nat);
    let after = pack_dipoles(sources, offset, cell_size, n_cells, dt, k);
    if j == k - 1 {
        let none = Vec3::splat_spec(S::zero_spec());
        let position = sources[j]->Dipole_position;
        lemma_whole_steps(read, sources[j]->Dipole_t_start, dt);
        lemma_whole_steps(
            read,
            (offset + position).to_3d_spec(none).at(axis),
            cell_size.to_3d_spec(none).at(axis),
        );
        let cell = crate::simulation::dipole_place(
            position,
            offset,
            cell_size,
        ).as_grid_index_spec();
        assert(after.0[before.0.len() as int].cell_idx == cell.flat(n_cells) as u32);
        assert(cell.at(axis) == (offset + position).to_3d_spec(none).at(axis).over_spec(
            cell_size.to_3d_spec(none).at(axis),
        ).to_index_spec());
    } else {
        law_dipole_sits_at_its_position(
            read,
            sources,
            offset,
            cell_size,
            n_cells,
            dt,
            j,
            (k - 1) as nat,
            axis,
        );
        lemma_dipoles_so_far(sources, offset, cell_size, n_cells, dt, j as nat, (k - 1) as nat);
        let place = pack_dipoles(sources, offset, cell_size, n_cells, dt, j as nat).0.len() as int;
        assert(after.0[place] == before.0[place]);
    }
}

/// More sources leave the dipoles before them where they are, and a dipole adds one.
proof fn lemma_dipoles_so_far<S: Scalar>(
    sources: Seq<Source<S>>,
    offset: Vect<S>,
    cell_size: Vect<S>,
    n_cells: GridIndex,
    dt: S,
    j: nat,
    k: nat,
)
    requires
        j < k <= sources.len(),
        sources[j as int] is Dipole,
    ensures
        pack_dipoles(sources, offset, cell_size, n_cells, dt, j).0.len() < pack_dipoles(
            sources,
            offset,
            cell_size,
            n_cells,
            dt,
            k,
        ).0.len(),
    decreases k,
{
    if j < k - 1 {
        lemma_dipoles_so_far(sources, offset, cell_size, n_cells, dt, j, (k - 1) as nat);
    }
}

/// A plane wave keeps its axis and the sign of its direction. It starts in the cell that contains
/// its position, moved with the simulation, in the step that its start time falls into.
pub proof fn law_plane_wave_starts_at_its_position<S: Scalar>(
    read: spec_fn(S) -> real,
    sources: Seq<Source<S>>,
    offset: Vect<S>,
    cell_size: Vect<S>,
    dt: S,
    vals: Seq<S>,
    k: nat,
)
    requires
        exact(read),
        exact_indices(read),
        0 < k <= sources.len(),
        sources[k - 1] is PlaneWave,
        offset.dim() == cell_size.dim(),
        sources[k - 1]->PlaneWave_spatial_axis.of_dim(cell_size.dim()),
        ({
            let none = Vec3::splat_spec(S::zero_spec());
            let axis = sources[k - 1]->PlaneWave_spatial_axis.axis();
            let place = at(read, offset.to_3d_spec(none).at(axis)) + at(
                read,
                sources[k - 1]->PlaneWave_position,
            );
            let size = at(read, cell_size.to_3d_spec(none).at(axis));
            &&& size > 0 as real
            &&& place >= 0 as real
            &&& over(place, size) <= u32::MAX as real
            &&& at(read, dt) > 0 as real
            &&& at(read, sources[k - 1]->PlaneWave_t_start) >= 0 as real
            &&& over(at(read, sources[k - 1]->PlaneWave_t_start), at(read, dt)) <= u32::MAX as real
        }),
    ensures
        ({
            let none = Vec3::splat_spec(S::zero_spec());
            let axis = sources[k - 1]->PlaneWave_spatial_axis.axis();
            let wave = pack_plane_waves(sources, offset, cell_size, dt, vals, k).0.last();
            &&& wave.spatial_axis == sources[k - 1]->PlaneWave_spatial_axis
            &&& wave.direction > 0 <==> sources[k - 1]->PlaneWave_direction
                == WaveDirection::Positive
            &&& wave.direction == 1 || wave.direction == -1
            &&& counts_whole_steps(
                wave.position_idx,
                at(read, offset.to_3d_spec(none).at(axis)) + at(
                    read,
                    sources[k - 1]->PlaneWave_position,
                ),
                at(read, cell_size.to_3d_spec(none).at(axis)),
            )
            &&& counts_whole_steps(
                wave.t_start,
                at(read, sources[k - 1]->PlaneWave_t_start),
                at(read, dt),
            )
        }),
{
    let none = Vec3::splat_spec(S::zero_spec());
    let axis = sources[k - 1]->PlaneWave_spatial_axis.axis();
    let position = sources[k - 1]->PlaneWave_position;
    lemma_whole_steps(read, sources[k - 1]->PlaneWave_t_start, dt);
    lemma_whole_steps(
        read,
        offset.to_3d_spec(none).at(axis) + position,
        cell_size.to_3d_spec(none).at(axis),
    );
    let i = sources[k - 1]->PlaneWave_spatial_axis.index_spec(cell_size.dim()) as int;
    let waves = pack_plane_waves(sources, offset, cell_size, dt, vals, k).0;
    let others = pack_plane_waves(sources, offset, cell_size, dt, vals, (k - 1) as nat).0;
    assert(waves.len() == others.len() + 1);
    assert(offset.array()[i] == offset.to_3d_spec(none).at(axis));
    assert(cell_size.array()[i] == cell_size.to_3d_spec(none).at(axis));
}

/// A plane wave with a total field keeps its axis, direction and polarization, and leaves the
/// buffers that it asks for on both sides of its total field. It starts in the step that its start
/// time falls into, and its grid has room for its wavefronts, the source cell and the layer.
pub proof fn law_total_field_keeps_its_buffers<S: Scalar>(
    read: spec_fn(S) -> real,
    setup: TfsfSetup<S>,
    sources: Seq<Source<S>>,
    vals: Seq<S>,
    k: nat,
)
    requires
        exact(read),
        exact_indices(read),
        0 < k <= sources.len(),
        setup.packs(sources, vals, k),
        sources[k - 1] is TFSF,
        at(read, setup.dt) > 0 as real,
        at(read, sources[k - 1]->TFSF_t_start) >= 0 as real,
        over(at(read, sources[k - 1]->TFSF_t_start), at(read, setup.dt)) <= u32::MAX as real,
    ensures
        ({
            let s = setup.pack(sources, vals, k).sources.last();
            let a = sources[k - 1]->TFSF_spatial_axis.axis();
            let a1 = a.permute_spec();
            let a2 = a1.permute_spec();
            let buffer = sources[k - 1]->TFSF_tfsf_buffer_width;
            let (min, max) = (setup.problem_space_min, setup.problem_space_max);
            &&& s.a == a && s.a1 == a1 && s.a2 == a2
            &&& s.direction == sources[k - 1]->TFSF_direction
            &&& s.polarization_a1 == sources[k - 1]->TFSF_polarization.at(a1)
            &&& s.polarization_a2 == sources[k - 1]->TFSF_polarization.at(a2)
            &&& s.tf_min_a - min.at(a) == buffer.at(a).lo
            &&& s.tf_min_a1 - min.at(a1) == buffer.at(a1).lo
            &&& s.tf_min_a2 - min.at(a2) == buffer.at(a2).lo
            &&& max.at(a) - s.tf_max_a == buffer.at(a).hi
            &&& max.at(a1) - s.tf_max_a1 == buffer.at(a1).hi
            &&& max.at(a2) - s.tf_max_a2 == buffer.at(a2).hi
            &&& s.n_cells == s.num_correction_cells + 1 + setup.parameters.pml_width@
            &&& counts_whole_steps(
                s.t_start,
                at(read, sources[k - 1]->TFSF_t_start),
                at(read, setup.dt),
            )
            &&& s.inv_d_a == setup.inv_d.at(a)
            &&& s.inv_d_a1 == setup.inv_d.at(a1)
            &&& s.inv_d_a2 == setup.inv_d.at(a2)
        }),
{
    assert(sources[k - 1] is TFSF);
    assert(Axis::X.valid() && Axis::Y.valid() && Axis::Z.valid());
    lemma_whole_steps(read, sources[k - 1]->TFSF_t_start, setup.dt);
}

/// The grid and the plane waves know the reciprocals of the cell size and of the time step; along
/// axes that are not spatial plane waves count no cells.
pub proof fn law_reciprocals_undo_their_sizes<S: Scalar, G>(
    read: spec_fn(S) -> real,
    sim: FdtdLossySimulation<S, G>,
    n_cells: GridIndex,
    space: FreeSpace<S>,
    axis: Axis,
)
    requires
        exact(read),
        axis.valid(),
        at(read, sim.fdtd_parameters.dt) != 0 as real,
        spatial(sim.dim(), axis) ==> at(
            read,
            sim.fdtd_parameters.cell_size.to_3d_spec(Vec3::splat_spec(S::zero_spec())).at(axis),
        ) != 0 as real,
    ensures
        ({
            let none = Vec3::splat_spec(S::zero_spec());
            let size = at(read, sim.fdtd_parameters.cell_size.to_3d_spec(none).at(axis));
            let grid = sim.grid_parameters(n_cells);
            let setup = sim.tfsf_setup(n_cells, space);
            &&& grid.dt == sim.fdtd_parameters.dt && setup.dt == sim.fdtd_parameters.dt
            &&& times(at(read, grid.inv_dt), at(read, grid.dt)) == 1 as real
            &&& spatial(sim.dim(), axis) ==> {
                &&& at(read, grid.d.at(axis)) == size
                &&& times(at(read, grid.inv_d.at(axis)), size) == 1 as real
                &&& setup.inv_d.at(axis) == grid.inv_d.at(axis)
            }
            &&& !spatial(sim.dim(), axis) ==> at(read, setup.inv_d.at(axis)) == 0 as real
        }),
{
    let none = Vec3::splat_spec(S::zero_spec());
    let size = at(read, sim.fdtd_parameters.cell_size.to_3d_spec(none).at(axis));
    lemma_times_divisor(1 as real, at(read, sim.fdtd_parameters.dt));
    if spatial(sim.dim(), axis) {
        lemma_times_divisor(1 as real, size);
    }
}

/// As many cells as fill the box along a spatial axis: with one fewer it would not fit.
pub proof fn law_material_cells_fill_the_box<S: Scalar, G>(
    read: spec_fn(S) -> real,
    whole: spec_fn(S) -> int,
    sim: FdtdLossySimulation<S, G>,
    bb: Aabb<S>,
    axis: Axis,
)
    requires
        exact(read),
        exact_ceilings(read, whole),
        exact_indices(read),
        spatial(sim.dim(), axis),
        ({
            let one = Vec3::splat_spec(S::one_spec());
            let size = at(read, sim.fdtd_parameters.cell_size.to_3d_spec(one).at(axis));
            let length = at(read, bb.maxs.at(axis)) - at(read, bb.mins.at(axis));
            &&& size > 0 as real
            &&& length > 0 as real
            &&& over(length, size) <= (u32::MAX - 1) as real
        }),
    ensures
        ({
            let one = Vec3::splat_spec(S::one_spec());
            let size = at(read, sim.fdtd_parameters.cell_size.to_3d_spec(one).at(axis));
            let length = at(read, bb.maxs.at(axis)) - at(read, bb.mins.at(axis));
            let n = sim.material_cells(bb).at(axis);
            &&& n >= 1
            &&& times(n as real, size) >= length
            &&& times((n - 1) as real, size) < length
        }),
{
    let one = Vec3::splat_spec(S::one_spec());
    let size = at(read, sim.fdtd_parameters.cell_size.to_3d_spec(one).at(axis));
    let length = at(read, bb.maxs.at(axis)) - at(read, bb.mins.at(axis));
    let quotient = bb.extents_spec().over_spec(
        sim.fdtd_parameters.cell_size.to_3d_spec(one),
    ).at(axis);
    let q = over(length, size);
    assert(at(read, quotient) == q);
    lemma_quotient_sign(length, size);
    lemma_times_divisor(length, size);
    let up = quotient.ceil_spec();
    let n = whole(quotient);
    assert(at(read, up) == n as real);
    assert(n >= 1);
    assert(n as real <= u32::MAX as real);
    let i = up.to_index_spec();
    assert(i as real <= n as real);
    assert((n as real) < i as real + 1 as real);
    assert(i == n);
    assert(sim.material_cells(bb).at(axis) == i);
    lemma_product_sign(size, n as real - q);
    lemma_swap(size, n as real - q);
    lemma_distribute_minus(size, n as real, q);
    lemma_product_sign(size, q - (n - 1) as real);
    lemma_swap(size, q - (n - 1) as real);
    lemma_distribute_minus(size, q, (n - 1) as real);
}

/// However finely the materials are sampled, the regions and the sources are moved by the same
/// translation: it brings the middle of the simulation to the middle of the grid along the spatial
/// axes, and moves nothing along the others.
pub proof fn law_regions_and_sources_are_centered<S: Scalar, G>(
    read: spec_fn(S) -> real,
    sim: FdtdLossySimulation<S, G>,
    bb: Aabb<S>,
    n_cells: GridIndex,
    axis: Axis,
)
    requires
        exact(read),
        axis.valid(),
        n_cells.dim() == sim.dim(),
        sim.fdtd_parameters.material_discretization matches MaterialDiscretization::Smooth {
            resolution,
        } ==> resolution@ > 0 && n_cells.times_fits(resolution@ as int),
    ensures
        ({
            let none = Vec3::splat_spec(S::zero_spec());
            let size = at(read, sim.fdtd_parameters.cell_size.to_3d_spec(none).at(axis));
            let offset = sim.material_offset(bb, n_cells).at(axis);
            &&& spatial(sim.dim(), axis) ==> {
                &&& at(read, bb.center_spec().at(axis)) + at(read, offset) == over(
                    times(n_cells.cells3().at(axis) as real, size),
                    2 as real,
                )
                &&& sim.source_offset(bb, n_cells).to_3d_spec(none).at(axis) == offset
            }
            &&& !spatial(sim.dim(), axis) ==> at(read, offset) == 0 as real
        }),
{
    let cell_size = sim.fdtd_parameters.cell_size;
    law_simulation_is_centered_on_the_grid(read, bb, n_cells, cell_size, axis);
    let discretization = sim.fdtd_parameters.material_discretization;
    if let MaterialDiscretization::Smooth { resolution } = discretization {
        law_finer_grid_has_the_same_middle(read, bb, n_cells, cell_size, resolution@, axis);
    }
}

} // verus!
