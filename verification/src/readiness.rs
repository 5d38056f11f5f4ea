//! Deciding whether a simulation can be laid out, for callers that do not know it beforehand.
use crate::axis::{Axis, Dim, SpatialAxis};
use crate::geometry::Aabb;
use crate::index::GridIndex;
use crate::layers::LayerWidths;
use crate::materials::{decides, downscale_fits, downscaled_cells, encloses, YeeGridMaterials};
use crate::plane_waves::{pack_plane_waves, plane_waves_fit, wave_place};
use crate::pml::{halves_fit, FreeSpace, PmlParameters};
use crate::scalar::Scalar;
use crate::simulation::{
    dipole_place, dipoles_fit, pack_dipoles, FdtdLossySimulation, MaterialDiscretization,
};
use crate::source::Source;
use crate::stability::FdtdStability;
use crate::state::FdtdLossyState;
use crate::tfsf_setup::{masks_fit, TfsfSetup};
use crate::vect::{Vect, VectorValueExt};
use crate::vector::{UVec3, Vec3};
use vstd::prelude::*;

verus! {

/// The product of three numbers, which may be too large for an index.
fn wide_product(x: u32, y: u32, z: u32) -> (r: u128)
    ensures
        r == x * y * z,
{
    assert(x * y <= 0xffff_ffff * 0xffff_ffff) by (nonlinear_arith)
        requires
            x <= 0xffff_ffff,
            y <= 0xffff_ffff,
    ;
    let xy: u128 = x as u128 * y as u128;
    assert(xy * z <= 0xffff_ffff * 0xffff_ffff * 0xffff_ffff) by (nonlinear_arith)
        requires
            xy <= 0xffff_ffff * 0xffff_ffff,
            z <= 0xffff_ffff,
    ;
    xy * z as u128
}

/// Whether the cells of a grid, and those of one of its planes, can be counted.
fn is_countable(n: GridIndex) -> (r: bool)
    ensures
        r == (n.cell_count() <= u32::MAX && n.cells3().x * n.cells3().y <= u32::MAX),
{
    let n3: UVec3 = n.n_cells_to_3d();
    assert(n3.x * n3.y * 1 == n3.x * n3.y) by (nonlinear_arith);
    wide_product(n3.x, n3.y, n3.z) <= u32::MAX as u128 && wide_product(n3.x, n3.y, 1)
        <= u32::MAX as u128
}

/// Whether every component times `k` can still be counted.
fn can_be_refined(n: GridIndex, k: u32) -> (r: bool)
    ensures
        r == n.times_fits(k as int),
{
    match n {
        GridIndex::One(z) => times_is_countable(z, k),
        GridIndex::Two(x, y) => times_is_countable(x, k) && times_is_countable(y, k),
        GridIndex::Three(x, y, z) => times_is_countable(x, k) && times_is_countable(y, k)
            && times_is_countable(z, k),
    }
}

fn times_is_countable(a: u32, k: u32) -> (r: bool)
    ensures
        r == (a * k <= u32::MAX),
{
    assert(a * k * 1 == a * k) by (nonlinear_arith);
    wide_product(a, k, 1) <= u32::MAX as u128
}

/// Whether blocks of `factor` cells along each axis make a grid that can be counted.
fn can_be_downscaled(n: GridIndex, factor: u32) -> (r: bool)
    ensures
        r == downscale_fits(n, factor),
{
    if factor == 0 {
        return false;
    }
    let block: GridIndex = GridIndex::splat(n.get_dim(), factor);
    let coarse: GridIndex = n.div_ceil(block);
    let block3: UVec3 = block.n_cells_to_3d();
    wide_product(block3.x, block3.y, block3.z) <= u32::MAX as u128 && is_countable(coarse)
        && can_be_refined(coarse, factor)
}

/// Whether the half cells along an axis, and those of its layers, can be counted.
fn halves_along<S: Scalar>(n: u32, pml: &PmlParameters<S>, axis: Axis) -> (r: bool)
    requires
        axis.valid(),
    ensures
        r == (n * 2 <= u32::MAX && pml.widths.at(axis).lo * 2 <= u32::MAX && pml.widths.at(axis).hi
            * 2 <= u32::MAX),
{
    let half: u32 = u32::MAX / 2;
    let w = pml.widths.get(axis);
    n <= half && w.lo <= half && w.hi <= half
}

fn are_halves_countable<S: Scalar>(n: &UVec3, pml: &PmlParameters<S>) -> (r: bool)
    ensures
        r == halves_fit(*n, *pml),
{
    assert(Axis::X.valid() && Axis::Y.valid() && Axis::Z.valid());
    halves_along(n.x, pml, Axis::X) && halves_along(n.y, pml, Axis::Y) && halves_along(
        n.z,
        pml,
        Axis::Z,
    )
}

/// Whether the masks of `count` plane waves can be counted.
fn are_masks_countable(dim: Dim, n: &UVec3, count: usize) -> (r: bool)
    ensures
        r == masks_fit(dim, *n, count as int),
{
    let cells: u128 = wide_product(n.x, n.y, n.z);
    assert(n.x * n.y * 1 == n.x * n.y) by (nonlinear_arith);
    if cells > u32::MAX as u128 || wide_product(n.x, n.y, 1) > u32::MAX as u128 || count
        > u32::MAX as usize {
        return false;
    }
    let count: u32 = count as u32;
    assert(count * cells <= 0xffff_ffff * 0xffff_ffff) by (nonlinear_arith)
        requires
            count <= 0xffff_ffff,
            cells <= 0xffff_ffff,
    ;
    let masks: u128 = count as u128 * cells;
    masks <= usize::MAX as u128 && (!matches!(dim, Dim::Three) || times_is_countable(count, n.z))
}

/// How many values the dipoles among `sources` store, where they sit in cells of the grid and the
/// values can be counted.
fn count_dipole_values<S: Scalar>(
    sources: &Vec<Source<S>>,
    offset: &Vect<S>,
    cell_size: &Vect<S>,
    n_cells: GridIndex,
    dt: &S,
) -> (r: Option<usize>)
    requires
        offset.dim() == cell_size.dim(),
        n_cells.dim() == cell_size.dim(),
    ensures
        r is Some <==> dipoles_fit(
            sources@,
            *offset,
            *cell_size,
            n_cells,
            *dt,
            sources.len() as nat,
        ),
        r matches Some(len) ==> len <= u32::MAX && len == pack_dipoles(
            sources@,
            *offset,
            *cell_size,
            n_cells,
            *dt,
            sources.len() as nat,
        ).1.len(),
{
    let mut stored: usize = 0;
    for k in 0..sources.len()
        invariant
            offset.dim() == cell_size.dim(),
            n_cells.dim() == cell_size.dim(),
            dipoles_fit(sources@, *offset, *cell_size, n_cells, *dt, k as nat),
            stored <= u32::MAX,
            stored == pack_dipoles(
                sources@,
                *offset,
                *cell_size,
                n_cells,
                *dt,
                k as nat,
            ).1.len(),
    {
        let source: &Source<S> = &sources[k];
        assert(sources@[k as int] == *source);
        match source {
            Source::Dipole { position, vals, .. } => {
                if position.get_dim() != offset.get_dim() {
                    return None;
                }
                let place: Vect<S> = offset.plus(position).over(cell_size);
                let cell: GridIndex = place.as_grid_index();
                let ghost f = |a: S, b: S| a.smaller_spec(b);
                let ghost g = |a: S, b: S| <Vect<S> as VectorValueExt>::smaller_of(a, b);
                assert(f =~= g);
                if place.smallest_element().is_sign_negative() || !cell.cell_idx_to_3d().all_below(
                    &n_cells.n_cells_to_3d(),
                ) {
                    return None;
                }
                if vals.len() > u32::MAX as usize - stored {
                    return None;
                }
                stored = stored + vals.len();
                if stored == 0 {
                    return None;
                }
            },
            _ => {},
        }
    }
    Some(stored)
}

/// How many values the dipoles and the plane waves that start at a position store, where those start
/// in the grid and the values can be counted. `vals` are the values of the dipoles.
fn count_wave_values<S: Scalar>(
    sources: &Vec<Source<S>>,
    offset: &Vect<S>,
    cell_size: &Vect<S>,
    n_cells: GridIndex,
    dt: &S,
    stored_before: usize,
    vals: Ghost<Seq<S>>,
) -> (r: Option<usize>)
    requires
        offset.dim() == cell_size.dim(),
        n_cells.dim() == cell_size.dim(),
        stored_before == vals@.len(),
        stored_before <= u32::MAX,
    ensures
        r is Some <==> plane_waves_fit(
            sources@,
            *offset,
            *cell_size,
            n_cells,
            *dt,
            vals@,
            sources.len() as nat,
        ),
        r matches Some(len) ==> len <= u32::MAX && len == pack_plane_waves(
            sources@,
            *offset,
            *cell_size,
            *dt,
            vals@,
            sources.len() as nat,
        ).1.len(),
{
    let mut stored: usize = stored_before;
    for k in 0..sources.len()
        invariant
            offset.dim() == cell_size.dim(),
            n_cells.dim() == cell_size.dim(),
            plane_waves_fit(sources@, *offset, *cell_size, n_cells, *dt, vals@, k as nat),
            stored <= u32::MAX,
            stored == pack_plane_waves(
                sources@,
                *offset,
                *cell_size,
                *dt,
                vals@,
                k as nat,
            ).1.len(),
    {
        let source: &Source<S> = &sources[k];
        assert(sources@[k as int] == *source);
        match source {
            Source::PlaneWave { spatial_axis, position, vals: signal, .. } => {
                let dim: Dim = n_cells.get_dim();
                if matches!(dim, Dim::One) || matches!(dim, Dim::Two) && matches!(
                    spatial_axis,
                    SpatialAxis::Z
                ) {
                    return None;
                }
                let place: S = offset.get(*spatial_axis).plus(position).over(
                    cell_size.get(*spatial_axis),
                );
                assert(place == wave_place(*spatial_axis, *position, *offset, *cell_size));
                let cell: GridIndex = GridIndex::splat(dim, place.to_index());
                if place.is_sign_negative() || !cell.cell_idx_to_3d().all_below(
                    &n_cells.n_cells_to_3d(),
                ) {
                    return None;
                }
                if signal.len() > u32::MAX as usize - stored {
                    return None;
                }
                stored = stored + signal.len();
                if stored == 0 {
                    return None;
                }
            },
            _ => {},
        }
    }
    Some(stored)
}

impl<S: Scalar> TfsfSetup<S> {
    /// Whether the indices of the total field can be counted along an axis.
    fn has_bounds(&self, buffer: &LayerWidths, axis: Axis) -> (r: bool)
        requires
            axis.valid(),
        ensures
            r == (self.tf_min(*buffer, axis) <= u32::MAX && 0 <= self.tf_max(*buffer, axis)),
    {
        let w = buffer.get(axis);
        w.lo <= u32::MAX - self.problem_space_min.get(axis) && w.hi <= self.problem_space_max.get(
            axis,
        )
    }

    /// The cells of the auxiliary grid of a plane wave, where there is room for its total field.
    fn count_aux_cells(&self, buffer: &LayerWidths, a: Axis) -> (r: Option<u32>)
        requires
            a.valid(),
        ensures
            r is Some <==> self.buffer_fits(*buffer, a),
            r matches Some(n) ==> n == self.aux_cells(*buffer, a),
    {
        assert(Axis::X.valid() && Axis::Y.valid() && Axis::Z.valid());
        if !self.has_bounds(buffer, Axis::X) || !self.has_bounds(buffer, Axis::Y)
            || !self.has_bounds(buffer, Axis::Z) {
            return None;
        }
        let w = buffer.get(a);
        let tf_min: u32 = self.problem_space_min.get(a) + w.lo;
        let tf_max: u32 = self.problem_space_max.get(a) - w.hi;
        let half: u32 = u32::MAX / 2;
        let pml_width: u32 = self.parameters.pml_width.get();
        if tf_min > tf_max || pml_width > half {
            return None;
        }
        let cells: u64 = (tf_max - tf_min) as u64 + 4 + pml_width as u64;
        if cells > half as u64 {
            return None;
        }
        Some(cells as u32)
    }

    /// How many plane waves there are among `sources`, and how many corrections they have, where
    /// there is room for all of them.
    fn count_waves(&self, sources: &Vec<Source<S>>, stored_before: usize, vals: Ghost<Seq<S>>) -> (r:
        Option<(usize, u32)>)
        requires
            stored_before == vals@.len(),
            stored_before <= u32::MAX,
        ensures
            r is Some <==> self.packs(sources@, vals@, sources.len() as nat),
            r matches Some(c) ==> {
                let p = self.pack(sources@, vals@, sources.len() as nat);
                c.0 == p.sources.len() && c.1 == p.corrections
            },
    {
        let mut stored: usize = stored_before;
        let mut waves: usize = 0;
        let mut corrections: u32 = 0;
        let mut grid: u32 = 0;
        for k in 0..sources.len()
            invariant
                self.packs(sources@, vals@, k as nat),
                stored <= u32::MAX,
                waves <= k,
                ({
                    let p = self.pack(sources@, vals@, k as nat);
                    &&& stored == p.vals.len()
                    &&& waves == p.sources.len()
                    &&& corrections == p.corrections
                    &&& grid == p.coeffs.len()
                }),
        {
            let source: &Source<S> = &sources[k];
            assert(sources@[k as int] == *source);
            match source {
                Source::TFSF { spatial_axis, vals: signal, tfsf_buffer_width, .. } => {
                    match self.count_aux_cells(tfsf_buffer_width, Axis::from(*spatial_axis)) {
                        None => {
                            return None;
                        },
                        Some(cells) => {
                            let pml_width: u32 = self.parameters.pml_width.get();
                            let handed: u32 = cells - 1 - pml_width;
                            if handed > u32::MAX - corrections || cells > u32::MAX - grid
                                || signal.len() > u32::MAX as usize - stored {
                                return None;
                            }
                            corrections = corrections + handed;
                            grid = grid + cells;
                            stored = stored + signal.len();
                            waves = waves + 1;
                            if stored == 0 {
                                return None;
                            }
                        },
                    }
                },
                _ => {},
            }
        }
        Some((waves, corrections))
    }
}

impl<S: Scalar, G> FdtdLossySimulation<S, G> {
    /// Whether the cells of the whole grid can be counted along an axis.
    fn is_axis_countable(
        &self,
        materials: &GridIndex,
        stability: &FdtdStability<S>,
        s: SpatialAxis,
    ) -> (r: bool)
        requires
            s.of_dim(materials.dim()),
        ensures
            r == (materials.at(s.axis()) + stability.spacer_region_widths.total(s.axis())
                + self.pml_parameters.widths.total(s.axis()) + 2 <= u32::MAX),
    {
        let axis: Axis = Axis::from(s);
        assert(axis == s.axis() && axis.valid());
        let spacer = stability.spacer_region_widths.get(axis);
        let pml = self.pml_parameters.widths.get(axis);
        materials.get(s) as u64 + spacer.lo as u64 + spacer.hi as u64 + pml.lo as u64
            + pml.hi as u64 + 2 <= u32::MAX as u64
    }

    /// Whether the cells of the whole grid can be counted along each axis.
    fn are_layers_countable(&self, bb: &Aabb<S>, stability: &FdtdStability<S>) -> (r: bool)
        ensures
            r == self.layers_fit(*bb, *stability),
    {
        let materials: GridIndex = self.count_material_cells(bb);
        let (x, y, z) = (SpatialAxis::X, SpatialAxis::Y, SpatialAxis::Z);
        assert(self.layers_fit(*bb, *stability) == ((x.of_dim(self.dim()) ==> self.layered_cells(
            *bb,
            *stability,
            x.axis(),
        ) <= u32::MAX) && (y.of_dim(self.dim()) ==> self.layered_cells(*bb, *stability, y.axis())
            <= u32::MAX) && (z.of_dim(self.dim()) ==> self.layered_cells(*bb, *stability, z.axis())
            <= u32::MAX)));
        match materials {
            GridIndex::One(_) => self.is_axis_countable(&materials, stability, z),
            GridIndex::Two(_, _) => self.is_axis_countable(&materials, stability, x)
                && self.is_axis_countable(&materials, stability, y),
            GridIndex::Three(_, _, _) => self.is_axis_countable(&materials, stability, x)
                && self.is_axis_countable(&materials, stability, y) && self.is_axis_countable(
                &materials,
                stability,
                z,
            ),
        }
    }

    /// Whether the grid on which the materials are sampled can be counted.
    fn is_material_grid_countable(&self, n_cells: GridIndex) -> (r: bool)
        requires
            n_cells.dim() == self.dim(),
        ensures
            r == self.material_grid_fits(n_cells),
    {
        match self.fdtd_parameters.material_discretization {
            MaterialDiscretization::Rough => is_countable(n_cells),
            MaterialDiscretization::Smooth { resolution } => {
                if !can_be_refined(n_cells, resolution.get()) {
                    return false;
                }
                let fine: GridIndex = n_cells.times(resolution.get());
                is_countable(fine) && can_be_downscaled(fine, resolution.get())
            },
        }
    }

    /// The translation that centers the simulation on its grid, along the spatial axes.
    fn compute_source_offset(&self, bb: &Aabb<S>, n_cells: GridIndex) -> (r: Vect<S>)
        requires
            n_cells.dim() == self.dim(),
            self.material_grid_fits(n_cells),
        ensures
            r == self.source_offset(*bb, n_cells),
            r.dim() == self.dim(),
    {
        let cell_size: &Vect<S> = &self.fdtd_parameters.cell_size;
        let offset: Vec3<S> = match self.fdtd_parameters.material_discretization {
            MaterialDiscretization::Rough => YeeGridMaterials::compute_simulation_offset(
                bb,
                n_cells,
                cell_size,
            ),
            MaterialDiscretization::Smooth { resolution } => {
                YeeGridMaterials::compute_simulation_offset(
                    bb,
                    n_cells.times(resolution.get()),
                    &cell_size.divided(&S::of_nat(resolution.get())),
                )
            },
        };
        Vect::from_vec3(cell_size.get_dim(), &offset)
    }

    /// Whether the simulation can be laid out: its grid can be counted, its sources lie in it, and
    /// so does all that they store.
    pub fn is_finalizable(
        &self,
        bb: &Aabb<S>,
        stability: &FdtdStability<S>,
        space: &FreeSpace<S>,
    ) -> (r: bool)
        ensures
            r == self.finalizable(*bb, *stability, *space),
    {
        if !self.are_layers_countable(bb, stability) {
            return false;
        }
        let p = &self.fdtd_parameters;
        let n_cells: GridIndex = self.compute_n_cells(bb, stability);
        let n3: UVec3 = n_cells.n_cells_to_3d();
        if !self.is_material_grid_countable(n_cells) || wide_product(n3.x, n3.y, n3.z)
            > u32::MAX as u128 || !are_halves_countable(&n3, &self.pml_parameters) {
            return false;
        }
        let offset: Vect<S> = self.compute_source_offset(bb, n_cells);
        let stored: usize = match count_dipole_values(
            &self.sources,
            &offset,
            &p.cell_size,
            n_cells,
            &p.dt,
        ) {
            None => {
                return false;
            },
            Some(stored) => stored,
        };
        let ghost dipole_vals = self.dipole_pack(*bb, n_cells).1;
        let stored: usize = match count_wave_values(
            &self.sources,
            &offset,
            &p.cell_size,
            n_cells,
            &p.dt,
            stored,
            Ghost(dipole_vals),
        ) {
            None => {
                return false;
            },
            Some(stored) => stored,
        };
        let (problem_space_min, problem_space_max) = self.compute_problem_space(n_cells);
        let setup: TfsfSetup<S> = self.prepare_tfsf_setup(
            problem_space_min.cell_idx_to_3d(),
            problem_space_max.cell_idx_to_3d(),
            space,
        );
        let ghost wave_vals = self.wave_pack(*bb, n_cells).1;
        match setup.count_waves(&self.sources, stored, Ghost(wave_vals)) {
            None => false,
            Some((waves, corrections)) => {
                assert(Axis::X.valid() && Axis::Y.valid() && Axis::Z.valid());
                let left: u32 = u32::MAX - corrections;
                are_masks_countable(p.cell_size.get_dim(), &n3, waves) && n3.x <= left && n3.y
                    <= left && n3.z <= left
            },
        }
    }

    /// Lay out everything that the simulation needs to run, where that is possible (see
    /// [`FdtdLossySimulation::finalize`]).
    pub fn try_finalize<A: Fn(&G) -> Aabb<S> + Copy, F: Fn(&G, &Vec3<S>, &Vec3<S>) -> bool>(
        &self,
        aabb_of: A,
        contains: F,
        stability: &FdtdStability<S>,
        space: &FreeSpace<S>,
    ) -> (r: Option<FdtdLossyState<S>>)
        requires
            encloses::<S, G, A>(aabb_of),
            decides::<S, G, F>(contains),
        ensures
            r is Some <==> self.finalizable(self.bounding_box(aabb_of), *stability, *space),
            r matches Some(state) ==> state.wf() && self.lays_out(
                state,
                self.bounding_box(aabb_of),
                contains,
                *stability,
                *space,
            ),
    {
        let bb: Aabb<S> = self.compute_bounding_box(aabb_of);
        if self.is_finalizable(&bb, stability, space) {
            Some(self.finalize(aabb_of, contains, stability, space))
        } else {
            None
        }
    }
}

} // verus!
