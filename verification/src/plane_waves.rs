//! Plane waves that start at a position of the grid.
use crate::axis::{Dim, SpatialAxis};
use crate::index::GridIndex;
use crate::params::WaveDirection;
use crate::scalar::Scalar;
use crate::source::Source;
use crate::tfsf_setup::extend_from;
use crate::vect::Vect;
use vstd::prelude::*;

verus! {

/// A plane wave as a kernel reads it.
#[derive(Copy, Clone, Debug, PartialEq, Eq, Structural)]
pub struct GpuPlaneWave {
    pub spatial_axis: SpatialAxis,
    /// The sign of the direction of travel.
    pub direction: i32,
    /// The index, along `spatial_axis`, of the cells in which the wave starts.
    pub position_idx: u32,
    pub vals_start: u32,
    pub vals_end: u32,
    pub t_start: u32,
}

impl GpuPlaneWave {
    /// A plane wave that does nothing, along the first spatial axis.
    pub open spec fn zero_spec(dim: Dim) -> Self {
        GpuPlaneWave {
            spatial_axis: if dim == Dim::One {
                SpatialAxis::Z
            } else {
                SpatialAxis::X
            },
            direction: 0,
            position_idx: 0,
            vals_start: 0,
            vals_end: 0,
            t_start: 0,
        }
    }

    pub fn zero(dim: Dim) -> (r: Self)
        ensures
            r == Self::zero_spec(dim),
    {
        GpuPlaneWave {
            spatial_axis: if matches!(dim, Dim::One) {
                SpatialAxis::Z
            } else {
                SpatialAxis::X
            },
            direction: 0,
            position_idx: 0,
            vals_start: 0,
            vals_end: 0,
            t_start: 0,
        }
    }
}

/// How many cells from the lower end of the grid a plane wave starts.
pub open spec fn wave_place<S: Scalar>(
    spatial_axis: SpatialAxis,
    position: S,
    offset: Vect<S>,
    cell_size: Vect<S>,
) -> S {
    let i = spatial_axis.index_spec(cell_size.dim()) as int;
    (offset.array()[i] + position).over_spec(cell_size.array()[i])
}

/// The plane waves among the first `k` sources, and `vals` with the values of their signals behind.
pub open spec fn pack_plane_waves<S: Scalar>(
    sources: Seq<Source<S>>,
    offset: Vect<S>,
    cell_size: Vect<S>,
    dt: S,
    vals: Seq<S>,
    k: nat,
) -> (Seq<GpuPlaneWave>, Seq<S>)
    decreases k,
{
    if k == 0 {
        (seq![], vals)
    } else {
        let (waves, stored) = pack_plane_waves(
            sources,
            offset,
            cell_size,
            dt,
            vals,
            (k - 1) as nat,
        );
        match sources[k - 1] {
            Source::PlaneWave { spatial_axis, position, direction, t_start, vals: signal } => (
                waves.push(
                    GpuPlaneWave {
                        spatial_axis,
                        direction: if direction == WaveDirection::Positive {
                            1
                        } else {
                            -1i32
                        },
                        position_idx: wave_place(
                            spatial_axis,
                            position,
                            offset,
                            cell_size,
                        ).to_index_spec(),
                        vals_start: stored.len() as u32,
                        vals_end: (stored.len() + signal@.len() - 1) as u32,
                        t_start: t_start.over_spec(dt).to_index_spec(),
                    },
                ),
                stored + signal@,
            ),
            _ => (waves, stored),
        }
    }
}

/// The plane waves among the first `k` sources start in the grid, and their values can be counted.
/// There are none in 1D.
pub open spec fn plane_waves_fit<S: Scalar>(
    sources: Seq<Source<S>>,
    offset: Vect<S>,
    cell_size: Vect<S>,
    n_cells: GridIndex,
    dt: S,
    vals: Seq<S>,
    k: nat,
) -> bool {
    forall|j: int|
        0 <= j < k ==> (#[trigger] sources[j] matches Source::PlaneWave {
            spatial_axis,
            position,
            ..
        } ==> {
            let place = wave_place(spatial_axis, position, offset, cell_size);
            &&& n_cells.dim() != Dim::One
            &&& spatial_axis.of_dim(n_cells.dim())
            &&& !place.is_sign_negative_spec()
            &&& GridIndex::splat_spec(n_cells.dim(), place.to_index_spec()).cell_of(n_cells)
            &&& 1 <= pack_plane_waves(
                sources,
                offset,
                cell_size,
                dt,
                vals,
                (j + 1) as nat,
            ).1.len() <= u32::MAX
        })
}

/// The plane waves among `sources`. The values of their signals are stored behind those in
/// `source_vals`.
pub fn create_plane_waves<S: Scalar>(
    sources: &Vec<Source<S>>,
    offset: &Vect<S>,
    cell_size: &Vect<S>,
    n_cells: GridIndex,
    dt: &S,
    source_vals: &mut Vec<S>,
) -> (r: Vec<GpuPlaneWave>)
    requires
        offset.dim() == n_cells.dim(),
        cell_size.dim() == n_cells.dim(),
        plane_waves_fit(
            sources@,
            *offset,
            *cell_size,
            n_cells,
            *dt,
            old(source_vals)@,
            sources.len() as nat,
        ),
    ensures
        (r@, final(source_vals)@) == pack_plane_waves(
            sources@,
            *offset,
            *cell_size,
            *dt,
            old(source_vals)@,
            sources.len() as nat,
        ),
{
    let ghost vals = source_vals@;
    let mut waves: Vec<GpuPlaneWave> = Vec::new();
    for k in 0..sources.len()
        invariant
            offset.dim() == n_cells.dim(),
            cell_size.dim() == n_cells.dim(),
            plane_waves_fit(
                sources@,
                *offset,
                *cell_size,
                n_cells,
                *dt,
                vals,
                sources.len() as nat,
            ),
            (waves@, source_vals@) == pack_plane_waves(
                sources@,
                *offset,
                *cell_size,
                *dt,
                vals,
                k as nat,
            ),
    {
        let ghost after = pack_plane_waves(
            sources@,
            *offset,
            *cell_size,
            *dt,
            vals,
            (k + 1) as nat,
        );
        let source: &Source<S> = &sources[k];
        match source {
            Source::PlaneWave { spatial_axis, position, direction, t_start, vals: signal } => {
                assert(sources@[k as int] is PlaneWave);
                let pos: S = offset.get(*spatial_axis).plus(position).over(
                    cell_size.get(*spatial_axis),
                );
                let start: u32 = source_vals.len() as u32;
                extend_from(source_vals, signal);
                waves.push(
                    GpuPlaneWave {
                        spatial_axis: *spatial_axis,
                        direction: direction.sign(),
                        position_idx: pos.to_index(),
                        vals_start: start,
                        vals_end: source_vals.len() as u32 - 1,
                        t_start: t_start.over(dt).to_index(),
                    },
                );
                assert(waves@ =~= after.0);
                assert(source_vals@ =~= after.1);
            },
            _ => {},
        }
    }
    waves
}

/// The values that were stored before stay where they are.
pub proof fn lemma_plane_waves_append<S: Scalar>(
    sources: Seq<Source<S>>,
    offset: Vect<S>,
    cell_size: Vect<S>,
    dt: S,
    vals: Seq<S>,
    k: nat,
)
    requires
        k <= sources.len(),
    ensures
        vals.is_prefix_of(pack_plane_waves(sources, offset, cell_size, dt, vals, k).1),
    decreases k,
{
    if k > 0 {
        lemma_plane_waves_append(sources, offset, cell_size, dt, vals, (k - 1) as nat);
    }
}

/// Among the stored values, every plane wave finds its own signal.
pub proof fn law_plane_waves_keep_their_signals<S: Scalar>(
    sources: Seq<Source<S>>,
    offset: Vect<S>,
    cell_size: Vect<S>,
    n_cells: GridIndex,
    dt: S,
    vals: Seq<S>,
    j: int,
    k: nat,
)
    requires
        0 <= j < k <= sources.len(),
        sources[j] is PlaneWave,
        plane_waves_fit(sources, offset, cell_size, n_cells, dt, vals, k),
    ensures
        ({
            let before = pack_plane_waves(
                sources,
                offset,
                cell_size,
                dt,
                vals,
                j as nat,
            ).0.len();
            let (waves, stored) = pack_plane_waves(sources, offset, cell_size, dt, vals, k);
            let w = waves[before as int];
            &&& before < waves.len()
            &&& w.vals_start <= w.vals_end + 1 <= stored.len()
            &&& stored.subrange(w.vals_start as int, w.vals_end + 1)
                == sources[j]->PlaneWave_vals@
        }),
    decreases k,
{
    let before = pack_plane_waves(sources, offset, cell_size, dt, vals, (k - 1) as nat);
    let after = pack_plane_waves(sources, offset, cell_size, dt, vals, k);
    let signal = sources[j]->PlaneWave_vals@;
    if j == k - 1 {
        assert(sources[j] is PlaneWave);
        assert(after.1.len() == before.1.len() + signal.len());
        let w = after.0[before.0.len() as int];
        assert(after.1.subrange(w.vals_start as int, w.vals_end + 1) =~= signal);
    } else {
        law_plane_waves_keep_their_signals(
            sources,
            offset,
            cell_size,
            n_cells,
            dt,
            vals,
            j,
            (k - 1) as nat,
        );
        let at = pack_plane_waves(sources, offset, cell_size, dt, vals, j as nat).0.len() as int;
        let w = before.0[at];
        assert(after.0[at] == w);
        assert(after.1.subrange(w.vals_start as int, w.vals_end + 1) =~= before.1.subrange(
            w.vals_start as int,
            w.vals_end + 1,
        ));
    }
}

} // verus!
