//! Describing a simulation, and laying out what it needs to run.
use crate::axis::{spatial, Axis, Dim, SpatialAxis};
use crate::geometry::Aabb;
use crate::index::{stride, GridIndex};
use crate::layers::LayerWidths;
use crate::materials::{
    decides, downscale_fits, downscaled_cells, downscaled_materials, encloses, regions_box,
    ElectricMaterial, MaterialRegions, YeeGridMaterials,
};
use crate::nonzero::NonZeroU32;
use crate::params::{
    grid_shape, strides_of, GpuDipole, GpuTfsf, GridParameters, PmlCoefficients, PmlIntegrals,
    PolarizationModeIndex, SourceTerms,
};
use crate::plane_waves::{
    create_plane_waves, lemma_plane_waves_append, pack_plane_waves, plane_waves_fit, GpuPlaneWave,
};
use crate::pml::{
    cell_coefficients, halves_fit, profiles, FreeSpace, PmlCoefficientsGrid, PmlParameters,
};
use crate::polarization::PolarizationMode;
use crate::scalar::Scalar;
use crate::source::Source;
use crate::stability::FdtdStability;
use crate::state::FdtdLossyState;
use crate::tfsf_setup::{
    extend_from, lemma_pack_bounds, masks_fit, TfsfDispatchData, TfsfPack, TfsfParameters, TfsfSetup,
};
use crate::vect::{Vect, VectorValueExt};
use crate::vector::{UVec3, Vec3, Vec4};
use vstd::prelude::*;

verus! {

#[derive(Copy, Clone, Debug, PartialEq, Eq, Structural)]
pub enum MaterialDiscretization {
    Rough,
    Smooth { resolution: NonZeroU32 },
}

#[derive(Clone, Debug)]
pub struct FdtdParameters<S> {
    pub cell_size: Vect<S>,
    pub dt: S,
    pub polarization_mode: PolarizationMode,
    pub material_discretization: MaterialDiscretization,
}

/// What is simulated: the materials and sources, and how finely.
#[derive(Clone, Debug)]
pub struct FdtdLossySimulation<S, G> {
    pub material_regions: MaterialRegions<S, G>,
    pub background_material: ElectricMaterial<S>,
    pub sources: Vec<Source<S>>,
    pub fdtd_parameters: FdtdParameters<S>,
    pub pml_parameters: PmlParameters<S>,
    pub tfsf_parameters: TfsfParameters<S>,
}

/// `bb` enlarged to contain what the first `k` sources need: the position of a dipole, and the
/// middle of the regions for a plane wave with a total field.
pub open spec fn with_sources<S: Scalar>(
    bb: Aabb<S>,
    center: Vec3<S>,
    sources: Seq<Source<S>>,
    k: nat,
) -> Aabb<S>
    decreases k,
{
    if k == 0 {
        bb
    } else {
        let before = with_sources(bb, center, sources, (k - 1) as nat);
        match sources[k - 1] {
            Source::Dipole { position, .. } => before.merged_spec(
                Aabb::at_point(position.to_3d_spec(Vec3::splat_spec(S::zero_spec()))),
            ),
            Source::TFSF { .. } => before.merged_spec(Aabb::at_point(center)),
            Source::PlaneWave { .. } => before,
        }
    }
}

/// The cell in which a dipole sits.
pub open spec fn dipole_place<S: Scalar>(
    position: Vect<S>,
    offset: Vect<S>,
    cell_size: Vect<S>,
) -> Vect<S> {
    (offset + position).over_spec(cell_size)
}

/// The dipoles among the first `k` sources, and the values of their signals.
pub open spec fn pack_dipoles<S: Scalar>(
    sources: Seq<Source<S>>,
    offset: Vect<S>,
    cell_size: Vect<S>,
    n_cells: GridIndex,
    dt: S,
    k: nat,
) -> (Seq<GpuDipole<S>>, Seq<S>)
    decreases k,
{
    if k == 0 {
        (seq![], seq![])
    } else {
        let (dipoles, stored) = pack_dipoles(
            sources,
            offset,
            cell_size,
            n_cells,
            dt,
            (k - 1) as nat,
        );
        match sources[k - 1] {
            Source::Dipole { dipole_type, position, t_start, vals, moment } => (
                dipoles.push(
                    GpuDipole {
                        cell_idx: dipole_place(
                            position,
                            offset,
                            cell_size,
                        ).as_grid_index_spec().flat(n_cells) as u32,
                        vals_start: stored.len() as u32,
                        vals_end: (stored.len() + vals@.len() - 1) as u32,
                        t_start: t_start.over_spec(dt).to_index_spec(),
                        moment: Vec4 {
                            x: moment.x,
                            y: moment.y,
                            z: moment.z,
                            w: S::zero_spec(),
                        },
                        dipole_type,
                    },
                ),
                stored + vals@,
            ),
            _ => (dipoles, stored),
        }
    }
}

/// The dipoles among the first `k` sources sit in cells of the grid, and their values can be
/// counted.
pub open spec fn dipoles_fit<S: Scalar>(
    sources: Seq<Source<S>>,
    offset: Vect<S>,
    cell_size: Vect<S>,
    n_cells: GridIndex,
    dt: S,
    k: nat,
) -> bool {
    forall|j: int|
        0 <= j < k ==> (#[trigger] sources[j] matches Source::Dipole { position, .. } ==> {
            let place = dipole_place(position, offset, cell_size);
            &&& position.dim() == offset.dim()
            &&& !crate::vect::fold_right(
                place.array(),
                |a: S, b: S| a.smaller_spec(b),
            ).is_sign_negative_spec()
            &&& place.as_grid_index_spec().cell_of(n_cells)
            &&& 1 <= pack_dipoles(
                sources,
                offset,
                cell_size,
                n_cells,
                dt,
                (j + 1) as nat,
            ).1.len() <= u32::MAX
        })
}

/// Among the stored values, every dipole finds its own signal.
pub proof fn law_dipoles_keep_their_signals<S: Scalar>(
    sources: Seq<Source<S>>,
    offset: Vect<S>,
    cell_size: Vect<S>,
    n_cells: GridIndex,
    dt: S,
    j: int,
    k: nat,
)
    requires
        0 <= j < k <= sources.len(),
        sources[j] is Dipole,
        dipoles_fit(sources, offset, cell_size, n_cells, dt, k),
    ensures
        ({
            let before = pack_dipoles(sources, offset, cell_size, n_cells, dt, j as nat).0.len();
            let (dipoles, stored) = pack_dipoles(sources, offset, cell_size, n_cells, dt, k);
            let d = dipoles[before as int];
            &&& before < dipoles.len()
            &&& d.vals_start <= d.vals_end + 1 <= stored.len()
            &&& stored.subrange(d.vals_start as int, d.vals_end + 1) == sources[j]->Dipole_vals@
        }),
    decreases k,
{
    let before = pack_dipoles(sources, offset, cell_size, n_cells, dt, (k - 1) as nat);
    let after = pack_dipoles(sources, offset, cell_size, n_cells, dt, k);
    let signal = sources[j]->Dipole_vals@;
    if j == k - 1 {
        assert(sources[j] is Dipole);
        assert(after.1.len() == before.1.len() + signal.len());
        let d = after.0[before.0.len() as int];
        assert(after.1.subrange(d.vals_start as int, d.vals_end + 1) =~= signal);
    } else {
        law_dipoles_keep_their_signals(
            sources,
            offset,
            cell_size,
            n_cells,
            dt,
            j,
            (k - 1) as nat,
        );
        let at = pack_dipoles(sources, offset, cell_size, n_cells, dt, j as nat).0.len() as int;
        let d = before.0[at];
        assert(after.0[at] == d);
        assert(after.1.subrange(d.vals_start as int, d.vals_end + 1) =~= before.1.subrange(
            d.vals_start as int,
            d.vals_end + 1,
        ));
    }
}

/// The dipoles among `sources`, and the values of their signals.
pub fn create_dipoles<S: Scalar>(
    sources: &Vec<Source<S>>,
    offset: &Vect<S>,
    cell_size: &Vect<S>,
    n_cells: GridIndex,
    dt: &S,
) -> (r: (Vec<GpuDipole<S>>, Vec<S>))
    requires
        offset.dim() == cell_size.dim(),
        n_cells.cell_count() <= u32::MAX,
        dipoles_fit(sources@, *offset, *cell_size, n_cells, *dt, sources.len() as nat),
    ensures
        (r.0@, r.1@) == pack_dipoles(
            sources@,
            *offset,
            *cell_size,
            n_cells,
            *dt,
            sources.len() as nat,
        ),
{
    let mut dipoles: Vec<GpuDipole<S>> = Vec::new();
    let mut source_vals: Vec<S> = Vec::new();
    for k in 0..sources.len()
        invariant
            offset.dim() == cell_size.dim(),
            n_cells.cell_count() <= u32::MAX,
            dipoles_fit(sources@, *offset, *cell_size, n_cells, *dt, sources.len() as nat),
            (dipoles@, source_vals@) == pack_dipoles(
                sources@,
                *offset,
                *cell_size,
                n_cells,
                *dt,
                k as nat,
            ),
    {
        let ghost after = pack_dipoles(
            sources@,
            *offset,
            *cell_size,
            n_cells,
            *dt,
            (k + 1) as nat,
        );
        let source: &Source<S> = &sources[k];
        match source {
            Source::Dipole { dipole_type, position, t_start, vals, moment } => {
                assert(sources@[k as int] is Dipole);
                let pos: Vect<S> = offset.plus(position).over(cell_size);
                let cell_grid_idx: GridIndex = pos.as_grid_index();
                proof {
                    crate::index::lemma_flat3_bounds(cell_grid_idx.cell3(), n_cells.cells3());
                }
                let start: u32 = source_vals.len() as u32;
                extend_from(&mut source_vals, vals);
                dipoles.push(
                    GpuDipole {
                        cell_idx: cell_grid_idx.to_flat_idx(n_cells),
                        vals_start: start,
                        vals_end: source_vals.len() as u32 - 1,
                        t_start: t_start.over(dt).to_index(),
                        moment: Vec4 {
                            x: moment.x.dup(),
                            y: moment.y.dup(),
                            z: moment.z.dup(),
                            w: S::zero(),
                        },
                        dipole_type: *dipole_type,
                    },
                );
                assert(dipoles@ =~= after.0);
                assert(source_vals@ =~= after.1);
            },
            _ => {},
        }
    }
    (dipoles, source_vals)
}

impl<S: Scalar, G> FdtdLossySimulation<S, G> {
    pub fn new(fdtd_parameters: FdtdParameters<S>, pml_parameters: PmlParameters<S>) -> (r: Self)
        ensures
            r.material_regions.regions@.len() == 0,
            r.background_material == ElectricMaterial::<S>::free_space_spec(),
            r.sources@.len() == 0,
            r.fdtd_parameters == fdtd_parameters,
            r.pml_parameters == pml_parameters,
            r.tfsf_parameters.pml_width@ == 12,
            r.tfsf_parameters.pml_sig_max == pml_parameters.sig_max,
            r.tfsf_parameters.pml_grading_order == pml_parameters.grading_order,
    {
        let tfsf_parameters = TfsfParameters {
            pml_width: NonZeroU32::of(12),
            pml_sig_max: pml_parameters.sig_max.dup(),
            pml_grading_order: pml_parameters.grading_order,
        };
        FdtdLossySimulation {
            material_regions: MaterialRegions::new(),
            background_material: ElectricMaterial::free_space(),
            sources: Vec::new(),
            fdtd_parameters,
            pml_parameters,
            tfsf_parameters,
        }
    }

    pub fn add_source(&mut self, source: Source<S>) -> (r: &mut Self)
        ensures
            r.sources@ == old(self).sources@.push(source),
            r.material_regions == old(self).material_regions,
            r.background_material == old(self).background_material,
            r.fdtd_parameters == old(self).fdtd_parameters,
            r.pml_parameters == old(self).pml_parameters,
            r.tfsf_parameters == old(self).tfsf_parameters,
            *final(self) == *final(r),
    {
        self.sources.push(source);
        self
    }

    pub open spec fn dim(self) -> Dim {
        self.fdtd_parameters.cell_size.dim()
    }

    /// The box around all regions and sources, a little enlarged.
    pub open spec fn bounding_box<F: Fn(&G) -> Aabb<S>>(self, aabb_of: F) -> Aabb<S> {
        let regions = regions_box(self.material_regions.regions@, aabb_of);
        with_sources(
            regions,
            regions.center_spec(),
            self.sources@,
            self.sources@.len(),
        ).grown_spec(Vec3::splat_spec(S::epsilon_spec()))
    }

    /// Compute the bounding box surrounding all objects and sources in the simulation; `aabb_of`
    /// gives the box around the geometry of a region.
    pub fn compute_bounding_box<F: Fn(&G) -> Aabb<S>>(&self, aabb_of: F) -> (r: Aabb<S>)
        requires
            encloses::<S, G, F>(aabb_of),
        ensures
            r == self.bounding_box(aabb_of),
    {
        let mut regions_bb: Aabb<S> = self.material_regions.compute_bounding_box(aabb_of);
        let ghost bb0 = regions_bb;
        let regions_center: Vec3<S> = regions_bb.center();
        for k in 0..self.sources.len()
            invariant
                regions_center == bb0.center_spec(),
                regions_bb == with_sources(bb0, regions_center, self.sources@, k as nat),
        {
            match &self.sources[k] {
                Source::Dipole { position, .. } => {
                    let pt: Vec3<S> = position.to_3d(&Vec3::splat(&S::zero()));
                    regions_bb.merge(&Aabb { mins: pt.dup(), maxs: pt });
                },
                Source::TFSF { .. } => {
                    let pt: Vec3<S> = regions_center.dup();
                    regions_bb.merge(&Aabb { mins: pt.dup(), maxs: pt });
                },
                Source::PlaneWave { .. } => {},
            }
        }
        // ensure the simulation encompasses everything by adding machine eps
        regions_bb.add_half_extents(&Vec3::splat(&S::epsilon()))
    }

    /// The dimensions of a grid that encompasses the box.
    pub open spec fn material_cells(self, bb: Aabb<S>) -> GridIndex {
        let cell_size = self.fdtd_parameters.cell_size;
        let n = bb.extents_spec().over_spec(
            cell_size.to_3d_spec(Vec3::splat_spec(S::one_spec())),
        ).ceil_spec();
        Vect::from_vec3_spec(self.dim(), n).as_grid_index_spec()
    }

    /// The dimensions of a grid that encompasses the box.
    pub(crate) fn count_material_cells(&self, simulation_bb: &Aabb<S>) -> (r: GridIndex)
        ensures
            r == self.material_cells(*simulation_bb),
            r.dim() == self.dim(),
    {
        let cell_size: &Vect<S> = &self.fdtd_parameters.cell_size;
        let n_cells_vec3: Vec3<S> = simulation_bb.extents().over(
            &cell_size.to_3d(&Vec3::splat(&S::one())),
        ).ceil();
        Vect::from_vec3(cell_size.get_dim(), &n_cells_vec3).as_grid_index()
    }

    /// The cells along `axis`: those of the materials, the spacer regions, the PML and one more on
    /// each side.
    pub open spec fn layered_cells(
        self,
        bb: Aabb<S>,
        stability: FdtdStability<S>,
        axis: Axis,
    ) -> int {
        self.material_cells(bb).at(axis) + stability.spacer_region_widths.total(axis)
            + self.pml_parameters.widths.total(axis) + 2
    }

    /// The dimensions of the whole grid.
    pub open spec fn n_cells_spec(self, bb: Aabb<S>, stability: FdtdStability<S>) -> GridIndex {
        GridIndex::from_uvec3_spec(
            self.dim(),
            UVec3 {
                x: self.layered_cells(bb, stability, Axis::X) as u32,
                y: self.layered_cells(bb, stability, Axis::Y) as u32,
                z: self.layered_cells(bb, stability, Axis::Z) as u32,
            },
        )
    }

    /// The cells of the whole grid can be counted along each axis.
    pub open spec fn layers_fit(self, bb: Aabb<S>, stability: FdtdStability<S>) -> bool {
        forall|s: SpatialAxis| #[trigger]
            s.of_dim(self.dim()) ==> self.layered_cells(bb, stability, s.axis()) <= u32::MAX
    }

    /// Compute the dimensions of a grid that can encompass `simulation_bb`, then add spacer regions
    /// from `stability` and PML widths from `self`, and a layer of one cell around all.
    pub fn compute_n_cells(&self, simulation_bb: &Aabb<S>, stability: &FdtdStability<S>) -> (r:
        GridIndex)
        requires
            self.layers_fit(*simulation_bb, *stability),
        ensures
            r == self.n_cells_spec(*simulation_bb, *stability),
            r.dim() == self.dim(),
    {
        let dim = self.fdtd_parameters.cell_size.get_dim();
        let materials_n_cells: GridIndex = self.count_material_cells(simulation_bb);
        let border = LayerWidths::splat_spatial(dim, 1);
        assert forall|s: SpatialAxis| #[trigger] s.of_dim(dim) implies border.total(s.axis())
            == 2 by {
            assert(s.axis().valid());
        }
        let spaced: GridIndex = stability.spacer_region_widths.sum_with_n_cells(materials_n_cells);
        let layered: GridIndex = self.pml_parameters.widths.sum_with_n_cells(spaced);
        let r: GridIndex = border.sum_with_n_cells(layered);
        proof {
            let expected = self.n_cells_spec(*simulation_bb, *stability);
            assert forall|s: SpatialAxis| #[trigger] s.of_dim(dim) implies r.at(s.axis())
                == self.layered_cells(*simulation_bb, *stability, s.axis()) by {}
            assert(SpatialAxis::X.of_dim(dim) ==> r.at(Axis::X) == expected.at(Axis::X));
            assert(SpatialAxis::Y.of_dim(dim) ==> r.at(Axis::Y) == expected.at(Axis::Y));
            assert(SpatialAxis::Z.of_dim(dim) ==> r.at(Axis::Z) == expected.at(Axis::Z));
        }
        r
    }

    /// The first cell behind the layers, along each spatial axis.
    pub open spec fn problem_space_min(self) -> GridIndex {
        let w = self.pml_parameters.widths;
        GridIndex::from_uvec3_spec(
            self.dim(),
            UVec3 {
                x: (1 + w.at(Axis::X).lo) as u32,
                y: (1 + w.at(Axis::Y).lo) as u32,
                z: (1 + w.at(Axis::Z).lo) as u32,
            },
        )
    }

    /// The last cell before the layers, along each spatial axis.
    pub open spec fn problem_space_max(self, n_cells: GridIndex) -> GridIndex {
        let w = self.pml_parameters.widths;
        GridIndex::from_uvec3_spec(
            self.dim(),
            UVec3 {
                x: (n_cells.at(Axis::X) - 2 - w.at(Axis::X).hi) as u32,
                y: (n_cells.at(Axis::Y) - 2 - w.at(Axis::Y).hi) as u32,
                z: (n_cells.at(Axis::Z) - 2 - w.at(Axis::Z).hi) as u32,
            },
        )
    }

    /// The first and the last cell between the layers, along each spatial axis.
    pub(crate) fn compute_problem_space(&self, n_cells: GridIndex) -> (r: (GridIndex, GridIndex))
        requires
            n_cells.dim() == self.dim(),
            forall|s: SpatialAxis| #[trigger]
                s.of_dim(self.dim()) ==> n_cells.at(s.axis()) >= 2
                    + self.pml_parameters.widths.total(s.axis()),
        ensures
            r == (self.problem_space_min(), self.problem_space_max(n_cells)),
    {
        assert(SpatialAxis::X.of_dim(n_cells.dim()) ==> n_cells.at(Axis::X) >= 2
            + self.pml_parameters.widths.total(Axis::X));
        assert(SpatialAxis::Y.of_dim(n_cells.dim()) ==> n_cells.at(Axis::Y) >= 2
            + self.pml_parameters.widths.total(Axis::Y));
        assert(SpatialAxis::Z.of_dim(n_cells.dim()) ==> n_cells.at(Axis::Z) >= 2
            + self.pml_parameters.widths.total(Axis::Z));
        let w = &self.pml_parameters.widths;
        let (w_x, w_y, w_z) = (w.get(Axis::X), w.get(Axis::Y), w.get(Axis::Z));
        let problem_space_min: GridIndex = match n_cells {
            GridIndex::One(_) => GridIndex::One(1 + w_z.lo),
            GridIndex::Two(_, _) => GridIndex::Two(1 + w_x.lo, 1 + w_y.lo),
            GridIndex::Three(_, _, _) => GridIndex::Three(1 + w_x.lo, 1 + w_y.lo, 1 + w_z.lo),
        };
        let problem_space_max: GridIndex = match n_cells {
            GridIndex::One(z) => GridIndex::One(z - 2 - w_z.hi),
            GridIndex::Two(x, y) => GridIndex::Two(x - 2 - w_x.hi, y - 2 - w_y.hi),
            GridIndex::Three(x, y, z) => GridIndex::Three(
                x - 2 - w_x.hi,
                y - 2 - w_y.hi,
                z - 2 - w_z.hi,
            ),
        };
        (problem_space_min, problem_space_max)
    }

    /// The materials of the cells of the grid, smoothed where the simulation asks for it.
    pub open spec fn material_grid<F: Fn(&G, &Vec3<S>, &Vec3<S>) -> bool>(
        self,
        bb: Aabb<S>,
        n_cells: GridIndex,
        contains: F,
    ) -> Seq<ElectricMaterial<S>> {
        let p = self.fdtd_parameters;
        let offset = self.material_offset(bb, n_cells);
        let regions = self.material_regions.regions@;
        match p.material_discretization {
            MaterialDiscretization::Rough => YeeGridMaterials::sampled_materials(
                n_cells,
                p.cell_size,
                offset,
                regions,
                contains,
                self.background_material,
            ),
            MaterialDiscretization::Smooth { resolution } => {
                let fine = n_cells.times_spec(resolution@ as int);
                downscaled_materials(
                    fine,
                    YeeGridMaterials::sampled_materials(
                        fine,
                        p.cell_size.divided_spec(S::of_nat_spec(resolution@)),
                        offset,
                        regions,
                        contains,
                        self.background_material,
                    ),
                    resolution@,
                )
            },
        }
    }

    /// The translation that centers the regions on the grid.
    pub open spec fn material_offset(self, bb: Aabb<S>, n_cells: GridIndex) -> Vec3<S> {
        let p = self.fdtd_parameters;
        match p.material_discretization {
            MaterialDiscretization::Rough => YeeGridMaterials::simulation_offset(
                bb,
                n_cells,
                p.cell_size,
            ),
            MaterialDiscretization::Smooth { resolution } => YeeGridMaterials::simulation_offset(
                bb,
                n_cells.times_spec(resolution@ as int),
                p.cell_size.divided_spec(S::of_nat_spec(resolution@)),
            ),
        }
    }

    /// The grid on which the materials are sampled can be counted.
    pub open spec fn material_grid_fits(self, n_cells: GridIndex) -> bool {
        &&& n_cells.dim() == self.dim()
        &&& match self.fdtd_parameters.material_discretization {
            MaterialDiscretization::Rough => {
                &&& n_cells.cell_count() <= u32::MAX
                &&& n_cells.cells3().x * n_cells.cells3().y <= u32::MAX
            },
            MaterialDiscretization::Smooth { resolution } => {
                let fine = n_cells.times_spec(resolution@ as int);
                &&& n_cells.times_fits(resolution@ as int)
                &&& fine.cell_count() <= u32::MAX
                &&& fine.cells3().x * fine.cells3().y <= u32::MAX
                &&& downscale_fits(fine, resolution@)
            },
        }
    }

    /// The materials of the grid; `contains` says whether the geometry of a region, moved by a
    /// translation, contains a point.
    pub fn create_material_grid<F: Fn(&G, &Vec3<S>, &Vec3<S>) -> bool>(
        &self,
        simulation_bb: &Aabb<S>,
        n_cells: GridIndex,
        contains: F,
    ) -> (r: YeeGridMaterials<S>)
        requires
            self.material_grid_fits(n_cells),
            decides::<S, G, F>(contains),
        ensures
            r.wf(),
            r.n_cells == n_cells,
            r.default_mat == self.background_material,
            r.sim_offset == self.material_offset(*simulation_bb, n_cells),
            r.materials@ == self.material_grid(*simulation_bb, n_cells, contains),
            r.cell_size == match self.fdtd_parameters.material_discretization {
                MaterialDiscretization::Rough => self.fdtd_parameters.cell_size,
                MaterialDiscretization::Smooth {
                    resolution,
                } => self.fdtd_parameters.cell_size.divided_spec(
                    S::of_nat_spec(resolution@),
                ).scaled_spec(S::of_nat_spec(resolution@)),
            },
    {
        let cell_size: &Vect<S> = &self.fdtd_parameters.cell_size;
        match self.fdtd_parameters.material_discretization {
            MaterialDiscretization::Rough => YeeGridMaterials::new_material_grid(
                n_cells,
                cell_size,
                simulation_bb,
                &self.material_regions,
                contains,
                &self.background_material,
            ),
            MaterialDiscretization::Smooth { resolution } => {
                proof {
                    law_downscaling_undoes_refining(n_cells, resolution@);
                }
                YeeGridMaterials::new_material_grid(
                    n_cells.times(resolution.get()),
                    &cell_size.divided(&S::of_nat(resolution.get())),
                    simulation_bb,
                    &self.material_regions,
                    contains,
                    &self.background_material,
                ).downscaled(resolution)
            },
        }
    }
}

/// A grid refined by a factor and downscaled by it again has the dimensions it had.
pub proof fn law_downscaling_undoes_refining(n: GridIndex, factor: u32)
    requires
        factor > 0,
        n.times_fits(factor as int),
    ensures
        downscaled_cells(n.times_spec(factor as int), factor) == n,
{
    let n3 = n.cell3();
    lemma_ceil_of_multiple(n3.x, factor);
    lemma_ceil_of_multiple(n3.y, factor);
    lemma_ceil_of_multiple(n3.z, factor);
}

proof fn lemma_ceil_of_multiple(n: u32, f: u32)
    requires
        f > 0,
    ensures
        n * f <= u32::MAX ==> crate::index::ceil_div((n * f) as u32, f) == n,
        0 <= n * f,
{
    assert(0 <= n * f) by (nonlinear_arith);
    if n * f <= u32::MAX {
        assert(n * f + f - 1 == f * n + (f - 1)) by (nonlinear_arith);
        vstd::arithmetic::div_mod::lemma_fundamental_div_mod_converse(
            n * f + f - 1,
            f as int,
            n as int,
            f - 1,
        );
    }
}

/// `n` zero vectors.
fn zeroed_vector_field<S: Scalar>(n: usize) -> (r: Vec<Vec4<S>>)
    ensures
        r@ == Seq::new(n as nat, |i: int| Vec4::<S>::zero_spec()),
{
    let mut r: Vec<Vec4<S>> = Vec::new();
    for i in 0..n
        invariant
            r@ == Seq::new(i as nat, |i: int| Vec4::<S>::zero_spec()),
    {
        r.push(Vec4::zero());
        assert(r@ =~= Seq::new((i + 1) as nat, |i: int| Vec4::<S>::zero_spec()));
    }
    r
}

fn zeroed_source_terms<S: Scalar>(n: usize) -> (r: Vec<SourceTerms<S>>)
    ensures
        r@ == Seq::new(n as nat, |i: int| SourceTerms::<S>::zero_spec()),
{
    let mut r: Vec<SourceTerms<S>> = Vec::new();
    for i in 0..n
        invariant
            r@ == Seq::new(i as nat, |i: int| SourceTerms::<S>::zero_spec()),
    {
        r.push(SourceTerms::default());
        assert(r@ =~= Seq::new((i + 1) as nat, |i: int| SourceTerms::<S>::zero_spec()));
    }
    r
}

fn zeroed_integrals<S: Scalar>(n: usize) -> (r: Vec<PmlIntegrals<S>>)
    ensures
        r@ == Seq::new(n as nat, |i: int| PmlIntegrals::<S>::zero_spec()),
{
    let mut r: Vec<PmlIntegrals<S>> = Vec::new();
    for i in 0..n
        invariant
            r@ == Seq::new(i as nat, |i: int| PmlIntegrals::<S>::zero_spec()),
    {
        r.push(PmlIntegrals::default());
        assert(r@ =~= Seq::new((i + 1) as nat, |i: int| PmlIntegrals::<S>::zero_spec()));
    }
    r
}

/// The distances in storage between neighbours: along each spatial axis where the cell with the
/// index 1 there and 0 elsewhere is stored, and 0 along the other axes.
pub open spec fn flat_idx_incrs(n_cells: GridIndex) -> UVec3 {
    let dim = n_cells.dim();
    let n = n_cells.cells3();
    UVec3 {
        x: if spatial(dim, Axis::X) {
            stride(n, Axis::X) as u32
        } else {
            0
        },
        y: if spatial(dim, Axis::Y) {
            stride(n, Axis::Y) as u32
        } else {
            0
        },
        z: if spatial(dim, Axis::Z) {
            stride(n, Axis::Z) as u32
        } else {
            0
        },
    }
}

/// Compute the distances in storage between neighbours.
pub fn compute_flat_idx_incrs(n_cells: GridIndex) -> (r: UVec3)
    requires
        0 < n_cells.cell_count() <= u32::MAX,
    ensures
        r == flat_idx_incrs(n_cells),
        strides_of(n_cells.dim(), n_cells.cells3(), r),
{
    let dim = n_cells.get_dim();
    let axes: Vec<SpatialAxis> = SpatialAxis::all_spatial(dim);
    let ghost n = n_cells.cells3();
    let mut incrs: UVec3 = UVec3::splat(0);
    proof {
        crate::materials::lemma_nonempty_grid(n_cells);
    }
    for i in 0..axes.len()
        invariant
            dim == n_cells.dim(),
            n == n_cells.cells3(),
            n_cells.nonzero(),
            n.x * n.y <= u32::MAX,
            axes@ == SpatialAxis::all_spatial_spec(dim),
            incrs == (UVec3 {
                x: if dim != Dim::One && i > 0 {
                    1
                } else {
                    0
                },
                y: if dim != Dim::One && i > 1 {
                    n.x
                } else {
                    0
                },
                z: if dim == Dim::One && i > 0 || dim == Dim::Three && i > 2 {
                    (n.x * n.y) as u32
                } else {
                    0
                },
            }),
    {
        let s: SpatialAxis = axes[i];
        let unit: GridIndex = GridIndex::splat(dim, 0).with(s, 1);
        proof {
            let (x, y) = (n.x as int, n.y as int);
            assert(0 * x * y == 0 && 0 * x == 0 && 1 * x == x && 1 * x * y == x * y)
                by (nonlinear_arith);
            assert(dim == Dim::One ==> s == SpatialAxis::Z);
        }
        incrs = incrs.with(Axis::from(s), unit.to_flat_idx(n_cells));
    }
    incrs
}

/// The signals of the dipoles are stored among the values.
proof fn lemma_dipoles_ok<S: Scalar>(
    sources: Seq<Source<S>>,
    offset: Vect<S>,
    cell_size: Vect<S>,
    n_cells: GridIndex,
    dt: S,
    k: nat,
)
    requires
        k <= sources.len(),
        dipoles_fit(sources, offset, cell_size, n_cells, dt, k),
    ensures
        ({
            let (dipoles, vals) = pack_dipoles(sources, offset, cell_size, n_cells, dt, k);
            forall|j: int|
                0 <= j < dipoles.len() ==> crate::state::dipole_ok(
                    #[trigger] dipoles[j],
                    vals.len() as int,
                )
        }),
    decreases k,
{
    if k > 0 {
        lemma_dipoles_ok(sources, offset, cell_size, n_cells, dt, (k - 1) as nat);
        let (before, stored) = pack_dipoles(
            sources,
            offset,
            cell_size,
            n_cells,
            dt,
            (k - 1) as nat,
        );
        let (dipoles, vals) = pack_dipoles(sources, offset, cell_size, n_cells, dt, k);
        if sources[k - 1] is Dipole {
            assert(1 <= vals.len() <= u32::MAX);
            assert(stored.len() <= vals.len());
            assert forall|j: int| 0 <= j < dipoles.len() implies crate::state::dipole_ok(
                #[trigger] dipoles[j],
                vals.len() as int,
            ) by {
                if j < before.len() {
                    assert(dipoles[j] == before[j]);
                }
            }
        }
    }
}

/// The buffers of plane waves whose parts lie in them belong together.
proof fn lemma_plane_waves_ok<S: Scalar>(
    data: TfsfDispatchData<S>,
    p: TfsfPack<S>,
    grid: GridParameters<S>,
    vals: int,
)
    requires
        grid.wf(),
        data.lays_out(p, grid.dim, grid.n_cells3),
        masks_fit(grid.dim, grid.n_cells3, p.sources.len() as int),
        p.vals.len() <= vals,
        p.sources.len() > 0 ==> p.corrections <= u32::MAX,
        p.sources.len() == 0 ==> p.coeffs.len() == 0,
        forall|a: Axis| #[trigger]
            a.valid() ==> p.corrections + grid.n_cells3.at(a) <= u32::MAX,
        forall|i: int|
            0 <= i < p.sources.len() ==> {
                let s = #[trigger] p.sources[i];
                &&& s.axes_valid()
                &&& s.vals_start <= p.vals.len()
                &&& s.vals_end < p.vals.len()
                &&& s.num_correction_cells >= 3
                &&& s.corrections_start + s.num_correction_cells <= p.corrections
                &&& s.grid_start + s.n_cells <= p.coeffs.len()
                &&& s.tf_max_a < u32::MAX && s.tf_max_a1 < u32::MAX && s.tf_max_a2 < u32::MAX
            },
    ensures
        data.wf(grid, vals),
{
    assert forall|k: int| 0 <= k < data.tfsf_sources.len() implies crate::state::tfsf_ok(
        #[trigger] data.tfsf_sources[k],
        vals,
        data.corrections.len() as int,
        data.en.len() as int,
        grid.n_cells3,
    ) by {
        if p.sources.len() > 0 {
            let s = p.sources[k];
            assert(data.tfsf_sources@[k] == s);
            assert(s.a.valid());
        } else {
            assert(data.tfsf_sources@[k] == GpuTfsf::<S>::zero_spec());
        }
    }
    if p.sources.len() == 0 {
        assert forall|k: int| 0 <= k < data.tfsf_sources.len() implies !(
        #[trigger] data.tfsf_sources[k]).active() by {
            assert(data.tfsf_sources@[k] == GpuTfsf::<S>::zero_spec());
        }
        assert(data.auxgr_coeffs.len() >= data.en.len());
    } else {
        let n = grid.n_cells3;
        assert(n.x * n.y * n.z > 0) by (nonlinear_arith)
            requires
                n.x >= 1,
                n.y >= 1,
                n.z >= 1,
        ;
        assert(p.sources.len() * grid.n_cells3.product_spec() > 0) by (nonlinear_arith)
            requires
                p.sources.len() > 0,
                grid.n_cells3.product_spec() > 0,
        ;
    }
}

/// The dimensions of a grid as those of a 3D grid.
proof fn lemma_grid_shape(n: GridIndex)
    requires
        forall|s: SpatialAxis| #[trigger] s.of_dim(n.dim()) ==> n.at(s.axis()) >= 2,
        n.cell_count() <= u32::MAX,
    ensures
        grid_shape(n.dim(), n.cells3()),
        n.cell_count() > 0,
{
    assert(SpatialAxis::X.of_dim(n.dim()) ==> n.at(Axis::X) >= 2);
    assert(SpatialAxis::Y.of_dim(n.dim()) ==> n.at(Axis::Y) >= 2);
    assert(SpatialAxis::Z.of_dim(n.dim()) ==> n.at(Axis::Z) >= 2);
    let c = n.cells3();
    assert(c.x * c.y * c.z > 0) by (nonlinear_arith)
        requires
            c.x > 0,
            c.y > 0,
            c.z > 0,
    ;
}

impl<S: Scalar, G> FdtdLossySimulation<S, G> {
    /// What the simulation hands to every plane wave, where the problem space has the given corners.
    pub open spec fn tfsf_setup_between(
        self,
        problem_space_min: UVec3,
        problem_space_max: UVec3,
        space: FreeSpace<S>,
    ) -> TfsfSetup<S> {
        TfsfSetup {
            parameters: self.tfsf_parameters,
            dt: self.fdtd_parameters.dt,
            background: self.background_material,
            space,
            inv_d: self.fdtd_parameters.cell_size.recip_spec().to_3d_spec(
                Vec3::splat_spec(S::zero_spec()),
            ),
            problem_space_min,
            problem_space_max,
        }
    }

    /// What the simulation hands to every plane wave, where its grid has the dimensions `n_cells`.
    pub open spec fn tfsf_setup(self, n_cells: GridIndex, space: FreeSpace<S>) -> TfsfSetup<S> {
        self.tfsf_setup_between(
            self.problem_space_min().cell3(),
            self.problem_space_max(n_cells).cell3(),
            space,
        )
    }

    /// What the simulation hands to every plane wave, between the given cells.
    pub(crate) fn prepare_tfsf_setup(
        &self,
        problem_space_min: UVec3,
        problem_space_max: UVec3,
        space: &FreeSpace<S>,
    ) -> (r: TfsfSetup<S>)
        ensures
            r == self.tfsf_setup_between(problem_space_min, problem_space_max, *space),
    {
        let cell_size: &Vect<S> = &self.fdtd_parameters.cell_size;
        TfsfSetup {
            parameters: TfsfParameters {
                pml_width: self.tfsf_parameters.pml_width,
                pml_sig_max: self.tfsf_parameters.pml_sig_max.dup(),
                pml_grading_order: self.tfsf_parameters.pml_grading_order,
            },
            dt: self.fdtd_parameters.dt.dup(),
            background: self.background_material.dup(),
            space: FreeSpace {
                c_0: space.c_0.dup(),
                eps_0: space.eps_0.dup(),
                mu_0: space.mu_0.dup(),
                impedance_0: space.impedance_0.dup(),
            },
            inv_d: cell_size.recip().to_3d(&Vec3::splat(&S::zero())),
            problem_space_min,
            problem_space_max,
        }
    }

    /// Prepare the plane waves of the simulation. Their signals are appended to `source_vals`.
    pub fn create_tfsf_sources(
        &self,
        source_vals: &mut Vec<S>,
        n_cells3: UVec3,
        problem_space_min: UVec3,
        problem_space_max: UVec3,
        space: &FreeSpace<S>,
    ) -> (r: TfsfDispatchData<S>)
        requires
            ({
                let setup = self.tfsf_setup_between(
                    problem_space_min,
                    problem_space_max,
                    *space,
                );
                let k = self.sources.len() as nat;
                &&& setup.packs(self.sources@, old(source_vals)@, k)
                &&& masks_fit(
                    self.dim(),
                    n_cells3,
                    setup.pack(self.sources@, old(source_vals)@, k).sources.len() as int,
                )
            }),
        ensures
            ({
                let setup = self.tfsf_setup_between(
                    problem_space_min,
                    problem_space_max,
                    *space,
                );
                let p = setup.pack(self.sources@, old(source_vals)@, self.sources.len() as nat);
                &&& final(source_vals)@ == p.vals
                &&& r.lays_out(p, self.dim(), n_cells3)
            }),
    {
        let setup: TfsfSetup<S> = self.prepare_tfsf_setup(
            problem_space_min,
            problem_space_max,
            space,
        );
        setup.create(
            self.fdtd_parameters.cell_size.get_dim(),
            &self.sources,
            source_vals,
            n_cells3,
        )
    }

    /// The translation that centers the simulation on its grid, along the spatial axes.
    pub open spec fn source_offset(self, bb: Aabb<S>, n_cells: GridIndex) -> Vect<S> {
        Vect::from_vec3_spec(self.dim(), self.material_offset(bb, n_cells))
    }

    /// The dipoles of the simulation, and the values of their signals.
    pub open spec fn dipole_pack(self, bb: Aabb<S>, n_cells: GridIndex) -> (
        Seq<GpuDipole<S>>,
        Seq<S>,
    ) {
        pack_dipoles(
            self.sources@,
            self.source_offset(bb, n_cells),
            self.fdtd_parameters.cell_size,
            n_cells,
            self.fdtd_parameters.dt,
            self.sources@.len(),
        )
    }

    /// The plane waves of the simulation that start at a position, and the values with their signals
    /// behind those of the dipoles.
    pub open spec fn wave_pack(self, bb: Aabb<S>, n_cells: GridIndex) -> (
        Seq<GpuPlaneWave>,
        Seq<S>,
    ) {
        pack_plane_waves(
            self.sources@,
            self.source_offset(bb, n_cells),
            self.fdtd_parameters.cell_size,
            self.fdtd_parameters.dt,
            self.dipole_pack(bb, n_cells).1,
            self.sources@.len(),
        )
    }

    /// The plane waves of the simulation that have a total field. Their signals are stored behind
    /// those of the other sources.
    pub open spec fn tfsf_pack(
        self,
        bb: Aabb<S>,
        n_cells: GridIndex,
        space: FreeSpace<S>,
    ) -> TfsfPack<S> {
        self.tfsf_setup(n_cells, space).pack(
            self.sources@,
            self.wave_pack(bb, n_cells).1,
            self.sources@.len(),
        )
    }

    /// A grid of the dimensions `n_cells` for this simulation.
    pub open spec fn grid_parameters(self, n_cells: GridIndex) -> GridParameters<S> {
        let p = self.fdtd_parameters;
        let d = p.cell_size.to_3d_spec(Vec3::splat_spec(S::zero_spec()));
        GridParameters {
            dim: self.dim(),
            flat_idx_incrs: flat_idx_incrs(n_cells),
            polarization_mode_index: match p.polarization_mode {
                PolarizationMode::TransverseMagnetic => PolarizationModeIndex::tm_spec(),
                PolarizationMode::TransverseElectric => PolarizationModeIndex::te_spec(),
            },
            n_cells3: n_cells.cells3(),
            dt: p.dt,
            d,
            inv_dt: p.dt.recip_spec(),
            inv_d: d.recip_spec(),
            cell_count: n_cells.cell_count() as u32,
            problem_space_min: self.problem_space_min().to_3d_spec(UVec3::splat_spec(1)),
            problem_space_max: self.problem_space_max(n_cells).to_3d_spec(UVec3::splat_spec(1)),
        }
    }

    /// The grid of the simulation can be counted, its sources lie in it, and so does all that they
    /// store.
    pub open spec fn finalizable(
        self,
        bb: Aabb<S>,
        stability: FdtdStability<S>,
        space: FreeSpace<S>,
    ) -> bool {
        let n_cells = self.n_cells_spec(bb, stability);
        let p = self.tfsf_pack(bb, n_cells, space);
        let k = self.sources@.len();
        &&& self.layers_fit(bb, stability)
        &&& self.material_grid_fits(n_cells)
        &&& n_cells.cell_count() <= u32::MAX
        &&& halves_fit(n_cells.cells3(), self.pml_parameters)
        &&& dipoles_fit(
            self.sources@,
            self.source_offset(bb, n_cells),
            self.fdtd_parameters.cell_size,
            n_cells,
            self.fdtd_parameters.dt,
            k,
        )
        &&& plane_waves_fit(
            self.sources@,
            self.source_offset(bb, n_cells),
            self.fdtd_parameters.cell_size,
            n_cells,
            self.fdtd_parameters.dt,
            self.dipole_pack(bb, n_cells).1,
            k,
        )
        &&& self.tfsf_setup(n_cells, space).packs(
            self.sources@,
            self.wave_pack(bb, n_cells).1,
            k,
        )
        &&& masks_fit(self.dim(), n_cells.cells3(), p.sources.len() as int)
        &&& forall|a: Axis| #[trigger]
            a.valid() ==> p.corrections + n_cells.cells3().at(a) <= u32::MAX
    }

    /// `r` holds everything that the simulation needs to run, before the first step.
    pub open spec fn lays_out<F: Fn(&G, &Vec3<S>, &Vec3<S>) -> bool>(
        self,
        r: FdtdLossyState<S>,
        bb: Aabb<S>,
        contains: F,
        stability: FdtdStability<S>,
        space: FreeSpace<S>,
    ) -> bool {
        let n_cells = self.n_cells_spec(bb, stability);
        let count = n_cells.cell_count() as nat;
        let dipoles = self.dipole_pack(bb, n_cells).0;
        let waves = self.wave_pack(bb, n_cells).0;
        let p = self.tfsf_pack(bb, n_cells, space);
        &&& r.n_cells == n_cells
        &&& r.grid_params == self.grid_parameters(n_cells)
        &&& r.t_idx == 0
        &&& r.h@ == Seq::new(count, |i: int| Vec4::<S>::zero_spec())
        &&& r.dn@ == r.h@
        &&& r.en@ == r.h@
        &&& r.dipoles@ == if dipoles.len() > 0 {
            dipoles
        } else {
            seq![GpuDipole::zero_spec()]
        }
        &&& r.plane_waves@ == if waves.len() > 0 {
            waves
        } else {
            seq![GpuPlaneWave::zero_spec(self.dim())]
        }
        &&& r.source_vals@ == if p.vals.len() > 0 {
            p.vals
        } else {
            seq![S::zero_spec()]
        }
        &&& r.tfsf_dispatch_data.lays_out(p, self.dim(), n_cells.cells3())
        &&& r.source_terms@ == Seq::new(count, |i: int| SourceTerms::<S>::zero_spec())
        &&& r.int_terms@ == Seq::new(count, |i: int| PmlIntegrals::<S>::zero_spec())
        &&& r.grid_coeffs@ == self.coefficients(bb, n_cells, contains, space)
    }

    /// Lay out everything that the simulation needs to run.
    ///
    /// `aabb_of` gives the box around the geometry of a region, and `contains` says whether it,
    /// moved by a translation, contains a point.
    pub fn finalize<A: Fn(&G) -> Aabb<S>, F: Fn(&G, &Vec3<S>, &Vec3<S>) -> bool>(
        &self,
        aabb_of: A,
        contains: F,
        stability: &FdtdStability<S>,
        space: &FreeSpace<S>,
    ) -> (r: FdtdLossyState<S>)
        requires
            encloses::<S, G, A>(aabb_of),
            decides::<S, G, F>(contains),
            self.finalizable(self.bounding_box(aabb_of), *stability, *space),
        ensures
            r.wf(),
            self.lays_out(r, self.bounding_box(aabb_of), contains, *stability, *space),
    {
        let p = &self.fdtd_parameters;
        let dim = p.cell_size.get_dim();
        let sim_bb: Aabb<S> = self.compute_bounding_box(aabb_of);
        let n_cells: GridIndex = self.compute_n_cells(&sim_bb, stability);
        let n_cells3: UVec3 = n_cells.n_cells_to_3d();
        proof {
            assert forall|s: SpatialAxis| #[trigger] s.of_dim(n_cells.dim()) implies n_cells.at(
                s.axis(),
            ) == self.layered_cells(sim_bb, *stability, s.axis()) by {}
            lemma_grid_shape(n_cells);
            assert(Axis::X.valid() && Axis::Y.valid() && Axis::Z.valid());
            assert(SpatialAxis::X.of_dim(dim) ==> n_cells.at(Axis::X) >= 2
                + self.pml_parameters.widths.total(Axis::X));
            assert(SpatialAxis::Y.of_dim(dim) ==> n_cells.at(Axis::Y) >= 2
                + self.pml_parameters.widths.total(Axis::Y));
            assert(SpatialAxis::Z.of_dim(dim) ==> n_cells.at(Axis::Z) >= 2
                + self.pml_parameters.widths.total(Axis::Z));
        }

        let grid_mats: YeeGridMaterials<S> = self.create_material_grid(&sim_bb, n_cells, contains);
        let (regions_offset, grid_coeffs) = PmlCoefficientsGrid::new(
            &grid_mats,
            &self.pml_parameters,
            &p.dt,
            space,
        );
        assert(grid_coeffs.coeffs@ =~= self.coefficients(sim_bb, n_cells, contains, *space));

        let (problem_space_min, problem_space_max) = self.compute_problem_space(n_cells);

        let offset: Vect<S> = Vect::from_vec3(dim, &regions_offset);
        let (mut dipoles, mut source_vals) = create_dipoles(
            &self.sources,
            &offset,
            &p.cell_size,
            n_cells,
            &p.dt,
        );
        let ghost dipole_vals = source_vals@;
        let mut plane_waves: Vec<GpuPlaneWave> = create_plane_waves(
            &self.sources,
            &offset,
            &p.cell_size,
            n_cells,
            &p.dt,
            &mut source_vals,
        );
        let ghost wave_vals = source_vals@;
        let ghost setup = self.tfsf_setup(n_cells, *space);
        proof {
            lemma_dipoles_ok(
                self.sources@,
                offset,
                p.cell_size,
                n_cells,
                p.dt,
                self.sources@.len(),
            );
            lemma_plane_waves_append(
                self.sources@,
                offset,
                p.cell_size,
                p.dt,
                dipole_vals,
                self.sources@.len(),
            );
            lemma_pack_bounds(setup, self.sources@, wave_vals, self.sources@.len());
        }
        let tfsf_dispatch_data: TfsfDispatchData<S> = self.create_tfsf_sources(
            &mut source_vals,
            n_cells3,
            problem_space_min.cell_idx_to_3d(),
            problem_space_max.cell_idx_to_3d(),
            space,
        );
        if dipoles.len() == 0 {
            dipoles.push(GpuDipole::default());
        }
        if plane_waves.len() == 0 {
            plane_waves.push(GpuPlaneWave::zero(dim));
        }
        if source_vals.len() == 0 {
            source_vals.push(S::zero());
        }

        let flat_idx_incrs: UVec3 = compute_flat_idx_incrs(n_cells);
        let cell_size3: Vec3<S> = p.cell_size.to_3d(&Vec3::splat(&S::zero()));
        proof {
            crate::materials::lemma_nonempty_grid(n_cells);
        }
        let cell_count: u32 = n_cells.element_product();
        let grid_params: GridParameters<S> = GridParameters {
            dim,
            flat_idx_incrs,
            polarization_mode_index: PolarizationModeIndex::from(p.polarization_mode),
            n_cells3,
            dt: p.dt.dup(),
            inv_dt: p.dt.recip(),
            inv_d: cell_size3.recip(),
            d: cell_size3,
            cell_count,
            problem_space_min: problem_space_min.to_3d(UVec3::splat(1)),
            problem_space_max: problem_space_max.to_3d(UVec3::splat(1)),
        };
        let count: usize = cell_count as usize;
        let r = FdtdLossyState {
            grid_params,
            t_idx: 0,
            h: zeroed_vector_field(count),
            dn: zeroed_vector_field(count),
            en: zeroed_vector_field(count),
            dipoles,
            plane_waves,
            tfsf_dispatch_data,
            source_vals,
            source_terms: zeroed_source_terms(count),
            int_terms: zeroed_integrals(count),
            grid_coeffs: grid_coeffs.coeffs,
            thread_count: [n_cells3.x, n_cells3.y, n_cells3.z],
            n_cells,
        };
        proof {
            lemma_plane_waves_ok(
                r.tfsf_dispatch_data,
                setup.pack(self.sources@, wave_vals, self.sources@.len()),
                r.grid_params,
                r.source_vals.len() as int,
            );
            let dipole_list = self.dipole_pack(sim_bb, n_cells).0;
            assert(r.dipoles@ =~= if dipole_list.len() > 0 {
                dipole_list
            } else {
                seq![GpuDipole::zero_spec()]
            });
            let wave_list = self.wave_pack(sim_bb, n_cells).0;
            assert(r.plane_waves@ =~= if wave_list.len() > 0 {
                wave_list
            } else {
                seq![GpuPlaneWave::zero_spec(self.dim())]
            });
            let vals = self.tfsf_pack(sim_bb, n_cells, *space).vals;
            assert(r.source_vals@ =~= if vals.len() > 0 {
                vals
            } else {
                seq![S::zero_spec()]
            });
        }
        r
    }

    /// The update coefficients of the cells of the grid.
    pub open spec fn coefficients<F: Fn(&G, &Vec3<S>, &Vec3<S>) -> bool>(
        self,
        bb: Aabb<S>,
        n_cells: GridIndex,
        contains: F,
        space: FreeSpace<S>,
    ) -> Seq<PmlCoefficients<S>> {
        Seq::new(
            n_cells.cell_count() as nat,
            |i: int|
                cell_coefficients(
                    self.dim(),
                    profiles(n_cells.cells3(), self.pml_parameters),
                    GridIndex::unflat(i, n_cells).cell3(),
                    self.material_grid(bb, n_cells, contains)[i],
                    self.fdtd_parameters.dt,
                    space,
                ),
        )
    }
}

/// The problem space holds the materials and the spacer regions around them, and nothing else: it
/// has their size along every spatial axis, and no cell of it lies on the boundary of the grid.
pub proof fn law_problem_space_holds_materials_and_spacers<S: Scalar, G>(
    sim: FdtdLossySimulation<S, G>,
    bb: Aabb<S>,
    stability: FdtdStability<S>,
    s: SpatialAxis,
    cell: UVec3,
)
    requires
        sim.layers_fit(bb, stability),
        s.of_dim(sim.dim()),
    ensures
        ({
            let grid = sim.grid_parameters(sim.n_cells_spec(bb, stability));
            &&& grid.problem_space_max.at(s.axis()) - grid.problem_space_min.at(s.axis()) + 1
                == sim.material_cells(bb).at(s.axis()) + stability.spacer_region_widths.total(
                s.axis(),
            )
            &&& grid.in_problem_space(cell) ==> grid.inner(cell)
        }),
{
    assert(SpatialAxis::X.of_dim(sim.dim()) ==> sim.layered_cells(bb, stability, Axis::X)
        <= u32::MAX);
    assert(SpatialAxis::Y.of_dim(sim.dim()) ==> sim.layered_cells(bb, stability, Axis::Y)
        <= u32::MAX);
    assert(SpatialAxis::Z.of_dim(sim.dim()) ==> sim.layered_cells(bb, stability, Axis::Z)
        <= u32::MAX);
}

} // verus!
