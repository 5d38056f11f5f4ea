//! Materials, and how they fill a grid.
use crate::axis::{spatial, Axis};
use crate::cells::{grid_cells_iter, listed_cell};
use crate::exact::{
    at, exact, exact_roots, lemma_distribute, lemma_product_sign, lemma_shift,
    lemma_times_divisor, lemma_unit, over, times,
};
use crate::geometry::{Aabb, Cuboid};
use crate::index::GridIndex;
use crate::nonzero::NonZeroU32;
use crate::scalar::Scalar;
use crate::vect::Vect;
use crate::vector::Vec3;
use vstd::prelude::*;

verus! {

/// Relative material properties
#[derive(Copy, Clone, Debug, PartialEq)]
pub struct ElectricMaterial<S> {
    /// Relative permittivity
    pub eps_r: Vec3<S>,
    /// Relative permeability
    pub mu_r: Vec3<S>,
    /// Conductivity of the material (S/m)
    pub sig: Vec3<S>,
}

impl<S: Scalar> ElectricMaterial<S> {
    pub open spec fn free_space_spec() -> Self {
        ElectricMaterial {
            eps_r: Vec3::splat_spec(S::one_spec()),
            mu_r: Vec3::splat_spec(S::one_spec()),
            sig: Vec3::splat_spec(S::zero_spec()),
        }
    }

    /// A material representing free space
    pub fn free_space() -> (r: Self)
        ensures
            r == Self::free_space_spec(),
    {
        ElectricMaterial {
            eps_r: Vec3::splat(&S::one()),
            mu_r: Vec3::splat(&S::one()),
            sig: Vec3::splat(&S::zero()),
        }
    }

    pub open spec fn zero_spec() -> Self {
        let zero = Vec3::splat_spec(S::zero_spec());
        ElectricMaterial { eps_r: zero, mu_r: zero, sig: zero }
    }

    /// An invalid electric material with all values set to zero
    pub fn zero() -> (r: Self)
        ensures
            r == Self::zero_spec(),
    {
        let zero: S = S::zero();
        ElectricMaterial {
            eps_r: Vec3::splat(&zero),
            mu_r: Vec3::splat(&zero),
            sig: Vec3::splat(&zero),
        }
    }

    pub fn dup(&self) -> (r: Self)
        ensures
            r == *self,
    {
        ElectricMaterial { eps_r: self.eps_r.dup(), mu_r: self.mu_r.dup(), sig: self.sig.dup() }
    }

    pub open spec fn refractive_index_spec(self) -> Vec3<S> {
        (self.eps_r * self.mu_r).sqrt_spec()
    }

    /// Compute refractive index on all axes
    pub fn refractive_index(&self) -> (r: Vec3<S>)
        ensures
            r == self.refractive_index_spec(),
    {
        self.eps_r.times(&self.mu_r).sqrt()
    }

    pub open spec fn spec_add(self, rhs: Self) -> Self {
        ElectricMaterial {
            eps_r: self.eps_r + rhs.eps_r,
            mu_r: self.mu_r + rhs.mu_r,
            sig: self.sig + rhs.sig,
        }
    }

    pub open spec fn divided_spec(self, k: S) -> Self {
        ElectricMaterial {
            eps_r: self.eps_r.divided_spec(k),
            mu_r: self.mu_r.divided_spec(k),
            sig: self.sig.divided_spec(k),
        }
    }
}

impl<S: Scalar> ElectricMaterial<S> {
    /// The sum of each two properties.
    pub fn plus(&self, rhs: &Self) -> (r: Self)
        ensures
            r == *self + *rhs,
    {
        ElectricMaterial {
            eps_r: self.eps_r.plus(&rhs.eps_r),
            mu_r: self.mu_r.plus(&rhs.mu_r),
            sig: self.sig.plus(&rhs.sig),
        }
    }

    /// Every property divided by `k`.
    pub fn divided(&self, k: &S) -> (r: Self)
        ensures
            r == self.divided_spec(*k),
    {
        ElectricMaterial {
            eps_r: self.eps_r.divided(k),
            mu_r: self.mu_r.divided(k),
            sig: self.sig.divided(k),
        }
    }
}

/// A region of space, given by a shape and where it stands, with the material in it.
#[derive(Copy, Clone, Debug)]
pub struct MaterialRegion<S, G> {
    pub geometry: G,
    pub material: ElectricMaterial<S>,
}

impl<S: Scalar, G> MaterialRegion<S, G> {
    pub fn new(geometry: G, material: ElectricMaterial<S>) -> (r: Self)
        ensures
            r.geometry == geometry,
            r.material == material,
    {
        MaterialRegion { geometry, material }
    }
}

/// Regions where a certain [`ElectricMaterial`] is present in a grid.
#[derive(Clone, Debug)]
pub struct MaterialRegions<S, G> {
    pub regions: Vec<MaterialRegion<S, G>>,
}

impl<S: Scalar, G> MaterialRegions<S, G> {
    pub fn new() -> (r: Self)
        ensures
            r.regions@ == Seq::<MaterialRegion<S, G>>::empty(),
    {
        MaterialRegions { regions: Vec::new() }
    }

    /// Fill a box-shaped region from `start` to `end`; `build` makes the shape of the box.
    pub fn fill_region<F: Fn(Cuboid<S>) -> G>(
        &mut self,
        start: &Vect<S>,
        end: &Vect<S>,
        material: ElectricMaterial<S>,
        build: F,
    ) -> (r: &mut Self)
        requires
            start.dim() == end.dim(),
            call_requires(build, (Cuboid::spanned(*start, *end),)),
        ensures
            r.regions.len() == old(self).regions.len() + 1,
            r.regions@.drop_last() == old(self).regions@,
            r.regions@.last().material == material,
            call_ensures(
                build,
                (Cuboid::spanned(*start, *end),),
                r.regions@.last().geometry,
            ),
            *final(self) == *final(r),
    {
        let geometry: G = build(Cuboid::span(start, end));
        self.regions.push(MaterialRegion::new(geometry, material));
        assert(self.regions@.drop_last() =~= old(self).regions@);
        self
    }

    /// The box around all regions; `aabb_of` gives the box around one.
    pub fn compute_bounding_box<F: Fn(&G) -> Aabb<S>>(&self, aabb_of: F) -> (r: Aabb<S>)
        requires
            encloses::<S, G, F>(aabb_of),
        ensures
            r == regions_box(self.regions@, aabb_of),
    {
        let mut full_bb: Aabb<S> = Aabb::new_invalid();
        let ghost boxes = boxes_of(self.regions@, aabb_of);
        for i in 0..self.regions.len()
            invariant
                encloses::<S, G, F>(aabb_of),
                boxes == boxes_of(self.regions@, aabb_of),
                full_bb == merged(Aabb::invalid_spec(), boxes, i as nat),
        {
            let geometry: &G = &self.regions[i].geometry;
            assert(call_requires(aabb_of, (geometry,)));
            let bb: Aabb<S> = aabb_of(geometry);
            assert(bb == box_of(aabb_of, *geometry));
            full_bb.merge(&bb);
        }
        full_bb
    }
}

impl<S: Scalar, G> Default for MaterialRegions<S, G> {
    /// No regions.
    fn default() -> (r: Self)
        ensures
            r.regions@ == Seq::<MaterialRegion<S, G>>::empty(),
    {
        MaterialRegions::new()
    }
}

/// `aabb_of` gives a box for every geometry, always the same.
pub open spec fn encloses<S: Scalar, G, F: Fn(&G) -> Aabb<S>>(aabb_of: F) -> bool {
    &&& forall|geometry: G| #[trigger] call_requires(aabb_of, (&geometry,))
    &&& forall|geometry: G, a: Aabb<S>, b: Aabb<S>| #[trigger]
        call_ensures(aabb_of, (&geometry,), a) && #[trigger] call_ensures(
            aabb_of,
            (&geometry,),
            b,
        ) ==> a == b
}

/// The box around a geometry.
pub open spec fn box_of<S: Scalar, G, F: Fn(&G) -> Aabb<S>>(aabb_of: F, geometry: G) -> Aabb<S> {
    choose|bb: Aabb<S>| call_ensures(aabb_of, (&geometry,), bb)
}

/// The boxes around the regions.
pub open spec fn boxes_of<S: Scalar, G, F: Fn(&G) -> Aabb<S>>(
    regions: Seq<MaterialRegion<S, G>>,
    aabb_of: F,
) -> Seq<Aabb<S>> {
    Seq::new(regions.len(), |i: int| box_of(aabb_of, regions[i].geometry))
}

/// The box around all regions.
pub open spec fn regions_box<S: Scalar, G, F: Fn(&G) -> Aabb<S>>(
    regions: Seq<MaterialRegion<S, G>>,
    aabb_of: F,
) -> Aabb<S> {
    merged(Aabb::invalid_spec(), boxes_of(regions, aabb_of), regions.len())
}

/// `bb` enlarged to contain the first `k` boxes.
pub open spec fn merged<S: Scalar>(bb: Aabb<S>, boxes: Seq<Aabb<S>>, k: nat) -> Aabb<S>
    decreases k,
{
    if k == 0 {
        bb
    } else {
        merged(bb, boxes, (k - 1) as nat).merged_spec(boxes[k - 1])
    }
}

/// The materials in a Yee Grid.
#[derive(Clone, Debug)]
pub struct YeeGridMaterials<S> {
    pub n_cells: GridIndex,
    pub cell_size: Vect<S>,
    pub materials: Vec<ElectricMaterial<S>>,
    /// The material applied to cells that don't intersect with any material regions.
    pub default_mat: ElectricMaterial<S>,
    /// The translation applied to all regions to center them on this grid.
    pub sim_offset: Vec3<S>,
}

/// A region with the given geometry, moved by `offset`, contains the point.
pub open spec fn inside<S: Scalar, G, F: Fn(&G, &Vec3<S>, &Vec3<S>) -> bool>(
    contains: F,
    geometry: G,
    offset: Vec3<S>,
    pt: Vec3<S>,
) -> bool {
    call_ensures(contains, (&geometry, &offset, &pt), true)
}

/// `contains` answers for every region and every point, always in the same way.
pub open spec fn decides<S: Scalar, G, F: Fn(&G, &Vec3<S>, &Vec3<S>) -> bool>(contains: F) -> bool {
    forall|geometry: G, offset: Vec3<S>, pt: Vec3<S>| #[trigger]
        call_requires(contains, (&geometry, &offset, &pt)) && !(call_ensures(
            contains,
            (&geometry, &offset, &pt),
            true,
        ) && call_ensures(contains, (&geometry, &offset, &pt), false))
}

/// The material at a point: that of the first region from `k` on that contains it, or the default.
pub open spec fn material_at<S: Scalar, G, F: Fn(&G, &Vec3<S>, &Vec3<S>) -> bool>(
    regions: Seq<MaterialRegion<S, G>>,
    contains: F,
    offset: Vec3<S>,
    pt: Vec3<S>,
    default_mat: ElectricMaterial<S>,
    k: nat,
) -> ElectricMaterial<S>
    decreases regions.len() - k,
{
    if k >= regions.len() {
        default_mat
    } else if inside(contains, regions[k as int].geometry, offset, pt) {
        regions[k as int].material
    } else {
        material_at(regions, contains, offset, pt, default_mat, k + 1)
    }
}

fn find_material<'a, S: Scalar, G, F: Fn(&G, &Vec3<S>, &Vec3<S>) -> bool>(
    regions: &'a Vec<MaterialRegion<S, G>>,
    contains: &F,
    offset: &Vec3<S>,
    pt: &Vec3<S>,
    default_mat: &'a ElectricMaterial<S>,
) -> (r: &'a ElectricMaterial<S>)
    requires
        decides::<S, G, F>(*contains),
    ensures
        *r == material_at(regions@, *contains, *offset, *pt, *default_mat, 0),
{
    let mut i: usize = 0;
    while i < regions.len()
        invariant
            i <= regions.len(),
            decides::<S, G, F>(*contains),
            material_at(regions@, *contains, *offset, *pt, *default_mat, 0) == material_at(
                regions@,
                *contains,
                *offset,
                *pt,
                *default_mat,
                i as nat,
            ),
        decreases regions.len() - i,
    {
        assert(call_requires(*contains, (&regions[i as int].geometry, offset, pt)));
        if contains(&regions[i].geometry, offset, pt) {
            return &regions[i].material;
        }
        i = i + 1;
    }
    default_mat
}

/// Spatial offset of each component in the Dn field at each cell, in half cells.
pub open spec fn dn_offset<S: Scalar>(i: int) -> Vec3<S> {
    let (zero, one) = (S::zero_spec(), S::one_spec());
    if i == 0 {
        Vec3 { x: one, y: zero, z: zero }
    } else if i == 1 {
        Vec3 { x: zero, y: one, z: zero }
    } else {
        Vec3 { x: zero, y: zero, z: one }
    }
}

/// Spatial offset of each component in the H field at each cell, in half cells.
pub open spec fn h_offset<S: Scalar>(i: int) -> Vec3<S> {
    let (zero, one) = (S::zero_spec(), S::one_spec());
    if i == 0 {
        Vec3 { x: zero, y: one, z: one }
    } else if i == 1 {
        Vec3 { x: one, y: zero, z: one }
    } else {
        Vec3 { x: one, y: one, z: zero }
    }
}

impl<S: Scalar> YeeGridMaterials<S> {
    /// There is a material for every cell.
    pub open spec fn wf(self) -> bool {
        &&& self.n_cells.dim() == self.cell_size.dim()
        &&& self.n_cells.cell_count() <= u32::MAX
        &&& self.materials.len() == self.n_cells.cell_count()
    }

    /// Spatial offset of each component in the Dn field at each cell
    pub fn dn_offsets() -> (r: [Vec3<S>; 3])
        ensures
            r[0] == dn_offset::<S>(0),
            r[1] == dn_offset::<S>(1),
            r[2] == dn_offset::<S>(2),
    {
        [
            Vec3 { x: S::one(), y: S::zero(), z: S::zero() },
            Vec3 { x: S::zero(), y: S::one(), z: S::zero() },
            Vec3 { x: S::zero(), y: S::zero(), z: S::one() },
        ]
    }

    /// Spatial offset of each component in the H field at each cell
    pub fn h_offsets() -> (r: [Vec3<S>; 3])
        ensures
            r[0] == h_offset::<S>(0),
            r[1] == h_offset::<S>(1),
            r[2] == h_offset::<S>(2),
    {
        [
            Vec3 { x: S::zero(), y: S::one(), z: S::one() },
            Vec3 { x: S::one(), y: S::zero(), z: S::one() },
            Vec3 { x: S::one(), y: S::one(), z: S::zero() },
        ]
    }

    /// The translation that moves the middle of the simulation to the middle of the grid, along the
    /// spatial axes only.
    pub open spec fn simulation_offset(
        simulation_bb: Aabb<S>,
        n_cells: GridIndex,
        cell_size: Vect<S>,
    ) -> Vec3<S> {
        let grid_center = (n_cells.as_vect_spec::<S>() * cell_size).divided_spec(S::of_nat_spec(2));
        let sim_center = Vect::from_vec3_spec(n_cells.dim(), simulation_bb.center_spec());
        (grid_center - sim_center).to_3d_spec(Vec3::splat_spec(S::zero_spec()))
    }

    /// The translation that moves the middle of the simulation to the middle of the grid, along the
    /// spatial axes only.
    pub fn compute_simulation_offset(
        simulation_bb: &Aabb<S>,
        n_cells: GridIndex,
        cell_size: &Vect<S>,
    ) -> (r: Vec3<S>)
        requires
            n_cells.dim() == cell_size.dim(),
        ensures
            r == Self::simulation_offset(*simulation_bb, n_cells, *cell_size),
    {
        let n: Vect<S> = n_cells.as_vect();
        let grid_center: Vect<S> = n.times(cell_size).divided(&S::of_nat(2));
        let sim_center: Vect<S> = Vect::from_vec3(n_cells.get_dim(), &simulation_bb.center());
        grid_center.minus(&sim_center).to_3d(&Vec3::splat(&S::zero()))
    }

    /// Where a component with the given offset of the cell that is stored at `i` is.
    pub open spec fn sample_point(
        n_cells: GridIndex,
        cell_size: Vect<S>,
        i: int,
        offset: Vec3<S>,
    ) -> Vec3<S> {
        let zero = Vec3::splat_spec(S::zero_spec());
        let pos = (GridIndex::unflat(i, n_cells).as_vect_spec::<S>() * cell_size).to_3d_spec(zero);
        let half_cell = cell_size.divided_spec(S::of_nat_spec(2)).to_3d_spec(zero);
        pos + offset * half_cell
    }

    /// The material of the cell that is stored at `i`: each property of a component is that of the
    /// material at the component's own place.
    pub open spec fn sampled<G, F: Fn(&G, &Vec3<S>, &Vec3<S>) -> bool>(
        n_cells: GridIndex,
        cell_size: Vect<S>,
        sim_offset: Vec3<S>,
        regions: Seq<MaterialRegion<S, G>>,
        contains: F,
        default_mat: ElectricMaterial<S>,
        i: int,
    ) -> ElectricMaterial<S> {
        let mat = |offset: Vec3<S>|
            material_at(
                regions,
                contains,
                sim_offset,
                Self::sample_point(n_cells, cell_size, i, offset),
                default_mat,
                0,
            );
        ElectricMaterial {
            eps_r: Vec3 {
                x: mat(dn_offset(0)).eps_r.x,
                y: mat(dn_offset(1)).eps_r.y,
                z: mat(dn_offset(2)).eps_r.z,
            },
            mu_r: Vec3 {
                x: mat(h_offset(0)).mu_r.x,
                y: mat(h_offset(1)).mu_r.y,
                z: mat(h_offset(2)).mu_r.z,
            },
            sig: Vec3 {
                x: mat(dn_offset(0)).sig.x,
                y: mat(dn_offset(1)).sig.y,
                z: mat(dn_offset(2)).sig.z,
            },
        }
    }

    /// The materials of all cells of a grid.
    pub open spec fn sampled_materials<G, F: Fn(&G, &Vec3<S>, &Vec3<S>) -> bool>(
        n_cells: GridIndex,
        cell_size: Vect<S>,
        sim_offset: Vec3<S>,
        regions: Seq<MaterialRegion<S, G>>,
        contains: F,
        default_mat: ElectricMaterial<S>,
    ) -> Seq<ElectricMaterial<S>> {
        Seq::new(
            n_cells.cell_count() as nat,
            |i: int|
                Self::sampled(n_cells, cell_size, sim_offset, regions, contains, default_mat, i),
        )
    }

    /// Compute a material grid with the dimensions of `n_cells` by sampling material regions.
    ///
    /// # How it Works
    /// First, the grid is moved **only along the spatial axes** in a way that puts its center at the
    /// middle of all regions.
    /// Then point-intersection tests are done for each vector component's physical position:
    /// `contains` says whether a region, moved by a translation, contains a point.
    /// Components that don't intersect with any regions are assigned `default_mat`.
    ///
    /// Since grid centering only happens along spatial axes, whether a region is in the grid will
    /// depend on the dimension:
    /// - 1D: Only when intersecting w/ Z axis
    /// - 2D: Only when intersecting w/ X-Y plane
    /// - 3D: Grid of size `n_cells` is centered at the middle of a bounding box encapsulating all
    ///   regions. Whatever parts of regions that are inside the grid at this location are included.
    pub fn new_material_grid<G, F: Fn(&G, &Vec3<S>, &Vec3<S>) -> bool>(
        n_cells: GridIndex,
        cell_size: &Vect<S>,
        simulation_bb: &Aabb<S>,
        regions: &MaterialRegions<S, G>,
        contains: F,
        default_mat: &ElectricMaterial<S>,
    ) -> (r: Self)
        requires
            n_cells.dim() == cell_size.dim(),
            n_cells.cell_count() <= u32::MAX,
            n_cells.cells3().x * n_cells.cells3().y <= u32::MAX,
            decides::<S, G, F>(contains),
        ensures
            r.wf(),
            r.n_cells == n_cells,
            r.cell_size == *cell_size,
            r.default_mat == *default_mat,
            r.sim_offset == Self::simulation_offset(*simulation_bb, n_cells, *cell_size),
            r.materials@ == Self::sampled_materials(
                n_cells,
                *cell_size,
                r.sim_offset,
                regions.regions@,
                contains,
                *default_mat,
            ),
    {
        let cell_count: u32 = n_cells.element_product();
        let sim_offset: Vec3<S> = Self::compute_simulation_offset(
            simulation_bb,
            n_cells,
            cell_size,
        );
        let rs: &Vec<MaterialRegion<S, G>> = &regions.regions;
        let zero: Vec3<S> = Vec3::splat(&S::zero());
        let half_cell: Vec3<S> = cell_size.divided(&S::of_nat(2)).to_3d(&zero);
        let dn = Self::dn_offsets();
        let h = Self::h_offsets();
        let dn0: Vec3<S> = dn[0].times(&half_cell);
        let dn1: Vec3<S> = dn[1].times(&half_cell);
        let dn2: Vec3<S> = dn[2].times(&half_cell);
        let h0: Vec3<S> = h[0].times(&half_cell);
        let h1: Vec3<S> = h[1].times(&half_cell);
        let h2: Vec3<S> = h[2].times(&half_cell);

        let mut materials: Vec<ElectricMaterial<S>> = Vec::new();
        for i in 0..cell_count
            invariant
                n_cells.dim() == cell_size.dim(),
                n_cells.cell_count() <= u32::MAX,
                cell_count == n_cells.cell_count(),
                rs == regions.regions,
                decides::<S, G, F>(contains),
                zero == Vec3::splat_spec(S::zero_spec()),
                half_cell == cell_size.divided_spec(S::of_nat_spec(2)).to_3d_spec(zero),
                dn0 == dn_offset::<S>(0) * half_cell,
                dn1 == dn_offset::<S>(1) * half_cell,
                dn2 == dn_offset::<S>(2) * half_cell,
                h0 == h_offset::<S>(0) * half_cell,
                h1 == h_offset::<S>(1) * half_cell,
                h2 == h_offset::<S>(2) * half_cell,
                materials.len() == i,
                forall|j: int|
                    0 <= j < materials.len() ==> #[trigger] materials[j] == Self::sampled(
                        n_cells,
                        *cell_size,
                        sim_offset,
                        regions.regions@,
                        contains,
                        *default_mat,
                        j,
                    ),
        {
            proof {
                lemma_nonempty_grid(n_cells);
            }
            let grid_idx: GridIndex = GridIndex::from_flat_idx(i, n_cells);
            let cell: Vect<S> = grid_idx.as_vect();
            let pos: Vec3<S> = cell.times(cell_size).to_3d(&zero);
            let m0 = find_material(rs, &contains, &sim_offset, &pos.plus(&dn0), default_mat);
            let m1 = find_material(rs, &contains, &sim_offset, &pos.plus(&dn1), default_mat);
            let m2 = find_material(rs, &contains, &sim_offset, &pos.plus(&dn2), default_mat);
            let n0 = find_material(rs, &contains, &sim_offset, &pos.plus(&h0), default_mat);
            let n1 = find_material(rs, &contains, &sim_offset, &pos.plus(&h1), default_mat);
            let n2 = find_material(rs, &contains, &sim_offset, &pos.plus(&h2), default_mat);
            let mat = ElectricMaterial {
                eps_r: Vec3 { x: m0.eps_r.x.dup(), y: m1.eps_r.y.dup(), z: m2.eps_r.z.dup() },
                mu_r: Vec3 { x: n0.mu_r.x.dup(), y: n1.mu_r.y.dup(), z: n2.mu_r.z.dup() },
                sig: Vec3 { x: m0.sig.x.dup(), y: m1.sig.y.dup(), z: m2.sig.z.dup() },
            };
            assert(mat == Self::sampled(
                n_cells,
                *cell_size,
                sim_offset,
                regions.regions@,
                contains,
                *default_mat,
                i as int,
            ));
            materials.push(mat);
        }
        assert(materials@ =~= Self::sampled_materials(
            n_cells,
            *cell_size,
            sim_offset,
            regions.regions@,
            contains,
            *default_mat,
        ));
        YeeGridMaterials {
            n_cells,
            cell_size: cell_size.dup(),
            materials,
            default_mat: default_mat.dup(),
            sim_offset,
        }
    }
}

/// A grid with a cell has no dimension of zero, and a layer of it can be counted.
pub proof fn lemma_nonempty_grid(n: GridIndex)
    requires
        0 < n.cell_count() <= u32::MAX,
    ensures
        n.nonzero(),
        n.cells3().x * n.cells3().y <= n.cell_count(),
        n matches GridIndex::Three(nx, ny, _) ==> nx * ny <= u32::MAX,
{
    let c = n.cells3();
    assert(c.x > 0 && c.y > 0 && c.z > 0) by (nonlinear_arith)
        requires
            c.x * c.y * c.z > 0,
    ;
    assert(c.x * c.y <= c.x * c.y * c.z) by (nonlinear_arith)
        requires
            c.x > 0,
            c.y > 0,
            c.z > 0,
    ;
}

/// The sum of the materials of the first `k` cells of a block, and how many of these cells are in
/// the grid. The block starts at `base` and has `factor` cells along each axis.
pub open spec fn block_sum<S: Scalar>(
    n_cells: GridIndex,
    materials: Seq<ElectricMaterial<S>>,
    base: GridIndex,
    factor: u32,
    k: nat,
) -> (ElectricMaterial<S>, int)
    decreases k,
{
    if k == 0 {
        (ElectricMaterial::zero_spec(), 0)
    } else {
        let (sum, count) = block_sum(n_cells, materials, base, factor, (k - 1) as nat);
        let c = base.plus_spec(listed_cell(k - 1, GridIndex::splat_spec(base.dim(), factor)));
        if c.cell_of(n_cells) {
            (sum + materials[c.flat(n_cells)], count + 1)
        } else {
            (sum, count)
        }
    }
}

/// The average material of a block.
pub open spec fn block_average<S: Scalar>(
    n_cells: GridIndex,
    materials: Seq<ElectricMaterial<S>>,
    base: GridIndex,
    factor: u32,
) -> ElectricMaterial<S> {
    let (sum, count) = block_sum(
        n_cells,
        materials,
        base,
        factor,
        GridIndex::splat_spec(base.dim(), factor).cell_count() as nat,
    );
    sum.divided_spec(S::of_nat_spec(count as u32))
}

/// The materials of a grid with `factor` times fewer cells along each axis.
pub open spec fn downscaled_materials<S: Scalar>(
    n_cells: GridIndex,
    materials: Seq<ElectricMaterial<S>>,
    factor: u32,
) -> Seq<ElectricMaterial<S>> {
    let coarse = downscaled_cells(n_cells, factor);
    Seq::new(
        coarse.cell_count() as nat,
        |i: int|
            block_average(
                n_cells,
                materials,
                GridIndex::unflat(i, coarse).times_spec(factor as int),
                factor,
            ),
    )
}

/// A grid with `factor` times fewer cells along each axis, and the blocks that its cells stand for,
/// can be counted.
pub open spec fn downscale_fits(n_cells: GridIndex, factor: u32) -> bool {
    let coarse = downscaled_cells(n_cells, factor);
    &&& factor != 0
    &&& GridIndex::splat_spec(n_cells.dim(), factor).cell_count() <= u32::MAX
    &&& coarse.cell_count() <= u32::MAX
    &&& coarse.cells3().x * coarse.cells3().y <= u32::MAX
    &&& coarse.times_fits(factor as int)
}

/// The dimensions of a grid whose cells are blocks of `factor` cells along each axis.
pub open spec fn downscaled_cells(n: GridIndex, factor: u32) -> GridIndex {
    n.div_ceil_spec(GridIndex::splat_spec(n.dim(), factor))
}

impl<S: Scalar> YeeGridMaterials<S> {
    /// Constructs a lower-resolution version of this grid. Resolution is reduced by a factor of
    /// `downscale_factor` using a box filter to smooth out values.
    pub fn downscaled(&self, downscale_factor: NonZeroU32) -> (r: YeeGridMaterials<S>)
        requires
            self.wf(),
            downscale_fits(self.n_cells, downscale_factor@),
        ensures
            r.wf(),
            r.n_cells == downscaled_cells(self.n_cells, downscale_factor@),
            r.cell_size == self.cell_size.scaled_spec(S::of_nat_spec(downscale_factor@)),
            r.default_mat == self.default_mat,
            r.sim_offset == self.sim_offset,
            r.materials@ == downscaled_materials(self.n_cells, self.materials@, downscale_factor@),
    {
        let f: u32 = downscale_factor.get();
        let dim = self.n_cells.get_dim();
        let n_cells: GridIndex = self.n_cells.div_ceil(GridIndex::splat(dim, f));
        let cell_size: Vect<S> = self.cell_size.scaled(&S::of_nat(f));
        let cell_count: u32 = n_cells.element_product();
        let kernel_cells: Vec<GridIndex> = grid_cells_iter(GridIndex::splat(dim, f));
        let mut materials: Vec<ElectricMaterial<S>> = Vec::new();
        for i in 0..cell_count
            invariant
                self.wf(),
                f == downscale_factor@,
                f != 0,
                dim == self.n_cells.dim(),
                n_cells == downscaled_cells(self.n_cells, f),
                n_cells.dim() == dim,
                cell_count == n_cells.cell_count(),
                n_cells.cell_count() <= u32::MAX,
                n_cells.times_fits(f as int),
                GridIndex::splat_spec(dim, f).cell_count() <= u32::MAX,
                kernel_cells.len() == GridIndex::splat_spec(dim, f).cell_count(),
                forall|k: int|
                    0 <= k < kernel_cells.len() ==> #[trigger] kernel_cells[k] == listed_cell(
                        k,
                        GridIndex::splat_spec(dim, f),
                    ),
                materials.len() == i,
                forall|j: int|
                    0 <= j < materials.len() ==> #[trigger] materials[j] == block_average(
                        self.n_cells,
                        self.materials@,
                        GridIndex::unflat(j, n_cells).times_spec(f as int),
                        f,
                    ),
        {
            proof {
                lemma_nonempty_grid(n_cells);
                crate::index::law_flat_to_cell_and_back(i as int, n_cells);
                lemma_block_base_fits(GridIndex::unflat(i as int, n_cells), n_cells, f);
            }
            let idx: GridIndex = GridIndex::from_flat_idx(i, n_cells).times(f);
            let mut mat_sum: ElectricMaterial<S> = ElectricMaterial::zero();
            let mut n_sums: u32 = 0;
            for k in 0..kernel_cells.len()
                invariant
                    self.wf(),
                    dim == self.n_cells.dim(),
                    idx.dim() == dim,
                    idx.plus_fits(GridIndex::splat_spec(dim, f)),
                    kernel_cells.len() == GridIndex::splat_spec(dim, f).cell_count(),
                    kernel_cells.len() <= u32::MAX,
                    forall|k: int|
                        0 <= k < kernel_cells.len() ==> #[trigger] kernel_cells[k] == listed_cell(
                            k,
                            GridIndex::splat_spec(dim, f),
                        ),
                    (mat_sum, n_sums as int) == block_sum(
                        self.n_cells,
                        self.materials@,
                        idx,
                        f,
                        k as nat,
                    ),
                    n_sums <= k,
            {
                let kernel = kernel_cells[k];
                proof {
                    crate::cells::law_grid_cells_are_listed_once(
                        kernel,
                        GridIndex::splat_spec(dim, f),
                        k as int,
                    );
                    assert(idx.plus_fits(kernel));
                }
                let k_idx: GridIndex = idx.plus(kernel);
                let k_idx3 = k_idx.cell_idx_to_3d();
                if k_idx3.all_below(&self.n_cells.n_cells_to_3d()) {
                    proof {
                        crate::index::lemma_flat3_bounds(k_idx.cell3(), self.n_cells.cells3());
                    }
                    let k_i: usize = k_idx.to_flat_idx(self.n_cells) as usize;
                    mat_sum = mat_sum.plus(&self.materials[k_i]);
                    n_sums = n_sums + 1;
                }
            }
            materials.push(mat_sum.divided(&S::of_nat(n_sums)));
        }
        assert(materials@ =~= downscaled_materials(self.n_cells, self.materials@, f));
        YeeGridMaterials {
            n_cells,
            cell_size,
            materials,
            default_mat: self.default_mat.dup(),
            sim_offset: self.sim_offset.dup(),
        }
    }
}

/// A block that starts at a cell of the coarse grid ends where indices can still be counted.
proof fn lemma_block_base_fits(c: GridIndex, n: GridIndex, f: u32)
    requires
        c.cell_of(n),
        n.times_fits(f as int),
    ensures
        c.times_fits(f as int),
        c.times_spec(f as int).plus_fits(GridIndex::splat_spec(c.dim(), f)),
{
    let (c3, n3) = (c.cell3(), n.cells3());
    let (cx, nx, cy, ny, cz, nz) = (c3.x, n3.x, c3.y, n3.y, c3.z, n3.z);
    assert(cx * f + f <= nx * f) by (nonlinear_arith)
        requires
            cx < nx,
            f >= 0,
    ;
    assert(cy * f + f <= ny * f) by (nonlinear_arith)
        requires
            cy < ny,
            f >= 0,
    ;
    assert(cz * f + f <= nz * f) by (nonlinear_arith)
        requires
            cz < nz,
            f >= 0,
    ;
    assert(0 <= cx * f && 0 <= cy * f && 0 <= cz * f) by (nonlinear_arith);
}

/// The block of the downscaled grid that a cell belongs to.
pub open spec fn block_of(c: GridIndex, f: u32) -> GridIndex {
    match c {
        GridIndex::One(z) => GridIndex::One(z / f),
        GridIndex::Two(x, y) => GridIndex::Two(x / f, y / f),
        GridIndex::Three(x, y, z) => GridIndex::Three(x / f, y / f, z / f),
    }
}

/// Where in its block a cell stands.
pub open spec fn rest_of(c: GridIndex, f: u32) -> GridIndex {
    match c {
        GridIndex::One(z) => GridIndex::One(z % f),
        GridIndex::Two(x, y) => GridIndex::Two(x % f, y % f),
        GridIndex::Three(x, y, z) => GridIndex::Three(x % f, y % f, z % f),
    }
}

proof fn lemma_block_along(c: u32, n: u32, f: u32)
    requires
        f > 0,
        c < n,
    ensures
        c / f < crate::index::ceil_div(n, f),
        (c / f) * f + c % f == c,
        c % f < f,
{
    let (c, n, f) = (c as int, n as int, f as int);
    vstd::arithmetic::div_mod::lemma_fundamental_div_mod(c, f);
    vstd::arithmetic::div_mod::lemma_div_is_ordered(c, n - 1, f);
    vstd::arithmetic::div_mod::lemma_div_plus_one(n - 1, f);
    assert(f * (c / f) == (c / f) * f) by (nonlinear_arith);
    vstd::arithmetic::div_mod::lemma_div_is_ordered_by_denominator(n - 1, 1, f);
    assert(n - 1 + f == n + f - 1);
    assert((n - 1) / 1 == n - 1);
}

proof fn lemma_base_along(b: u32, n: u32, f: u32)
    requires
        f > 0,
        b < crate::index::ceil_div(n, f),
    ensures
        b * f < n,
{
    let (b, n, f) = (b as int, n as int, f as int);
    if n == 0 {
        vstd::arithmetic::div_mod::lemma_basic_div(f - 1, f);
        assert(0 + f - 1 == f - 1);
    } else {
        vstd::arithmetic::div_mod::lemma_div_plus_one(n - 1, f);
        assert(n - 1 + f == n + f - 1);
        vstd::arithmetic::div_mod::lemma_div_is_ordered_by_denominator(n - 1, 1, f);
        assert((n - 1) / 1 == n - 1);
        vstd::arithmetic::div_mod::lemma_fundamental_div_mod(n - 1, f);
        let q = (n - 1) / f;
        assert(b * f < n) by (nonlinear_arith)
            requires
                b <= q,
                n - 1 == f * q + (n - 1) % f,
                0 <= (n - 1) % f,
                f > 0,
        ;
    }
}

/// The blocks of a downscaled grid divide the cells among them: every cell belongs to a block of the
/// coarse grid, and no block is empty, because the cell it starts at is in the grid.
pub proof fn law_blocks_cover_the_grid(c: GridIndex, b: GridIndex, n: GridIndex, f: u32)
    requires
        f > 0,
    ensures
        c.cell_of(n) ==> {
            &&& block_of(c, f).cell_of(downscaled_cells(n, f))
            &&& rest_of(c, f).cell_of(GridIndex::splat_spec(n.dim(), f))
            &&& block_of(c, f).times_spec(f as int).plus_spec(rest_of(c, f)) == c
        },
        b.cell_of(downscaled_cells(n, f)) ==> b.times_spec(f as int).cell_of(n),
{
    let (c3, b3, n3) = (c.cell3(), b.cell3(), n.cells3());
    if c.cell_of(n) {
        lemma_block_along(c3.x, n3.x, f);
        lemma_block_along(c3.y, n3.y, f);
        lemma_block_along(c3.z, n3.z, f);
    }
    if b.cell_of(downscaled_cells(n, f)) {
        match (b, n) {
            (GridIndex::One(bz), GridIndex::One(nz)) => {
                lemma_base_along(bz, nz, f);
            },
            (GridIndex::Two(bx, by_), GridIndex::Two(nx, ny)) => {
                lemma_base_along(bx, nx, f);
                lemma_base_along(by_, ny, f);
                assert(0 <= bx * f && 0 <= by_ * f) by (nonlinear_arith);
            },
            (GridIndex::Three(bx, by_, bz), GridIndex::Three(nx, ny, nz)) => {
                lemma_base_along(bx, nx, f);
                lemma_base_along(by_, ny, f);
                lemma_base_along(bz, nz, f);
                assert(0 <= bx * f && 0 <= by_ * f && 0 <= bz * f) by (nonlinear_arith);
            },
            _ => {},
        }
        if let GridIndex::One(bz) = b {
            assert(0 <= bz * f) by (nonlinear_arith);
        }
    }
}

/// A point gets the material of the first region that contains it, and the default where none does.
pub proof fn law_first_region_decides<S: Scalar, G, F: Fn(&G, &Vec3<S>, &Vec3<S>) -> bool>(
    regions: Seq<MaterialRegion<S, G>>,
    contains: F,
    offset: Vec3<S>,
    pt: Vec3<S>,
    default_mat: ElectricMaterial<S>,
    k: nat,
)
    requires
        k <= regions.len(),
        forall|j: int|
            0 <= j < k ==> !inside(contains, (#[trigger] regions[j]).geometry, offset, pt),
    ensures
        k == regions.len() ==> material_at(regions, contains, offset, pt, default_mat, 0)
            == default_mat,
        k < regions.len() && inside(contains, regions[k as int].geometry, offset, pt)
            ==> material_at(regions, contains, offset, pt, default_mat, 0)
            == regions[k as int].material,
{
    lemma_skipped_regions(regions, contains, offset, pt, default_mat, 0, k);
}

/// Regions that do not contain a point do not decide.
proof fn lemma_skipped_regions<S: Scalar, G, F: Fn(&G, &Vec3<S>, &Vec3<S>) -> bool>(
    regions: Seq<MaterialRegion<S, G>>,
    contains: F,
    offset: Vec3<S>,
    pt: Vec3<S>,
    default_mat: ElectricMaterial<S>,
    from: nat,
    k: nat,
)
    requires
        from <= k <= regions.len(),
        forall|j: int|
            from <= j < k ==> !inside(contains, (#[trigger] regions[j]).geometry, offset, pt),
    ensures
        material_at(regions, contains, offset, pt, default_mat, from) == material_at(
            regions,
            contains,
            offset,
            pt,
            default_mat,
            k,
        ),
    decreases k - from,
{
    if from < k {
        assert(!inside(contains, regions[from as int].geometry, offset, pt));
        lemma_skipped_regions(regions, contains, offset, pt, default_mat, from + 1, k);
    }
}

/// The place of a component of the cell `c`: half a cell along each of the axes that `half` names.
pub open spec fn component_place<S: Scalar>(
    n_cells: GridIndex,
    cell_size: Vect<S>,
    i: int,
    half: (bool, bool, bool),
) -> Vec3<S> {
    let steps = |on: bool|
        if on {
            S::one_spec()
        } else {
            S::zero_spec()
        };
    YeeGridMaterials::sample_point(
        n_cells,
        cell_size,
        i,
        Vec3 { x: steps(half.0), y: steps(half.1), z: steps(half.2) },
    )
}

/// The places of the D components are half a cell along one axis, those of the H components along
/// two.
pub open spec fn is_component(half: (bool, bool, bool)) -> bool {
    half != (false, false, false) && half != (true, true, true)
}

/// A cell that lies in one region with all its components has that region's material, in
/// permittivity, permeability and conductivity alike.
pub proof fn law_cell_in_a_region_has_its_material<
    S: Scalar,
    G,
    F: Fn(&G, &Vec3<S>, &Vec3<S>) -> bool,
>(
    n_cells: GridIndex,
    cell_size: Vect<S>,
    sim_offset: Vec3<S>,
    regions: Seq<MaterialRegion<S, G>>,
    contains: F,
    default_mat: ElectricMaterial<S>,
    i: int,
    k: int,
)
    requires
        0 <= i < n_cells.cell_count(),
        0 <= k < regions.len(),
        forall|half: (bool, bool, bool)| #[trigger]
            is_component(half) ==> inside(
                contains,
                regions[k].geometry,
                sim_offset,
                component_place(n_cells, cell_size, i, half),
            ),
        forall|half: (bool, bool, bool), j: int|
            #![trigger is_component(half), regions[j]]
            is_component(half) && 0 <= j < k ==> !inside(
                contains,
                regions[j].geometry,
                sim_offset,
                component_place(n_cells, cell_size, i, half),
            ),
    ensures
        YeeGridMaterials::sampled_materials(
            n_cells,
            cell_size,
            sim_offset,
            regions,
            contains,
            default_mat,
        )[i] == regions[k].material,
{
    assert forall|half: (bool, bool, bool)| is_component(half) implies #[trigger] material_at(
        regions,
        contains,
        sim_offset,
        component_place(n_cells, cell_size, i, half),
        default_mat,
        0,
    ) == regions[k].material by {
        law_first_region_decides(
            regions,
            contains,
            sim_offset,
            component_place(n_cells, cell_size, i, half),
            default_mat,
            k as nat,
        );
    }
    lemma_component_places(n_cells, cell_size, i);
}

/// A cell that no region contains a component of has the default material.
pub proof fn law_cell_outside_all_regions_has_the_default<
    S: Scalar,
    G,
    F: Fn(&G, &Vec3<S>, &Vec3<S>) -> bool,
>(
    n_cells: GridIndex,
    cell_size: Vect<S>,
    sim_offset: Vec3<S>,
    regions: Seq<MaterialRegion<S, G>>,
    contains: F,
    default_mat: ElectricMaterial<S>,
    i: int,
)
    requires
        0 <= i < n_cells.cell_count(),
        forall|half: (bool, bool, bool), j: int|
            #![trigger is_component(half), regions[j]]
            is_component(half) && 0 <= j < regions.len() ==> !inside(
                contains,
                regions[j].geometry,
                sim_offset,
                component_place(n_cells, cell_size, i, half),
            ),
    ensures
        YeeGridMaterials::sampled_materials(
            n_cells,
            cell_size,
            sim_offset,
            regions,
            contains,
            default_mat,
        )[i] == default_mat,
{
    assert forall|half: (bool, bool, bool)| is_component(half) implies #[trigger] material_at(
        regions,
        contains,
        sim_offset,
        component_place(n_cells, cell_size, i, half),
        default_mat,
        0,
    ) == default_mat by {
        law_first_region_decides(
            regions,
            contains,
            sim_offset,
            component_place(n_cells, cell_size, i, half),
            default_mat,
            regions.len(),
        );
    }
    lemma_component_places(n_cells, cell_size, i);
}

/// The places at which a cell is sampled are those of its components.
proof fn lemma_component_places<S: Scalar>(n_cells: GridIndex, cell_size: Vect<S>, i: int)
    ensures
        ({
            let place = |half: (bool, bool, bool)| component_place(n_cells, cell_size, i, half);
            let sample = |offset: Vec3<S>|
                YeeGridMaterials::sample_point(n_cells, cell_size, i, offset);
            &&& is_component((true, false, false)) && place((true, false, false)) == sample(
                dn_offset(0),
            )
            &&& is_component((false, true, false)) && place((false, true, false)) == sample(
                dn_offset(1),
            )
            &&& is_component((false, false, true)) && place((false, false, true)) == sample(
                dn_offset(2),
            )
            &&& is_component((false, true, true)) && place((false, true, true)) == sample(
                h_offset(0),
            )
            &&& is_component((true, false, true)) && place((true, false, true)) == sample(
                h_offset(1),
            )
            &&& is_component((true, true, false)) && place((true, true, false)) == sample(
                h_offset(2),
            )
        }),
{
}

/// The properties of a material: permittivity, permeability and conductivity.
pub open spec fn properties<S: Scalar>(mat: ElectricMaterial<S>) -> Seq<Vec3<S>> {
    seq![mat.eps_r, mat.mu_r, mat.sig]
}

/// The property `p` along `axis` of a component's material is that of the material at the
/// component's own place: the D component for permittivity and conductivity, half a cell along the
/// axis, and the H component for the permeability, half a cell along the two others.
pub proof fn law_each_component_is_sampled_at_its_place<
    S: Scalar,
    G,
    F: Fn(&G, &Vec3<S>, &Vec3<S>) -> bool,
>(
    n_cells: GridIndex,
    cell_size: Vect<S>,
    sim_offset: Vec3<S>,
    regions: Seq<MaterialRegion<S, G>>,
    contains: F,
    default_mat: ElectricMaterial<S>,
    i: int,
    axis: Axis,
    p: int,
)
    requires
        0 <= i < n_cells.cell_count(),
        axis.valid(),
        0 <= p < 3,
    ensures
        ({
            let is_h = p == 1;
            let half = (
                is_h != (axis == Axis::X),
                is_h != (axis == Axis::Y),
                is_h != (axis == Axis::Z),
            );
            let there = material_at(
                regions,
                contains,
                sim_offset,
                component_place(n_cells, cell_size, i, half),
                default_mat,
                0,
            );
            properties(
                YeeGridMaterials::sampled_materials(
                    n_cells,
                    cell_size,
                    sim_offset,
                    regions,
                    contains,
                    default_mat,
                )[i],
            )[p].at(axis) == properties(there)[p].at(axis)
        }),
{
    lemma_component_places(n_cells, cell_size, i);
}

/// The place of a component is its cell's index times the cell size, and half a cell further where
/// the component sits half a cell along the axis. Nothing lies off the origin along axes that are
/// not spatial.
pub proof fn law_components_are_half_a_cell_apart<S: Scalar>(
    read: spec_fn(S) -> real,
    n_cells: GridIndex,
    cell_size: Vect<S>,
    i: int,
    half: (bool, bool, bool),
    axis: Axis,
)
    requires
        exact(read),
        n_cells.dim() == cell_size.dim(),
        axis.valid(),
    ensures
        ({
            let none = Vec3::splat_spec(S::zero_spec());
            let size = at(read, cell_size.to_3d_spec(none).at(axis));
            let index = GridIndex::unflat(i, n_cells).cell3().at(axis) as real;
            let shifted = match axis {
                Axis::X => half.0,
                Axis::Y => half.1,
                _ => half.2,
            };
            let place = at(read, component_place(n_cells, cell_size, i, half).at(axis));
            &&& spatial(n_cells.dim(), axis) ==> place == times(index, size) + if shifted {
                over(size, 2 as real)
            } else {
                0 as real
            }
            &&& !spatial(n_cells.dim(), axis) ==> place == 0 as real
        }),
{
    let none = Vec3::splat_spec(S::zero_spec());
    let size = at(read, cell_size.to_3d_spec(none).at(axis));
    lemma_unit(over(size, 2 as real));
    lemma_unit(0 as real);
    lemma_unit(1 as real);
}

/// The regions are moved so that the middle of the simulation comes to the middle of the grid, along
/// the spatial axes only.
pub proof fn law_simulation_is_centered_on_the_grid<S: Scalar>(
    read: spec_fn(S) -> real,
    simulation_bb: Aabb<S>,
    n_cells: GridIndex,
    cell_size: Vect<S>,
    axis: Axis,
)
    requires
        exact(read),
        n_cells.dim() == cell_size.dim(),
        axis.valid(),
    ensures
        ({
            let none = Vec3::splat_spec(S::zero_spec());
            let size = at(read, cell_size.to_3d_spec(none).at(axis));
            let offset = at(
                read,
                YeeGridMaterials::simulation_offset(simulation_bb, n_cells, cell_size).at(axis),
            );
            &&& spatial(n_cells.dim(), axis) ==> at(read, simulation_bb.center_spec().at(axis))
                + offset == over(times(n_cells.cells3().at(axis) as real, size), 2 as real)
            &&& !spatial(n_cells.dim(), axis) ==> offset == 0 as real
        }),
{
}

/// The sum of the property `p` along `axis` over those of the first `k` cells of a block that are in
/// the grid, and how many these are.
pub open spec fn property_sum<S: Scalar>(
    read: spec_fn(S) -> real,
    n_cells: GridIndex,
    materials: Seq<ElectricMaterial<S>>,
    base: GridIndex,
    factor: u32,
    p: int,
    axis: Axis,
    k: nat,
) -> (real, int)
    decreases k,
{
    if k == 0 {
        (0 as real, 0)
    } else {
        let (sum, count) = property_sum(
            read,
            n_cells,
            materials,
            base,
            factor,
            p,
            axis,
            (k - 1) as nat,
        );
        let c = base.plus_spec(listed_cell(k - 1, GridIndex::splat_spec(base.dim(), factor)));
        if c.cell_of(n_cells) {
            (sum + at(read, properties(materials[c.flat(n_cells)])[p].at(axis)), count + 1)
        } else {
            (sum, count)
        }
    }
}

/// The sums of a block, property by property.
proof fn lemma_block_sums<S: Scalar>(
    read: spec_fn(S) -> real,
    n_cells: GridIndex,
    materials: Seq<ElectricMaterial<S>>,
    base: GridIndex,
    factor: u32,
    p: int,
    axis: Axis,
    k: nat,
)
    requires
        exact(read),
        axis.valid(),
        0 <= p < 3,
    ensures
        ({
            let (sum, count) = block_sum(n_cells, materials, base, factor, k);
            let (total, n) = property_sum(read, n_cells, materials, base, factor, p, axis, k);
            &&& at(read, properties(sum)[p].at(axis)) == total
            &&& count == n
            &&& 0 <= n <= k
        }),
    decreases k,
{
    if k > 0 {
        lemma_block_sums(read, n_cells, materials, base, factor, p, axis, (k - 1) as nat);
    }
}

/// The material of a block is the mean of its cells in every property: times their number it is
/// their sum.
pub proof fn law_block_average_is_the_mean<S: Scalar>(
    read: spec_fn(S) -> real,
    n_cells: GridIndex,
    materials: Seq<ElectricMaterial<S>>,
    base: GridIndex,
    factor: u32,
    p: int,
    axis: Axis,
)
    requires
        exact(read),
        axis.valid(),
        0 <= p < 3,
        GridIndex::splat_spec(base.dim(), factor).cell_count() <= u32::MAX,
    ensures
        ({
            let k = GridIndex::splat_spec(base.dim(), factor).cell_count() as nat;
            let (total, n) = property_sum(read, n_cells, materials, base, factor, p, axis, k);
            let mean = at(
                read,
                properties(block_average(n_cells, materials, base, factor))[p].at(axis),
            );
            n > 0 ==> times(mean, n as real) == total
        }),
{
    let cells = GridIndex::splat_spec(base.dim(), factor).cells3();
    assert(0 <= cells.x * cells.y * cells.z) by (nonlinear_arith);
    let k = GridIndex::splat_spec(base.dim(), factor).cell_count() as nat;
    lemma_block_sums(read, n_cells, materials, base, factor, p, axis, k);
    let (total, n) = property_sum(read, n_cells, materials, base, factor, p, axis, k);
    if n > 0 {
        lemma_times_divisor(total, n as real);
    }
}

/// Where the same property of all cells of a grid is the same, so it is of every block.
pub proof fn law_uniform_materials_stay_uniform<S: Scalar>(
    read: spec_fn(S) -> real,
    n_cells: GridIndex,
    materials: Seq<ElectricMaterial<S>>,
    base: GridIndex,
    factor: u32,
    p: int,
    axis: Axis,
    v: real,
)
    requires
        exact(read),
        axis.valid(),
        0 <= p < 3,
        factor > 0,
        base.cell_of(n_cells),
        GridIndex::splat_spec(base.dim(), factor).cell_count() <= u32::MAX,
        forall|c: GridIndex| #[trigger]
            c.cell_of(n_cells) ==> at(read, properties(materials[c.flat(n_cells)])[p].at(axis)) == v,
    ensures
        at(read, properties(block_average(n_cells, materials, base, factor))[p].at(axis)) == v,
{
    let block = GridIndex::splat_spec(base.dim(), factor);
    let cells = block.cells3();
    assert(0 < cells.x * cells.y * cells.z) by (nonlinear_arith)
        requires
            cells.x > 0,
            cells.y > 0,
            cells.z > 0,
    ;
    let k = block.cell_count() as nat;
    law_block_average_is_the_mean(read, n_cells, materials, base, factor, p, axis);
    lemma_uniform_sum(read, n_cells, materials, base, factor, p, axis, v, k);
    let (total, n) = property_sum(read, n_cells, materials, base, factor, p, axis, k);
    let mean = at(
        read,
        properties(block_average(n_cells, materials, base, factor))[p].at(axis),
    );
    crate::exact::lemma_same_factor(mean, v, n as real);
}

/// The sum over a block of a uniform grid. The first cell of the block is in the grid.
proof fn lemma_uniform_sum<S: Scalar>(
    read: spec_fn(S) -> real,
    n_cells: GridIndex,
    materials: Seq<ElectricMaterial<S>>,
    base: GridIndex,
    factor: u32,
    p: int,
    axis: Axis,
    v: real,
    k: nat,
)
    requires
        0 < k,
        factor > 0,
        base.cell_of(n_cells),
        forall|c: GridIndex| #[trigger]
            c.cell_of(n_cells) ==> at(read, properties(materials[c.flat(n_cells)])[p].at(axis)) == v,
    ensures
        ({
            let (total, n) = property_sum(read, n_cells, materials, base, factor, p, axis, k);
            n > 0 && total == times(v, n as real)
        }),
    decreases k,
{
    let block = GridIndex::splat_spec(base.dim(), factor);
    let c = base.plus_spec(listed_cell(k - 1, block));
    lemma_unit(v);
    if k == 1 {
        reveal_with_fuel(property_sum, 2);
        vstd::arithmetic::div_mod::lemma_basic_div(0, factor as int);
        vstd::arithmetic::div_mod::lemma_small_mod(0, factor as nat);
        assert(0int / (factor * factor) == 0) by (nonlinear_arith)
            requires
                factor > 0,
        ;
        assert(c == base);
    } else {
        lemma_uniform_sum(
            read,
            n_cells,
            materials,
            base,
            factor,
            p,
            axis,
            v,
            (k - 1) as nat,
        );
        let (total, n) = property_sum(
            read,
            n_cells,
            materials,
            base,
            factor,
            p,
            axis,
            (k - 1) as nat,
        );
        lemma_distribute(v, n as real, 1 as real);
        assert((n + 1) as real == n as real + 1 as real);
    }
}

/// The square of the refractive index is the product of permittivity and permeability.
pub proof fn law_refractive_index_squared<S: Scalar>(
    read: spec_fn(S) -> real,
    mat: ElectricMaterial<S>,
    axis: Axis,
)
    requires
        exact(read),
        exact_roots(read),
        axis.valid(),
        at(read, mat.eps_r.at(axis)) >= 0 as real,
        at(read, mat.mu_r.at(axis)) >= 0 as real,
    ensures
        ({
            let n = at(read, mat.refractive_index_spec().at(axis));
            &&& n >= 0 as real
            &&& times(n, n) == times(at(read, mat.eps_r.at(axis)), at(read, mat.mu_r.at(axis)))
        }),
{
    lemma_product_sign(at(read, mat.eps_r.at(axis)), at(read, mat.mu_r.at(axis)));
}

/// A grid that is finer by a factor and has as many times more cells is as long as before, so the
/// simulation is centered on both alike.
pub proof fn law_finer_grid_has_the_same_middle<S: Scalar>(
    read: spec_fn(S) -> real,
    simulation_bb: Aabb<S>,
    n_cells: GridIndex,
    cell_size: Vect<S>,
    factor: u32,
    axis: Axis,
)
    requires
        exact(read),
        n_cells.dim() == cell_size.dim(),
        n_cells.times_fits(factor as int),
        factor > 0,
        axis.valid(),
    ensures
        at(
            read,
            YeeGridMaterials::simulation_offset(
                simulation_bb,
                n_cells.times_spec(factor as int),
                cell_size.divided_spec(S::of_nat_spec(factor)),
            ).at(axis),
        ) == at(
            read,
            YeeGridMaterials::simulation_offset(simulation_bb, n_cells, cell_size).at(axis),
        ),
        spatial(n_cells.dim(), axis) ==> {
            let none = Vec3::splat_spec(S::zero_spec());
            let finer = cell_size.divided_spec(S::of_nat_spec(factor));
            at(
                read,
                finer.scaled_spec(S::of_nat_spec(factor)).to_3d_spec(none).at(axis),
            ) == at(read, cell_size.to_3d_spec(none).at(axis))
        },
{
    let none = Vec3::splat_spec(S::zero_spec());
    let (n, f) = (n_cells.cells3().at(axis) as real, factor as real);
    let size = at(read, cell_size.to_3d_spec(none).at(axis));
    let fine = n_cells.times_spec(factor as int);
    law_simulation_is_centered_on_the_grid(read, simulation_bb, n_cells, cell_size, axis);
    law_simulation_is_centered_on_the_grid(
        read,
        simulation_bb,
        fine,
        cell_size.divided_spec(S::of_nat_spec(factor)),
        axis,
    );
    if spatial(n_cells.dim(), axis) {
        let m = fine.cells3().at(axis) as real;
        assert(m == times(n, f)) by {
            reveal(times);
            let (a, b) = (n_cells.cells3().at(axis) as int, factor as int);
            assert(fine.cells3().at(axis) == a * b);
            lemma_real_product(a, b);
        }
        lemma_times_divisor(size, f);
        lemma_shift(n, f, over(size, f));
        crate::exact::lemma_swap(f, over(size, f));
    }
}

/// The real number of a product is the product of the real numbers.
proof fn lemma_real_product(a: int, b: int)
    requires
        a >= 0,
    ensures
        (a * b) as real == times(a as real, b as real),
    decreases a,
{
    if a == 0 {
        assert(0 * b == 0) by (nonlinear_arith);
        lemma_unit(b as real);
    } else {
        lemma_real_product(a - 1, b);
        assert(a * b == (a - 1) * b + b) by (nonlinear_arith);
        assert(a as real == (a - 1) as real + 1 as real);
        lemma_distribute(b as real, (a - 1) as real, 1 as real);
        lemma_unit(b as real);
    }
}

} // verus!
