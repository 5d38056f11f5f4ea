//! Perfectly matched layers: the coefficients of the update equations.
use crate::axis::{Axis, Dim};
use crate::equivalence::{alike, null};
use crate::index::GridIndex;
use crate::layers::{LayerWidths, LoHiWidths};
use crate::materials::{lemma_nonempty_grid, ElectricMaterial, YeeGridMaterials};
use crate::nonzero::NonZeroI32;
use crate::params::PmlCoefficients;
use crate::scalar::Scalar;
use crate::vector::{UVec3, Vec3, Vec4};
use vstd::prelude::*;

verus! {

/// The constants of free space, as the scalar type represents them.
#[derive(Copy, Clone, Debug, PartialEq)]
pub struct FreeSpace<S> {
    /// Speed of EM wave in free space
    pub c_0: S,
    /// Free space permittivity
    pub eps_0: S,
    /// Free space permeability
    pub mu_0: S,
    /// Free space wave impedance
    pub impedance_0: S,
}

/// Parameters judging how the PML will be constructed in the simulation
#[derive(Copy, Clone, Debug)]
pub struct PmlParameters<S> {
    /// Widths of PML along each axis (widths for low and high end of each axis).
    pub widths: LayerWidths,
    /// Maximum conductivity of the PML
    pub sig_max: S,
    /// The order of the monomial that ramps PML conductivity up to `sig_max`
    pub grading_order: NonZeroI32,
}

/// A stable maximum conductivity for a PML.
pub open spec fn stable_sig_max<S: Scalar>(dt: S, space: FreeSpace<S>) -> S {
    space.eps_0.over_spec(S::of_nat_spec(2) * dt)
}

impl<S: Scalar> PmlParameters<S> {
    /// A convenient constructor for a [`PmlParameters`] with some generally stable values.
    pub fn new(dim: Dim, dt: &S, space: &FreeSpace<S>) -> (r: Self)
        ensures
            forall|a: Axis| #[trigger]
                a.valid() ==> r.widths.at(a) == LoHiWidths::splat_spec(
                    if crate::axis::spatial(dim, a) {
                        12
                    } else {
                        0
                    },
                ),
            r.sig_max == stable_sig_max(*dt, *space),
            r.grading_order@ == 3,
    {
        PmlParameters {
            widths: LayerWidths::splat_spatial(dim, 12),
            sig_max: crate::stability::FdtdStability::pml_sig_max(dt, space),
            grading_order: NonZeroI32::of(3),
        }
    }

    pub fn dup(&self) -> (r: Self)
        ensures
            r == *self,
    {
        PmlParameters {
            widths: self.widths,
            sig_max: self.sig_max.dup(),
            grading_order: self.grading_order,
        }
    }
}

/// The conductivity where the ramps of the layers add up to `t`.
pub open spec fn ramp_sig<S: Scalar>(sig_max: S, grading_order: i32, t: S) -> S {
    (sig_max * t.powi_spec(grading_order)).finite_or_zero_spec()
}

/// The conductivity of the layers along an axis, `i` half cells from its start: it falls from
/// `sig_max` at the two ends to nothing at the inner sides of the layers.
pub open spec fn layer_sig<S: Scalar>(
    n: u32,
    widths: LoHiWidths,
    sig_max: S,
    grading_order: i32,
    i: int,
) -> S {
    let lo_dist = S::of_nat_spec(i as u32);
    let hi_dist = S::of_nat_spec((2 * n - 1 - i) as u32);
    let lo_t = (S::one_spec() - lo_dist.over_spec(
        S::of_nat_spec((widths.lo * 2) as u32),
    )).clamp_unit_spec();
    let hi_t = (S::one_spec() - hi_dist.over_spec(
        S::of_nat_spec((widths.hi * 2) as u32),
    )).clamp_unit_spec();
    ramp_sig(sig_max, grading_order, lo_t + hi_t)
}

/// The conductivity of the layers along an axis with `n` cells, every half cell.
pub open spec fn layer_profile<S: Scalar>(
    n: u32,
    widths: LoHiWidths,
    sig_max: S,
    grading_order: i32,
) -> Seq<S> {
    Seq::new((2 * n) as nat, |i: int| layer_sig(n, widths, sig_max, grading_order, i))
}

fn compute_profile<S: Scalar>(
    n: u32,
    widths: LoHiWidths,
    sig_max: &S,
    grading_order: i32,
) -> (r: Vec<S>)
    requires
        n * 2 <= u32::MAX,
        widths.lo * 2 <= u32::MAX,
        widths.hi * 2 <= u32::MAX,
    ensures
        r@ == layer_profile(n, widths, *sig_max, grading_order),
{
    let mut r: Vec<S> = Vec::new();
    let lo_width: S = S::of_nat(widths.lo * 2);
    let hi_width: S = S::of_nat(widths.hi * 2);
    for i in 0..n * 2
        invariant
            n * 2 <= u32::MAX,
            widths.lo * 2 <= u32::MAX,
            widths.hi * 2 <= u32::MAX,
            lo_width == S::of_nat_spec((widths.lo * 2) as u32),
            hi_width == S::of_nat_spec((widths.hi * 2) as u32),
            r.len() == i,
            forall|j: int|
                0 <= j < r.len() ==> #[trigger] r[j] == layer_sig(
                    n,
                    widths,
                    *sig_max,
                    grading_order,
                    j,
                ),
    {
        let lo_dist: S = S::of_nat(i);
        let hi_dist: S = S::of_nat((n * 2 - 1) - i);
        let lo_t: S = S::one().minus(&lo_dist.over(&lo_width)).clamp_unit();
        let hi_t: S = S::one().minus(&hi_dist.over(&hi_width)).clamp_unit();
        let sig: S = sig_max.times(&lo_t.plus(&hi_t).powi(grading_order)).finite_or_zero();
        r.push(sig);
    }
    assert(r@ =~= layer_profile(n, widths, *sig_max, grading_order));
    r
}

/// The conductivities of the layers along the three axes.
pub open spec fn profiles<S: Scalar>(n: UVec3, pml: PmlParameters<S>) -> Seq<Seq<S>> {
    seq![
        layer_profile(n.x, pml.widths.at(Axis::X), pml.sig_max, pml.grading_order@),
        layer_profile(n.y, pml.widths.at(Axis::Y), pml.sig_max, pml.grading_order@),
        layer_profile(n.z, pml.widths.at(Axis::Z), pml.sig_max, pml.grading_order@),
    ]
}

/// The conductivities that the D component along `axis` of the cell `c` meets: it sits half a cell
/// along its own axis.
pub open spec fn dn_sigs<S: Scalar>(sig: Seq<Seq<S>>, c: UVec3, axis: Axis) -> Vec3<S> {
    Vec3 {
        x: sig[0][2 * c.x + if axis == Axis::X {
            1int
        } else {
            0
        }],
        y: sig[1][2 * c.y + if axis == Axis::Y {
            1int
        } else {
            0
        }],
        z: sig[2][2 * c.z + if axis == Axis::Z {
            1int
        } else {
            0
        }],
    }
}

/// The conductivities that the H component along `axis` of the cell `c` meets: it sits half a cell
/// along the two other axes.
pub open spec fn h_sigs<S: Scalar>(sig: Seq<Seq<S>>, c: UVec3, axis: Axis) -> Vec3<S> {
    Vec3 {
        x: sig[0][2 * c.x + if axis == Axis::X {
            0int
        } else {
            1
        }],
        y: sig[1][2 * c.y + if axis == Axis::Y {
            0int
        } else {
            1
        }],
        z: sig[2][2 * c.z + if axis == Axis::Z {
            0int
        } else {
            1
        }],
    }
}

/// The coefficients of the components along one axis.
pub struct AxisCoefficients<S> {
    pub h1: S,
    pub h2: S,
    pub h3: S,
    pub h4: S,
    pub dn1: S,
    pub dn2: S,
    pub dn_loss1: S,
    pub dn_loss2: S,
    pub dn3: S,
    pub dn4: S,
    pub en1: S,
}

/// What the conductivities across a component add to the reciprocal of the time step: half of the
/// sum term and a quarter of the product term, each relative to the permittivity of free space.
pub open spec fn damping<S: Scalar>(s1: S, s2: S, dt: S, eps_0: S) -> (S, S) {
    (
        (s1 + s2).over_spec(S::of_nat_spec(2) * eps_0),
        (s1 * s2 * dt).over_spec(S::of_nat_spec(4) * eps_0 * eps_0),
    )
}

/// The coefficients of the components along `axis`, where `h` and `dn` are the conductivities that
/// the two components meet.
pub open spec fn axis_coefficients<S: Scalar>(
    dim: Dim,
    axis: Axis,
    h: Vec3<S>,
    dn: Vec3<S>,
    mat: ElectricMaterial<S>,
    dt: S,
    space: FreeSpace<S>,
) -> AxisCoefficients<S> {
    let axis1 = axis.permute_spec();
    let axis2 = axis1.permute_spec();
    let eps_0 = space.eps_0;
    let inv_dt = dt.recip_spec();
    let c0_dt = space.c_0 * dt;
    let dt_eps2 = dt.over_spec(eps_0 * eps_0);
    let inv_mu = mat.mu_r.at(axis).recip_spec();
    let sig = mat.sig.at(axis);
    let (h_sum, h_product) = damping(h.at(axis1), h.at(axis2), dt, eps_0);
    let h_term = (inv_dt + h_sum + h_product).recip_spec();
    let (dn_sum, dn_product) = damping(dn.at(axis1), dn.at(axis2), dt, eps_0);
    let dn_term = (inv_dt + dn_sum + dn_product).recip_spec();
    AxisCoefficients {
        h1: h_term * (inv_dt - h_sum - h_product),
        h2: (-h_term) * space.c_0 * inv_mu,
        h3: if dim == Dim::One {
            S::zero_spec()
        } else {
            ((-h_term) * c0_dt * h.at(axis)).over_spec(eps_0) * inv_mu
        },
        h4: if dim == Dim::Three {
            (-h_term) * dt_eps2 * h.at(axis1) * h.at(axis2)
        } else {
            S::zero_spec()
        },
        dn1: dn_term * (inv_dt - dn_sum - dn_product),
        dn2: dn_term * space.c_0,
        dn_loss1: ((-dn_term) * sig).over_spec(eps_0),
        dn_loss2: ((-dn_term) * dn.at(axis) * sig * dt).over_spec(eps_0 * eps_0),
        dn3: if dim == Dim::One {
            S::zero_spec()
        } else {
            (dn_term * c0_dt * dn.at(axis)).over_spec(eps_0)
        },
        dn4: if dim == Dim::Three {
            (-dn_term) * dt_eps2 * dn.at(axis1) * dn.at(axis2)
        } else {
            S::zero_spec()
        },
        en1: mat.eps_r.at(axis).recip_spec(),
    }
}

fn compute_axis_coefficients<S: Scalar>(
    dim: Dim,
    axis: Axis,
    h: &Vec3<S>,
    dn: &Vec3<S>,
    mat: &ElectricMaterial<S>,
    dt: &S,
    space: &FreeSpace<S>,
) -> (r: AxisCoefficients<S>)
    requires
        axis.valid(),
    ensures
        r == axis_coefficients(dim, axis, *h, *dn, *mat, *dt, *space),
{
    let axis1: Axis = axis.permute();
    let axis2: Axis = axis1.permute();
    let eps_0: &S = &space.eps_0;
    let two_eps: S = S::of_nat(2).times(eps_0);
    let four_eps2: S = S::of_nat(4).times(eps_0).times(eps_0);
    let eps2: S = eps_0.times(eps_0);
    let inv_dt: S = dt.recip();
    let c0_dt: S = space.c_0.times(dt);
    let dt_eps2: S = dt.over(&eps2);
    let inv_mu: S = mat.mu_r.get(axis).recip();
    let sig: &S = mat.sig.get(axis);

    let h_sum: S = h.get(axis1).plus(h.get(axis2)).over(&two_eps);
    let h_product: S = h.get(axis1).times(h.get(axis2)).times(dt).over(&four_eps2);
    let h_term: S = inv_dt.plus(&h_sum).plus(&h_product).recip();
    let neg_h: S = h_term.negated();
    let dn_sum: S = dn.get(axis1).plus(dn.get(axis2)).over(&two_eps);
    let dn_product: S = dn.get(axis1).times(dn.get(axis2)).times(dt).over(&four_eps2);
    let dn_term: S = inv_dt.plus(&dn_sum).plus(&dn_product).recip();
    let neg_dn: S = dn_term.negated();

    AxisCoefficients {
        h1: h_term.times(&inv_dt.minus(&h_sum).minus(&h_product)),
        h2: neg_h.times(&space.c_0).times(&inv_mu),
        h3: if matches!(dim, Dim::One) {
            S::zero()
        } else {
            neg_h.times(&c0_dt).times(h.get(axis)).over(eps_0).times(&inv_mu)
        },
        h4: if matches!(dim, Dim::Three) {
            neg_h.times(&dt_eps2).times(h.get(axis1)).times(h.get(axis2))
        } else {
            S::zero()
        },
        dn1: dn_term.times(&inv_dt.minus(&dn_sum).minus(&dn_product)),
        dn2: dn_term.times(&space.c_0),
        dn_loss1: neg_dn.times(sig).over(eps_0),
        dn_loss2: neg_dn.times(dn.get(axis)).times(sig).times(dt).over(&eps2),
        dn3: if matches!(dim, Dim::One) {
            S::zero()
        } else {
            dn_term.times(&c0_dt).times(dn.get(axis)).over(eps_0)
        },
        dn4: if matches!(dim, Dim::Three) {
            neg_dn.times(&dt_eps2).times(dn.get(axis1)).times(dn.get(axis2))
        } else {
            S::zero()
        },
        en1: mat.eps_r.get(axis).recip(),
    }
}

pub open spec fn vec4_of<S: Scalar>(x: S, y: S, z: S) -> Vec4<S> {
    Vec4 { x, y, z, w: S::zero_spec() }
}

/// The coefficients of the three axes as those of a cell.
pub open spec fn assembled<S: Scalar>(
    x: AxisCoefficients<S>,
    y: AxisCoefficients<S>,
    z: AxisCoefficients<S>,
) -> PmlCoefficients<S> {
    PmlCoefficients {
        h1: vec4_of(x.h1, y.h1, z.h1),
        h2: vec4_of(x.h2, y.h2, z.h2),
        h3: vec4_of(x.h3, y.h3, z.h3),
        h4: vec4_of(x.h4, y.h4, z.h4),
        dn1: vec4_of(x.dn1, y.dn1, z.dn1),
        dn2: vec4_of(x.dn2, y.dn2, z.dn2),
        dn_loss1: vec4_of(x.dn_loss1, y.dn_loss1, z.dn_loss1),
        dn_loss2: vec4_of(x.dn_loss2, y.dn_loss2, z.dn_loss2),
        dn3: vec4_of(x.dn3, y.dn3, z.dn3),
        dn4: vec4_of(x.dn4, y.dn4, z.dn4),
        en1: vec4_of(x.en1, y.en1, z.en1),
    }
}

fn make_vec4<S: Scalar>(x: S, y: S, z: S) -> (r: Vec4<S>)
    ensures
        r == vec4_of(x, y, z),
{
    Vec4 { x, y, z, w: S::zero() }
}

fn assemble<S: Scalar>(
    x: AxisCoefficients<S>,
    y: AxisCoefficients<S>,
    z: AxisCoefficients<S>,
) -> (r: PmlCoefficients<S>)
    ensures
        r == assembled(x, y, z),
{
    PmlCoefficients {
        h1: make_vec4(x.h1, y.h1, z.h1),
        h2: make_vec4(x.h2, y.h2, z.h2),
        h3: make_vec4(x.h3, y.h3, z.h3),
        h4: make_vec4(x.h4, y.h4, z.h4),
        dn1: make_vec4(x.dn1, y.dn1, z.dn1),
        dn2: make_vec4(x.dn2, y.dn2, z.dn2),
        dn_loss1: make_vec4(x.dn_loss1, y.dn_loss1, z.dn_loss1),
        dn_loss2: make_vec4(x.dn_loss2, y.dn_loss2, z.dn_loss2),
        dn3: make_vec4(x.dn3, y.dn3, z.dn3),
        dn4: make_vec4(x.dn4, y.dn4, z.dn4),
        en1: make_vec4(x.en1, y.en1, z.en1),
    }
}

/// The coefficients of the cell `c`, where `sig` are the conductivities of the layers along the
/// three axes.
pub open spec fn cell_coefficients<S: Scalar>(
    dim: Dim,
    sig: Seq<Seq<S>>,
    c: UVec3,
    mat: ElectricMaterial<S>,
    dt: S,
    space: FreeSpace<S>,
) -> PmlCoefficients<S> {
    let of = |axis: Axis|
        axis_coefficients(
            dim,
            axis,
            h_sigs(sig, c, axis),
            dn_sigs(sig, c, axis),
            mat,
            dt,
            space,
        );
    assembled(of(Axis::X), of(Axis::Y), of(Axis::Z))
}

fn compute_dn_sigs<S: Scalar>(
    x: &Vec<S>,
    y: &Vec<S>,
    z: &Vec<S>,
    c: &UVec3,
    axis: Axis,
) -> (r: Vec3<S>)
    requires
        2 * c.x + 1 < x.len(),
        2 * c.y + 1 < y.len(),
        2 * c.z + 1 < z.len(),
    ensures
        r == dn_sigs(seq![x@, y@, z@], *c, axis),
{
    let mut i_x: usize = 2 * (c.x as usize);
    let mut i_y: usize = 2 * (c.y as usize);
    let mut i_z: usize = 2 * (c.z as usize);
    match axis {
        Axis::X => {
            i_x = i_x + 1;
        },
        Axis::Y => {
            i_y = i_y + 1;
        },
        Axis::Z => {
            i_z = i_z + 1;
        },
        Axis::INVALID => {},
    }
    Vec3 { x: x[i_x].dup(), y: y[i_y].dup(), z: z[i_z].dup() }
}

fn compute_h_sigs<S: Scalar>(
    x: &Vec<S>,
    y: &Vec<S>,
    z: &Vec<S>,
    c: &UVec3,
    axis: Axis,
) -> (r: Vec3<S>)
    requires
        2 * c.x + 1 < x.len(),
        2 * c.y + 1 < y.len(),
        2 * c.z + 1 < z.len(),
    ensures
        r == h_sigs(seq![x@, y@, z@], *c, axis),
{
    let mut i_x: usize = 2 * (c.x as usize) + 1;
    let mut i_y: usize = 2 * (c.y as usize) + 1;
    let mut i_z: usize = 2 * (c.z as usize) + 1;
    match axis {
        Axis::X => {
            i_x = i_x - 1;
        },
        Axis::Y => {
            i_y = i_y - 1;
        },
        Axis::Z => {
            i_z = i_z - 1;
        },
        Axis::INVALID => {},
    }
    Vec3 { x: x[i_x].dup(), y: y[i_y].dup(), z: z[i_z].dup() }
}

/// Grid of PML update coefficients for FDTD using Yee Grid
#[derive(Clone, Debug)]
pub struct PmlCoefficientsGrid<S> {
    /// Dimensions of grid
    pub n_cells: GridIndex,
    /// Grid's update coefficients in a flattened array.
    pub coeffs: Vec<PmlCoefficients<S>>,
}

/// The half cells of the grid and of the layers can be counted.
pub open spec fn halves_fit<S>(n: UVec3, pml: PmlParameters<S>) -> bool {
    forall|a: Axis| #[trigger]
        a.valid() ==> n.at(a) * 2 <= u32::MAX && pml.widths.at(a).lo * 2 <= u32::MAX
            && pml.widths.at(a).hi * 2 <= u32::MAX
}

impl<S: Scalar> PmlCoefficientsGrid<S> {
    /// Compute the PML update coefficients of a grid of materials. Also returns the translation that
    /// centers the regions on the grid.
    pub fn new(
        grid_mats: &YeeGridMaterials<S>,
        pml_parameters: &PmlParameters<S>,
        dt: &S,
        space: &FreeSpace<S>,
    ) -> (r: (Vec3<S>, Self))
        requires
            grid_mats.wf(),
            halves_fit(grid_mats.n_cells.cells3(), *pml_parameters),
        ensures
            r.0 == grid_mats.sim_offset,
            r.1.n_cells == grid_mats.n_cells,
            r.1.coeffs.len() == grid_mats.n_cells.cell_count(),
            forall|i: int|
                0 <= i < r.1.coeffs.len() ==> #[trigger] r.1.coeffs[i] == cell_coefficients(
                    grid_mats.n_cells.dim(),
                    profiles(grid_mats.n_cells.cells3(), *pml_parameters),
                    GridIndex::unflat(i, grid_mats.n_cells).cell3(),
                    grid_mats.materials[i],
                    *dt,
                    *space,
                ),
    {
        let n_cells: GridIndex = grid_mats.n_cells;
        let dim = n_cells.get_dim();
        let n3: UVec3 = n_cells.n_cells_to_3d();
        let pml = pml_parameters;
        assert(Axis::X.valid() && Axis::Y.valid() && Axis::Z.valid());
        let sig_x: Vec<S> = compute_profile(
            n3.x,
            pml.widths.get(Axis::X),
            &pml.sig_max,
            pml.grading_order.get(),
        );
        let sig_y: Vec<S> = compute_profile(
            n3.y,
            pml.widths.get(Axis::Y),
            &pml.sig_max,
            pml.grading_order.get(),
        );
        let sig_z: Vec<S> = compute_profile(
            n3.z,
            pml.widths.get(Axis::Z),
            &pml.sig_max,
            pml.grading_order.get(),
        );
        let ghost sig = seq![sig_x@, sig_y@, sig_z@];
        assert(sig =~= profiles(n3, *pml));

        let mut coeffs: Vec<PmlCoefficients<S>> = Vec::new();
        for i in 0..grid_mats.materials.len()
            invariant
                grid_mats.wf(),
                n_cells == grid_mats.n_cells,
                dim == n_cells.dim(),
                n3 == n_cells.cells3(),
                sig == seq![sig_x@, sig_y@, sig_z@],
                sig_x.len() == 2 * n3.x,
                sig_y.len() == 2 * n3.y,
                sig_z.len() == 2 * n3.z,
                coeffs.len() == i,
                forall|j: int|
                    0 <= j < coeffs.len() ==> #[trigger] coeffs[j] == cell_coefficients(
                        dim,
                        sig,
                        GridIndex::unflat(j, n_cells).cell3(),
                        grid_mats.materials[j],
                        *dt,
                        *space,
                    ),
        {
            proof {
                lemma_nonempty_grid(n_cells);
                crate::index::law_flat_to_cell_and_back(i as int, n_cells);
            }
            let c: UVec3 = GridIndex::from_flat_idx(i as u32, n_cells).cell_idx_to_3d();
            let mat: &ElectricMaterial<S> = &grid_mats.materials[i];
            let h_x: Vec3<S> = compute_h_sigs(&sig_x, &sig_y, &sig_z, &c, Axis::X);
            let h_y: Vec3<S> = compute_h_sigs(&sig_x, &sig_y, &sig_z, &c, Axis::Y);
            let h_z: Vec3<S> = compute_h_sigs(&sig_x, &sig_y, &sig_z, &c, Axis::Z);
            let dn_x: Vec3<S> = compute_dn_sigs(&sig_x, &sig_y, &sig_z, &c, Axis::X);
            let dn_y: Vec3<S> = compute_dn_sigs(&sig_x, &sig_y, &sig_z, &c, Axis::Y);
            let dn_z: Vec3<S> = compute_dn_sigs(&sig_x, &sig_y, &sig_z, &c, Axis::Z);
            let x = compute_axis_coefficients(dim, Axis::X, &h_x, &dn_x, mat, dt, space);
            let y = compute_axis_coefficients(dim, Axis::Y, &h_y, &dn_y, mat, dt, space);
            let z = compute_axis_coefficients(dim, Axis::Z, &h_z, &dn_z, mat, dt, space);
            coeffs.push(assemble(x, y, z));
        }
        (grid_mats.sim_offset.dup(), PmlCoefficientsGrid { n_cells, coeffs })
    }
}

/// Up to `same`, sums do not depend on the order of their terms, and conductivities of ramps that are
/// the same are the same.
pub open spec fn ramps_commute<S: Scalar>(
    same: spec_fn(S, S) -> bool,
    sig_max: S,
    grading_order: i32,
) -> bool {
    &&& forall|a: S, b: S| alike(same, #[trigger] (a + b), b + a)
    &&& forall|t: S, u: S|
        alike(same, t, u) ==> alike(
            same,
            #[trigger] ramp_sig(sig_max, grading_order, t),
            #[trigger] ramp_sig(sig_max, grading_order, u),
        )
}

/// Exchanging the widths of the two layers along an axis mirrors the conductivities.
pub proof fn law_mirrored_widths_mirror_the_layers<S: Scalar>(
    same: spec_fn(S, S) -> bool,
    n: u32,
    widths: LoHiWidths,
    sig_max: S,
    grading_order: i32,
    i: int,
)
    requires
        ramps_commute(same, sig_max, grading_order),
        0 <= i < 2 * n <= u32::MAX,
    ensures
        alike(
            same,
            layer_sig(
                n,
                LoHiWidths { lo: widths.hi, hi: widths.lo },
                sig_max,
                grading_order,
                2 * n - 1 - i,
            ),
            layer_sig(n, widths, sig_max, grading_order, i),
        ),
{
    let ramp = |dist: int, width: u32|
        (S::one_spec() - S::of_nat_spec(dist as u32).over_spec(
            S::of_nat_spec((width * 2) as u32),
        )).clamp_unit_spec();
    let lo = ramp(i, widths.lo);
    let hi = ramp(2 * n - 1 - i, widths.hi);
    assert(2 * n - 1 - (2 * n - 1 - i) == i);
    assert(alike(same, hi + lo, lo + hi));
    assert(alike(
        same,
        ramp_sig(sig_max, grading_order, hi + lo),
        ramp_sig(sig_max, grading_order, lo + hi),
    ));
}

/// Up to `same`, a ramp that falls from one reaches zero where it ends and stays there, and where the
/// ramps are zero so is the conductivity.
pub open spec fn ramps_end_at_zero<S: Scalar>(
    same: spec_fn(S, S) -> bool,
    sig_max: S,
    grading_order: i32,
) -> bool {
    &&& forall|d: u32, w: u32|
        d >= w > 0 ==> null(
            same,
            (S::one_spec() - (#[trigger] S::of_nat_spec(d)).over_spec(
                #[trigger] S::of_nat_spec(w),
            )).clamp_unit_spec(),
        )
    &&& forall|a: S, b: S|
        null(same, a) && null(same, b) ==> null(
            same,
            #[trigger] ramp_sig(sig_max, grading_order, a + b),
        )
}

/// The layers do not reach further than their widths: between them nothing is absorbed.
pub proof fn law_layers_end_at_their_widths<S: Scalar>(
    same: spec_fn(S, S) -> bool,
    n: u32,
    widths: LoHiWidths,
    sig_max: S,
    grading_order: i32,
    i: int,
)
    requires
        ramps_end_at_zero(same, sig_max, grading_order),
        2 * n <= u32::MAX,
        0 < widths.lo,
        0 < widths.hi,
        2 * widths.lo <= i,
        i < 2 * (n - widths.hi),
    ensures
        null(same, layer_sig(n, widths, sig_max, grading_order, i)),
{
    let lo_dist = i as u32;
    let hi_dist = (2 * n - 1 - i) as u32;
    let lo_width = (widths.lo * 2) as u32;
    let hi_width = (widths.hi * 2) as u32;
    assert(lo_dist >= lo_width > 0);
    assert(hi_dist >= hi_width > 0);
}

} // verus!
