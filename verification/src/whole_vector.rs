//! An update that computes all components of the fields at once.
use crate::axis::{Axis, Dim};
use crate::clamped::{
    compute_slope, compute_source_sum, is_first, slope, source_sum, GpuDipole, GridParameters2,
};
use crate::params::{PmlCoefficients, PmlIntegrals};
use crate::scalar::Scalar;
use crate::update::FieldCell;
use crate::vector::{UVec3, Vec4};
use vstd::prelude::*;

verus! {

/// Update coefficients, as [`PmlCoefficients`] has them.
pub type PmlCoefficients2<S> = PmlCoefficients<S>;

/// Integration terms, as [`PmlIntegrals`] has them.
pub type PmlIntegrals2<S> = PmlIntegrals<S>;

/// The curl of a field in the cell `c`.
pub open spec fn whole_curl<S: Scalar>(
    grid: GridParameters2<S>,
    c: UVec3,
    v: Seq<Vec4<S>>,
    v_self: Vec4<S>,
    forwards: bool,
) -> Vec4<S> {
    let d = |across: Axis, along: Axis| slope(grid, c, v, v_self, along, across, forwards);
    Vec4 {
        x: match grid.dim {
            Dim::One => -d(Axis::Y, Axis::Z),
            Dim::Two => d(Axis::Z, Axis::Y),
            Dim::Three => d(Axis::Z, Axis::Y) - d(Axis::Y, Axis::Z),
        },
        y: match grid.dim {
            Dim::One => d(Axis::X, Axis::Z),
            Dim::Two => -d(Axis::Z, Axis::X),
            Dim::Three => d(Axis::X, Axis::Z) - d(Axis::Z, Axis::X),
        },
        z: match grid.dim {
            Dim::One => S::zero_spec(),
            _ => d(Axis::Y, Axis::X) - d(Axis::X, Axis::Y),
        },
        w: S::zero_spec(),
    }
}

fn compute_curl<S: Scalar>(
    grid: &GridParameters2<S>,
    c: &UVec3,
    idx: usize,
    v: &Vec<Vec4<S>>,
    v_self: &Vec4<S>,
    forwards: bool,
) -> (r: Vec4<S>)
    requires
        grid.wf(),
        c.below(grid.n_cells3),
        idx == grid.place(*c),
        idx < v.len(),
    ensures
        r == whole_curl(*grid, *c, v@, *v_self, forwards),
{
    let (x, y, z) = (Axis::X, Axis::Y, Axis::Z);
    match grid.dim {
        Dim::One => Vec4 {
            x: compute_slope(grid, c, idx, v, v_self, z, y, forwards).negated(),
            y: compute_slope(grid, c, idx, v, v_self, z, x, forwards),
            z: S::zero(),
            w: S::zero(),
        },
        Dim::Two => Vec4 {
            x: compute_slope(grid, c, idx, v, v_self, y, z, forwards),
            y: compute_slope(grid, c, idx, v, v_self, x, z, forwards).negated(),
            z: compute_slope(grid, c, idx, v, v_self, x, y, forwards).minus(
                &compute_slope(grid, c, idx, v, v_self, y, x, forwards),
            ),
            w: S::zero(),
        },
        Dim::Three => Vec4 {
            x: compute_slope(grid, c, idx, v, v_self, y, z, forwards).minus(
                &compute_slope(grid, c, idx, v, v_self, z, y, forwards),
            ),
            y: compute_slope(grid, c, idx, v, v_self, z, x, forwards).minus(
                &compute_slope(grid, c, idx, v, v_self, x, z, forwards),
            ),
            z: compute_slope(grid, c, idx, v, v_self, x, y, forwards).minus(
                &compute_slope(grid, c, idx, v, v_self, y, x, forwards),
            ),
            w: S::zero(),
        },
    }
}

/// The fields of the cell `c` and its sums after a step. The source term is added to every
/// component of the D field.
pub open spec fn whole_vector_step<S: Scalar>(
    grid: GridParameters2<S>,
    c: UVec3,
    h: Seq<Vec4<S>>,
    dn: Seq<Vec4<S>>,
    en: Seq<Vec4<S>>,
    ints: PmlIntegrals2<S>,
    m: PmlCoefficients2<S>,
    source: S,
) -> (FieldCell<S>, PmlIntegrals2<S>) {
    let idx = grid.place(c);
    let en_curl = whole_curl(grid, c, en, en[idx], true);
    let h1 = m.h1 * h[idx] + m.h2 * en_curl;
    let h2 = h1 + m.h3 * (ints.en_curl + en_curl);
    let h3 = h2 + m.h4 * (ints.h + h[idx]);
    let new_h = match grid.dim {
        Dim::One => h1,
        Dim::Two => h2,
        Dim::Three => h3,
    };
    let h_curl = whole_curl(grid, c, h.update(idx, new_h), new_h, false);
    let dn1 = m.dn1 * dn[idx] + m.dn2 * h_curl + m.dn_loss1 * en[idx] + m.dn_loss2 * (ints.en
        + en[idx]) + Vec4::splat_spec(source);
    let dn2 = dn1 + m.dn3 * (ints.h_curl + h_curl);
    let dn3 = dn2 + m.dn4 * (ints.dn + dn[idx]);
    let new_dn = match grid.dim {
        Dim::One => dn1,
        Dim::Two => dn2,
        Dim::Three => dn3,
    };
    let ints = PmlIntegrals { en: ints.en + en[idx], ..ints };
    let curls = PmlIntegrals {
        en_curl: ints.en_curl + en_curl,
        h_curl: ints.h_curl + h_curl,
        ..ints
    };
    let all = PmlIntegrals { h: ints.h + h[idx], dn: ints.dn + dn[idx], ..curls };
    (
        FieldCell { h: new_h, dn: new_dn, en: m.en1 * new_dn },
        match grid.dim {
            Dim::One => ints,
            Dim::Two => curls,
            Dim::Three => all,
        },
    )
}

/// Advance the fields of a cell and its sums by a step. Threads outside the grid change nothing;
/// the first cell also counts the step.
pub fn fdtd_lossy_v2<S: Scalar>(
    idx3: UVec3,
    h: &mut Vec<Vec4<S>>,
    dn: &mut Vec<Vec4<S>>,
    en: &mut Vec<Vec4<S>>,
    integrals: &mut Vec<PmlIntegrals2<S>>,
    grid_coeffs: &Vec<PmlCoefficients2<S>>,
    dipoles: &Vec<GpuDipole>,
    source_vals: &Vec<S>,
    steps: &mut u32,
    grid: &GridParameters2<S>,
)
    requires
        grid.wf(),
        old(h).len() >= grid.cell_count(),
        old(dn).len() >= grid.cell_count(),
        old(en).len() >= grid.cell_count(),
        old(integrals).len() >= grid.cell_count(),
        grid_coeffs.len() >= grid.cell_count(),
        forall|k: int|
            0 <= k < dipoles.len() ==> (#[trigger] dipoles[k]).vals_range[1] < source_vals.len(),
        idx3 == UVec3::splat_spec(0) ==> *old(steps) < u32::MAX,
    ensures
        idx3.below(grid.n_cells3) ==> ({
            let idx = grid.place(idx3);
            let (cell, ints) = whole_vector_step(
                *grid,
                idx3,
                old(h)@,
                old(dn)@,
                old(en)@,
                old(integrals)@[idx],
                grid_coeffs[idx],
                source_sum(dipoles@, source_vals@, *old(steps), idx, dipoles.len() as nat),
            );
            &&& final(h)@ == old(h)@.update(idx, cell.h)
            &&& final(dn)@ == old(dn)@.update(idx, cell.dn)
            &&& final(en)@ == old(en)@.update(idx, cell.en)
            &&& final(integrals)@ == old(integrals)@.update(idx, ints)
        }),
        !idx3.below(grid.n_cells3) ==> ({
            &&& final(h)@ == old(h)@
            &&& final(dn)@ == old(dn)@
            &&& final(en)@ == old(en)@
            &&& final(integrals)@ == old(integrals)@
        }),
        *final(steps) == *old(steps) + if idx3 == UVec3::splat_spec(0) {
            1int
        } else {
            0
        },
{
    if !idx3.all_below(&grid.n_cells3) {
        return ;
    }
    let idx: usize = grid.cell_place(&idx3);
    let dipole_src_term: S = compute_source_sum(dipoles, source_vals, *steps, idx);
    let m: &PmlCoefficients<S> = &grid_coeffs[idx];
    let mut ints: PmlIntegrals<S> = integrals[idx].dup();
    let en_self: Vec4<S> = en[idx].dup();

    let h_self: Vec4<S> = {
        let en_curl: Vec4<S> = compute_curl(grid, &idx3, idx, en, &en_self, true);
        let old_h: &Vec4<S> = &h[idx];
        let mut h_self: Vec4<S> = m.h1.times(old_h).plus(&m.h2.times(&en_curl));
        if !matches!(grid.dim, Dim::One) {
            ints.en_curl = ints.en_curl.plus(&en_curl);
            h_self = h_self.plus(&m.h3.times(&ints.en_curl));
            if matches!(grid.dim, Dim::Three) {
                ints.h = ints.h.plus(old_h);
                h_self = h_self.plus(&m.h4.times(&ints.h));
            }
        }
        h_self
    };
    h.set(idx, h_self.dup());

    let dn_self: Vec4<S> = {
        let h_curl: Vec4<S> = compute_curl(grid, &idx3, idx, h, &h_self, false);
        let old_dn: &Vec4<S> = &dn[idx];
        ints.en = ints.en.plus(&en_self);
        let mut dn_self: Vec4<S> = m.dn1.times(old_dn).plus(&m.dn2.times(&h_curl)).plus(
            &m.dn_loss1.times(&en_self),
        ).plus(&m.dn_loss2.times(&ints.en)).plus(&Vec4::splat(&dipole_src_term));
        if !matches!(grid.dim, Dim::One) {
            ints.h_curl = ints.h_curl.plus(&h_curl);
            dn_self = dn_self.plus(&m.dn3.times(&ints.h_curl));
            if matches!(grid.dim, Dim::Three) {
                ints.dn = ints.dn.plus(old_dn);
                dn_self = dn_self.plus(&m.dn4.times(&ints.dn));
            }
        }
        dn_self
    };
    en.set(idx, m.en1.times(&dn_self));
    dn.set(idx, dn_self);
    integrals.set(idx, ints);

    if is_first(&idx3) {
        *steps = *steps + 1;
    }
}

} // verus!
