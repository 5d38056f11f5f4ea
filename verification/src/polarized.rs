//! An update that computes only the components that the polarization mode names.
use crate::axis::{Axis, Dim};
use crate::clamped::{
    compute_curl, compute_source_sum, curl_along, is_first, source_sum, GpuDipole, GridParameters2,
};
use crate::params::{PmlCoefficients, PmlIntegrals};
use crate::polarization::live_axes;
use crate::scalar::{bit, bit_spec, Scalar};
use crate::update::FieldCell;
use crate::vector::{UVec3, Vec4};
use vstd::prelude::*;

verus! {

/// The H field of a cell and its sums after the first `k` of `axes` have been updated.
pub open spec fn h_updated<S: Scalar>(
    grid: GridParameters2<S>,
    c: UVec3,
    axes: Seq<Axis>,
    m: PmlCoefficients<S>,
    en: Seq<Vec4<S>>,
    src: S,
    h: Vec4<S>,
    ints: PmlIntegrals<S>,
    k: nat,
) -> (Vec4<S>, PmlIntegrals<S>)
    decreases k,
{
    if k == 0 {
        (h, ints)
    } else {
        let (v, ints) = h_updated(grid, c, axes, m, en, src, h, ints, (k - 1) as nat);
        let a = axes[k - 1];
        let curl = curl_along(grid, c, en, en[grid.place(c)], a, true);
        let curl_sum = ints.en_curl.with_spec(a, ints.en_curl.at(a) + curl);
        let v_sum = ints.h.with_spec(a, ints.h.at(a) + v.at(a));
        let new1 = m.h1.at(a) * v.at(a) + m.h2.at(a) * curl + src;
        let new2 = new1 + m.h3.at(a) * curl_sum.at(a);
        let new3 = new2 + m.h4.at(a) * v_sum.at(a);
        match grid.dim {
            Dim::One => (v.with_spec(a, new1), ints),
            Dim::Two => (v.with_spec(a, new2), PmlIntegrals { en_curl: curl_sum, ..ints }),
            Dim::Three => (
                v.with_spec(a, new3),
                PmlIntegrals { en_curl: curl_sum, h: v_sum, ..ints },
            ),
        }
    }
}

/// The D field of a cell and its sums after the first `k` of `axes` have been updated.
pub open spec fn dn_updated<S: Scalar>(
    grid: GridParameters2<S>,
    c: UVec3,
    axes: Seq<Axis>,
    m: PmlCoefficients<S>,
    h: Seq<Vec4<S>>,
    en_self: Vec4<S>,
    src: S,
    dn: Vec4<S>,
    ints: PmlIntegrals<S>,
    k: nat,
) -> (Vec4<S>, PmlIntegrals<S>)
    decreases k,
{
    if k == 0 {
        (dn, ints)
    } else {
        let (v, ints) = dn_updated(grid, c, axes, m, h, en_self, src, dn, ints, (k - 1) as nat);
        let a = axes[k - 1];
        let curl = curl_along(grid, c, h, h[grid.place(c)], a, false);
        let en_sum = ints.en.with_spec(a, ints.en.at(a) + en_self.at(a));
        let curl_sum = ints.h_curl.with_spec(a, ints.h_curl.at(a) + curl);
        let v_sum = ints.dn.with_spec(a, ints.dn.at(a) + v.at(a));
        let new1 = m.dn1.at(a) * v.at(a) + m.dn2.at(a) * curl + m.dn_loss1.at(a) * en_self.at(a)
            + m.dn_loss2.at(a) * en_sum.at(a) + src;
        let new2 = new1 + m.dn3.at(a) * curl_sum.at(a);
        let new3 = new2 + m.dn4.at(a) * v_sum.at(a);
        let ints = PmlIntegrals { en: en_sum, ..ints };
        match grid.dim {
            Dim::One => (v.with_spec(a, new1), ints),
            Dim::Two => (v.with_spec(a, new2), PmlIntegrals { h_curl: curl_sum, ..ints }),
            Dim::Three => (
                v.with_spec(a, new3),
                PmlIntegrals { h_curl: curl_sum, dn: v_sum, ..ints },
            ),
        }
    }
}

/// The E field of a cell after the first `k` of `axes` have been updated.
pub open spec fn en_updated<S: Scalar>(
    axes: Seq<Axis>,
    en1: Vec4<S>,
    dn: Vec4<S>,
    en: Vec4<S>,
    k: nat,
) -> Vec4<S>
    decreases k,
{
    if k == 0 {
        en
    } else {
        let a = axes[k - 1];
        en_updated(axes, en1, dn, en, (k - 1) as nat).with_spec(a, en1.at(a) * dn.at(a))
    }
}

/// The fields of the cell `c` and its sums after a step. The sources drive the D field in TM mode
/// and the H field in TE mode.
pub open spec fn polarized_step<S: Scalar>(
    grid: GridParameters2<S>,
    c: UVec3,
    h: Seq<Vec4<S>>,
    dn: Seq<Vec4<S>>,
    en: Seq<Vec4<S>>,
    ints: PmlIntegrals<S>,
    m: PmlCoefficients<S>,
    source: S,
) -> (FieldCell<S>, PmlIntegrals<S>) {
    let idx = grid.place(c);
    let mode = grid.polarization_mode;
    let h_axes = mode.h_list();
    let dn_axes = mode.dn_list();
    let (new_h, ints) = h_updated(
        grid,
        c,
        h_axes,
        m,
        en,
        source * bit_spec::<S>(mode.is_te_spec()),
        h[idx],
        ints,
        h_axes.len(),
    );
    let (new_dn, ints) = dn_updated(
        grid,
        c,
        dn_axes,
        m,
        h.update(idx, new_h),
        en[idx],
        source * bit_spec::<S>(mode.is_tm_spec()),
        dn[idx],
        ints,
        dn_axes.len(),
    );
    let new_en = en_updated(dn_axes, m.en1, new_dn, en[idx], dn_axes.len());
    (FieldCell { h: new_h, dn: new_dn, en: new_en }, ints)
}

/// N-dimensional FDTD update with loss (conductivity): advance the fields of a cell and its sums by
/// a step. Threads outside the grid change nothing; the first cell also counts the step.
pub fn fdtd_lossy<S: Scalar>(
    idx3: UVec3,
    h: &mut Vec<Vec4<S>>,
    dn: &mut Vec<Vec4<S>>,
    en: &mut Vec<Vec4<S>>,
    integrals: &mut Vec<PmlIntegrals<S>>,
    grid_coeffs: &Vec<PmlCoefficients<S>>,
    dipoles: &Vec<GpuDipole>,
    source_vals: &Vec<S>,
    steps: &mut u32,
    grid: &GridParameters2<S>,
)
    requires
        grid.wf(),
        old(h).len() >= grid.cell_count(),
        old(dn).len() >= grid.cell_count(),
        old(en).len() >= grid.cell_count(),
        old(integrals).len() >= grid.cell_count(),
        grid_coeffs.len() >= grid.cell_count(),
        forall|k: int|
            0 <= k < dipoles.len() ==> (#[trigger] dipoles[k]).vals_range[1] < source_vals.len(),
        idx3 == UVec3::splat_spec(0) ==> *old(steps) < u32::MAX,
    ensures
        idx3.below(grid.n_cells3) ==> ({
            let idx = grid.place(idx3);
            let (cell, ints) = polarized_step(
                *grid,
                idx3,
                old(h)@,
                old(dn)@,
                old(en)@,
                old(integrals)@[idx],
                grid_coeffs[idx],
                source_sum(dipoles@, source_vals@, *old(steps), idx, dipoles.len() as nat),
            );
            &&& final(h)@ == old(h)@.update(idx, cell.h)
            &&& final(dn)@ == old(dn)@.update(idx, cell.dn)
            &&& final(en)@ == old(en)@.update(idx, cell.en)
            &&& final(integrals)@ == old(integrals)@.update(idx, ints)
        }),
        !idx3.below(grid.n_cells3) ==> ({
            &&& final(h)@ == old(h)@
            &&& final(dn)@ == old(dn)@
            &&& final(en)@ == old(en)@
            &&& final(integrals)@ == old(integrals)@
        }),
        *final(steps) == *old(steps) + if idx3 == UVec3::splat_spec(0) {
            1int
        } else {
            0
        },
{
    if !idx3.all_below(&grid.n_cells3) {
        return ;
    }
    let idx: usize = grid.cell_place(&idx3);
    let source_term: S = compute_source_sum(dipoles, source_vals, *steps, idx);
    let m: &PmlCoefficients<S> = &grid_coeffs[idx];
    let mut ints: PmlIntegrals<S> = integrals[idx].dup();
    let ghost ints0 = ints;
    let h_axes: Vec<Axis> = live_axes(&grid.polarization_mode.get_h_axes());
    let dn_axes: Vec<Axis> = live_axes(&grid.polarization_mode.get_dn_axes());
    let en_self: Vec4<S> = en[idx].dup();

    let h_source: S = source_term.times(&bit(grid.polarization_mode.is_te()));
    let mut h_self: Vec4<S> = h[idx].dup();
    let ghost h0 = h_self;
    for i in 0..h_axes.len()
        invariant
            grid.wf(),
            idx3.below(grid.n_cells3),
            idx == grid.place(idx3),
            idx < en.len(),
            en_self == en[idx as int],
            forall|k: int| 0 <= k < h_axes.len() ==> (#[trigger] h_axes[k]).valid(),
            (h_self, ints) == h_updated(
                *grid,
                idx3,
                h_axes@,
                *m,
                en@,
                h_source,
                h0,
                ints0,
                i as nat,
            ),
    {
        let a: Axis = h_axes[i];
        let en_curl: S = compute_curl(grid, &idx3, idx, en, &en_self, a, true);
        let mut new: S = m.h1.get(a).times(h_self.get(a)).plus(&m.h2.get(a).times(&en_curl)).plus(
            &h_source,
        );
        if !matches!(grid.dim, Dim::One) {
            let curl_sum: S = ints.en_curl.get(a).plus(&en_curl);
            ints.en_curl.put(a, curl_sum);
            new = new.plus(&m.h3.get(a).times(ints.en_curl.get(a)));
            if matches!(grid.dim, Dim::Three) {
                let v_sum: S = ints.h.get(a).plus(h_self.get(a));
                ints.h.put(a, v_sum);
                new = new.plus(&m.h4.get(a).times(ints.h.get(a)));
            }
        }
        h_self.put(a, new);
    }
    h.set(idx, h_self.dup());
    let ghost ints1 = ints;

    let dn_source: S = source_term.times(&bit(grid.polarization_mode.is_tm()));
    let mut dn_self: Vec4<S> = dn[idx].dup();
    let ghost dn0 = dn_self;
    for i in 0..dn_axes.len()
        invariant
            grid.wf(),
            idx3.below(grid.n_cells3),
            idx == grid.place(idx3),
            idx < h.len(),
            h_self == h[idx as int],
            forall|k: int| 0 <= k < dn_axes.len() ==> (#[trigger] dn_axes[k]).valid(),
            (dn_self, ints) == dn_updated(
                *grid,
                idx3,
                dn_axes@,
                *m,
                h@,
                en_self,
                dn_source,
                dn0,
                ints1,
                i as nat,
            ),
    {
        let a: Axis = dn_axes[i];
        let h_curl: S = compute_curl(grid, &idx3, idx, h, &h_self, a, false);
        let en_sum: S = ints.en.get(a).plus(en_self.get(a));
        ints.en.put(a, en_sum);
        let mut new: S = m.dn1.get(a).times(dn_self.get(a)).plus(
            &m.dn2.get(a).times(&h_curl),
        ).plus(&m.dn_loss1.get(a).times(en_self.get(a))).plus(
            &m.dn_loss2.get(a).times(ints.en.get(a)),
        ).plus(&dn_source);
        if !matches!(grid.dim, Dim::One) {
            let curl_sum: S = ints.h_curl.get(a).plus(&h_curl);
            ints.h_curl.put(a, curl_sum);
            new = new.plus(&m.dn3.get(a).times(ints.h_curl.get(a)));
            if matches!(grid.dim, Dim::Three) {
                let v_sum: S = ints.dn.get(a).plus(dn_self.get(a));
                ints.dn.put(a, v_sum);
                new = new.plus(&m.dn4.get(a).times(ints.dn.get(a)));
            }
        }
        dn_self.put(a, new);
    }

    let mut new_en: Vec4<S> = en_self.dup();
    for i in 0..dn_axes.len()
        invariant
            forall|k: int| 0 <= k < dn_axes.len() ==> (#[trigger] dn_axes[k]).valid(),
            new_en == en_updated(dn_axes@, m.en1, dn_self, en_self, i as nat),
    {
        let a: Axis = dn_axes[i];
        let new: S = m.en1.get(a).times(dn_self.get(a));
        new_en.put(a, new);
    }
    dn.set(idx, dn_self);
    en.set(idx, new_en);
    integrals.set(idx, ints);

    if is_first(&idx3) {
        *steps = *steps + 1;
    }
}

} // verus!
