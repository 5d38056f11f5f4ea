//! Updates whose coefficients and sums are tables: one row per axis.
use crate::axis::{Axis, AxisIndex, Dim};
use crate::clamped::{
    compute_curl, compute_source_sum, curl_along, is_first, source_sum, GpuDipole, GridParameters2,
};
use crate::polarization::live_axes;
use crate::scalar::{bit, bit_spec, Scalar};
use crate::update::FieldCell;
use crate::vector::{UVec3, Vec4};
use vstd::prelude::*;

verus! {

/// Update coefficients for H, D, and E fields with a UPML.
///
/// A dimension uses as many entries of a row as it has terms: 2, 3 or 4 for H and 4, 5 or 6 for D.
#[derive(Copy, Clone, Debug)]
pub struct PmlCoefficients2<S> {
    pub h_coeffs: [[S; 4]; 3],
    pub dn_coeffs: [[S; 6]; 3],
    pub en_coeffs: [S; 3],
}

impl<S: Scalar> Default for PmlCoefficients2<S> {
    /// Zero everywhere.
    fn default() -> (r: Self)
        ensures
            forall|i: int, j: int|
                0 <= i < 3 && 0 <= j < 4 ==> #[trigger] r.h_coeffs@[i]@[j] == S::zero_spec(),
            forall|i: int, j: int|
                0 <= i < 3 && 0 <= j < 6 ==> #[trigger] r.dn_coeffs@[i]@[j] == S::zero_spec(),
            forall|i: int| 0 <= i < 3 ==> #[trigger] r.en_coeffs@[i] == S::zero_spec(),
    {
        PmlCoefficients2 {
            h_coeffs: [zero_row4(), zero_row4(), zero_row4()],
            dn_coeffs: [zero_row6(), zero_row6(), zero_row6()],
            en_coeffs: [S::zero(), S::zero(), S::zero()],
        }
    }
}

fn zero_row4<S: Scalar>() -> (r: [S; 4])
    ensures
        forall|j: int| 0 <= j < 4 ==> #[trigger] r@[j] == S::zero_spec(),
{
    [S::zero(), S::zero(), S::zero(), S::zero()]
}

fn zero_row6<S: Scalar>() -> (r: [S; 6])
    ensures
        forall|j: int| 0 <= j < 6 ==> #[trigger] r@[j] == S::zero_spec(),
{
    [S::zero(), S::zero(), S::zero(), S::zero(), S::zero(), S::zero()]
}

/// Integration terms used in updating H and D fields.
///
/// A dimension uses as many entries of a row as it sums: 0, 1 or 2 for H and 1, 2 or 3 for D.
#[derive(Copy, Clone, Debug)]
pub struct IntegrationTerms<S> {
    pub h: [[S; 2]; 3],
    pub dn: [[S; 3]; 3],
}

impl<S: Scalar> Default for IntegrationTerms<S> {
    /// Zero everywhere.
    fn default() -> (r: Self)
        ensures
            forall|i: int, j: int|
                0 <= i < 3 && 0 <= j < 2 ==> #[trigger] r.h@[i]@[j] == S::zero_spec(),
            forall|i: int, j: int|
                0 <= i < 3 && 0 <= j < 3 ==> #[trigger] r.dn@[i]@[j] == S::zero_spec(),
    {
        IntegrationTerms {
            h: [
                [S::zero(), S::zero()],
                [S::zero(), S::zero()],
                [S::zero(), S::zero()],
            ],
            dn: [
                [S::zero(), S::zero(), S::zero()],
                [S::zero(), S::zero(), S::zero()],
                [S::zero(), S::zero(), S::zero()],
            ],
        }
    }
}

impl<S> IntegrationTerms<S> {
    /// The sums of the H field, row by row.
    pub open spec fn h_table(self) -> Seq<Seq<S>> {
        self.h@.map_values(|r: [S; 2]| r@)
    }

    /// The sums of the D field, row by row.
    pub open spec fn dn_table(self) -> Seq<Seq<S>> {
        self.dn@.map_values(|r: [S; 3]| r@)
    }
}

impl<S: Scalar> IntegrationTerms<S> {
    fn dup(&self) -> (r: Self)
        ensures
            r.h_table() == self.h_table(),
            r.dn_table() == self.dn_table(),
    {
        let r = IntegrationTerms {
            h: [
                [self.h[0][0].dup(), self.h[0][1].dup()],
                [self.h[1][0].dup(), self.h[1][1].dup()],
                [self.h[2][0].dup(), self.h[2][1].dup()],
            ],
            dn: [
                [self.dn[0][0].dup(), self.dn[0][1].dup(), self.dn[0][2].dup()],
                [self.dn[1][0].dup(), self.dn[1][1].dup(), self.dn[1][2].dup()],
                [self.dn[2][0].dup(), self.dn[2][1].dup(), self.dn[2][2].dup()],
            ],
        };
        assert forall|i: int| 0 <= i < 3 implies #[trigger] r.h_table()[i] == self.h_table()[i] by {
            assert(r.h@[i]@ =~= self.h@[i]@);
        }
        assert forall|i: int| 0 <= i < 3 implies #[trigger] r.dn_table()[i]
            == self.dn_table()[i] by {
            assert(r.dn@[i]@ =~= self.dn@[i]@);
        }
        assert(r.h_table() =~= self.h_table());
        assert(r.dn_table() =~= self.dn_table());
        r
    }

    /// Add `v` to a sum of the H field.
    fn add_h(&mut self, axis: usize, entry: usize, v: &S)
        requires
            axis < 3,
            entry < 2,
        ensures
            final(self).h_table() == added(old(self).h_table(), axis as int, entry as int, *v),
            final(self).dn_table() == old(self).dn_table(),
    {
        let sum: S = self.h[axis][entry].plus(v);
        self.h[axis][entry] = sum;
        assert(self.h_table() =~= added(old(self).h_table(), axis as int, entry as int, *v));
    }

    /// Add `v` to a sum of the D field.
    fn add_dn(&mut self, axis: usize, entry: usize, v: &S)
        requires
            axis < 3,
            entry < 3,
        ensures
            final(self).dn_table() == added(old(self).dn_table(), axis as int, entry as int, *v),
            final(self).h_table() == old(self).h_table(),
    {
        let sum: S = self.dn[axis][entry].plus(v);
        self.dn[axis][entry] = sum;
        assert(self.dn_table() =~= added(old(self).dn_table(), axis as int, entry as int, *v));
    }
}

/// `table` with `v` added to one entry.
pub open spec fn added<S: Scalar>(table: Seq<Seq<S>>, row: int, entry: int, v: S) -> Seq<Seq<S>> {
    table.update(row, table[row].update(entry, table[row][entry] + v))
}

/// Which of the two updates: in place, components that the mode does not name keep their value and
/// the source is added before the sums; otherwise they become zero and the source is added last.
#[derive(Copy, Clone, Debug, PartialEq, Eq, Structural)]
pub enum Variant {
    Fresh,
    InPlace,
}

/// The H field of a cell and its sums after the first `k` of `axes` have been updated.
pub open spec fn h_updated<S: Scalar>(
    variant: Variant,
    grid: GridParameters2<S>,
    c: UVec3,
    axes: Seq<Axis>,
    m: PmlCoefficients2<S>,
    en: Seq<Vec4<S>>,
    src: S,
    h: Vec4<S>,
    sums: Seq<Seq<S>>,
    k: nat,
) -> (Vec4<S>, Seq<Seq<S>>)
    decreases k,
{
    if k == 0 {
        (
            if variant == Variant::InPlace {
                h
            } else {
                Vec4::zero_spec()
            },
            sums,
        )
    } else {
        let (acc, sums) = h_updated(
            variant,
            grid,
            c,
            axes,
            m,
            en,
            src,
            h,
            sums,
            (k - 1) as nat,
        );
        let axis = axes[k - 1];
        let a = axis.index_spec() as int;
        let v = if variant == Variant::InPlace {
            acc.at(axis)
        } else {
            h.at(axis)
        };
        let curl = curl_along(grid, c, en, en[grid.place(c)], axis, true);
        let driven = m.h_coeffs[a][0] * v + m.h_coeffs[a][1] * curl;
        let term1 = if variant == Variant::InPlace {
            driven + src
        } else {
            driven
        };
        let sums1 = if grid.dim == Dim::One {
            sums
        } else {
            added(sums, a, 0, curl)
        };
        let term2 = if grid.dim == Dim::One {
            term1
        } else {
            term1 + m.h_coeffs[a][2] * sums1[a][0]
        };
        let sums2 = if grid.dim == Dim::Three {
            added(sums1, a, 1, v)
        } else {
            sums1
        };
        let term3 = if grid.dim == Dim::Three {
            term2 + m.h_coeffs[a][3] * sums2[a][1]
        } else {
            term2
        };
        let new = if variant == Variant::InPlace {
            term3
        } else {
            term3 + src
        };
        (acc.with_spec(axis, new), sums2)
    }
}

/// The D field of a cell and its sums after the first `k` of `axes` have been updated.
pub open spec fn dn_updated<S: Scalar>(
    variant: Variant,
    grid: GridParameters2<S>,
    c: UVec3,
    axes: Seq<Axis>,
    m: PmlCoefficients2<S>,
    h: Seq<Vec4<S>>,
    en_self: Vec4<S>,
    src: S,
    dn: Vec4<S>,
    sums: Seq<Seq<S>>,
    k: nat,
) -> (Vec4<S>, Seq<Seq<S>>)
    decreases k,
{
    if k == 0 {
        (
            if variant == Variant::InPlace {
                dn
            } else {
                Vec4::zero_spec()
            },
            sums,
        )
    } else {
        let (acc, sums) = dn_updated(
            variant,
            grid,
            c,
            axes,
            m,
            h,
            en_self,
            src,
            dn,
            sums,
            (k - 1) as nat,
        );
        let axis = axes[k - 1];
        let a = axis.index_spec() as int;
        let v = if variant == Variant::InPlace {
            acc.at(axis)
        } else {
            dn.at(axis)
        };
        let curl = curl_along(grid, c, h, h[grid.place(c)], axis, false);
        let sums0 = added(sums, a, 0, en_self.at(axis));
        let driven = m.dn_coeffs[a][0] * v + m.dn_coeffs[a][1] * curl + m.dn_coeffs[a][2]
            * en_self.at(axis) + m.dn_coeffs[a][3] * sums0[a][0];
        let term1 = if variant == Variant::InPlace {
            driven + src
        } else {
            driven
        };
        let sums1 = if grid.dim == Dim::One {
            sums0
        } else {
            added(sums0, a, 1, curl)
        };
        let term2 = if grid.dim == Dim::One {
            term1
        } else {
            term1 + m.dn_coeffs[a][4] * sums1[a][1]
        };
        let sums2 = if grid.dim == Dim::Three {
            added(sums1, a, 2, v)
        } else {
            sums1
        };
        let term3 = if grid.dim == Dim::Three {
            term2 + m.dn_coeffs[a][5] * sums2[a][2]
        } else {
            term2
        };
        let new = if variant == Variant::InPlace {
            term3
        } else {
            term3 + src
        };
        (acc.with_spec(axis, new), sums2)
    }
}

/// The E field of a cell after the first `k` of `axes` have been updated.
pub open spec fn en_updated<S: Scalar>(
    axes: Seq<Axis>,
    coeffs: [S; 3],
    dn: Vec4<S>,
    en: Vec4<S>,
    k: nat,
) -> Vec4<S>
    decreases k,
{
    if k == 0 {
        en
    } else {
        let a = axes[k - 1];
        en_updated(axes, coeffs, dn, en, (k - 1) as nat).with_spec(
            a,
            coeffs[a.index_spec() as int] * dn.at(a),
        )
    }
}

/// The fields of the cell `c` after a step, and its sums of the H and of the D field. The sources
/// drive the D field in TM mode and the H field in TE mode.
pub open spec fn tabled_step<S: Scalar>(
    variant: Variant,
    grid: GridParameters2<S>,
    c: UVec3,
    h: Seq<Vec4<S>>,
    dn: Seq<Vec4<S>>,
    en: Seq<Vec4<S>>,
    ints: IntegrationTerms<S>,
    m: PmlCoefficients2<S>,
    source: S,
) -> (FieldCell<S>, Seq<Seq<S>>, Seq<Seq<S>>) {
    let idx = grid.place(c);
    let mode = grid.polarization_mode;
    let h_axes = mode.h_list();
    let dn_axes = mode.dn_list();
    let (new_h, h_sums) = h_updated(
        variant,
        grid,
        c,
        h_axes,
        m,
        en,
        source * bit_spec::<S>(mode.is_te_spec()),
        h[idx],
        ints.h_table(),
        h_axes.len(),
    );
    let (new_dn, dn_sums) = dn_updated(
        variant,
        grid,
        c,
        dn_axes,
        m,
        h.update(idx, new_h),
        en[idx],
        source * bit_spec::<S>(mode.is_tm_spec()),
        dn[idx],
        ints.dn_table(),
        dn_axes.len(),
    );
    let new_en = en_updated(dn_axes, m.en_coeffs, new_dn, en[idx], dn_axes.len());
    (FieldCell { h: new_h, dn: new_dn, en: new_en }, h_sums, dn_sums)
}

fn update_h<S: Scalar>(
    variant: Variant,
    grid: &GridParameters2<S>,
    c: &UVec3,
    idx: usize,
    axes: &Vec<Axis>,
    m: &PmlCoefficients2<S>,
    en: &Vec<Vec4<S>>,
    src: &S,
    h_cell: &Vec4<S>,
    sums: &mut IntegrationTerms<S>,
) -> (r: Vec4<S>)
    requires
        grid.wf(),
        c.below(grid.n_cells3),
        idx == grid.place(*c),
        idx < en.len(),
        forall|k: int| 0 <= k < axes.len() ==> (#[trigger] axes[k]).valid(),
    ensures
        (r, final(sums).h_table()) == h_updated(
            variant,
            *grid,
            *c,
            axes@,
            *m,
            en@,
            *src,
            *h_cell,
            old(sums).h_table(),
            axes.len() as nat,
        ),
        final(sums).dn_table() == old(sums).dn_table(),
{
    let mut new_h: Vec4<S> = if variant == Variant::InPlace {
        h_cell.dup()
    } else {
        Vec4::zero()
    };
    for i in 0..axes.len()
        invariant
            grid.wf(),
            c.below(grid.n_cells3),
            idx == grid.place(*c),
            idx < en.len(),
            forall|k: int| 0 <= k < axes.len() ==> (#[trigger] axes[k]).valid(),
            (new_h, sums.h_table()) == h_updated(
                variant,
                *grid,
                *c,
                axes@,
                *m,
                en@,
                *src,
                *h_cell,
                old(sums).h_table(),
                i as nat,
            ),
            sums.dn_table() == old(sums).dn_table(),
    {
        let axis: Axis = axes[i];
        let a: usize = AxisIndex::from_axis(axis).as_usize();
        let v: S = if variant == Variant::InPlace {
            new_h.get(axis).dup()
        } else {
            h_cell.get(axis).dup()
        };
        let en_curl: S = compute_curl(grid, c, idx, en, &en[idx], axis, true);
        let mut new: S = m.h_coeffs[a][0].times(&v).plus(&m.h_coeffs[a][1].times(&en_curl));
        if variant == Variant::InPlace {
            new = new.plus(src);
        }
        if !matches!(grid.dim, Dim::One) {
            sums.add_h(a, 0, &en_curl);
            assert(sums.h_table()[a as int] == sums.h@[a as int]@);
            new = new.plus(&m.h_coeffs[a][2].times(&sums.h[a][0]));
            if matches!(grid.dim, Dim::Three) {
                sums.add_h(a, 1, &v);
                assert(sums.h_table()[a as int] == sums.h@[a as int]@);
                new = new.plus(&m.h_coeffs[a][3].times(&sums.h[a][1]));
            }
        }
        if variant != Variant::InPlace {
            new = new.plus(src);
        }
        new_h.put(axis, new);
    }
    new_h
}

fn update_dn<S: Scalar>(
    variant: Variant,
    grid: &GridParameters2<S>,
    c: &UVec3,
    idx: usize,
    axes: &Vec<Axis>,
    m: &PmlCoefficients2<S>,
    h: &Vec<Vec4<S>>,
    en_cell: &Vec4<S>,
    src: &S,
    dn_cell: &Vec4<S>,
    sums: &mut IntegrationTerms<S>,
) -> (r: Vec4<S>)
    requires
        grid.wf(),
        c.below(grid.n_cells3),
        idx == grid.place(*c),
        idx < h.len(),
        forall|k: int| 0 <= k < axes.len() ==> (#[trigger] axes[k]).valid(),
    ensures
        (r, final(sums).dn_table()) == dn_updated(
            variant,
            *grid,
            *c,
            axes@,
            *m,
            h@,
            *en_cell,
            *src,
            *dn_cell,
            old(sums).dn_table(),
            axes.len() as nat,
        ),
        final(sums).h_table() == old(sums).h_table(),
{
    let mut new_dn: Vec4<S> = if variant == Variant::InPlace {
        dn_cell.dup()
    } else {
        Vec4::zero()
    };
    for i in 0..axes.len()
        invariant
            grid.wf(),
            c.below(grid.n_cells3),
            idx == grid.place(*c),
            idx < h.len(),
            forall|k: int| 0 <= k < axes.len() ==> (#[trigger] axes[k]).valid(),
            (new_dn, sums.dn_table()) == dn_updated(
                variant,
                *grid,
                *c,
                axes@,
                *m,
                h@,
                *en_cell,
                *src,
                *dn_cell,
                old(sums).dn_table(),
                i as nat,
            ),
            sums.h_table() == old(sums).h_table(),
    {
        let axis: Axis = axes[i];
        let a: usize = AxisIndex::from_axis(axis).as_usize();
        let v: S = if variant == Variant::InPlace {
            new_dn.get(axis).dup()
        } else {
            dn_cell.get(axis).dup()
        };
        let h_curl: S = compute_curl(grid, c, idx, h, &h[idx], axis, false);
        sums.add_dn(a, 0, en_cell.get(axis));
        assert(sums.dn_table()[a as int] == sums.dn@[a as int]@);
        let mut new: S = m.dn_coeffs[a][0].times(&v).plus(&m.dn_coeffs[a][1].times(&h_curl)).plus(
            &m.dn_coeffs[a][2].times(en_cell.get(axis)),
        ).plus(&m.dn_coeffs[a][3].times(&sums.dn[a][0]));
        if variant == Variant::InPlace {
            new = new.plus(src);
        }
        if !matches!(grid.dim, Dim::One) {
            sums.add_dn(a, 1, &h_curl);
            assert(sums.dn_table()[a as int] == sums.dn@[a as int]@);
            new = new.plus(&m.dn_coeffs[a][4].times(&sums.dn[a][1]));
            if matches!(grid.dim, Dim::Three) {
                sums.add_dn(a, 2, &v);
                assert(sums.dn_table()[a as int] == sums.dn@[a as int]@);
                new = new.plus(&m.dn_coeffs[a][5].times(&sums.dn[a][2]));
            }
        }
        if variant != Variant::InPlace {
            new = new.plus(src);
        }
        new_dn.put(axis, new);
    }
    new_dn
}

fn update_en<S: Scalar>(
    axes: &Vec<Axis>,
    coeffs: &[S; 3],
    dn_cell: &Vec4<S>,
    en_cell: &Vec4<S>,
) -> (r: Vec4<S>)
    requires
        forall|k: int| 0 <= k < axes.len() ==> (#[trigger] axes[k]).valid(),
    ensures
        r == en_updated(axes@, *coeffs, *dn_cell, *en_cell, axes.len() as nat),
{
    let mut new_en: Vec4<S> = en_cell.dup();
    for i in 0..axes.len()
        invariant
            forall|k: int| 0 <= k < axes.len() ==> (#[trigger] axes[k]).valid(),
            new_en == en_updated(axes@, *coeffs, *dn_cell, *en_cell, i as nat),
    {
        let axis: Axis = axes[i];
        let new: S = AxisIndex::from_axis(axis).element_of(coeffs).times(dn_cell.get(axis));
        new_en.put(axis, new);
    }
    new_en
}

/// What a thread does to the buffers in either variant.
pub open spec fn tabled_effect<S: Scalar>(
    variant: Variant,
    idx3: UVec3,
    before: (Seq<Vec4<S>>, Seq<Vec4<S>>, Seq<Vec4<S>>, Seq<IntegrationTerms<S>>, u32),
    behind: (Seq<Vec4<S>>, Seq<Vec4<S>>, Seq<Vec4<S>>, Seq<IntegrationTerms<S>>, u32),
    grid_coeffs: Seq<PmlCoefficients2<S>>,
    dipoles: Seq<GpuDipole>,
    source_vals: Seq<S>,
    grid: GridParameters2<S>,
) -> bool {
    let (h, dn, en, ints, steps) = before;
    let idx = grid.place(idx3);
    if idx3.below(grid.n_cells3) {
        let (cell, h_sums, dn_sums) = tabled_step(
            variant,
            grid,
            idx3,
            h,
            dn,
            en,
            ints[idx],
            grid_coeffs[idx],
            source_sum(dipoles, source_vals, steps, idx, dipoles.len()),
        );
        &&& behind.0 == h.update(idx, cell.h)
        &&& behind.1 == dn.update(idx, cell.dn)
        &&& behind.2 == en.update(idx, cell.en)
        &&& behind.3 == ints.update(idx, behind.3[idx])
        &&& behind.3[idx].h_table() == h_sums
        &&& behind.3[idx].dn_table() == dn_sums
        &&& behind.4 == steps + if idx3 == UVec3::splat_spec(0) {
            1int
        } else {
            0
        }
    } else {
        behind == before
    }
}

fn update_cell<S: Scalar>(
    variant: Variant,
    idx3: UVec3,
    h: &mut Vec<Vec4<S>>,
    dn: &mut Vec<Vec4<S>>,
    en: &mut Vec<Vec4<S>>,
    int_terms: &mut Vec<IntegrationTerms<S>>,
    grid_coeffs: &Vec<PmlCoefficients2<S>>,
    dipoles: &Vec<GpuDipole>,
    source_vals: &Vec<S>,
    steps: &mut u32,
    grid: &GridParameters2<S>,
)
    requires
        grid.wf(),
        old(h).len() >= grid.cell_count(),
        old(dn).len() >= grid.cell_count(),
        old(en).len() >= grid.cell_count(),
        old(int_terms).len() >= grid.cell_count(),
        grid_coeffs.len() >= grid.cell_count(),
        forall|k: int|
            0 <= k < dipoles.len() ==> (#[trigger] dipoles[k]).vals_range[1] < source_vals.len(),
        idx3 == UVec3::splat_spec(0) ==> *old(steps) < u32::MAX,
    ensures
        tabled_effect(
            variant,
            idx3,
            (old(h)@, old(dn)@, old(en)@, old(int_terms)@, *old(steps)),
            (final(h)@, final(dn)@, final(en)@, final(int_terms)@, *final(steps)),
            grid_coeffs@,
            dipoles@,
            source_vals@,
            *grid,
        ),
{
    if !idx3.all_below(&grid.n_cells3) {
        return ;
    }
    let idx: usize = grid.cell_place(&idx3);
    let m: &PmlCoefficients2<S> = &grid_coeffs[idx];
    let mut sums: IntegrationTerms<S> = int_terms[idx].dup();
    let en_cell: Vec4<S> = en[idx].dup();
    let h_axes: Vec<Axis> = live_axes(&grid.polarization_mode.get_h_axes());
    let dn_axes: Vec<Axis> = live_axes(&grid.polarization_mode.get_dn_axes());
    let source_term: S = compute_source_sum(dipoles, source_vals, *steps, idx);

    let h_source: S = source_term.times(&bit(grid.polarization_mode.is_te()));
    let new_h: Vec4<S> = update_h(
        variant,
        grid,
        &idx3,
        idx,
        &h_axes,
        m,
        en,
        &h_source,
        &h[idx],
        &mut sums,
    );
    h.set(idx, new_h);

    let dn_source: S = source_term.times(&bit(grid.polarization_mode.is_tm()));
    let new_dn: Vec4<S> = update_dn(
        variant,
        grid,
        &idx3,
        idx,
        &dn_axes,
        m,
        h,
        &en_cell,
        &dn_source,
        &dn[idx],
        &mut sums,
    );
    let new_en: Vec4<S> = update_en(&dn_axes, &m.en_coeffs, &new_dn, &en_cell);
    dn.set(idx, new_dn);
    int_terms.set(idx, sums);
    en.set(idx, new_en);

    if is_first(&idx3) {
        *steps = *steps + 1;
    }
}

/// Advance the fields of a cell and its sums by a step. Components that the polarization mode does
/// not name become zero in the H and D fields. Threads outside the grid change nothing; the first
/// cell also counts the step.
pub fn fdtd_lossy<S: Scalar>(
    idx3: UVec3,
    h: &mut Vec<Vec4<S>>,
    dn: &mut Vec<Vec4<S>>,
    en: &mut Vec<Vec4<S>>,
    int_terms: &mut Vec<IntegrationTerms<S>>,
    grid_coeffs: &Vec<PmlCoefficients2<S>>,
    dipoles: &Vec<GpuDipole>,
    source_vals: &Vec<S>,
    steps: &mut u32,
    grid: &GridParameters2<S>,
)
    requires
        grid.wf(),
        old(h).len() >= grid.cell_count(),
        old(dn).len() >= grid.cell_count(),
        old(en).len() >= grid.cell_count(),
        old(int_terms).len() >= grid.cell_count(),
        grid_coeffs.len() >= grid.cell_count(),
        forall|k: int|
            0 <= k < dipoles.len() ==> (#[trigger] dipoles[k]).vals_range[1] < source_vals.len(),
        idx3 == UVec3::splat_spec(0) ==> *old(steps) < u32::MAX,
    ensures
        tabled_effect(
            Variant::Fresh,
            idx3,
            (old(h)@, old(dn)@, old(en)@, old(int_terms)@, *old(steps)),
            (final(h)@, final(dn)@, final(en)@, final(int_terms)@, *final(steps)),
            grid_coeffs@,
            dipoles@,
            source_vals@,
            *grid,
        ),
{
    update_cell(
        Variant::Fresh,
        idx3,
        h,
        dn,
        en,
        int_terms,
        grid_coeffs,
        dipoles,
        source_vals,
        steps,
        grid,
    );
}

/// Advance the fields of a cell and its sums by a step. Components that the polarization mode does
/// not name stay as they are. Threads outside the grid change nothing; the first cell also counts
/// the step.
pub fn fdtd_lossy_v2<S: Scalar>(
    idx3: UVec3,
    h: &mut Vec<Vec4<S>>,
    dn: &mut Vec<Vec4<S>>,
    en: &mut Vec<Vec4<S>>,
    integrals: &mut Vec<IntegrationTerms<S>>,
    grid_coeffs: &Vec<PmlCoefficients2<S>>,
    dipoles: &Vec<GpuDipole>,
    source_vals: &Vec<S>,
    steps: &mut u32,
    grid: &GridParameters2<S>,
)
    requires
        grid.wf(),
        old(h).len() >= grid.cell_count(),
        old(dn).len() >= grid.cell_count(),
        old(en).len() >= grid.cell_count(),
        old(integrals).len() >= grid.cell_count(),
        grid_coeffs.len() >= grid.cell_count(),
        forall|k: int|
            0 <= k < dipoles.len() ==> (#[trigger] dipoles[k]).vals_range[1] < source_vals.len(),
        idx3 == UVec3::splat_spec(0) ==> *old(steps) < u32::MAX,
    ensures
        tabled_effect(
            Variant::InPlace,
            idx3,
            (old(h)@, old(dn)@, old(en)@, old(integrals)@, *old(steps)),
            (final(h)@, final(dn)@, final(en)@, final(integrals)@, *final(steps)),
            grid_coeffs@,
            dipoles@,
            source_vals@,
            *grid,
        ),
{
    update_cell(
        Variant::InPlace,
        idx3,
        h,
        dn,
        en,
        integrals,
        grid_coeffs,
        dipoles,
        source_vals,
        steps,
        grid,
    );
}

} // verus!
