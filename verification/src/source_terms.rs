//! What the sources add to the fields in a step.
use crate::axis::Axis;
use crate::params::{
    DipoleType, GpuDipole, GpuTfsf, GridParameters, PmlCoefficients, SourceTerms, TfsfMask,
    TfsfSourceValues,
};
use crate::saturating::{sat_sub, GpuSaturatingSub};
use crate::scalar::{bit, bit_spec, Scalar};
use crate::vector::{UVec3, Vec4};
use vstd::prelude::*;

verus! {

pub open spec fn smaller_int(a: int, b: int) -> int {
    if a <= b {
        a
    } else {
        b
    }
}

pub open spec fn larger_int(a: int, b: int) -> int {
    if a >= b {
        a
    } else {
        b
    }
}

/// Halfway between `a` and `b`.
pub open spec fn halfway<S: Scalar>(a: S, b: S) -> S {
    a * (S::one_spec() - S::half_spec()) + b * S::half_spec()
}

impl<S: Scalar> GpuDipole<S> {
    /// Where the value of step `t` would be stored if the signal had no end.
    pub open spec fn value_place(self, t: u32) -> int {
        self.vals_start + sat_sub(t as int, self.t_start as int)
    }

    /// The signal lasts from the step `t_start` on, as long as it has values.
    pub open spec fn emits(self, t: u32) -> bool {
        t >= self.t_start && self.value_place(t) <= self.vals_end
    }

    /// The values of the signal are stored below `len`, and their places can be counted.
    pub open spec fn reads_below(self, len: int, t: u32) -> bool {
        &&& self.vals_end < len
        &&& self.value_place(t) <= u32::MAX
        &&& self.dipole_type == DipoleType::Magnetic ==> self.value_place(t) < u32::MAX
    }

    /// `acc` with what this dipole adds to the cell that is stored at `idx` in step `t`. An
    /// electric dipole drives the D field; a magnetic one drives the H field, which is half a step
    /// ahead.
    pub open spec fn injected(
        self,
        acc: SourceTerms<S>,
        vals: Seq<S>,
        t: u32,
        idx: int,
    ) -> SourceTerms<S> {
        let last = self.vals_end as int;
        let val = vals[smaller_int(self.value_place(t), last)];
        let next = vals[smaller_int(self.value_place(t) + 1, last)];
        let on = bit_spec::<S>(self.cell_idx == idx && self.emits(t));
        match self.dipole_type {
            DipoleType::Electric => SourceTerms {
                dn: acc.dn + Vec4::splat_spec(val * on) * self.moment,
                ..acc
            },
            DipoleType::Magnetic => SourceTerms {
                h: acc.h + Vec4::splat_spec(halfway(val, next) * on) * self.moment,
                ..acc
            },
        }
    }

    fn inject(&self, acc: &mut SourceTerms<S>, vals: &Vec<S>, t: u32, idx: usize)
        requires
            self.reads_below(vals.len() as int, t),
        ensures
            *final(acc) == self.injected(*old(acc), vals@, t, idx as int),
    {
        let src_t_idx: u32 = t.gpu_saturating_sub(self.t_start);
        let vals_i: u32 = self.vals_start + src_t_idx;
        let enable = self.cell_idx as usize == idx && t >= self.t_start && vals_i <= self.vals_end;
        let on: S = bit(enable);
        let place: u32 = if vals_i <= self.vals_end {
            vals_i
        } else {
            self.vals_end
        };
        let val: &S = &vals[place as usize];
        match self.dipole_type {
            DipoleType::Electric => {
                acc.dn = acc.dn.plus(&Vec4::splat(&val.times(&on)).times(&self.moment));
            },
            DipoleType::Magnetic => {
                let next_place: u32 = if vals_i + 1 <= self.vals_end {
                    vals_i + 1
                } else {
                    self.vals_end
                };
                let next: &S = &vals[next_place as usize];
                let ahead: S = val.times(&S::one().minus(&S::half())).plus(&next.times(&S::half()));
                acc.h = acc.h.plus(&Vec4::splat(&ahead.times(&on)).times(&self.moment));
            },
        }
    }
}

/// What the first `k` dipoles add to the cell that is stored at `idx` in step `t`.
pub open spec fn dipole_terms<S: Scalar>(
    dipoles: Seq<GpuDipole<S>>,
    vals: Seq<S>,
    t: u32,
    idx: int,
    k: nat,
) -> SourceTerms<S>
    decreases k,
{
    if k == 0 {
        SourceTerms::zero_spec()
    } else {
        dipoles[k - 1].injected(
            dipole_terms(dipoles, vals, t, idx, (k - 1) as nat),
            vals,
            t,
            idx,
        )
    }
}

impl<S: Scalar> GpuTfsf<S> {
    /// The place of the last wavefront value.
    pub open spec fn corrections_last(self) -> int {
        self.corrections_start + self.num_correction_cells - 1
    }

    /// The place of the wavefront value that belongs to a cell whose index along the wave's axis is
    /// `i`.
    pub open spec fn correction_place(self, i: u32) -> int {
        smaller_int(
            self.corrections_start + sat_sub(i as int, sat_sub(self.tf_min_a as int, 1)),
            self.corrections_last(),
        )
    }

    /// The wavefront values are stored below `len`, and the places of those of a cell with the
    /// index `i` along the wave's axis can be counted.
    pub open spec fn corrects_below(self, len: int, i: u32) -> bool {
        &&& self.num_correction_cells >= 1
        &&& self.corrections_start + self.num_correction_cells <= u32::MAX
        &&& self.corrections_last() < len
        &&& self.corrections_start + i <= u32::MAX
    }

    pub open spec fn axes_valid(self) -> bool {
        self.a.valid() && self.a1.valid() && self.a2.valid()
    }

    /// `acc` with the correction terms of this source in a cell: the curls across the boundary of
    /// the total field, which see only one of the two fields, get the wave `before`, `here` or
    /// `behind` the cell added or taken away, as `mask` says.
    pub open spec fn corrected(
        self,
        acc: SourceTerms<S>,
        mask: TfsfMask<S>,
        before: TfsfSourceValues<S>,
        here: TfsfSourceValues<S>,
        behind: TfsfSourceValues<S>,
        coeffs: PmlCoefficients<S>,
    ) -> SourceTerms<S> {
        let (a, a1, a2) = (self.a, self.a1, self.a2);
        let h = acc.h;
        let h = h.with_spec(
            a,
            h.at(a) + coeffs.h2.at(a) * ((-self.inv_d_a1) * (mask.en_src_a2_pa1 * here.en_a2)
                + self.inv_d_a2 * (mask.en_src_a1_pa2 * here.en_a1)),
        );
        let h = h.with_spec(
            a1,
            h.at(a1) + coeffs.h2.at(a1) * (self.inv_d_a * (mask.en_src_a2_pa * behind.en_a2)),
        );
        let h = h.with_spec(
            a2,
            h.at(a2) + coeffs.h2.at(a2) * ((-self.inv_d_a) * (mask.en_src_a1_pa * behind.en_a1)),
        );
        let dn = acc.dn;
        let dn = dn.with_spec(
            a,
            dn.at(a) + coeffs.dn2.at(a) * (self.inv_d_a1 * (mask.h_src_a2_ma1 * here.h_a2)
                - self.inv_d_a2 * (mask.h_src_a1_ma2 * here.h_a1)),
        );
        let dn = dn.with_spec(
            a1,
            dn.at(a1) + coeffs.dn2.at(a1) * ((-self.inv_d_a) * (mask.h_src_a2_ma * before.h_a2)),
        );
        let dn = dn.with_spec(
            a2,
            dn.at(a2) + coeffs.dn2.at(a2) * (self.inv_d_a * (mask.h_src_a1_ma * before.h_a1)),
        );
        SourceTerms { h, dn }
    }

    fn correct(
        &self,
        acc: &mut SourceTerms<S>,
        mask: &TfsfMask<S>,
        before: &TfsfSourceValues<S>,
        here: &TfsfSourceValues<S>,
        behind: &TfsfSourceValues<S>,
        coeffs: &PmlCoefficients<S>,
    )
        requires
            self.axes_valid(),
        ensures
            *final(acc) == self.corrected(*old(acc), *mask, *before, *here, *behind, *coeffs),
    {
        let a: Axis = self.a;
        let a1: Axis = self.a1;
        let a2: Axis = self.a2;
        let en_src_a2_pa1: S = mask.en_src_a2_pa1.times(&here.en_a2);
        let en_src_a1_pa2: S = mask.en_src_a1_pa2.times(&here.en_a1);
        let en_src_a2_pa: S = mask.en_src_a2_pa.times(&behind.en_a2);
        let en_src_a1_pa: S = mask.en_src_a1_pa.times(&behind.en_a1);
        let h_src_a2_ma1: S = mask.h_src_a2_ma1.times(&here.h_a2);
        let h_src_a1_ma2: S = mask.h_src_a1_ma2.times(&here.h_a1);
        let h_src_a2_ma: S = mask.h_src_a2_ma.times(&before.h_a2);
        let h_src_a1_ma: S = mask.h_src_a1_ma.times(&before.h_a1);

        let mut h: Vec4<S> = acc.h.dup();
        let curl: S = self.inv_d_a1.negated().times(&en_src_a2_pa1).plus(
            &self.inv_d_a2.times(&en_src_a1_pa2),
        );
        let new: S = h.get(a).plus(&coeffs.h2.get(a).times(&curl));
        h.put(a, new);
        let curl: S = self.inv_d_a.times(&en_src_a2_pa);
        let new: S = h.get(a1).plus(&coeffs.h2.get(a1).times(&curl));
        h.put(a1, new);
        let curl: S = self.inv_d_a.negated().times(&en_src_a1_pa);
        let new: S = h.get(a2).plus(&coeffs.h2.get(a2).times(&curl));
        h.put(a2, new);

        let mut dn: Vec4<S> = acc.dn.dup();
        let curl: S = self.inv_d_a1.times(&h_src_a2_ma1).minus(
            &self.inv_d_a2.times(&h_src_a1_ma2),
        );
        let new: S = dn.get(a).plus(&coeffs.dn2.get(a).times(&curl));
        dn.put(a, new);
        let curl: S = self.inv_d_a.negated().times(&h_src_a2_ma);
        let new: S = dn.get(a1).plus(&coeffs.dn2.get(a1).times(&curl));
        dn.put(a1, new);
        let curl: S = self.inv_d_a.times(&h_src_a1_ma);
        let new: S = dn.get(a2).plus(&coeffs.dn2.get(a2).times(&curl));
        dn.put(a2, new);

        acc.h = h;
        acc.dn = dn;
    }

    /// `acc` with what this source adds to the cell `c`, where `corrections` holds the wavefronts
    /// of all sources.
    pub open spec fn contributed(
        self,
        acc: SourceTerms<S>,
        c: UVec3,
        mask: TfsfMask<S>,
        corrections: Seq<TfsfSourceValues<S>>,
        coeffs: PmlCoefficients<S>,
    ) -> SourceTerms<S> {
        if self.active() {
            let place = self.correction_place(c.at(self.a));
            self.corrected(
                acc,
                mask,
                corrections[larger_int(sat_sub(place, 1), self.corrections_start as int)],
                corrections[place],
                corrections[smaller_int(place + 1, self.corrections_last())],
                coeffs,
            )
        } else {
            acc
        }
    }
}

/// `acc` with what the first `k` plane waves add to the cell `c`, which is stored at `idx` in a
/// grid of `cell_count` cells.
pub open spec fn tfsf_terms<S: Scalar>(
    acc: SourceTerms<S>,
    sources: Seq<GpuTfsf<S>>,
    c: UVec3,
    idx: int,
    cell_count: int,
    masks: Seq<TfsfMask<S>>,
    corrections: Seq<TfsfSourceValues<S>>,
    coeffs: PmlCoefficients<S>,
    k: nat,
) -> SourceTerms<S>
    decreases k,
{
    if k == 0 {
        acc
    } else {
        sources[k - 1].contributed(
            tfsf_terms(
                acc,
                sources,
                c,
                idx,
                cell_count,
                masks,
                corrections,
                coeffs,
                (k - 1) as nat,
            ),
            c,
            masks[(k - 1) * cell_count + idx],
            corrections,
            coeffs,
        )
    }
}

/// The source terms of a cell between the absorbing layers, for the step `t_idx`: those of the
/// dipoles, then those of the plane waves.
///
/// Cells outside keep the terms they have.
pub fn gpu_compute_source_terms<S: Scalar>(
    cell_idx3: UVec3,
    grid: &GridParameters<S>,
    t_idx: &u32,
    source_terms: &mut Vec<SourceTerms<S>>,
    source_vals: &Vec<S>,
    dipoles: &Vec<GpuDipole<S>>,
    tfsf_sources: &Vec<GpuTfsf<S>>,
    tfsf_corrections: &Vec<TfsfSourceValues<S>>,
    tfsf_masks: &Vec<TfsfMask<S>>,
    pml_coeffs: &Vec<PmlCoefficients<S>>,
)
    requires
        grid.wf(),
        old(source_terms).len() >= grid.cell_count,
        pml_coeffs.len() >= grid.cell_count,
        forall|k: int|
            grid.in_problem_space(cell_idx3) && 0 <= k < dipoles.len() ==> (
            #[trigger] dipoles[k]).reads_below(source_vals.len() as int, *t_idx),
        forall|k: int|
            grid.in_problem_space(cell_idx3) && 0 <= k < tfsf_sources.len() && (
            #[trigger] tfsf_sources[k]).active() ==> tfsf_sources[k].axes_valid() && tfsf_sources[k].corrects_below(
                tfsf_corrections.len() as int,
                cell_idx3.at(tfsf_sources[k].a),
            ) && (k + 1) * grid.cell_count <= tfsf_masks.len(),
    ensures
        grid.in_problem_space(cell_idx3) ==> final(source_terms)@ == old(source_terms)@.update(
            grid.place(cell_idx3),
            tfsf_terms(
                dipole_terms(
                    dipoles@,
                    source_vals@,
                    *t_idx,
                    grid.place(cell_idx3),
                    dipoles.len() as nat,
                ),
                tfsf_sources@,
                cell_idx3,
                grid.place(cell_idx3),
                grid.cell_count as int,
                tfsf_masks@,
                tfsf_corrections@,
                pml_coeffs[grid.place(cell_idx3)],
                tfsf_sources.len() as nat,
            ),
        ),
        !grid.in_problem_space(cell_idx3) ==> final(source_terms)@ == old(source_terms)@,
{
    if !grid.is_in_problem_space(&cell_idx3) {
        return ;
    }
    let idx: usize = grid.cell_place(&cell_idx3);
    let curr_t_idx: u32 = *t_idx;
    let mut terms: SourceTerms<S> = SourceTerms { h: Vec4::zero(), dn: Vec4::zero() };

    for i in 0..dipoles.len()
        invariant
            idx == grid.place(cell_idx3),
            curr_t_idx == *t_idx,
            terms == dipole_terms(dipoles@, source_vals@, *t_idx, idx as int, i as nat),
            forall|k: int|
                0 <= k < dipoles.len() ==> (#[trigger] dipoles[k]).reads_below(
                    source_vals.len() as int,
                    *t_idx,
                ),
    {
        dipoles[i].inject(&mut terms, source_vals, curr_t_idx, idx);
    }

    let ghost dipoles_added = terms;
    let coeffs: &PmlCoefficients<S> = &pml_coeffs[idx];
    for i in 0..tfsf_sources.len()
        invariant
            idx == grid.place(cell_idx3),
            idx < grid.cell_count,
            coeffs == pml_coeffs[idx as int],
            terms == tfsf_terms(
                dipoles_added,
                tfsf_sources@,
                cell_idx3,
                idx as int,
                grid.cell_count as int,
                tfsf_masks@,
                tfsf_corrections@,
                *coeffs,
                i as nat,
            ),
            forall|k: int|
                0 <= k < tfsf_sources.len() && (#[trigger] tfsf_sources[k]).active()
                    ==> tfsf_sources[k].axes_valid() && tfsf_sources[k].corrects_below(
                    tfsf_corrections.len() as int,
                    cell_idx3.at(tfsf_sources[k].a),
                ) && (k + 1) * grid.cell_count <= tfsf_masks.len(),
    {
        let source: &GpuTfsf<S> = &tfsf_sources[i];
        if source.vals_start != source.vals_end {
            let cell_idx_a: u32 = cell_idx3.get(source.a);
            let corrections_end: usize = (source.corrections_start + source.num_correction_cells
                - 1) as usize;
            let reached: usize = (source.corrections_start + cell_idx_a.gpu_saturating_sub(
                source.tf_min_a.gpu_saturating_sub(1),
            )) as usize;
            let correction_idx: usize = if reached <= corrections_end {
                reached
            } else {
                corrections_end
            };
            let one_before: usize = correction_idx.gpu_saturating_sub(1);
            let before_idx: usize = if one_before >= source.corrections_start as usize {
                one_before
            } else {
                source.corrections_start as usize
            };
            let behind_idx: usize = if correction_idx + 1 <= corrections_end {
                correction_idx + 1
            } else {
                corrections_end
            };
            assert((i + 1) * grid.cell_count == i * grid.cell_count + grid.cell_count)
                by (nonlinear_arith);
            assert(0 <= i * grid.cell_count) by (nonlinear_arith);
            let mask_idx: usize = i * (grid.cell_count as usize) + idx;
            source.correct(
                &mut terms,
                &tfsf_masks[mask_idx],
                &tfsf_corrections[before_idx],
                &tfsf_corrections[correction_idx],
                &tfsf_corrections[behind_idx],
                coeffs,
            );
        }
    }
    source_terms.set(idx, terms);
}

} // verus!
