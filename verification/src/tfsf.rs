//! Plane waves: the auxiliary grids in which they travel, and the boundary at which they enter.
use crate::axis::{spatial, Axis, Dim, SpatialAxis};
use crate::params::{
    AuxGridPmlCoeffs, AuxVect, GpuTfsf, GridParameters, TfsfMask, TfsfSourceValues, WaveDirection,
};
use crate::saturating::{sat_sub, GpuSaturatingSub};
use crate::scalar::{bit, bit_spec, Scalar};
use crate::vector::{UVec3, Vec2};
use vstd::prelude::*;

verus! {

/// The threads that initialise the masks: one per cell and source. The sources are laid out along
/// an axis that is not spatial, or behind one another along Z in 3D.
pub open spec fn mask_threads(dim: Dim, n: UVec3, sources: int) -> (int, int, int) {
    match dim {
        Dim::One => (sources, n.y as int, n.z as int),
        Dim::Two => (n.x as int, n.y as int, sources),
        Dim::Three => (n.x as int, n.y as int, sources * n.z),
    }
}

pub open spec fn thread_below(t: UVec3, count: (int, int, int)) -> bool {
    t.x < count.0 && t.y < count.1 && t.z < count.2
}

/// The source that a thread initialises the mask of.
pub open spec fn mask_source(dim: Dim, n: UVec3, thread: UVec3) -> int {
    match dim {
        Dim::One => thread.x as int,
        Dim::Two => thread.z as int,
        Dim::Three => thread.z as int / n.z as int,
    }
}

/// The cell that a thread initialises the mask of.
pub open spec fn mask_cell(dim: Dim, n: UVec3, thread: UVec3) -> UVec3 {
    match dim {
        Dim::One => UVec3 { x: 0, y: 0, z: thread.z },
        Dim::Two => UVec3 { x: thread.x, y: thread.y, z: 0 },
        Dim::Three => UVec3 { x: thread.x, y: thread.y, z: (thread.z as int % n.z as int) as u32 },
    }
}

impl<S: Scalar> GpuTfsf<S> {
    /// The index `i` along `axis` lies between `lo` and `hi`; an axis that is not spatial sets no
    /// limit.
    pub open spec fn between(dim: Dim, axis: Axis, i: int, lo: int, hi: int) -> bool {
        spatial(dim, axis) ==> lo <= i <= hi
    }

    /// A cell with the indices `p` along the axes of the source is in the total field.
    pub open spec fn inside_tf(self, dim: Dim, p: (u32, u32, u32)) -> bool {
        &&& self.tf_min_a <= p.0 <= self.tf_max_a
        &&& Self::between(dim, self.a1, p.1 as int, self.tf_min_a1 as int, self.tf_max_a1 as int)
        &&& Self::between(dim, self.a2, p.2 as int, self.tf_min_a2 as int, self.tf_max_a2 as int)
    }

    /// A cell is in the total field or in the layer of one cell around it.
    pub open spec fn in_or_beside_tf(self, dim: Dim, p: (u32, u32, u32)) -> bool {
        &&& self.tf_min_a - 1 <= p.0 <= self.tf_max_a + 1
        &&& Self::between(dim, self.a1, p.1 as int, self.tf_min_a1 - 1, self.tf_max_a1 + 1)
        &&& Self::between(dim, self.a2, p.2 as int, self.tf_min_a2 - 1, self.tf_max_a2 + 1)
    }

    /// The first layer of the total field along each axis of the source.
    pub open spec fn min_tf_edge(self, dim: Dim, p: (u32, u32, u32)) -> (bool, bool, bool) {
        let inside = self.inside_tf(dim, p);
        (
            inside && p.0 == self.tf_min_a,
            inside && p.1 == self.tf_min_a1,
            inside && p.2 == self.tf_min_a2,
        )
    }

    /// The last layer of the total field along each axis of the source.
    pub open spec fn max_tf_edge(self, dim: Dim, p: (u32, u32, u32)) -> (bool, bool, bool) {
        let inside = self.inside_tf(dim, p);
        (
            inside && p.0 == self.tf_max_a,
            inside && p.1 == self.tf_max_a1,
            inside && p.2 == self.tf_max_a2,
        )
    }

    /// The layer just before the total field along each axis of the source.
    pub open spec fn min_sf_edge(self, dim: Dim, p: (u32, u32, u32)) -> (bool, bool, bool) {
        let near = self.in_or_beside_tf(dim, p);
        (
            near && p.0 + 1 == self.tf_min_a,
            near && p.1 + 1 == self.tf_min_a1,
            near && p.2 + 1 == self.tf_min_a2,
        )
    }

    /// The layer just behind the total field along each axis of the source.
    pub open spec fn max_sf_edge(self, dim: Dim, p: (u32, u32, u32)) -> (bool, bool, bool) {
        let near = self.in_or_beside_tf(dim, p);
        (
            near && p.0 == self.tf_max_a + 1,
            near && p.1 == self.tf_max_a1 + 1,
            near && p.2 == self.tf_max_a2 + 1,
        )
    }

    /// In 1D the whole wave hits the object, so nothing is corrected where it would leave the total
    /// field again.
    pub open spec fn leaves_in_1d(self, dim: Dim, p: (u32, u32, u32)) -> bool {
        &&& dim == Dim::One
        &&& match self.direction {
            WaveDirection::Positive => self.max_sf_edge(dim, p).0 || self.max_tf_edge(dim, p).0,
            WaveDirection::Negative => self.min_sf_edge(dim, p).0 || self.min_tf_edge(dim, p).0,
        }
    }

    /// The number of layers beside the total field that a cell lies in.
    pub open spec fn sf_edge_count(self, dim: Dim, p: (u32, u32, u32)) -> int {
        let lo = self.min_sf_edge(dim, p);
        let hi = self.max_sf_edge(dim, p);
        one_if(lo.0) + one_if(hi.0) + one_if(lo.1) + one_if(hi.1) + one_if(lo.2) + one_if(hi.2)
    }

    /// Beside an edge or a corner of the total field no curl crosses its boundary.
    pub open spec fn not_sf_corner(self, dim: Dim, p: (u32, u32, u32)) -> bool {
        dim == Dim::One || self.sf_edge_count(dim, p) < 2
    }

    /// One entry of a mask: the wave is taken away inside the total field and added outside.
    pub open spec fn mask_entry(self, dim: Dim, p: (u32, u32, u32), on: bool) -> S {
        bit_spec::<S>(self.not_sf_corner(dim, p) && on) * if self.inside_tf(dim, p) {
            -S::one_spec()
        } else {
            S::one_spec()
        }
    }

    /// Which curls of a cell cross the boundary of the total field.
    pub open spec fn mask_at(self, dim: Dim, p: (u32, u32, u32)) -> TfsfMask<S> {
        let min_tf = self.min_tf_edge(dim, p);
        let max_tf = self.max_tf_edge(dim, p);
        let min_sf = self.min_sf_edge(dim, p);
        let max_sf = self.max_sf_edge(dim, p);
        TfsfMask {
            en_src_a2_pa1: self.mask_entry(dim, p, max_tf.1 || min_sf.1),
            en_src_a1_pa2: self.mask_entry(dim, p, max_tf.2 || min_sf.2),
            en_src_a2_pa: self.mask_entry(dim, p, max_tf.0 || min_sf.0),
            en_src_a1_pa: self.mask_entry(dim, p, max_tf.0 || min_sf.0),
            h_src_a2_ma1: self.mask_entry(dim, p, min_tf.1 || max_sf.1),
            h_src_a1_ma2: self.mask_entry(dim, p, min_tf.2 || max_sf.2),
            h_src_a2_ma: self.mask_entry(dim, p, min_tf.0 || max_sf.0),
            h_src_a1_ma: self.mask_entry(dim, p, min_tf.0 || max_sf.0),
        }
    }

    /// The mask of a cell with the given indices along the axes of the source; none where the
    /// wave would leave the total field in 1D.
    fn mask_of_cell(&self, dim: Dim, i_a: u32, i_a1: u32, i_a2: u32) -> (r: Option<TfsfMask<S>>)
        requires
            i_a < u32::MAX && i_a1 < u32::MAX && i_a2 < u32::MAX,
            self.tf_max_a < u32::MAX && self.tf_max_a1 < u32::MAX && self.tf_max_a2 < u32::MAX,
        ensures
            r == if self.leaves_in_1d(dim, (i_a, i_a1, i_a2)) {
                None
            } else {
                Some(self.mask_at(dim, (i_a, i_a1, i_a2)))
            },
    {
        let ghost p = (i_a, i_a1, i_a2);
        let a1_spatial = SpatialAxis::is_spatial_axis(dim, self.a1);
        let a2_spatial = SpatialAxis::is_spatial_axis(dim, self.a2);

        let inside_tf = i_a >= self.tf_min_a && i_a <= self.tf_max_a && (!a1_spatial || (i_a1
            >= self.tf_min_a1 && i_a1 <= self.tf_max_a1)) && (!a2_spatial || (i_a2
            >= self.tf_min_a2 && i_a2 <= self.tf_max_a2));
        let max_tf = (
            inside_tf && i_a == self.tf_max_a,
            inside_tf && i_a1 == self.tf_max_a1,
            inside_tf && i_a2 == self.tf_max_a2,
        );
        let min_tf = (
            inside_tf && i_a == self.tf_min_a,
            inside_tf && i_a1 == self.tf_min_a1,
            inside_tf && i_a2 == self.tf_min_a2,
        );
        let near_tf = i_a + 1 >= self.tf_min_a && i_a <= self.tf_max_a + 1 && (!a1_spatial || (i_a1
            + 1 >= self.tf_min_a1 && i_a1 <= self.tf_max_a1 + 1)) && (!a2_spatial || (i_a2 + 1
            >= self.tf_min_a2 && i_a2 <= self.tf_max_a2 + 1));
        let max_sf = (
            near_tf && i_a == self.tf_max_a + 1,
            near_tf && i_a1 == self.tf_max_a1 + 1,
            near_tf && i_a2 == self.tf_max_a2 + 1,
        );
        let min_sf = (
            near_tf && i_a + 1 == self.tf_min_a,
            near_tf && i_a1 + 1 == self.tf_min_a1,
            near_tf && i_a2 + 1 == self.tf_min_a2,
        );
        assert(inside_tf == self.inside_tf(dim, p));
        assert(near_tf == self.in_or_beside_tf(dim, p));

        if matches!(dim, Dim::One) {
            let leaves = match self.direction {
                WaveDirection::Positive => max_sf.0 || max_tf.0,
                WaveDirection::Negative => min_sf.0 || min_tf.0,
            };
            if leaves {
                return None;
            }
        }
        let sf_edge_count: u32 = count_if(min_sf.0) + count_if(max_sf.0) + count_if(min_sf.1)
            + count_if(max_sf.1) + count_if(min_sf.2) + count_if(max_sf.2);
        let not_sf_corner = matches!(dim, Dim::One) || sf_edge_count < 2;
        let sign: S = if inside_tf {
            S::one().negated()
        } else {
            S::one()
        };
        let en_a1: S = bit::<S>(not_sf_corner && (max_tf.1 || min_sf.1)).times(&sign);
        let en_a2: S = bit::<S>(not_sf_corner && (max_tf.2 || min_sf.2)).times(&sign);
        let en_a: S = bit::<S>(not_sf_corner && (max_tf.0 || min_sf.0)).times(&sign);
        let h_a1: S = bit::<S>(not_sf_corner && (min_tf.1 || max_sf.1)).times(&sign);
        let h_a2: S = bit::<S>(not_sf_corner && (min_tf.2 || max_sf.2)).times(&sign);
        let h_a: S = bit::<S>(not_sf_corner && (min_tf.0 || max_sf.0)).times(&sign);
        let mask = TfsfMask {
            en_src_a2_pa1: en_a1,
            en_src_a1_pa2: en_a2,
            en_src_a2_pa: en_a.dup(),
            en_src_a1_pa: en_a,
            h_src_a2_ma1: h_a1,
            h_src_a1_ma2: h_a2,
            h_src_a2_ma: h_a.dup(),
            h_src_a1_ma: h_a,
        };
        Some(mask)
    }
}

pub open spec fn one_if(b: bool) -> int {
    if b {
        1
    } else {
        0
    }
}

fn count_if(b: bool) -> (r: u32)
    ensures
        r == one_if(b),
{
    if b {
        1
    } else {
        0
    }
}

/// Compute the mask of one source in one cell, once before the simulation runs.
///
/// Threads without a source or a cell, those of inactive sources, and in 1D those of cells where
/// the wave would leave the total field, leave the mask as it is.
pub fn init_tfsf_masks<S: Scalar>(
    cell_idx3: UVec3,
    grid: &GridParameters<S>,
    tfsf_sources: &Vec<GpuTfsf<S>>,
    tfsf_masks: &mut Vec<TfsfMask<S>>,
)
    requires
        grid.wf(),
        tfsf_sources.len() <= u32::MAX,
        grid.dim == Dim::Three ==> tfsf_sources.len() * grid.n_cells3.z <= u32::MAX,
        old(tfsf_masks).len() >= tfsf_sources.len() * grid.cell_count,
        forall|k: int|
            0 <= k < tfsf_sources.len() && (#[trigger] tfsf_sources[k]).active()
                ==> tfsf_sources[k].axes_valid() && tfsf_sources[k].tf_max_a < u32::MAX
                && tfsf_sources[k].tf_max_a1 < u32::MAX && tfsf_sources[k].tf_max_a2 < u32::MAX,
    ensures
        final(tfsf_masks).len() == old(tfsf_masks).len(),
        ({
            let src = mask_source(grid.dim, grid.n_cells3, cell_idx3);
            let source = tfsf_sources[src];
            let cell = mask_cell(grid.dim, grid.n_cells3, cell_idx3);
            let p = (cell.at(source.a), cell.at(source.a1), cell.at(source.a2));
            if thread_below(
                cell_idx3,
                mask_threads(grid.dim, grid.n_cells3, tfsf_sources.len() as int),
            ) && source.active() && !source.leaves_in_1d(grid.dim, p) {
                final(tfsf_masks)@ == old(tfsf_masks)@.update(
                    src * grid.cell_count + grid.place(cell),
                    source.mask_at(grid.dim, p),
                )
            } else {
                final(tfsf_masks)@ == old(tfsf_masks)@
            }
        }),
{
    let n = grid.n_cells3;
    let count: u32 = tfsf_sources.len() as u32;
    let threads = match grid.dim {
        Dim::One => UVec3::new(count, n.y, n.z),
        Dim::Two => UVec3::new(n.x, n.y, count),
        Dim::Three => UVec3::new(n.x, n.y, count * n.z),
    };
    if !cell_idx3.all_below(&threads) {
        return ;
    }
    let cell = match grid.dim {
        Dim::One => UVec3::new(0, 0, cell_idx3.z),
        Dim::Two => UVec3::new(cell_idx3.x, cell_idx3.y, 0),
        Dim::Three => UVec3::new(cell_idx3.x, cell_idx3.y, cell_idx3.z % n.z),
    };
    let src_idx: usize = match grid.dim {
        Dim::One => cell_idx3.x as usize,
        Dim::Two => cell_idx3.z as usize,
        Dim::Three => (cell_idx3.z / n.z) as usize,
    };
    proof {
        if grid.dim == Dim::Three {
            lemma_source_of_thread(cell_idx3.z as int, n.z as int, tfsf_sources.len() as int);
        }
        assert((src_idx + 1) * grid.cell_count <= tfsf_sources.len() * grid.cell_count)
            by (nonlinear_arith)
            requires
                src_idx + 1 <= tfsf_sources.len(),
                grid.cell_count >= 0,
        ;
        assert((src_idx + 1) * grid.cell_count == src_idx * grid.cell_count + grid.cell_count)
            by (nonlinear_arith);
        assert(0 <= src_idx * grid.cell_count) by (nonlinear_arith);
    }
    let idx: usize = src_idx * (grid.cell_count as usize) + grid.cell_place(&cell);
    let source: &GpuTfsf<S> = &tfsf_sources[src_idx];
    if source.vals_start == source.vals_end {
        return ;
    }
    let at_a: u32 = cell.get(source.a);
    let at_a1: u32 = cell.get(source.a1);
    let at_a2: u32 = cell.get(source.a2);
    if let Some(mask) = source.mask_of_cell(grid.dim, at_a, at_a1, at_a2) {
        tfsf_masks.set(idx, mask);
    }
}

/// A thread below `count * n` belongs to a source below `count` and to a cell below `n`.
proof fn lemma_source_of_thread(t: int, n: int, count: int)
    requires
        0 <= t < count * n,
        n > 0,
    ensures
        0 <= t / n < count,
        0 <= t % n < n,
{
    vstd::arithmetic::div_mod::lemma_fundamental_div_mod(t, n);
    let q = t / n;
    assert(0 <= q < count) by (nonlinear_arith)
        requires
            t == n * q + t % n,
            0 <= t % n < n,
            0 <= t < count * n,
    ;
}

/// The fields of a cell of an auxiliary grid.
pub ghost struct AuxCell<S> {
    pub h: AuxVect<S>,
    pub dn: AuxVect<S>,
    pub en: AuxVect<S>,
}

impl<S: Scalar> GpuTfsf<S> {
    /// The cell of the auxiliary grid that the wave starts from: the first one against the
    /// direction of travel.
    pub open spec fn source_cell(self) -> int {
        match self.direction {
            WaveDirection::Positive => 0,
            WaveDirection::Negative => self.n_cells - 1,
        }
    }

    /// Where the value of step `t` would be stored if the signal had no end.
    pub open spec fn value_place(self, t: u32) -> int {
        self.vals_start + sat_sub(t as int, self.t_start as int)
    }

    pub open spec fn emits(self, t: u32) -> bool {
        t >= self.t_start && self.value_place(t) <= self.vals_end
    }

    /// What the signal sets the D field of the source cell to in step `t`.
    pub open spec fn emitted(self, vals: Seq<S>, t: u32) -> AuxVect<S> {
        let on = self.emits(t);
        let val = vals[if on {
            self.value_place(t)
        } else {
            0
        }] * bit_spec::<S>(on);
        Vec2 { x: self.polarization_a1 * val, y: self.polarization_a2 * val }
    }

    /// The H field of the cell `i` of the auxiliary grid after the step.
    pub open spec fn aux_h(
        self,
        i: int,
        m: AuxGridPmlCoeffs<S>,
        h: Seq<AuxVect<S>>,
        en: Seq<AuxVect<S>>,
    ) -> AuxVect<S> {
        let idx = self.grid_start + i;
        let behind = en[crate::source_terms::smaller_int(idx + 1, en.len() - 1)].scaled_spec(
            bit_spec::<S>(i < self.n_cells - 1),
        );
        let curl = Vec2 {
            x: (-(behind.y - en[idx].y)) * self.inv_d_a,
            y: (behind.x - en[idx].x) * self.inv_d_a,
        };
        Vec2 {
            x: m.h1.x * h[idx].x + m.h2.x * curl.x,
            y: m.h1.y * h[idx].y + m.h2.y * curl.y,
        }
    }

    /// The fields of the cell `i` of the auxiliary grid after the step.
    pub open spec fn aux_cell(
        self,
        i: int,
        t: u32,
        m: AuxGridPmlCoeffs<S>,
        vals: Seq<S>,
        h: Seq<AuxVect<S>>,
        dn: Seq<AuxVect<S>>,
        en: Seq<AuxVect<S>>,
    ) -> AuxCell<S> {
        let idx = self.grid_start + i;
        let new_h = self.aux_h(i, m, h, en);
        let before = h.update(idx, new_h)[sat_sub(idx, 1)].scaled_spec(bit_spec::<S>(i > 0));
        let curl = Vec2 {
            x: (-(new_h.y - before.y)) * self.inv_d_a,
            y: (new_h.x - before.x) * self.inv_d_a,
        };
        let new_dn = if i == self.source_cell() {
            self.emitted(vals, t)
        } else {
            Vec2 {
                x: m.dn1.x * dn[idx].x + m.dn2.x * curl.x,
                y: m.dn1.y * dn[idx].y + m.dn2.y * curl.y,
            }
        };
        AuxCell {
            h: new_h,
            dn: new_dn,
            en: Vec2 { x: m.en1.x * new_dn.x, y: m.en1.y * new_dn.y },
        }
    }

    /// How many cells a cell is away from the source cell.
    pub open spec fn travelled(self, i: int) -> int {
        match self.direction {
            WaveDirection::Positive => i,
            WaveDirection::Negative => self.n_cells - 1 - i,
        }
    }

    /// The cell hands its fields to the corrections: those right behind the source cell do.
    pub open spec fn hands_over(self, i: int) -> bool {
        0 < self.travelled(i) <= self.num_correction_cells
    }

    /// Where the cell `i` hands its fields to. The corrections are ordered along the axis, whichever
    /// way the wave travels.
    pub open spec fn handed_to(self, i: int) -> int {
        self.corrections_start + match self.direction {
            WaveDirection::Positive => self.travelled(i) - 1,
            WaveDirection::Negative => self.num_correction_cells - self.travelled(i),
        }
    }

    /// The cells of the auxiliary grid are stored below `len`.
    pub open spec fn aux_grid_below(self, len: int) -> bool {
        self.grid_start + self.n_cells <= len
    }
}

/// Advance one cell of the auxiliary grid of one source by a step, and hand its fields over where
/// the main grid needs them: E from before the step, and H, which is half a step ahead.
pub fn aux_grid_update<S: Scalar>(
    cell_idx3: UVec3,
    tfsf_sources: &Vec<GpuTfsf<S>>,
    t_idx: &u32,
    corrections: &mut Vec<TfsfSourceValues<S>>,
    source_vals: &Vec<S>,
    auxgr_coeffs: &Vec<AuxGridPmlCoeffs<S>>,
    h: &mut Vec<AuxVect<S>>,
    dn: &mut Vec<AuxVect<S>>,
    en: &mut Vec<AuxVect<S>>,
)
    requires
        cell_idx3.x < tfsf_sources.len(),
        ({
            let source = tfsf_sources[cell_idx3.x as int];
            source.active() ==> {
                &&& source.aux_grid_below(old(h).len() as int)
                &&& source.aux_grid_below(old(dn).len() as int)
                &&& source.aux_grid_below(old(en).len() as int)
                &&& source.aux_grid_below(auxgr_coeffs.len() as int)
                &&& source.corrections_start + source.num_correction_cells
                    <= old(corrections).len()
                &&& source.vals_end < source_vals.len()
                &&& source.value_place(*t_idx) <= u32::MAX
            }
        }),
    ensures
        ({
            let source = tfsf_sources[cell_idx3.x as int];
            let i = cell_idx3.z as int;
            let idx = source.grid_start + i;
            let cell = source.aux_cell(
                i,
                *t_idx,
                auxgr_coeffs[idx],
                source_vals@,
                old(h)@,
                old(dn)@,
                old(en)@,
            );
            if source.active() && i < source.n_cells {
                &&& final(h)@ == old(h)@.update(idx, cell.h)
                &&& final(dn)@ == old(dn)@.update(idx, cell.dn)
                &&& final(en)@ == old(en)@.update(idx, cell.en)
                &&& final(corrections)@ == if source.hands_over(i) {
                    old(corrections)@.update(
                        source.handed_to(i),
                        (TfsfSourceValues {
                            en_a1: old(en)@[idx].x,
                            en_a2: old(en)@[idx].y,
                            h_a1: cell.h.x,
                            h_a2: cell.h.y,
                        }),
                    )
                } else {
                    old(corrections)@
                }
            } else {
                &&& final(h)@ == old(h)@
                &&& final(dn)@ == old(dn)@
                &&& final(en)@ == old(en)@
                &&& final(corrections)@ == old(corrections)@
            }
        }),
{
    let source: &GpuTfsf<S> = &tfsf_sources[cell_idx3.x as usize];
    if source.vals_start == source.vals_end {
        return ;
    }
    if cell_idx3.z >= source.n_cells {
        return ;
    }
    let last_idx_local: usize = source.n_cells as usize - 1;
    let idx_local: usize = cell_idx3.z as usize;
    let idx_local_inv: usize = last_idx_local - idx_local;
    let is_positive_dir = matches!(source.direction, WaveDirection::Positive);
    let idx: usize = source.grid_start as usize + idx_local;
    let m: &AuxGridPmlCoeffs<S> = &auxgr_coeffs[idx];
    let ghost cell = source.aux_cell(
        idx_local as int,
        *t_idx,
        *m,
        source_vals@,
        h@,
        dn@,
        en@,
    );

    let is_source = (is_positive_dir && idx_local == 0) || (!is_positive_dir && idx_local
        == last_idx_local);
    let vals_i: u32 = source.vals_start + (*t_idx).gpu_saturating_sub(source.t_start);
    let src_enable = *t_idx >= source.t_start && vals_i <= source.vals_end;
    let src_place: usize = if src_enable {
        vals_i as usize
    } else {
        0
    };
    let src_val: S = source_vals[src_place].times(&bit(src_enable));
    let src_vect: AuxVect<S> = Vec2 {
        x: source.polarization_a1.times(&src_val),
        y: source.polarization_a2.times(&src_val),
    };
    assert(src_vect == source.emitted(source_vals@, *t_idx));

    let en_self: AuxVect<S> = en[idx].dup();
    let behind_idx: usize = if idx + 1 <= en.len() - 1 {
        idx + 1
    } else {
        en.len() - 1
    };
    let behind: AuxVect<S> = en[behind_idx].scaled(&bit(idx_local < last_idx_local));
    let en_curl_a1: S = behind.y.minus(&en_self.y).negated().times(&source.inv_d_a);
    let en_curl_a2: S = behind.x.minus(&en_self.x).times(&source.inv_d_a);
    let h_self: AuxVect<S> = Vec2 {
        x: m.h1.x.times(&h[idx].x).plus(&m.h2.x.times(&en_curl_a1)),
        y: m.h1.y.times(&h[idx].y).plus(&m.h2.y.times(&en_curl_a2)),
    };
    assert(h_self == cell.h);
    h.set(idx, h_self.dup());

    let before: AuxVect<S> = h[idx.gpu_saturating_sub(1)].scaled(&bit(idx_local > 0));
    let h_curl_a1: S = h_self.y.minus(&before.y).negated().times(&source.inv_d_a);
    let h_curl_a2: S = h_self.x.minus(&before.x).times(&source.inv_d_a);
    let dn_self: AuxVect<S> = if is_source {
        src_vect
    } else {
        Vec2 {
            x: m.dn1.x.times(&dn[idx].x).plus(&m.dn2.x.times(&h_curl_a1)),
            y: m.dn1.y.times(&dn[idx].y).plus(&m.dn2.y.times(&h_curl_a2)),
        }
    };
    assert(dn_self == cell.dn);
    let new_en: AuxVect<S> = Vec2 { x: m.en1.x.times(&dn_self.x), y: m.en1.y.times(&dn_self.y) };
    dn.set(idx, dn_self);
    en.set(idx, new_en);

    let num_correction_cells: usize = source.num_correction_cells as usize;
    let dir_local_idx: usize = if is_positive_dir {
        idx_local
    } else {
        idx_local_inv
    };
    if dir_local_idx > 0 && dir_local_idx <= num_correction_cells {
        let corr_idx_offset: usize = if is_positive_dir {
            dir_local_idx - 1
        } else {
            num_correction_cells - dir_local_idx
        };
        let correction_idx: usize = source.corrections_start as usize + corr_idx_offset;
        corrections.set(
            correction_idx,
            TfsfSourceValues { en_a1: en_self.x, en_a2: en_self.y, h_a1: h_self.x, h_a2: h_self.y },
        );
    }
}

/// The cells that hand their fields over and the corrections of the source belong to each other
/// one to one, in the order of the axis: the first correction always comes from the cell with the
/// smallest index.
pub proof fn law_corrections_follow_the_axis<S: Scalar>(source: GpuTfsf<S>, i: int, j: int)
    requires
        source.hands_over(i),
        source.hands_over(j),
    ensures
        source.corrections_start <= source.handed_to(i) < source.corrections_start
            + source.num_correction_cells,
        source.handed_to(j) - source.handed_to(i) == j - i,
{
}

/// Every correction of the source is handed over by a cell of its auxiliary grid, where the grid
/// has room for all of them behind the source cell.
pub proof fn law_every_correction_is_handed_over<S: Scalar>(source: GpuTfsf<S>, k: int) -> (i: int)
    requires
        source.n_cells > source.num_correction_cells,
        source.corrections_start <= k < source.corrections_start + source.num_correction_cells,
    ensures
        0 <= i < source.n_cells,
        source.hands_over(i),
        source.handed_to(i) == k,
{
    let offset = k - source.corrections_start;
    match source.direction {
        WaveDirection::Positive => offset + 1,
        WaveDirection::Negative => source.n_cells - 1 - (source.num_correction_cells - offset),
    }
}

/// A plane wave is corrected at the boundary of the total field only: a cell that lies on neither
/// side of it has a mask of zeros.
pub proof fn law_mask_is_zero_away_from_the_boundary<S: Scalar>(
    source: GpuTfsf<S>,
    dim: Dim,
    p: (u32, u32, u32),
)
    requires
        source.min_tf_edge(dim, p) == (false, false, false),
        source.max_tf_edge(dim, p) == (false, false, false),
        source.min_sf_edge(dim, p) == (false, false, false),
        source.max_sf_edge(dim, p) == (false, false, false),
    ensures
        ({
            let off = bit_spec::<S>(false) * if source.inside_tf(dim, p) {
                -S::one_spec()
            } else {
                S::one_spec()
            };
            source.mask_at(dim, p) == (TfsfMask {
                en_src_a2_pa1: off,
                en_src_a1_pa2: off,
                en_src_a2_pa: off,
                en_src_a1_pa: off,
                h_src_a2_ma1: off,
                h_src_a1_ma2: off,
                h_src_a2_ma: off,
                h_src_a1_ma: off,
            })
        }),
{
}

} // verus!
