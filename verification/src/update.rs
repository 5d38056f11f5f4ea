//! The update equations of the fields on a grid with absorbing layers.
use crate::axis::{spatial, Axis, Dim, SpatialAxis};
use crate::params::{lemma_inner_neighbours, GridParameters, PmlCoefficients, PmlIntegrals, SourceTerms};
use crate::scalar::Scalar;
use crate::vector::{UVec3, Vec3, Vec4};
use vstd::prelude::*;

verus! {

/// How a field differs between a cell and its neighbour along `axis`: the next one where `forward`,
/// the one before otherwise. Nothing differs along an axis that is not spatial.
pub open spec fn difference<S: Scalar>(
    grid: GridParameters<S>,
    v: Seq<Vec4<S>>,
    v_self: Vec4<S>,
    idx: int,
    axis: Axis,
    forward: bool,
) -> Vec4<S> {
    if !spatial(grid.dim, axis) {
        Vec4::zero_spec()
    } else if forward {
        v[idx + grid.flat_idx_incrs.at(axis)] - v_self
    } else {
        v_self - v[idx - grid.flat_idx_incrs.at(axis)]
    }
}

fn take_difference<S: Scalar>(
    grid: &GridParameters<S>,
    c: &UVec3,
    v: &Vec<Vec4<S>>,
    v_self: &Vec4<S>,
    idx: usize,
    axis: Axis,
    forward: bool,
) -> (r: Vec4<S>)
    requires
        grid.wf(),
        grid.inner(*c),
        idx == grid.place(*c),
        v.len() >= grid.cell_count,
        axis.valid(),
    ensures
        r == difference(*grid, v@, *v_self, idx as int, axis, forward),
{
    if !SpatialAxis::is_spatial_axis(grid.dim, axis) {
        Vec4::zero()
    } else {
        proof {
            lemma_inner_neighbours(*grid, *c, axis);
        }
        let incr: usize = grid.flat_idx_incrs.get(axis) as usize;
        if forward {
            v[idx + incr].minus(v_self)
        } else {
            v_self.minus(&v[idx - incr])
        }
    }
}

/// The curl of a field from its differences `dx`, `dy` and `dz` along the axes.
pub open spec fn curl<S: Scalar>(
    dim: Dim,
    dx: Vec4<S>,
    dy: Vec4<S>,
    dz: Vec4<S>,
    inv_d: Vec3<S>,
) -> Vec4<S> {
    Vec4 {
        x: match dim {
            Dim::One => (-dz.y) * inv_d.z,
            Dim::Two => dy.z * inv_d.y,
            Dim::Three => dy.z * inv_d.y - dz.y * inv_d.z,
        },
        y: match dim {
            Dim::One => dz.x * inv_d.z,
            Dim::Two => (-dx.z) * inv_d.x,
            Dim::Three => dz.x * inv_d.z - dx.z * inv_d.x,
        },
        z: match dim {
            Dim::One => S::zero_spec(),
            _ => dx.y * inv_d.x - dy.x * inv_d.y,
        },
        w: S::zero_spec(),
    }
}

fn compute_curl<S: Scalar>(
    dim: Dim,
    dx: &Vec4<S>,
    dy: &Vec4<S>,
    dz: &Vec4<S>,
    inv_d: &Vec3<S>,
) -> (r: Vec4<S>)
    ensures
        r == curl(dim, *dx, *dy, *dz, *inv_d),
{
    Vec4 {
        x: match dim {
            Dim::One => dz.y.negated().times(&inv_d.z),
            Dim::Two => dy.z.times(&inv_d.y),
            Dim::Three => dy.z.times(&inv_d.y).minus(&dz.y.times(&inv_d.z)),
        },
        y: match dim {
            Dim::One => dz.x.times(&inv_d.z),
            Dim::Two => dx.z.negated().times(&inv_d.x),
            Dim::Three => dz.x.times(&inv_d.z).minus(&dx.z.times(&inv_d.x)),
        },
        z: match dim {
            Dim::One => S::zero(),
            _ => dx.y.times(&inv_d.x).minus(&dy.x.times(&inv_d.y)),
        },
        w: S::zero(),
    }
}

/// The curl of the field `v` at the cell that is stored at `idx`, where it has the value `v_self`.
pub open spec fn curl_at<S: Scalar>(
    grid: GridParameters<S>,
    v: Seq<Vec4<S>>,
    v_self: Vec4<S>,
    idx: int,
    forward: bool,
) -> Vec4<S> {
    curl(
        grid.dim,
        difference(grid, v, v_self, idx, Axis::X, forward),
        difference(grid, v, v_self, idx, Axis::Y, forward),
        difference(grid, v, v_self, idx, Axis::Z, forward),
        grid.inv_d,
    )
}

fn compute_curl_at<S: Scalar>(
    grid: &GridParameters<S>,
    c: &UVec3,
    v: &Vec<Vec4<S>>,
    v_self: &Vec4<S>,
    idx: usize,
    forward: bool,
) -> (r: Vec4<S>)
    requires
        grid.wf(),
        grid.inner(*c),
        idx == grid.place(*c),
        v.len() >= grid.cell_count,
    ensures
        r == curl_at(*grid, v@, *v_self, idx as int, forward),
{
    let dx = take_difference(grid, c, v, v_self, idx, Axis::X, forward);
    let dy = take_difference(grid, c, v, v_self, idx, Axis::Y, forward);
    let dz = take_difference(grid, c, v, v_self, idx, Axis::Z, forward);
    compute_curl(grid.dim, &dx, &dy, &dz, &grid.inv_d)
}

/// The value of a field after a step: what drives it, and the terms that remember the past, of the
/// curl's sum and of the field's own sum. Components that the dimension does not simulate stay as
/// they were in `v`.
pub open spec fn advanced<S: Scalar>(
    dim: Dim,
    driven: Vec4<S>,
    m3: Vec4<S>,
    m4: Vec4<S>,
    v: Vec4<S>,
    curl_sum: Vec4<S>,
    v_sum: Vec4<S>,
) -> Vec4<S> {
    match dim {
        Dim::One => Vec4 { x: driven.x, y: driven.y, z: v.z, w: v.w },
        Dim::Two => Vec4 {
            x: driven.x + m3.x * curl_sum.x,
            y: driven.y + m3.y * curl_sum.y,
            z: driven.z + m4.z * v_sum.z,
            w: v.w,
        },
        Dim::Three => driven + m3 * curl_sum + m4 * v_sum,
    }
}

fn advance<S: Scalar>(
    dim: Dim,
    driven: &Vec4<S>,
    m3: &Vec4<S>,
    m4: &Vec4<S>,
    v: &Vec4<S>,
    curl_sum: &Vec4<S>,
    v_sum: &Vec4<S>,
) -> (r: Vec4<S>)
    ensures
        r == advanced(dim, *driven, *m3, *m4, *v, *curl_sum, *v_sum),
{
    match dim {
        Dim::One => Vec4 {
            x: driven.x.dup(),
            y: driven.y.dup(),
            z: v.z.dup(),
            w: v.w.dup(),
        },
        Dim::Two => Vec4 {
            x: driven.x.plus(&m3.x.times(&curl_sum.x)),
            y: driven.y.plus(&m3.y.times(&curl_sum.y)),
            z: driven.z.plus(&m4.z.times(&v_sum.z)),
            w: v.w.dup(),
        },
        Dim::Three => driven.plus(&m3.times(curl_sum)).plus(&m4.times(v_sum)),
    }
}

/// What drives the H field: its value and the curl of the E field.
pub open spec fn h_driven<S: Scalar>(
    m: PmlCoefficients<S>,
    h: Vec4<S>,
    en_curl: Vec4<S>,
) -> Vec4<S> {
    m.h1 * h + m.h2 * en_curl
}

/// What drives the D field: its value, the curl of the H field, and the loss to the E field and to
/// its sum.
pub open spec fn dn_driven<S: Scalar>(
    m: PmlCoefficients<S>,
    dn: Vec4<S>,
    h_curl: Vec4<S>,
    en: Vec4<S>,
    en_sum: Vec4<S>,
) -> Vec4<S> {
    m.dn1 * dn + m.dn2 * h_curl + m.dn_loss1 * en + m.dn_loss2 * en_sum
}

/// The sums of a cell with the values of a step added. In 1D only the loss has a sum.
pub open spec fn summed<S: Scalar>(
    dim: Dim,
    ints: PmlIntegrals<S>,
    en: Vec4<S>,
    en_curl: Vec4<S>,
    h: Vec4<S>,
    h_curl: Vec4<S>,
    dn: Vec4<S>,
) -> PmlIntegrals<S> {
    if dim == Dim::One {
        PmlIntegrals { en: ints.en + en, ..ints }
    } else {
        PmlIntegrals {
            en: ints.en + en,
            en_curl: ints.en_curl + en_curl,
            h: ints.h + h,
            h_curl: ints.h_curl + h_curl,
            dn: ints.dn + dn,
        }
    }
}

/// The fields of a cell.
pub ghost struct FieldCell<S> {
    pub h: Vec4<S>,
    pub dn: Vec4<S>,
    pub en: Vec4<S>,
}

/// The fields of the cell that is stored at `idx` and its sums after a step: H from the curl of E,
/// then D from the curl of the new H and the loss, then E from D.
pub open spec fn lossy_step<S: Scalar>(
    grid: GridParameters<S>,
    idx: int,
    h: Seq<Vec4<S>>,
    dn: Seq<Vec4<S>>,
    en: Seq<Vec4<S>>,
    ints: PmlIntegrals<S>,
    m: PmlCoefficients<S>,
    src: SourceTerms<S>,
) -> (FieldCell<S>, PmlIntegrals<S>) {
    let en_curl = curl_at(grid, en, en[idx], idx, true);
    let new_h = advanced(
        grid.dim,
        h_driven(m, h[idx], en_curl),
        m.h3,
        m.h4,
        h[idx],
        ints.en_curl + en_curl,
        ints.h + h[idx],
    ) + src.h;
    let h_curl = curl_at(grid, h.update(idx, new_h), new_h, idx, false);
    let new_dn = advanced(
        grid.dim,
        dn_driven(m, dn[idx], h_curl, en[idx], ints.en + en[idx]),
        m.dn3,
        m.dn4,
        dn[idx],
        ints.h_curl + h_curl,
        ints.dn + dn[idx],
    ) + src.dn;
    (
        FieldCell { h: new_h, dn: new_dn, en: m.en1 * new_dn },
        summed(grid.dim, ints, en[idx], en_curl, h[idx], h_curl, dn[idx]),
    )
}

/// The inner cell with the smallest indices, which counts the steps.
pub open spec fn first_inner(dim: Dim, c: UVec3) -> bool {
    &&& spatial(dim, Axis::X) ==> c.x == 1
    &&& spatial(dim, Axis::Y) ==> c.y == 1
    &&& spatial(dim, Axis::Z) ==> c.z == 1
}

fn is_first_inner(dim: Dim, c: &UVec3) -> (r: bool)
    ensures
        r == first_inner(dim, *c),
{
    match dim {
        Dim::One => c.z == 1,
        Dim::Two => c.x == 1 && c.y == 1,
        Dim::Three => c.x == 1 && c.y == 1 && c.z == 1,
    }
}

/// What an update reads and writes.
pub ghost struct Buffers<S> {
    pub steps: u32,
    pub h: Seq<Vec4<S>>,
    pub dn: Seq<Vec4<S>>,
    pub en: Seq<Vec4<S>>,
    pub integrals: Seq<PmlIntegrals<S>>,
}

/// A thread for the cell `c` makes `after` of `before`, where `new` holds the fields and sums of the
/// cell after a step: it stores them for an inner cell, the first inner cell counts the step, and
/// nothing else changes.
pub open spec fn stored<S: Scalar>(
    grid: GridParameters<S>,
    c: UVec3,
    new: (FieldCell<S>, PmlIntegrals<S>),
    before: Buffers<S>,
    after: Buffers<S>,
) -> bool {
    let idx = grid.place(c);
    &&& grid.inner(c) ==> {
        &&& after.h == before.h.update(idx, new.0.h)
        &&& after.dn == before.dn.update(idx, new.0.dn)
        &&& after.en == before.en.update(idx, new.0.en)
        &&& after.integrals == before.integrals.update(idx, new.1)
    }
    &&& !grid.inner(c) ==> {
        &&& after.h == before.h
        &&& after.dn == before.dn
        &&& after.en == before.en
        &&& after.integrals == before.integrals
    }
    &&& after.steps == before.steps + if grid.inner(c) && first_inner(grid.dim, c) {
        1int
    } else {
        0
    }
}

/// What [`gpu_lossy_update`] makes of the buffers for the cell `c`.
pub open spec fn updated<S: Scalar>(
    grid: GridParameters<S>,
    c: UVec3,
    coeffs: Seq<PmlCoefficients<S>>,
    terms: Seq<SourceTerms<S>>,
    before: Buffers<S>,
    after: Buffers<S>,
) -> bool {
    let idx = grid.place(c);
    let new = lossy_step(
        grid,
        idx,
        before.h,
        before.dn,
        before.en,
        before.integrals[idx],
        coeffs[idx],
        terms[idx],
    );
    stored(grid, c, new, before, after)
}

/// Advance the fields of an inner cell and its sums by a step. Cells on the boundary, and threads
/// outside the grid, change nothing.
///
/// The first inner cell also counts the step.
pub fn gpu_lossy_update<S: Scalar>(
    cell_idx3: UVec3,
    grid: &GridParameters<S>,
    steps: &mut u32,
    h: &mut Vec<Vec4<S>>,
    dn: &mut Vec<Vec4<S>>,
    en: &mut Vec<Vec4<S>>,
    integrals: &mut Vec<PmlIntegrals<S>>,
    grid_coeffs: &Vec<PmlCoefficients<S>>,
    source_terms: &Vec<SourceTerms<S>>,
)
    requires
        grid.wf(),
        old(h).len() >= grid.cell_count,
        old(dn).len() >= grid.cell_count,
        old(en).len() >= grid.cell_count,
        old(integrals).len() >= grid.cell_count,
        grid_coeffs.len() >= grid.cell_count,
        source_terms.len() >= grid.cell_count,
        grid.inner(cell_idx3) && first_inner(grid.dim, cell_idx3) ==> *old(steps) < u32::MAX,
    ensures
        updated(
            *grid,
            cell_idx3,
            grid_coeffs@,
            source_terms@,
            (Buffers {
                steps: *old(steps),
                h: old(h)@,
                dn: old(dn)@,
                en: old(en)@,
                integrals: old(integrals)@,
            }),
            (Buffers {
                steps: *final(steps),
                h: final(h)@,
                dn: final(dn)@,
                en: final(en)@,
                integrals: final(integrals)@,
            }),
        ),
{
    if grid.is_on_boundary(&cell_idx3) || !cell_idx3.all_below(&grid.n_cells3) {
        return ;
    }
    let idx: usize = grid.cell_place(&cell_idx3);
    let m: &PmlCoefficients<S> = &grid_coeffs[idx];
    let ints: PmlIntegrals<S> = integrals[idx].dup();
    let src: &SourceTerms<S> = &source_terms[idx];
    let en_self: Vec4<S> = en[idx].dup();
    let en_sum: Vec4<S> = ints.en.plus(&en_self);

    let en_curl: Vec4<S> = compute_curl_at(grid, &cell_idx3, en, &en_self, idx, true);
    let en_curl_sum: Vec4<S> = ints.en_curl.plus(&en_curl);
    let h_sum: Vec4<S> = ints.h.plus(&h[idx]);
    let h_self: Vec4<S> = advance(
        grid.dim,
        &m.h1.times(&h[idx]).plus(&m.h2.times(&en_curl)),
        &m.h3,
        &m.h4,
        &h[idx],
        &en_curl_sum,
        &h_sum,
    ).plus(&src.h);
    h.set(idx, h_self.dup());

    let h_curl: Vec4<S> = compute_curl_at(grid, &cell_idx3, h, &h_self, idx, false);
    let h_curl_sum: Vec4<S> = ints.h_curl.plus(&h_curl);
    let dn_sum: Vec4<S> = ints.dn.plus(&dn[idx]);
    let driven: Vec4<S> = m.dn1.times(&dn[idx]).plus(&m.dn2.times(&h_curl)).plus(
        &m.dn_loss1.times(&en_self),
    ).plus(&m.dn_loss2.times(&en_sum));
    let dn_self: Vec4<S> = advance(
        grid.dim,
        &driven,
        &m.dn3,
        &m.dn4,
        &dn[idx],
        &h_curl_sum,
        &dn_sum,
    ).plus(&src.dn);
    en.set(idx, m.en1.times(&dn_self));
    dn.set(idx, dn_self);
    let new_ints: PmlIntegrals<S> = if matches!(grid.dim, Dim::One) {
        PmlIntegrals { en: en_sum, ..ints }
    } else {
        PmlIntegrals {
            en: en_sum,
            en_curl: en_curl_sum,
            h: h_sum,
            h_curl: h_curl_sum,
            dn: dn_sum,
        }
    };
    integrals.set(idx, new_ints);

    if is_first_inner(grid.dim, &cell_idx3) {
        *steps = *steps + 1;
    }
}

/// One half of a component of a curl: how the component along `across` changes along `along`.
pub open spec fn curl_term<S: Scalar>(
    grid: GridParameters<S>,
    v: Seq<Vec4<S>>,
    v_self: Vec4<S>,
    idx: int,
    along: Axis,
    across: Axis,
    forward: bool,
) -> S {
    if spatial(grid.dim, along) {
        difference(grid, v, v_self, idx, along, forward).at(across) * grid.inv_d.at(along)
    } else {
        S::zero_spec()
    }
}

fn compute_curl_term<S: Scalar>(
    grid: &GridParameters<S>,
    c: &UVec3,
    v: &Vec<Vec4<S>>,
    v_self: &Vec4<S>,
    idx: usize,
    along: Axis,
    across: Axis,
    forward: bool,
) -> (r: S)
    requires
        grid.wf(),
        grid.inner(*c),
        idx == grid.place(*c),
        v.len() >= grid.cell_count,
        along.valid(),
        across.valid(),
    ensures
        r == curl_term(*grid, v@, *v_self, idx as int, along, across, forward),
{
    if SpatialAxis::is_spatial_axis(grid.dim, along) {
        let d = take_difference(grid, c, v, v_self, idx, along, forward);
        d.get(across).times(grid.inv_d.get(along))
    } else {
        S::zero()
    }
}

/// The component of a curl along `axis`.
pub open spec fn curl_component<S: Scalar>(
    grid: GridParameters<S>,
    v: Seq<Vec4<S>>,
    v_self: Vec4<S>,
    idx: int,
    axis: Axis,
    forward: bool,
) -> S {
    let axis1 = axis.permute_spec();
    let axis2 = axis1.permute_spec();
    curl_term(grid, v, v_self, idx, axis1, axis2, forward) - curl_term(
        grid,
        v,
        v_self,
        idx,
        axis2,
        axis1,
        forward,
    )
}

/// A curl, each component computed in the same way whatever the dimension.
pub open spec fn curl_by_axes<S: Scalar>(
    grid: GridParameters<S>,
    v: Seq<Vec4<S>>,
    v_self: Vec4<S>,
    idx: int,
    forward: bool,
) -> Vec4<S> {
    Vec4 {
        x: curl_component(grid, v, v_self, idx, Axis::X, forward),
        y: curl_component(grid, v, v_self, idx, Axis::Y, forward),
        z: curl_component(grid, v, v_self, idx, Axis::Z, forward),
        w: S::zero_spec(),
    }
}

fn compute_curl_by_axes<S: Scalar>(
    grid: &GridParameters<S>,
    c: &UVec3,
    v: &Vec<Vec4<S>>,
    v_self: &Vec4<S>,
    idx: usize,
    forward: bool,
) -> (r: Vec4<S>)
    requires
        grid.wf(),
        grid.inner(*c),
        idx == grid.place(*c),
        v.len() >= grid.cell_count,
    ensures
        r == curl_by_axes(*grid, v@, *v_self, idx as int, forward),
{
    let mut r: Vec4<S> = Vec4::zero();
    let axes = Axis::all_axes();
    for i in 0..3
        invariant
            grid.wf(),
            grid.inner(*c),
            idx == grid.place(*c),
            v.len() >= grid.cell_count,
            axes@ == seq![Axis::X, Axis::Y, Axis::Z],
            r.w == S::zero_spec(),
            i > 0 ==> r.x == curl_component(*grid, v@, *v_self, idx as int, Axis::X, forward),
            i > 1 ==> r.y == curl_component(*grid, v@, *v_self, idx as int, Axis::Y, forward),
            i > 2 ==> r.z == curl_component(*grid, v@, *v_self, idx as int, Axis::Z, forward),
    {
        let axis: Axis = axes[i];
        let axis1: Axis = axis.permute();
        let axis2: Axis = axis1.permute();
        let curl1: S = compute_curl_term(grid, c, v, v_self, idx, axis1, axis2, forward);
        let curl2: S = compute_curl_term(grid, c, v, v_self, idx, axis2, axis1, forward);
        r.put(axis, curl1.minus(&curl2));
    }
    r
}

/// `v` with the terms that remember the past: those of the curl's sum and of the field's own sum.
pub open spec fn remembering<S: Scalar>(
    dim: Dim,
    v: Vec4<S>,
    m3: Vec4<S>,
    m4: Vec4<S>,
    curl_sum: Vec4<S>,
    v_sum: Vec4<S>,
) -> Vec4<S> {
    match dim {
        Dim::One => Vec4 { z: v.z + m3.z * curl_sum.z, ..v },
        Dim::Two => Vec4 {
            x: v.x + m3.x * curl_sum.x,
            y: v.y + m3.y * curl_sum.y,
            z: v.z + m4.z * v_sum.z,
            w: v.w,
        },
        Dim::Three => v + (m3 * curl_sum + m4 * v_sum),
    }
}

fn remember<S: Scalar>(
    dim: Dim,
    v: &Vec4<S>,
    m3: &Vec4<S>,
    m4: &Vec4<S>,
    curl_sum: &Vec4<S>,
    v_sum: &Vec4<S>,
) -> (r: Vec4<S>)
    ensures
        r == remembering(dim, *v, *m3, *m4, *curl_sum, *v_sum),
{
    match dim {
        Dim::One => Vec4 {
            x: v.x.dup(),
            y: v.y.dup(),
            z: v.z.plus(&m3.z.times(&curl_sum.z)),
            w: v.w.dup(),
        },
        Dim::Two => Vec4 {
            x: v.x.plus(&m3.x.times(&curl_sum.x)),
            y: v.y.plus(&m3.y.times(&curl_sum.y)),
            z: v.z.plus(&m4.z.times(&v_sum.z)),
            w: v.w.dup(),
        },
        Dim::Three => v.plus(&m3.times(curl_sum).plus(&m4.times(v_sum))),
    }
}

/// `v` with the loss that remembers the past.
pub open spec fn losing<S: Scalar>(dim: Dim, v: Vec4<S>, m: Vec4<S>, en_sum: Vec4<S>) -> Vec4<S> {
    match dim {
        Dim::One => Vec4 { z: v.z + m.z * en_sum.z, ..v },
        Dim::Two => Vec4 { x: v.x + m.x * en_sum.x, y: v.y + m.y * en_sum.y, ..v },
        Dim::Three => v + m * en_sum,
    }
}

fn lose<S: Scalar>(dim: Dim, v: &Vec4<S>, m: &Vec4<S>, en_sum: &Vec4<S>) -> (r: Vec4<S>)
    ensures
        r == losing(dim, *v, *m, *en_sum),
{
    match dim {
        Dim::One => Vec4 {
            x: v.x.dup(),
            y: v.y.dup(),
            z: v.z.plus(&m.z.times(&en_sum.z)),
            w: v.w.dup(),
        },
        Dim::Two => Vec4 {
            x: v.x.plus(&m.x.times(&en_sum.x)),
            y: v.y.plus(&m.y.times(&en_sum.y)),
            z: v.z.dup(),
            w: v.w.dup(),
        },
        Dim::Three => v.plus(&m.times(en_sum)),
    }
}

/// `sum` with the components of `v` added that remember the past of a curl or of the loss.
pub open spec fn along_summed<S: Scalar>(dim: Dim, sum: Vec4<S>, v: Vec4<S>) -> Vec4<S> {
    match dim {
        Dim::One => Vec4 { z: sum.z + v.z, ..sum },
        Dim::Two => Vec4 { x: sum.x + v.x, y: sum.y + v.y, ..sum },
        Dim::Three => sum + v,
    }
}

fn sum_along<S: Scalar>(dim: Dim, sum: &Vec4<S>, v: &Vec4<S>) -> (r: Vec4<S>)
    ensures
        r == along_summed(dim, *sum, *v),
{
    let all: Vec4<S> = sum.plus(v);
    match dim {
        Dim::One => Vec4 { x: sum.x.dup(), y: sum.y.dup(), z: all.z, w: sum.w.dup() },
        Dim::Two => Vec4 { x: all.x, y: all.y, z: sum.z.dup(), w: sum.w.dup() },
        Dim::Three => all,
    }
}

/// `sum` with the components of `v` added that remember the past of the field itself.
pub open spec fn across_summed<S: Scalar>(dim: Dim, sum: Vec4<S>, v: Vec4<S>) -> Vec4<S> {
    match dim {
        Dim::One => sum,
        Dim::Two => Vec4 { z: sum.z + v.z, ..sum },
        Dim::Three => sum + v,
    }
}

fn sum_across<S: Scalar>(dim: Dim, sum: &Vec4<S>, v: &Vec4<S>) -> (r: Vec4<S>)
    ensures
        r == across_summed(dim, *sum, *v),
{
    match dim {
        Dim::One => sum.dup(),
        Dim::Two => Vec4 {
            x: sum.x.dup(),
            y: sum.y.dup(),
            z: sum.z.plus(&v.z),
            w: sum.w.dup(),
        },
        Dim::Three => sum.plus(v),
    }
}

/// The fields of the cell that is stored at `idx` and its sums after a step of
/// [`gpu_lossy_update_old`].
pub open spec fn lossy_step_old<S: Scalar>(
    grid: GridParameters<S>,
    idx: int,
    h: Seq<Vec4<S>>,
    dn: Seq<Vec4<S>>,
    en: Seq<Vec4<S>>,
    ints: PmlIntegrals<S>,
    m: PmlCoefficients<S>,
    src: SourceTerms<S>,
) -> (FieldCell<S>, PmlIntegrals<S>) {
    let en_curl = curl_by_axes(grid, en, en[idx], idx, true);
    let en_curl_sum = along_summed(grid.dim, ints.en_curl, en_curl);
    let h_sum = across_summed(grid.dim, ints.h, h[idx]);
    let new_h = remembering(
        grid.dim,
        h_driven(m, h[idx], en_curl),
        m.h3,
        m.h4,
        en_curl_sum,
        h_sum,
    ) + src.h;
    let h_curl = curl_by_axes(grid, h.update(idx, new_h), new_h, idx, false);
    let en_sum = along_summed(grid.dim, ints.en, en[idx]);
    let h_curl_sum = along_summed(grid.dim, ints.h_curl, h_curl);
    let dn_sum = across_summed(grid.dim, ints.dn, dn[idx]);
    let new_dn = remembering(
        grid.dim,
        losing(
            grid.dim,
            m.dn1 * dn[idx] + m.dn2 * h_curl + m.dn_loss1 * en[idx],
            m.dn_loss2,
            en_sum,
        ),
        m.dn3,
        m.dn4,
        h_curl_sum,
        dn_sum,
    ) + src.dn;
    (
        FieldCell { h: new_h, dn: new_dn, en: m.en1 * new_dn },
        PmlIntegrals {
            en: en_sum,
            en_curl: en_curl_sum,
            h: h_sum,
            h_curl: h_curl_sum,
            dn: dn_sum,
        },
    )
}

/// What [`gpu_lossy_update_old`] makes of the buffers for the cell `c`.
pub open spec fn updated_old<S: Scalar>(
    grid: GridParameters<S>,
    c: UVec3,
    coeffs: Seq<PmlCoefficients<S>>,
    terms: Seq<SourceTerms<S>>,
    before: Buffers<S>,
    after: Buffers<S>,
) -> bool {
    let idx = grid.place(c);
    let new = lossy_step_old(
        grid,
        idx,
        before.h,
        before.dn,
        before.en,
        before.integrals[idx],
        coeffs[idx],
        terms[idx],
    );
    stored(grid, c, new, before, after)
}

/// Advance the fields of an inner cell and its sums by a step, where only the components that have
/// a sum in the dimension remember the past. Cells on the boundary, and threads outside the grid,
/// change nothing.
///
/// The first inner cell also counts the step.
pub fn gpu_lossy_update_old<S: Scalar>(
    cell_idx3: UVec3,
    grid: &GridParameters<S>,
    steps: &mut u32,
    h: &mut Vec<Vec4<S>>,
    dn: &mut Vec<Vec4<S>>,
    en: &mut Vec<Vec4<S>>,
    integrals: &mut Vec<PmlIntegrals<S>>,
    grid_coeffs: &Vec<PmlCoefficients<S>>,
    source_terms: &Vec<SourceTerms<S>>,
)
    requires
        grid.wf(),
        old(h).len() >= grid.cell_count,
        old(dn).len() >= grid.cell_count,
        old(en).len() >= grid.cell_count,
        old(integrals).len() >= grid.cell_count,
        grid_coeffs.len() >= grid.cell_count,
        source_terms.len() >= grid.cell_count,
        grid.inner(cell_idx3) && first_inner(grid.dim, cell_idx3) ==> *old(steps) < u32::MAX,
    ensures
        updated_old(
            *grid,
            cell_idx3,
            grid_coeffs@,
            source_terms@,
            (Buffers {
                steps: *old(steps),
                h: old(h)@,
                dn: old(dn)@,
                en: old(en)@,
                integrals: old(integrals)@,
            }),
            (Buffers {
                steps: *final(steps),
                h: final(h)@,
                dn: final(dn)@,
                en: final(en)@,
                integrals: final(integrals)@,
            }),
        ),
{
    if grid.is_on_boundary(&cell_idx3) || !cell_idx3.all_below(&grid.n_cells3) {
        return ;
    }
    let idx: usize = grid.cell_place(&cell_idx3);
    let m: &PmlCoefficients<S> = &grid_coeffs[idx];
    let ints: PmlIntegrals<S> = integrals[idx].dup();
    let src: &SourceTerms<S> = &source_terms[idx];
    let en_self: Vec4<S> = en[idx].dup();

    let en_curl: Vec4<S> = compute_curl_by_axes(grid, &cell_idx3, en, &en_self, idx, true);
    let en_curl_sum: Vec4<S> = sum_along(grid.dim, &ints.en_curl, &en_curl);
    let h_sum: Vec4<S> = sum_across(grid.dim, &ints.h, &h[idx]);
    let driven: Vec4<S> = m.h1.times(&h[idx]).plus(&m.h2.times(&en_curl));
    let h_self: Vec4<S> = remember(
        grid.dim,
        &driven,
        &m.h3,
        &m.h4,
        &en_curl_sum,
        &h_sum,
    ).plus(&src.h);
    h.set(idx, h_self.dup());

    let h_curl: Vec4<S> = compute_curl_by_axes(grid, &cell_idx3, h, &h_self, idx, false);
    let en_sum: Vec4<S> = sum_along(grid.dim, &ints.en, &en_self);
    let h_curl_sum: Vec4<S> = sum_along(grid.dim, &ints.h_curl, &h_curl);
    let dn_sum: Vec4<S> = sum_across(grid.dim, &ints.dn, &dn[idx]);
    let driven: Vec4<S> = m.dn1.times(&dn[idx]).plus(&m.dn2.times(&h_curl)).plus(
        &m.dn_loss1.times(&en_self),
    );
    let lossy: Vec4<S> = lose(grid.dim, &driven, &m.dn_loss2, &en_sum);
    let dn_self: Vec4<S> = remember(
        grid.dim,
        &lossy,
        &m.dn3,
        &m.dn4,
        &h_curl_sum,
        &dn_sum,
    ).plus(&src.dn);
    en.set(idx, m.en1.times(&dn_self));
    dn.set(idx, dn_self);
    integrals.set(
        idx,
        PmlIntegrals {
            en: en_sum,
            en_curl: en_curl_sum,
            h: h_sum,
            h_curl: h_curl_sum,
            dn: dn_sum,
        },
    );

    if is_first_inner(grid.dim, &cell_idx3) {
        *steps = *steps + 1;
    }
}

/// In 3D the two ways to compute a curl give the same formula.
pub proof fn law_curls_agree_in_3d<S: Scalar>(
    grid: GridParameters<S>,
    v: Seq<Vec4<S>>,
    v_self: Vec4<S>,
    idx: int,
    forward: bool,
)
    requires
        grid.dim == Dim::Three,
    ensures
        curl_by_axes(grid, v, v_self, idx, forward) == curl_at(grid, v, v_self, idx, forward),
{
}

/// A step reads the E field of the cell and of its next neighbours and the H field of the cell and
/// of the neighbours before it, and nothing else: grids that agree there agree in the result.
pub proof fn law_step_is_local<S: Scalar>(
    grid: GridParameters<S>,
    idx: int,
    h: Seq<Vec4<S>>,
    h2: Seq<Vec4<S>>,
    dn: Seq<Vec4<S>>,
    en: Seq<Vec4<S>>,
    en2: Seq<Vec4<S>>,
    ints: PmlIntegrals<S>,
    m: PmlCoefficients<S>,
    src: SourceTerms<S>,
)
    requires
        0 <= idx < h.len(),
        h.len() == h2.len(),
        h[idx] == h2[idx],
        en[idx] == en2[idx],
        forall|axis: Axis| #[trigger]
            spatial(grid.dim, axis) ==> {
                let incr = grid.flat_idx_incrs.at(axis);
                &&& incr >= 1
                &&& incr <= idx
                &&& h[idx - incr] == h2[idx - incr]
                &&& en[idx + incr] == en2[idx + incr]
            },
    ensures
        lossy_step(grid, idx, h, dn, en, ints, m, src) == lossy_step(
            grid,
            idx,
            h2,
            dn,
            en2,
            ints,
            m,
            src,
        ),
{
    assert(spatial(grid.dim, Axis::X) || !spatial(grid.dim, Axis::X));
    assert(spatial(grid.dim, Axis::Y) || !spatial(grid.dim, Axis::Y));
    assert(spatial(grid.dim, Axis::Z) || !spatial(grid.dim, Axis::Z));
}

} // verus!
