//! How the two updates of the fields relate.
use crate::axis::{spatial, Axis, Dim};
use crate::equivalence::{
    alike, alike4, all_alike, exact_at_zero, finite, lemma_back, lemma_chain, lemma_difference,
    lemma_itself, lemma_itself4, lemma_null_product, lemma_null_squared, lemma_null_sum,
    lemma_opposite, lemma_product, lemma_sum, lemma_zero, null,
};
use crate::params::{
    lemma_inner_neighbours, GridParameters, PmlCoefficients, PmlIntegrals, SourceTerms,
};
use crate::scalar::Scalar;
use crate::update::{
    curl_at, curl_by_axes, difference, lossy_step, lossy_step_old, updated, updated_old, Buffers,
};
use crate::vector::{UVec3, Vec4};
use vstd::prelude::*;

verus! {

/// The fields at the cell and at its neighbour along Z are the same in `v` and `u`.
spec fn same_nearby<S: Scalar>(
    same: spec_fn(S, S) -> bool,
    grid: GridParameters<S>,
    v: Seq<Vec4<S>>,
    v_self: Vec4<S>,
    u: Seq<Vec4<S>>,
    u_self: Vec4<S>,
    idx: int,
    forward: bool,
) -> bool {
    let step = grid.flat_idx_incrs.z;
    let at = if forward {
        idx + step
    } else {
        idx - step
    };
    alike4(same, v_self, u_self) && alike4(same, v[at], u[at])
}

/// The two ways to compute a curl agree in 1D on fields that are the same nearby.
proof fn lemma_curls<S: Scalar>(
    same: spec_fn(S, S) -> bool,
    grid: GridParameters<S>,
    v: Seq<Vec4<S>>,
    v_self: Vec4<S>,
    u: Seq<Vec4<S>>,
    u_self: Vec4<S>,
    idx: int,
    forward: bool,
)
    requires
        grid.dim == Dim::One,
        exact_at_zero(same),
        same_nearby(same, grid, v, v_self, u, u_self, idx, forward),
    ensures
        alike4(
            same,
            curl_at(grid, v, v_self, idx, forward),
            curl_by_axes(grid, u, u_self, idx, forward),
        ),
        null(same, curl_at(grid, v, v_self, idx, forward).z),
        null(same, curl_by_axes(grid, u, u_self, idx, forward).z),
        null(same, curl_by_axes(grid, u, u_self, idx, forward).w),
{
    let zero = S::zero_spec();
    let inv = grid.inv_d.z;
    assert(Axis::Z.permute_spec() == Axis::X && Axis::X.permute_spec() == Axis::Y
        && Axis::Y.permute_spec() == Axis::Z);
    assert(!spatial(grid.dim, Axis::X) && !spatial(grid.dim, Axis::Y) && spatial(
        grid.dim,
        Axis::Z,
    ));
    let dv = difference(grid, v, v_self, idx, Axis::Z, forward);
    let du = difference(grid, u, u_self, idx, Axis::Z, forward);
    let step = grid.flat_idx_incrs.z;
    let (a, b, c, d) = if forward {
        (v[idx + step], v_self, u[idx + step], u_self)
    } else {
        (v_self, v[idx - step], u_self, u[idx - step])
    };
    assert(dv == a - b && du == c - d);
    lemma_difference(same, a.x, b.x, c.x, d.x);
    lemma_difference(same, a.y, b.y, c.y, d.y);
    let left = curl_at(grid, v, v_self, idx, forward);
    let right = curl_by_axes(grid, u, u_self, idx, forward);
    lemma_itself(same, inv);
    // along X
    assert(left.x == (-dv.y) * inv && right.x == zero - du.y * inv);
    lemma_zero(same, du.y, inv);
    lemma_opposite(same, dv.y, du.y);
    lemma_product(same, -dv.y, inv, -du.y, inv);
    lemma_back(same, zero - du.y * inv, (-du.y) * inv);
    lemma_chain(same, left.x, (-du.y) * inv, right.x);
    // along Y
    assert(left.y == dv.x * inv && right.y == du.x * inv - zero);
    lemma_product(same, dv.x, inv, du.x, inv);
    lemma_zero(same, du.x * inv, zero);
    lemma_back(same, du.x * inv - zero, du.x * inv);
    lemma_chain(same, left.y, du.x * inv, right.y);
    // along Z
    assert(left.z == zero && right.z == zero - zero);
    lemma_zero(same, zero, zero);
    lemma_back(same, zero - zero, zero);
}

/// In 1D the two ways to compute a curl give the same numbers.
pub proof fn law_curls_agree_in_1d<S: Scalar>(
    same: spec_fn(S, S) -> bool,
    grid: GridParameters<S>,
    v: Seq<Vec4<S>>,
    v_self: Vec4<S>,
    idx: int,
    forward: bool,
)
    requires
        grid.dim == Dim::One,
        exact_at_zero(same),
    ensures
        alike4(
            same,
            curl_at(grid, v, v_self, idx, forward),
            curl_by_axes(grid, v, v_self, idx, forward),
        ),
{
    lemma_itself4(same, v_self);
    lemma_itself4(same, v[idx + grid.flat_idx_incrs.z]);
    lemma_itself4(same, v[idx - grid.flat_idx_incrs.z]);
    lemma_curls(same, grid, v, v_self, v, v_self, idx, forward);
}

/// The last two components are zero.
pub open spec fn transverse<S: Scalar>(same: spec_fn(S, S) -> bool, v: Vec4<S>) -> bool {
    null(same, v.z) && null(same, v.w)
}

/// The last two components are finite.
pub open spec fn tail_finite<S: Scalar>(same: spec_fn(S, S) -> bool, v: Vec4<S>) -> bool {
    finite(same, v.z) && finite(same, v.w)
}

/// The cell that is stored at `idx` loses nothing to the sum of E and nothing along the axis, its
/// fields, sums and source terms have no component along the axis, and what is multiplied by zero is
/// finite. A cell without loss is one of these.
pub open spec fn lossless<S: Scalar>(
    same: spec_fn(S, S) -> bool,
    idx: int,
    h: Seq<Vec4<S>>,
    dn: Seq<Vec4<S>>,
    en: Seq<Vec4<S>>,
    ints: PmlIntegrals<S>,
    m: PmlCoefficients<S>,
    src: SourceTerms<S>,
) -> bool {
    &&& transverse(same, m.dn_loss1)
    &&& transverse(same, m.dn_loss2) && null(same, m.dn_loss2.x) && null(same, m.dn_loss2.y)
    &&& transverse(same, h[idx]) && transverse(same, dn[idx]) && transverse(same, en[idx])
    &&& transverse(same, src.h) && transverse(same, src.dn)
    &&& transverse(same, ints.en) && transverse(same, ints.en_curl) && transverse(
        same,
        ints.h_curl,
    )
    &&& tail_finite(same, m.h1) && tail_finite(same, m.h2) && tail_finite(same, m.h3)
    &&& tail_finite(same, m.dn1) && tail_finite(same, m.dn2) && tail_finite(same, m.dn3)
    &&& finite(same, ints.en.x + en[idx].x) && finite(same, ints.en.y + en[idx].y)
}

/// `m1 * v + m2 * c` on two sides that are the same.
proof fn lemma_driven<S: Scalar>(same: spec_fn(S, S) -> bool, m1: S, v: S, m2: S, c: S, d: S)
    requires
        exact_at_zero(same),
        alike(same, c, d),
    ensures
        alike(same, m1 * v + m2 * c, m1 * v + m2 * d),
{
    lemma_itself(same, m2);
    lemma_itself(same, m1 * v);
    lemma_product(same, m2, c, m2, d);
    lemma_sum(same, m1 * v, m2 * c, m1 * v, m2 * d);
}

/// `m1 * v + m2 * c` where nothing drives it.
proof fn lemma_undriven<S: Scalar>(same: spec_fn(S, S) -> bool, m1: S, v: S, m2: S, c: S)
    requires
        exact_at_zero(same),
        finite(same, m1),
        finite(same, m2),
        null(same, v),
        null(same, c),
    ensures
        null(same, m1 * v + m2 * c),
{
    lemma_null_product(same, m1, v);
    lemma_null_product(same, m2, c);
    lemma_null_sum(same, m1 * v, m2 * c);
}

/// Two numbers that are zero stay the same when the same number is added.
proof fn lemma_zeros_plus<S: Scalar>(same: spec_fn(S, S) -> bool, a: S, b: S, c: S)
    requires
        exact_at_zero(same),
        null(same, a),
        null(same, b),
    ensures
        alike(same, a + c, b + c),
{
    lemma_back(same, b, S::zero_spec());
    lemma_chain(same, a, S::zero_spec(), b);
    lemma_itself(same, c);
    lemma_sum(same, a, c, b, c);
}

/// The H fields of the two updates agree.
proof fn lemma_h_agrees<S: Scalar>(
    same: spec_fn(S, S) -> bool,
    grid: GridParameters<S>,
    idx: int,
    h: Seq<Vec4<S>>,
    dn: Seq<Vec4<S>>,
    en: Seq<Vec4<S>>,
    ints: PmlIntegrals<S>,
    m: PmlCoefficients<S>,
    src: SourceTerms<S>,
)
    requires
        grid.dim == Dim::One,
        exact_at_zero(same),
        lossless(same, idx, h, dn, en, ints, m, src),
    ensures
        alike4(
            same,
            lossy_step(grid, idx, h, dn, en, ints, m, src).0.h,
            lossy_step_old(grid, idx, h, dn, en, ints, m, src).0.h,
        ),
{
    let new = lossy_step(grid, idx, h, dn, en, ints, m, src).0.h;
    let old_h = lossy_step_old(grid, idx, h, dn, en, ints, m, src).0.h;
    let v = h[idx];
    lemma_itself4(same, en[idx]);
    lemma_itself4(same, en[idx + grid.flat_idx_incrs.z]);
    lemma_curls(same, grid, en, en[idx], en, en[idx], idx, true);
    let c = curl_at(grid, en, en[idx], idx, true);
    let d = curl_by_axes(grid, en, en[idx], idx, true);
    lemma_itself4(same, src.h);
    lemma_driven(same, m.h1.x, v.x, m.h2.x, c.x, d.x);
    lemma_sum(same, m.h1.x * v.x + m.h2.x * c.x, src.h.x, m.h1.x * v.x + m.h2.x * d.x, src.h.x);
    lemma_driven(same, m.h1.y, v.y, m.h2.y, c.y, d.y);
    lemma_sum(same, m.h1.y * v.y + m.h2.y * c.y, src.h.y, m.h1.y * v.y + m.h2.y * d.y, src.h.y);
    // along Z nothing is driven
    let z = m.h1.z * v.z + m.h2.z * d.z;
    let past = m.h3.z * (ints.en_curl.z + d.z);
    lemma_undriven(same, m.h1.z, v.z, m.h2.z, d.z);
    lemma_null_sum(same, ints.en_curl.z, d.z);
    lemma_null_product(same, m.h3.z, ints.en_curl.z + d.z);
    lemma_null_sum(same, z, past);
    lemma_zeros_plus(same, v.z, z + past, src.h.z);
    lemma_undriven(same, m.h1.w, v.w, m.h2.w, d.w);
    lemma_zeros_plus(same, v.w, m.h1.w * v.w + m.h2.w * d.w, src.h.w);
    assert(new.z == v.z + src.h.z && old_h.z == z + past + src.h.z);
    assert(new.w == v.w + src.h.w);
    assert(old_h.w == m.h1.w * v.w + m.h2.w * d.w + src.h.w);
}

/// A transverse component of D: the new update has one loss term more, which is zero.
proof fn lemma_dn_component<S: Scalar>(
    same: spec_fn(S, S) -> bool,
    driven: S,
    driven_old: S,
    first_loss: S,
    m: S,
    en_sum: S,
    src: S,
)
    requires
        exact_at_zero(same),
        alike(same, driven, driven_old),
        null(same, m),
        finite(same, en_sum),
    ensures
        alike(same, driven + first_loss + m * en_sum + src, driven_old + first_loss + src),
{
    let a = driven + first_loss;
    let b = driven_old + first_loss;
    lemma_itself(same, first_loss);
    lemma_itself(same, src);
    lemma_sum(same, driven, first_loss, driven_old, first_loss);
    lemma_null_product(same, m, en_sum);
    lemma_zero(same, a, m * en_sum);
    lemma_chain(same, a + m * en_sum, a, b);
    lemma_sum(same, a + m * en_sum, src, b, src);
}

/// The D fields of the two updates agree where their H fields do.
proof fn lemma_dn_agrees<S: Scalar>(
    same: spec_fn(S, S) -> bool,
    grid: GridParameters<S>,
    idx: int,
    h: Seq<Vec4<S>>,
    dn: Seq<Vec4<S>>,
    en: Seq<Vec4<S>>,
    ints: PmlIntegrals<S>,
    m: PmlCoefficients<S>,
    src: SourceTerms<S>,
)
    requires
        grid.dim == Dim::One,
        exact_at_zero(same),
        lossless(same, idx, h, dn, en, ints, m, src),
        grid.flat_idx_incrs.z >= 1,
        0 <= idx - grid.flat_idx_incrs.z,
        idx < h.len(),
        alike4(
            same,
            lossy_step(grid, idx, h, dn, en, ints, m, src).0.h,
            lossy_step_old(grid, idx, h, dn, en, ints, m, src).0.h,
        ),
    ensures
        alike4(
            same,
            lossy_step(grid, idx, h, dn, en, ints, m, src).0.dn,
            lossy_step_old(grid, idx, h, dn, en, ints, m, src).0.dn,
        ),
{
    let new_h = lossy_step(grid, idx, h, dn, en, ints, m, src).0.h;
    let old_h = lossy_step_old(grid, idx, h, dn, en, ints, m, src).0.h;
    let new = lossy_step(grid, idx, h, dn, en, ints, m, src).0.dn;
    let old_dn = lossy_step_old(grid, idx, h, dn, en, ints, m, src).0.dn;
    let (a, b) = (h.update(idx, new_h), h.update(idx, old_h));
    lemma_itself4(same, h[idx - grid.flat_idx_incrs.z]);
    lemma_curls(same, grid, a, new_h, b, old_h, idx, false);
    let c = curl_at(grid, a, new_h, idx, false);
    let d = curl_by_axes(grid, b, old_h, idx, false);
    let v = dn[idx];
    let e = en[idx];
    let l = m.dn_loss1;
    lemma_driven(same, m.dn1.x, v.x, m.dn2.x, c.x, d.x);
    lemma_dn_component(
        same,
        m.dn1.x * v.x + m.dn2.x * c.x,
        m.dn1.x * v.x + m.dn2.x * d.x,
        l.x * e.x,
        m.dn_loss2.x,
        ints.en.x + e.x,
        src.dn.x,
    );
    lemma_driven(same, m.dn1.y, v.y, m.dn2.y, c.y, d.y);
    lemma_dn_component(
        same,
        m.dn1.y * v.y + m.dn2.y * c.y,
        m.dn1.y * v.y + m.dn2.y * d.y,
        l.y * e.y,
        m.dn_loss2.y,
        ints.en.y + e.y,
        src.dn.y,
    );
    // along Z nothing is driven
    let z = m.dn1.z * v.z + m.dn2.z * d.z;
    let lost = z + l.z * e.z;
    let loss = m.dn_loss2.z * (ints.en.z + e.z);
    let past = m.dn3.z * (ints.h_curl.z + d.z);
    lemma_undriven(same, m.dn1.z, v.z, m.dn2.z, d.z);
    lemma_null_squared(same, l.z, e.z);
    lemma_null_sum(same, z, l.z * e.z);
    lemma_null_sum(same, ints.en.z, e.z);
    lemma_null_squared(same, m.dn_loss2.z, ints.en.z + e.z);
    lemma_null_sum(same, lost, loss);
    lemma_null_sum(same, ints.h_curl.z, d.z);
    lemma_null_product(same, m.dn3.z, ints.h_curl.z + d.z);
    lemma_null_sum(same, lost + loss, past);
    lemma_zeros_plus(same, v.z, lost + loss + past, src.dn.z);
    let w = m.dn1.w * v.w + m.dn2.w * d.w;
    lemma_undriven(same, m.dn1.w, v.w, m.dn2.w, d.w);
    lemma_null_squared(same, l.w, e.w);
    lemma_null_sum(same, w, l.w * e.w);
    lemma_zeros_plus(same, v.w, w + l.w * e.w, src.dn.w);
    assert(new.z == v.z + src.dn.z && old_dn.z == lost + loss + past + src.dn.z);
    assert(new.w == v.w + src.dn.w && old_dn.w == w + l.w * e.w + src.dn.w);
}

/// In 1D, where a cell has no loss and no field has a component along the axis, the two updates
/// leave the same H, D and E fields and the same number of steps.
pub proof fn law_updates_agree_in_1d<S: Scalar>(
    same: spec_fn(S, S) -> bool,
    grid: GridParameters<S>,
    c: UVec3,
    coeffs: Seq<PmlCoefficients<S>>,
    terms: Seq<SourceTerms<S>>,
    before: Buffers<S>,
    after: Buffers<S>,
    after_old: Buffers<S>,
)
    requires
        grid.wf(),
        grid.dim == Dim::One,
        before.h.len() >= grid.cell_count,
        before.dn.len() >= grid.cell_count,
        before.en.len() >= grid.cell_count,
        updated(grid, c, coeffs, terms, before, after),
        updated_old(grid, c, coeffs, terms, before, after_old),
        exact_at_zero(same),
        grid.inner(c) ==> ({
            let idx = grid.place(c);
            lossless(
                same,
                idx,
                before.h,
                before.dn,
                before.en,
                before.integrals[idx],
                coeffs[idx],
                terms[idx],
            )
        }),
    ensures
        all_alike(same, after.h, after_old.h),
        all_alike(same, after.dn, after_old.dn),
        all_alike(same, after.en, after_old.en),
        after.steps == after_old.steps,
{
    assert forall|v: Vec4<S>| alike4(same, v, v) by {
        lemma_itself4(same, v);
    }
    if grid.inner(c) {
        let idx = grid.place(c);
        let (ints, m, src) = (before.integrals[idx], coeffs[idx], terms[idx]);
        let new = lossy_step(grid, idx, before.h, before.dn, before.en, ints, m, src).0;
        let old_cell = lossy_step_old(grid, idx, before.h, before.dn, before.en, ints, m, src).0;
        assert(spatial(grid.dim, Axis::Z));
        lemma_inner_neighbours(grid, c, Axis::Z);
        lemma_h_agrees(same, grid, idx, before.h, before.dn, before.en, ints, m, src);
        lemma_dn_agrees(same, grid, idx, before.h, before.dn, before.en, ints, m, src);
        lemma_itself4(same, m.en1);
        lemma_product(same, m.en1.x, new.dn.x, m.en1.x, old_cell.dn.x);
        lemma_product(same, m.en1.y, new.dn.y, m.en1.y, old_cell.dn.y);
        lemma_product(same, m.en1.z, new.dn.z, m.en1.z, old_cell.dn.z);
        lemma_product(same, m.en1.w, new.dn.w, m.en1.w, old_cell.dn.w);
    }
}

} // verus!
