//! What whole launches do to the fields.
use crate::axis::{spatial, Axis, SpatialAxis};
use crate::host::{Fields, Kernel};
use crate::index::{lemma_flat3_bounds, lemma_unflat3};
use crate::launch::{launched, lemma_thread_at, sweep, thread_at, Launch};
use crate::params::{lemma_inner_neighbours, GridParameters, PmlIntegrals, SourceTerms};
use crate::scalar::Scalar;
use crate::source_terms::{dipole_terms, tfsf_terms};
use crate::state::FdtdLossyState;
use crate::update::{advanced, curl_at, dn_driven, h_driven, lossy_step, summed};
use crate::vector::{UVec3, Vec4};
use vstd::prelude::*;

verus! {

/// The cell that is stored at `i`.
pub open spec fn cell_stored_at<S>(grid: GridParameters<S>, i: int) -> UVec3 {
    thread_at(grid.n_cells3, i)
}

/// Looking up the cell that is stored in the place of a cell gives that cell back.
proof fn lemma_cell_stored_at<S>(grid: GridParameters<S>, cell: UVec3)
    requires
        grid.wf(),
        cell.below(grid.n_cells3),
    ensures
        cell_stored_at(grid, grid.place(cell)) == cell,
        0 <= grid.place(cell) < grid.cell_count,
{
    lemma_flat3_bounds(cell, grid.n_cells3);
    lemma_unflat3(cell, grid.n_cells3);
}

/// The launch of a kernel with one thread for every cell.
pub open spec fn over_cells<S>(c: FdtdLossyState<S>, kernel: Kernel) -> Launch {
    Launch { kernel, threads: c.grid_params.n_cells3 }
}

/// The fields have a value for every cell.
pub open spec fn fields_fit<S>(c: FdtdLossyState<S>, f: Fields<S>) -> bool {
    let count = c.grid_params.cell_count;
    &&& c.grid_params.wf()
    &&& f.h.len() == count
    &&& f.dn.len() == count
    &&& f.en.len() == count
    &&& f.source_terms.len() == count
    &&& f.int_terms.len() == count
}

/// The fields with zero in the first `k` cells that lie on the boundary.
pub open spec fn boundary_cleared<S: Scalar>(
    grid: GridParameters<S>,
    v: Seq<Vec4<S>>,
    k: int,
) -> Seq<Vec4<S>> {
    Seq::new(
        v.len(),
        |i: int|
            if i < k && grid.on_boundary(cell_stored_at(grid, i)) {
                Vec4::zero_spec()
            } else {
                v[i]
            },
    )
}

proof fn lemma_conductor_sweep<S: Scalar>(c: FdtdLossyState<S>, f: Fields<S>, k: nat)
    requires
        fields_fit(c, f),
        k <= c.grid_params.cell_count,
    ensures
        sweep(c, over_cells(c, Kernel::PecBoundary), f, k) == (Fields {
            h: boundary_cleared(c.grid_params, f.h, k as int),
            dn: boundary_cleared(c.grid_params, f.dn, k as int),
            en: boundary_cleared(c.grid_params, f.en, k as int),
            ..f
        }),
    decreases k,
{
    let grid = c.grid_params;
    let launch = over_cells(c, Kernel::PecBoundary);
    let now = sweep(c, launch, f, k);
    if k > 0 {
        lemma_conductor_sweep(c, f, (k - 1) as nat);
        lemma_thread_at(grid.n_cells3, k - 1);
    }
    assert(now.h =~= boundary_cleared(grid, f.h, k as int));
    assert(now.dn =~= boundary_cleared(grid, f.dn, k as int));
    assert(now.en =~= boundary_cleared(grid, f.en, k as int));
}

/// A launch of the conducting boundary over all cells makes the fields zero on the boundary, and
/// changes nothing else.
pub proof fn law_conductor_clears_the_boundary<S: Scalar>(
    c: FdtdLossyState<S>,
    f: Fields<S>,
    cell: UVec3,
)
    requires
        fields_fit(c, f),
        cell.below(c.grid_params.n_cells3),
    ensures
        ({
            let r = launched(c, over_cells(c, Kernel::PecBoundary), f);
            let i = c.grid_params.place(cell);
            let on = c.grid_params.on_boundary(cell);
            &&& r.h[i] == if on { Vec4::zero_spec() } else { f.h[i] }
            &&& r.dn[i] == if on { Vec4::zero_spec() } else { f.dn[i] }
            &&& r.en[i] == if on { Vec4::zero_spec() } else { f.en[i] }
            &&& r == (Fields { h: r.h, dn: r.dn, en: r.en, ..f })
            &&& r.h.len() == f.h.len() && r.dn.len() == f.dn.len() && r.en.len() == f.en.len()
        }),
{
    let grid = c.grid_params;
    lemma_conductor_sweep(c, f, grid.cell_count as nat);
    lemma_cell_stored_at(grid, cell);
}

/// The H field of the cell stored at `i` after a step, from the E field before it.
pub open spec fn next_h<S: Scalar>(c: FdtdLossyState<S>, f: Fields<S>, i: int) -> Vec4<S> {
    let grid = c.grid_params;
    let m = c.grid_coeffs@[i];
    let ints = f.int_terms[i];
    let en_curl = curl_at(grid, f.en, f.en[i], i, true);
    if grid.inner(cell_stored_at(grid, i)) {
        advanced(
            grid.dim,
            h_driven(m, f.h[i], en_curl),
            m.h3,
            m.h4,
            f.h[i],
            ints.en_curl + en_curl,
            ints.h + f.h[i],
        ) + f.source_terms[i].h
    } else {
        f.h[i]
    }
}

/// The H field of the first `k` cells after a step, and of the others before it.
pub open spec fn h_until<S: Scalar>(c: FdtdLossyState<S>, f: Fields<S>, k: int) -> Seq<Vec4<S>> {
    Seq::new(f.h.len(), |i: int| if i < k { next_h(c, f, i) } else { f.h[i] })
}

/// The D field of the cell stored at `i` after a step, from the H field `h` after it.
pub open spec fn next_dn<S: Scalar>(
    c: FdtdLossyState<S>,
    f: Fields<S>,
    h: Seq<Vec4<S>>,
    i: int,
) -> Vec4<S> {
    let grid = c.grid_params;
    let m = c.grid_coeffs@[i];
    let ints = f.int_terms[i];
    let h_curl = curl_at(grid, h, h[i], i, false);
    if grid.inner(cell_stored_at(grid, i)) {
        advanced(
            grid.dim,
            dn_driven(m, f.dn[i], h_curl, f.en[i], ints.en + f.en[i]),
            m.dn3,
            m.dn4,
            f.dn[i],
            ints.h_curl + h_curl,
            ints.dn + f.dn[i],
        ) + f.source_terms[i].dn
    } else {
        f.dn[i]
    }
}

/// The D field of the first `k` cells after a step, and of the others before it.
pub open spec fn dn_until<S: Scalar>(c: FdtdLossyState<S>, f: Fields<S>, k: int) -> Seq<Vec4<S>> {
    let h = h_until(c, f, f.h.len() as int);
    Seq::new(f.dn.len(), |i: int| if i < k { next_dn(c, f, h, i) } else { f.dn[i] })
}

/// The E field of the first `k` cells after a step, and of the others before it.
pub open spec fn en_until<S: Scalar>(c: FdtdLossyState<S>, f: Fields<S>, k: int) -> Seq<Vec4<S>> {
    let dn = dn_until(c, f, f.dn.len() as int);
    Seq::new(
        f.en.len(),
        |i: int|
            if i < k && c.grid_params.inner(cell_stored_at(c.grid_params, i)) {
                c.grid_coeffs@[i].en1 * dn[i]
            } else {
                f.en[i]
            },
    )
}

/// The sums of the first `k` cells after a step, and of the others before it.
pub open spec fn sums_until<S: Scalar>(
    c: FdtdLossyState<S>,
    f: Fields<S>,
    k: int,
) -> Seq<PmlIntegrals<S>> {
    let grid = c.grid_params;
    let h = h_until(c, f, f.h.len() as int);
    Seq::new(
        f.int_terms.len(),
        |i: int|
            if i < k && grid.inner(cell_stored_at(grid, i)) {
                summed(
                    grid.dim,
                    f.int_terms[i],
                    f.en[i],
                    curl_at(grid, f.en, f.en[i], i, true),
                    f.h[i],
                    curl_at(grid, h, h[i], i, false),
                    f.dn[i],
                )
            } else {
                f.int_terms[i]
            },
    )
}

/// The thread of a cell finds the E field of the cells behind it as it was before the step, and
/// the H field of the cells before it as it is after the step.
proof fn lemma_step_in_order<S: Scalar>(c: FdtdLossyState<S>, f: Fields<S>, i: int)
    requires
        fields_fit(c, f),
        0 <= i < c.grid_params.cell_count,
        c.grid_params.inner(cell_stored_at(c.grid_params, i)),
    ensures
        ({
            let (cell, ints) = lossy_step(
                c.grid_params,
                i,
                h_until(c, f, i),
                dn_until(c, f, i),
                en_until(c, f, i),
                f.int_terms[i],
                c.grid_coeffs@[i],
                f.source_terms[i],
            );
            let h = h_until(c, f, f.h.len() as int);
            &&& cell.h == next_h(c, f, i)
            &&& cell.dn == next_dn(c, f, h, i)
            &&& cell.en == c.grid_coeffs@[i].en1 * cell.dn
            &&& ints == sums_until(c, f, i + 1)[i]
        }),
{
    let grid = c.grid_params;
    let at = cell_stored_at(grid, i);
    lemma_thread_at(grid.n_cells3, i);
    let h = h_until(c, f, f.h.len() as int);
    let en = en_until(c, f, i);
    let written = h_until(c, f, i).update(i, next_h(c, f, i));
    if spatial(grid.dim, Axis::X) {
        lemma_inner_neighbours(grid, at, Axis::X);
    }
    if spatial(grid.dim, Axis::Y) {
        lemma_inner_neighbours(grid, at, Axis::Y);
    }
    if spatial(grid.dim, Axis::Z) {
        lemma_inner_neighbours(grid, at, Axis::Z);
    }
    assert(curl_at(grid, en, en[i], i, true) == curl_at(grid, f.en, f.en[i], i, true));
    assert(curl_at(grid, written, written[i], i, false) == curl_at(grid, h, h[i], i, false));
}

proof fn lemma_update_sweep<S: Scalar>(c: FdtdLossyState<S>, f: Fields<S>, k: nat)
    requires
        fields_fit(c, f),
        k <= c.grid_params.cell_count,
    ensures
        ({
            let now = sweep(c, over_cells(c, Kernel::LossyUpdate), f, k);
            now == (Fields {
                h: h_until(c, f, k as int),
                dn: dn_until(c, f, k as int),
                en: en_until(c, f, k as int),
                int_terms: sums_until(c, f, k as int),
                t_idx: now.t_idx,
                ..f
            })
        }),
    decreases k,
{
    let grid = c.grid_params;
    let now = sweep(c, over_cells(c, Kernel::LossyUpdate), f, k);
    if k > 0 {
        lemma_update_sweep(c, f, (k - 1) as nat);
        lemma_thread_at(grid.n_cells3, k - 1);
        if grid.inner(cell_stored_at(grid, k - 1)) {
            lemma_step_in_order(c, f, k - 1);
        }
    }
    assert(now.h =~= h_until(c, f, k as int));
    assert(now.dn =~= dn_until(c, f, k as int));
    assert(now.en =~= en_until(c, f, k as int));
    assert(now.int_terms =~= sums_until(c, f, k as int));
}

/// The updates of all cells make one step in time: the H field follows from the E field before the
/// step, the D field from the H field after it, and the E field from that D field. Cells on the
/// boundary keep their fields.
pub proof fn law_update_is_one_step_in_time<S: Scalar>(
    c: FdtdLossyState<S>,
    f: Fields<S>,
    cell: UVec3,
)
    requires
        fields_fit(c, f),
        cell.below(c.grid_params.n_cells3),
    ensures
        ({
            let r = launched(c, over_cells(c, Kernel::LossyUpdate), f);
            let grid = c.grid_params;
            let i = grid.place(cell);
            let m = c.grid_coeffs@[i];
            let ints = f.int_terms[i];
            let en_curl = curl_at(grid, f.en, f.en[i], i, true);
            let h_curl = curl_at(grid, r.h, r.h[i], i, false);
            &&& r == (Fields {
                h: r.h,
                dn: r.dn,
                en: r.en,
                int_terms: r.int_terms,
                t_idx: r.t_idx,
                ..f
            })
            &&& r.h.len() == f.h.len() && r.dn.len() == f.dn.len() && r.en.len() == f.en.len()
            &&& r.int_terms.len() == f.int_terms.len()
            &&& grid.on_boundary(cell) ==> r.h[i] == f.h[i] && r.dn[i] == f.dn[i] && r.en[i]
                == f.en[i] && r.int_terms[i] == ints
            &&& !grid.on_boundary(cell) ==> {
                &&& r.h[i] == advanced(
                    grid.dim,
                    h_driven(m, f.h[i], en_curl),
                    m.h3,
                    m.h4,
                    f.h[i],
                    ints.en_curl + en_curl,
                    ints.h + f.h[i],
                ) + f.source_terms[i].h
                &&& r.dn[i] == advanced(
                    grid.dim,
                    dn_driven(m, f.dn[i], h_curl, f.en[i], ints.en + f.en[i]),
                    m.dn3,
                    m.dn4,
                    f.dn[i],
                    ints.h_curl + h_curl,
                    ints.dn + f.dn[i],
                ) + f.source_terms[i].dn
                &&& r.en[i] == m.en1 * r.dn[i]
                &&& r.int_terms[i] == summed(
                    grid.dim,
                    ints,
                    f.en[i],
                    en_curl,
                    f.h[i],
                    h_curl,
                    f.dn[i],
                )
            }
        }),
{
    let grid = c.grid_params;
    lemma_update_sweep(c, f, grid.cell_count as nat);
    lemma_cell_stored_at(grid, cell);
}

/// The E field with the last layer along `axis` taken over from the second one, in the first `k`
/// cells.
pub open spec fn en_wrapped<S: Scalar>(
    grid: GridParameters<S>,
    en: Seq<Vec4<S>>,
    axis: Axis,
    k: int,
) -> Seq<Vec4<S>> {
    Seq::new(
        en.len(),
        |i: int|
            {
                let cell = cell_stored_at(grid, i);
                if i < k && cell.at(axis) == grid.n_cells3.at(axis) - 1 {
                    en[grid.place(cell.with_spec(axis, 1))]
                } else {
                    en[i]
                }
            },
    )
}

/// The H field with the first layer along `axis` taken over from the second to last one, in the
/// first `k` cells.
pub open spec fn h_wrapped<S: Scalar>(
    grid: GridParameters<S>,
    h: Seq<Vec4<S>>,
    axis: Axis,
    k: int,
) -> Seq<Vec4<S>> {
    Seq::new(
        h.len(),
        |i: int|
            {
                let cell = cell_stored_at(grid, i);
                if i < k && cell.at(axis) == 0 {
                    h[grid.place(cell.with_spec(axis, (grid.n_cells3.at(axis) - 2) as u32))]
                } else {
                    h[i]
                }
            },
    )
}

proof fn lemma_periodic_en_sweep<S: Scalar>(
    c: FdtdLossyState<S>,
    f: Fields<S>,
    s: SpatialAxis,
    k: nat,
)
    requires
        fields_fit(c, f),
        s.of_dim(c.grid_params.dim),
        c.grid_params.n_cells3.at(s.axis()) >= 2,
        k <= c.grid_params.cell_count,
    ensures
        sweep(c, over_cells(c, Kernel::PeriodicEn(s)), f, k) == (Fields {
            en: en_wrapped(c.grid_params, f.en, s.axis(), k as int),
            ..f
        }),
    decreases k,
{
    let grid = c.grid_params;
    let n = grid.n_cells3;
    let now = sweep(c, over_cells(c, Kernel::PeriodicEn(s)), f, k);
    if k > 0 {
        lemma_periodic_en_sweep(c, f, s, (k - 1) as nat);
        lemma_thread_at(n, k - 1);
        let cell = cell_stored_at(grid, k - 1);
        lemma_cell_stored_at(grid, cell.with_spec(s.axis(), 1));
    }
    assert(now.en =~= en_wrapped(grid, f.en, s.axis(), k as int));
}

proof fn lemma_periodic_h_sweep<S: Scalar>(
    c: FdtdLossyState<S>,
    f: Fields<S>,
    s: SpatialAxis,
    k: nat,
)
    requires
        fields_fit(c, f),
        s.of_dim(c.grid_params.dim),
        c.grid_params.n_cells3.at(s.axis()) >= 2,
        k <= c.grid_params.cell_count,
    ensures
        sweep(c, over_cells(c, Kernel::PeriodicH(s)), f, k) == (Fields {
            h: h_wrapped(c.grid_params, f.h, s.axis(), k as int),
            ..f
        }),
    decreases k,
{
    let grid = c.grid_params;
    let n = grid.n_cells3;
    let now = sweep(c, over_cells(c, Kernel::PeriodicH(s)), f, k);
    if k > 0 {
        lemma_periodic_h_sweep(c, f, s, (k - 1) as nat);
        lemma_thread_at(n, k - 1);
        let cell = cell_stored_at(grid, k - 1);
        lemma_cell_stored_at(grid, cell.with_spec(s.axis(), (n.at(s.axis()) - 2) as u32));
    }
    assert(now.h =~= h_wrapped(grid, f.h, s.axis(), k as int));
}

/// A periodic boundary joins the two sides of the grid: the last layer has the E field of the
/// second one, the first layer has the H field of the second to last one, and nothing else
/// changes.
pub proof fn law_periodic_boundary_joins_the_sides<S: Scalar>(
    c: FdtdLossyState<S>,
    f: Fields<S>,
    s: SpatialAxis,
    cell: UVec3,
)
    requires
        fields_fit(c, f),
        s.of_dim(c.grid_params.dim),
        c.grid_params.n_cells3.at(s.axis()) >= 2,
        cell.below(c.grid_params.n_cells3),
    ensures
        ({
            let grid = c.grid_params;
            let n = grid.n_cells3.at(s.axis());
            let i = grid.place(cell);
            let second = grid.place(cell.with_spec(s.axis(), 1));
            let second_to_last = grid.place(cell.with_spec(s.axis(), (n - 2) as u32));
            let e = launched(c, over_cells(c, Kernel::PeriodicEn(s)), f);
            let h = launched(c, over_cells(c, Kernel::PeriodicH(s)), f);
            &&& e == (Fields { en: e.en, ..f })
            &&& e.en.len() == f.en.len()
            &&& e.en[i] == if cell.at(s.axis()) == n - 1 { f.en[second] } else { f.en[i] }
            &&& e.en[second] == f.en[second]
            &&& h == (Fields { h: h.h, ..f })
            &&& h.h.len() == f.h.len()
            &&& h.h[i] == if cell.at(s.axis()) == 0 { f.h[second_to_last] } else { f.h[i] }
            &&& h.h[second_to_last] == f.h[second_to_last]
        }),
{
    let grid = c.grid_params;
    let n = grid.n_cells3;
    lemma_periodic_en_sweep(c, f, s, grid.cell_count as nat);
    lemma_periodic_h_sweep(c, f, s, grid.cell_count as nat);
    lemma_cell_stored_at(grid, cell);
    lemma_cell_stored_at(grid, cell.with_spec(s.axis(), 1));
    lemma_cell_stored_at(grid, cell.with_spec(s.axis(), (n.at(s.axis()) - 2) as u32));
}

/// The source terms of the first `k` cells at the step of `f`, and those of `f` for the others.
pub open spec fn terms_until<S: Scalar>(
    c: FdtdLossyState<S>,
    f: Fields<S>,
    k: int,
) -> Seq<SourceTerms<S>> {
    let grid = c.grid_params;
    let sources = c.tfsf_dispatch_data.tfsf_sources@;
    Seq::new(
        f.source_terms.len(),
        |i: int|
            {
                let cell = cell_stored_at(grid, i);
                if i < k && grid.in_problem_space(cell) {
                    tfsf_terms(
                        dipole_terms(c.dipoles@, c.source_vals@, f.t_idx, i, c.dipoles@.len()),
                        sources,
                        cell,
                        i,
                        grid.cell_count as int,
                        f.masks,
                        f.corrections,
                        c.grid_coeffs@[i],
                        sources.len(),
                    )
                } else {
                    f.source_terms[i]
                }
            },
    )
}

proof fn lemma_source_terms_sweep<S: Scalar>(c: FdtdLossyState<S>, f: Fields<S>, k: nat)
    requires
        fields_fit(c, f),
        k <= c.grid_params.cell_count,
    ensures
        sweep(c, over_cells(c, Kernel::ComputeSourceTerms), f, k) == (Fields {
            source_terms: terms_until(c, f, k as int),
            ..f
        }),
    decreases k,
{
    let now = sweep(c, over_cells(c, Kernel::ComputeSourceTerms), f, k);
    if k > 0 {
        lemma_source_terms_sweep(c, f, (k - 1) as nat);
        lemma_thread_at(c.grid_params.n_cells3, k - 1);
    }
    assert(now.source_terms =~= terms_until(c, f, k as int));
}

/// A launch that computes the source terms of all cells gives every cell of the problem space its
/// terms of the dipoles and plane waves at the current step, and leaves the terms of the absorbing
/// layers as they were.
pub proof fn law_sources_reach_the_problem_space<S: Scalar>(
    c: FdtdLossyState<S>,
    f: Fields<S>,
    cell: UVec3,
)
    requires
        fields_fit(c, f),
        cell.below(c.grid_params.n_cells3),
    ensures
        ({
            let grid = c.grid_params;
            let r = launched(c, over_cells(c, Kernel::ComputeSourceTerms), f);
            let sources = c.tfsf_dispatch_data.tfsf_sources@;
            let i = grid.place(cell);
            &&& r == (Fields { source_terms: r.source_terms, ..f })
            &&& r.source_terms.len() == f.source_terms.len()
            &&& r.source_terms[i] == if grid.in_problem_space(cell) {
                tfsf_terms(
                    dipole_terms(c.dipoles@, c.source_vals@, f.t_idx, i, c.dipoles@.len()),
                    sources,
                    cell,
                    i,
                    grid.cell_count as int,
                    f.masks,
                    f.corrections,
                    c.grid_coeffs@[i],
                    sources.len(),
                )
            } else {
                f.source_terms[i]
            }
        }),
{
    let grid = c.grid_params;
    lemma_source_terms_sweep(c, f, grid.cell_count as nat);
    lemma_cell_stored_at(grid, cell);
}

} // verus!
