//! What the updates that reach the border of the grid have in common.
use crate::axis::{spatial, Axis, Dim};
use crate::clamped::{curl_along, has_neighbour, source_sum, GpuDipole, GridParameters2};
use crate::exact::{at, exact, lemma_unit, over, times};
use crate::params::{PmlCoefficients, PmlIntegrals};
use crate::scalar::{bit_spec, Scalar};
use crate::tabled::{IntegrationTerms, PmlCoefficients2, Variant};
use crate::vector::{UVec3, Vec4};
use vstd::prelude::*;

verus! {

/// How fast the component of a field along `across` rises along `along`, where beyond the border it
/// is zero.
pub open spec fn border_slope<S: Scalar>(
    read: spec_fn(S) -> real,
    grid: GridParameters2<S>,
    c: UVec3,
    v: Seq<Vec4<S>>,
    along: Axis,
    across: Axis,
    forward: bool,
) -> real {
    let here = at(read, v[grid.place(c)].at(across));
    let beside = if forward {
        c.with_spec(along, (c.at(along) + 1) as u32)
    } else {
        c.with_spec(along, (c.at(along) - 1) as u32)
    };
    let is_cell = if forward {
        c.at(along) + 1 < grid.n_cells3.at(along)
    } else {
        c.at(along) >= 1
    };
    let there = if is_cell {
        at(read, v[grid.place(beside)].at(across))
    } else {
        0 as real
    };
    let rise = if forward {
        there - here
    } else {
        here - there
    };
    if spatial(grid.dim, along) {
        over(rise, at(read, grid.d.at(along)))
    } else {
        0 as real
    }
}

/// How strongly a field turns about `axis`.
pub open spec fn border_rotation<S: Scalar>(
    read: spec_fn(S) -> real,
    grid: GridParameters2<S>,
    c: UVec3,
    v: Seq<Vec4<S>>,
    axis: Axis,
    forward: bool,
) -> real {
    let axis1 = axis.permute_spec();
    let axis2 = axis1.permute_spec();
    border_slope(read, grid, c, v, axis1, axis2, forward) - border_slope(
        read,
        grid,
        c,
        v,
        axis2,
        axis1,
        forward,
    )
}

/// The cells of the grid have a size along the spatial axes.
pub open spec fn has_size<S: Scalar>(
    read: spec_fn(S) -> real,
    grid: GridParameters2<S>,
) -> bool {
    forall|along: Axis| #[trigger]
        spatial(grid.dim, along) ==> at(read, grid.d.at(along)) != 0 as real
}

proof fn lemma_border_slope<S: Scalar>(
    read: spec_fn(S) -> real,
    grid: GridParameters2<S>,
    c: UVec3,
    v: Seq<Vec4<S>>,
    along: Axis,
    across: Axis,
    forward: bool,
)
    requires
        exact(read),
        grid.wf(),
        c.below(grid.n_cells3),
        v.len() >= grid.cell_count(),
        v.len() <= usize::MAX,
        spatial(grid.dim, along),
        across.valid(),
        has_size(read, grid),
    ensures
        at(
            read,
            crate::clamped::slope(grid, c, v, v[grid.place(c)], along, across, forward),
        ) == border_slope(read, grid, c, v, along, across, forward),
{
    let n = grid.n_cells3;
    let place = grid.place(c);
    let incr = grid.flat_idx_incrs.at(along) as int;
    crate::index::lemma_flat3_bounds(c, n);
    let there = v[crate::clamped::clamped_place(place, incr, v.len() as int, forward)].at(across);
    lemma_unit(at(read, there));
    if has_neighbour(c, n, along, forward) {
        if forward {
            let beside = c.with_spec(along, (c.at(along) + 1) as u32);
            crate::index::law_neighbour_is_one_stride_away(c, n, along);
            crate::index::lemma_flat3_bounds(beside, n);
            assert(grid.place(beside) == place + incr);
        } else {
            let beside = c.with_spec(along, (c.at(along) - 1) as u32);
            crate::index::law_neighbour_is_one_stride_away(beside, n, along);
            crate::index::lemma_flat3_bounds(beside, n);
            assert(beside.with_spec(along, c.at(along)) == c);
            assert(grid.place(beside) == place - incr);
        }
    }
}

/// The curls of these updates are the rotations of the fields.
pub proof fn law_border_curls_are_rotations<S: Scalar>(
    read: spec_fn(S) -> real,
    grid: GridParameters2<S>,
    c: UVec3,
    v: Seq<Vec4<S>>,
    axis: Axis,
    forward: bool,
)
    requires
        exact(read),
        grid.wf(),
        c.below(grid.n_cells3),
        v.len() >= grid.cell_count(),
        v.len() <= usize::MAX,
        axis.valid(),
        has_size(read, grid),
    ensures
        at(read, curl_along(grid, c, v, v[grid.place(c)], axis, forward)) == border_rotation(
            read,
            grid,
            c,
            v,
            axis,
            forward,
        ),
{
    let axis1 = axis.permute_spec();
    let axis2 = axis1.permute_spec();
    if spatial(grid.dim, axis1) {
        lemma_border_slope(read, grid, c, v, axis1, axis2, forward);
    }
    if spatial(grid.dim, axis2) {
        lemma_border_slope(read, grid, c, v, axis2, axis1, forward);
    }
}

/// The dipole has a value for the step `t`.
pub open spec fn is_on(dipole: GpuDipole, t: u32) -> bool {
    dipole.t_start <= t <= dipole.t_start + (dipole.vals_range[1] - dipole.vals_range[0])
}

/// The sum of the values of those of the first `k` dipoles that sit in the cell that is stored at
/// `idx` and have one for the step `t`.
pub open spec fn emitted_together<S: Scalar>(
    read: spec_fn(S) -> real,
    dipoles: Seq<GpuDipole>,
    vals: Seq<S>,
    t: u32,
    idx: int,
    k: nat,
) -> real
    decreases k,
{
    if k == 0 {
        0 as real
    } else {
        let others = emitted_together(read, dipoles, vals, t, idx, (k - 1) as nat);
        let dipole = dipoles[k - 1];
        if dipole.cell_idx == idx && is_on(dipole, t) {
            others + at(read, vals[dipole.vals_range[0] + (t - dipole.t_start)])
        } else {
            others
        }
    }
}

/// The dipoles in a cell add up, and no others count.
pub proof fn law_dipole_values_add_up<S: Scalar>(
    read: spec_fn(S) -> real,
    dipoles: Seq<GpuDipole>,
    vals: Seq<S>,
    t: u32,
    idx: int,
    k: nat,
)
    requires
        exact(read),
        forall|j: int|
            0 <= j < k ==> (#[trigger] dipoles[j]).vals_range[0] <= dipoles[j].vals_range[1],
    ensures
        at(read, source_sum(dipoles, vals, t, idx, k)) == emitted_together(
            read,
            dipoles,
            vals,
            t,
            idx,
            k,
        ),
    decreases k,
{
    if k > 0 {
        law_dipole_values_add_up(read, dipoles, vals, t, idx, (k - 1) as nat);
        let dipole = dipoles[k - 1];
        assert(dipole.emits(t) == is_on(dipole, t));
        let val = vals[crate::source_terms::smaller_int(
            dipole.value_place(t),
            dipole.vals_range[1] as int,
        )];
        lemma_unit(at(read, val));
    }
}

/// What an update of the components along `axes` makes of the H component along `axis`: the listed
/// ones change as the layers have it, each remembering its own past in 2D and 3D, the others stay.
pub open spec fn h_component<S: Scalar>(
    read: spec_fn(S) -> real,
    dim: Dim,
    m: PmlCoefficients<S>,
    turn: real,
    source: real,
    h: Vec4<S>,
    ints: PmlIntegrals<S>,
    axis: Axis,
) -> real {
    let of = |v: Vec4<S>| at(read, v.at(axis));
    times(of(m.h1), of(h)) + times(of(m.h2), turn) + source + if dim == Dim::One {
        0 as real
    } else {
        times(of(m.h3), of(ints.en_curl) + turn)
    } + if dim == Dim::Three {
        times(of(m.h4), of(ints.h) + of(h))
    } else {
        0 as real
    }
}

/// What an update of the components along `axes` makes of the D component along `axis`.
pub open spec fn dn_component<S: Scalar>(
    read: spec_fn(S) -> real,
    dim: Dim,
    m: PmlCoefficients<S>,
    turn: real,
    source: real,
    dn: Vec4<S>,
    en: Vec4<S>,
    ints: PmlIntegrals<S>,
    axis: Axis,
) -> real {
    let of = |v: Vec4<S>| at(read, v.at(axis));
    times(of(m.dn1), of(dn)) + times(of(m.dn2), turn) + times(of(m.dn_loss1), of(en)) + times(
        of(m.dn_loss2),
        of(ints.en) + of(en),
    ) + source + if dim == Dim::One {
        0 as real
    } else {
        times(of(m.dn3), of(ints.h_curl) + turn)
    } + if dim == Dim::Three {
        times(of(m.dn4), of(ints.dn) + of(dn))
    } else {
        0 as real
    }
}

proof fn lemma_h_components<S: Scalar>(
    read: spec_fn(S) -> real,
    grid: GridParameters2<S>,
    c: UVec3,
    axes: Seq<Axis>,
    m: PmlCoefficients<S>,
    en: Seq<Vec4<S>>,
    src: S,
    h: Vec4<S>,
    ints: PmlIntegrals<S>,
    axis: Axis,
    k: nat,
)
    requires
        exact(read),
        axis.valid(),
        k <= axes.len(),
        axes.no_duplicates(),
        forall|j: int| 0 <= j < axes.len() ==> (#[trigger] axes[j]).valid(),
    ensures
        ({
            let (new, sums) = crate::polarized::h_updated(grid, c, axes, m, en, src, h, ints, k);
            let turn = at(read, curl_along(grid, c, en, en[grid.place(c)], axis, true));
            let of = |v: Vec4<S>| at(read, v.at(axis));
            let done = exists|j: int| 0 <= j < k && #[trigger] axes[j] == axis;
            &&& done ==> {
                &&& of(new) == h_component(read, grid.dim, m, turn, at(read, src), h, ints, axis)
                &&& of(sums.en_curl) == of(ints.en_curl) + if grid.dim == Dim::One {
                    0 as real
                } else {
                    turn
                }
                &&& of(sums.h) == of(ints.h) + if grid.dim == Dim::Three {
                    of(h)
                } else {
                    0 as real
                }
            }
            &&& !done ==> {
                &&& new.at(axis) == h.at(axis)
                &&& sums.en_curl.at(axis) == ints.en_curl.at(axis)
                &&& sums.h.at(axis) == ints.h.at(axis)
            }
            &&& sums.en == ints.en
            &&& sums.h_curl == ints.h_curl
            &&& sums.dn == ints.dn
        }),
    decreases k,
{
    if k > 0 {
        let j: nat = (k - 1) as nat;
        lemma_h_components(read, grid, c, axes, m, en, src, h, ints, axis, j);
        let last = axes[k - 1];
        if last == axis {
            assert(forall|i: int| 0 <= i < j ==> #[trigger] axes[i] != axis);
        }
    }
}

proof fn lemma_dn_components<S: Scalar>(
    read: spec_fn(S) -> real,
    grid: GridParameters2<S>,
    c: UVec3,
    axes: Seq<Axis>,
    m: PmlCoefficients<S>,
    h: Seq<Vec4<S>>,
    en_self: Vec4<S>,
    src: S,
    dn: Vec4<S>,
    ints: PmlIntegrals<S>,
    axis: Axis,
    k: nat,
)
    requires
        exact(read),
        axis.valid(),
        k <= axes.len(),
        axes.no_duplicates(),
        forall|j: int| 0 <= j < axes.len() ==> (#[trigger] axes[j]).valid(),
    ensures
        ({
            let (new, sums) = crate::polarized::dn_updated(
                grid,
                c,
                axes,
                m,
                h,
                en_self,
                src,
                dn,
                ints,
                k,
            );
            let turn = at(read, curl_along(grid, c, h, h[grid.place(c)], axis, false));
            let of = |v: Vec4<S>| at(read, v.at(axis));
            let done = exists|j: int| 0 <= j < k && #[trigger] axes[j] == axis;
            &&& done ==> {
                &&& of(new) == dn_component(
                    read,
                    grid.dim,
                    m,
                    turn,
                    at(read, src),
                    dn,
                    en_self,
                    ints,
                    axis,
                )
                &&& of(sums.en) == of(ints.en) + of(en_self)
                &&& of(sums.h_curl) == of(ints.h_curl) + if grid.dim == Dim::One {
                    0 as real
                } else {
                    turn
                }
                &&& of(sums.dn) == of(ints.dn) + if grid.dim == Dim::Three {
                    of(dn)
                } else {
                    0 as real
                }
            }
            &&& !done ==> {
                &&& new.at(axis) == dn.at(axis)
                &&& sums.en.at(axis) == ints.en.at(axis)
                &&& sums.h_curl.at(axis) == ints.h_curl.at(axis)
                &&& sums.dn.at(axis) == ints.dn.at(axis)
            }
            &&& sums.en_curl == ints.en_curl
            &&& sums.h == ints.h
        }),
    decreases k,
{
    if k > 0 {
        let j: nat = (k - 1) as nat;
        lemma_dn_components(read, grid, c, axes, m, h, en_self, src, dn, ints, axis, j);
        let last = axes[k - 1];
        if last == axis {
            assert(forall|i: int| 0 <= i < j ==> #[trigger] axes[i] != axis);
        }
    }
}

proof fn lemma_en_components<S: Scalar>(
    axes: Seq<Axis>,
    en1: Vec4<S>,
    dn: Vec4<S>,
    en: Vec4<S>,
    axis: Axis,
    k: nat,
)
    requires
        axis.valid(),
        k <= axes.len(),
        axes.no_duplicates(),
        forall|j: int| 0 <= j < axes.len() ==> (#[trigger] axes[j]).valid(),
    ensures
        ({
            let new = crate::polarized::en_updated(axes, en1, dn, en, k);
            let done = exists|j: int| 0 <= j < k && #[trigger] axes[j] == axis;
            new.at(axis) == if done {
                en1.at(axis) * dn.at(axis)
            } else {
                en.at(axis)
            }
        }),
    decreases k,
{
    if k > 0 {
        let j: nat = (k - 1) as nat;
        lemma_en_components(axes, en1, dn, en, axis, j);
        let last = axes[k - 1];
        if last == axis {
            assert(forall|i: int| 0 <= i < j ==> #[trigger] axes[i] != axis);
        }
    }
}

/// The lists of axes of a mode name each axis at most once.
pub open spec fn lists_axes_once(axes: Seq<Axis>) -> bool {
    axes.no_duplicates() && forall|j: int| 0 <= j < axes.len() ==> (#[trigger] axes[j]).valid()
}

/// An update by polarization mode computes the components that the mode lists, each from its
/// rotation and its past, and leaves the others alone. The sources drive the D field in the
/// transverse magnetic mode and the H field in the transverse electric one.
pub proof fn law_polarized_step_updates_the_listed_components<S: Scalar>(
    read: spec_fn(S) -> real,
    grid: GridParameters2<S>,
    c: UVec3,
    h: Seq<Vec4<S>>,
    dn: Seq<Vec4<S>>,
    en: Seq<Vec4<S>>,
    ints: PmlIntegrals<S>,
    m: PmlCoefficients<S>,
    source: S,
    axis: Axis,
)
    requires
        exact(read),
        grid.wf(),
        c.below(grid.n_cells3),
        grid.cell_count() <= h.len() <= usize::MAX,
        grid.cell_count() <= en.len() <= usize::MAX,
        axis.valid(),
        has_size(read, grid),
        lists_axes_once(grid.polarization_mode.h_list()),
        lists_axes_once(grid.polarization_mode.dn_list()),
    ensures
        ({
            let idx = grid.place(c);
            let mode = grid.polarization_mode;
            let (new, sums) = crate::polarized::polarized_step(
                grid,
                c,
                h,
                dn,
                en,
                ints,
                m,
                source,
            );
            let of = |v: Vec4<S>| at(read, v.at(axis));
            let en_turn = border_rotation(read, grid, c, en, axis, true);
            let h_turn = border_rotation(read, grid, c, h.update(idx, new.h), axis, false);
            let s = at(read, source);
            &&& mode.h_list().contains(axis) ==> of(new.h) == h_component(
                read,
                grid.dim,
                m,
                en_turn,
                if mode.is_te_spec() {
                    s
                } else {
                    0 as real
                },
                h[idx],
                ints,
                axis,
            )
            &&& !mode.h_list().contains(axis) ==> new.h.at(axis) == h[idx].at(axis)
            &&& mode.dn_list().contains(axis) ==> {
                &&& of(new.dn) == dn_component(
                    read,
                    grid.dim,
                    m,
                    h_turn,
                    if mode.is_tm_spec() {
                        s
                    } else {
                        0 as real
                    },
                    dn[idx],
                    en[idx],
                    ints,
                    axis,
                )
                &&& of(new.en) == times(of(m.en1), of(new.dn))
                &&& of(sums.en) == of(ints.en) + of(en[idx])
            }
            &&& !mode.dn_list().contains(axis) ==> {
                &&& new.dn.at(axis) == dn[idx].at(axis)
                &&& new.en.at(axis) == en[idx].at(axis)
                &&& sums.en.at(axis) == ints.en.at(axis)
            }
            &&& grid.dim != Dim::One && mode.h_list().contains(axis) ==> of(sums.en_curl) == of(
                ints.en_curl,
            ) + en_turn
            &&& grid.dim != Dim::One && mode.dn_list().contains(axis) ==> of(sums.h_curl) == of(
                ints.h_curl,
            ) + h_turn
            &&& grid.dim == Dim::Three && mode.h_list().contains(axis) ==> of(sums.h) == of(ints.h)
                + of(h[idx])
            &&& grid.dim == Dim::Three && mode.dn_list().contains(axis) ==> of(sums.dn) == of(
                ints.dn,
            ) + of(dn[idx])
        }),
{
    let idx = grid.place(c);
    let mode = grid.polarization_mode;
    let (h_axes, dn_axes) = (mode.h_list(), mode.dn_list());
    crate::index::lemma_flat3_bounds(c, grid.n_cells3);
    let te = source * bit_spec::<S>(mode.is_te_spec());
    let tm = source * bit_spec::<S>(mode.is_tm_spec());
    lemma_unit(at(read, source));
    lemma_h_components(read, grid, c, h_axes, m, en, te, h[idx], ints, axis, h_axes.len());
    let (new_h, sums) = crate::polarized::h_updated(
        grid,
        c,
        h_axes,
        m,
        en,
        te,
        h[idx],
        ints,
        h_axes.len(),
    );
    let h_now = h.update(idx, new_h);
    lemma_dn_components(
        read,
        grid,
        c,
        dn_axes,
        m,
        h_now,
        en[idx],
        tm,
        dn[idx],
        sums,
        axis,
        dn_axes.len(),
    );
    let (new_dn, _) = crate::polarized::dn_updated(
        grid,
        c,
        dn_axes,
        m,
        h_now,
        en[idx],
        tm,
        dn[idx],
        sums,
        dn_axes.len(),
    );
    lemma_en_components(dn_axes, m.en1, new_dn, en[idx], axis, dn_axes.len());
    law_border_curls_are_rotations(read, grid, c, en, axis, true);
    law_border_curls_are_rotations(read, grid, c, h_now, axis, false);
    assert(h_axes.contains(axis) <==> exists|j: int|
        0 <= j < h_axes.len() && #[trigger] h_axes[j] == axis);
    assert(dn_axes.contains(axis) <==> exists|j: int|
        0 <= j < dn_axes.len() && #[trigger] dn_axes[j] == axis);
}

/// The tables hold the coefficients of `m`: for each axis what a field keeps, what its rotation
/// gives, and what the past does, with the two losses of D before the past.
pub open spec fn tabulates<S: Scalar>(table: PmlCoefficients2<S>, m: PmlCoefficients<S>) -> bool {
    forall|axis: Axis| #[trigger]
        axis.valid() ==> {
            let a = axis.index_spec() as int;
            &&& table.h_coeffs[a]@ == seq![m.h1.at(axis), m.h2.at(axis), m.h3.at(axis), m.h4.at(
                axis,
            )]
            &&& table.dn_coeffs[a]@ == seq![
                m.dn1.at(axis),
                m.dn2.at(axis),
                m.dn_loss1.at(axis),
                m.dn_loss2.at(axis),
                m.dn3.at(axis),
                m.dn4.at(axis),
            ]
            &&& table.en_coeffs[a] == m.en1.at(axis)
        }
}

/// The table holds the sums of the H update.
pub open spec fn tabulates_h_sums<S: Scalar>(
    table: Seq<Seq<S>>,
    sums: PmlIntegrals<S>,
) -> bool {
    &&& table.len() == 3
    &&& forall|axis: Axis| #[trigger]
        axis.valid() ==> table[axis.index_spec() as int] == seq![sums.en_curl.at(axis), sums.h.at(
            axis,
        )]
}

/// The table holds the sums of the D update.
pub open spec fn tabulates_dn_sums<S: Scalar>(
    table: Seq<Seq<S>>,
    sums: PmlIntegrals<S>,
) -> bool {
    &&& table.len() == 3
    &&& forall|axis: Axis| #[trigger]
        axis.valid() ==> table[axis.index_spec() as int] == seq![
            sums.en.at(axis),
            sums.h_curl.at(axis),
            sums.dn.at(axis),
        ]
}

proof fn lemma_tabled_h<S: Scalar>(
    grid: GridParameters2<S>,
    c: UVec3,
    axes: Seq<Axis>,
    table: PmlCoefficients2<S>,
    m: PmlCoefficients<S>,
    en: Seq<Vec4<S>>,
    src: S,
    h: Vec4<S>,
    rows: Seq<Seq<S>>,
    ints: PmlIntegrals<S>,
    k: nat,
)
    requires
        tabulates(table, m),
        tabulates_h_sums(rows, ints),
        k <= axes.len(),
        forall|j: int| 0 <= j < axes.len() ==> (#[trigger] axes[j]).valid(),
    ensures
        ({
            let (v, sums) = crate::tabled::h_updated(
                Variant::InPlace,
                grid,
                c,
                axes,
                table,
                en,
                src,
                h,
                rows,
                k,
            );
            let (w, after) = crate::polarized::h_updated(grid, c, axes, m, en, src, h, ints, k);
            v == w && tabulates_h_sums(sums, after)
        }),
    decreases k,
{
    if k > 0 {
        lemma_tabled_h(grid, c, axes, table, m, en, src, h, rows, ints, (k - 1) as nat);
        let (v, sums) = crate::tabled::h_updated(
            Variant::InPlace,
            grid,
            c,
            axes,
            table,
            en,
            src,
            h,
            rows,
            (k - 1) as nat,
        );
        let last = axes[k - 1];
        assert(last.valid());
        let a = last.index_spec() as int;
        let curl = curl_along(grid, c, en, en[grid.place(c)], last, true);
        let (v2, sums2) = crate::tabled::h_updated(
            Variant::InPlace,
            grid,
            c,
            axes,
            table,
            en,
            src,
            h,
            rows,
            k,
        );
        let (w2, after2) = crate::polarized::h_updated(grid, c, axes, m, en, src, h, ints, k);
        assert forall|axis: Axis| #[trigger] axis.valid() implies sums2[axis.index_spec() as int]
            == seq![after2.en_curl.at(axis), after2.h.at(axis)] by {
            assert(sums2[axis.index_spec() as int] =~= seq![
                after2.en_curl.at(axis),
                after2.h.at(axis),
            ]);
        }
    }
}

proof fn lemma_tabled_dn<S: Scalar>(
    grid: GridParameters2<S>,
    c: UVec3,
    axes: Seq<Axis>,
    table: PmlCoefficients2<S>,
    m: PmlCoefficients<S>,
    h: Seq<Vec4<S>>,
    en_self: Vec4<S>,
    src: S,
    dn: Vec4<S>,
    rows: Seq<Seq<S>>,
    ints: PmlIntegrals<S>,
    k: nat,
)
    requires
        tabulates(table, m),
        tabulates_dn_sums(rows, ints),
        k <= axes.len(),
        forall|j: int| 0 <= j < axes.len() ==> (#[trigger] axes[j]).valid(),
    ensures
        ({
            let (v, sums) = crate::tabled::dn_updated(
                Variant::InPlace,
                grid,
                c,
                axes,
                table,
                h,
                en_self,
                src,
                dn,
                rows,
                k,
            );
            let (w, after) = crate::polarized::dn_updated(
                grid,
                c,
                axes,
                m,
                h,
                en_self,
                src,
                dn,
                ints,
                k,
            );
            v == w && tabulates_dn_sums(sums, after)
        }),
    decreases k,
{
    if k > 0 {
        lemma_tabled_dn(
            grid,
            c,
            axes,
            table,
            m,
            h,
            en_self,
            src,
            dn,
            rows,
            ints,
            (k - 1) as nat,
        );
        let last = axes[k - 1];
        assert(last.valid());
        let (v2, sums2) = crate::tabled::dn_updated(
            Variant::InPlace,
            grid,
            c,
            axes,
            table,
            h,
            en_self,
            src,
            dn,
            rows,
            k,
        );
        let (w2, after2) = crate::polarized::dn_updated(
            grid,
            c,
            axes,
            m,
            h,
            en_self,
            src,
            dn,
            ints,
            k,
        );
        assert forall|axis: Axis| #[trigger] axis.valid() implies sums2[axis.index_spec() as int]
            == seq![after2.en.at(axis), after2.h_curl.at(axis), after2.dn.at(axis)] by {
            assert(sums2[axis.index_spec() as int] =~= seq![
                after2.en.at(axis),
                after2.h_curl.at(axis),
                after2.dn.at(axis),
            ]);
        }
    }
}

proof fn lemma_tabled_en<S: Scalar>(
    axes: Seq<Axis>,
    table: PmlCoefficients2<S>,
    m: PmlCoefficients<S>,
    dn: Vec4<S>,
    en: Vec4<S>,
    k: nat,
)
    requires
        tabulates(table, m),
        k <= axes.len(),
        forall|j: int| 0 <= j < axes.len() ==> (#[trigger] axes[j]).valid(),
    ensures
        crate::tabled::en_updated(axes, table.en_coeffs, dn, en, k) == crate::polarized::en_updated(
            axes,
            m.en1,
            dn,
            en,
            k,
        ),
    decreases k,
{
    if k > 0 {
        lemma_tabled_en(axes, table, m, dn, en, (k - 1) as nat);
        assert(axes[k - 1].valid());
    }
}

/// Two ways to store coefficients and sums give one update: the update in place from tables computes
/// the same fields and sums as the one by vectors.
pub proof fn law_tables_hold_the_same_update<S: Scalar>(
    grid: GridParameters2<S>,
    c: UVec3,
    h: Seq<Vec4<S>>,
    dn: Seq<Vec4<S>>,
    en: Seq<Vec4<S>>,
    rows: IntegrationTerms<S>,
    ints: PmlIntegrals<S>,
    table: PmlCoefficients2<S>,
    m: PmlCoefficients<S>,
    source: S,
)
    requires
        tabulates(table, m),
        tabulates_h_sums(rows.h_table(), ints),
        tabulates_dn_sums(rows.dn_table(), ints),
        lists_axes_once(grid.polarization_mode.h_list()),
        lists_axes_once(grid.polarization_mode.dn_list()),
    ensures
        ({
            let (cell, h_sums, dn_sums) = crate::tabled::tabled_step(
                Variant::InPlace,
                grid,
                c,
                h,
                dn,
                en,
                rows,
                table,
                source,
            );
            let (expected, sums) = crate::polarized::polarized_step(
                grid,
                c,
                h,
                dn,
                en,
                ints,
                m,
                source,
            );
            &&& cell == expected
            &&& tabulates_h_sums(h_sums, sums)
            &&& tabulates_dn_sums(dn_sums, sums)
        }),
{
    let idx = grid.place(c);
    let mode = grid.polarization_mode;
    let (h_axes, dn_axes) = (mode.h_list(), mode.dn_list());
    let te = source * bit_spec::<S>(mode.is_te_spec());
    let tm = source * bit_spec::<S>(mode.is_tm_spec());
    lemma_tabled_h(
        grid,
        c,
        h_axes,
        table,
        m,
        en,
        te,
        h[idx],
        rows.h_table(),
        ints,
        h_axes.len(),
    );
    let (new_h, sums) = crate::polarized::h_updated(
        grid,
        c,
        h_axes,
        m,
        en,
        te,
        h[idx],
        ints,
        h_axes.len(),
    );
    lemma_untouched_sums(grid, c, h_axes, m, en, te, h[idx], ints, h_axes.len());
    let h_now = h.update(idx, new_h);
    lemma_tabled_dn(
        grid,
        c,
        dn_axes,
        table,
        m,
        h_now,
        en[idx],
        tm,
        dn[idx],
        rows.dn_table(),
        sums,
        dn_axes.len(),
    );
    let (new_dn, after) = crate::polarized::dn_updated(
        grid,
        c,
        dn_axes,
        m,
        h_now,
        en[idx],
        tm,
        dn[idx],
        sums,
        dn_axes.len(),
    );
    lemma_untouched_h_sums(
        grid,
        c,
        dn_axes,
        m,
        h_now,
        en[idx],
        tm,
        dn[idx],
        sums,
        dn_axes.len(),
    );
    lemma_tabled_en(dn_axes, table, m, new_dn, en[idx], dn_axes.len());
}

/// The update of H leaves the sums of D alone.
proof fn lemma_untouched_sums<S: Scalar>(
    grid: GridParameters2<S>,
    c: UVec3,
    axes: Seq<Axis>,
    m: PmlCoefficients<S>,
    en: Seq<Vec4<S>>,
    src: S,
    h: Vec4<S>,
    ints: PmlIntegrals<S>,
    k: nat,
)
    ensures
        ({
            let sums = crate::polarized::h_updated(grid, c, axes, m, en, src, h, ints, k).1;
            sums.en == ints.en && sums.h_curl == ints.h_curl && sums.dn == ints.dn
        }),
    decreases k,
{
    if k > 0 {
        lemma_untouched_sums(grid, c, axes, m, en, src, h, ints, (k - 1) as nat);
    }
}

/// The update of D leaves the sums of H alone.
proof fn lemma_untouched_h_sums<S: Scalar>(
    grid: GridParameters2<S>,
    c: UVec3,
    axes: Seq<Axis>,
    m: PmlCoefficients<S>,
    h: Seq<Vec4<S>>,
    en_self: Vec4<S>,
    src: S,
    dn: Vec4<S>,
    ints: PmlIntegrals<S>,
    k: nat,
)
    ensures
        ({
            let sums = crate::polarized::dn_updated(
                grid,
                c,
                axes,
                m,
                h,
                en_self,
                src,
                dn,
                ints,
                k,
            ).1;
            sums.en_curl == ints.en_curl && sums.h == ints.h
        }),
    decreases k,
{
    if k > 0 {
        lemma_untouched_h_sums(
            grid,
            c,
            axes,
            m,
            h,
            en_self,
            src,
            dn,
            ints,
            (k - 1) as nat,
        );
    }
}

/// What two variants of the H update make of the component along `axis`.
proof fn lemma_variants_of_h<S: Scalar>(
    read: spec_fn(S) -> real,
    grid: GridParameters2<S>,
    c: UVec3,
    axes: Seq<Axis>,
    table: PmlCoefficients2<S>,
    en: Seq<Vec4<S>>,
    src: S,
    h: Vec4<S>,
    rows: Seq<Seq<S>>,
    axis: Axis,
    k: nat,
)
    requires
        exact(read),
        axis.valid(),
        k <= axes.len(),
        lists_axes_once(axes),
    ensures
        ({
            let (v, sums) = crate::tabled::h_updated(
                Variant::Fresh,
                grid,
                c,
                axes,
                table,
                en,
                src,
                h,
                rows,
                k,
            );
            let (w, others) = crate::tabled::h_updated(
                Variant::InPlace,
                grid,
                c,
                axes,
                table,
                en,
                src,
                h,
                rows,
                k,
            );
            let done = exists|j: int| 0 <= j < k && #[trigger] axes[j] == axis;
            &&& done ==> at(read, v.at(axis)) == at(read, w.at(axis))
            &&& !done ==> at(read, v.at(axis)) == 0 as real && w.at(axis) == h.at(axis)
            &&& sums == others
        }),
    decreases k,
{
    if k > 0 {
        let j: nat = (k - 1) as nat;
        lemma_variants_of_h(read, grid, c, axes, table, en, src, h, rows, axis, j);
        let last = axes[k - 1];
        if last == axis {
            assert(forall|i: int| 0 <= i < j ==> #[trigger] axes[i] != axis);
        } else {
            lemma_variants_of_h(read, grid, c, axes, table, en, src, h, rows, last, j);
            assert(forall|i: int| 0 <= i < j ==> #[trigger] axes[i] != last);
        }
    }
}

/// What two variants of the D update make of the component along `axis`.
proof fn lemma_variants_of_dn<S: Scalar>(
    read: spec_fn(S) -> real,
    grid: GridParameters2<S>,
    c: UVec3,
    axes: Seq<Axis>,
    table: PmlCoefficients2<S>,
    h: Seq<Vec4<S>>,
    en_self: Vec4<S>,
    src: S,
    dn: Vec4<S>,
    rows: Seq<Seq<S>>,
    axis: Axis,
    k: nat,
)
    requires
        exact(read),
        axis.valid(),
        k <= axes.len(),
        lists_axes_once(axes),
    ensures
        ({
            let (v, sums) = crate::tabled::dn_updated(
                Variant::Fresh,
                grid,
                c,
                axes,
                table,
                h,
                en_self,
                src,
                dn,
                rows,
                k,
            );
            let (w, others) = crate::tabled::dn_updated(
                Variant::InPlace,
                grid,
                c,
                axes,
                table,
                h,
                en_self,
                src,
                dn,
                rows,
                k,
            );
            let done = exists|j: int| 0 <= j < k && #[trigger] axes[j] == axis;
            &&& done ==> at(read, v.at(axis)) == at(read, w.at(axis))
            &&& !done ==> at(read, v.at(axis)) == 0 as real && w.at(axis) == dn.at(axis)
            &&& sums == others
        }),
    decreases k,
{
    if k > 0 {
        let j: nat = (k - 1) as nat;
        lemma_variants_of_dn(read, grid, c, axes, table, h, en_self, src, dn, rows, axis, j);
        let last = axes[k - 1];
        if last == axis {
            assert(forall|i: int| 0 <= i < j ==> #[trigger] axes[i] != axis);
        } else {
            lemma_variants_of_dn(read, grid, c, axes, table, h, en_self, src, dn, rows, last, j);
            assert(forall|i: int| 0 <= i < j ==> #[trigger] axes[i] != last);
        }
    }
}

/// The fresh update of the H field differs from the one in place only in the components that the
/// mode does not list: it clears them. The sums are the same.
pub proof fn law_fresh_h_clears_unlisted_components<S: Scalar>(
    read: spec_fn(S) -> real,
    grid: GridParameters2<S>,
    c: UVec3,
    axes: Seq<Axis>,
    table: PmlCoefficients2<S>,
    en: Seq<Vec4<S>>,
    src: S,
    h: Vec4<S>,
    rows: Seq<Seq<S>>,
    axis: Axis,
)
    requires
        exact(read),
        axis.valid(),
        lists_axes_once(axes),
    ensures
        ({
            let of = |variant: Variant|
                crate::tabled::h_updated(
                    variant,
                    grid,
                    c,
                    axes,
                    table,
                    en,
                    src,
                    h,
                    rows,
                    axes.len(),
                );
            let (v, sums) = of(Variant::Fresh);
            let (w, others) = of(Variant::InPlace);
            &&& sums == others
            &&& axes.contains(axis) ==> at(read, v.at(axis)) == at(read, w.at(axis))
            &&& !axes.contains(axis) ==> at(read, v.at(axis)) == 0 as real && w.at(axis) == h.at(
                axis,
            )
        }),
{
    lemma_variants_of_h(read, grid, c, axes, table, en, src, h, rows, axis, axes.len());
    assert(axes.contains(axis) <==> exists|j: int|
        0 <= j < axes.len() && #[trigger] axes[j] == axis);
}

/// The fresh update of the D field differs from the one in place only in the components that the
/// mode does not list: it clears them. The sums are the same.
pub proof fn law_fresh_dn_clears_unlisted_components<S: Scalar>(
    read: spec_fn(S) -> real,
    grid: GridParameters2<S>,
    c: UVec3,
    axes: Seq<Axis>,
    table: PmlCoefficients2<S>,
    h: Seq<Vec4<S>>,
    en_self: Vec4<S>,
    src: S,
    dn: Vec4<S>,
    rows: Seq<Seq<S>>,
    axis: Axis,
)
    requires
        exact(read),
        axis.valid(),
        lists_axes_once(axes),
    ensures
        ({
            let of = |variant: Variant|
                crate::tabled::dn_updated(
                    variant,
                    grid,
                    c,
                    axes,
                    table,
                    h,
                    en_self,
                    src,
                    dn,
                    rows,
                    axes.len(),
                );
            let (v, sums) = of(Variant::Fresh);
            let (w, others) = of(Variant::InPlace);
            &&& sums == others
            &&& axes.contains(axis) ==> at(read, v.at(axis)) == at(read, w.at(axis))
            &&& !axes.contains(axis) ==> at(read, v.at(axis)) == 0 as real && w.at(axis) == dn.at(
                axis,
            )
        }),
{
    lemma_variants_of_dn(
        read,
        grid,
        c,
        axes,
        table,
        h,
        en_self,
        src,
        dn,
        rows,
        axis,
        axes.len(),
    );
    assert(axes.contains(axis) <==> exists|j: int|
        0 <= j < axes.len() && #[trigger] axes[j] == axis);
}

} // verus!
