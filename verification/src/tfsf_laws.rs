//! What plane waves do at the boundary of the total field.
use crate::axis::{spatial, Axis, Dim};
use crate::exact::{
    at, exact, lemma_distribute, lemma_distribute_minus, lemma_negated, lemma_swap, lemma_unit,
    times,
};
use crate::mask_laws::mask_place;
use crate::maxwell_laws::{forgets, lemma_plain_step, rotation, slope};
use crate::params::{
    GpuTfsf, GridParameters, PmlCoefficients, SourceTerms, TfsfMask, TfsfSourceValues,
    WaveDirection,
};
use crate::scalar::Scalar;
use crate::source_terms::tfsf_terms;
use crate::update::{lossy_step, Buffers};
use crate::vector::{UVec3, Vec4};
use vstd::prelude::*;

verus! {

/// The axes of the source follow one another, and it knows the cell size of the grid along the
/// spatial axes; along the others it counts no cells.
pub open spec fn belongs_to<S: Scalar>(
    read: spec_fn(S) -> real,
    source: GpuTfsf<S>,
    grid: GridParameters<S>,
) -> bool {
    &&& source.a.valid()
    &&& source.a1 == source.a.permute_spec()
    &&& source.a2 == source.a1.permute_spec()
    &&& spatial(grid.dim, source.a)
    &&& forall|along: Axis|
        along.valid() ==> if spatial(grid.dim, along) {
            #[trigger] cells_per_length(source, along) == grid.inv_d.at(along)
        } else {
            at(read, cells_per_length(source, along)) == 0 as real
        }
}

/// The reciprocal of the cell size that the source knows along `along`.
pub open spec fn cells_per_length<S: Scalar>(source: GpuTfsf<S>, along: Axis) -> S {
    if along == source.a {
        source.inv_d_a
    } else if along == source.a1 {
        source.inv_d_a1
    } else {
        source.inv_d_a2
    }
}

/// The neighbour of a cell along `along`: the next one where `forward`, the one before otherwise.
pub open spec fn neighbour<S: Scalar>(
    grid: GridParameters<S>,
    v: Seq<Vec4<S>>,
    idx: int,
    along: Axis,
    forward: bool,
) -> Vec4<S> {
    if forward {
        v[idx + grid.flat_idx_incrs.at(along)]
    } else {
        v[idx - grid.flat_idx_incrs.at(along)]
    }
}

/// `seen` is the field `v` as the cell that is stored at `idx` sees it where the component along
/// `across` of its neighbour along `along` has `added(along, across)` on top.
pub open spec fn sees<S: Scalar>(
    read: spec_fn(S) -> real,
    grid: GridParameters<S>,
    v: Seq<Vec4<S>>,
    seen: Seq<Vec4<S>>,
    idx: int,
    forward: bool,
    added: spec_fn(Axis, Axis) -> real,
) -> bool {
    &&& forall|across: Axis|
        across.valid() ==> at(read, #[trigger] seen[idx].at(across)) == at(read, v[idx].at(across))
    &&& forall|along: Axis, across: Axis|
        spatial(grid.dim, along) && across.valid() && across != along ==> at(
            read,
            #[trigger] neighbour(grid, seen, idx, along, forward).at(across),
        ) == at(read, neighbour(grid, v, idx, along, forward).at(across)) + added(along, across)
}

/// The E field of a wave that a cell misses at its next neighbours: the mask says where, and takes
/// the wave away that it counts as negative. A plane wave has no component along its axis.
pub open spec fn en_missing<S: Scalar>(
    read: spec_fn(S) -> real,
    source: GpuTfsf<S>,
    mask: TfsfMask<S>,
    here: TfsfSourceValues<S>,
    behind: TfsfSourceValues<S>,
) -> spec_fn(Axis, Axis) -> real {
    |along: Axis, across: Axis|
        if along == source.a && across == source.a1 {
            -times(at(read, mask.en_src_a1_pa), at(read, behind.en_a1))
        } else if along == source.a && across == source.a2 {
            -times(at(read, mask.en_src_a2_pa), at(read, behind.en_a2))
        } else if along == source.a1 && across == source.a2 {
            -times(at(read, mask.en_src_a2_pa1), at(read, here.en_a2))
        } else if along == source.a2 && across == source.a1 {
            -times(at(read, mask.en_src_a1_pa2), at(read, here.en_a1))
        } else {
            0 as real
        }
}

/// The H field of a wave that a cell misses at its neighbours before it.
pub open spec fn h_missing<S: Scalar>(
    read: spec_fn(S) -> real,
    source: GpuTfsf<S>,
    mask: TfsfMask<S>,
    before: TfsfSourceValues<S>,
    here: TfsfSourceValues<S>,
) -> spec_fn(Axis, Axis) -> real {
    |along: Axis, across: Axis|
        if along == source.a && across == source.a1 {
            -times(at(read, mask.h_src_a1_ma), at(read, before.h_a1))
        } else if along == source.a && across == source.a2 {
            -times(at(read, mask.h_src_a2_ma), at(read, before.h_a2))
        } else if along == source.a1 && across == source.a2 {
            -times(at(read, mask.h_src_a2_ma1), at(read, here.h_a2))
        } else if along == source.a2 && across == source.a1 {
            -times(at(read, mask.h_src_a1_ma2), at(read, here.h_a1))
        } else {
            0 as real
        }
}

/// The slope of a field that is seen with something on top of a neighbour.
proof fn lemma_seen_slope<S: Scalar>(
    read: spec_fn(S) -> real,
    source: GpuTfsf<S>,
    grid: GridParameters<S>,
    v: Seq<Vec4<S>>,
    seen: Seq<Vec4<S>>,
    idx: int,
    along: Axis,
    across: Axis,
    forward: bool,
    added: spec_fn(Axis, Axis) -> real,
)
    requires
        exact(read),
        along.valid(),
        across.valid(),
        across != along,
        sees(read, grid, v, seen, idx, forward, added),
        belongs_to(read, source, grid),
    ensures
        ({
            let change = times(added(along, across), at(read, cells_per_length(source, along)));
            slope(read, grid, seen, idx, along, across, forward) == slope(
                read,
                grid,
                v,
                idx,
                along,
                across,
                forward,
            ) + if forward {
                change
            } else {
                -change
            }
        }),
{
    let w = added(along, across);
    let inv = at(read, grid.inv_d.at(along));
    assert(spatial(grid.dim, along) ==> cells_per_length(source, along) == grid.inv_d.at(along));
    lemma_unit(inv);
    lemma_unit(w);
    assert(at(read, seen[idx].at(across)) == at(read, v[idx].at(across)));
    if spatial(grid.dim, along) {
        let x = at(read, neighbour(grid, v, idx, along, forward).at(across));
        let y = at(read, neighbour(grid, seen, idx, along, forward).at(across));
        assert(y == x + w);
        let o = at(read, v[idx].at(across));
        if forward {
            assert(y - o == (x - o) + w);
            lemma_distribute(inv, x - o, w);
        } else {
            assert(o - y == (o - x) - w);
            lemma_distribute_minus(inv, o - x, w);
        }
    }
}

/// The source terms of a plane wave correct the curls: with them each update sees its neighbours
/// across the boundary with the wave that they miss.
pub proof fn law_source_terms_correct_the_curls<S: Scalar>(
    read: spec_fn(S) -> real,
    source: GpuTfsf<S>,
    grid: GridParameters<S>,
    acc: SourceTerms<S>,
    mask: TfsfMask<S>,
    before: TfsfSourceValues<S>,
    here: TfsfSourceValues<S>,
    behind: TfsfSourceValues<S>,
    coeffs: PmlCoefficients<S>,
    idx: int,
    en: Seq<Vec4<S>>,
    en_seen: Seq<Vec4<S>>,
    h: Seq<Vec4<S>>,
    h_seen: Seq<Vec4<S>>,
    axis: Axis,
)
    requires
        exact(read),
        axis.valid(),
        belongs_to(read, source, grid),
        sees(read, grid, en, en_seen, idx, true, en_missing(read, source, mask, here, behind)),
        sees(read, grid, h, h_seen, idx, false, h_missing(read, source, mask, before, here)),
    ensures
        ({
            let terms = source.corrected(acc, mask, before, here, behind, coeffs);
            let h2 = at(read, coeffs.h2.at(axis));
            let dn2 = at(read, coeffs.dn2.at(axis));
            &&& times(h2, rotation(read, grid, en, idx, axis, true)) + (at(read, terms.h.at(axis))
                - at(read, acc.h.at(axis))) == times(
                h2,
                rotation(read, grid, en_seen, idx, axis, true),
            )
            &&& times(dn2, rotation(read, grid, h, idx, axis, false)) + (at(
                read,
                terms.dn.at(axis),
            ) - at(read, acc.dn.at(axis))) == times(
                dn2,
                rotation(read, grid, h_seen, idx, axis, false),
            )
        }),
{
    let (a, a1, a2) = (source.a, source.a1, source.a2);
    let axis1 = axis.permute_spec();
    let axis2 = axis1.permute_spec();
    let terms = source.corrected(acc, mask, before, here, behind, coeffs);
    let en_w = en_missing(read, source, mask, here, behind);
    let h_w = h_missing(read, source, mask, before, here);
    let h2 = at(read, coeffs.h2.at(axis));
    let dn2 = at(read, coeffs.dn2.at(axis));
    let (inv1, inv2) = (
        at(read, cells_per_length(source, axis1)),
        at(read, cells_per_length(source, axis2)),
    );
    lemma_seen_slope(read, source, grid, en, en_seen, idx, axis1, axis2, true, en_w);
    lemma_seen_slope(read, source, grid, en, en_seen, idx, axis2, axis1, true, en_w);
    lemma_seen_slope(read, source, grid, h, h_seen, idx, axis1, axis2, false, h_w);
    lemma_seen_slope(read, source, grid, h, h_seen, idx, axis2, axis1, false, h_w);
    let en_change = times(en_w(axis1, axis2), inv1) - times(en_w(axis2, axis1), inv2);
    let h_change = times(h_w(axis2, axis1), inv2) - times(h_w(axis1, axis2), inv1);
    lemma_distribute(h2, rotation(read, grid, en, idx, axis, true), en_change);
    lemma_distribute(dn2, rotation(read, grid, h, idx, axis, false), h_change);
    lemma_unit(inv1);
    lemma_unit(inv2);
    let (i_a, i_a1, i_a2) = (
        at(read, source.inv_d_a),
        at(read, source.inv_d_a1),
        at(read, source.inv_d_a2),
    );
    // the same products, in the order of the source terms
    let e1 = times(at(read, mask.en_src_a2_pa1), at(read, here.en_a2));
    let e2 = times(at(read, mask.en_src_a1_pa2), at(read, here.en_a1));
    let e3 = times(at(read, mask.en_src_a2_pa), at(read, behind.en_a2));
    let e4 = times(at(read, mask.en_src_a1_pa), at(read, behind.en_a1));
    let h1 = times(at(read, mask.h_src_a2_ma1), at(read, here.h_a2));
    let h2_ = times(at(read, mask.h_src_a1_ma2), at(read, here.h_a1));
    let h3 = times(at(read, mask.h_src_a2_ma), at(read, before.h_a2));
    let h4 = times(at(read, mask.h_src_a1_ma), at(read, before.h_a1));
    lemma_signed(i_a1, e1);
    lemma_signed(i_a2, e2);
    lemma_signed(i_a, e3);
    lemma_signed(i_a, e4);
    lemma_signed(i_a1, h1);
    lemma_signed(i_a2, h2_);
    lemma_signed(i_a, h3);
    lemma_signed(i_a, h4);
}

/// A product with signs and in either order.
proof fn lemma_signed(i: real, w: real)
    ensures
        times(-w, i) == -times(i, w),
        times(-i, w) == -times(i, w),
{
    lemma_negated(w, i);
    lemma_negated(i, w);
    lemma_swap(w, i);
}

/// The indices along the axes of the source of the neighbour of a cell along `along`.
pub open spec fn beside<S: Scalar>(
    source: GpuTfsf<S>,
    p: (u32, u32, u32),
    along: Axis,
    forward: bool,
) -> (u32, u32, u32) {
    let step: int = if forward {
        1
    } else {
        -1
    };
    if along == source.a {
        ((p.0 + step) as u32, p.1, p.2)
    } else if along == source.a1 {
        (p.0, (p.1 + step) as u32, p.2)
    } else {
        (p.0, p.1, (p.2 + step) as u32)
    }
}

/// The total field is not empty, the cell `p` and its neighbours can be counted, and along axes that
/// are not spatial there is only the total field.
pub open spec fn boundary_near<S: Scalar>(
    source: GpuTfsf<S>,
    dim: Dim,
    p: (u32, u32, u32),
) -> bool {
    &&& source.tf_min_a <= source.tf_max_a
    &&& source.tf_min_a1 <= source.tf_max_a1
    &&& source.tf_min_a2 <= source.tf_max_a2
    &&& p.0 < u32::MAX && p.1 < u32::MAX && p.2 < u32::MAX
    &&& p.0 >= 1
    &&& spatial(dim, source.a)
    &&& spatial(dim, source.a1) ==> p.1 >= 1
    &&& spatial(dim, source.a2) ==> p.2 >= 1
    &&& !spatial(dim, source.a1) ==> source.tf_min_a1 <= p.1 <= source.tf_max_a1
    &&& !spatial(dim, source.a2) ==> source.tf_min_a2 <= p.2 <= source.tf_max_a2
}

/// What an entry of a mask stands for: nothing between cells on one side of the boundary, minus one
/// from the total field to the scattered field, and one back.
pub open spec fn crossing(inside: bool, inside_beside: bool) -> real {
    if inside == inside_beside {
        0 as real
    } else if inside {
        -(1 as real)
    } else {
        1 as real
    }
}

/// An entry of a mask is a number.
proof fn lemma_mask_entry<S: Scalar>(
    read: spec_fn(S) -> real,
    source: GpuTfsf<S>,
    dim: Dim,
    p: (u32, u32, u32),
    on: bool,
)
    requires
        exact(read),
    ensures
        at(read, source.mask_entry(dim, p, on)) == if source.not_sf_corner(dim, p) && on {
            if source.inside_tf(dim, p) {
                -(1 as real)
            } else {
                1 as real
            }
        } else {
            0 as real
        },
{
    lemma_unit(1 as real);
    lemma_unit(-(1 as real));
}

/// The masks of a cell tell on which sides of the boundary it and its neighbours lie: those for E
/// its next neighbours, those for H its neighbours before it.
pub proof fn law_masks_tell_the_sides<S: Scalar>(
    read: spec_fn(S) -> real,
    source: GpuTfsf<S>,
    dim: Dim,
    p: (u32, u32, u32),
)
    requires
        exact(read),
        source.a.valid(),
        source.a1 == source.a.permute_spec(),
        source.a2 == source.a1.permute_spec(),
        boundary_near(source, dim, p),
    ensures
        ({
            let mask = source.mask_at(dim, p);
            let cross = |along: Axis, forward: bool|
                crossing(
                    source.inside_tf(dim, p),
                    source.inside_tf(dim, beside(source, p, along, forward)),
                );
            &&& at(read, mask.en_src_a1_pa) == cross(source.a, true)
            &&& at(read, mask.en_src_a2_pa) == cross(source.a, true)
            &&& at(read, mask.h_src_a1_ma) == cross(source.a, false)
            &&& at(read, mask.h_src_a2_ma) == cross(source.a, false)
            &&& spatial(dim, source.a1) ==> {
                &&& at(read, mask.en_src_a2_pa1) == cross(source.a1, true)
                &&& at(read, mask.h_src_a2_ma1) == cross(source.a1, false)
            }
            &&& spatial(dim, source.a2) ==> {
                &&& at(read, mask.en_src_a1_pa2) == cross(source.a2, true)
                &&& at(read, mask.h_src_a1_ma2) == cross(source.a2, false)
            }
        }),
{
    let (min_tf, max_tf) = (source.min_tf_edge(dim, p), source.max_tf_edge(dim, p));
    let (min_sf, max_sf) = (source.min_sf_edge(dim, p), source.max_sf_edge(dim, p));
    lemma_mask_entry(read, source, dim, p, max_tf.0 || min_sf.0);
    lemma_mask_entry(read, source, dim, p, max_tf.1 || min_sf.1);
    lemma_mask_entry(read, source, dim, p, max_tf.2 || min_sf.2);
    lemma_mask_entry(read, source, dim, p, min_tf.0 || max_sf.0);
    lemma_mask_entry(read, source, dim, p, min_tf.1 || max_sf.1);
    lemma_mask_entry(read, source, dim, p, min_tf.2 || max_sf.2);
}

/// `v` holds the wave `wave` in the cells of the total field and nothing in the others, at the cell
/// `p` and its neighbours.
pub open spec fn holds_the_wave_inside<S: Scalar>(
    read: spec_fn(S) -> real,
    source: GpuTfsf<S>,
    grid: GridParameters<S>,
    p: (u32, u32, u32),
    v: Seq<Vec4<S>>,
    wave: Seq<Vec4<S>>,
    idx: int,
    forward: bool,
) -> bool {
    &&& forall|across: Axis|
        across.valid() ==> at(read, #[trigger] v[idx].at(across)) == if source.inside_tf(
            grid.dim,
            p,
        ) {
            at(read, wave[idx].at(across))
        } else {
            0 as real
        }
    &&& forall|along: Axis, across: Axis|
        spatial(grid.dim, along) && across.valid() ==> at(
            read,
            #[trigger] neighbour(grid, v, idx, along, forward).at(across),
        ) == if source.inside_tf(grid.dim, beside(source, p, along, forward)) {
            at(read, neighbour(grid, wave, idx, along, forward).at(across))
        } else {
            0 as real
        }
}

/// The values of the wave at the cell's neighbours are the ones that the source holds, and the wave
/// has no component along its axis.
pub open spec fn holds_the_values<S: Scalar>(
    read: spec_fn(S) -> real,
    source: GpuTfsf<S>,
    grid: GridParameters<S>,
    wave: Seq<Vec4<S>>,
    idx: int,
    forward: bool,
    here: (S, S),
    beside: (S, S),
) -> bool {
    let (a, a1, a2) = (source.a, source.a1, source.a2);
    &&& at(read, neighbour(grid, wave, idx, a, forward).at(a1)) == at(read, beside.0)
    &&& at(read, neighbour(grid, wave, idx, a, forward).at(a2)) == at(read, beside.1)
    &&& at(read, neighbour(grid, wave, idx, a1, forward).at(a2)) == at(read, here.1)
    &&& at(read, neighbour(grid, wave, idx, a2, forward).at(a1)) == at(read, here.0)
    &&& at(read, neighbour(grid, wave, idx, a1, forward).at(a)) == 0 as real
    &&& at(read, neighbour(grid, wave, idx, a2, forward).at(a)) == 0 as real
}

/// A field that holds the wave in the total field only, with what a cell misses of it, is all wave
/// to a cell in the total field and nothing to the others.
proof fn lemma_one_side<S: Scalar>(
    read: spec_fn(S) -> real,
    source: GpuTfsf<S>,
    grid: GridParameters<S>,
    p: (u32, u32, u32),
    v: Seq<Vec4<S>>,
    wave: Seq<Vec4<S>>,
    seen: Seq<Vec4<S>>,
    idx: int,
    forward: bool,
    here: (S, S),
    ahead: (S, S),
    missing: spec_fn(Axis, Axis) -> real,
)
    requires
        exact(read),
        belongs_to(read, source, grid),
        holds_the_wave_inside(read, source, grid, p, v, wave, idx, forward),
        holds_the_values(read, source, grid, wave, idx, forward, here, ahead),
        forall|along: Axis, across: Axis|
            spatial(grid.dim, along) && across.valid() && across != along ==> #[trigger] missing(
                along,
                across,
            ) == {
                let m = crossing(
                    source.inside_tf(grid.dim, p),
                    source.inside_tf(grid.dim, beside(source, p, along, forward)),
                );
                if across == source.a {
                    0 as real
                } else {
                    -times(m, at(read, neighbour(grid, wave, idx, along, forward).at(across)))
                }
            },
        source.inside_tf(grid.dim, p) ==> seen == wave,
        !source.inside_tf(grid.dim, p) ==> {
            &&& seen[idx] == Vec4::<S>::zero_spec()
            &&& forall|along: Axis|
                spatial(grid.dim, along) ==> #[trigger] neighbour(grid, seen, idx, along, forward)
                    == Vec4::<S>::zero_spec()
        },
    ensures
        sees(read, grid, v, seen, idx, forward, missing),
{
    let inside = source.inside_tf(grid.dim, p);
    assert forall|across: Axis| across.valid() implies at(read, #[trigger] seen[idx].at(across))
        == at(read, v[idx].at(across)) by {
        assert(at(read, v[idx].at(across)) == if inside {
            at(read, wave[idx].at(across))
        } else {
            0 as real
        });
    }
    assert forall|along: Axis, across: Axis|
        spatial(grid.dim, along) && across.valid() && across != along implies at(
        read,
        #[trigger] neighbour(grid, seen, idx, along, forward).at(across),
    ) == at(read, neighbour(grid, v, idx, along, forward).at(across)) + missing(along, across) by {
        let w = at(read, neighbour(grid, wave, idx, along, forward).at(across));
        let there = source.inside_tf(grid.dim, beside(source, p, along, forward));
        assert(at(read, neighbour(grid, v, idx, along, forward).at(across)) == if there {
            w
        } else {
            0 as real
        });
        lemma_unit(w);
        lemma_negated(1 as real, w);
        assert(missing(along, across) == if across == source.a {
            0 as real
        } else {
            -times(crossing(inside, there), w)
        });
        if across == source.a {
            assert(along == source.a1 || along == source.a2);
            assert(w == 0 as real);
        }
        if !inside {
            assert(neighbour(grid, seen, idx, along, forward) == Vec4::<S>::zero_spec());
        }
    }
}

/// The wave stays in the total field. Where a grid holds the wave inside the total field and
/// nothing outside, its curls and the source terms make of it what the wave's own curls would make
/// inside, and nothing outside.
pub proof fn law_wave_stays_in_the_total_field<S: Scalar>(
    read: spec_fn(S) -> real,
    source: GpuTfsf<S>,
    grid: GridParameters<S>,
    acc: SourceTerms<S>,
    p: (u32, u32, u32),
    before: TfsfSourceValues<S>,
    here: TfsfSourceValues<S>,
    behind: TfsfSourceValues<S>,
    coeffs: PmlCoefficients<S>,
    idx: int,
    en: Seq<Vec4<S>>,
    en_wave: Seq<Vec4<S>>,
    h: Seq<Vec4<S>>,
    h_wave: Seq<Vec4<S>>,
    axis: Axis,
)
    requires
        exact(read),
        axis.valid(),
        belongs_to(read, source, grid),
        boundary_near(source, grid.dim, p),
        0 <= idx < en.len(),
        idx < h.len(),
        forall|along: Axis| #[trigger]
            spatial(grid.dim, along) ==> idx + grid.flat_idx_incrs.at(along) < en.len() && 0 <= idx
                - grid.flat_idx_incrs.at(along),
        holds_the_wave_inside(read, source, grid, p, en, en_wave, idx, true),
        holds_the_wave_inside(read, source, grid, p, h, h_wave, idx, false),
        holds_the_values(
            read,
            source,
            grid,
            en_wave,
            idx,
            true,
            (here.en_a1, here.en_a2),
            (behind.en_a1, behind.en_a2),
        ),
        holds_the_values(
            read,
            source,
            grid,
            h_wave,
            idx,
            false,
            (here.h_a1, here.h_a2),
            (before.h_a1, before.h_a2),
        ),
    ensures
        ({
            let mask = source.mask_at(grid.dim, p);
            let terms = source.corrected(acc, mask, before, here, behind, coeffs);
            let h2 = at(read, coeffs.h2.at(axis));
            let dn2 = at(read, coeffs.dn2.at(axis));
            let inside = source.inside_tf(grid.dim, p);
            &&& times(h2, rotation(read, grid, en, idx, axis, true)) + (at(read, terms.h.at(axis))
                - at(read, acc.h.at(axis))) == if inside {
                times(h2, rotation(read, grid, en_wave, idx, axis, true))
            } else {
                0 as real
            }
            &&& times(dn2, rotation(read, grid, h, idx, axis, false)) + (at(
                read,
                terms.dn.at(axis),
            ) - at(read, acc.dn.at(axis))) == if inside {
                times(dn2, rotation(read, grid, h_wave, idx, axis, false))
            } else {
                0 as real
            }
        }),
{
    let mask = source.mask_at(grid.dim, p);
    let inside = source.inside_tf(grid.dim, p);
    law_masks_tell_the_sides(read, source, grid.dim, p);
    let nothing_en = Seq::new(en.len(), |i: int| Vec4::<S>::zero_spec());
    let nothing_h = Seq::new(h.len(), |i: int| Vec4::<S>::zero_spec());
    let en_seen = if inside {
        en_wave
    } else {
        nothing_en
    };
    let h_seen = if inside {
        h_wave
    } else {
        nothing_h
    };
    let en_w = en_missing(read, source, mask, here, behind);
    let h_w = h_missing(read, source, mask, before, here);
    lemma_one_side(
        read,
        source,
        grid,
        p,
        en,
        en_wave,
        en_seen,
        idx,
        true,
        (here.en_a1, here.en_a2),
        (behind.en_a1, behind.en_a2),
        en_w,
    );
    lemma_one_side(
        read,
        source,
        grid,
        p,
        h,
        h_wave,
        h_seen,
        idx,
        false,
        (here.h_a1, here.h_a2),
        (before.h_a1, before.h_a2),
        h_w,
    );
    law_source_terms_correct_the_curls(
        read,
        source,
        grid,
        acc,
        mask,
        before,
        here,
        behind,
        coeffs,
        idx,
        en,
        en_seen,
        h,
        h_seen,
        axis,
    );
    if !inside {
        lemma_nothing_turns(read, grid, nothing_en, idx, axis, true);
        lemma_nothing_turns(read, grid, nothing_h, idx, axis, false);
        lemma_unit(at(read, coeffs.h2.at(axis)));
        lemma_unit(at(read, coeffs.dn2.at(axis)));
    }
}

/// A field that is zero everywhere does not turn.
proof fn lemma_nothing_turns<S: Scalar>(
    read: spec_fn(S) -> real,
    grid: GridParameters<S>,
    v: Seq<Vec4<S>>,
    idx: int,
    axis: Axis,
    forward: bool,
)
    requires
        exact(read),
        axis.valid(),
        0 <= idx < v.len(),
        forall|i: int| 0 <= i < v.len() ==> #[trigger] v[i] == Vec4::<S>::zero_spec(),
        forall|along: Axis| #[trigger]
            spatial(grid.dim, along) ==> if forward {
                idx + grid.flat_idx_incrs.at(along) < v.len()
            } else {
                0 <= idx - grid.flat_idx_incrs.at(along)
            },
    ensures
        rotation(read, grid, v, idx, axis, forward) == 0 as real,
{
    lemma_unit(at(read, grid.inv_d.at(axis.permute_spec())));
    lemma_unit(at(read, grid.inv_d.at(axis.permute_spec().permute_spec())));
    assert(spatial(grid.dim, axis.permute_spec()) || !spatial(grid.dim, axis.permute_spec()));
    let axis2 = axis.permute_spec().permute_spec();
    assert(spatial(grid.dim, axis2) || !spatial(grid.dim, axis2));
}

/// Each cell gets the wavefronts of its own place and of its neighbours along the wave's axis: the
/// first correction belongs to the last cell before the total field, and they follow the axis.
pub proof fn law_wavefronts_belong_to_their_cells<S: Scalar>(
    source: GpuTfsf<S>,
    acc: SourceTerms<S>,
    c: UVec3,
    mask: TfsfMask<S>,
    corrections: Seq<TfsfSourceValues<S>>,
    wave: spec_fn(int) -> TfsfSourceValues<S>,
    coeffs: PmlCoefficients<S>,
)
    requires
        source.active(),
        1 <= source.tf_min_a <= source.tf_max_a,
        source.num_correction_cells == source.tf_max_a - source.tf_min_a + 3,
        source.tf_min_a - 1 <= c.at(source.a) <= source.tf_max_a + 1,
        forall|i: int|
            source.tf_min_a - 1 <= i <= source.tf_max_a + 1 ==> #[trigger] wave(i)
                == corrections[source.corrections_start + i - (source.tf_min_a - 1)],
    ensures
        ({
            let i = c.at(source.a) as int;
            let before = if i == source.tf_min_a - 1 {
                i
            } else {
                i - 1
            };
            let behind = if i == source.tf_max_a + 1 {
                i
            } else {
                i + 1
            };
            source.contributed(acc, c, mask, corrections, coeffs) == source.corrected(
                acc,
                mask,
                wave(before),
                wave(i),
                wave(behind),
                coeffs,
            )
        }),
{
}

/// In 1D a wave is corrected only where it enters the total field: the two cells on either side of
/// the boundary that it would leave through are left alone, and no others. In 2D and 3D none are.
pub proof fn law_wave_leaves_in_1d_only<S: Scalar>(
    source: GpuTfsf<S>,
    dim: Dim,
    p: (u32, u32, u32),
)
    requires
        source.tf_min_a <= source.tf_max_a,
        !spatial(dim, source.a1),
        !spatial(dim, source.a2),
    ensures
        source.leaves_in_1d(dim, p) <==> dim == Dim::One && match source.direction {
            WaveDirection::Positive => p.0 == source.tf_max_a || p.0 == source.tf_max_a + 1,
            WaveDirection::Negative => p.0 == source.tf_min_a || p.0 + 1 == source.tf_min_a,
        },
{
}

/// Each plane wave in turn adds its correction, with the mask that was stored for it and the cell;
/// inactive ones add nothing.
pub proof fn law_plane_waves_are_corrected_in_turn<S: Scalar>(
    acc: SourceTerms<S>,
    sources: Seq<GpuTfsf<S>>,
    grid: GridParameters<S>,
    c: UVec3,
    masks: Seq<TfsfMask<S>>,
    corrections: Seq<TfsfSourceValues<S>>,
    coeffs: PmlCoefficients<S>,
    k: nat,
)
    requires
        k < sources.len(),
    ensures
        ({
            let upto = |j: nat|
                tfsf_terms(
                    acc,
                    sources,
                    c,
                    grid.place(c),
                    grid.cell_count as int,
                    masks,
                    corrections,
                    coeffs,
                    j,
                );
            let mask = masks[mask_place(grid, k as int, c)];
            &&& upto(0) == acc
            &&& upto(k + 1) == if sources[k as int].active() {
                sources[k as int].contributed(upto(k), c, mask, corrections, coeffs)
            } else {
                upto(k)
            }
        }),
{
}

/// What the cell that is stored at `idx` sees of a wave is the wave itself in the total field, and
/// nothing outside.
pub open spec fn wave_inside(inside: bool, wave: real) -> real {
    if inside {
        wave
    } else {
        0 as real
    }
}

/// A step keeps the wave in the total field. Where an empty grid holds the wave inside the total
/// field and nothing outside, the step with the source terms of the plane wave gives the H field,
/// and from the H field around the cell after it the D field, that the wave would have without a
/// boundary inside, and nothing outside.
pub proof fn law_step_keeps_the_wave_in_the_total_field<S: Scalar>(
    read: spec_fn(S) -> real,
    source: GpuTfsf<S>,
    grid: GridParameters<S>,
    p: (u32, u32, u32),
    before: TfsfSourceValues<S>,
    here: TfsfSourceValues<S>,
    behind: TfsfSourceValues<S>,
    m: PmlCoefficients<S>,
    idx: int,
    b: Buffers<S>,
    h_wave: Seq<Vec4<S>>,
    dn_wave: Seq<Vec4<S>>,
    en_wave: Seq<Vec4<S>>,
    next_h_wave: Seq<Vec4<S>>,
    axis: Axis,
)
    requires
        exact(read),
        axis.valid(),
        grid.dim == Dim::One ==> axis != Axis::Z,
        forgets(read, m, axis),
        belongs_to(read, source, grid),
        boundary_near(source, grid.dim, p),
        0 <= idx < b.en.len(),
        idx < b.h.len(),
        forall|along: Axis| #[trigger]
            spatial(grid.dim, along) ==> idx + grid.flat_idx_incrs.at(along) < b.en.len() && 0
                <= idx - grid.flat_idx_incrs.at(along),
        at(read, b.h[idx].at(axis)) == wave_inside(
            source.inside_tf(grid.dim, p),
            at(read, h_wave[idx].at(axis)),
        ),
        at(read, b.dn[idx].at(axis)) == wave_inside(
            source.inside_tf(grid.dim, p),
            at(read, dn_wave[idx].at(axis)),
        ),
        holds_the_wave_inside(read, source, grid, p, b.en, en_wave, idx, true),
        ({
            let terms = source.corrected(
                SourceTerms::zero_spec(),
                source.mask_at(grid.dim, p),
                before,
                here,
                behind,
                m,
            );
            let new = lossy_step(grid, idx, b.h, b.dn, b.en, b.integrals[idx], m, terms).0;
            holds_the_wave_inside(
                read,
                source,
                grid,
                p,
                b.h.update(idx, new.h),
                next_h_wave,
                idx,
                false,
            )
        }),
        holds_the_values(
            read,
            source,
            grid,
            en_wave,
            idx,
            true,
            (here.en_a1, here.en_a2),
            (behind.en_a1, behind.en_a2),
        ),
        holds_the_values(
            read,
            source,
            grid,
            next_h_wave,
            idx,
            false,
            (here.h_a1, here.h_a2),
            (before.h_a1, before.h_a2),
        ),
    ensures
        ({
            let terms = source.corrected(
                SourceTerms::zero_spec(),
                source.mask_at(grid.dim, p),
                before,
                here,
                behind,
                m,
            );
            let new = lossy_step(grid, idx, b.h, b.dn, b.en, b.integrals[idx], m, terms).0;
            let of = |v: Vec4<S>| at(read, v.at(axis));
            let inside = source.inside_tf(grid.dim, p);
            &&& of(new.h) == wave_inside(
                inside,
                times(of(m.h1), of(h_wave[idx])) + times(
                    of(m.h2),
                    rotation(read, grid, en_wave, idx, axis, true),
                ),
            )
            &&& of(new.dn) == wave_inside(
                inside,
                times(of(m.dn1), of(dn_wave[idx])) + times(
                    of(m.dn2),
                    rotation(read, grid, next_h_wave, idx, axis, false),
                ),
            )
        }),
{
    let none = SourceTerms::<S>::zero_spec();
    let terms = source.corrected(none, source.mask_at(grid.dim, p), before, here, behind, m);
    let new = lossy_step(grid, idx, b.h, b.dn, b.en, b.integrals[idx], m, terms).0;
    lemma_plain_step(read, grid, idx, b, m, terms, axis);
    law_wave_stays_in_the_total_field(
        read,
        source,
        grid,
        none,
        p,
        before,
        here,
        behind,
        m,
        idx,
        b.en,
        en_wave,
        b.h.update(idx, new.h),
        next_h_wave,
        axis,
    );
    lemma_unit(at(read, m.h1.at(axis)));
    lemma_unit(at(read, m.dn1.at(axis)));
}

} // verus!
