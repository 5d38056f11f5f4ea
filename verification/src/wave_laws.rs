//! What a launch does to the auxiliary grids on which the plane waves travel.
use crate::host::{thread_effect, Fields, Kernel};
use crate::launch::{launched, lemma_thread_at, sweep, thread_at, Launch};
use crate::params::{AuxGridPmlCoeffs, AuxVect, GpuTfsf, TfsfSourceValues};
use crate::scalar::{bit_spec, Scalar};
use crate::source::Source;
use crate::state::FdtdLossyState;
use crate::tfsf_setup::{lemma_pack_bounds, TfsfSetup};
use crate::vector::{UVec3, Vec2};
use vstd::prelude::*;

verus! {

/// No cell of an auxiliary grid, and no correction, belongs to two plane waves.
pub open spec fn waves_apart<S: Scalar>(sources: Seq<GpuTfsf<S>>) -> bool {
    forall|j: int, k: int|
        0 <= j < k < sources.len() && (#[trigger] sources[j]).active() && (
        #[trigger] sources[k]).active() ==> {
            &&& sources[j].grid_start + sources[j].n_cells <= sources[k].grid_start
            &&& sources[j].corrections_start + sources[j].num_correction_cells
                <= sources[k].corrections_start
        }
}

/// The launch that lets all plane waves travel through grids of up to `len` cells.
pub open spec fn over_waves<S>(c: FdtdLossyState<S>, len: u32) -> Launch {
    Launch {
        kernel: Kernel::AuxGridUpdate,
        threads: UVec3 { x: c.tfsf_dispatch_data.tfsf_sources@.len() as u32, y: 1, z: len },
    }
}

/// The buffers of the plane waves hold all their cells and corrections.
pub open spec fn waves_fit<S: Scalar>(c: FdtdLossyState<S>, f: Fields<S>) -> bool {
    let tfsf = c.tfsf_dispatch_data;
    let sources = tfsf.tfsf_sources@;
    &&& sources.len() <= u32::MAX
    &&& f.aux_dn.len() == f.aux_h.len()
    &&& f.aux_en.len() == f.aux_h.len()
    &&& forall|s: int|
        0 <= s < sources.len() && (#[trigger] sources[s]).active() ==> {
            &&& sources[s].aux_grid_below(f.aux_h.len() as int)
            &&& sources[s].corrections_start + sources[s].num_correction_cells
                <= f.corrections.len()
        }
}

/// The D field of a cell after a step, from the H field of the cell and of the one before it.
pub open spec fn next_aux_dn<S: Scalar>(
    source: GpuTfsf<S>,
    m: AuxGridPmlCoeffs<S>,
    dn: AuxVect<S>,
    h: AuxVect<S>,
    h_before: AuxVect<S>,
) -> AuxVect<S> {
    let before = h_before.scaled_spec(bit_spec::<S>(true));
    let curl = Vec2 {
        x: (-(h.y - before.y)) * source.inv_d_a,
        y: (h.x - before.x) * source.inv_d_a,
    };
    Vec2 { x: m.dn1.x * dn.x + m.dn2.x * curl.x, y: m.dn1.y * dn.y + m.dn2.y * curl.y }
}

/// The cell `i` of the auxiliary grid of `source` has made the step from `f` to `now`.
///
/// The H field follows from the E field before the step; what is left open is the last cell, whose
/// neighbour counts as nothing. The D field of the source cell is set by the signal, and that of
/// the others follows from the H field after the step; what is left open is the first cell, where
/// it is not the source cell.
pub open spec fn cell_stepped<S: Scalar>(
    c: FdtdLossyState<S>,
    f: Fields<S>,
    now: Fields<S>,
    source: GpuTfsf<S>,
    i: int,
) -> bool {
    let at = source.grid_start + i;
    let m = c.tfsf_dispatch_data.auxgr_coeffs@[at];
    &&& i + 1 < source.n_cells ==> now.aux_h[at] == source.aux_h(i, m, f.aux_h, f.aux_en)
    &&& i == source.source_cell() ==> now.aux_dn[at] == source.emitted(c.source_vals@, f.t_idx)
    &&& i != source.source_cell() && i > 0 ==> now.aux_dn[at] == next_aux_dn(
        source,
        m,
        f.aux_dn[at],
        now.aux_h[at],
        now.aux_h[at - 1],
    )
    &&& now.aux_en[at] == (Vec2 {
        x: m.en1.x * now.aux_dn[at].x,
        y: m.en1.y * now.aux_dn[at].y,
    })
    &&& source.hands_over(i) ==> now.corrections[source.handed_to(i)] == (TfsfSourceValues {
        en_a1: f.aux_en[at].x,
        en_a2: f.aux_en[at].y,
        h_a1: now.aux_h[at].x,
        h_a2: now.aux_h[at].y,
    })
}

/// The cell `i` of the auxiliary grid of `source` is as it was.
pub open spec fn cell_waits<S: Scalar>(
    f: Fields<S>,
    now: Fields<S>,
    source: GpuTfsf<S>,
    i: int,
) -> bool {
    let at = source.grid_start + i;
    now.aux_h[at] == f.aux_h[at] && now.aux_dn[at] == f.aux_dn[at] && now.aux_en[at] == f.aux_en[at]
}

/// Where the cell `i` of the source `s` comes in the order of the threads.
pub open spec fn turn<S>(c: FdtdLossyState<S>, s: int, i: int) -> int {
    i * c.tfsf_dispatch_data.tfsf_sources@.len() + s
}

/// After `k` threads, the cells whose turn it was have made the step, and the others wait.
spec fn cell_in_order<S: Scalar>(
    c: FdtdLossyState<S>,
    f: Fields<S>,
    now: Fields<S>,
    s: int,
    i: int,
    k: int,
) -> bool {
    let source = c.tfsf_dispatch_data.tfsf_sources@[s];
    0 <= s < c.tfsf_dispatch_data.tfsf_sources@.len() && source.active() && 0 <= i
        < source.n_cells ==> if turn(c, s, i) < k {
        cell_stepped(c, f, now, source, i)
    } else {
        cell_waits(f, now, source, i)
    }
}

/// The turns of two cells differ.
proof fn lemma_turns_differ(s: int, i: int, t: int, j: int, n: int)
    requires
        0 <= s < n,
        0 <= t < n,
        (s, i) != (t, j),
    ensures
        i * n + s != j * n + t,
        (i - 1) * n + s < i * n + s,
{
    assert((i - 1) * n + s < i * n + s) by (nonlinear_arith)
        requires
            n > 0,
    ;
    if i < j {
        assert(i * n + s < j * n + t) by (nonlinear_arith)
            requires
                i + 1 <= j,
                0 <= s < n,
                0 <= t < n,
        ;
    } else if j < i {
        assert(j * n + t < i * n + s) by (nonlinear_arith)
            requires
                j + 1 <= i,
                0 <= s < n,
                0 <= t < n,
        ;
    }
}

/// A thread lets its own cell make the step.
proof fn lemma_own_turn<S: Scalar>(
    c: FdtdLossyState<S>,
    f: Fields<S>,
    before: Fields<S>,
    s: int,
    i: int,
)
    requires
        waves_fit(c, f),
        0 <= s < c.tfsf_dispatch_data.tfsf_sources@.len(),
        0 <= i <= u32::MAX,
        before.t_idx == f.t_idx,
        before.aux_h.len() == f.aux_h.len(),
        before.aux_dn.len() == f.aux_dn.len(),
        before.aux_en.len() == f.aux_en.len(),
        before.corrections.len() == f.corrections.len(),
        cell_in_order(c, f, before, s, i, turn(c, s, i)),
        cell_in_order(c, f, before, s, i + 1, turn(c, s, i)),
    ensures
        ({
            let now = thread_effect(
                c,
                Kernel::AuxGridUpdate,
                before,
                UVec3 { x: s as u32, y: 0, z: i as u32 },
            );
            cell_in_order(c, f, now, s, i, turn(c, s, i) + 1)
        }),
{
    let source = c.tfsf_dispatch_data.tfsf_sources@[s];
    if source.active() && i < source.n_cells {
        let n = c.tfsf_dispatch_data.tfsf_sources@.len() as int;
        assert((i + 1) * n + s > i * n + s) by (nonlinear_arith)
            requires
                n > 0,
        ;
        let at = source.grid_start + i;
        let m = c.tfsf_dispatch_data.auxgr_coeffs@[at];
        assert(cell_waits(f, before, source, i));
        if i + 1 < source.n_cells {
            assert(cell_waits(f, before, source, i + 1));
            assert(source.aux_h(i, m, before.aux_h, before.aux_en) == source.aux_h(
                i,
                m,
                f.aux_h,
                f.aux_en,
            ));
        }
    }
}

/// A thread leaves the other cells as they are.
proof fn lemma_turn_of_another<S: Scalar>(
    c: FdtdLossyState<S>,
    f: Fields<S>,
    before: Fields<S>,
    s: int,
    i: int,
    t: int,
    j: int,
)
    requires
        waves_fit(c, f),
        waves_apart(c.tfsf_dispatch_data.tfsf_sources@),
        0 <= t < c.tfsf_dispatch_data.tfsf_sources@.len(),
        0 <= j <= u32::MAX,
        (s, i) != (t, j),
        before.aux_h.len() == f.aux_h.len(),
        before.aux_dn.len() == f.aux_dn.len(),
        before.aux_en.len() == f.aux_en.len(),
        before.corrections.len() == f.corrections.len(),
        cell_in_order(c, f, before, s, i, turn(c, t, j)),
    ensures
        ({
            let now = thread_effect(
                c,
                Kernel::AuxGridUpdate,
                before,
                UVec3 { x: t as u32, y: 0, z: j as u32 },
            );
            cell_in_order(c, f, now, s, i, turn(c, t, j) + 1)
        }),
{
    let sources = c.tfsf_dispatch_data.tfsf_sources@;
    if 0 <= s < sources.len() && sources[s].active() && 0 <= i < sources[s].n_cells {
        let (mine, other) = (sources[s], sources[t]);
        lemma_turns_differ(s, i, t, j, sources.len() as int);
        if other.active() && j < other.n_cells {
            if s == t {
                assert(mine.grid_start + i != other.grid_start + j);
            } else if s < t {
                assert(sources[s].active() && sources[t].active());
            } else {
                assert(sources[t].active() && sources[s].active());
            }
            assert(mine.grid_start + i != other.grid_start + j);
            if mine.hands_over(i) && other.hands_over(j) {
                crate::tfsf::law_corrections_follow_the_axis(mine, i, i);
                crate::tfsf::law_corrections_follow_the_axis(other, j, j);
                if s == t {
                    crate::tfsf::law_corrections_follow_the_axis(mine, i, j);
                }
                assert(mine.handed_to(i) != other.handed_to(j));
            }
            if turn(c, s, i) < turn(c, t, j) && i > 0 {
                assert(mine.grid_start + i - 1 != other.grid_start + j);
            }
        }
    }
}

proof fn lemma_waves_sweep<S: Scalar>(c: FdtdLossyState<S>, f: Fields<S>, len: u32, k: nat)
    requires
        waves_fit(c, f),
        waves_apart(c.tfsf_dispatch_data.tfsf_sources@),
        k <= over_waves(c, len).threads.product_spec(),
    ensures
        ({
            let now = sweep(c, over_waves(c, len), f, k);
            &&& now == (Fields {
                aux_h: now.aux_h,
                aux_dn: now.aux_dn,
                aux_en: now.aux_en,
                corrections: now.corrections,
                ..f
            })
            &&& now.aux_h.len() == f.aux_h.len()
            &&& now.aux_dn.len() == f.aux_dn.len()
            &&& now.aux_en.len() == f.aux_en.len()
            &&& now.corrections.len() == f.corrections.len()
            &&& forall|s: int, i: int| #[trigger] cell_in_order(c, f, now, s, i, k as int)
        }),
    decreases k,
{
    let launch = over_waves(c, len);
    let now = sweep(c, launch, f, k);
    if k == 0 {
        assert forall|s: int, i: int| #[trigger] cell_in_order(c, f, now, s, i, 0) by {
            let n = c.tfsf_dispatch_data.tfsf_sources@.len() as int;
            if 0 <= s < n && 0 <= i {
                assert(0 <= i * n) by (nonlinear_arith)
                    requires
                        0 <= i,
                        0 <= n,
                ;
            }
        }
    } else {
        lemma_waves_sweep(c, f, len, (k - 1) as nat);
        lemma_thread_at(launch.threads, k - 1);
        let before = sweep(c, launch, f, (k - 1) as nat);
        let thread = thread_at(launch.threads, k - 1);
        let (t, j) = (thread.x as int, thread.z as int);
        let n = launch.threads.x as int;
        assert(j * n * 1 + 0 * n + t == j * n + t) by (nonlinear_arith);
        assert(turn(c, t, j) == k - 1);
        let source = c.tfsf_dispatch_data.tfsf_sources@[t];
        if source.active() && j < source.n_cells && source.hands_over(j) {
            crate::tfsf::law_corrections_follow_the_axis(source, j, j);
        }
        assert forall|s: int, i: int| #[trigger] cell_in_order(c, f, now, s, i, k as int) by {
            assert(cell_in_order(c, f, before, s, i, k - 1));
            if (s, i) == (t, j) {
                assert(cell_in_order(c, f, before, s, i + 1, k - 1));
                lemma_own_turn(c, f, before, t, j);
            } else {
                lemma_turn_of_another(c, f, before, s, i, t, j);
            }
        }
    }
}

/// The updates of all cells of the auxiliary grids make one step in time, and hand the fields
/// around the total field over to the corrections.
pub proof fn law_plane_waves_make_one_step_in_time<S: Scalar>(
    c: FdtdLossyState<S>,
    f: Fields<S>,
    len: u32,
    s: int,
    i: int,
)
    requires
        waves_fit(c, f),
        waves_apart(c.tfsf_dispatch_data.tfsf_sources@),
        0 <= s < c.tfsf_dispatch_data.tfsf_sources@.len(),
        c.tfsf_dispatch_data.tfsf_sources@[s].active(),
        c.tfsf_dispatch_data.tfsf_sources@[s].n_cells <= len,
        0 <= i < c.tfsf_dispatch_data.tfsf_sources@[s].n_cells,
    ensures
        ({
            let r = launched(c, over_waves(c, len), f);
            &&& cell_stepped(c, f, r, c.tfsf_dispatch_data.tfsf_sources@[s], i)
            &&& r == (Fields {
                aux_h: r.aux_h,
                aux_dn: r.aux_dn,
                aux_en: r.aux_en,
                corrections: r.corrections,
                ..f
            })
        }),
{
    let launch = over_waves(c, len);
    let r = launched(c, launch, f);
    let count = launch.threads.product_spec();
    let n = launch.threads.x as int;
    assert(n * 1 * len == n * len) by (nonlinear_arith);
    assert(0 <= n * len) by (nonlinear_arith)
        requires
            n >= 0,
    ;
    lemma_waves_sweep(c, f, len, count as nat);
    assert(cell_in_order(c, f, r, s, i, count));
    assert(i * n + s < n * len) by (nonlinear_arith)
        requires
            0 <= s < n,
            0 <= i < len,
    ;
}

/// The plane waves of a simulation share no cell of an auxiliary grid and no correction.
pub proof fn law_prepared_waves_are_apart<S: Scalar>(
    setup: TfsfSetup<S>,
    sources: Seq<Source<S>>,
    vals: Seq<S>,
    k: nat,
)
    requires
        setup.packs(sources, vals, k),
        k <= sources.len(),
    ensures
        waves_apart(setup.pack(sources, vals, k).sources),
    decreases k,
{
    if k > 0 {
        law_prepared_waves_are_apart(setup, sources, vals, (k - 1) as nat);
        lemma_pack_bounds(setup, sources, vals, (k - 1) as nat);
        assert(sources[k - 1] == sources[k - 1]);
    }
}

} // verus!
