//! What a launch does to the masks of the plane waves.
use crate::axis::Dim;
use crate::host::{Fields, Kernel};
use crate::index::{flat3, lemma_flat3_bounds, law_flat_idx_is_injective};
use crate::launch::{launch_of, launched, lemma_thread_at, sweep, thread_at, Launch};
use crate::params::{GridParameters, TfsfMask};
use crate::scalar::Scalar;
use crate::state::FdtdLossyState;
use crate::tfsf::{mask_cell, mask_source};
use crate::tfsf_setup::{mask_thread_count, masks_fit};
use crate::vector::UVec3;
use vstd::arithmetic::div_mod::{lemma_fundamental_div_mod, lemma_fundamental_div_mod_converse};
use vstd::prelude::*;

verus! {

/// The thread that initialises the mask of a cell for the source `s`.
pub open spec fn mask_thread(dim: Dim, n: UVec3, s: int, cell: UVec3) -> UVec3 {
    match dim {
        Dim::One => UVec3 { x: s as u32, y: 0, z: cell.z },
        Dim::Two => UVec3 { x: cell.x, y: cell.y, z: s as u32 },
        Dim::Three => UVec3 { x: cell.x, y: cell.y, z: (s * n.z + cell.z) as u32 },
    }
}

/// The launch that initialises the masks of all plane waves.
pub open spec fn over_masks<S>(c: FdtdLossyState<S>) -> Launch {
    let grid = c.grid_params;
    launch_of(
        Kernel::InitTfsfMasks,
        mask_thread_count(
            grid.dim,
            grid.n_cells3,
            c.tfsf_dispatch_data.tfsf_sources@.len() as int,
        ),
    )
}

/// Where the mask of a cell for the source `s` is stored.
pub open spec fn mask_place<S>(grid: GridParameters<S>, s: int, cell: UVec3) -> int {
    s * grid.cell_count + grid.place(cell)
}

/// The masks of all sources fit in their buffer, and their threads can be counted.
pub open spec fn masks_ready<S>(c: FdtdLossyState<S>, f: Fields<S>) -> bool {
    let grid = c.grid_params;
    let count = c.tfsf_dispatch_data.tfsf_sources@.len();
    &&& grid.wf()
    &&& masks_fit(grid.dim, grid.n_cells3, count as int)
    &&& f.masks.len() >= count * grid.cell_count
}

/// A thread and the source and cell that it works for belong to each other.
proof fn lemma_mask_thread<S>(c: FdtdLossyState<S>, f: Fields<S>, s: int, cell: UVec3)
    requires
        masks_ready(c, f),
        0 <= s < c.tfsf_dispatch_data.tfsf_sources@.len(),
        cell.below(c.grid_params.n_cells3),
    ensures
        ({
            let grid = c.grid_params;
            let thread = mask_thread(grid.dim, grid.n_cells3, s, cell);
            &&& thread.below(over_masks(c).threads)
            &&& mask_source(grid.dim, grid.n_cells3, thread) == s
            &&& mask_cell(grid.dim, grid.n_cells3, thread) == cell
            &&& 0 <= mask_place(grid, s, cell) < f.masks.len()
        }),
{
    let grid = c.grid_params;
    let n = grid.n_cells3;
    let count = c.tfsf_dispatch_data.tfsf_sources@.len() as int;
    lemma_flat3_bounds(cell, n);
    let cells = grid.cell_count as int;
    assert(s * cells + cells <= count * cells) by (nonlinear_arith)
        requires
            s + 1 <= count,
            cells >= 0,
    ;
    assert(0 <= s * cells) by (nonlinear_arith)
        requires
            0 <= s,
            0 <= cells,
    ;
    if grid.dim == Dim::Three {
        let z = s * n.z + cell.z;
        assert(0 <= z < count * n.z) by (nonlinear_arith)
            requires
                z == s * n.z + cell.z,
                0 <= s < count,
                0 <= cell.z < n.z,
        ;
        assert(z == n.z * s + cell.z) by (nonlinear_arith)
            requires
                z == s * n.z + cell.z,
        ;
        lemma_fundamental_div_mod_converse(z, n.z as int, s, cell.z as int);
    }
}

/// The thread works for a source and a cell of the grid.
proof fn lemma_thread_has_mask<S>(c: FdtdLossyState<S>, f: Fields<S>, thread: UVec3)
    requires
        masks_ready(c, f),
        thread.below(over_masks(c).threads),
    ensures
        ({
            let grid = c.grid_params;
            let s = mask_source(grid.dim, grid.n_cells3, thread);
            let cell = mask_cell(grid.dim, grid.n_cells3, thread);
            &&& 0 <= s < c.tfsf_dispatch_data.tfsf_sources@.len()
            &&& cell.below(grid.n_cells3)
            &&& mask_thread(grid.dim, grid.n_cells3, s, cell) == thread
        }),
{
    let grid = c.grid_params;
    let n = grid.n_cells3;
    let count = c.tfsf_dispatch_data.tfsf_sources@.len() as int;
    if grid.dim == Dim::Three {
        let z = thread.z as int;
        assert(0 <= count * n.z) by (nonlinear_arith)
            requires
                count >= 0,
        ;
        lemma_fundamental_div_mod(z, n.z as int);
        let q = z / n.z as int;
        assert(0 <= q < count) by (nonlinear_arith)
            requires
                z == n.z * q + z % (n.z as int),
                0 <= z % (n.z as int) < n.z,
                0 <= z < count * n.z,
        ;
        assert(q * n.z + z % (n.z as int) == z) by (nonlinear_arith)
            requires
                z == n.z * q + z % (n.z as int),
        ;
    }
}

/// The masks of two cells, or for two sources, are stored in different places.
proof fn lemma_mask_places_differ<S>(
    grid: GridParameters<S>,
    s: int,
    a: UVec3,
    t: int,
    b: UVec3,
)
    requires
        grid.wf(),
        a.below(grid.n_cells3),
        b.below(grid.n_cells3),
        mask_place(grid, s, a) == mask_place(grid, t, b),
    ensures
        s == t && a == b,
{
    let count = grid.cell_count as int;
    let (i, j) = (grid.place(a), grid.place(b));
    lemma_flat3_bounds(a, grid.n_cells3);
    lemma_flat3_bounds(b, grid.n_cells3);
    assert(s == t) by (nonlinear_arith)
        requires
            s * count + i == t * count + j,
            0 <= i < count,
            0 <= j < count,
    ;
    law_flat_idx_is_injective(a, b, grid.n_cells3);
}

/// The mask of a cell for the source `s` after the first `k` threads.
pub open spec fn mask_after<S: Scalar>(
    c: FdtdLossyState<S>,
    f: Fields<S>,
    s: int,
    cell: UVec3,
    k: int,
) -> TfsfMask<S> {
    let grid = c.grid_params;
    let source = c.tfsf_dispatch_data.tfsf_sources@[s];
    let thread = mask_thread(grid.dim, grid.n_cells3, s, cell);
    let p = (cell.at(source.a), cell.at(source.a1), cell.at(source.a2));
    if source.active() && !source.leaves_in_1d(grid.dim, p) && flat3(
        thread,
        over_masks(c).threads,
    ) < k {
        source.mask_at(grid.dim, p)
    } else {
        f.masks[mask_place(grid, s, cell)]
    }
}

proof fn lemma_masks_sweep<S: Scalar>(
    c: FdtdLossyState<S>,
    f: Fields<S>,
    k: nat,
    s: int,
    cell: UVec3,
)
    requires
        masks_ready(c, f),
        k <= over_masks(c).threads.product_spec(),
        0 <= s < c.tfsf_dispatch_data.tfsf_sources@.len(),
        cell.below(c.grid_params.n_cells3),
    ensures
        ({
            let now = sweep(c, over_masks(c), f, k);
            &&& now == (Fields { masks: now.masks, ..f })
            &&& now.masks.len() == f.masks.len()
            &&& now.masks[mask_place(c.grid_params, s, cell)] == mask_after(c, f, s, cell, k as int)
        }),
    decreases k,
{
    let grid = c.grid_params;
    let launch = over_masks(c);
    let own = mask_thread(grid.dim, grid.n_cells3, s, cell);
    lemma_mask_thread(c, f, s, cell);
    lemma_flat3_bounds(own, launch.threads);
    if k > 0 {
        lemma_masks_sweep(c, f, (k - 1) as nat, s, cell);
        lemma_thread_at(launch.threads, k - 1);
        let thread = thread_at(launch.threads, k - 1);
        lemma_thread_has_mask(c, f, thread);
        let t = mask_source(grid.dim, grid.n_cells3, thread);
        let other = mask_cell(grid.dim, grid.n_cells3, thread);
        lemma_mask_thread(c, f, t, other);
        if thread == own {
            assert(t == s && other == cell);
        } else {
            if flat3(own, launch.threads) == k - 1 {
                law_flat_idx_is_injective(own, thread, launch.threads);
            }
            if mask_place(grid, s, cell) == mask_place(grid, t, other) {
                lemma_mask_places_differ(grid, s, cell, t, other);
            }
        }
    }
}

/// A launch over all masks gives every cell its mask for every active plane wave, and changes
/// nothing else. In 1D the masks where the wave would leave the total field stay as they were.
pub proof fn law_every_mask_is_initialized<S: Scalar>(
    c: FdtdLossyState<S>,
    f: Fields<S>,
    s: int,
    cell: UVec3,
)
    requires
        masks_ready(c, f),
        0 <= s < c.tfsf_dispatch_data.tfsf_sources@.len(),
        cell.below(c.grid_params.n_cells3),
    ensures
        ({
            let grid = c.grid_params;
            let r = launched(c, over_masks(c), f);
            let source = c.tfsf_dispatch_data.tfsf_sources@[s];
            let p = (cell.at(source.a), cell.at(source.a1), cell.at(source.a2));
            &&& r == (Fields { masks: r.masks, ..f })
            &&& r.masks.len() == f.masks.len()
            &&& r.masks[mask_place(grid, s, cell)] == if source.active() && !source.leaves_in_1d(
                grid.dim,
                p,
            ) {
                source.mask_at(grid.dim, p)
            } else {
                f.masks[mask_place(grid, s, cell)]
            }
        }),
{
    let launch = over_masks(c);
    let own = mask_thread(c.grid_params.dim, c.grid_params.n_cells3, s, cell);
    lemma_mask_thread(c, f, s, cell);
    lemma_flat3_bounds(own, launch.threads);
    lemma_masks_sweep(c, f, launch.threads.product_spec() as nat, s, cell);
}

} // verus!
