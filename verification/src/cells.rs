//! All cells of a grid.
use crate::index::GridIndex;
use vstd::prelude::*;

verus! {

/// The cell that [`grid_cells_iter`] lists in place `k`: the last axis runs fastest.
pub open spec fn listed_cell(k: int, n: GridIndex) -> GridIndex {
    match n {
        GridIndex::One(_) => GridIndex::One(k as u32),
        GridIndex::Two(_, ny) => GridIndex::Two((k / ny as int) as u32, (k % ny as int) as u32),
        GridIndex::Three(_, ny, nz) => GridIndex::Three(
            (k / (nz * ny)) as u32,
            ((k / nz as int) % ny as int) as u32,
            (k % nz as int) as u32,
        ),
    }
}

/// All cell positions in a grid of dimensions `n_cells`.
/// They AREN'T IN THE ORDER in which the cells are stored.
pub fn grid_cells_iter(n_cells: GridIndex) -> (r: Vec<GridIndex>)
    requires
        n_cells.cell_count() <= u32::MAX,
    ensures
        r.len() == n_cells.cell_count(),
        forall|k: int| 0 <= k < r.len() ==> #[trigger] r[k] == listed_cell(k, n_cells),
{
    let mut r: Vec<GridIndex> = Vec::new();
    match n_cells {
        GridIndex::One(nz) => {
            assert(1 * 1 * nz == nz) by (nonlinear_arith);
            for k in 0..nz
                invariant
                    n_cells == GridIndex::One(nz),
                    r.len() == k,
                    forall|j: int| 0 <= j < r.len() ==> #[trigger] r[j] == listed_cell(j, n_cells),
            {
                r.push(GridIndex::One(k));
            }
        },
        GridIndex::Two(nx, ny) => {
            assert(nx * ny * 1 == nx * ny) by (nonlinear_arith);
            let count: u32 = nx * ny;
            for k in 0..count
                invariant
                    n_cells == GridIndex::Two(nx, ny),
                    count == nx * ny,
                    r.len() == k,
                    forall|j: int| 0 <= j < r.len() ==> #[trigger] r[j] == listed_cell(j, n_cells),
            {
                assert(ny > 0) by (nonlinear_arith)
                    requires
                        nx * ny > 0,
                        ny >= 0,
                ;
                r.push(GridIndex::Two(k / ny, k % ny));
            }
        },
        GridIndex::Three(nx, ny, nz) => {
            if nx > 0 && ny > 0 && nz > 0 {
                assert(nx * ny <= nx * ny * nz && nz * ny <= nx * ny * nz && nz * ny > 0)
                    by (nonlinear_arith)
                    requires
                        nx > 0,
                        ny > 0,
                        nz > 0,
                ;
                let count: u32 = nx * ny * nz;
                for k in 0..count
                    invariant
                        n_cells == GridIndex::Three(nx, ny, nz),
                        ny > 0,
                        nz > 0,
                        0 < nz * ny <= u32::MAX,
                        r.len() == k,
                        forall|j: int|
                            0 <= j < r.len() ==> #[trigger] r[j] == listed_cell(j, n_cells),
                {
                    r.push(GridIndex::Three(k / (nz * ny), (k / nz) % ny, k % nz));
                }
            } else {
                assert(nx * ny * nz == 0) by (nonlinear_arith)
                    requires
                        nx == 0 || ny == 0 || nz == 0,
                ;
            }
        },
    }
    r
}

/// Where a cell stands in the list of [`grid_cells_iter`].
pub open spec fn listing_place(c: GridIndex, n: GridIndex) -> int {
    match (c, n) {
        (GridIndex::One(z), _) => z as int,
        (GridIndex::Two(x, y), GridIndex::Two(_, ny)) => x * ny + y,
        (GridIndex::Three(x, y, z), GridIndex::Three(_, ny, nz)) => x * nz * ny + y * nz + z,
        _ => 0,
    }
}

/// The list holds every cell of the grid exactly once: each has one place in it, and each place
/// holds a cell of the grid.
pub proof fn law_grid_cells_are_listed_once(c: GridIndex, n: GridIndex, k: int)
    requires
        n.cell_count() <= u32::MAX,
    ensures
        c.cell_of(n) ==> 0 <= listing_place(c, n) < n.cell_count() && listed_cell(
            listing_place(c, n),
            n,
        ) == c,
        0 <= k < n.cell_count() ==> listed_cell(k, n).cell_of(n) && listing_place(
            listed_cell(k, n),
            n,
        ) == k,
{
    match n {
        GridIndex::One(nz) => {
            assert(1 * 1 * nz == nz) by (nonlinear_arith);
        },
        GridIndex::Two(nx, ny) => {
            assert(nx * ny * 1 == nx * ny) by (nonlinear_arith);
            // The same as the storage order of a grid with the axes exchanged.
            let swapped = GridIndex::Two(ny, nx);
            assert(ny * nx * 1 == nx * ny) by (nonlinear_arith);
            if c.cell_of(n) {
                let s = GridIndex::Two(c->Two_1, c->Two_0);
                crate::index::law_cell_to_flat_and_back(s, swapped);
                assert(0 * ny * nx == 0) by (nonlinear_arith);
            }
            if 0 <= k < n.cell_count() {
                crate::index::law_flat_to_cell_and_back(k, swapped);
                assert(0 * ny * nx == 0) by (nonlinear_arith);
            }
        },
        GridIndex::Three(nx, ny, nz) => {
            let swapped = GridIndex::Three(nz, ny, nx);
            assert(nz * ny * nx == nx * ny * nz) by (nonlinear_arith);
            if c.cell_of(n) {
                let s = GridIndex::Three(c->Three_2, c->Three_1, c->Three_0);
                crate::index::law_cell_to_flat_and_back(s, swapped);
            }
            if 0 <= k < n.cell_count() {
                crate::index::law_flat_to_cell_and_back(k, swapped);
            }
        },
    }
}

} // verus!
