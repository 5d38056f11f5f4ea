//! What happens in the outermost layers of cells.
use crate::axis::{spatial, Axis, Dim};
use crate::index::{flat3, lemma_flat3_bounds, stride};
use crate::params::GridParameters;
use crate::scalar::Scalar;
use crate::vector::{UVec3, Vec4};
use vstd::prelude::*;

verus! {

/// The conductor makes `after` of the H, D and E fields `before`: where it is `on`, the fields of the
/// cell that is stored at `idx` become zero; everything else stays.
pub open spec fn conducts<S: Scalar>(
    on: bool,
    idx: int,
    before: (Seq<Vec4<S>>, Seq<Vec4<S>>, Seq<Vec4<S>>),
    after: (Seq<Vec4<S>>, Seq<Vec4<S>>, Seq<Vec4<S>>),
) -> bool {
    if on {
        &&& after.0 == before.0.update(idx, Vec4::zero_spec())
        &&& after.1 == before.1.update(idx, Vec4::zero_spec())
        &&& after.2 == before.2.update(idx, Vec4::zero_spec())
    } else {
        after == before
    }
}

/// The perfect electric conductor around the grid: all fields of a boundary cell become zero. Inner
/// cells, and threads outside the grid, change nothing.
pub fn gpu_pec_boundary<S: Scalar>(
    idx3: UVec3,
    grid: &GridParameters<S>,
    h: &mut Vec<Vec4<S>>,
    dn: &mut Vec<Vec4<S>>,
    en: &mut Vec<Vec4<S>>,
)
    requires
        grid.wf(),
        old(h).len() >= grid.cell_count,
        old(dn).len() >= grid.cell_count,
        old(en).len() >= grid.cell_count,
    ensures
        conducts(
            idx3.below(grid.n_cells3) && grid.on_boundary(idx3),
            grid.place(idx3),
            (old(h)@, old(dn)@, old(en)@),
            (final(h)@, final(dn)@, final(en)@),
        ),
{
    if !grid.is_on_boundary(&idx3) || !idx3.all_below(&grid.n_cells3) {
        return ;
    }
    let idx: usize = grid.cell_place(&idx3);
    h.set(idx, Vec4::zero());
    dn.set(idx, Vec4::zero());
    en.set(idx, Vec4::zero());
}

/// `c` is a cell of the first or last layer along `axis`.
pub open spec fn on_layer(c: UVec3, n: UVec3, axis: Axis) -> bool {
    c.below(n) && (c.at(axis) == 0 || c.at(axis) == n.at(axis) - 1)
}

fn pec_boundary_along<S: Scalar>(
    axis: Axis,
    cell_idx3: UVec3,
    grid: &GridParameters<S>,
    h: &mut Vec<Vec4<S>>,
    dn: &mut Vec<Vec4<S>>,
    en: &mut Vec<Vec4<S>>,
)
    requires
        axis.valid(),
        grid.wf(),
        old(h).len() >= grid.cell_count,
        old(dn).len() >= grid.cell_count,
        old(en).len() >= grid.cell_count,
    ensures
        conducts(
            on_layer(cell_idx3, grid.n_cells3, axis),
            grid.place(cell_idx3),
            (old(h)@, old(dn)@, old(en)@),
            (final(h)@, final(dn)@, final(en)@),
        ),
{
    let at: u32 = cell_idx3.get(axis);
    let lo_boundary = at == 0;
    let hi_boundary = at == grid.n_cells3.get(axis) - 1;
    if !(lo_boundary || hi_boundary) || !cell_idx3.all_below(&grid.n_cells3) {
        return ;
    }
    let idx: usize = grid.cell_place(&cell_idx3);
    h.set(idx, Vec4::zero());
    dn.set(idx, Vec4::zero());
    en.set(idx, Vec4::zero());
}

/// The perfect electric conductor on the two sides across the X axis.
pub fn gpu_pec_boundary_x<S: Scalar>(
    cell_idx3: UVec3,
    grid: &GridParameters<S>,
    h: &mut Vec<Vec4<S>>,
    dn: &mut Vec<Vec4<S>>,
    en: &mut Vec<Vec4<S>>,
)
    requires
        grid.wf(),
        grid.dim != Dim::One,
        old(h).len() >= grid.cell_count,
        old(dn).len() >= grid.cell_count,
        old(en).len() >= grid.cell_count,
    ensures
        conducts(
            on_layer(cell_idx3, grid.n_cells3, Axis::X),
            grid.place(cell_idx3),
            (old(h)@, old(dn)@, old(en)@),
            (final(h)@, final(dn)@, final(en)@),
        ),
{
    pec_boundary_along(Axis::X, cell_idx3, grid, h, dn, en);
}

/// The perfect electric conductor on the two sides across the Y axis.
pub fn gpu_pec_boundary_y<S: Scalar>(
    cell_idx3: UVec3,
    grid: &GridParameters<S>,
    h: &mut Vec<Vec4<S>>,
    dn: &mut Vec<Vec4<S>>,
    en: &mut Vec<Vec4<S>>,
)
    requires
        grid.wf(),
        grid.dim != Dim::One,
        old(h).len() >= grid.cell_count,
        old(dn).len() >= grid.cell_count,
        old(en).len() >= grid.cell_count,
    ensures
        conducts(
            on_layer(cell_idx3, grid.n_cells3, Axis::Y),
            grid.place(cell_idx3),
            (old(h)@, old(dn)@, old(en)@),
            (final(h)@, final(dn)@, final(en)@),
        ),
{
    pec_boundary_along(Axis::Y, cell_idx3, grid, h, dn, en);
}

/// The perfect electric conductor on the two sides across the Z axis.
pub fn gpu_pec_boundary_z<S: Scalar>(
    cell_idx3: UVec3,
    grid: &GridParameters<S>,
    h: &mut Vec<Vec4<S>>,
    dn: &mut Vec<Vec4<S>>,
    en: &mut Vec<Vec4<S>>,
)
    requires
        grid.wf(),
        grid.dim != Dim::Two,
        old(h).len() >= grid.cell_count,
        old(dn).len() >= grid.cell_count,
        old(en).len() >= grid.cell_count,
    ensures
        conducts(
            on_layer(cell_idx3, grid.n_cells3, Axis::Z),
            grid.place(cell_idx3),
            (old(h)@, old(dn)@, old(en)@),
            (final(h)@, final(dn)@, final(en)@),
        ),
{
    pec_boundary_along(Axis::Z, cell_idx3, grid, h, dn, en);
}

/// Moving along an axis moves the place of a cell in proportion.
proof fn lemma_place_along(c: UVec3, n: UVec3, axis: Axis, k: u32)
    requires
        axis.valid(),
    ensures
        flat3(c.with_spec(axis, k), n) == flat3(c, n) + (k - c.at(axis)) * stride(n, axis),
{
    let (x, y) = (n.x as int, n.y as int);
    let (cy, cz, k) = (c.y as int, c.z as int, k as int);
    assert(k * x * y == cz * x * y + (k - cz) * (x * y)) by (nonlinear_arith);
    assert(k * x == cy * x + (k - cy) * x) by (nonlinear_arith);
}

/// Take over the E field of the second layer in the last layer along `axis`, so that a wave that
/// leaves on one side enters on the other.
fn periodic_en_along<S: Scalar>(
    axis: Axis,
    cell_idx3: UVec3,
    grid: &GridParameters<S>,
    en: &mut Vec<Vec4<S>>,
)
    requires
        grid.wf(),
        spatial(grid.dim, axis),
        grid.n_cells3.at(axis) >= 2,
        old(en).len() >= grid.cell_count,
    ensures
        final(en)@ == if cell_idx3.below(grid.n_cells3) && cell_idx3.at(axis)
            == grid.n_cells3.at(axis) - 1 {
            old(en)@.update(
                grid.place(cell_idx3),
                old(en)@[grid.place(cell_idx3.with_spec(axis, 1))],
            )
        } else {
            old(en)@
        },
{
    let last_idx: u32 = grid.n_cells3.get(axis) - 1;
    let hi_boundary = cell_idx3.get(axis) == last_idx;
    if !hi_boundary || !cell_idx3.all_below(&grid.n_cells3) {
        return ;
    }
    let idx: usize = grid.cell_place(&cell_idx3);
    let incr: u32 = grid.flat_idx_incrs.get(axis);
    proof {
        lemma_place_along(cell_idx3, grid.n_cells3, axis, 1);
        lemma_flat3_bounds(cell_idx3.with_spec(axis, 1), grid.n_cells3);
        lemma_flat3_bounds(cell_idx3, grid.n_cells3);
        assert((1 - last_idx) * incr == -(incr * (last_idx - 1))) by (nonlinear_arith);
        assert(0 <= incr * (last_idx - 1)) by (nonlinear_arith)
            requires
                last_idx >= 1,
        ;
    }
    let distance: u32 = incr * (last_idx - 1);
    let en_lo: Vec4<S> = en[idx - distance as usize].dup();
    en.set(idx, en_lo);
}

/// Take over the H field of the second to last layer in the first layer along `axis`.
fn periodic_h_along<S: Scalar>(
    axis: Axis,
    cell_idx3: UVec3,
    grid: &GridParameters<S>,
    h: &mut Vec<Vec4<S>>,
)
    requires
        grid.wf(),
        spatial(grid.dim, axis),
        grid.n_cells3.at(axis) >= 2,
        old(h).len() >= grid.cell_count,
    ensures
        final(h)@ == if cell_idx3.below(grid.n_cells3) && cell_idx3.at(axis) == 0 {
            old(h)@.update(
                grid.place(cell_idx3),
                old(h)@[grid.place(
                    cell_idx3.with_spec(axis, (grid.n_cells3.at(axis) - 2) as u32),
                )],
            )
        } else {
            old(h)@
        },
{
    let lo_boundary = cell_idx3.get(axis) == 0;
    if !lo_boundary || !cell_idx3.all_below(&grid.n_cells3) {
        return ;
    }
    let idx: usize = grid.cell_place(&cell_idx3);
    let n: u32 = grid.n_cells3.get(axis);
    let incr: u32 = grid.flat_idx_incrs.get(axis);
    proof {
        let hi = cell_idx3.with_spec(axis, (n - 2) as u32);
        lemma_place_along(cell_idx3, grid.n_cells3, axis, (n - 2) as u32);
        lemma_flat3_bounds(hi, grid.n_cells3);
        lemma_flat3_bounds(cell_idx3, grid.n_cells3);
        assert((n - 2 - 0) * incr == incr * (n - 2)) by (nonlinear_arith);
        assert(0 <= incr * (n - 2)) by (nonlinear_arith)
            requires
                n >= 2,
        ;
    }
    let distance: u32 = incr * (n - 2);
    let h_hi: Vec4<S> = h[idx + distance as usize].dup();
    h.set(idx, h_hi);
}

/// Take over the E field of the second layer in the last layer along the X axis.
pub fn gpu_periodic_x_en<S: Scalar>(
    cell_idx3: UVec3,
    grid: &GridParameters<S>,
    en: &mut Vec<Vec4<S>>,
)
    requires
        grid.wf(),
        grid.dim != Dim::One,
        grid.n_cells3.x >= 2,
        old(en).len() >= grid.cell_count,
    ensures
        final(en)@ == if cell_idx3.below(grid.n_cells3) && cell_idx3.x == grid.n_cells3.x - 1 {
            old(en)@.update(
                grid.place(cell_idx3),
                old(en)@[grid.place(cell_idx3.with_spec(Axis::X, 1))],
            )
        } else {
            old(en)@
        },
{
    periodic_en_along(Axis::X, cell_idx3, grid, en);
}

/// Take over the H field of the second to last layer in the first layer along the X axis.
pub fn gpu_periodic_x_h<S: Scalar>(
    cell_idx3: UVec3,
    grid: &GridParameters<S>,
    h: &mut Vec<Vec4<S>>,
)
    requires
        grid.wf(),
        grid.dim != Dim::One,
        grid.n_cells3.x >= 2,
        old(h).len() >= grid.cell_count,
    ensures
        final(h)@ == if cell_idx3.below(grid.n_cells3) && cell_idx3.x == 0 {
            old(h)@.update(
                grid.place(cell_idx3),
                old(h)@[grid.place(
                    cell_idx3.with_spec(Axis::X, (grid.n_cells3.x - 2) as u32),
                )],
            )
        } else {
            old(h)@
        },
{
    periodic_h_along(Axis::X, cell_idx3, grid, h);
}

/// Take over the E field of the second layer in the last layer along the Y axis.
pub fn gpu_periodic_y_en<S: Scalar>(
    cell_idx3: UVec3,
    grid: &GridParameters<S>,
    en: &mut Vec<Vec4<S>>,
)
    requires
        grid.wf(),
        grid.dim != Dim::One,
        grid.n_cells3.y >= 2,
        old(en).len() >= grid.cell_count,
    ensures
        final(en)@ == if cell_idx3.below(grid.n_cells3) && cell_idx3.y == grid.n_cells3.y - 1 {
            old(en)@.update(
                grid.place(cell_idx3),
                old(en)@[grid.place(cell_idx3.with_spec(Axis::Y, 1))],
            )
        } else {
            old(en)@
        },
{
    periodic_en_along(Axis::Y, cell_idx3, grid, en);
}

/// Take over the H field of the second to last layer in the first layer along the Y axis.
pub fn gpu_periodic_y_h<S: Scalar>(
    cell_idx3: UVec3,
    grid: &GridParameters<S>,
    h: &mut Vec<Vec4<S>>,
)
    requires
        grid.wf(),
        grid.dim != Dim::One,
        grid.n_cells3.y >= 2,
        old(h).len() >= grid.cell_count,
    ensures
        final(h)@ == if cell_idx3.below(grid.n_cells3) && cell_idx3.y == 0 {
            old(h)@.update(
                grid.place(cell_idx3),
                old(h)@[grid.place(
                    cell_idx3.with_spec(Axis::Y, (grid.n_cells3.y - 2) as u32),
                )],
            )
        } else {
            old(h)@
        },
{
    periodic_h_along(Axis::Y, cell_idx3, grid, h);
}

/// Take over the E field of the second layer in the last layer along the Z axis.
pub fn gpu_periodic_z_en<S: Scalar>(
    cell_idx3: UVec3,
    grid: &GridParameters<S>,
    en: &mut Vec<Vec4<S>>,
)
    requires
        grid.wf(),
        grid.dim != Dim::Two,
        grid.n_cells3.z >= 2,
        old(en).len() >= grid.cell_count,
    ensures
        final(en)@ == if cell_idx3.below(grid.n_cells3) && cell_idx3.z == grid.n_cells3.z - 1 {
            old(en)@.update(
                grid.place(cell_idx3),
                old(en)@[grid.place(cell_idx3.with_spec(Axis::Z, 1))],
            )
        } else {
            old(en)@
        },
{
    periodic_en_along(Axis::Z, cell_idx3, grid, en);
}

/// Take over the H field of the second to last layer in the first layer along the Z axis.
pub fn gpu_periodic_z_h<S: Scalar>(
    cell_idx3: UVec3,
    grid: &GridParameters<S>,
    h: &mut Vec<Vec4<S>>,
)
    requires
        grid.wf(),
        grid.dim != Dim::Two,
        grid.n_cells3.z >= 2,
        old(h).len() >= grid.cell_count,
    ensures
        final(h)@ == if cell_idx3.below(grid.n_cells3) && cell_idx3.z == 0 {
            old(h)@.update(
                grid.place(cell_idx3),
                old(h)@[grid.place(
                    cell_idx3.with_spec(Axis::Z, (grid.n_cells3.z - 2) as u32),
                )],
            )
        } else {
            old(h)@
        },
{
    periodic_h_along(Axis::Z, cell_idx3, grid, h);
}

/// A cell lies on a layer along an axis exactly where it has not got a neighbour on both sides, and
/// the layers along the spatial axes make up the boundary of the grid.
pub proof fn law_layers_make_up_the_boundary(dim: Dim, c: UVec3, n: UVec3, axis: Axis)
    requires
        c.below(n),
        axis.valid(),
    ensures
        on_layer(c, n, axis) <==> !(c.at(axis) >= 1 && c.at(axis) + 1 < n.at(axis)),
        crate::params::boundary_cell(dim, c, n) <==> (spatial(dim, Axis::X) && on_layer(
            c,
            n,
            Axis::X,
        )) || (spatial(dim, Axis::Y) && on_layer(c, n, Axis::Y)) || (spatial(dim, Axis::Z)
            && on_layer(c, n, Axis::Z)),
{
}

/// In a conductor all fields of a cell vanish, and those of every other cell stay as they are.
pub proof fn law_conductor_leaves_no_field<S: Scalar>(
    on: bool,
    idx: int,
    before: (Seq<Vec4<S>>, Seq<Vec4<S>>, Seq<Vec4<S>>),
    after: (Seq<Vec4<S>>, Seq<Vec4<S>>, Seq<Vec4<S>>),
    i: int,
)
    requires
        conducts(on, idx, before, after),
        on ==> 0 <= idx < before.0.len() && idx < before.1.len() && idx < before.2.len(),
        0 <= i < before.0.len(),
        i < before.1.len(),
        i < before.2.len(),
    ensures
        after.0.len() == before.0.len(),
        after.1.len() == before.1.len(),
        after.2.len() == before.2.len(),
        on && i == idx ==> (after.0[i], after.1[i], after.2[i]) == (
            Vec4::<S>::zero_spec(),
            Vec4::<S>::zero_spec(),
            Vec4::<S>::zero_spec(),
        ),
        !(on && i == idx) ==> (after.0[i], after.1[i], after.2[i]) == (
            before.0[i],
            before.1[i],
            before.2[i],
        ),
{
}

} // verus!
