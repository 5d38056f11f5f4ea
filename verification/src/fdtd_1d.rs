//! Drawing the D field of a 1D simulation to scale.
use crate::color::Color;
use crate::exact::{at, exact, lemma_distribute, lemma_unit, times};
use crate::scalar::Scalar;
use crate::vector::{Vec3, Vec4};
use crate::visual::Segment;
use vstd::prelude::*;

verus! {

/// The point over the cell `i`: as high as its Dy is, where a cell is one unit wide.
pub open spec fn signal_point<S: Scalar>(dn: Seq<Vec4<S>>, cell_size: S, i: int) -> Vec3<S> {
    Vec3 {
        x: S::zero_spec(),
        y: dn[i].y * cell_size,
        z: if i == 0 {
            S::zero_spec()
        } else {
            S::of_nat_spec(i as u32) * cell_size
        },
    }
}

/// The lines from the point over each cell to the point over the next one.
pub fn visualize<S: Scalar>(dn: &Vec<Vec4<S>>, cell_size: &S, color: &Color<S>) -> (r: Vec<
    Segment<S>,
>)
    requires
        1 <= dn.len() <= u32::MAX,
    ensures
        r.len() == dn.len() - 1,
        forall|i: int|
            0 <= i < r.len() ==> #[trigger] r[i] == (Segment {
                from: signal_point(dn@, *cell_size, i),
                to: signal_point(dn@, *cell_size, i + 1),
                color: *color,
            }),
{
    let mut r: Vec<Segment<S>> = Vec::new();
    let mut prev_pos: S = S::zero();
    let mut prev_val: S = dn[0].y.times(cell_size);
    for i in 1..dn.len()
        invariant
            1 <= dn.len() <= u32::MAX,
            r.len() == i - 1,
            prev_pos == signal_point(dn@, *cell_size, i - 1).z,
            prev_val == signal_point(dn@, *cell_size, i - 1).y,
            forall|k: int|
                0 <= k < r.len() ==> #[trigger] r[k] == (Segment {
                    from: signal_point(dn@, *cell_size, k),
                    to: signal_point(dn@, *cell_size, k + 1),
                    color: *color,
                }),
    {
        let pos: S = S::of_nat(i as u32).times(cell_size);
        let val: S = dn[i].y.times(cell_size);
        r.push(
            Segment {
                from: Vec3 { x: S::zero(), y: prev_val, z: prev_pos },
                to: Vec3 { x: S::zero(), y: val.dup(), z: pos.dup() },
                color: color.dup(),
            },
        );
        prev_pos = pos;
        prev_val = val;
    }
    r
}

/// The lines are joined: each one starts where the one before it ends.
pub proof fn law_signal_lines_are_joined<S: Scalar>(
    lines: Seq<Segment<S>>,
    dn: Seq<Vec4<S>>,
    cell_size: S,
    i: int,
)
    requires
        forall|k: int|
            0 <= k < lines.len() ==> (#[trigger] lines[k]).from == signal_point(dn, cell_size, k)
                && lines[k].to == signal_point(dn, cell_size, k + 1),
        0 < i < lines.len(),
    ensures
        lines[i].from == lines[i - 1].to,
{
    assert(lines[i - 1].to == signal_point(dn, cell_size, i - 1 + 1));
}

/// The signal is drawn to scale: the points are a cell apart along Z, and as high as Dy is in cells.
pub proof fn law_signal_is_drawn_to_scale<S: Scalar>(
    read: spec_fn(S) -> real,
    dn: Seq<Vec4<S>>,
    cell_size: S,
    i: int,
)
    requires
        exact(read),
        0 <= i < u32::MAX,
    ensures
        ({
            let (here, next) = (
                signal_point(dn, cell_size, i),
                signal_point(dn, cell_size, i + 1),
            );
            let size = at(read, cell_size);
            &&& at(read, next.z) - at(read, here.z) == size
            &&& at(read, signal_point(dn, cell_size, 0).z) == 0 as real
            &&& at(read, here.y) == times(at(read, dn[i].y), size)
            &&& at(read, here.x) == 0 as real
        }),
{
    let size = at(read, cell_size);
    lemma_unit(size);
    lemma_distribute(size, i as real, 1 as real);
    assert((i + 1) as real == i as real + 1 as real);
    assert((i + 1) as u32 as real == (i + 1) as real);
    assert(i as u32 as real == i as real);
}

} // verus!
