//! What dipoles add to the fields.
use crate::axis::Axis;
use crate::exact::{
    at, exact, lemma_distribute, lemma_over, lemma_times_divisor, lemma_unit, over, times,
};
use crate::params::{DipoleType, GpuDipole};
use crate::scalar::Scalar;
use crate::source_terms::dipole_terms;
use vstd::prelude::*;

verus! {

/// The dipole has a value for the step `t`: it started by then and its last value is not over.
pub open spec fn is_on<S: Scalar>(dipole: GpuDipole<S>, t: u32) -> bool {
    dipole.t_start <= t <= dipole.t_start + (dipole.vals_end - dipole.vals_start)
}

/// The value of the dipole's signal `ahead` steps behind the step `t`; the last value stays.
pub open spec fn signal_value<S: Scalar>(
    dipole: GpuDipole<S>,
    vals: Seq<S>,
    t: u32,
    ahead: int,
) -> S {
    let i = dipole.vals_start + (t - dipole.t_start) + ahead;
    vals[if i > dipole.vals_end {
        dipole.vals_end as int
    } else {
        i
    }]
}

/// What the dipole adds to the component along `axis` of the field of its kind in its own cell: its
/// value times its moment. A magnetic dipole is half a step ahead, so its value is the mean of two.
pub open spec fn emission<S: Scalar>(
    read: spec_fn(S) -> real,
    dipole: GpuDipole<S>,
    vals: Seq<S>,
    t: u32,
    axis: Axis,
) -> real {
    let now = at(read, signal_value(dipole, vals, t, 0));
    let next = at(read, signal_value(dipole, vals, t, 1));
    let value = match dipole.dipole_type {
        DipoleType::Electric => now,
        DipoleType::Magnetic => over(now + next, 2 as real),
    };
    times(value, at(read, dipole.moment.at(axis)))
}

/// The sum of what those of the first `k` dipoles add that are of the kind `dipole_type`, sit in the
/// cell that is stored at `idx` and have a value for the step `t`.
pub open spec fn emitted_together<S: Scalar>(
    read: spec_fn(S) -> real,
    dipoles: Seq<GpuDipole<S>>,
    vals: Seq<S>,
    t: u32,
    idx: int,
    dipole_type: DipoleType,
    axis: Axis,
    k: nat,
) -> real
    decreases k,
{
    if k == 0 {
        0 as real
    } else {
        let others = emitted_together(
            read,
            dipoles,
            vals,
            t,
            idx,
            dipole_type,
            axis,
            (k - 1) as nat,
        );
        let dipole = dipoles[k - 1];
        if dipole.dipole_type == dipole_type && dipole.cell_idx == idx && is_on(dipole, t) {
            others + emission(read, dipole, vals, t, axis)
        } else {
            others
        }
    }
}

/// The D term of a cell is the sum of what all electric dipoles in it emit, and the H term that of
/// the magnetic ones.
pub proof fn law_dipoles_in_a_cell_add_up<S: Scalar>(
    read: spec_fn(S) -> real,
    dipoles: Seq<GpuDipole<S>>,
    vals: Seq<S>,
    t: u32,
    idx: int,
    axis: Axis,
    k: nat,
)
    requires
        exact(read),
        axis.valid(),
        forall|j: int|
            0 <= j < k ==> (#[trigger] dipoles[j]).vals_start <= dipoles[j].vals_end,
    ensures
        ({
            let terms = dipole_terms(dipoles, vals, t, idx, k);
            &&& at(read, terms.dn.at(axis)) == emitted_together(
                read,
                dipoles,
                vals,
                t,
                idx,
                DipoleType::Electric,
                axis,
                k,
            )
            &&& at(read, terms.h.at(axis)) == emitted_together(
                read,
                dipoles,
                vals,
                t,
                idx,
                DipoleType::Magnetic,
                axis,
                k,
            )
        }),
    decreases k,
{
    if k > 0 {
        law_dipoles_in_a_cell_add_up(read, dipoles, vals, t, idx, axis, (k - 1) as nat);
        let dipole = dipoles[k - 1];
        let acc = dipole_terms(dipoles, vals, t, idx, (k - 1) as nat);
        lemma_injected(read, dipole, acc, vals, t, idx, axis);
    }
}

/// What one dipole adds.
proof fn lemma_injected<S: Scalar>(
    read: spec_fn(S) -> real,
    dipole: GpuDipole<S>,
    acc: crate::params::SourceTerms<S>,
    vals: Seq<S>,
    t: u32,
    idx: int,
    axis: Axis,
)
    requires
        exact(read),
        axis.valid(),
        dipole.vals_start <= dipole.vals_end,
    ensures
        ({
            let new = dipole.injected(acc, vals, t, idx);
            let added = if dipole.cell_idx == idx && is_on(dipole, t) {
                emission(read, dipole, vals, t, axis)
            } else {
                0 as real
            };
            let electric = dipole.dipole_type == DipoleType::Electric;
            &&& at(read, new.dn.at(axis)) == at(read, acc.dn.at(axis)) + if electric {
                added
            } else {
                0 as real
            }
            &&& at(read, new.h.at(axis)) == at(read, acc.h.at(axis)) + if electric {
                0 as real
            } else {
                added
            }
        }),
{
    let on = dipole.cell_idx == idx && is_on(dipole, t);
    assert(dipole.emits(t) == is_on(dipole, t));
    let last = dipole.vals_end as int;
    let val = vals[crate::source_terms::smaller_int(dipole.value_place(t), last)];
    let next = vals[crate::source_terms::smaller_int(dipole.value_place(t) + 1, last)];
    let half = crate::source_terms::halfway(val, next);
    let m = at(read, dipole.moment.at(axis));
    lemma_unit(at(read, val));
    lemma_unit(at(read, half));
    lemma_unit(m);
    lemma_mean(at(read, val), at(read, next));
    assert(at(read, crate::scalar::bit_spec::<S>(on)) == if on {
        1 as real
    } else {
        0 as real
    });
    if on {
        assert(val == signal_value(dipole, vals, t, 0));
        assert(next == signal_value(dipole, vals, t, 1));
    }
}

/// Halfway between two numbers is their mean.
proof fn lemma_mean(a: real, b: real)
    ensures
        times(a, 1 as real - over(1 as real, 2 as real)) + times(b, over(1 as real, 2 as real))
            == over(a + b, 2 as real),
{
    let half = over(1 as real, 2 as real);
    lemma_times_divisor(1 as real, 2 as real);
    assert(half + half == 1 as real) by {
        lemma_distribute(half, 1 as real, 1 as real);
        lemma_unit(half);
        assert(1 as real + 1 as real == 2 as real);
    }
    lemma_distribute(half, a, b);
    lemma_over(a + b, 2 as real);
}

/// A dipole that sits in another cell, or has no value for the step, changes nothing in a cell.
pub proof fn law_other_dipoles_change_nothing<S: Scalar>(
    read: spec_fn(S) -> real,
    dipoles: Seq<GpuDipole<S>>,
    dipole: GpuDipole<S>,
    vals: Seq<S>,
    t: u32,
    idx: int,
    axis: Axis,
)
    requires
        exact(read),
        axis.valid(),
        dipole.vals_start <= dipole.vals_end,
        dipole.cell_idx != idx || !is_on(dipole, t),
    ensures
        ({
            let without = dipole_terms(dipoles, vals, t, idx, dipoles.len());
            let with = dipole_terms(dipoles.push(dipole), vals, t, idx, dipoles.len() + 1);
            &&& at(read, with.dn.at(axis)) == at(read, without.dn.at(axis))
            &&& at(read, with.h.at(axis)) == at(read, without.h.at(axis))
        }),
{
    let more = dipoles.push(dipole);
    lemma_first_dipoles(dipoles, more, vals, t, idx, dipoles.len());
    lemma_injected(
        read,
        dipole,
        dipole_terms(dipoles, vals, t, idx, dipoles.len()),
        vals,
        t,
        idx,
        axis,
    );
}

/// The first dipoles of two lists that agree in them add the same.
proof fn lemma_first_dipoles<S: Scalar>(
    a: Seq<GpuDipole<S>>,
    b: Seq<GpuDipole<S>>,
    vals: Seq<S>,
    t: u32,
    idx: int,
    k: nat,
)
    requires
        forall|j: int| 0 <= j < k ==> #[trigger] a[j] == b[j],
    ensures
        dipole_terms(a, vals, t, idx, k) == dipole_terms(b, vals, t, idx, k),
    decreases k,
{
    if k > 0 {
        lemma_first_dipoles(a, b, vals, t, idx, (k - 1) as nat);
        assert(a[k - 1] == b[k - 1]);
    }
}

} // verus!
