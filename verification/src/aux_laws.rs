//! How plane waves travel in their auxiliary grids.
use crate::exact::{
    at, exact, lemma_negated, lemma_over, lemma_product_sign, lemma_quotient_sign, lemma_shift,
    lemma_swap, lemma_times_divisor, lemma_unit, over, times,
};
use crate::maxwell_laws::{lemma_rate, rate};
use crate::params::{AuxGridPmlCoeffs, AuxVect, GpuTfsf, WaveDirection};
use crate::scalar::Scalar;
use crate::tfsf_setup::TfsfSetup;
use vstd::prelude::*;

verus! {

/// The two components of a wave, along the axes across its own.
pub open spec fn part<S>(v: AuxVect<S>, second: bool) -> S {
    if second {
        v.y
    } else {
        v.x
    }
}

/// How strongly a plane wave turns about one of the axes across its own, where the other component
/// rises by `rise` from cell to cell: against it about the first axis, along it about the second.
pub open spec fn wave_turn(rise: real, inv_d: real, second: bool) -> real {
    if second {
        times(rise, inv_d)
    } else {
        -times(rise, inv_d)
    }
}

/// The background lets waves pass, and the time step and the permittivity of free space are
/// positive.
pub open spec fn passes<S: Scalar>(read: spec_fn(S) -> real, setup: TfsfSetup<S>) -> bool {
    &&& at(read, setup.dt) > 0 as real
    &&& at(read, setup.space.eps_0) > 0 as real
    &&& forall|axis: crate::axis::Axis| #[trigger]
        axis.valid() ==> at(read, setup.background.mu_r.at(axis)) != 0 as real && at(
            read,
            setup.background.eps_r.at(axis),
        ) != 0 as real
}

/// What a component keeps and gets in a layer `s` across it.
proof fn lemma_one_layer<S: Scalar>(
    read: spec_fn(S) -> real,
    s: S,
    dt: S,
    eps_0: S,
    old_value: real,
    push: real,
)
    requires
        exact(read),
        at(read, dt) > 0 as real,
        at(read, eps_0) > 0 as real,
        at(read, s) >= 0 as real,
    ensures
        ({
            let (d, e) = (at(read, dt), at(read, eps_0));
            let damped = s.over_spec(S::of_nat_spec(2) * eps_0);
            let term = (dt.recip_spec() + damped).recip_spec();
            let t = at(read, term);
            let kept = at(read, term * (dt.recip_spec() - damped));
            rate(
                d,
                e,
                at(read, s),
                0 as real,
                old_value,
                times(kept, old_value) + times(t, push),
                0 as real,
            ) == push
        }),
{
    let (d, e, x) = (at(read, dt), at(read, eps_0), at(read, s));
    let damped = s.over_spec(S::of_nat_spec(2) * eps_0);
    let term = (dt.recip_spec() + damped).recip_spec();
    let (t, r, sum) = (at(read, term), at(read, dt.recip_spec()), at(read, damped));
    let k = at(read, dt.recip_spec() + damped);
    lemma_product_sign(2 as real, e);
    lemma_product_sign(4 as real, e);
    lemma_product_sign(times(4 as real, e), e);
    lemma_quotient_sign(x, times(2 as real, e));
    lemma_quotient_sign(1 as real, d);
    lemma_times_divisor(1 as real, d);
    lemma_times_divisor(1 as real, k);
    lemma_unit(x);
    lemma_unit(d);
    lemma_unit(times(times(4 as real, e), e));
    lemma_unit(t);
    let nothing = times(times(t, 4 as real * 0 as real), 0 as real);
    lemma_unit(times(t, 4 as real * 0 as real));
    assert(nothing == 0 as real);
    let kept = at(read, term * (dt.recip_spec() - damped));
    assert(kept == times(t, r - sum - 0 as real));
    lemma_rate(
        t,
        k,
        r,
        d,
        e,
        sum,
        0 as real,
        x,
        0 as real,
        old_value,
        times(kept, old_value) + times(t, push),
        0 as real,
        push,
    );
}

/// In its auxiliary grid a plane wave solves the equations of the fields along its axis, with one
/// absorbing layer: H from the rotation of E, then D from that of H, then E from D. Beyond the two
/// ends both fields are zero, and the source cell gets its D field from the signal.
pub proof fn law_plane_wave_solves_the_field_equations<S: Scalar>(
    read: spec_fn(S) -> real,
    setup: TfsfSetup<S>,
    source: GpuTfsf<S>,
    i: int,
    t: u32,
    vals: Seq<S>,
    h: Seq<AuxVect<S>>,
    dn: Seq<AuxVect<S>>,
    en: Seq<AuxVect<S>>,
    second: bool,
)
    requires
        exact(read),
        passes(read, setup),
        source.a1.valid(),
        source.a2.valid(),
        0 <= i < source.n_cells,
        source.grid_start + source.n_cells <= h.len(),
        source.grid_start + source.n_cells <= en.len(),
        at(read, setup.aux_sig(source.n_cells, source.direction, 2 * i)) >= 0 as real,
        at(read, setup.aux_sig(source.n_cells, source.direction, 2 * i + 1)) >= 0 as real,
    ensures
        ({
            let m = setup.aux_coefficients(
                source.a1,
                source.a2,
                source.n_cells,
                source.direction,
                i,
            );
            let cell = source.aux_cell(i, t, m, vals, h, dn, en);
            let idx = source.grid_start + i;
            let axis = if second {
                source.a2
            } else {
                source.a1
            };
            let of = |v: AuxVect<S>| at(read, part(v, second));
            let other = |v: AuxVect<S>| at(read, part(v, !second));
            let (d, e) = (at(read, setup.dt), at(read, setup.space.eps_0));
            let (c_0, inv_d) = (at(read, setup.space.c_0), at(read, source.inv_d_a));
            let next_en = if i < source.n_cells - 1 {
                other(en[idx + 1])
            } else {
                0 as real
            };
            let last_h = if i > 0 {
                other(h[idx - 1])
            } else {
                0 as real
            };
            let en_turn = wave_turn(next_en - other(en[idx]), inv_d, second);
            let h_turn = wave_turn(other(cell.h) - last_h, inv_d, second);
            &&& rate(
                d,
                e,
                at(read, setup.aux_sig(source.n_cells, source.direction, 2 * i + 1)),
                0 as real,
                of(h[idx]),
                of(cell.h),
                0 as real,
            ) == -times(over(c_0, at(read, setup.background.mu_r.at(axis))), en_turn)
            &&& i != source.source_cell() ==> rate(
                d,
                e,
                at(read, setup.aux_sig(source.n_cells, source.direction, 2 * i)),
                0 as real,
                of(dn[idx]),
                of(cell.dn),
                0 as real,
            ) == times(c_0, h_turn)
            &&& times(at(read, setup.background.eps_r.at(axis)), of(cell.en)) == of(cell.dn)
        }),
{
    let m = setup.aux_coefficients(source.a1, source.a2, source.n_cells, source.direction, i);
    let cell = source.aux_cell(i, t, m, vals, h, dn, en);
    let idx = source.grid_start + i;
    let axis = if second {
        source.a2
    } else {
        source.a1
    };
    assert(axis.valid());
    let of = |v: AuxVect<S>| at(read, part(v, second));
    let other = |v: AuxVect<S>| at(read, part(v, !second));
    let (c_0, inv_d) = (at(read, setup.space.c_0), at(read, source.inv_d_a));
    let next_en = if i < source.n_cells - 1 {
        other(en[idx + 1])
    } else {
        0 as real
    };
    let last_h = if i > 0 {
        other(h[idx - 1])
    } else {
        0 as real
    };
    let en_rise = next_en - other(en[idx]);
    let h_rise = other(cell.h) - last_h;
    let en_turn = wave_turn(en_rise, inv_d, second);
    let h_turn = wave_turn(h_rise, inv_d, second);
    lemma_negated(en_rise, inv_d);
    lemma_negated(h_rise, inv_d);
    // what the source reads at the two ends counts as zero
    let behind = en[crate::source_terms::smaller_int(idx + 1, en.len() - 1)];
    lemma_unit(at(read, behind.x));
    lemma_unit(at(read, behind.y));
    let ahead = h.update(idx, cell.h)[crate::saturating::sat_sub(idx, 1)];
    lemma_unit(at(read, ahead.x));
    lemma_unit(at(read, ahead.y));
    // H
    let h_sig = setup.aux_sig(source.n_cells, source.direction, 2 * i + 1);
    let mu = at(read, setup.background.mu_r.at(axis));
    let g = over(c_0, mu);
    let h_push = -times(g, en_turn);
    lemma_one_layer(read, h_sig, setup.dt, setup.space.eps_0, of(h[idx]), h_push);
    let two_eps = S::of_nat_spec(2) * setup.space.eps_0;
    let inv_dt = setup.dt.recip_spec();
    let h_t = at(read, (inv_dt + h_sig.over_spec(two_eps)).recip_spec());
    let inv_mu = at(read, setup.background.mu_r.at(axis).recip_spec());
    lemma_over(c_0, mu);
    lemma_shift(-h_t, c_0, inv_mu);
    lemma_shift(-h_t, g, en_turn);
    lemma_negated(h_t, times(g, en_turn));
    assert(of(m.h2) == times(-h_t, g));
    assert(times(of(m.h2), en_turn) == times(h_t, h_push));
    // D
    let dn_sig = setup.aux_sig(source.n_cells, source.direction, 2 * i);
    let dn_push = times(c_0, h_turn);
    lemma_one_layer(read, dn_sig, setup.dt, setup.space.eps_0, of(dn[idx]), dn_push);
    let dn_t = at(read, (inv_dt + dn_sig.over_spec(two_eps)).recip_spec());
    lemma_shift(dn_t, c_0, h_turn);
    // E
    let eps = at(read, setup.background.eps_r.at(axis));
    let inv = at(read, setup.background.eps_r.at(axis).recip_spec());
    lemma_times_divisor(1 as real, eps);
    lemma_swap(inv, eps);
    lemma_shift(eps, inv, of(cell.dn));
    lemma_unit(of(cell.dn));
}

/// The source cell is the first one on the wave's way. It holds the value of the signal for the
/// step, divided among the two components by the polarization, and nothing before the signal starts
/// and behind its end.
pub proof fn law_source_cell_holds_the_signal<S: Scalar>(
    read: spec_fn(S) -> real,
    source: GpuTfsf<S>,
    t: u32,
    m: AuxGridPmlCoeffs<S>,
    vals: Seq<S>,
    h: Seq<AuxVect<S>>,
    dn: Seq<AuxVect<S>>,
    en: Seq<AuxVect<S>>,
)
    requires
        exact(read),
        source.vals_start <= source.vals_end,
    ensures
        ({
            let i: int = if source.direction == WaveDirection::Positive {
                0
            } else {
                source.n_cells - 1
            };
            let cell = source.aux_cell(i, t, m, vals, h, dn, en);
            let on = source.t_start <= t <= source.t_start + (source.vals_end - source.vals_start);
            let value = if on {
                at(read, vals[source.vals_start + (t - source.t_start)])
            } else {
                0 as real
            };
            &&& at(read, cell.dn.x) == times(at(read, source.polarization_a1), value)
            &&& at(read, cell.dn.y) == times(at(read, source.polarization_a2), value)
        }),
{
    let on = source.t_start <= t <= source.t_start + (source.vals_end - source.vals_start);
    assert(source.emits(t) == on);
    let place = if on {
        source.value_place(t)
    } else {
        0
    };
    lemma_unit(at(read, vals[place]));
}

/// The wavefronts start right behind the source cell: it hands nothing over itself, the next cell on
/// the wave's way hands over the first correction that the wave reaches, and behind the last one
/// nothing is handed over.
pub proof fn law_wavefronts_start_behind_the_source_cell<S: Scalar>(source: GpuTfsf<S>, i: int)
    requires
        1 <= source.num_correction_cells < source.n_cells,
    ensures
        ({
            let n = source.num_correction_cells as int;
            let first = source.corrections_start as int;
            let last_cell = source.n_cells - 1;
            match source.direction {
                WaveDirection::Positive => {
                    &&& source.hands_over(i) <==> 1 <= i <= n
                    &&& source.handed_to(1) == first
                    &&& source.handed_to(n) == first + n - 1
                },
                WaveDirection::Negative => {
                    &&& source.hands_over(i) <==> last_cell - n <= i <= last_cell - 1
                    &&& source.handed_to(last_cell - 1) == first + n - 1
                    &&& source.handed_to(last_cell - n) == first
                },
            }
        }),
{
}

} // verus!
