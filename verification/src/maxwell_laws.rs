//! The equations that the fields solve: Maxwell's equations in finite differences, with absorbing
//! layers.
use crate::axis::{spatial, Axis, Dim};
use crate::exact::{
    at, exact, lemma_distribute, lemma_distribute_minus, lemma_four_times, lemma_negated, lemma_over,
    lemma_product_sign, lemma_quotient, lemma_same_factor, lemma_shift, lemma_swap, lemma_swap_last,
    lemma_times_divisor, lemma_unit, over, times,
};
use crate::materials::ElectricMaterial;
use crate::params::{GridParameters, PmlCoefficients, SourceTerms};
use crate::pml::{axis_coefficients, cell_coefficients, damping, dn_sigs, h_sigs, FreeSpace};
use crate::pml_laws::{lemma_damping, physical};
use crate::scalar::Scalar;
use crate::update::{
    curl_at, curl_by_axes, lossy_step, lossy_step_old, updated, updated_old, Buffers,
};
use crate::vector::{UVec3, Vec3, Vec4};
use vstd::prelude::*;

verus! {

/// How fast the component of a field along `across` rises along `along`: from a cell to the next one
/// where `forward`, from the one before otherwise. Nothing rises along an axis that is not spatial.
pub open spec fn slope<S: Scalar>(
    read: spec_fn(S) -> real,
    grid: GridParameters<S>,
    v: Seq<Vec4<S>>,
    idx: int,
    along: Axis,
    across: Axis,
    forward: bool,
) -> real {
    let incr = grid.flat_idx_incrs.at(along);
    let rise = if !spatial(grid.dim, along) {
        0 as real
    } else if forward {
        at(read, v[idx + incr].at(across)) - at(read, v[idx].at(across))
    } else {
        at(read, v[idx].at(across)) - at(read, v[idx - incr].at(across))
    };
    times(rise, at(read, grid.inv_d.at(along)))
}

/// How strongly a field turns about `axis`.
pub open spec fn rotation<S: Scalar>(
    read: spec_fn(S) -> real,
    grid: GridParameters<S>,
    v: Seq<Vec4<S>>,
    idx: int,
    axis: Axis,
    forward: bool,
) -> real {
    let axis1 = axis.permute_spec();
    let axis2 = axis1.permute_spec();
    slope(read, grid, v, idx, axis1, axis2, forward) - slope(
        read,
        grid,
        v,
        idx,
        axis2,
        axis1,
        forward,
    )
}

/// Both ways to compute a curl give the rotation of the field.
pub proof fn law_curls_are_rotations<S: Scalar>(
    read: spec_fn(S) -> real,
    grid: GridParameters<S>,
    v: Seq<Vec4<S>>,
    idx: int,
    axis: Axis,
    forward: bool,
)
    requires
        exact(read),
        axis.valid(),
    ensures
        at(read, curl_at(grid, v, v[idx], idx, forward).at(axis)) == rotation(
            read,
            grid,
            v,
            idx,
            axis,
            forward,
        ),
        at(read, curl_by_axes(grid, v, v[idx], idx, forward).at(axis)) == rotation(
            read,
            grid,
            v,
            idx,
            axis,
            forward,
        ),
{
    let (x, y, z) = (
        at(read, grid.inv_d.x),
        at(read, grid.inv_d.y),
        at(read, grid.inv_d.z),
    );
    lemma_unit(x);
    lemma_unit(y);
    lemma_unit(z);
    let dx = crate::update::difference(grid, v, v[idx], idx, Axis::X, forward);
    let dz = crate::update::difference(grid, v, v[idx], idx, Axis::Z, forward);
    lemma_negated(at(read, dz.y), z);
    lemma_negated(at(read, dx.z), x);
}

/// The conductivity of the layers along `along` at the cell `c`, `half` half cells from its start.
pub open spec fn layer<S: Scalar>(
    read: spec_fn(S) -> real,
    sig: Seq<Seq<S>>,
    c: UVec3,
    along: Axis,
    half: int,
) -> real {
    at(read, sig[along.index_spec() as int][2 * c.at(along) + half])
}

/// No layer amplifies, and there are none along axes that are not spatial.
pub open spec fn layers_absorb<S: Scalar>(
    read: spec_fn(S) -> real,
    dim: Dim,
    sig: Seq<Seq<S>>,
    c: UVec3,
) -> bool {
    forall|along: Axis, half: int|
        along.valid() && 0 <= half <= 1 ==> {
            &&& #[trigger] layer(read, sig, c, along, half) >= 0 as real
            &&& !spatial(dim, along) ==> layer(read, sig, c, along, half) == 0 as real
        }
}

/// The rate of change of a field in the layers `s1` and `s2` across it, in the middle of the time
/// step `d` from its old to its new value: its difference, what either layer damps of the mean of the
/// two, and what both do of its past.
pub open spec fn rate(
    d: real,
    e: real,
    s1: real,
    s2: real,
    old_value: real,
    new_value: real,
    past: real,
) -> real {
    let both = new_value + old_value;
    over(new_value - old_value, d) + times(over(s1 + s2, times(2 as real, e)), both) + times(
        over(times(s1, s2), times(times(4 as real, e), e)),
        times(d, both + 4 as real * past),
    )
}

/// What drives a field in the layer `s` along it: `drive`, and what it was in the past.
pub open spec fn stretched(d: real, e: real, s: real, drive: real, past: real) -> real {
    drive + times(over(s, e), times(d, past))
}

/// The step from `before` to `after` solves the equations of the fields along `axis` in the cell
/// that is stored at `idx`.
///
/// - H changes by the rotation of E, against it, over the permeability.
/// - D changes by the rotation of the new H and loses what the conductivity of the material lets
///   flow.
/// - D is E times the permittivity.
///
/// What the sources add comes on top. The layers across a component damp it, and that along it
/// stretches what drives it. Only in 3D do the layers across it remember its past.
pub open spec fn solves<S: Scalar>(
    read: spec_fn(S) -> real,
    grid: GridParameters<S>,
    c: UVec3,
    sig: Seq<Seq<S>>,
    mat: ElectricMaterial<S>,
    space: FreeSpace<S>,
    src: SourceTerms<S>,
    before: Buffers<S>,
    after: Buffers<S>,
    axis: Axis,
) -> bool {
    let idx = grid.place(c);
    let axis1 = axis.permute_spec();
    let axis2 = axis1.permute_spec();
    let (d, e, c_0) = (at(read, grid.dt), at(read, space.eps_0), at(read, space.c_0));
    let of = |v: Vec4<S>| at(read, v.at(axis));
    let ints = before.integrals[idx];
    let past = |sum: real| if grid.dim == Dim::Three {
        sum
    } else {
        0 as real
    };
    let en_turn = rotation(read, grid, before.en, idx, axis, true);
    let h_turn = rotation(read, grid, after.h, idx, axis, false);
    let en = of(before.en[idx]);
    let new_h = of(after.h[idx]) - of(src.h);
    let new_dn = of(after.dn[idx]) - of(src.dn);
    let leak = over(at(read, mat.sig.at(axis)), e);
    &&& rate(
        d,
        e,
        layer(read, sig, c, axis1, 1),
        layer(read, sig, c, axis2, 1),
        of(before.h[idx]),
        new_h,
        past(of(ints.h) + of(before.h[idx])),
    ) == -times(
        over(c_0, at(read, mat.mu_r.at(axis))),
        stretched(
            d,
            e,
            layer(read, sig, c, axis, 0),
            en_turn,
            of(ints.en_curl) + en_turn,
        ),
    )
    &&& rate(
        d,
        e,
        layer(read, sig, c, axis1, 0),
        layer(read, sig, c, axis2, 0),
        of(before.dn[idx]),
        new_dn,
        past(of(ints.dn) + of(before.dn[idx])),
    ) == times(
        c_0,
        stretched(
            d,
            e,
            layer(read, sig, c, axis, 1),
            h_turn,
            of(ints.h_curl) + h_turn,
        ),
    ) - times(leak, stretched(d, e, layer(read, sig, c, axis, 1), en, of(ints.en) + en))
    &&& times(at(read, mat.eps_r.at(axis)), of(after.en[idx])) == of(after.dn[idx])
}

/// A field that keeps its share of the old value, gets its share of `push` and loses its share of
/// the past changes at the rate `push`.
pub(crate) proof fn lemma_rate(
    t: real,
    k: real,
    r: real,
    d: real,
    e: real,
    sum: real,
    product: real,
    x: real,
    y: real,
    old_value: real,
    new_value: real,
    past: real,
    push: real,
)
    requires
        d > 0 as real,
        e > 0 as real,
        times(t, k) == 1 as real,
        k == r + sum + product,
        times(r, d) == 1 as real,
        sum == over(x + y, times(2 as real, e)),
        times(times(4 as real, e), e) > 0 as real,
        times(product, times(times(4 as real, e), e)) == times(times(x, y), d),
        new_value == times(times(t, r - sum - product), old_value) + times(t, push) - times(
            times(t, 4 as real * product),
            past,
        ),
    ensures
        rate(d, e, x, y, old_value, new_value, past) == push,
{
    lemma_share(t, k, r - sum - product, old_value, push, 4 as real * product, past);
    // the difference
    let difference = new_value - old_value;
    lemma_shift(difference, r, d);
    lemma_unit(difference);
    lemma_quotient(difference, times(difference, r), d);
    // the damping by both layers
    let e4 = times(times(4 as real, e), e);
    let q = over(times(x, y), e4);
    lemma_times_divisor(times(x, y), e4);
    lemma_swap_last(q, d, e4);
    lemma_same_factor(product, times(q, d), e4);
    let m = new_value + old_value + 4 as real * past;
    lemma_shift(q, d, m);
    lemma_middle(r, sum, product, old_value, new_value, past);
}

/// A sum times `t` is undone by `k`.
proof fn lemma_share(t: real, k: real, keep: real, o: real, push: real, p: real, past: real)
    requires
        times(t, k) == 1 as real,
    ensures
        times(times(times(t, keep), o) + times(t, push) - times(times(t, p), past), k) == times(
            keep,
            o,
        ) + push - times(p, past),
{
    let (a, b) = (times(keep, o), times(p, past));
    lemma_shift(t, keep, o);
    lemma_shift(t, p, past);
    lemma_distribute(t, a, push);
    lemma_distribute_minus(t, a + push, b);
    lemma_swap_last(t, a + push - b, k);
    lemma_unit(a + push - b);
}

proof fn lemma_middle(r: real, s: real, p: real, o: real, n: real, past: real)
    ensures
        times(n - o, r) + times(s, n + o) + times(p, n + o + 4 as real * past) == times(
            n,
            r + s + p,
        ) - (times(r - s - p, o) - times(4 as real * p, past)),
{
    lemma_distribute_minus(r, n, o);
    lemma_distribute(s, n, o);
    lemma_distribute(p, n + o, 4 as real * past);
    lemma_distribute(p, n, o);
    lemma_distribute(n, r + s, p);
    lemma_distribute(n, r, s);
    lemma_distribute_minus(o, r - s, p);
    lemma_distribute_minus(o, r, s);
    lemma_swap(n, s);
    lemma_swap(n, p);
    lemma_swap(o, r);
    lemma_four_times(p, past);
}

/// The coefficient of a field's own past.
proof fn lemma_own_past(t: real, d: real, e: real, product: real, x: real, y: real, past: real)
    requires
        times(e, e) > 0 as real,
        times(product, times(times(4 as real, e), e)) == times(times(x, y), d),
    ensures
        times(times(times(times(-t, over(d, times(e, e))), x), y), past) == -times(
            times(t, 4 as real * product),
            past,
        ),
{
    let ee = times(e, e);
    let w = over(d, ee);
    let v = times(times(x, y), w);
    lemma_four_times(e, e);
    lemma_four_times(product, ee);
    lemma_times_divisor(d, ee);
    lemma_shift(times(x, y), w, ee);
    lemma_same_factor(4 as real * product, v, ee);
    // the order of the factors
    lemma_shift(-t, w, x);
    lemma_shift(-t, times(w, x), y);
    lemma_swap(w, x);
    lemma_swap_last(x, w, y);
    lemma_negated(t, v);
    lemma_negated(times(t, v), past);
}

/// What a layer along a component makes of a drive that it remembers.
proof fn lemma_stretch(t: real, c: real, d: real, z: real, e: real, past: real)
    requires
        e > 0 as real,
    ensures
        times(over(times(times(t, times(c, d)), z), e), past) == times(
            t,
            times(c, times(over(z, e), times(d, past))),
        ),
{
    let q = over(z, e);
    let f = times(t, times(c, d));
    lemma_times_divisor(z, e);
    lemma_shift(f, q, e);
    lemma_quotient(times(f, z), times(f, q), e);
    lemma_swap_last(f, q, past);
    lemma_shift(t, times(c, d), past);
    lemma_shift(c, d, past);
    lemma_shift(t, times(c, times(d, past)), q);
    lemma_shift(c, times(d, past), q);
    lemma_swap(times(d, past), q);
}

/// Where there is no layer nothing is stretched.
proof fn lemma_nothing(t: real, g: real, z: real, e: real, past: real)
    requires
        z == 0 as real,
        e > 0 as real,
    ensures
        times(t, times(g, times(over(z, e), past))) == 0 as real,
{
    lemma_unit(e);
    lemma_quotient(z, 0 as real, e);
    lemma_unit(past);
    lemma_unit(g);
    lemma_unit(t);
}

/// What a layer along a component makes of a drive that it remembers, against the drive and over
/// the permeability.
proof fn lemma_stretched_over(t: real, c: real, d: real, z: real, e: real, m: real, past: real)
    requires
        e > 0 as real,
    ensures
        times(times(over(times(times(-t, times(c, d)), z), e), m), past) == -times(
            t,
            times(times(c, m), times(over(z, e), times(d, past))),
        ),
{
    let q = over(times(times(-t, times(c, d)), z), e);
    let u = times(over(z, e), times(d, past));
    lemma_swap_last(q, m, past);
    lemma_stretch(-t, c, d, z, e, past);
    lemma_shift(-t, times(c, u), m);
    lemma_swap_last(c, u, m);
    lemma_negated(t, times(times(c, m), u));
}

/// What the conductivity of a material takes away.
proof fn lemma_leak(t: real, sig: real, e: real, en: real)
    requires
        e > 0 as real,
    ensures
        times(over(times(-t, sig), e), en) == -times(t, times(over(sig, e), en)),
{
    let l = over(sig, e);
    lemma_times_divisor(sig, e);
    lemma_shift(-t, l, e);
    lemma_quotient(times(-t, sig), times(-t, l), e);
    lemma_shift(-t, l, en);
    lemma_negated(t, times(l, en));
}

/// What the conductivity of a material takes away of the past, in a layer.
proof fn lemma_leak_past(t: real, z: real, sig: real, d: real, e: real, past: real)
    requires
        e > 0 as real,
        times(e, e) > 0 as real,
    ensures
        times(over(times(times(times(-t, z), sig), d), times(e, e)), past) == -times(
            t,
            times(over(sig, e), times(over(z, e), times(d, past))),
        ),
{
    let (q, l) = (over(z, e), over(sig, e));
    let w = times(l, times(q, d));
    lemma_times_divisor(z, e);
    lemma_times_divisor(sig, e);
    // z * sig * d is w * e * e
    lemma_shift(z, sig, d);
    lemma_shift(q, e, times(sig, d));
    lemma_swap_last(l, e, d);
    lemma_swap(e, times(times(l, d), e));
    lemma_shift(times(l, d), e, e);
    lemma_shift(q, times(l, d), times(e, e));
    lemma_swap(q, times(l, d));
    lemma_shift(l, d, q);
    lemma_swap(d, q);
    assert(times(times(z, sig), d) == times(w, times(e, e)));
    lemma_shift(-t, z, sig);
    lemma_shift(-t, times(z, sig), d);
    lemma_shift(-t, w, times(e, e));
    lemma_quotient(times(times(times(-t, z), sig), d), times(-t, w), times(e, e));
    lemma_shift(-t, w, past);
    lemma_shift(l, times(q, d), past);
    lemma_shift(q, d, past);
    lemma_negated(t, times(w, past));
}

/// What the coefficients of the H component along `axis` make of it.
proof fn lemma_h_component<S: Scalar>(
    read: spec_fn(S) -> real,
    dim: Dim,
    axis: Axis,
    hs: Vec3<S>,
    ds: Vec3<S>,
    mat: ElectricMaterial<S>,
    dt: S,
    space: FreeSpace<S>,
    h: real,
    turn: real,
    turn_past: real,
    past: real,
)
    requires
        exact(read),
        axis.valid(),
        physical(read, mat, dt, space),
        at(read, hs.at(axis.permute_spec())) >= 0 as real,
        at(read, hs.at(axis.permute_spec().permute_spec())) >= 0 as real,
        dim == Dim::One ==> at(read, hs.at(axis)) == 0 as real,
    ensures
        ({
            let a = axis_coefficients(dim, axis, hs, ds, mat, dt, space);
            let (d, e) = (at(read, dt), at(read, space.eps_0));
            let new_h = times(at(read, a.h1), h) + times(at(read, a.h2), turn) + times(
                at(read, a.h3),
                turn_past,
            ) + times(at(read, a.h4), past);
            rate(
                d,
                e,
                at(read, hs.at(axis.permute_spec())),
                at(read, hs.at(axis.permute_spec().permute_spec())),
                h,
                new_h,
                if dim == Dim::Three {
                    past
                } else {
                    0 as real
                },
            ) == -times(
                over(at(read, space.c_0), at(read, mat.mu_r.at(axis))),
                stretched(d, e, at(read, hs.at(axis)), turn, turn_past),
            )
        }),
{
    let axis1 = axis.permute_spec();
    let axis2 = axis1.permute_spec();
    let eps_0 = space.eps_0;
    lemma_damping(read, hs.at(axis1), hs.at(axis2), dt, eps_0);
    let a = axis_coefficients(dim, axis, hs, ds, mat, dt, space);
    let (sum, product) = damping(hs.at(axis1), hs.at(axis2), dt, eps_0);
    let t = at(read, (dt.recip_spec() + sum + product).recip_spec());
    let k = at(read, dt.recip_spec() + sum + product);
    let r = at(read, dt.recip_spec());
    let (d, e, c) = (at(read, dt), at(read, eps_0), at(read, space.c_0));
    let (x, y, z) = (at(read, hs.at(axis1)), at(read, hs.at(axis2)), at(read, hs.at(axis)));
    let mu = at(read, mat.mu_r.at(axis));
    let m = at(read, mat.mu_r.at(axis).recip_spec());
    let g = over(c, mu);
    lemma_over(c, mu);
    assert(g == times(c, m));
    let p = at(read, product);
    let remembered = if dim == Dim::Three {
        past
    } else {
        0 as real
    };
    let u = times(over(z, e), times(d, turn_past));
    let push = -times(g, turn + u);
    lemma_product_sign(e, e);
    assert(at(read, a.h1) == times(t, r - at(read, sum) - p));
    assert(times(at(read, a.h2), turn) == -times(t, times(g, turn))) by {
        lemma_shift(-t, c, m);
        lemma_shift(-t, g, turn);
        lemma_negated(t, times(g, turn));
    }
    assert(times(at(read, a.h3), turn_past) == -times(t, times(g, u))) by {
        if dim == Dim::One {
            lemma_nothing(t, g, z, e, times(d, turn_past));
            lemma_unit(turn_past);
        } else {
            lemma_stretched_over(t, c, d, z, e, m, turn_past);
        }
    }
    assert(times(at(read, a.h4), past) == -times(times(t, 4 as real * p), remembered)) by {
        if dim == Dim::Three {
            lemma_own_past(t, d, e, p, x, y, past);
        } else {
            lemma_unit(past);
            lemma_unit(times(t, 4 as real * p));
        }
    }
    assert(times(t, push) == -times(t, times(g, turn)) - times(t, times(g, u))) by {
        lemma_distribute(g, turn, u);
        lemma_negated(t, times(g, turn + u));
        lemma_distribute(t, times(g, turn), times(g, u));
    }
    let new_h = times(at(read, a.h1), h) + times(at(read, a.h2), turn) + times(
        at(read, a.h3),
        turn_past,
    ) + times(at(read, a.h4), past);
    lemma_rate(t, k, r, d, e, at(read, sum), p, x, y, h, new_h, remembered, push);
}

/// What the coefficients of the D component along `axis` make of it.
proof fn lemma_dn_component<S: Scalar>(
    read: spec_fn(S) -> real,
    dim: Dim,
    axis: Axis,
    hs: Vec3<S>,
    ds: Vec3<S>,
    mat: ElectricMaterial<S>,
    dt: S,
    space: FreeSpace<S>,
    dn: real,
    turn: real,
    turn_past: real,
    past: real,
    en: real,
    en_past: real,
)
    requires
        exact(read),
        axis.valid(),
        physical(read, mat, dt, space),
        at(read, ds.at(axis.permute_spec())) >= 0 as real,
        at(read, ds.at(axis.permute_spec().permute_spec())) >= 0 as real,
        dim == Dim::One ==> at(read, ds.at(axis)) == 0 as real,
    ensures
        ({
            let a = axis_coefficients(dim, axis, hs, ds, mat, dt, space);
            let (d, e) = (at(read, dt), at(read, space.eps_0));
            let new_dn = times(at(read, a.dn1), dn) + times(at(read, a.dn2), turn) + times(
                at(read, a.dn_loss1),
                en,
            ) + times(at(read, a.dn_loss2), en_past) + times(at(read, a.dn3), turn_past) + times(
                at(read, a.dn4),
                past,
            );
            let s = at(read, ds.at(axis));
            rate(
                d,
                e,
                at(read, ds.at(axis.permute_spec())),
                at(read, ds.at(axis.permute_spec().permute_spec())),
                dn,
                new_dn,
                if dim == Dim::Three {
                    past
                } else {
                    0 as real
                },
            ) == times(at(read, space.c_0), stretched(d, e, s, turn, turn_past)) - times(
                over(at(read, mat.sig.at(axis)), e),
                stretched(d, e, s, en, en_past),
            )
        }),
{
    let axis1 = axis.permute_spec();
    let axis2 = axis1.permute_spec();
    let eps_0 = space.eps_0;
    lemma_damping(read, ds.at(axis1), ds.at(axis2), dt, eps_0);
    let a = axis_coefficients(dim, axis, hs, ds, mat, dt, space);
    let (sum, product) = damping(ds.at(axis1), ds.at(axis2), dt, eps_0);
    let t = at(read, (dt.recip_spec() + sum + product).recip_spec());
    let k = at(read, dt.recip_spec() + sum + product);
    let r = at(read, dt.recip_spec());
    let (d, e, c) = (at(read, dt), at(read, eps_0), at(read, space.c_0));
    let (x, y, z) = (at(read, ds.at(axis1)), at(read, ds.at(axis2)), at(read, ds.at(axis)));
    let leak = over(at(read, mat.sig.at(axis)), e);
    let p = at(read, product);
    let remembered = if dim == Dim::Three {
        past
    } else {
        0 as real
    };
    let u = times(over(z, e), times(d, turn_past));
    let v = times(over(z, e), times(d, en_past));
    let push = times(c, turn + u) - times(leak, en + v);
    lemma_product_sign(e, e);
    assert(at(read, a.dn1) == times(t, r - at(read, sum) - p));
    assert(times(at(read, a.dn2), turn) == times(t, times(c, turn))) by {
        lemma_shift(t, c, turn);
    }
    assert(times(at(read, a.dn_loss1), en) == -times(t, times(leak, en))) by {
        lemma_leak(t, at(read, mat.sig.at(axis)), e, en);
    }
    assert(times(at(read, a.dn_loss2), en_past) == -times(t, times(leak, v))) by {
        lemma_leak_past(t, z, at(read, mat.sig.at(axis)), d, e, en_past);
    }
    assert(times(at(read, a.dn3), turn_past) == times(t, times(c, u))) by {
        if dim == Dim::One {
            lemma_nothing(t, c, z, e, times(d, turn_past));
            lemma_unit(turn_past);
        } else {
            lemma_stretch(t, c, d, z, e, turn_past);
        }
    }
    assert(times(at(read, a.dn4), past) == -times(times(t, 4 as real * p), remembered)) by {
        if dim == Dim::Three {
            lemma_own_past(t, d, e, p, x, y, past);
        } else {
            lemma_unit(past);
            lemma_unit(times(t, 4 as real * p));
        }
    }
    assert(times(t, push) == times(t, times(c, turn)) + times(t, times(c, u)) - times(
        t,
        times(leak, en),
    ) - times(t, times(leak, v))) by {
        lemma_distribute(c, turn, u);
        lemma_distribute(leak, en, v);
        lemma_distribute_minus(t, times(c, turn + u), times(leak, en + v));
        lemma_distribute(t, times(c, turn), times(c, u));
        lemma_distribute(t, times(leak, en), times(leak, v));
    }
    let new_dn = times(at(read, a.dn1), dn) + times(at(read, a.dn2), turn) + times(
        at(read, a.dn_loss1),
        en,
    ) + times(at(read, a.dn_loss2), en_past) + times(at(read, a.dn3), turn_past) + times(
        at(read, a.dn4),
        past,
    );
    lemma_rate(t, k, r, d, e, at(read, sum), p, x, y, dn, new_dn, remembered, push);
}

/// The conductivities that the components along `axis` meet are those of the layers at their places.
proof fn lemma_layers<S: Scalar>(
    read: spec_fn(S) -> real,
    sig: Seq<Seq<S>>,
    c: UVec3,
    axis: Axis,
    along: Axis,
)
    requires
        axis.valid(),
        along.valid(),
    ensures
        at(read, h_sigs(sig, c, axis).at(along)) == layer(
            read,
            sig,
            c,
            along,
            if along == axis {
                0
            } else {
                1
            },
        ),
        at(read, dn_sigs(sig, c, axis).at(along)) == layer(
            read,
            sig,
            c,
            along,
            if along == axis {
                1
            } else {
                0
            },
        ),
{
}

/// The coefficients of a cell along `axis` are those of the components along it.
proof fn lemma_coefficients_along<S: Scalar>(
    dim: Dim,
    sig: Seq<Seq<S>>,
    c: UVec3,
    mat: ElectricMaterial<S>,
    dt: S,
    space: FreeSpace<S>,
    axis: Axis,
)
    requires
        axis.valid(),
    ensures
        ({
            let m = cell_coefficients(dim, sig, c, mat, dt, space);
            let a = axis_coefficients(
                dim,
                axis,
                h_sigs(sig, c, axis),
                dn_sigs(sig, c, axis),
                mat,
                dt,
                space,
            );
            &&& m.h1.at(axis) == a.h1
            &&& m.h2.at(axis) == a.h2
            &&& m.h3.at(axis) == a.h3
            &&& m.h4.at(axis) == a.h4
            &&& m.dn1.at(axis) == a.dn1
            &&& m.dn2.at(axis) == a.dn2
            &&& m.dn_loss1.at(axis) == a.dn_loss1
            &&& m.dn_loss2.at(axis) == a.dn_loss2
            &&& m.dn3.at(axis) == a.dn3
            &&& m.dn4.at(axis) == a.dn4
            &&& m.en1.at(axis) == a.en1
        }),
{
}

/// Where no layer lies along a component nothing of the past drives it, and only in 3D does it
/// remember its own.
proof fn lemma_absent<S: Scalar>(
    read: spec_fn(S) -> real,
    dim: Dim,
    axis: Axis,
    hs: Vec3<S>,
    ds: Vec3<S>,
    mat: ElectricMaterial<S>,
    dt: S,
    space: FreeSpace<S>,
)
    requires
        exact(read),
        axis.valid(),
        at(read, space.eps_0) > 0 as real,
    ensures
        ({
            let a = axis_coefficients(dim, axis, hs, ds, mat, dt, space);
            &&& dim != Dim::Three ==> at(read, a.h4) == 0 as real && at(read, a.dn4) == 0 as real
            &&& at(read, hs.at(axis)) == 0 as real ==> at(read, a.h3) == 0 as real
            &&& at(read, ds.at(axis)) == 0 as real ==> at(read, a.dn3) == 0 as real
            &&& at(read, ds.at(axis)) == 0 as real ==> at(read, a.dn_loss2) == 0 as real
        }),
{
    let axis1 = axis.permute_spec();
    let axis2 = axis1.permute_spec();
    let e = at(read, space.eps_0);
    let (h_sum, h_product) = damping(hs.at(axis1), hs.at(axis2), dt, space.eps_0);
    let h_term = (dt.recip_spec() + h_sum + h_product).recip_spec();
    let (dn_sum, dn_product) = damping(ds.at(axis1), ds.at(axis2), dt, space.eps_0);
    let dn_term = (dt.recip_spec() + dn_sum + dn_product).recip_spec();
    lemma_product_sign(e, e);
    lemma_unit(e);
    lemma_unit(times(e, e));
    lemma_quotient(0 as real, 0 as real, e);
    lemma_quotient(0 as real, 0 as real, times(e, e));
    let c0_dt = space.c_0 * dt;
    lemma_unit(at(read, (-h_term) * c0_dt));
    lemma_unit(at(read, mat.mu_r.at(axis).recip_spec()));
    lemma_unit(at(read, dn_term * c0_dt));
    lemma_unit(at(read, -dn_term));
    lemma_unit(at(read, mat.sig.at(axis)));
    lemma_unit(at(read, dt));
}

/// A component after a step: what drives it, the terms of the past, and the source.
spec fn joined<S: Scalar>(
    dim: Dim,
    axis: Axis,
    older: bool,
    driven: S,
    curl_term: S,
    own_term: S,
    src: S,
) -> S {
    match dim {
        Dim::One => driven + src,
        Dim::Two => if axis == Axis::Z {
            driven + own_term + src
        } else {
            driven + curl_term + src
        },
        Dim::Three => if older {
            driven + (curl_term + own_term) + src
        } else {
            driven + curl_term + own_term + src
        },
    }
}

/// What drives a D component.
spec fn driven_with_loss<S: Scalar>(
    dim: Dim,
    axis: Axis,
    older: bool,
    driven: S,
    past_loss: S,
) -> S {
    if older && (dim == Dim::One || dim == Dim::Two && axis == Axis::Z) {
        driven
    } else {
        driven + past_loss
    }
}

/// The step of either kernel.
spec fn step_of<S: Scalar>(
    older: bool,
    grid: GridParameters<S>,
    idx: int,
    b: Buffers<S>,
    m: PmlCoefficients<S>,
    src: SourceTerms<S>,
) -> (crate::update::FieldCell<S>, crate::params::PmlIntegrals<S>) {
    if older {
        lossy_step_old(grid, idx, b.h, b.dn, b.en, b.integrals[idx], m, src)
    } else {
        lossy_step(grid, idx, b.h, b.dn, b.en, b.integrals[idx], m, src)
    }
}

spec fn curl_of<S: Scalar>(
    older: bool,
    grid: GridParameters<S>,
    v: Seq<Vec4<S>>,
    v_self: Vec4<S>,
    idx: int,
    forward: bool,
) -> Vec4<S> {
    if older {
        curl_by_axes(grid, v, v_self, idx, forward)
    } else {
        curl_at(grid, v, v_self, idx, forward)
    }
}

/// The H component along `axis` after a step of either kernel.
proof fn lemma_h_formula<S: Scalar>(
    older: bool,
    grid: GridParameters<S>,
    idx: int,
    b: Buffers<S>,
    m: PmlCoefficients<S>,
    src: SourceTerms<S>,
    axis: Axis,
)
    requires
        axis.valid(),
        grid.dim == Dim::One ==> axis != Axis::Z,
    ensures
        ({
            let ints = b.integrals[idx];
            let turn = curl_of(older, grid, b.en, b.en[idx], idx, true).at(axis);
            step_of(older, grid, idx, b, m, src).0.h.at(axis) == joined(
                grid.dim,
                axis,
                older,
                m.h1.at(axis) * b.h[idx].at(axis) + m.h2.at(axis) * turn,
                m.h3.at(axis) * (ints.en_curl.at(axis) + turn),
                m.h4.at(axis) * (ints.h.at(axis) + b.h[idx].at(axis)),
                src.h.at(axis),
            )
        }),
{
    let curl = curl_of(older, grid, b.en, b.en[idx], idx, true);
}

/// The D and the E component along `axis` after a step of either kernel.
proof fn lemma_dn_formula<S: Scalar>(
    older: bool,
    grid: GridParameters<S>,
    idx: int,
    b: Buffers<S>,
    m: PmlCoefficients<S>,
    src: SourceTerms<S>,
    axis: Axis,
)
    requires
        axis.valid(),
        grid.dim == Dim::One ==> axis != Axis::Z,
    ensures
        ({
            let ints = b.integrals[idx];
            let new = step_of(older, grid, idx, b, m, src).0;
            let turn = curl_of(older, grid, b.h.update(idx, new.h), new.h, idx, false).at(axis);
            &&& new.dn.at(axis) == joined(
                grid.dim,
                axis,
                older,
                driven_with_loss(
                    grid.dim,
                    axis,
                    older,
                    m.dn1.at(axis) * b.dn[idx].at(axis) + m.dn2.at(axis) * turn + m.dn_loss1.at(
                        axis,
                    ) * b.en[idx].at(axis),
                    m.dn_loss2.at(axis) * (ints.en.at(axis) + b.en[idx].at(axis)),
                ),
                m.dn3.at(axis) * (ints.h_curl.at(axis) + turn),
                m.dn4.at(axis) * (ints.dn.at(axis) + b.dn[idx].at(axis)),
                src.dn.at(axis),
            )
            &&& new.en.at(axis) == m.en1.at(axis) * new.dn.at(axis)
        }),
{
    let new = step_of(older, grid, idx, b, m, src).0;
    let curl = curl_of(older, grid, b.h.update(idx, new.h), new.h, idx, false);
}

/// The terms of a component add up, where those that are left out are zero.
proof fn lemma_joined<S: Scalar>(
    read: spec_fn(S) -> real,
    dim: Dim,
    axis: Axis,
    older: bool,
    driven: S,
    curl_term: S,
    own_term: S,
    src: S,
)
    requires
        exact(read),
        dim == Dim::One || dim == Dim::Two && axis == Axis::Z ==> at(read, curl_term) == 0 as real,
        dim == Dim::One || dim == Dim::Two && axis != Axis::Z ==> at(read, own_term) == 0 as real,
    ensures
        at(read, joined(dim, axis, older, driven, curl_term, own_term, src)) == at(read, driven)
            + at(read, curl_term) + at(read, own_term) + at(read, src),
{
}

/// A term with the coefficient zero is zero.
proof fn lemma_left_out<S: Scalar>(read: spec_fn(S) -> real, m: S, v: S)
    requires
        exact(read),
    ensures
        at(read, m * v) == times(at(read, m), at(read, v)),
        at(read, m) == 0 as real ==> at(read, m * v) == 0 as real,
{
    lemma_unit(at(read, v));
}

/// What drives a D component adds up, where a loss that is left out is zero.
proof fn lemma_driven_with_loss<S: Scalar>(
    read: spec_fn(S) -> real,
    dim: Dim,
    axis: Axis,
    older: bool,
    driven: S,
    past_loss: S,
)
    requires
        exact(read),
        dim == Dim::One || dim == Dim::Two && axis == Axis::Z ==> at(read, past_loss) == 0 as real,
    ensures
        at(read, driven_with_loss(dim, axis, older, driven, past_loss)) == at(read, driven) + at(
            read,
            past_loss,
        ),
{
}

/// Both kernels solve the equations of the fields, in every inner cell whose coefficients are those
/// of its material and of the layers around it.
pub proof fn law_step_solves_the_field_equations<S: Scalar>(
    read: spec_fn(S) -> real,
    grid: GridParameters<S>,
    c: UVec3,
    coeffs: Seq<PmlCoefficients<S>>,
    terms: Seq<SourceTerms<S>>,
    sig: Seq<Seq<S>>,
    mat: ElectricMaterial<S>,
    space: FreeSpace<S>,
    before: Buffers<S>,
    after: Buffers<S>,
    axis: Axis,
)
    requires
        exact(read),
        grid.wf(),
        grid.inner(c),
        axis.valid(),
        grid.dim == Dim::One ==> axis != Axis::Z,
        before.h.len() >= grid.cell_count,
        before.dn.len() >= grid.cell_count,
        before.en.len() >= grid.cell_count,
        updated(grid, c, coeffs, terms, before, after) || updated_old(
            grid,
            c,
            coeffs,
            terms,
            before,
            after,
        ),
        coeffs[grid.place(c)] == cell_coefficients(grid.dim, sig, c, mat, grid.dt, space),
        physical(read, mat, grid.dt, space),
        layers_absorb(read, grid.dim, sig, c),
    ensures
        solves(read, grid, c, sig, mat, space, terms[grid.place(c)], before, after, axis),
{
    let idx = grid.place(c);
    let axis1 = axis.permute_spec();
    let axis2 = axis1.permute_spec();
    let m = coeffs[idx];
    let src = terms[idx];
    let ints = before.integrals[idx];
    let of = |v: Vec4<S>| at(read, v.at(axis));
    let (hs, ds) = (h_sigs(sig, c, axis), dn_sigs(sig, c, axis));
    crate::index::lemma_flat3_bounds(c, grid.n_cells3);
    lemma_coefficients_along(grid.dim, sig, c, mat, grid.dt, space, axis);
    lemma_layers(read, sig, c, axis, axis);
    lemma_layers(read, sig, c, axis, axis1);
    lemma_layers(read, sig, c, axis, axis2);
    lemma_absent(read, grid.dim, axis, hs, ds, mat, grid.dt, space);
    let en_turn = rotation(read, grid, before.en, idx, axis, true);
    let h_turn = rotation(read, grid, after.h, idx, axis, false);
    let en = of(before.en[idx]);
    lemma_h_component(
        read,
        grid.dim,
        axis,
        hs,
        ds,
        mat,
        grid.dt,
        space,
        of(before.h[idx]),
        en_turn,
        of(ints.en_curl) + en_turn,
        of(ints.h) + of(before.h[idx]),
    );
    lemma_dn_component(
        read,
        grid.dim,
        axis,
        hs,
        ds,
        mat,
        grid.dt,
        space,
        of(before.dn[idx]),
        h_turn,
        of(ints.h_curl) + h_turn,
        of(ints.dn) + of(before.dn[idx]),
        en,
        of(ints.en) + en,
    );
    let older = !updated(grid, c, coeffs, terms, before, after);
    lemma_h_formula(older, grid, idx, before, m, src, axis);
    lemma_dn_formula(older, grid, idx, before, m, src, axis);
    law_curls_are_rotations(read, grid, before.en, idx, axis, true);
    law_curls_are_rotations(read, grid, after.h, idx, axis, false);
    let new = step_of(older, grid, idx, before, m, src).0;
    assert(after.h == before.h.update(idx, new.h) && after.h[idx] == new.h);
    assert(after.dn[idx] == new.dn && after.en[idx] == new.en);
    let en_curl = curl_of(older, grid, before.en, before.en[idx], idx, true).at(axis);
    let h_curl = curl_of(older, grid, after.h, new.h, idx, false).at(axis);
    let (h_0, dn_0, en_0) = (
        before.h[idx].at(axis),
        before.dn[idx].at(axis),
        before.en[idx].at(axis),
    );
    // H
    let h_curl_term = m.h3.at(axis) * (ints.en_curl.at(axis) + en_curl);
    let h_own_term = m.h4.at(axis) * (ints.h.at(axis) + h_0);
    lemma_left_out(read, m.h3.at(axis), ints.en_curl.at(axis) + en_curl);
    lemma_left_out(read, m.h4.at(axis), ints.h.at(axis) + h_0);
    let h_driven = m.h1.at(axis) * h_0 + m.h2.at(axis) * en_curl;
    lemma_joined(
        read,
        grid.dim,
        axis,
        older,
        h_driven,
        h_curl_term,
        h_own_term,
        src.h.at(axis),
    );
    // D
    let past_loss = m.dn_loss2.at(axis) * (ints.en.at(axis) + en_0);
    let dn_curl_term = m.dn3.at(axis) * (ints.h_curl.at(axis) + h_curl);
    let dn_own_term = m.dn4.at(axis) * (ints.dn.at(axis) + dn_0);
    lemma_left_out(read, m.dn_loss2.at(axis), ints.en.at(axis) + en_0);
    lemma_left_out(read, m.dn3.at(axis), ints.h_curl.at(axis) + h_curl);
    lemma_left_out(read, m.dn4.at(axis), ints.dn.at(axis) + dn_0);
    let dn_driven = m.dn1.at(axis) * dn_0 + m.dn2.at(axis) * h_curl + m.dn_loss1.at(axis) * en_0;
    lemma_driven_with_loss(read, grid.dim, axis, older, dn_driven, past_loss);
    lemma_joined(
        read,
        grid.dim,
        axis,
        older,
        driven_with_loss(grid.dim, axis, older, dn_driven, past_loss),
        dn_curl_term,
        dn_own_term,
        src.dn.at(axis),
    );
    // E
    let eps = at(read, mat.eps_r.at(axis));
    let inv = at(read, mat.eps_r.at(axis).recip_spec());
    lemma_times_divisor(1 as real, eps);
    lemma_swap(inv, eps);
    lemma_shift(eps, inv, of(after.dn[idx]));
    lemma_unit(of(after.dn[idx]));
}

/// Each inner cell remembers a step: what drove its fields and what they were before is added to its
/// sums. In 1D only the loss of the material remembers.
pub proof fn law_step_is_remembered<S: Scalar>(
    read: spec_fn(S) -> real,
    grid: GridParameters<S>,
    c: UVec3,
    coeffs: Seq<PmlCoefficients<S>>,
    terms: Seq<SourceTerms<S>>,
    before: Buffers<S>,
    after: Buffers<S>,
    axis: Axis,
)
    requires
        exact(read),
        grid.wf(),
        grid.inner(c),
        axis.valid(),
        before.h.len() >= grid.cell_count,
        before.integrals.len() >= grid.cell_count,
        updated(grid, c, coeffs, terms, before, after),
    ensures
        ({
            let idx = grid.place(c);
            let of = |v: Vec4<S>| at(read, v.at(axis));
            let (past, now) = (before.integrals[idx], after.integrals[idx]);
            &&& of(now.en) == of(past.en) + of(before.en[idx])
            &&& grid.dim != Dim::One ==> {
                &&& of(now.h) == of(past.h) + of(before.h[idx])
                &&& of(now.dn) == of(past.dn) + of(before.dn[idx])
                &&& of(now.en_curl) == of(past.en_curl) + rotation(
                    read,
                    grid,
                    before.en,
                    idx,
                    axis,
                    true,
                )
                &&& of(now.h_curl) == of(past.h_curl) + rotation(
                    read,
                    grid,
                    after.h,
                    idx,
                    axis,
                    false,
                )
            }
            &&& grid.dim == Dim::One ==> {
                &&& now.h == past.h
                &&& now.dn == past.dn
                &&& now.en_curl == past.en_curl
                &&& now.h_curl == past.h_curl
            }
        }),
{
    let idx = grid.place(c);
    crate::index::lemma_flat3_bounds(c, grid.n_cells3);
    let new = lossy_step(
        grid,
        idx,
        before.h,
        before.dn,
        before.en,
        before.integrals[idx],
        coeffs[idx],
        terms[idx],
    );
    assert(after.h[idx] == new.0.h);
    assert(after.integrals[idx] == new.1);
    law_curls_are_rotations(read, grid, before.en, idx, axis, true);
    law_curls_are_rotations(read, grid, after.h, idx, axis, false);
}

/// The kernel that computes each component in the same way whatever the dimension adds a step to
/// those sums that its dimension uses: in 3D to all of them, in 2D to those of the curls and of E in
/// the plane and of H and D across it, and in 1D to those of the curls and of E along the axis. The
/// other sums stay.
pub proof fn law_old_step_is_remembered<S: Scalar>(
    read: spec_fn(S) -> real,
    grid: GridParameters<S>,
    c: UVec3,
    coeffs: Seq<PmlCoefficients<S>>,
    terms: Seq<SourceTerms<S>>,
    before: Buffers<S>,
    after: Buffers<S>,
    axis: Axis,
)
    requires
        exact(read),
        grid.wf(),
        grid.inner(c),
        axis.valid(),
        before.h.len() >= grid.cell_count,
        before.integrals.len() >= grid.cell_count,
        updated_old(grid, c, coeffs, terms, before, after),
    ensures
        ({
            let idx = grid.place(c);
            let of = |v: Vec4<S>| at(read, v.at(axis));
            let (past, now) = (before.integrals[idx], after.integrals[idx]);
            let along = spatial(grid.dim, axis);
            let across = grid.dim == Dim::Three || grid.dim == Dim::Two && !along;
            let counted = |on: bool, v: real| if on {
                v
            } else {
                0 as real
            };
            &&& of(now.en) == of(past.en) + counted(along, of(before.en[idx]))
            &&& of(now.en_curl) == of(past.en_curl) + counted(
                along,
                rotation(read, grid, before.en, idx, axis, true),
            )
            &&& of(now.h_curl) == of(past.h_curl) + counted(
                along,
                rotation(read, grid, after.h, idx, axis, false),
            )
            &&& of(now.h) == of(past.h) + counted(across, of(before.h[idx]))
            &&& of(now.dn) == of(past.dn) + counted(across, of(before.dn[idx]))
        }),
{
    let idx = grid.place(c);
    crate::index::lemma_flat3_bounds(c, grid.n_cells3);
    let new = lossy_step_old(
        grid,
        idx,
        before.h,
        before.dn,
        before.en,
        before.integrals[idx],
        coeffs[idx],
        terms[idx],
    );
    assert(after.h[idx] == new.0.h);
    assert(after.integrals[idx] == new.1);
    law_curls_are_rotations(read, grid, before.en, idx, axis, true);
    law_curls_are_rotations(read, grid, after.h, idx, axis, false);
}

/// Between the layers, in a material without conductivity, nothing of the past counts.
pub open spec fn forgets<S: Scalar>(
    read: spec_fn(S) -> real,
    m: PmlCoefficients<S>,
    axis: Axis,
) -> bool {
    &&& at(read, m.h3.at(axis)) == 0 as real
    &&& at(read, m.h4.at(axis)) == 0 as real
    &&& at(read, m.dn_loss1.at(axis)) == 0 as real
    &&& at(read, m.dn_loss2.at(axis)) == 0 as real
    &&& at(read, m.dn3.at(axis)) == 0 as real
    &&& at(read, m.dn4.at(axis)) == 0 as real
}

/// The components along `axis` after a step where nothing of the past counts.
pub(crate) proof fn lemma_plain_step<S: Scalar>(
    read: spec_fn(S) -> real,
    grid: GridParameters<S>,
    idx: int,
    b: Buffers<S>,
    m: PmlCoefficients<S>,
    src: SourceTerms<S>,
    axis: Axis,
)
    requires
        exact(read),
        axis.valid(),
        grid.dim == Dim::One ==> axis != Axis::Z,
        0 <= idx < b.h.len(),
        forgets(read, m, axis),
    ensures
        ({
            let new = lossy_step(grid, idx, b.h, b.dn, b.en, b.integrals[idx], m, src).0;
            let of = |v: Vec4<S>| at(read, v.at(axis));
            &&& of(new.h) == times(of(m.h1), of(b.h[idx])) + times(
                of(m.h2),
                rotation(read, grid, b.en, idx, axis, true),
            ) + of(src.h)
            &&& of(new.dn) == times(of(m.dn1), of(b.dn[idx])) + times(
                of(m.dn2),
                rotation(read, grid, b.h.update(idx, new.h), idx, axis, false),
            ) + of(src.dn)
        }),
{
    let ints = b.integrals[idx];
    let new = step_of(false, grid, idx, b, m, src).0;
    let h_now = b.h.update(idx, new.h);
    assert(h_now[idx] == new.h);
    lemma_h_formula(false, grid, idx, b, m, src, axis);
    lemma_dn_formula(false, grid, idx, b, m, src, axis);
    law_curls_are_rotations(read, grid, b.en, idx, axis, true);
    law_curls_are_rotations(read, grid, h_now, idx, axis, false);
    let en_curl = curl_of(false, grid, b.en, b.en[idx], idx, true).at(axis);
    let h_curl = curl_of(false, grid, h_now, new.h, idx, false).at(axis);
    let (h_0, dn_0, en_0) = (b.h[idx].at(axis), b.dn[idx].at(axis), b.en[idx].at(axis));
    lemma_left_out(read, m.h3.at(axis), ints.en_curl.at(axis) + en_curl);
    lemma_left_out(read, m.h4.at(axis), ints.h.at(axis) + h_0);
    lemma_joined(
        read,
        grid.dim,
        axis,
        false,
        m.h1.at(axis) * h_0 + m.h2.at(axis) * en_curl,
        m.h3.at(axis) * (ints.en_curl.at(axis) + en_curl),
        m.h4.at(axis) * (ints.h.at(axis) + h_0),
        src.h.at(axis),
    );
    let past_loss = m.dn_loss2.at(axis) * (ints.en.at(axis) + en_0);
    let driven = m.dn1.at(axis) * dn_0 + m.dn2.at(axis) * h_curl + m.dn_loss1.at(axis) * en_0;
    lemma_left_out(read, m.dn_loss1.at(axis), en_0);
    lemma_left_out(read, m.dn_loss2.at(axis), ints.en.at(axis) + en_0);
    lemma_left_out(read, m.dn3.at(axis), ints.h_curl.at(axis) + h_curl);
    lemma_left_out(read, m.dn4.at(axis), ints.dn.at(axis) + dn_0);
    lemma_driven_with_loss(read, grid.dim, axis, false, driven, past_loss);
    lemma_joined(
        read,
        grid.dim,
        axis,
        false,
        driven_with_loss(grid.dim, axis, false, driven, past_loss),
        m.dn3.at(axis) * (ints.h_curl.at(axis) + h_curl),
        m.dn4.at(axis) * (ints.dn.at(axis) + dn_0),
        src.dn.at(axis),
    );
}

} // verus!
