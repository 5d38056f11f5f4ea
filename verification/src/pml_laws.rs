//! What the coefficients of absorbing layers have in common.
use crate::axis::{Axis, Dim};
use crate::exact::{
    at, exact, lemma_product_sign, lemma_quotient, lemma_quotient_sign, lemma_same_factor,
    lemma_swap, lemma_swap_last, lemma_times_divisor, lemma_unit, over, power, times,
};
use crate::materials::ElectricMaterial;
use crate::layers::LoHiWidths;
use crate::params::WaveDirection;
use crate::pml::{axis_coefficients, damping, layer_sig, FreeSpace};
use crate::tfsf_setup::TfsfSetup;
use crate::scalar::Scalar;
use crate::vector::Vec3;
use vstd::prelude::*;

verus! {

/// The conductivities of the layers across `axis` are the same, exchanged, and that along `axis` is
/// the same.
pub open spec fn exchanged_across<S: Scalar>(axis: Axis, a: Vec3<S>, b: Vec3<S>) -> bool {
    let axis1 = axis.permute_spec();
    let axis2 = axis1.permute_spec();
    &&& b.at(axis) == a.at(axis)
    &&& b.at(axis1) == a.at(axis2)
    &&& b.at(axis2) == a.at(axis1)
}

/// No conductivity is negative.
pub open spec fn absorbing<S: Scalar>(read: spec_fn(S) -> real, sig: Vec3<S>) -> bool {
    &&& at(read, sig.x) >= 0 as real
    &&& at(read, sig.y) >= 0 as real
    &&& at(read, sig.z) >= 0 as real
}

/// The time step and the permittivity of free space are positive, and the material lets waves pass.
pub open spec fn physical<S: Scalar>(
    read: spec_fn(S) -> real,
    mat: ElectricMaterial<S>,
    dt: S,
    space: FreeSpace<S>,
) -> bool {
    &&& at(read, dt) > 0 as real
    &&& at(read, space.eps_0) > 0 as real
    &&& forall|axis: Axis| #[trigger]
        axis.valid() ==> at(read, mat.mu_r.at(axis)) != 0 as real && at(read, mat.eps_r.at(axis))
            != 0 as real
}

/// The half sum and the quarter product of the conductivities across a component, each over the
/// permittivity of free space, the product times the time step.
pub(crate) proof fn lemma_damping<S: Scalar>(
    read: spec_fn(S) -> real,
    s1: S,
    s2: S,
    dt: S,
    eps_0: S,
)
    requires
        exact(read),
        at(read, eps_0) > 0 as real,
        at(read, dt) > 0 as real,
        at(read, s1) >= 0 as real,
        at(read, s2) >= 0 as real,
    ensures
        ({
            let (x, y, d, e) = (at(read, s1), at(read, s2), at(read, dt), at(read, eps_0));
            let (sum, product) = damping(s1, s2, dt, eps_0);
            let r = at(read, dt.recip_spec());
            let k = at(read, dt.recip_spec() + sum + product);
            &&& r == over(1 as real, d)
            &&& times(2 as real, e) > 0 as real
            &&& times(times(4 as real, e), e) > 0 as real
            &&& at(read, sum) == over(x + y, times(2 as real, e))
            &&& times(at(read, sum), times(2 as real, e)) == x + y
            &&& times(at(read, product), times(times(4 as real, e), e)) == times(times(x, y), d)
            &&& times(r, d) == 1 as real
            &&& at(read, sum) >= 0 as real
            &&& at(read, product) >= 0 as real
            &&& k == r + at(read, sum) + at(read, product)
            &&& k > 0 as real
            &&& at(read, (dt.recip_spec() + sum + product).recip_spec()) == over(1 as real, k)
            &&& times(at(read, (dt.recip_spec() + sum + product).recip_spec()), k) == 1 as real
        }),
{
    let (x, y, d, e) = (at(read, s1), at(read, s2), at(read, dt), at(read, eps_0));
    let e2 = times(2 as real, e);
    let e4 = times(times(4 as real, e), e);
    lemma_product_sign(2 as real, e);
    lemma_product_sign(4 as real, e);
    lemma_product_sign(times(4 as real, e), e);
    lemma_product_sign(x, y);
    lemma_product_sign(times(x, y), d);
    lemma_quotient_sign(x + y, e2);
    lemma_quotient_sign(times(times(x, y), d), e4);
    lemma_quotient_sign(1 as real, d);
    lemma_times_divisor(x + y, e2);
    lemma_times_divisor(times(times(x, y), d), e4);
    lemma_times_divisor(1 as real, d);
    let (sum, product) = damping(s1, s2, dt, eps_0);
    lemma_times_divisor(1 as real, at(read, dt.recip_spec() + sum + product));
}

/// The damping does not change when the two conductivities are exchanged.
proof fn lemma_damping_is_symmetric<S: Scalar>(
    read: spec_fn(S) -> real,
    s1: S,
    s2: S,
    dt: S,
    eps_0: S,
)
    requires
        exact(read),
        at(read, eps_0) > 0 as real,
        at(read, dt) > 0 as real,
        at(read, s1) >= 0 as real,
        at(read, s2) >= 0 as real,
    ensures
        ({
            let (a, b) = damping(s1, s2, dt, eps_0);
            let (c, d) = damping(s2, s1, dt, eps_0);
            at(read, a) == at(read, c) && at(read, b) == at(read, d)
        }),
{
    lemma_damping(read, s1, s2, dt, eps_0);
    lemma_damping(read, s2, s1, dt, eps_0);
    let e = at(read, eps_0);
    let (a, b) = damping(s1, s2, dt, eps_0);
    let (c, d) = damping(s2, s1, dt, eps_0);
    lemma_swap(at(read, s1), at(read, s2));
    lemma_same_factor(at(read, a), at(read, c), times(2 as real, e));
    lemma_same_factor(at(read, b), at(read, d), times(times(4 as real, e), e));
}

/// The layers along the two axes across a component absorb it alike: exchanging their
/// conductivities changes none of its coefficients.
pub proof fn law_layers_across_are_exchangeable<S: Scalar>(
    read: spec_fn(S) -> real,
    dim: Dim,
    axis: Axis,
    h: Vec3<S>,
    h_exchanged: Vec3<S>,
    dn: Vec3<S>,
    dn_exchanged: Vec3<S>,
    mat: ElectricMaterial<S>,
    dt: S,
    space: FreeSpace<S>,
)
    requires
        exact(read),
        axis.valid(),
        physical(read, mat, dt, space),
        absorbing(read, h),
        absorbing(read, dn),
        exchanged_across(axis, h, h_exchanged),
        exchanged_across(axis, dn, dn_exchanged),
    ensures
        ({
            let a = axis_coefficients(dim, axis, h, dn, mat, dt, space);
            let b = axis_coefficients(dim, axis, h_exchanged, dn_exchanged, mat, dt, space);
            &&& at(read, a.h1) == at(read, b.h1)
            &&& at(read, a.h2) == at(read, b.h2)
            &&& at(read, a.h3) == at(read, b.h3)
            &&& at(read, a.h4) == at(read, b.h4)
            &&& at(read, a.dn1) == at(read, b.dn1)
            &&& at(read, a.dn2) == at(read, b.dn2)
            &&& at(read, a.dn_loss1) == at(read, b.dn_loss1)
            &&& at(read, a.dn_loss2) == at(read, b.dn_loss2)
            &&& at(read, a.dn3) == at(read, b.dn3)
            &&& at(read, a.dn4) == at(read, b.dn4)
            &&& at(read, a.en1) == at(read, b.en1)
        }),
{
    let axis1 = axis.permute_spec();
    let axis2 = axis1.permute_spec();
    let eps_0 = space.eps_0;
    lemma_damping(read, h.at(axis1), h.at(axis2), dt, eps_0);
    lemma_damping(read, h.at(axis2), h.at(axis1), dt, eps_0);
    lemma_damping_is_symmetric(read, h.at(axis1), h.at(axis2), dt, eps_0);
    lemma_damping(read, dn.at(axis1), dn.at(axis2), dt, eps_0);
    lemma_damping(read, dn.at(axis2), dn.at(axis1), dt, eps_0);
    lemma_damping_is_symmetric(read, dn.at(axis1), dn.at(axis2), dt, eps_0);
    let e = at(read, eps_0);
    let w = over(at(read, dt), times(e, e));
    lemma_product_sign(e, e);
    let h_sums = damping(h.at(axis1), h.at(axis2), dt, eps_0);
    let h_term = at(read, (dt.recip_spec() + h_sums.0 + h_sums.1).recip_spec());
    lemma_swap_last(times(-h_term, w), at(read, h.at(axis1)), at(read, h.at(axis2)));
    let dn_sums = damping(dn.at(axis1), dn.at(axis2), dt, eps_0);
    let dn_term = at(read, (dt.recip_spec() + dn_sums.0 + dn_sums.1).recip_spec());
    lemma_swap_last(times(-dn_term, w), at(read, dn.at(axis1)), at(read, dn.at(axis2)));
}

/// Where only one of the two layers across a component absorbs, whichever it is, H and D keep
/// `(1 / dt - s / (2 eps_0)) / (1 / dt + s / (2 eps_0))` of their values over a step.
pub proof fn law_one_layer_across_damps<S: Scalar>(
    read: spec_fn(S) -> real,
    dim: Dim,
    axis: Axis,
    other: Axis,
    h: Vec3<S>,
    dn: Vec3<S>,
    mat: ElectricMaterial<S>,
    dt: S,
    space: FreeSpace<S>,
)
    requires
        exact(read),
        axis.valid(),
        other.valid(),
        other != axis,
        physical(read, mat, dt, space),
        absorbing(read, h),
        absorbing(read, dn),
        forall|b: Axis|
            b.valid() && b != axis && b != other ==> at(read, #[trigger] h.at(b)) == 0 as real
                && at(read, dn.at(b)) == 0 as real,
    ensures
        ({
            let a = axis_coefficients(dim, axis, h, dn, mat, dt, space);
            let rate = over(1 as real, at(read, dt));
            let two_eps = times(2 as real, at(read, space.eps_0));
            let h_loss = over(at(read, h.at(other)), two_eps);
            let dn_loss = over(at(read, dn.at(other)), two_eps);
            &&& at(read, a.h1) == over(rate - h_loss, rate + h_loss)
            &&& at(read, a.dn1) == over(rate - dn_loss, rate + dn_loss)
        }),
{
    let axis1 = axis.permute_spec();
    let axis2 = axis1.permute_spec();
    assert(other == axis1 || other == axis2);
    lemma_kept_by_one(read, h.at(axis1), h.at(axis2), dt, space.eps_0);
    lemma_kept_by_one(read, dn.at(axis1), dn.at(axis2), dt, space.eps_0);
    let third = if other == axis1 {
        axis2
    } else {
        axis1
    };
    assert(at(read, h.at(third)) == 0 as real);
}

/// What a component keeps where at most one of the layers across it absorbs.
proof fn lemma_kept_by_one<S: Scalar>(read: spec_fn(S) -> real, s1: S, s2: S, dt: S, eps_0: S)
    requires
        exact(read),
        at(read, eps_0) > 0 as real,
        at(read, dt) > 0 as real,
        at(read, s1) >= 0 as real,
        at(read, s2) >= 0 as real,
        at(read, s1) == 0 as real || at(read, s2) == 0 as real,
    ensures
        ({
            let (sum, product) = damping(s1, s2, dt, eps_0);
            let term = (dt.recip_spec() + sum + product).recip_spec();
            let rate = over(1 as real, at(read, dt));
            let loss = over(at(read, s1) + at(read, s2), times(2 as real, at(read, eps_0)));
            at(read, term * (dt.recip_spec() - sum - product)) == over(rate - loss, rate + loss)
        }),
{
    lemma_damping(read, s1, s2, dt, eps_0);
    let (x, y, d, e) = (at(read, s1), at(read, s2), at(read, dt), at(read, eps_0));
    let (sum, product) = damping(s1, s2, dt, eps_0);
    let e4 = times(times(4 as real, e), e);
    lemma_unit(x);
    lemma_unit(y);
    lemma_unit(d);
    lemma_unit(e4);
    lemma_same_factor(at(read, product), 0 as real, e4);
    let k = at(read, dt.recip_spec() + sum + product);
    let t = over(1 as real, k);
    let kept = at(read, dt.recip_spec() - sum - product);
    lemma_swap_last(t, kept, k);
    lemma_unit(kept);
    lemma_quotient(kept, times(t, kept), k);
}

/// How deep a place `dist` half cells from the end of a layer of `width` half cells lies in it: one
/// at the end, falling to zero where the layer stops.
pub open spec fn depth(dist: int, width: int) -> real {
    if dist >= width {
        0 as real
    } else {
        over((width - dist) as real, width as real)
    }
}

/// The ramp of a layer is the depth in it.
proof fn lemma_ramp<S: Scalar>(read: spec_fn(S) -> real, dist: u32, width: u32)
    requires
        exact(read),
        width > 0,
    ensures
        at(
            read,
            (S::one_spec() - S::of_nat_spec(dist).over_spec(
                S::of_nat_spec(width),
            )).clamp_unit_spec(),
        ) == depth(dist as int, width as int),
        0 as real <= depth(dist as int, width as int) <= 1 as real,
{
    let (d, w) = (dist as real, width as real);
    let q = over(d, w);
    lemma_times_divisor(d, w);
    lemma_quotient_sign(d, w);
    lemma_unit(w);
    if dist < width {
        // 1 - d / w is (w - d) / w
        crate::exact::lemma_distribute_minus(w, 1 as real, q);
        lemma_quotient((width - dist) as real, 1 as real - q, w);
        assert((width - dist) as real == w - d);
        lemma_quotient_sign((width - dist) as real, w);
    } else {
        // d / w is at least one
        lemma_quotient_sign(d - w, w);
        lemma_times_divisor(d - w, w);
        crate::exact::lemma_distribute_minus(w, q, 1 as real);
        lemma_quotient(d - w, q - 1 as real, w);
    }
}

/// The conductivity of the layers along an axis grows with the depth in them, to the power of the
/// grading order: it is the highest at the two ends of the axis.
pub proof fn law_layers_are_graded<S: Scalar>(
    read: spec_fn(S) -> real,
    n: u32,
    widths: LoHiWidths,
    sig_max: S,
    grading_order: i32,
    i: int,
)
    requires
        exact(read),
        0 <= i < 2 * n <= u32::MAX,
        0 < 2 * widths.lo <= u32::MAX,
        0 < 2 * widths.hi <= u32::MAX,
        grading_order >= 0,
    ensures
        at(read, layer_sig(n, widths, sig_max, grading_order, i)) == times(
            at(read, sig_max),
            power(
                depth(i, 2 * widths.lo) + depth(2 * n - 1 - i, 2 * widths.hi),
                grading_order as nat,
            ),
        ),
{
    lemma_ramp::<S>(read, i as u32, (widths.lo * 2) as u32);
    lemma_ramp::<S>(read, (2 * n - 1 - i) as u32, (widths.hi * 2) as u32);
}

/// At the very ends of an axis the conductivity is the highest one, where the layers do not overlap.
pub proof fn law_layers_are_highest_at_the_ends<S: Scalar>(
    read: spec_fn(S) -> real,
    n: u32,
    widths: LoHiWidths,
    sig_max: S,
    grading_order: i32,
)
    requires
        exact(read),
        0 < 2 * n <= u32::MAX,
        0 < widths.lo,
        0 < widths.hi,
        widths.lo + widths.hi <= n,
        grading_order >= 0,
    ensures
        at(read, layer_sig(n, widths, sig_max, grading_order, 0)) == at(read, sig_max),
        at(read, layer_sig(n, widths, sig_max, grading_order, 2 * n - 1)) == at(read, sig_max),
{
    law_layers_are_graded(read, n, widths, sig_max, grading_order, 0);
    law_layers_are_graded(read, n, widths, sig_max, grading_order, 2 * n - 1);
    lemma_unit((2 * widths.lo) as real);
    lemma_unit((2 * widths.hi) as real);
    lemma_quotient((2 * widths.lo) as real, 1 as real, (2 * widths.lo) as real);
    lemma_quotient((2 * widths.hi) as real, 1 as real, (2 * widths.hi) as real);
    lemma_power_of_one(grading_order as nat);
    lemma_unit(at(read, sig_max));
}

proof fn lemma_power_of_one(n: nat)
    ensures
        power(1 as real, n) == 1 as real,
    decreases n,
{
    if n > 0 {
        lemma_power_of_one((n - 1) as nat);
        lemma_unit(1 as real);
    }
}

/// An auxiliary grid has one absorbing layer, at the end that the wave travels to.
pub proof fn law_auxiliary_layer_is_at_the_far_end<S: Scalar>(
    read: spec_fn(S) -> real,
    setup: TfsfSetup<S>,
    n_cells: u32,
    direction: WaveDirection,
    i: int,
)
    requires
        exact(read),
        0 <= i < 2 * n_cells <= u32::MAX,
        0 < 2 * setup.parameters.pml_width@ <= u32::MAX,
        setup.parameters.pml_grading_order@ >= 0,
    ensures
        ({
            let width = 2 * setup.parameters.pml_width@;
            let to_go = if direction == WaveDirection::Positive {
                2 * n_cells - 1 - i
            } else {
                i
            };
            at(read, setup.aux_sig(n_cells, direction, i)) == times(
                at(read, setup.parameters.pml_sig_max),
                power(depth(to_go, width), setup.parameters.pml_grading_order@ as nat),
            )
        }),
{
    let width = (setup.parameters.pml_width@ * 2) as u32;
    let to_go = crate::tfsf_setup::end_distance(n_cells, direction, i);
    lemma_ramp::<S>(read, to_go as u32, width);
}

/// In free space without layers nothing is lost: the fields keep their values, light travels `c_0 dt`
/// in a step, against H and along D, and E is D.
pub proof fn law_free_space_loses_nothing<S: Scalar>(
    read: spec_fn(S) -> real,
    dim: Dim,
    axis: Axis,
    h: Vec3<S>,
    dn: Vec3<S>,
    dt: S,
    space: FreeSpace<S>,
)
    requires
        exact(read),
        axis.valid(),
        at(read, dt) > 0 as real,
        at(read, space.eps_0) > 0 as real,
        forall|b: Axis|
            b.valid() ==> at(read, #[trigger] h.at(b)) == 0 as real && at(read, dn.at(b))
                == 0 as real,
    ensures
        ({
            let a = axis_coefficients(
                dim,
                axis,
                h,
                dn,
                ElectricMaterial::free_space_spec(),
                dt,
                space,
            );
            let step = times(at(read, space.c_0), at(read, dt));
            &&& at(read, a.h1) == 1 as real
            &&& at(read, a.h2) == -step
            &&& at(read, a.h3) == 0 as real
            &&& at(read, a.h4) == 0 as real
            &&& at(read, a.dn1) == 1 as real
            &&& at(read, a.dn2) == step
            &&& at(read, a.dn_loss1) == 0 as real
            &&& at(read, a.dn_loss2) == 0 as real
            &&& at(read, a.dn3) == 0 as real
            &&& at(read, a.dn4) == 0 as real
            &&& at(read, a.en1) == 1 as real
        }),
{
    let axis1 = axis.permute_spec();
    let axis2 = axis1.permute_spec();
    let (d, e, c) = (at(read, dt), at(read, space.eps_0), at(read, space.c_0));
    assert(at(read, h.at(axis)) == 0 as real && at(read, h.at(axis1)) == 0 as real && at(
        read,
        h.at(axis2),
    ) == 0 as real);
    lemma_nothing_damped(read, h.at(axis1), h.at(axis2), dt, space.eps_0);
    lemma_nothing_damped(read, dn.at(axis1), dn.at(axis2), dt, space.eps_0);
    lemma_unit(1 as real);
    lemma_quotient(1 as real, 1 as real, 1 as real);
    lemma_product_sign(e, e);
    lemma_unit(e);
    lemma_unit(times(e, e));
    lemma_quotient(0 as real, 0 as real, e);
    lemma_quotient(0 as real, 0 as real, times(e, e));
    lemma_unit(-d);
    lemma_unit(d);
    lemma_unit(0 as real);
    crate::exact::lemma_negated(d, c);
    lemma_swap(d, c);
    lemma_unit(-times(d, c));
    lemma_unit(times(-d, times(c, d)));
    lemma_unit(times(d, times(c, d)));
    lemma_unit(times(-d, over(d, times(e, e))));
}

/// Without conductivities the common factor is the time step, and everything is kept.
proof fn lemma_nothing_damped<S: Scalar>(
    read: spec_fn(S) -> real,
    s1: S,
    s2: S,
    dt: S,
    eps_0: S,
)
    requires
        exact(read),
        at(read, dt) > 0 as real,
        at(read, eps_0) > 0 as real,
        at(read, s1) == 0 as real,
        at(read, s2) == 0 as real,
    ensures
        ({
            let (sum, product) = damping(s1, s2, dt, eps_0);
            let term = (dt.recip_spec() + sum + product).recip_spec();
            &&& at(read, sum) == 0 as real
            &&& at(read, product) == 0 as real
            &&& at(read, term) == at(read, dt)
            &&& at(read, term * (dt.recip_spec() - sum - product)) == 1 as real
        }),
{
    let (d, e) = (at(read, dt), at(read, eps_0));
    lemma_damping(read, s1, s2, dt, eps_0);
    let (sum, product) = damping(s1, s2, dt, eps_0);
    let (e2, e4) = (times(2 as real, e), times(times(4 as real, e), e));
    lemma_unit(0 as real);
    lemma_unit(d);
    lemma_unit(e2);
    lemma_unit(e4);
    lemma_same_factor(at(read, sum), 0 as real, e2);
    lemma_same_factor(at(read, product), 0 as real, e4);
    let r = at(read, dt.recip_spec());
    let t = at(read, (dt.recip_spec() + sum + product).recip_spec());
    lemma_swap(r, d);
    lemma_same_factor(t, d, r);
}

/// The layers along each axis belong to it: they have its length and its widths.
pub proof fn law_profiles_belong_to_their_axes<S: Scalar>(
    n: crate::vector::UVec3,
    pml: crate::pml::PmlParameters<S>,
    axis: Axis,
    i: int,
)
    requires
        axis.valid(),
        0 <= i < 2 * n.at(axis),
    ensures
        crate::pml::profiles(n, pml)[axis.index_spec() as int].len() == 2 * n.at(axis),
        crate::pml::profiles(n, pml)[axis.index_spec() as int][i] == layer_sig(
            n.at(axis),
            pml.widths.at(axis),
            pml.sig_max,
            pml.grading_order@,
            i,
        ),
{
}

} // verus!
