//! A one-dimensional update of a single pair of components.
use crate::exact::{
    at, exact, lemma_negated, lemma_quotient, lemma_times_divisor, lemma_unit, over, times,
};
use crate::scalar::{bit, bit_spec, Scalar};
use crate::source_terms::larger_int;
use crate::vector::{UVec3, Vec2, Vec4};
use vstd::prelude::*;

verus! {

#[derive(Copy, Clone, Debug)]
pub struct GridParameters<S> {
    pub dz: S,
}

#[derive(Copy, Clone, Debug)]
pub struct PmlCoefficients<S> {
    pub h_x_coeffs: Vec2<S>,
    pub en_y_coeff: S,
    pub dn_y_coeffs: Vec4<S>,
}

impl<S: Scalar> Default for GridParameters<S> {
    fn default() -> (r: Self)
        ensures
            r.dz == S::zero_spec(),
    {
        GridParameters { dz: S::zero() }
    }
}

impl<S: Scalar> Default for PmlCoefficients<S> {
    fn default() -> (r: Self)
        ensures
            r.h_x_coeffs == Vec2::splat_spec(S::zero_spec()),
            r.en_y_coeff == S::zero_spec(),
            r.dn_y_coeffs == Vec4::<S>::zero_spec(),
    {
        PmlCoefficients {
            h_x_coeffs: Vec2::splat(&S::zero()),
            en_y_coeff: S::zero(),
            dn_y_coeffs: Vec4::zero(),
        }
    }
}

/// The fields of a cell and its sum of E.
pub ghost struct Cell1<S> {
    pub h: S,
    pub dn: S,
    pub en: S,
    pub en_sum: S,
}

/// The fields of the cell `i` of a grid of `n` cells after a step.
///
/// Every cell but the last takes the last E value as that of its neighbour.
pub open spec fn step1<S: Scalar>(
    i: int,
    n: int,
    h: Seq<S>,
    dn: Seq<S>,
    en: Seq<S>,
    en_sums: Seq<S>,
    m: PmlCoefficients<S>,
    dz: S,
) -> Cell1<S> {
    let last = n - 1;
    let en_next = en[larger_int(i + 1, last)] * bit_spec::<S>(i < last);
    let e_curl = (-(en_next - en[i])).over_spec(dz);
    let new_h = m.h_x_coeffs.x * h[i] + m.h_x_coeffs.y * e_curl;
    let en_sum = en_sums[i] + en[i];
    let before = if i > 0 {
        i - 1
    } else {
        last
    };
    let h_before = h.update(i, new_h)[before] * bit_spec::<S>(i > 0);
    let h_curl = (new_h - h_before).over_spec(dz);
    let new_dn = m.dn_y_coeffs.dot_spec(Vec4 { x: dn[i], y: h_curl, z: en[i], w: en_sum });
    Cell1 { h: new_h, dn: new_dn, en: m.en_y_coeff * new_dn, en_sum }
}

/// Lossless 1-dimensional FDTD kernel in "Ey" mode.
///
/// A thread behind the last cell changes nothing.
pub fn fdtd1_dn_y<S: Scalar>(
    id: UVec3,
    h_x: &mut Vec<S>,
    dn_y: &mut Vec<S>,
    en_y: &mut Vec<S>,
    int_en_y: &mut Vec<S>,
    coeffs: &Vec<PmlCoefficients<S>>,
    grid: &GridParameters<S>,
)
    requires
        old(h_x).len() >= old(dn_y).len(),
        old(int_en_y).len() >= old(dn_y).len(),
        coeffs.len() >= old(dn_y).len(),
        id.x < old(dn_y).len() ==> larger_int(id.x + 1, old(dn_y).len() - 1) < old(en_y).len(),
    ensures
        id.x < old(dn_y).len() ==> ({
            let i = id.x as int;
            let cell = step1(
                i,
                old(dn_y).len() as int,
                old(h_x)@,
                old(dn_y)@,
                old(en_y)@,
                old(int_en_y)@,
                coeffs[i],
                grid.dz,
            );
            &&& final(h_x)@ == old(h_x)@.update(i, cell.h)
            &&& final(dn_y)@ == old(dn_y)@.update(i, cell.dn)
            &&& final(en_y)@ == old(en_y)@.update(i, cell.en)
            &&& final(int_en_y)@ == old(int_en_y)@.update(i, cell.en_sum)
        }),
        id.x >= old(dn_y).len() ==> ({
            &&& final(h_x)@ == old(h_x)@
            &&& final(dn_y)@ == old(dn_y)@
            &&& final(en_y)@ == old(en_y)@
            &&& final(int_en_y)@ == old(int_en_y)@
        }),
{
    let idx: usize = id.x as usize;
    if idx >= dn_y.len() {
        return ;
    }
    let boundary_idx: usize = dn_y.len() - 1;
    let dz: &S = &grid.dz;
    let m: &PmlCoefficients<S> = &coeffs[idx];
    let en_y_k: S = en_y[idx].dup();

    let next_idx: usize = if idx + 1 >= boundary_idx {
        idx + 1
    } else {
        boundary_idx
    };
    let en_y_k1: S = en_y[next_idx].times(&bit(idx < boundary_idx));
    let e_curl_x: S = en_y_k1.minus(&en_y_k).negated().over(dz);
    let new_h_x_k: S = m.h_x_coeffs.x.times(&h_x[idx]).plus(&m.h_x_coeffs.y.times(&e_curl_x));
    h_x.set(idx, new_h_x_k.dup());

    let new_int_en_y_k: S = int_en_y[idx].plus(&en_y_k);

    let before_idx: usize = if idx > 0 {
        idx - 1
    } else {
        boundary_idx
    };
    let h_x_km1: S = h_x[before_idx].times(&bit(idx > 0));
    let h_curl_y: S = new_h_x_k.minus(&h_x_km1).over(dz);
    let new_dn_y_k: S = m.dn_y_coeffs.dot(
        &Vec4 { x: dn_y[idx].dup(), y: h_curl_y, z: en_y_k, w: new_int_en_y_k.dup() },
    );
    en_y.set(idx, m.en_y_coeff.times(&new_dn_y_k));
    dn_y.set(idx, new_dn_y_k);
    int_en_y.set(idx, new_int_en_y_k);
}

/// The field equations of the step. H keeps a share of itself and loses a share of the rise of E to
/// the neighbour, which is the last cell, or nothing for the last cell itself. D keeps a share and
/// gets shares of the rise of the new H from the cell before, of E, and of the sum of E with the
/// present one. E is a share of D.
pub proof fn law_step_solves_the_1d_equations<S: Scalar>(
    read: spec_fn(S) -> real,
    i: int,
    n: int,
    h: Seq<S>,
    dn: Seq<S>,
    en: Seq<S>,
    en_sums: Seq<S>,
    m: PmlCoefficients<S>,
    dz: S,
)
    requires
        exact(read),
        at(read, dz) != 0 as real,
        0 <= i < n <= h.len(),
    ensures
        ({
            let cell = step1(i, n, h, dn, en, en_sums, m, dz);
            let next = if i == n - 1 {
                0 as real
            } else {
                at(read, en[n - 1])
            };
            let last = if i == 0 {
                0 as real
            } else {
                at(read, h[i - 1])
            };
            let en_rise = over(next - at(read, en[i]), at(read, dz));
            let h_rise = over(at(read, cell.h) - last, at(read, dz));
            let k = m.dn_y_coeffs;
            &&& at(read, cell.h) == times(at(read, m.h_x_coeffs.x), at(read, h[i])) - times(
                at(read, m.h_x_coeffs.y),
                en_rise,
            )
            &&& at(read, cell.en_sum) == at(read, en_sums[i]) + at(read, en[i])
            &&& at(read, cell.dn) == times(at(read, k.x), at(read, dn[i])) + times(
                at(read, k.y),
                h_rise,
            ) + times(at(read, k.z), at(read, en[i])) + times(at(read, k.w), at(read, cell.en_sum))
            &&& at(read, cell.en) == times(at(read, m.en_y_coeff), at(read, cell.dn))
        }),
{
    let cell = step1(i, n, h, dn, en, en_sums, m, dz);
    let next = en[larger_int(i + 1, n - 1)];
    let before = h.update(i, cell.h)[if i > 0 {
        i - 1
    } else {
        n - 1
    }];
    lemma_unit(at(read, next));
    lemma_unit(at(read, before));
    let rise = at(read, next * bit_spec::<S>(i < n - 1)) - at(read, en[i]);
    let d = at(read, dz);
    lemma_times_divisor(rise, d);
    lemma_negated(over(rise, d), d);
    lemma_quotient(-rise, -over(rise, d), d);
    lemma_negated(at(read, m.h_x_coeffs.y), over(rise, d));
}

} // verus!
