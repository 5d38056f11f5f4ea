//! Choices of cell size and time step for which a simulation stays stable.
use crate::axis::{spatial, Axis, Dim};
use crate::exact::{
    at, exact, exact_ceilings, exact_roots, larger_real, lemma_distribute, lemma_product_sign,
    lemma_quotient_sign, lemma_shift, lemma_square, lemma_swap, lemma_times_divisor, lemma_unit,
    over, times,
};
use crate::layers::{LayerWidths, LoHiWidths};
use crate::nonzero::NonZeroU32;
use crate::pml::{stable_sig_max, FreeSpace};
use crate::scalar::Scalar;
use crate::vect::{Vect, VectorValueExt};
use vstd::prelude::*;

verus! {

/// Helper struct containing parameters and functions for ensuring simulation stability.
///
/// The default of this struct contains hardcoded values that are generally stable.
#[derive(Clone, Debug)]
pub struct FdtdStability<S> {
    pub cells_per_wavelength: u32,
    /// Divides CFL condition upper bound by `dt_safety_factor`.
    ///
    /// A factor above one improves stability.
    pub dt_safety_factor: S,
    pub source_resolution: u32,
    pub material_resolution: NonZeroU32,
    pub spacer_region_widths: LayerWidths,
}

/// The root of the sum of the reciprocal squares of the components.
pub open spec fn cfl_term<S: Scalar>(cell_size: Vect<S>) -> S {
    let squares = cell_size.each(|v: S| v.powi_spec(2).recip_spec());
    crate::vect::fold_left(squares.array(), |a: S, b: S| a + b).sqrt_spec()
}

impl<S: Scalar> FdtdStability<S> {
    /// The size of cells that resolve the wavelength of `f_max`.
    pub open spec fn resolving_size(self, f_max: S, space: FreeSpace<S>) -> S {
        space.c_0.over_spec(f_max).over_spec(S::of_nat_spec(self.cells_per_wavelength))
    }

    /// The largest stable time step, divided by the safety factor.
    pub open spec fn stable_dt(self, cell_size: Vect<S>, space: FreeSpace<S>) -> S {
        S::one_spec().over_spec(
            space.c_0 * cfl_term(cell_size) * self.dt_safety_factor.larger_spec(S::one_spec()),
        )
    }

    /// Cells no larger than `cell_size` that divide `critical_dim`.
    pub open spec fn snapped(cell_size: Vect<S>, critical_dim: Vect<S>) -> Vect<S> {
        critical_dim.over_spec(critical_dim.over_spec(cell_size).ceil_spec())
    }

    /// The time step that resolves a Gaussian curve.
    pub open spec fn resolving_dt(self, f_max: S) -> S {
        S::frac_1_pi_spec().over_spec(f_max).over_spec(S::of_nat_spec(self.source_resolution))
    }

    /// Values that are generally stable.
    pub fn default_for(dim: Dim) -> (r: Self)
        ensures
            r.cells_per_wavelength == 10,
            r.dt_safety_factor == S::of_nat_spec(2),
            r.source_resolution == 10,
            r.material_resolution@ == 3,
            forall|a: Axis| #[trigger]
                a.valid() ==> r.spacer_region_widths.at(a) == LoHiWidths::splat_spec(
                    if spatial(dim, a) {
                        10
                    } else {
                        0
                    },
                ),
    {
        FdtdStability {
            cells_per_wavelength: 10,
            dt_safety_factor: S::of_nat(2),
            source_resolution: 10,
            material_resolution: NonZeroU32::of(3),
            spacer_region_widths: LayerWidths::splat_spatial(dim, 10),
        }
    }

    /// Cells that resolve the wavelength of `f_max`.
    pub fn cell_size_from_min_wavelength(&self, dim: Dim, f_max: &S, space: &FreeSpace<S>) -> (r:
        Vect<S>)
        ensures
            r.dim() == dim,
            r.array() == Seq::new(
                dim.count_spec() as nat,
                |i: int| self.resolving_size(*f_max, *space),
            ),
    {
        let min_wavelen: S = space.c_0.over(f_max);
        let cell_size: S = min_wavelen.over(&S::of_nat(self.cells_per_wavelength));
        Vect::from_element(dim, cell_size)
    }

    /// The largest time step for which a grid of cells of the given size is stable, divided by the
    /// safety factor, which counts as one where it is less.
    pub fn cfl_condition(&self, cell_size: &Vect<S>, space: &FreeSpace<S>) -> (r: S)
        ensures
            r == self.stable_dt(*cell_size, *space),
    {
        let inverse_square = |v: S| -> (r: S)
            ensures
                r == v.powi_spec(2).recip_spec(),
            { v.powi(2).recip() };
        let squares: Vect<S> = cell_size.dup().map_elements(inverse_square);
        proof {
            let expected = cell_size.each(|v: S| v.powi_spec(2).recip_spec());
            assert(squares.elements() =~= expected.array()) by {
                assert forall|i: int| 0 <= i < squares.elements().len() implies #[trigger] squares.elements()[i]
                    == expected.array()[i] by {}
            }
            let f = |a: S, b: S| a + b;
            let g = |a: S, b: S| <Vect<S> as VectorValueExt>::sum_of(a, b);
            assert(f =~= g);
        }
        let cell_size_term: S = squares.sum_elements().sqrt();
        let safety_factor: S = self.dt_safety_factor.larger(&S::one());
        S::one().over(&space.c_0.times(&cell_size_term).times(&safety_factor))
    }

    /// The largest cell size that divides the dimensions `critical_dim` into whole cells no larger
    /// than `cell_size`.
    pub fn snap_to_critical_dim(&self, cell_size: &Vect<S>, critical_dim: &Vect<S>) -> (r: Vect<S>)
        requires
            cell_size.dim() == critical_dim.dim(),
        ensures
            r == Self::snapped(*cell_size, *critical_dim),
    {
        let cells_per_crit_dim: Vect<S> = critical_dim.over(cell_size).ceil();
        critical_dim.over(&cells_per_crit_dim)
    }

    /// Computes a stable maximum conductivity for a PML
    pub fn pml_sig_max(dt: &S, space: &FreeSpace<S>) -> (r: S)
        ensures
            r == stable_sig_max(*dt, *space),
    {
        space.eps_0.over(&S::of_nat(2).times(dt))
    }

    /// Compute a stable dt from a gaussian curve maximum frequency
    pub fn dt_from_gaussian_freq(&self, f_max: &S) -> (r: S)
        ensures
            r == self.resolving_dt(*f_max),
    {
        let tau: S = S::frac_1_pi().over(f_max);
        tau.over(&S::of_nat(self.source_resolution))
    }
}

impl<S: Scalar> Default for FdtdStability<S> {
    /// Values that are generally stable, in the default dimension.
    fn default() -> (r: Self)
        ensures
            r.cells_per_wavelength == 10,
            r.dt_safety_factor == S::of_nat_spec(2),
            r.source_resolution == 10,
            r.material_resolution@ == 3,
            forall|a: Axis| #[trigger]
                a.valid() ==> r.spacer_region_widths.at(a) == LoHiWidths::splat_spec(10),
    {
        let r = FdtdStability::default_for(Dim::default());
        assert(forall|a: Axis| #[trigger] a.valid() ==> spatial(Dim::Three, a));
        r
    }
}

/// As many cells as asked for fill a wavelength: their size times their number times the frequency
/// is the speed of light.
pub proof fn law_cells_fill_a_wavelength<S: Scalar>(
    read: spec_fn(S) -> real,
    stability: FdtdStability<S>,
    f_max: S,
    space: FreeSpace<S>,
)
    requires
        exact(read),
        at(read, f_max) != 0 as real,
        stability.cells_per_wavelength > 0,
    ensures
        times(
            times(
                at(read, stability.resolving_size(f_max, space)),
                stability.cells_per_wavelength as real,
            ),
            at(read, f_max),
        ) == at(read, space.c_0),
{
    let wavelength = over(at(read, space.c_0), at(read, f_max));
    lemma_times_divisor(wavelength, stability.cells_per_wavelength as real);
    lemma_times_divisor(at(read, space.c_0), at(read, f_max));
}

/// As many time steps as asked for fill the width `1 / (pi f_max)` of a Gaussian curve.
pub proof fn law_steps_fill_the_width_of_a_gaussian<S: Scalar>(
    read: spec_fn(S) -> real,
    stability: FdtdStability<S>,
    f_max: S,
)
    requires
        exact(read),
        at(read, f_max) != 0 as real,
        stability.source_resolution > 0,
    ensures
        times(
            times(at(read, stability.resolving_dt(f_max)), stability.source_resolution as real),
            at(read, f_max),
        ) == at(read, S::frac_1_pi_spec()),
{
    let width = over(at(read, S::frac_1_pi_spec()), at(read, f_max));
    lemma_times_divisor(width, stability.source_resolution as real);
    lemma_times_divisor(at(read, S::frac_1_pi_spec()), at(read, f_max));
}

/// The highest conductivity of the layers is in proportion to the time step: times twice the time
/// step it is the permittivity of free space.
pub proof fn law_stable_sig_max<S: Scalar>(read: spec_fn(S) -> real, dt: S, space: FreeSpace<S>)
    requires
        exact(read),
        at(read, dt) > 0 as real,
    ensures
        times(at(read, stable_sig_max(dt, space)), times(2 as real, at(read, dt))) == at(
            read,
            space.eps_0,
        ),
{
    lemma_product_sign(2 as real, at(read, dt));
    lemma_times_divisor(at(read, space.eps_0), times(2 as real, at(read, dt)));
}

/// The sum of the reciprocal squares of the cell sizes along the spatial axes.
pub open spec fn reciprocal_squares<S: Scalar>(
    read: spec_fn(S) -> real,
    sizes: Seq<S>,
    k: nat,
) -> real
    decreases k,
{
    if k == 0 {
        0 as real
    } else {
        let d = at(read, sizes[k - 1]);
        reciprocal_squares(read, sizes, (k - 1) as nat) + over(1 as real, times(d, d))
    }
}

/// The Courant condition: in a stable time step, lengthened by the safety factor, light travels a
/// distance whose square times the sum of the reciprocal squares of the cell sizes is one.
pub proof fn law_stable_dt_meets_the_courant_condition<S: Scalar>(
    read: spec_fn(S) -> real,
    stability: FdtdStability<S>,
    cell_size: Vect<S>,
    space: FreeSpace<S>,
)
    requires
        exact(read),
        exact_roots(read),
        at(read, space.c_0) > 0 as real,
        forall|i: int|
            0 <= i < cell_size.array().len() ==> at(read, #[trigger] cell_size.array()[i])
                > 0 as real,
    ensures
        ({
            let factor = larger_real(at(read, stability.dt_safety_factor), 1 as real);
            let dt = at(read, stability.stable_dt(cell_size, space));
            let travelled = times(times(dt, factor), at(read, space.c_0));
            times(
                times(travelled, travelled),
                reciprocal_squares(read, cell_size.array(), cell_size.array().len()),
            ) == 1 as real
        }),
{
    lemma_reciprocal_squares(read, cell_size);
    let sum = reciprocal_squares(read, cell_size.array(), cell_size.array().len());
    let root = at(read, cfl_term(cell_size));
    assert(times(root, root) == sum);
    assert(root > 0 as real) by {
        lemma_unit(root);
    }
    let c = at(read, space.c_0);
    let factor = larger_real(at(read, stability.dt_safety_factor), 1 as real);
    let whole = times(times(c, root), factor);
    lemma_product_sign(c, root);
    lemma_product_sign(times(c, root), factor);
    let dt = at(read, stability.stable_dt(cell_size, space));
    lemma_times_divisor(1 as real, whole);
    // the distance times the root is one
    let x = times(times(dt, factor), c);
    lemma_shift(times(dt, factor), c, root);
    lemma_shift(dt, factor, times(c, root));
    lemma_swap(factor, times(c, root));
    assert(times(x, root) == 1 as real);
    lemma_shift(times(x, x), root, root);
    lemma_shift(x, x, root);
    lemma_unit(x);
}

/// The sum under the root.
proof fn lemma_reciprocal_squares<S: Scalar>(read: spec_fn(S) -> real, cell_size: Vect<S>)
    requires
        exact(read),
        exact_roots(read),
        forall|i: int|
            0 <= i < cell_size.array().len() ==> at(read, #[trigger] cell_size.array()[i])
                > 0 as real,
    ensures
        ({
            let sum = reciprocal_squares(read, cell_size.array(), cell_size.array().len());
            let root = at(read, cfl_term(cell_size));
            sum > 0 as real && root >= 0 as real && times(root, root) == sum
        }),
{
    let sizes = cell_size.array();
    reveal_with_fuel(reciprocal_squares, 4);
    let f = |v: S| v.powi_spec(2).recip_spec();
    assert forall|i: int| 0 <= i < sizes.len() implies {
        let d = at(read, #[trigger] sizes[i]);
        at(read, f(sizes[i])) == over(1 as real, times(d, d)) && over(1 as real, times(d, d))
            > 0 as real
    } by {
        let d = at(read, sizes[i]);
        lemma_square(d);
        lemma_product_sign(d, d);
        lemma_quotient_sign(1 as real, times(d, d));
    }
    let squares = cell_size.each(f).array();
    assert(squares.len() == sizes.len());
    assert(forall|i: int| 0 <= i < sizes.len() ==> #[trigger] squares[i] == f(sizes[i]));
    let total = crate::vect::fold_left(squares, |a: S, b: S| a + b);
    assert(sizes.len() == 1 || sizes.len() == 2 || sizes.len() == 3);
    if sizes.len() >= 1 {
        assert(squares[0] == f(sizes[0]));
    }
    if sizes.len() >= 2 {
        assert(squares[1] == f(sizes[1]));
    }
    if sizes.len() >= 3 {
        assert(squares[2] == f(sizes[2]));
    }
}

/// Snapped cells divide the critical dimension into a whole number of cells that are not larger than
/// asked for, and fewer would be.
pub proof fn law_snapped_cells_divide_the_critical_dimension<S: Scalar>(
    read: spec_fn(S) -> real,
    whole: spec_fn(S) -> int,
    cell_size: Vect<S>,
    critical_dim: Vect<S>,
    i: int,
)
    requires
        exact(read),
        exact_ceilings(read, whole),
        cell_size.dim() == critical_dim.dim(),
        0 <= i < cell_size.array().len(),
        at(read, cell_size.array()[i]) > 0 as real,
        at(read, critical_dim.array()[i]) > 0 as real,
    ensures
        ({
            let (d, l) = (at(read, cell_size.array()[i]), at(read, critical_dim.array()[i]));
            let snapped = at(
                read,
                FdtdStability::<S>::snapped(cell_size, critical_dim).array()[i],
            );
            exists|n: int|
                n >= 1 && #[trigger] times(snapped, n as real) == l && times(d, n as real) >= l
                    && times(d, (n - 1) as real) < l
        }),
{
    let (d, l) = (at(read, cell_size.array()[i]), at(read, critical_dim.array()[i]));
    let quotient = critical_dim.array()[i].over_spec(cell_size.array()[i]);
    let n = whole(quotient);
    let q = over(l, d);
    assert(at(read, quotient) == q);
    assert(at(read, quotient.ceil_spec()) == n as real);
    lemma_quotient_sign(l, d);
    assert(n >= 1);
    assert(FdtdStability::<S>::snapped(cell_size, critical_dim).array()[i]
        == critical_dim.array()[i].over_spec(quotient.ceil_spec()));
    lemma_times_divisor(l, n as real);
    lemma_times_divisor(l, d);
    lemma_swap(q, d);
    // d * n is at least d * q, which is l
    lemma_distribute(d, q, n as real - q);
    lemma_product_sign(d, n as real - q);
    assert(q + (n as real - q) == n as real);
    lemma_distribute(d, (n - 1) as real, q - (n - 1) as real);
    lemma_product_sign(d, q - (n - 1) as real);
    assert((n - 1) as real + (q - (n - 1) as real) == q);
    let snapped = at(read, FdtdStability::<S>::snapped(cell_size, critical_dim).array()[i]);
    assert(times(snapped, n as real) == l);
}

} // verus!
