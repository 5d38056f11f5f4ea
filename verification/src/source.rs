//! Sources of energy, and their signals.
use crate::axis::SpatialAxis;
use crate::exact::{
    at, exact, lemma_distribute, lemma_negated, lemma_quotient, lemma_quotient_other_than_zero,
    lemma_square, lemma_unit, over, times,
};
use crate::layers::LayerWidths;
use crate::params::{DipoleType, WaveDirection};
use crate::scalar::Scalar;
use crate::vect::Vect;
use crate::vector::Vec3;
use vstd::prelude::*;

verus! {

/// Inject energy into the simulation in various ways.
#[derive(Clone, Debug)]
#[non_exhaustive]
pub enum Source<S> {
    /// Dipole (magnetic or electric).
    Dipole {
        /// Choose between an electric and magnetic dipole source.
        dipole_type: DipoleType,
        /// The position in space where the source should be injected.
        position: Vect<S>,
        /// The time (in the simulation, not real-time) when the source begins injection (in
        /// seconds).
        t_start: S,
        /// Signal data points.
        vals: Vec<S>,
        /// The axis on which the dipole moves. **Must** be a **unit vector** (unless
        /// you want to scale `vals` by the magnitude of `moment`).
        moment: Vec3<S>,
    },
    /// Total-Field / Scattered-Field source
    TFSF {
        /// The spatial axis along which the plane wave will travel.
        spatial_axis: SpatialAxis,
        /// The direction along `spatial_axis` the wave will travel in.
        direction: WaveDirection,
        /// The time (in the simulation, not real-time) when the source begins injection (in
        /// seconds).
        t_start: S,
        /// Signal data points.
        vals: Vec<S>,
        /// Polarization direction of the plane wave (unit vector)
        polarization: Vec3<S>,
        /// The distances between the TF/SF boundary and the border/PML, in grid cells.
        ///
        /// If you want to record values behind the TF/SF boundary, a width of 3 along the spatial
        /// axes works well.
        tfsf_buffer_width: LayerWidths,
    },
    /// A plane wave traveling along an axis.
    PlaneWave {
        /// The spatial axis along which the plane wave will travel.
        spatial_axis: SpatialAxis,
        /// Position of the plane wave, along `spatial_axis`, in world coordinates.
        position: S,
        /// The direction along `spatial_axis` the wave will travel in.
        direction: WaveDirection,
        /// The time (in the simulation, not real-time) when the source begins injection (in
        /// seconds).
        t_start: S,
        /// Signal data points.
        vals: Vec<S>,
    },
}

/// The time of the data point `k`: the step added up `k` times.
pub open spec fn sample_time<S: Scalar>(dt: S, k: nat) -> S
    decreases k,
{
    if k == 0 {
        S::zero_spec()
    } else {
        sample_time(dt, (k - 1) as nat) + dt
    }
}

/// How long the Gaussian curve whose spectrum ends at `f_max` is sampled.
pub open spec fn gaussian_duration<S: Scalar>(f_max: S) -> S {
    S::of_nat_spec(12) * S::frac_1_pi_spec().over_spec(f_max)
}

/// The Gaussian curve whose spectrum ends at `f_max`, at the time `t`.
pub open spec fn gaussian<S: Scalar>(f_max: S, amplitude: S, t: S) -> S {
    let tau = S::frac_1_pi_spec().over_spec(f_max);
    let t_0 = S::of_nat_spec(6) * tau;
    amplitude * (-((t - t_0).over_spec(tau).powi_spec(2))).e_powf_spec()
}

impl<S: Scalar> Source<S> {
    /// Helper function that generates data points for a Gaussian curve with a maximum frequency of
    /// `f_max` (Hz).
    pub fn gaussian_max_f(f_max: &S, amplitude: &S, dt: &S) -> (r: Vec<S>)
        requires
            f_max.exceeds_spec(S::zero_spec()),
            dt.exceeds_spec(S::zero_spec()),
            gaussian_duration(*f_max).exceeds_spec(S::zero_spec()),
        ensures
            r.len() == gaussian_duration(*f_max).over_spec(*dt).to_count_spec(),
            forall|k: int|
                0 <= k < r.len() ==> #[trigger] r[k] == gaussian(
                    *f_max,
                    *amplitude,
                    sample_time(*dt, k as nat),
                ),
    {
        let tau: S = S::frac_1_pi().over(f_max);
        let t_0: S = S::of_nat(6).times(&tau);
        let approx_dur: S = S::of_nat(12).times(&tau);
        let curve = |t: &S| -> (v: S)
            ensures
                v == gaussian(*f_max, *amplitude, *t),
            { amplitude.times(&t.minus(&t_0).over(&tau).powi(2).negated().e_powf()) };
        Self::function_data_points(dt, &approx_dur, curve)
    }

    /// Samples data points from the function of time `f`
    pub fn function_data_points<F: Fn(&S) -> S>(dt: &S, duration: &S, f: F) -> (r: Vec<S>)
        requires
            dt.exceeds_spec(S::zero_spec()),
            duration.exceeds_spec(S::zero_spec()),
            forall|t: S| #[trigger] call_requires(f, (&t,)),
        ensures
            r.len() == duration.over_spec(*dt).to_count_spec(),
            forall|k: int|
                0 <= k < r.len() ==> call_ensures(
                    f,
                    (&sample_time(*dt, k as nat),),
                    #[trigger] r[k],
                ),
    {
        let num_vals: usize = duration.over(dt).to_count();
        let mut vals: Vec<S> = Vec::new();
        let mut t: S = S::zero();
        for i in 0..num_vals
            invariant
                forall|t: S| #[trigger] call_requires(f, (&t,)),
                vals.len() == i,
                t == sample_time(*dt, i as nat),
                forall|k: int|
                    0 <= k < vals.len() ==> call_ensures(
                        f,
                        (&sample_time(*dt, k as nat),),
                        #[trigger] vals[k],
                    ),
        {
            let val: S = f(&t);
            vals.push(val);
            t = t.plus(dt);
        }
        vals
    }
}

/// The data points of a signal are a time step apart, and the first one is at the start.
pub proof fn law_samples_are_a_step_apart<S: Scalar>(read: spec_fn(S) -> real, dt: S, k: nat)
    requires
        exact(read),
    ensures
        at(read, sample_time(dt, k)) == times(k as real, at(read, dt)),
    decreases k,
{
    let d = at(read, dt);
    lemma_unit(d);
    if k > 0 {
        let j: nat = (k - 1) as nat;
        law_samples_are_a_step_apart(read, dt, j);
        assert(k as real == j as real + 1 as real);
        lemma_distribute(d, j as real, 1 as real);
    }
}

/// The curve has its peak six widths `1 / (pi f_max)` behind the start. At `u` widths before or
/// behind the peak it has fallen to the amplitude times `e` to the power of `-u * u`.
pub proof fn law_gaussian_falls_off_from_its_peak<S: Scalar>(
    read: spec_fn(S) -> real,
    f_max: S,
    amplitude: S,
    t: S,
    u: real,
    fall: S,
)
    requires
        exact(read),
        at(read, f_max) != 0 as real,
        at(read, S::frac_1_pi_spec()) != 0 as real,
        at(read, t) == times(
            6 as real + u,
            over(at(read, S::frac_1_pi_spec()), at(read, f_max)),
        ),
        at(read, fall) == -times(u, u),
    ensures
        at(read, gaussian(f_max, amplitude, t)) == times(
            at(read, amplitude),
            at(read, fall.e_powf_spec()),
        ),
{
    let tau = S::frac_1_pi_spec().over_spec(f_max);
    let t_0 = S::of_nat_spec(6) * tau;
    let w = at(read, tau);
    lemma_quotient_other_than_zero(at(read, S::frac_1_pi_spec()), at(read, f_max));
    lemma_distribute(w, 6 as real, u);
    lemma_quotient(at(read, t - t_0), u, w);
    let x = (t - t_0).over_spec(tau);
    assert(at(read, x) == u);
    lemma_square(u);
    assert(at(read, -(x.powi_spec(2))) == at(read, fall));
}

/// The curve ends as high as it starts: it is sampled as far behind its peak as before it.
pub proof fn law_gaussian_ends_as_it_starts<S: Scalar>(
    read: spec_fn(S) -> real,
    f_max: S,
    amplitude: S,
)
    requires
        exact(read),
        at(read, f_max) != 0 as real,
        at(read, S::frac_1_pi_spec()) != 0 as real,
    ensures
        at(read, gaussian(f_max, amplitude, gaussian_duration(f_max))) == at(
            read,
            gaussian(f_max, amplitude, sample_time(S::one_spec(), 0)),
        ),
{
    let six = S::of_nat_spec(6);
    let fall = -(six * six);
    let w = over(at(read, S::frac_1_pi_spec()), at(read, f_max));
    lemma_unit(w);
    lemma_negated(6 as real, 6 as real);
    lemma_negated(6 as real, -(6 as real));
    law_gaussian_falls_off_from_its_peak(
        read,
        f_max,
        amplitude,
        gaussian_duration(f_max),
        6 as real,
        fall,
    );
    law_gaussian_falls_off_from_its_peak(
        read,
        f_max,
        amplitude,
        sample_time(S::one_spec(), 0),
        -(6 as real),
        fall,
    );
}

} // verus!
