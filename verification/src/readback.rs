//! Reading the fields of a simulation back from the device that runs it.
use crate::axis::{Axis, Dim};
use crate::exact::{at, exact, exact_roots, times};
use crate::polarization::{lemma_length, sum_of_squares};
use crate::scalar::Scalar;
use crate::state::FdtdLossyState;
use crate::vector::Vec4;
use vstd::prelude::*;

verus! {

/// The components that a 1D or 2D simulation computes.
#[derive(Copy, Clone, Debug, PartialEq, Eq, Structural)]
pub enum FdtdSimulationMode {
    /// 1D: E along Y, H along X.
    EyHx,
    /// 1D: E along X, H along Y.
    ExHy,
    /// 2D: H in the plane, E across it.
    TransverseMagneticZ,
    /// 2D: E in the plane, H across it.
    TransverseElectricZ,
}

impl FdtdSimulationMode {
    /// The number of spatial axes of the simulations that have this mode.
    pub open spec fn dim(self) -> Dim {
        match self {
            FdtdSimulationMode::EyHx | FdtdSimulationMode::ExHy => Dim::One,
            _ => Dim::Two,
        }
    }
}

/// `mode` is a mode of simulations with `dim` spatial axes; in 3D there is only one.
pub open spec fn mode_of(dim: Dim, mode: Option<FdtdSimulationMode>) -> bool {
    match mode {
        Some(m) => m.dim() == dim,
        None => dim == Dim::Three,
    }
}

/// What came of a copy that was asked for.
#[derive(Clone, Debug)]
pub enum Reply<S> {
    /// The device has not finished it.
    Pending,
    /// It arrived.
    Arrived(Vec<Vec4<S>>),
    /// It will never arrive.
    Lost,
}

/// A field on the host, and whether a copy of it is on its way.
#[derive(Clone, Debug)]
pub struct FieldReadback<S> {
    pub field: Vec<Vec4<S>>,
    pub in_flight: bool,
}

impl<S: Scalar> FieldReadback<S> {
    fn new(cell_count: usize) -> (r: Self)
        ensures
            !r.in_flight,
            r.field@ == Seq::new(cell_count as nat, |i: int| Vec4::<S>::zero_spec()),
    {
        let mut field: Vec<Vec4<S>> = Vec::new();
        while field.len() < cell_count
            invariant
                field.len() <= cell_count,
                forall|i: int| 0 <= i < field.len() ==> #[trigger] field[i] == Vec4::<S>::zero_spec(),
            decreases cell_count - field.len(),
        {
            field.push(Vec4::zero());
        }
        assert(field@ =~= Seq::new(cell_count as nat, |i: int| Vec4::<S>::zero_spec()));
        FieldReadback { field, in_flight: false }
    }

    /// Ask for a copy. `true` means that it has to be started: no other is on its way.
    pub fn request_copy(&mut self) -> (r: bool)
        ensures
            r == !old(self).in_flight,
            final(self).in_flight,
            final(self).field@ == old(self).field@,
    {
        let idle = !self.in_flight;
        self.in_flight = true;
        idle
    }

    /// The field after a reply.
    pub open spec fn after(self, reply: Reply<S>) -> Seq<Vec4<S>> {
        match reply {
            Reply::Arrived(v) if self.in_flight => v@,
            _ => self.field@,
        }
    }

    /// The reply ends the wait for a copy.
    pub open spec fn ends_with(self, reply: Reply<S>) -> bool {
        self.in_flight && !(reply is Pending)
    }

    /// Take the reply to a request over. `true` means that the wait is over.
    pub fn try_take(&mut self, reply: Reply<S>) -> (r: bool)
        requires
            reply matches Reply::Arrived(v) ==> v.len() == old(self).field.len(),
        ensures
            r == old(self).ends_with(reply),
            final(self).field@ == old(self).after(reply),
            final(self).field.len() == old(self).field.len(),
            final(self).in_flight == (old(self).in_flight && !r),
    {
        if !self.in_flight {
            return false;
        }
        match reply {
            Reply::Pending => false,
            Reply::Arrived(v) => {
                self.field = v;
                self.in_flight = false;
                true
            },
            Reply::Lost => {
                self.in_flight = false;
                true
            },
        }
    }
}

/// Utility struct for reading back vector field data to the host device (CPU):
///
/// Follow these steps to get data:
/// 1. Use the request functions (e.g. [`request_copy_dn`](Self::request_copy_dn), [`request_copy_fields`](Self::request_copy_fields))
///    to initiate readback.
/// 2. Use the read-back functions to take the copies over (e.g. [`try_read_back_dn`](Self::try_read_back_dn), [`try_read_back_fields`](Self::try_read_back_fields))
/// 3. Get vector field data using the appropriate functions
///    (e.g. [`get_dn_field`](Self::get_dn_field), [`dn_magnitudes`](Self::dn_magnitudes), [`h_magnitudes`](Self::h_magnitudes))
#[derive(Clone, Debug)]
pub struct FdtdStateReadback<S> {
    pub h: FieldReadback<S>,
    pub dn: FieldReadback<S>,
    pub en: FieldReadback<S>,
    /// [`None`] in 3D.
    pub mode: Option<FdtdSimulationMode>,
}

/// The length of the part of `v` in the plane.
pub open spec fn length_xy<S: Scalar>(v: Vec4<S>) -> S {
    (v.x * v.x + v.y * v.y).sqrt_spec()
}

/// The magnitude of an H vector: the component itself where only one is computed.
pub open spec fn h_magnitude<S: Scalar>(mode: Option<FdtdSimulationMode>, v: Vec4<S>) -> S {
    match mode {
        None => v.length_spec(),
        Some(FdtdSimulationMode::EyHx) => v.x,
        Some(FdtdSimulationMode::ExHy) => v.y,
        Some(FdtdSimulationMode::TransverseMagneticZ) => length_xy(v),
        Some(FdtdSimulationMode::TransverseElectricZ) => v.z,
    }
}

/// The magnitude of a D or E vector: the component itself where only one is computed.
pub open spec fn e_magnitude<S: Scalar>(mode: Option<FdtdSimulationMode>, v: Vec4<S>) -> S {
    match mode {
        None => v.length_spec(),
        Some(FdtdSimulationMode::EyHx) => v.y,
        Some(FdtdSimulationMode::ExHy) => v.x,
        Some(FdtdSimulationMode::TransverseMagneticZ) => v.z,
        Some(FdtdSimulationMode::TransverseElectricZ) => length_xy(v),
    }
}

fn compute_length_xy<S: Scalar>(v: &Vec4<S>) -> (r: S)
    ensures
        r == length_xy(*v),
{
    v.x.times(&v.x).plus(&v.y.times(&v.y)).sqrt()
}

fn compute_h_magnitude<S: Scalar>(mode: Option<FdtdSimulationMode>, v: &Vec4<S>) -> (r: S)
    ensures
        r == h_magnitude(mode, *v),
{
    match mode {
        None => v.length(),
        Some(FdtdSimulationMode::EyHx) => v.x.dup(),
        Some(FdtdSimulationMode::ExHy) => v.y.dup(),
        Some(FdtdSimulationMode::TransverseMagneticZ) => compute_length_xy(v),
        Some(FdtdSimulationMode::TransverseElectricZ) => v.z.dup(),
    }
}

fn compute_e_magnitude<S: Scalar>(mode: Option<FdtdSimulationMode>, v: &Vec4<S>) -> (r: S)
    ensures
        r == e_magnitude(mode, *v),
{
    match mode {
        None => v.length(),
        Some(FdtdSimulationMode::EyHx) => v.y.dup(),
        Some(FdtdSimulationMode::ExHy) => v.x.dup(),
        Some(FdtdSimulationMode::TransverseMagneticZ) => v.z.dup(),
        Some(FdtdSimulationMode::TransverseElectricZ) => compute_length_xy(v),
    }
}

fn compute_e_magnitudes<S: Scalar>(
    mode: Option<FdtdSimulationMode>,
    field: &Vec<Vec4<S>>,
) -> (r: Vec<S>)
    ensures
        r@ == Seq::new(field@.len(), |i: int| e_magnitude(mode, field[i])),
{
    let mut r: Vec<S> = Vec::new();
    let mut i: usize = 0;
    while i < field.len()
        invariant
            i <= field.len(),
            r.len() == i,
            forall|k: int| 0 <= k < r.len() ==> #[trigger] r[k] == e_magnitude(mode, field[k]),
        decreases field.len() - i,
    {
        r.push(compute_e_magnitude(mode, &field[i]));
        i = i + 1;
    }
    r
}

impl<S: Scalar> FdtdStateReadback<S> {
    /// No copy is asked for yet, and the fields on the host are zero.
    pub fn new(state: &FdtdLossyState<S>, mode: Option<FdtdSimulationMode>) -> (r: Self)
        requires
            state.wf(),
            mode_of(state.grid_params.dim, mode),
        ensures
            r.mode == mode,
            !r.h.in_flight && !r.dn.in_flight && !r.en.in_flight,
            r.h.field@ == Seq::new(state.h@.len(), |i: int| Vec4::<S>::zero_spec()),
            r.dn.field@ == r.h.field@,
            r.en.field@ == r.h.field@,
    {
        proof {
            let n = state.n_cells.cells3();
            assert(n.x * n.y <= n.x * n.y * n.z) by (nonlinear_arith)
                requires
                    n.z >= 1,
            ;
        }
        let cell_count: usize = state.n_cells.element_product() as usize;
        FdtdStateReadback {
            h: FieldReadback::new(cell_count),
            dn: FieldReadback::new(cell_count),
            en: FieldReadback::new(cell_count),
            mode,
        }
    }

    /// Ask for a copy of the H field. `true` means that it has to be started.
    pub fn request_copy_h(&mut self) -> (r: bool)
        ensures
            r == !old(self).h.in_flight,
            final(self).h.in_flight,
            final(self).h.field@ == old(self).h.field@,
            *final(self) == (FdtdStateReadback { h: final(self).h, ..*old(self) }),
    {
        self.h.request_copy()
    }

    /// Ask for a copy of the D field. `true` means that it has to be started.
    pub fn request_copy_dn(&mut self) -> (r: bool)
        ensures
            r == !old(self).dn.in_flight,
            final(self).dn.in_flight,
            final(self).dn.field@ == old(self).dn.field@,
            *final(self) == (FdtdStateReadback { dn: final(self).dn, ..*old(self) }),
    {
        self.dn.request_copy()
    }

    /// Ask for a copy of the E field. `true` means that it has to be started.
    pub fn request_copy_en(&mut self) -> (r: bool)
        ensures
            r == !old(self).en.in_flight,
            final(self).en.in_flight,
            final(self).en.field@ == old(self).en.field@,
            *final(self) == (FdtdStateReadback { en: final(self).en, ..*old(self) }),
    {
        self.en.request_copy()
    }

    /// Ask for copies of the H, D and E fields, and say which have to be started.
    pub fn request_copy_fields(&mut self) -> (r: (bool, bool, bool))
        ensures
            r == (!old(self).h.in_flight, !old(self).dn.in_flight, !old(self).en.in_flight),
            final(self).h.in_flight && final(self).dn.in_flight && final(self).en.in_flight,
            final(self).h.field@ == old(self).h.field@,
            final(self).dn.field@ == old(self).dn.field@,
            final(self).en.field@ == old(self).en.field@,
            final(self).mode == old(self).mode,
    {
        let h = self.request_copy_h();
        let dn = self.request_copy_dn();
        let en = self.request_copy_en();
        (h, dn, en)
    }

    /// Take the reply for the H field over. `true` means that the wait is over.
    pub fn try_read_back_h(&mut self, reply: Reply<S>) -> (r: bool)
        requires
            reply matches Reply::Arrived(v) ==> v.len() == old(self).h.field.len(),
        ensures
            r == old(self).h.ends_with(reply),
            final(self).h.field@ == old(self).h.after(reply),
            final(self).h.in_flight == (old(self).h.in_flight && !r),
            *final(self) == (FdtdStateReadback { h: final(self).h, ..*old(self) }),
    {
        self.h.try_take(reply)
    }

    /// Take the reply for the D field over. `true` means that the wait is over.
    pub fn try_read_back_dn(&mut self, reply: Reply<S>) -> (r: bool)
        requires
            reply matches Reply::Arrived(v) ==> v.len() == old(self).dn.field.len(),
        ensures
            r == old(self).dn.ends_with(reply),
            final(self).dn.field@ == old(self).dn.after(reply),
            final(self).dn.in_flight == (old(self).dn.in_flight && !r),
            *final(self) == (FdtdStateReadback { dn: final(self).dn, ..*old(self) }),
    {
        self.dn.try_take(reply)
    }

    /// Take the reply for the E field over. `true` means that the wait is over.
    pub fn try_read_back_en(&mut self, reply: Reply<S>) -> (r: bool)
        requires
            reply matches Reply::Arrived(v) ==> v.len() == old(self).en.field.len(),
        ensures
            r == old(self).en.ends_with(reply),
            final(self).en.field@ == old(self).en.after(reply),
            final(self).en.in_flight == (old(self).en.in_flight && !r),
            *final(self) == (FdtdStateReadback { en: final(self).en, ..*old(self) }),
    {
        self.en.try_take(reply)
    }

    /// Take the replies over, up to the first field that has to be waited for. `true` means that
    /// the wait is over for all of them.
    pub fn try_read_back_fields(&mut self, h: Reply<S>, dn: Reply<S>, en: Reply<S>) -> (r: bool)
        requires
            h matches Reply::Arrived(v) ==> v.len() == old(self).h.field.len(),
            dn matches Reply::Arrived(v) ==> v.len() == old(self).dn.field.len(),
            en matches Reply::Arrived(v) ==> v.len() == old(self).en.field.len(),
        ensures
            ({
                let was = *old(self);
                let h_over = was.h.ends_with(h);
                let dn_over = h_over && was.dn.ends_with(dn);
                let en_over = dn_over && was.en.ends_with(en);
                &&& r == en_over
                &&& final(self).h.field@ == was.h.after(h)
                &&& final(self).dn.field@ == if h_over { was.dn.after(dn) } else { was.dn.field@ }
                &&& final(self).en.field@ == if dn_over { was.en.after(en) } else { was.en.field@ }
                &&& final(self).h.in_flight == (was.h.in_flight && !h_over)
                &&& final(self).dn.in_flight == (was.dn.in_flight && !dn_over)
                &&& final(self).en.in_flight == (was.en.in_flight && !en_over)
                &&& final(self).mode == was.mode
            }),
    {
        self.try_read_back_h(h) && self.try_read_back_dn(dn) && self.try_read_back_en(en)
    }

    pub fn get_h_field(&self) -> (r: &Vec<Vec4<S>>)
        ensures
            *r == self.h.field,
    {
        &self.h.field
    }

    pub fn get_dn_field(&self) -> (r: &Vec<Vec4<S>>)
        ensures
            *r == self.dn.field,
    {
        &self.dn.field
    }

    pub fn get_en_field(&self) -> (r: &Vec<Vec4<S>>)
        ensures
            *r == self.en.field,
    {
        &self.en.field
    }

    /// Get magnitudes of the H vector field.
    pub fn h_magnitudes(&self) -> (r: Vec<S>)
        ensures
            r@ == Seq::new(
                self.h.field@.len(),
                |i: int| h_magnitude(self.mode, self.h.field[i]),
            ),
    {
        let field: &Vec<Vec4<S>> = &self.h.field;
        let mut r: Vec<S> = Vec::new();
        let mut i: usize = 0;
        while i < field.len()
            invariant
                i <= field.len(),
                r.len() == i,
                forall|k: int|
                    0 <= k < r.len() ==> #[trigger] r[k] == h_magnitude(self.mode, field[k]),
            decreases field.len() - i,
        {
            r.push(compute_h_magnitude(self.mode, &field[i]));
            i = i + 1;
        }
        r
    }

    /// Get magnitudes of the Dn vector field.
    pub fn dn_magnitudes(&self) -> (r: Vec<S>)
        ensures
            r@ == Seq::new(
                self.dn.field@.len(),
                |i: int| e_magnitude(self.mode, self.dn.field[i]),
            ),
    {
        compute_e_magnitudes(self.mode, &self.dn.field)
    }

    /// Get magnitudes of the En vector field.
    pub fn en_magnitudes(&self) -> (r: Vec<S>)
        ensures
            r@ == Seq::new(
                self.en.field@.len(),
                |i: int| e_magnitude(self.mode, self.en.field[i]),
            ),
    {
        compute_e_magnitudes(self.mode, &self.en.field)
    }
}

/// A copy that was asked for and arrives is what is read afterwards, and the next one can be asked
/// for.
pub proof fn law_a_requested_copy_is_read<S: Scalar>(r: FieldReadback<S>, v: Vec<Vec4<S>>)
    requires
        r.in_flight,
    ensures
        r.after(Reply::Arrived(v)) == v@,
        r.ends_with(Reply::Arrived(v)),
{
}

/// The axes along which a mode computes the H field and the E field.
pub open spec fn computed_axes(mode: Option<FdtdSimulationMode>) -> (Seq<Axis>, Seq<Axis>) {
    let all = seq![Axis::X, Axis::Y, Axis::Z];
    match mode {
        None => (all, all),
        Some(FdtdSimulationMode::EyHx) => (seq![Axis::X], seq![Axis::Y]),
        Some(FdtdSimulationMode::ExHy) => (seq![Axis::Y], seq![Axis::X]),
        Some(FdtdSimulationMode::TransverseMagneticZ) => (seq![Axis::X, Axis::Y], seq![Axis::Z]),
        Some(FdtdSimulationMode::TransverseElectricZ) => (seq![Axis::Z], seq![Axis::X, Axis::Y]),
    }
}

/// The square of a magnitude is the sum of the squares of the components that the mode computes of
/// the field.
pub proof fn law_magnitudes_are_lengths<S: Scalar>(
    read: spec_fn(S) -> real,
    mode: Option<FdtdSimulationMode>,
    v: Vec4<S>,
)
    requires
        exact(read),
        exact_roots(read),
        at(read, v.w) == 0 as real,
    ensures
        ({
            let (h_axes, e_axes) = computed_axes(mode);
            let (h, e) = (at(read, h_magnitude(mode, v)), at(read, e_magnitude(mode, v)));
            &&& times(h, h) == sum_of_squares(read, v, h_axes, h_axes.len())
            &&& times(e, e) == sum_of_squares(read, v, e_axes, e_axes.len())
        }),
{
    reveal_with_fuel(sum_of_squares, 4);
    lemma_length(read, v);
}

} // verus!
