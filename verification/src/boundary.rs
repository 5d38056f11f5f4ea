//! Boundary conditions that are chosen for each axis.
use crate::axis::SpatialAxis;
use crate::host::Kernel;
use crate::launch::{launch_of, Launches, Pass};
use crate::state::FdtdLossyState;
use vstd::prelude::*;

verus! {

/// When a boundary condition runs.
#[derive(Copy, Clone, Debug, PartialEq, Eq, Structural)]
pub enum Stage {
    /// Before the simulation is run.
    Initialize,
    /// Before updating the H field in each step.
    PreUpdate,
    /// Before updating the D and E fields in each step.
    BeforeDeUpdate,
}

/// A marker for an axis that the sides of the grid lie across.
pub trait BoundaryAxis {
}

/// The sides across the X axis.
pub struct X;

impl BoundaryAxis for X {
}

/// The sides across the Y axis.
pub struct Y;

impl BoundaryAxis for Y {
}

/// The sides across the Z axis.
pub struct Z;

impl BoundaryAxis for Z {
}

/// A condition on the two sides of the grid across an axis. Each stage of it can fail with an error
/// `E`.
pub trait BoundaryCondition<A: BoundaryAxis, S, E>: Sized {
    /// The launches that the condition records in a stage. A stage that fails may have recorded some.
    spec fn recorded(self, stage: Stage, state: FdtdLossyState<S>) -> Launches;

    /// What a stage returns.
    spec fn outcome(self, stage: Stage, state: FdtdLossyState<S>) -> Result<(), E>;

    /// The condition after a stage.
    spec fn after(self, stage: Stage, state: FdtdLossyState<S>) -> Self;

    /// Runs before the simulation is run.
    fn initialize(&mut self, pass: &mut Pass, state: &FdtdLossyState<S>) -> (r: Result<(), E>)
        ensures
            final(pass)@ == old(pass)@ + old(self).recorded(Stage::Initialize, *state),
            *final(self) == old(self).after(Stage::Initialize, *state),
            r == old(self).outcome(Stage::Initialize, *state),
    ;

    /// Runs before updating the H field in each step.
    fn pre_update(&mut self, pass: &mut Pass, state: &FdtdLossyState<S>) -> (r: Result<(), E>)
        ensures
            final(pass)@ == old(pass)@ + old(self).recorded(Stage::PreUpdate, *state),
            *final(self) == old(self).after(Stage::PreUpdate, *state),
            r == old(self).outcome(Stage::PreUpdate, *state),
    ;

    /// Runs before updating the D and E fields in each step, right after the update of the H field.
    fn before_de_update(&mut self, pass: &mut Pass, state: &FdtdLossyState<S>) -> (r: Result<(), E>)
        ensures
            final(pass)@ == old(pass)@ + old(self).recorded(Stage::BeforeDeUpdate, *state),
            *final(self) == old(self).after(Stage::BeforeDeUpdate, *state),
            r == old(self).outcome(Stage::BeforeDeUpdate, *state),
    ;
}

/// Nothing to do along an axis that is not spatial.
impl<A: BoundaryAxis, S, E> BoundaryCondition<A, S, E> for () {
    open spec fn recorded(self, stage: Stage, state: FdtdLossyState<S>) -> Launches {
        Seq::empty()
    }

    open spec fn outcome(self, stage: Stage, state: FdtdLossyState<S>) -> Result<(), E> {
        Ok(())
    }

    open spec fn after(self, stage: Stage, state: FdtdLossyState<S>) -> Self {
        self
    }

    fn initialize(&mut self, pass: &mut Pass, state: &FdtdLossyState<S>) -> (r: Result<(), E>) {
        Ok(())
    }

    fn pre_update(&mut self, pass: &mut Pass, state: &FdtdLossyState<S>) -> (r: Result<(), E>) {
        Ok(())
    }

    fn before_de_update(&mut self, pass: &mut Pass, state: &FdtdLossyState<S>) -> (r: Result<
        (),
        E,
    >) {
        Ok(())
    }
}

/// All boundary conditions of a simulation.
pub struct BoundaryConditions<BX, BY, BZ> {
    pub x_boundary: BX,
    pub y_boundary: BY,
    pub z_boundary: BZ,
}

/// What the conditions along the axes return together: the first error, if there is one.
pub open spec fn outcome_of<
    S,
    E,
    BX: BoundaryCondition<X, S, E>,
    BY: BoundaryCondition<Y, S, E>,
    BZ: BoundaryCondition<Z, S, E>,
>(b: BoundaryConditions<BX, BY, BZ>, stage: Stage, state: FdtdLossyState<S>) -> Result<(), E> {
    if b.x_boundary.outcome(stage, state) is Err {
        b.x_boundary.outcome(stage, state)
    } else if b.y_boundary.outcome(stage, state) is Err {
        b.y_boundary.outcome(stage, state)
    } else {
        b.z_boundary.outcome(stage, state)
    }
}

/// The launches of a stage: those of the X axis, then of the Y axis, then of the Z axis. Behind the
/// first error nothing is recorded.
pub open spec fn recorded_by<
    S,
    E,
    BX: BoundaryCondition<X, S, E>,
    BY: BoundaryCondition<Y, S, E>,
    BZ: BoundaryCondition<Z, S, E>,
>(b: BoundaryConditions<BX, BY, BZ>, stage: Stage, state: FdtdLossyState<S>) -> Launches {
    let x = b.x_boundary.recorded(stage, state);
    let y = b.y_boundary.recorded(stage, state);
    let z = b.z_boundary.recorded(stage, state);
    if b.x_boundary.outcome(stage, state) is Err {
        x
    } else if b.y_boundary.outcome(stage, state) is Err {
        x + y
    } else {
        x + y + z
    }
}

/// The conditions after a stage. Those behind the first error are as they were.
pub open spec fn conditions_after<
    S,
    E,
    BX: BoundaryCondition<X, S, E>,
    BY: BoundaryCondition<Y, S, E>,
    BZ: BoundaryCondition<Z, S, E>,
>(b: BoundaryConditions<BX, BY, BZ>, stage: Stage, state: FdtdLossyState<S>) -> BoundaryConditions<
    BX,
    BY,
    BZ,
> {
    let x = b.x_boundary.after(stage, state);
    let y = b.y_boundary.after(stage, state);
    let z = b.z_boundary.after(stage, state);
    if b.x_boundary.outcome(stage, state) is Err {
        BoundaryConditions { x_boundary: x, ..b }
    } else if b.y_boundary.outcome(stage, state) is Err {
        BoundaryConditions { x_boundary: x, y_boundary: y, ..b }
    } else {
        BoundaryConditions { x_boundary: x, y_boundary: y, z_boundary: z }
    }
}

impl<BX, BY, BZ> BoundaryConditions<BX, BY, BZ> {
    pub fn initialize<S, E>(&mut self, pass: &mut Pass, state: &FdtdLossyState<S>) -> (r: Result<(), E>)
        where
            BX: BoundaryCondition<X, S, E>,
            BY: BoundaryCondition<Y, S, E>,
            BZ: BoundaryCondition<Z, S, E>,
        ensures
            r == outcome_of::<S, E, BX, BY, BZ>(*old(self), Stage::Initialize, *state),
            final(pass)@ == old(pass)@ + recorded_by::<S, E, BX, BY, BZ>(
                *old(self),
                Stage::Initialize,
                *state,
            ),
            *final(self) == conditions_after::<S, E, BX, BY, BZ>(
                *old(self),
                Stage::Initialize,
                *state,
            ),
    {
        let x: Result<(), E> = self.x_boundary.initialize(pass, state);
        if x.is_err() {
            return x;
        }
        let y: Result<(), E> = self.y_boundary.initialize(pass, state);
        if y.is_err() {
            return y;
        }
        self.z_boundary.initialize(pass, state)
    }

    pub fn pre_update<S, E>(&mut self, pass: &mut Pass, state: &FdtdLossyState<S>) -> (r: Result<(), E>)
        where
            BX: BoundaryCondition<X, S, E>,
            BY: BoundaryCondition<Y, S, E>,
            BZ: BoundaryCondition<Z, S, E>,
        ensures
            r == outcome_of::<S, E, BX, BY, BZ>(*old(self), Stage::PreUpdate, *state),
            final(pass)@ == old(pass)@ + recorded_by::<S, E, BX, BY, BZ>(
                *old(self),
                Stage::PreUpdate,
                *state,
            ),
            *final(self) == conditions_after::<S, E, BX, BY, BZ>(
                *old(self),
                Stage::PreUpdate,
                *state,
            ),
    {
        let x: Result<(), E> = self.x_boundary.pre_update(pass, state);
        if x.is_err() {
            return x;
        }
        let y: Result<(), E> = self.y_boundary.pre_update(pass, state);
        if y.is_err() {
            return y;
        }
        self.z_boundary.pre_update(pass, state)
    }

    pub fn before_de_update<S, E>(&mut self, pass: &mut Pass, state: &FdtdLossyState<S>) -> (r: Result<(), E>)
        where
            BX: BoundaryCondition<X, S, E>,
            BY: BoundaryCondition<Y, S, E>,
            BZ: BoundaryCondition<Z, S, E>,
        ensures
            r == outcome_of::<S, E, BX, BY, BZ>(*old(self), Stage::BeforeDeUpdate, *state),
            final(pass)@ == old(pass)@ + recorded_by::<S, E, BX, BY, BZ>(
                *old(self),
                Stage::BeforeDeUpdate,
                *state,
            ),
            *final(self) == conditions_after::<S, E, BX, BY, BZ>(
                *old(self),
                Stage::BeforeDeUpdate,
                *state,
            ),
    {
        let x: Result<(), E> = self.x_boundary.before_de_update(pass, state);
        if x.is_err() {
            return x;
        }
        let y: Result<(), E> = self.y_boundary.before_de_update(pass, state);
        if y.is_err() {
            return y;
        }
        self.z_boundary.before_de_update(pass, state)
    }

    /// The conditions on all sides of a 3D grid.
    pub fn new(x_boundary: BX, y_boundary: BY, z_boundary: BZ) -> (r: Self)
        ensures
            r == (BoundaryConditions { x_boundary, y_boundary, z_boundary }),
    {
        BoundaryConditions { x_boundary, y_boundary, z_boundary }
    }
}

impl<BZ> BoundaryConditions<(), (), BZ> {
    /// The conditions at the two ends of a 1D grid.
    pub fn new_1d(z_boundary: BZ) -> (r: Self)
        ensures
            r == (BoundaryConditions { x_boundary: (), y_boundary: (), z_boundary }),
    {
        BoundaryConditions { x_boundary: (), y_boundary: (), z_boundary }
    }
}

impl<BX, BY> BoundaryConditions<BX, BY, ()> {
    /// The conditions on the four sides of a 2D grid.
    pub fn new_2d(x_boundary: BX, y_boundary: BY) -> (r: Self)
        ensures
            r == (BoundaryConditions { x_boundary, y_boundary, z_boundary: () }),
    {
        BoundaryConditions { x_boundary, y_boundary, z_boundary: () }
    }
}

/// What a conductor across `axis` records: its coefficients are prepared once, and nothing is left
/// to do in a step.
pub open spec fn conductor_recorded(
    axis: SpatialAxis,
    stage: Stage,
    thread_count: Seq<u32>,
) -> Launches {
    if stage == Stage::Initialize {
        seq![launch_of(Kernel::PecBoundaryInit(axis), thread_count)]
    } else {
        Seq::empty()
    }
}

/// What a periodic boundary across `axis` records: the E field is wrapped before the H field is
/// updated, and the H field before the E field is.
pub open spec fn periodic_recorded(
    axis: SpatialAxis,
    stage: Stage,
    thread_count: Seq<u32>,
) -> Launches {
    match stage {
        Stage::Initialize => Seq::empty(),
        Stage::PreUpdate => seq![launch_of(Kernel::PeriodicEn(axis), thread_count)],
        Stage::BeforeDeUpdate => seq![launch_of(Kernel::PeriodicH(axis), thread_count)],
    }
}

/// A perfect electric conductor on the sides across the X axis.
#[derive(Copy, Clone, Debug)]
pub struct PECBoundaryX {}

impl<S, E> BoundaryCondition<X, S, E> for PECBoundaryX {
    open spec fn recorded(self, stage: Stage, state: FdtdLossyState<S>) -> Launches {
        conductor_recorded(SpatialAxis::X, stage, state.thread_count@)
    }

    open spec fn outcome(self, stage: Stage, state: FdtdLossyState<S>) -> Result<(), E> {
        Ok(())
    }

    open spec fn after(self, stage: Stage, state: FdtdLossyState<S>) -> Self {
        self
    }

    fn initialize(&mut self, pass: &mut Pass, state: &FdtdLossyState<S>) -> (r: Result<(), E>) {
        pass.dispatch(Kernel::PecBoundaryInit(SpatialAxis::X), state.thread_count);
        Ok(())
    }

    fn pre_update(&mut self, pass: &mut Pass, state: &FdtdLossyState<S>) -> (r: Result<(), E>) {
        Ok(())
    }

    fn before_de_update(&mut self, pass: &mut Pass, state: &FdtdLossyState<S>) -> (r: Result<
        (),
        E,
    >) {
        Ok(())
    }
}

/// The sides across the X axis are joined.
#[derive(Copy, Clone, Debug)]
pub struct PeriodicBoundaryX {}

impl<S, E> BoundaryCondition<X, S, E> for PeriodicBoundaryX {
    open spec fn recorded(self, stage: Stage, state: FdtdLossyState<S>) -> Launches {
        periodic_recorded(SpatialAxis::X, stage, state.thread_count@)
    }

    open spec fn outcome(self, stage: Stage, state: FdtdLossyState<S>) -> Result<(), E> {
        Ok(())
    }

    open spec fn after(self, stage: Stage, state: FdtdLossyState<S>) -> Self {
        self
    }

    fn initialize(&mut self, pass: &mut Pass, state: &FdtdLossyState<S>) -> (r: Result<(), E>) {
        Ok(())
    }

    fn pre_update(&mut self, pass: &mut Pass, state: &FdtdLossyState<S>) -> (r: Result<(), E>) {
        pass.dispatch(Kernel::PeriodicEn(SpatialAxis::X), state.thread_count);
        Ok(())
    }

    fn before_de_update(&mut self, pass: &mut Pass, state: &FdtdLossyState<S>) -> (r: Result<
        (),
        E,
    >) {
        pass.dispatch(Kernel::PeriodicH(SpatialAxis::X), state.thread_count);
        Ok(())
    }
}

/// A perfect electric conductor on the sides across the Y axis.
#[derive(Copy, Clone, Debug)]
pub struct PECBoundaryY {}

impl<S, E> BoundaryCondition<Y, S, E> for PECBoundaryY {
    open spec fn recorded(self, stage: Stage, state: FdtdLossyState<S>) -> Launches {
        conductor_recorded(SpatialAxis::Y, stage, state.thread_count@)
    }

    open spec fn outcome(self, stage: Stage, state: FdtdLossyState<S>) -> Result<(), E> {
        Ok(())
    }

    open spec fn after(self, stage: Stage, state: FdtdLossyState<S>) -> Self {
        self
    }

    fn initialize(&mut self, pass: &mut Pass, state: &FdtdLossyState<S>) -> (r: Result<(), E>) {
        pass.dispatch(Kernel::PecBoundaryInit(SpatialAxis::Y), state.thread_count);
        Ok(())
    }

    fn pre_update(&mut self, pass: &mut Pass, state: &FdtdLossyState<S>) -> (r: Result<(), E>) {
        Ok(())
    }

    fn before_de_update(&mut self, pass: &mut Pass, state: &FdtdLossyState<S>) -> (r: Result<
        (),
        E,
    >) {
        Ok(())
    }
}

/// The sides across the Y axis are joined.
#[derive(Copy, Clone, Debug)]
pub struct PeriodicBoundaryY {}

impl<S, E> BoundaryCondition<Y, S, E> for PeriodicBoundaryY {
    open spec fn recorded(self, stage: Stage, state: FdtdLossyState<S>) -> Launches {
        periodic_recorded(SpatialAxis::Y, stage, state.thread_count@)
    }

    open spec fn outcome(self, stage: Stage, state: FdtdLossyState<S>) -> Result<(), E> {
        Ok(())
    }

    open spec fn after(self, stage: Stage, state: FdtdLossyState<S>) -> Self {
        self
    }

    fn initialize(&mut self, pass: &mut Pass, state: &FdtdLossyState<S>) -> (r: Result<(), E>) {
        Ok(())
    }

    fn pre_update(&mut self, pass: &mut Pass, state: &FdtdLossyState<S>) -> (r: Result<(), E>) {
        pass.dispatch(Kernel::PeriodicEn(SpatialAxis::Y), state.thread_count);
        Ok(())
    }

    fn before_de_update(&mut self, pass: &mut Pass, state: &FdtdLossyState<S>) -> (r: Result<
        (),
        E,
    >) {
        pass.dispatch(Kernel::PeriodicH(SpatialAxis::Y), state.thread_count);
        Ok(())
    }
}

/// A perfect electric conductor on the sides across the Z axis.
#[derive(Copy, Clone, Debug)]
pub struct PECBoundaryZ {}

impl<S, E> BoundaryCondition<Z, S, E> for PECBoundaryZ {
    open spec fn recorded(self, stage: Stage, state: FdtdLossyState<S>) -> Launches {
        conductor_recorded(SpatialAxis::Z, stage, state.thread_count@)
    }

    open spec fn outcome(self, stage: Stage, state: FdtdLossyState<S>) -> Result<(), E> {
        Ok(())
    }

    open spec fn after(self, stage: Stage, state: FdtdLossyState<S>) -> Self {
        self
    }

    fn initialize(&mut self, pass: &mut Pass, state: &FdtdLossyState<S>) -> (r: Result<(), E>) {
        pass.dispatch(Kernel::PecBoundaryInit(SpatialAxis::Z), state.thread_count);
        Ok(())
    }

    fn pre_update(&mut self, pass: &mut Pass, state: &FdtdLossyState<S>) -> (r: Result<(), E>) {
        Ok(())
    }

    fn before_de_update(&mut self, pass: &mut Pass, state: &FdtdLossyState<S>) -> (r: Result<
        (),
        E,
    >) {
        Ok(())
    }
}

/// The sides across the Z axis are joined.
#[derive(Copy, Clone, Debug)]
pub struct PeriodicBoundaryZ {}

impl<S, E> BoundaryCondition<Z, S, E> for PeriodicBoundaryZ {
    open spec fn recorded(self, stage: Stage, state: FdtdLossyState<S>) -> Launches {
        periodic_recorded(SpatialAxis::Z, stage, state.thread_count@)
    }

    open spec fn outcome(self, stage: Stage, state: FdtdLossyState<S>) -> Result<(), E> {
        Ok(())
    }

    open spec fn after(self, stage: Stage, state: FdtdLossyState<S>) -> Self {
        self
    }

    fn initialize(&mut self, pass: &mut Pass, state: &FdtdLossyState<S>) -> (r: Result<(), E>) {
        Ok(())
    }

    fn pre_update(&mut self, pass: &mut Pass, state: &FdtdLossyState<S>) -> (r: Result<(), E>) {
        pass.dispatch(Kernel::PeriodicEn(SpatialAxis::Z), state.thread_count);
        Ok(())
    }

    fn before_de_update(&mut self, pass: &mut Pass, state: &FdtdLossyState<S>) -> (r: Result<
        (),
        E,
    >) {
        pass.dispatch(Kernel::PeriodicH(SpatialAxis::Z), state.thread_count);
        Ok(())
    }
}

/// The conditions along the axes fail together exactly where one of them does, with the error of the
/// first one that does. What they record is the beginning of what all three would record, and all of
/// it where none fails.
pub proof fn law_first_failing_condition_ends_the_stage<
    S,
    E,
    BX: BoundaryCondition<X, S, E>,
    BY: BoundaryCondition<Y, S, E>,
    BZ: BoundaryCondition<Z, S, E>,
>(b: BoundaryConditions<BX, BY, BZ>, stage: Stage, state: FdtdLossyState<S>)
    ensures
        ({
            let outcome = outcome_of::<S, E, BX, BY, BZ>(b, stage, state);
            let (x, y, z) = (
                b.x_boundary.outcome(stage, state),
                b.y_boundary.outcome(stage, state),
                b.z_boundary.outcome(stage, state),
            );
            let all = b.x_boundary.recorded(stage, state) + b.y_boundary.recorded(stage, state)
                + b.z_boundary.recorded(stage, state);
            let recorded = recorded_by::<S, E, BX, BY, BZ>(b, stage, state);
            let after = conditions_after::<S, E, BX, BY, BZ>(b, stage, state);
            &&& outcome is Err <==> x is Err || y is Err || z is Err
            &&& x is Err ==> outcome == x
            &&& x is Ok && y is Err ==> outcome == y
            &&& x is Ok && y is Ok && z is Err ==> outcome == z
            &&& recorded.is_prefix_of(all)
            &&& outcome is Ok ==> recorded == all
            &&& after.x_boundary == b.x_boundary.after(stage, state)
            &&& after.y_boundary == if x is Err {
                b.y_boundary
            } else {
                b.y_boundary.after(stage, state)
            }
            &&& after.z_boundary == if x is Err || y is Err {
                b.z_boundary
            } else {
                b.z_boundary.after(stage, state)
            }
        }),
{
    let x = b.x_boundary.recorded(stage, state);
    let y = b.y_boundary.recorded(stage, state);
    let z = b.z_boundary.recorded(stage, state);
    assert(x.is_prefix_of(x + y + z));
    assert((x + y).is_prefix_of(x + y + z));
}

/// A periodic boundary prepares nothing; before H is updated it wraps the E field along its own axis,
/// and before E is updated the H field, and nothing else. A conductor is prepared once and then left
/// alone.
pub proof fn law_stages_have_their_launches(
    axis: SpatialAxis,
    stage: Stage,
    thread_count: Seq<u32>,
    launch: crate::launch::Launch,
)
    ensures
        periodic_recorded(axis, stage, thread_count).contains(launch) <==> launch.threads
            == launch_of(launch.kernel, thread_count).threads && match launch.kernel {
            Kernel::PeriodicEn(a) => a == axis && stage == Stage::PreUpdate,
            Kernel::PeriodicH(a) => a == axis && stage == Stage::BeforeDeUpdate,
            _ => false,
        },
        conductor_recorded(axis, stage, thread_count).contains(launch) <==> launch.threads
            == launch_of(launch.kernel, thread_count).threads && launch.kernel
            == Kernel::PecBoundaryInit(axis) && stage == Stage::Initialize,
        periodic_recorded(axis, stage, thread_count).len() <= 1,
        conductor_recorded(axis, stage, thread_count).len() <= 1,
{
    let p = periodic_recorded(axis, stage, thread_count);
    let q = conductor_recorded(axis, stage, thread_count);
    assert(p.len() == 1 ==> (p.contains(launch) <==> p[0] == launch)) by {
        if p.contains(launch) {
            let i = choose|i: int| 0 <= i < p.len() && p[i] == launch;
        }
    }
    assert(q.len() == 1 ==> (q.contains(launch) <==> q[0] == launch)) by {
        if q.contains(launch) {
            let i = choose|i: int| 0 <= i < q.len() && q[i] == launch;
        }
    }
}

} // verus!
