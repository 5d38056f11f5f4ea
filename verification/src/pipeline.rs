//! The pipeline of a simulation: which kernels run in a step, and in which order.
use crate::axis::{spatial, Axis};
use crate::boundary_condition::{BoundaryCondition, CallArgs, PECBoundary};
use crate::host::{Fields, Kernel};
use crate::launch::{
    counting_cell, counts, in_time, launch_of, launch_ok, launched, pass_ok, passed, run_pass,
    steps_counted, sweep, Launch, Pass,
};
use crate::launch_laws::{
    fields_fit, law_conductor_clears_the_boundary, law_sources_reach_the_problem_space,
    law_update_is_one_step_in_time, over_cells,
};
use crate::scalar::Scalar;
use crate::state::FdtdLossyState;
use crate::vector::{UVec3, Vec4};
use vstd::prelude::*;

verus! {

/// The shader pipeline for running diagonal anisotropy simulation with UPML.
#[derive(Clone, Debug)]
pub struct FdtdLossyPipeline<BC> {
    pub boundary_condition: BC,
    pub num_steps_per_submission: usize,
}

/// The launches that prepare a simulation: the masks of the plane waves, if there are any.
pub open spec fn init_recorded<S>(c: FdtdLossyState<S>) -> Seq<Launch> {
    match c.tfsf_dispatch_data.mask_init_thread_count {
        Some(count) => seq![launch_of(Kernel::InitTfsfMasks, count@)],
        None => Seq::empty(),
    }
}

/// The launch of a step that lets the plane waves travel, if there are any.
pub open spec fn aux_recorded<S>(c: FdtdLossyState<S>) -> Seq<Launch> {
    match c.tfsf_dispatch_data.aux_grid_thread_count {
        Some(count) => seq![launch_of(Kernel::AuxGridUpdate, count@)],
        None => Seq::empty(),
    }
}

/// What the boundary condition of a simulation is called with.
pub open spec fn call_args<S>(c: FdtdLossyState<S>) -> CallArgs<S> {
    CallArgs { grid: c.grid_params, h: c.h, dn: c.dn, en: c.en, thread_count: c.thread_count }
}

/// The launches of a step behind those of the boundary condition: the plane waves, the source terms,
/// the fields.
pub open spec fn rest_recorded<S>(c: FdtdLossyState<S>) -> Seq<Launch> {
    aux_recorded(c) + seq![
        launch_of(Kernel::ComputeSourceTerms, c.thread_count@),
        launch_of(Kernel::LossyUpdate, c.thread_count@),
    ]
}

/// The launches of a step: the boundary condition, the plane waves, the source terms, the fields.
pub open spec fn step_recorded<S, E, BC: BoundaryCondition<S, E>>(
    bc: BC,
    c: FdtdLossyState<S>,
) -> Seq<Launch> {
    bc.recorded(call_args(c)) + rest_recorded(c)
}

/// The boundary condition after `k` calls.
pub open spec fn condition_after<S, E, BC: BoundaryCondition<S, E>>(
    bc: BC,
    c: FdtdLossyState<S>,
    k: nat,
) -> BC
    decreases k,
{
    if k == 0 {
        bc
    } else {
        condition_after::<S, E, BC>(bc, c, (k - 1) as nat).after_call(call_args(c))
    }
}

/// The launches of `k` steps.
pub open spec fn steps_recorded<S, E, BC: BoundaryCondition<S, E>>(
    bc: BC,
    c: FdtdLossyState<S>,
    k: nat,
) -> Seq<Launch>
    decreases k,
{
    if k == 0 {
        Seq::empty()
    } else {
        steps_recorded::<S, E, BC>(bc, c, (k - 1) as nat) + step_recorded::<S, E, BC>(
            condition_after::<S, E, BC>(bc, c, (k - 1) as nat),
            c,
        )
    }
}

/// What the call of the boundary condition behind `k` others returns.
pub open spec fn call_outcome<S, E, BC: BoundaryCondition<S, E>>(
    bc: BC,
    c: FdtdLossyState<S>,
    k: nat,
) -> Result<(), E> {
    condition_after::<S, E, BC>(bc, c, k).outcome(call_args(c))
}

/// How many of the first `n` calls of the boundary condition succeed before one fails.
pub open spec fn calls_succeeding<S, E, BC: BoundaryCondition<S, E>>(
    bc: BC,
    c: FdtdLossyState<S>,
    n: nat,
) -> nat
    decreases n,
{
    if n == 0 {
        0
    } else {
        let before = calls_succeeding::<S, E, BC>(bc, c, (n - 1) as nat);
        if before == n - 1 && call_outcome::<S, E, BC>(bc, c, before) is Ok {
            n
        } else {
            before
        }
    }
}

proof fn lemma_calls_succeeding<S, E, BC: BoundaryCondition<S, E>>(
    bc: BC,
    c: FdtdLossyState<S>,
    k: nat,
    n: nat,
)
    requires
        forall|i: nat| i < k ==> #[trigger] call_outcome::<S, E, BC>(bc, c, i) is Ok,
        k < n ==> call_outcome::<S, E, BC>(bc, c, k) is Err,
        k <= n,
    ensures
        calls_succeeding::<S, E, BC>(bc, c, n) == k,
    decreases n,
{
    if n > 0 {
        if k == n {
            assert(call_outcome::<S, E, BC>(bc, c, (n - 1) as nat) is Ok);
            lemma_calls_succeeding::<S, E, BC>(bc, c, (n - 1) as nat, (n - 1) as nat);
        } else {
            lemma_calls_succeeding::<S, E, BC>(bc, c, k, (n - 1) as nat);
        }
    }
}

impl<BC> FdtdLossyPipeline<BC> {
    pub fn new(boundary_condition: BC, num_steps_per_submission: usize) -> (r: Self)
        ensures
            r == (FdtdLossyPipeline { boundary_condition, num_steps_per_submission }),
    {
        FdtdLossyPipeline { boundary_condition, num_steps_per_submission }
    }

    /// A new pipeline, and the pass that prepares the simulation (see
    /// [`FdtdLossyPipeline::initialize`]).
    pub fn new_initialized<S>(
        boundary_condition: BC,
        num_steps_per_submission: usize,
        state: &FdtdLossyState<S>,
    ) -> (r: (Self, Pass))
        ensures
            r.0 == (FdtdLossyPipeline { boundary_condition, num_steps_per_submission }),
            r.1@ == init_recorded(*state),
    {
        let pipeline = Self::new(boundary_condition, num_steps_per_submission);
        let mut pass = Pass::new();
        pipeline.initialize(&mut pass, state);
        (pipeline, pass)
    }

    /// Record the launches that prepare a simulation.
    pub fn initialize<S>(&self, pass: &mut Pass, state: &FdtdLossyState<S>)
        ensures
            final(pass)@ == old(pass)@ + init_recorded(*state),
    {
        if let Some(thread_count) = state.tfsf_dispatch_data.mask_init_thread_count {
            pass.dispatch(Kernel::InitTfsfMasks, thread_count);
        }
    }

    /// Record the launches of `num_steps_per_submission` steps. The first error of the boundary
    /// condition is returned at once, and nothing is recorded behind it.
    pub fn dispatch_steps<S, E>(&mut self, pass: &mut Pass, state: &FdtdLossyState<S>) -> (r: Result<
        (),
        E,
    >)
        where BC: BoundaryCondition<S, E>,
        ensures
            ({
                let bc = old(self).boundary_condition;
                let n = old(self).num_steps_per_submission as nat;
                let k = calls_succeeding::<S, E, BC>(bc, *state, n);
                let steps = steps_recorded::<S, E, BC>(bc, *state, k);
                if k == n {
                    &&& r == Ok::<(), E>(())
                    &&& final(pass)@ == old(pass)@ + steps
                    &&& final(self).boundary_condition == condition_after::<S, E, BC>(bc, *state, n)
                } else {
                    &&& r is Err
                    &&& r == call_outcome::<S, E, BC>(bc, *state, k)
                    &&& final(pass)@ == old(pass)@ + steps + condition_after::<S, E, BC>(
                        bc,
                        *state,
                        k,
                    ).recorded(call_args(*state))
                    &&& final(self).boundary_condition == condition_after::<S, E, BC>(
                        bc,
                        *state,
                        k + 1,
                    )
                }
            }),
            final(self).num_steps_per_submission == old(self).num_steps_per_submission,
    {
        let ghost bc = self.boundary_condition;
        let ghost before = pass@;
        let num_steps: usize = self.num_steps_per_submission;
        let mut i: usize = 0;
        while i < num_steps
            invariant
                i <= num_steps,
                bc == old(self).boundary_condition,
                before == old(pass)@,
                num_steps == old(self).num_steps_per_submission,
                self.num_steps_per_submission == num_steps,
                self.boundary_condition == condition_after::<S, E, BC>(bc, *state, i as nat),
                pass@ == before + steps_recorded::<S, E, BC>(bc, *state, i as nat),
                forall|j: nat| j < i ==> #[trigger] call_outcome::<S, E, BC>(bc, *state, j) is Ok,
            decreases num_steps - i,
        {
            let called: Result<(), E> = self.boundary_condition.call(
                pass,
                &state.grid_params,
                &state.h,
                &state.dn,
                &state.en,
                state.thread_count,
            );
            assert(called == call_outcome::<S, E, BC>(bc, *state, i as nat));
            if called.is_err() {
                proof {
                    lemma_calls_succeeding::<S, E, BC>(
                        bc,
                        *state,
                        i as nat,
                        num_steps as nat,
                    );
                }
                return called;
            }
            if let Some(thread_count) = state.tfsf_dispatch_data.aux_grid_thread_count {
                pass.dispatch(Kernel::AuxGridUpdate, thread_count);
            }
            pass.dispatch(Kernel::ComputeSourceTerms, state.thread_count);
            pass.dispatch(Kernel::LossyUpdate, state.thread_count);
            i = i + 1;
        }
        proof {
            lemma_calls_succeeding::<S, E, BC>(bc, *state, num_steps as nat, num_steps as nat);
        }
        Ok(())
    }
}

/// How many of the launches update the fields.
pub open spec fn updates_in(launches: Seq<Launch>) -> nat
    decreases launches.len(),
{
    if launches.len() == 0 {
        0
    } else {
        let before = updates_in(launches.drop_last());
        if launches.last().kernel == Kernel::LossyUpdate {
            before + 1
        } else {
            before
        }
    }
}

proof fn lemma_updates_add_up(a: Seq<Launch>, b: Seq<Launch>)
    ensures
        updates_in(a + b) == updates_in(a) + updates_in(b),
    decreases b.len(),
{
    if b.len() == 0 {
        assert(a + b =~= a);
    } else {
        lemma_updates_add_up(a, b.drop_last());
        assert((a + b).drop_last() =~= a + b.drop_last());
        assert((a + b).last() == b.last());
    }
}

/// A boundary condition that does not update the fields itself leaves one update to every step.
pub proof fn law_every_step_updates_once<S, E, BC: BoundaryCondition<S, E>>(
    bc: BC,
    c: FdtdLossyState<S>,
    k: nat,
)
    requires
        forall|i: nat|
            i < k ==> updates_in(
                (#[trigger] condition_after::<S, E, BC>(bc, c, i)).recorded(call_args(c)),
            ) == 0,
    ensures
        updates_in(steps_recorded::<S, E, BC>(bc, c, k)) == k,
    decreases k,
{
    if k > 0 {
        law_every_step_updates_once::<S, E, BC>(bc, c, (k - 1) as nat);
        let now = condition_after::<S, E, BC>(bc, c, (k - 1) as nat);
        let own = now.recorded(call_args(c));
        let src = launch_of(Kernel::ComputeSourceTerms, c.thread_count@);
        let upd = launch_of(Kernel::LossyUpdate, c.thread_count@);
        lemma_updates_add_up(
            steps_recorded::<S, E, BC>(bc, c, (k - 1) as nat),
            step_recorded::<S, E, BC>(now, c),
        );
        lemma_updates_add_up(own, rest_recorded(c));
        lemma_updates_add_up(aux_recorded(c), seq![src, upd]);
        reveal_with_fuel(updates_in, 3);
        assert(seq![src, upd].drop_last() =~= seq![src]);
        assert(seq![src].drop_last() =~= Seq::empty());
        assert(aux_recorded(c).len() == 1 ==> aux_recorded(c).drop_last() =~= Seq::empty());
    }
}

/// Where the call number `k` of the boundary condition is the first to fail, `k - 1` steps are
/// recorded, and behind them only what the failing call recorded itself. If the condition does not
/// update the fields, these are `k - 1` updates in all.
pub proof fn law_failing_call_ends_the_steps<S, E, BC: BoundaryCondition<S, E>>(
    bc: BC,
    c: FdtdLossyState<S>,
    k: nat,
    n: nat,
)
    requires
        1 <= k <= n,
        forall|i: nat| i < k - 1 ==> #[trigger] call_outcome::<S, E, BC>(bc, c, i) is Ok,
        call_outcome::<S, E, BC>(bc, c, (k - 1) as nat) is Err,
    ensures
        calls_succeeding::<S, E, BC>(bc, c, n) == k - 1,
        (forall|i: nat|
            i < k ==> updates_in(
                (#[trigger] condition_after::<S, E, BC>(bc, c, i)).recorded(call_args(c)),
            ) == 0) ==> updates_in(
            steps_recorded::<S, E, BC>(bc, c, (k - 1) as nat) + condition_after::<S, E, BC>(
                bc,
                c,
                (k - 1) as nat,
            ).recorded(call_args(c)),
        ) == k - 1,
{
    lemma_calls_succeeding::<S, E, BC>(bc, c, (k - 1) as nat, n);
    lemma_updates_add_up(
        steps_recorded::<S, E, BC>(bc, c, (k - 1) as nat),
        condition_after::<S, E, BC>(bc, c, (k - 1) as nat).recorded(call_args(c)),
    );
    if forall|i: nat|
        i < k ==> updates_in(
            (#[trigger] condition_after::<S, E, BC>(bc, c, i)).recorded(call_args(c)),
        ) == 0 {
        law_every_step_updates_once::<S, E, BC>(bc, c, (k - 1) as nat);
    }
}

/// Launches that run one after the other do the same as those of two passes.
pub proof fn law_passes_can_be_joined<S: Scalar>(
    c: FdtdLossyState<S>,
    a: Seq<Launch>,
    b: Seq<Launch>,
    f: Fields<S>,
)
    ensures
        passed(c, a + b, f) == passed(c, b, passed(c, a, f)),
        steps_counted(c, a + b) == steps_counted(c, a) + steps_counted(c, b),
    decreases b.len(),
{
    if b.len() == 0 {
        assert(a + b =~= a);
    } else {
        law_passes_can_be_joined(c, a, b.drop_last(), f);
        assert((a + b).drop_last() =~= a + b.drop_last());
        assert((a + b).last() == b.last());
    }
}

/// It does not matter how the steps are divided into submissions.
pub proof fn law_submissions_can_be_divided<S, E, BC: BoundaryCondition<S, E>>(
    bc: BC,
    c: FdtdLossyState<S>,
    j: nat,
    k: nat,
)
    ensures
        steps_recorded::<S, E, BC>(bc, c, j + k) == steps_recorded::<S, E, BC>(bc, c, j) + steps_recorded::<S, E, BC>(
            condition_after::<S, E, BC>(bc, c, j),
            c,
            k,
        ),
        condition_after::<S, E, BC>(bc, c, j + k) == condition_after::<S, E, BC>(condition_after::<S, E, BC>(bc, c, j), c, k),
    decreases k,
{
    let after = condition_after::<S, E, BC>(bc, c, j);
    if k == 0 {
        assert(steps_recorded::<S, E, BC>(bc, c, j) + steps_recorded::<S, E, BC>(after, c, 0) =~= steps_recorded::<S, E, BC>(bc, c, j));
    } else {
        law_submissions_can_be_divided::<S, E, BC>(bc, c, j, (k - 1) as nat);
        assert((j + k - 1) as nat == j + (k - 1) as nat);
        assert(steps_recorded::<S, E, BC>(bc, c, j + k) =~= steps_recorded::<S, E, BC>(bc, c, j) + steps_recorded::<S, E, BC>(
            after,
            c,
            k,
        ));
    }
}

/// What a step makes of the plane waves.
pub open spec fn waves_travelled<S: Scalar>(c: FdtdLossyState<S>, f: Fields<S>) -> Fields<S> {
    match c.tfsf_dispatch_data.aux_grid_thread_count {
        Some(count) => launched(c, launch_of(Kernel::AuxGridUpdate, count@), f),
        None => f,
    }
}

/// What a step inside a conducting boundary makes of the fields.
pub open spec fn stepped<S: Scalar>(c: FdtdLossyState<S>, f: Fields<S>) -> Fields<S> {
    let cleared = launched(c, over_cells(c, Kernel::PecBoundary), f);
    let driven = launched(
        c,
        over_cells(c, Kernel::ComputeSourceTerms),
        waves_travelled(c, cleared),
    );
    launched(c, over_cells(c, Kernel::LossyUpdate), driven)
}

/// The launches of a step inside a conducting boundary.
pub open spec fn conductor_step<S>(c: FdtdLossyState<S>) -> Seq<Launch> {
    step_recorded::<S, (), PECBoundary>(PECBoundary {  }, c)
}

/// The launches of `k` steps inside a conducting boundary.
pub open spec fn conductor_steps<S>(c: FdtdLossyState<S>, k: nat) -> Seq<Launch> {
    steps_recorded::<S, (), PECBoundary>(PECBoundary {  }, c, k)
}

/// The launches of a step inside a conducting boundary do one step.
pub proof fn law_a_step_is_recorded_in_order<S: Scalar>(c: FdtdLossyState<S>, f: Fields<S>)
    requires
        c.wf(),
    ensures
        passed(c, conductor_step(c), f) == stepped(c, f),
        steps_counted(c, conductor_step(c)) == if c.grid_params.inner(
            counting_cell(c),
        ) {
            1nat
        } else {
            0
        },
{
    let all = conductor_step(c);
    let pec = over_cells(c, Kernel::PecBoundary);
    let src = over_cells(c, Kernel::ComputeSourceTerms);
    let upd = over_cells(c, Kernel::LossyUpdate);
    let aux = aux_recorded(c);
    assert(all =~= seq![pec] + aux + seq![src, upd]);
    law_passes_can_be_joined(c, seq![pec] + aux, seq![src, upd], f);
    law_passes_can_be_joined(c, seq![pec], aux, f);
    lemma_passed_one(c, pec, f);
    let f2 = passed(c, seq![pec] + aux, f);
    assert(seq![src, upd].drop_last() =~= seq![src]);
    lemma_passed_one(c, src, f2);
    match c.tfsf_dispatch_data.aux_grid_thread_count {
        Some(count) => {
            lemma_passed_one(c, launch_of(Kernel::AuxGridUpdate, count@), passed(c, seq![pec], f));
        },
        None => {},
    }
}

proof fn lemma_passed_one<S: Scalar>(c: FdtdLossyState<S>, launch: Launch, f: Fields<S>)
    ensures
        passed(c, seq![launch], f) == launched(c, launch, f),
        steps_counted(c, seq![launch]) == if counts(c, launch) {
            1nat
        } else {
            0
        },
{
    let one = seq![launch];
    assert(one.drop_last() =~= Seq::empty());
    assert(one.last() == launch);
    reveal_with_fuel(passed, 2);
    reveal_with_fuel(steps_counted, 2);
}

/// The plane waves travel without touching the fields of the grid.
proof fn lemma_waves_keep_the_fields<S: Scalar>(
    c: FdtdLossyState<S>,
    launch: Launch,
    f: Fields<S>,
    k: nat,
)
    requires
        launch.kernel == Kernel::AuxGridUpdate,
    ensures
        ({
            let r = sweep(c, launch, f, k);
            &&& r.h == f.h
            &&& r.dn == f.dn
            &&& r.en == f.en
            &&& r.source_terms == f.source_terms
            &&& r.int_terms == f.int_terms
            &&& r.t_idx == f.t_idx
            &&& r.masks == f.masks
        }),
    decreases k,
{
    if k > 0 {
        lemma_waves_keep_the_fields(c, launch, f, (k - 1) as nat);
    }
}

/// After a step inside a conducting boundary, the fields are zero on the boundary.
proof fn lemma_step_keeps_the_boundary<S: Scalar>(
    c: FdtdLossyState<S>,
    f: Fields<S>,
    cell: UVec3,
)
    requires
        fields_fit(c, f),
        cell.below(c.grid_params.n_cells3),
    ensures
        ({
            let r = stepped(c, f);
            let i = c.grid_params.place(cell);
            &&& fields_fit(c, r)
            &&& c.grid_params.on_boundary(cell) ==> r.h[i] == Vec4::<S>::zero_spec() && r.dn[i]
                == Vec4::<S>::zero_spec() && r.en[i] == Vec4::<S>::zero_spec()
        }),
{
    law_conductor_clears_the_boundary(c, f, cell);
    let cleared = launched(c, over_cells(c, Kernel::PecBoundary), f);
    match c.tfsf_dispatch_data.aux_grid_thread_count {
        Some(count) => {
            let launch = launch_of(Kernel::AuxGridUpdate, count@);
            lemma_waves_keep_the_fields(
                c,
                launch,
                cleared,
                launch.threads.product_spec() as nat,
            );
        },
        None => {},
    }
    let travelled = waves_travelled(c, cleared);
    law_sources_reach_the_problem_space(c, travelled, cell);
    let driven = launched(c, over_cells(c, Kernel::ComputeSourceTerms), travelled);
    law_update_is_one_step_in_time(c, driven, cell);
}

/// However many steps are done inside a conducting boundary, the fields are zero on the boundary
/// afterwards.
pub proof fn law_boundary_stays_zero<S: Scalar>(
    c: FdtdLossyState<S>,
    f: Fields<S>,
    k: nat,
    cell: UVec3,
)
    requires
        c.wf(),
        fields_fit(c, f),
        k >= 1,
        cell.below(c.grid_params.n_cells3),
        c.grid_params.on_boundary(cell),
    ensures
        ({
            let r = passed(c, conductor_steps(c, k), f);
            let i = c.grid_params.place(cell);
            &&& fields_fit(c, r)
            &&& r.h[i] == Vec4::<S>::zero_spec()
            &&& r.dn[i] == Vec4::<S>::zero_spec()
            &&& r.en[i] == Vec4::<S>::zero_spec()
        }),
    decreases k,
{
    let before = conductor_steps(c, (k - 1) as nat);
    lemma_conductor_does_not_change(c, (k - 1) as nat);
    law_passes_can_be_joined(c, before, conductor_step(c), f);
    law_a_step_is_recorded_in_order(c, passed(c, before, f));
    if k > 1 {
        law_boundary_stays_zero(c, f, (k - 1) as nat, cell);
    }
    lemma_step_keeps_the_boundary(c, passed(c, before, f), cell);
}

proof fn lemma_conductor_does_not_change<S>(c: FdtdLossyState<S>, k: nat)
    ensures
        condition_after::<S, (), PECBoundary>(PECBoundary {  }, c, k) == (PECBoundary {  }),
    decreases k,
{
    if k > 0 {
        lemma_conductor_does_not_change(c, (k - 1) as nat);
    }
}

proof fn lemma_conductor_does_not_fail<S>(c: FdtdLossyState<S>, n: nat)
    ensures
        calls_succeeding::<S, (), PECBoundary>(PECBoundary {  }, c, n) == n,
    decreases n,
{
    if n > 0 {
        lemma_conductor_does_not_fail(c, (n - 1) as nat);
    }
}

/// The grid is at least three cells wide along every spatial axis.
pub open spec fn three_cells_wide<S>(c: FdtdLossyState<S>) -> bool {
    let n = c.grid_params.n_cells3;
    &&& spatial(c.grid_params.dim, Axis::X) ==> n.x >= 3
    &&& spatial(c.grid_params.dim, Axis::Y) ==> n.y >= 3
    &&& spatial(c.grid_params.dim, Axis::Z) ==> n.z >= 3
}

/// The counter rises by one in every step, where the grid has inner cells, and those are there
/// where it is at least three cells wide.
pub proof fn law_every_step_is_counted<S: Scalar>(c: FdtdLossyState<S>, k: nat)
    requires
        c.wf(),
    ensures
        steps_counted(c, conductor_steps(c, k)) == if c.grid_params.inner(
            counting_cell(c),
        ) {
            k
        } else {
            0
        },
        c.grid_params.inner(counting_cell(c)) <==> three_cells_wide(c),
    decreases k,
{
    if k > 0 {
            law_every_step_is_counted(c, (k - 1) as nat);
        lemma_conductor_does_not_change(c, (k - 1) as nat);
        let before = conductor_steps(c, (k - 1) as nat);
        law_passes_can_be_joined(c, before, conductor_step(c), c.fields());
        law_a_step_is_recorded_in_order(c, c.fields());
    }
}

/// A running simulation can be run further, as long as the steps can be counted.
#[verifier::spinoff_prover]
#[verifier::rlimit(40)]
pub proof fn law_steps_can_be_run<S: Scalar>(c: FdtdLossyState<S>, k: nat)
    requires
        c.wf(),
        c.source_vals@.len() + c.t_idx + k <= u32::MAX,
    ensures
        pass_ok(c, conductor_steps(c, k)),
    decreases k,
{
    if k > 0 {
            let before = conductor_steps(c, (k - 1) as nat);
        let step = conductor_step(c);
        let all = conductor_steps(c, k);
        lemma_conductor_does_not_change(c, (k - 1) as nat);
        law_steps_can_be_run(c, (k - 1) as nat);
        law_every_step_is_counted(c, (k - 1) as nat);
        assert(all == before + step);
        assert forall|i: int| 0 <= i < all.len() implies {
            &&& launch_ok(c, #[trigger] all[i])
            &&& in_time(c, all[i], c.t_idx + steps_counted(c, all.take(i)))
        } by {
            if i < before.len() {
                assert(all[i] == before[i]);
                assert(all.take(i) =~= before.take(i));
            } else {
                let j = i - before.len();
                assert(all[i] == step[j]);
                assert(all.take(i) =~= before + step.take(j));
                law_passes_can_be_joined(c, before, step.take(j), c.fields());
                lemma_no_step_counted(c, step.take(j));
            }
        }
    }
}

proof fn lemma_no_step_counted<S: Scalar>(c: FdtdLossyState<S>, launches: Seq<Launch>)
    requires
        forall|i: int| 0 <= i < launches.len() ==> !counts(c, #[trigger] launches[i]),
    ensures
        steps_counted(c, launches) == 0,
    decreases launches.len(),
{
    if launches.len() > 0 {
        lemma_no_step_counted(c, launches.drop_last());
    }
}

/// The masks of the plane waves can be prepared.
pub proof fn law_initialization_can_be_run<S: Scalar>(c: FdtdLossyState<S>)
    ensures
        pass_ok(c, init_recorded(c)),
{
}

impl FdtdLossyPipeline<PECBoundary> {
    /// Run a submission of `num_steps_per_submission` steps on the host. `false` means that so many
    /// steps cannot be counted any more, and that nothing was run.
    pub fn run_submission<S: Scalar>(&mut self, state: &mut FdtdLossyState<S>) -> (r: bool)
        requires
            old(state).wf(),
        ensures
            *final(self) == *old(self),
            ({
                let steps = old(self).num_steps_per_submission as nat;
                let was = *old(state);
                &&& r == (was.source_vals@.len() + was.t_idx + steps <= u32::MAX)
                &&& r ==> {
                    &&& final(state).wf()
                    &&& final(state).same_setup(was)
                    &&& final(state).fields() == passed(
                        was,
                        conductor_steps(was, steps),
                        was.fields(),
                    )
                    &&& final(state).t_idx == was.t_idx + if three_cells_wide(was) {
                        steps
                    } else {
                        0
                    }
                }
                &&& !r ==> *final(state) == was
            }),
    {
        let num_steps: usize = self.num_steps_per_submission;
        let most: usize = u32::MAX as usize;
        if state.source_vals.len() > most || state.t_idx as usize > most - state.source_vals.len()
            || num_steps > most - state.source_vals.len() - state.t_idx as usize {
            return false;
        }
        let mut pass = Pass::new();
        let _recorded: Result<(), ()> = self.dispatch_steps(&mut pass, state);
        proof {
            let steps = num_steps as nat;
            lemma_conductor_does_not_change(*state, steps);
            lemma_conductor_does_not_fail(*state, steps);
            law_steps_can_be_run(*state, steps);
            law_every_step_is_counted(*state, steps);
            assert(pass@ =~= conductor_steps(*state, steps));
        }
        run_pass(state, &pass);
        true
    }

    /// Prepare a simulation on the host.
    pub fn run_initialization<S: Scalar>(&self, state: &mut FdtdLossyState<S>)
        requires
            old(state).wf(),
        ensures
            final(state).wf(),
            final(state).same_setup(*old(state)),
            final(state).fields() == passed(
                *old(state),
                init_recorded(*old(state)),
                old(state).fields(),
            ),
            final(state).t_idx == old(state).t_idx,
    {
        let mut pass = Pass::new();
        self.initialize(&mut pass, state);
        proof {
            law_initialization_can_be_run(*state);
            lemma_no_step_counted(*state, init_recorded(*state));
            assert(pass@ =~= init_recorded(*state));
        }
        run_pass(state, &pass);
    }
}

} // verus!
