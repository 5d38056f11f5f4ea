//! Launches: a kernel runs with many threads, and a pass is a list of launches in order.
use crate::axis::{spatial, Axis};
use crate::host::{counts_step, run_thread, thread_effect, Fields, Kernel};
use crate::index::{flat3, law_flat_to_cell_and_back, lemma_flat3_bounds, lemma_unflat3, GridIndex};
use crate::scalar::Scalar;
use crate::state::FdtdLossyState;
use crate::vector::UVec3;
use vstd::prelude::*;

verus! {

/// A kernel, and the number of threads along the axes that it runs with.
#[derive(Copy, Clone, Debug, PartialEq, Eq, Structural)]
pub struct Launch {
    pub kernel: Kernel,
    pub threads: UVec3,
}

/// Launches, in the order in which they run.
pub type Launches = Seq<Launch>;

/// The launches of a pass, in the order in which they run.
#[derive(Clone, Debug)]
pub struct Pass {
    pub launches: Vec<Launch>,
}

impl View for Pass {
    type V = Seq<Launch>;

    open spec fn view(&self) -> Seq<Launch> {
        self.launches@
    }
}

impl Pass {
    /// A pass without launches.
    pub fn new() -> (r: Self)
        ensures
            r@ == Seq::<Launch>::empty(),
    {
        Pass { launches: Vec::new() }
    }

    /// Record a launch behind the others.
    pub fn dispatch(&mut self, kernel: Kernel, thread_count: [u32; 3])
        ensures
            final(self)@ == old(self)@.push(launch_of(kernel, thread_count@)),
    {
        let threads = UVec3::new(thread_count[0], thread_count[1], thread_count[2]);
        self.launches.push(Launch { kernel, threads });
    }
}

/// The launch of a kernel with the numbers of threads in `count`.
pub open spec fn launch_of(kernel: Kernel, count: Seq<u32>) -> Launch {
    Launch { kernel, threads: UVec3 { x: count[0], y: count[1], z: count[2] } }
}

/// The thread that comes after `k` others.
pub open spec fn thread_at(threads: UVec3, k: int) -> UVec3 {
    UVec3 {
        x: (k % threads.x as int) as u32,
        y: ((k / threads.x as int) % threads.y as int) as u32,
        z: (k / (threads.x * threads.y)) as u32,
    }
}

/// What the first `k` threads make of the fields `f`.
pub open spec fn sweep<S: Scalar>(
    c: FdtdLossyState<S>,
    launch: Launch,
    f: Fields<S>,
    k: nat,
) -> Fields<S>
    decreases k,
{
    if k == 0 {
        f
    } else {
        thread_effect(
            c,
            launch.kernel,
            sweep(c, launch, f, (k - 1) as nat),
            thread_at(launch.threads, k - 1),
        )
    }
}

/// What a launch makes of the fields `f`.
pub open spec fn launched<S: Scalar>(
    c: FdtdLossyState<S>,
    launch: Launch,
    f: Fields<S>,
) -> Fields<S> {
    sweep(c, launch, f, launch.threads.product_spec() as nat)
}

/// What the launches make of the fields `f`, one after the other.
pub open spec fn passed<S: Scalar>(
    c: FdtdLossyState<S>,
    launches: Seq<Launch>,
    f: Fields<S>,
) -> Fields<S>
    decreases launches.len(),
{
    if launches.len() == 0 {
        f
    } else {
        launched(c, launches.last(), passed(c, launches.drop_last(), f))
    }
}

/// The inner cell that counts the steps.
pub open spec fn counting_cell<S>(c: FdtdLossyState<S>) -> UVec3 {
    let dim = c.grid_params.dim;
    UVec3 {
        x: if spatial(dim, Axis::X) { 1 } else { 0 },
        y: if spatial(dim, Axis::Y) { 1 } else { 0 },
        z: if spatial(dim, Axis::Z) { 1 } else { 0 },
    }
}

/// The launch counts a step.
pub open spec fn counts<S: Scalar>(c: FdtdLossyState<S>, launch: Launch) -> bool {
    &&& launch.kernel == Kernel::LossyUpdate
    &&& c.grid_params.inner(counting_cell(c))
    &&& counting_cell(c).below(launch.threads)
}

/// How many of the launches count a step.
pub open spec fn steps_counted<S: Scalar>(c: FdtdLossyState<S>, launches: Seq<Launch>) -> nat
    decreases launches.len(),
{
    if launches.len() == 0 {
        0
    } else {
        let before = steps_counted(c, launches.drop_last());
        if counts(c, launches.last()) {
            before + 1
        } else {
            before
        }
    }
}

/// The step counter after `k` threads: one thread of a launch counts, and only once.
proof fn lemma_sweep_clock<S: Scalar>(
    c: FdtdLossyState<S>,
    launch: Launch,
    f: Fields<S>,
    k: nat,
)
    requires
        c.grid_params.wf(),
        counts(c, launch) ==> f.t_idx < u32::MAX,
        k <= launch.threads.product_spec(),
    ensures
        sweep(c, launch, f, k).t_idx == f.t_idx + if counts(c, launch) && flat3(
            counting_cell(c),
            launch.threads,
        ) < k {
            1int
        } else {
            0
        },
    decreases k,
{
    if k > 0 {
        lemma_sweep_clock(c, launch, f, (k - 1) as nat);
        lemma_thread_at(launch.threads, k - 1);
        let thread = thread_at(launch.threads, k - 1);
        let cell = counting_cell(c);
        if counts_step(c, launch.kernel, thread) {
            assert(thread == cell);
        }
        if counts(c, launch) {
            lemma_unflat3(cell, launch.threads);
        }
    }
}

/// The thread that comes after `k` others is one of the launch, and `k` is its place.
pub proof fn lemma_thread_at(threads: UVec3, k: int)
    requires
        0 <= k < threads.product_spec(),
    ensures
        thread_at(threads, k).below(threads),
        flat3(thread_at(threads, k), threads) == k,
{
    let n = GridIndex::Three(threads.x, threads.y, threads.z);
    law_flat_to_cell_and_back(k, n);
    assert(GridIndex::unflat(k, n).cell3() == thread_at(threads, k));
}

/// The launch can run on the host, and every thread of it has its buffers.
pub open spec fn launch_ok<S: Scalar>(c: FdtdLossyState<S>, launch: Launch) -> bool {
    &&& c.launchable(launch.kernel)
    &&& launch.kernel == Kernel::AuxGridUpdate ==> launch.threads.x
        <= c.tfsf_dispatch_data.tfsf_sources@.len()
}

/// The launch can run at step `t`: the values of the signals, and the step itself, can be counted.
pub open spec fn in_time<S: Scalar>(c: FdtdLossyState<S>, launch: Launch, t: int) -> bool {
    &&& c.reads_signals(launch.kernel) ==> c.clock_fits(t)
    &&& counts(c, launch) ==> t < u32::MAX
}

/// The launches can run on the host one after the other.
pub open spec fn pass_ok<S: Scalar>(c: FdtdLossyState<S>, launches: Seq<Launch>) -> bool {
    forall|i: int|
        0 <= i < launches.len() ==> {
            &&& launch_ok(c, #[trigger] launches[i])
            &&& in_time(c, launches[i], c.t_idx + steps_counted(c, launches.take(i)))
        }
}

/// What a thread does depends on the setup alone.
proof fn lemma_same_setup<S: Scalar>(
    a: FdtdLossyState<S>,
    b: FdtdLossyState<S>,
    kernel: Kernel,
    f: Fields<S>,
    thread: UVec3,
)
    requires
        a.same_setup(b),
    ensures
        thread_effect(a, kernel, f, thread) == thread_effect(b, kernel, f, thread),
{
}

/// Run a launch, one thread after the other: along X first, then along Y, then along Z.
pub fn run_launch<S: Scalar>(state: &mut FdtdLossyState<S>, launch: &Launch)
    requires
        old(state).wf(),
        launch_ok(*old(state), *launch),
        in_time(*old(state), *launch, old(state).t_idx as int),
    ensures
        final(state).wf(),
        final(state).same_setup(*old(state)),
        final(state).fields() == launched(*old(state), *launch, old(state).fields()),
        final(state).t_idx == old(state).t_idx + if counts(*old(state), *launch) {
            1int
        } else {
            0
        },
{
    let ghost c = *state;
    let ghost f = state.fields();
    let t: UVec3 = launch.threads;
    let mut z: u32 = 0;
    while z < t.z
        invariant
            z <= t.z,
            t == launch.threads,
            state.wf(),
            state.same_setup(c),
            launch_ok(c, *launch),
            c.grid_params.wf(),
            f == c.fields(),
            in_time(c, *launch, c.t_idx as int),
            0 <= z * t.x * t.y <= t.product_spec(),
            state.fields() == sweep(c, *launch, f, (z * t.x * t.y) as nat),
        decreases t.z - z,
    {
        let mut y: u32 = 0;
        while y < t.y
            invariant
                z < t.z,
                y <= t.y,
                t == launch.threads,
                state.wf(),
                state.same_setup(c),
                launch_ok(c, *launch),
                c.grid_params.wf(),
                f == c.fields(),
                in_time(c, *launch, c.t_idx as int),
                0 <= z * t.x * t.y,
                state.fields() == sweep(c, *launch, f, (z * t.x * t.y + y * t.x) as nat),
            decreases t.y - y,
        {
            let mut x: u32 = 0;
            while x < t.x
                invariant
                    z < t.z,
                    y < t.y,
                    x <= t.x,
                    t == launch.threads,
                    state.wf(),
                    state.same_setup(c),
                    launch_ok(c, *launch),
                    c.grid_params.wf(),
                    f == c.fields(),
                    in_time(c, *launch, c.t_idx as int),
                    0 <= z * t.x * t.y,
                    0 <= y * t.x,
                    state.fields() == sweep(c, *launch, f, (z * t.x * t.y + y * t.x + x) as nat),
                decreases t.x - x,
            {
                let thread = UVec3::new(x, y, z);
                let ghost k = flat3(thread, t);
                proof {
                    lemma_flat3_bounds(thread, t);
                    lemma_unflat3(thread, t);
                    assert(thread_at(t, k) == thread);
                    lemma_sweep_clock(c, *launch, f, k as nat);
                    if counts_step(c, launch.kernel, thread) {
                        assert(thread == counting_cell(c));
                    }
                    lemma_same_setup(*state, c, launch.kernel, state.fields(), thread);
                }
                run_thread(state, launch.kernel, thread);
                x = x + 1;
            }
            proof {
                assert(z * t.x * t.y + (y + 1) * t.x == z * t.x * t.y + y * t.x + t.x)
                    by (nonlinear_arith);
            }
            y = y + 1;
        }
        proof {
            assert((z + 1) * t.x * t.y == z * t.x * t.y + t.y * t.x) by (nonlinear_arith);
            assert(0 <= (z + 1) * t.x * t.y <= t.x * t.y * t.z) by (nonlinear_arith)
                requires
                    z < t.z,
            ;
        }
        z = z + 1;
    }
    proof {
        assert(t.z * t.x * t.y == t.x * t.y * t.z) by (nonlinear_arith);
        lemma_sweep_clock(c, *launch, f, t.product_spec() as nat);
        if counts(c, *launch) {
            lemma_flat3_bounds(counting_cell(c), t);
        }
    }
}

/// What a launch makes of the fields depends on the setup alone.
proof fn lemma_sweep_same_setup<S: Scalar>(
    a: FdtdLossyState<S>,
    b: FdtdLossyState<S>,
    launch: Launch,
    f: Fields<S>,
    k: nat,
)
    requires
        a.same_setup(b),
    ensures
        sweep(a, launch, f, k) == sweep(b, launch, f, k),
    decreases k,
{
    if k > 0 {
        lemma_sweep_same_setup(a, b, launch, f, (k - 1) as nat);
        lemma_same_setup(
            a,
            b,
            launch.kernel,
            sweep(a, launch, f, (k - 1) as nat),
            thread_at(launch.threads, k - 1),
        );
    }
}

/// Run the launches of a pass in order.
pub fn run_pass<S: Scalar>(state: &mut FdtdLossyState<S>, pass: &Pass)
    requires
        old(state).wf(),
        pass_ok(*old(state), pass@),
    ensures
        final(state).wf(),
        final(state).same_setup(*old(state)),
        final(state).fields() == passed(*old(state), pass@, old(state).fields()),
        final(state).t_idx == old(state).t_idx + steps_counted(*old(state), pass@),
{
    let ghost c = *state;
    let ghost all = pass@;
    let mut i: usize = 0;
    while i < pass.launches.len()
        invariant
            i <= all.len(),
            all == pass@,
            state.wf(),
            state.same_setup(c),
            pass_ok(c, all),
            state.fields() == passed(c, all.take(i as int), c.fields()),
            state.t_idx == c.t_idx + steps_counted(c, all.take(i as int)),
        decreases all.len() - i,
    {
        let ghost f = state.fields();
        let ghost launch = all[i as int];
        proof {
            assert(all.take(i + 1).drop_last() =~= all.take(i as int));
            lemma_sweep_same_setup(*state, c, launch, f, launch.threads.product_spec() as nat);
        }
        run_launch(state, &pass.launches[i]);
        i = i + 1;
    }
    assert(all.take(all.len() as int) =~= all);
}

} // verus!
