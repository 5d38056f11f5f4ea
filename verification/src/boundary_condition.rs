//! What a simulation does about the outside of the grid.
use crate::host::Kernel;
use crate::launch::{launch_of, Launches, Pass};
use crate::params::GridParameters;
use crate::vector::Vec4;
use vstd::prelude::*;

verus! {

/// What a boundary condition is called with.
pub struct CallArgs<S> {
    pub grid: GridParameters<S>,
    pub h: Vec<Vec4<S>>,
    pub dn: Vec<Vec4<S>>,
    pub en: Vec<Vec4<S>>,
    pub thread_count: [u32; 3],
}

/// A condition on the boundary of the grid, which runs at the start of every step. A call can fail
/// with an error `E`.
pub trait BoundaryCondition<S, E>: Sized {
    /// The launches that a call records. A call that fails may have recorded some.
    spec fn recorded(self, args: CallArgs<S>) -> Launches;

    /// What a call returns.
    spec fn outcome(self, args: CallArgs<S>) -> Result<(), E>;

    /// The condition after a call.
    spec fn after_call(self, args: CallArgs<S>) -> Self;

    /// Record the launches of a step, with `thread_count` threads for one thread per cell.
    fn call(
        &mut self,
        pass: &mut Pass,
        grid: &GridParameters<S>,
        h: &Vec<Vec4<S>>,
        dn: &Vec<Vec4<S>>,
        en: &Vec<Vec4<S>>,
        thread_count: [u32; 3],
    ) -> (r: Result<(), E>)
        ensures
            ({
                let args = CallArgs { grid: *grid, h: *h, dn: *dn, en: *en, thread_count };
                &&& final(pass)@ == old(pass)@ + old(self).recorded(args)
                &&& *final(self) == old(self).after_call(args)
                &&& r == old(self).outcome(args)
            }),
    ;
}

/// A perfect electric conductor around the whole grid.
#[derive(Copy, Clone, Debug)]
pub struct PECBoundary {}

impl<S, E> BoundaryCondition<S, E> for PECBoundary {
    open spec fn recorded(self, args: CallArgs<S>) -> Launches {
        seq![launch_of(Kernel::PecBoundary, args.thread_count@)]
    }

    open spec fn outcome(self, args: CallArgs<S>) -> Result<(), E> {
        Ok(())
    }

    open spec fn after_call(self, args: CallArgs<S>) -> Self {
        self
    }

    fn call(
        &mut self,
        pass: &mut Pass,
        grid: &GridParameters<S>,
        h: &Vec<Vec4<S>>,
        dn: &Vec<Vec4<S>>,
        en: &Vec<Vec4<S>>,
        thread_count: [u32; 3],
    ) -> (r: Result<(), E>) {
        pass.dispatch(Kernel::PecBoundary, thread_count);
        Ok(())
    }
}

} // verus!
