//! What can go wrong before a simulation runs.
use vstd::prelude::*;

verus! {

/// A mesh for a material region could not be had: `L` says why it was not loaded, `C` why it was
/// not converted.
#[derive(Copy, Clone, Debug, PartialEq, Eq)]
pub enum Error<L, C> {
    MeshLoader(L),
    MeshConversion(C),
}

} // verus!
