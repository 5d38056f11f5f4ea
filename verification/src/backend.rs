//! Where the kernels of a simulation run.
use crate::axis::Dim;
use vstd::prelude::*;

verus! {

/// The backends that a simulation can run on.
#[derive(Copy, Clone, Debug, PartialEq, Eq, Structural)]
pub enum Backend {
    WebGpu,
    Cuda,
    Metal,
    Cpu,
    /// A backend that this crate has no name for.
    Other,
}

/// Get the name of the [`Backend`] that `backend` is.
pub fn backend_name(backend: &Backend) -> (r: &'static str)
    ensures
        r@ == match *backend {
            Backend::WebGpu => "WebGPU"@,
            Backend::Cuda => "CUDA"@,
            Backend::Metal => "Metal"@,
            Backend::Cpu => "CPU"@,
            Backend::Other => "UNKNOWN"@,
        },
{
    match backend {
        Backend::WebGpu => "WebGPU",
        Backend::Cuda => "CUDA",
        Backend::Metal => "Metal",
        Backend::Cpu => "CPU",
        Backend::Other => "UNKNOWN",
    }
}

/// The name of the crate that holds the kernels of simulations with `dim` spatial axes.
pub fn shader_crate_name(dim: Dim) -> (r: &'static str)
    ensures
        r@ == match dim {
            Dim::One => "taser-em-shaders1d"@,
            Dim::Two => "taser-em-shaders2d"@,
            Dim::Three => "taser-em-shaders3d"@,
        },
{
    match dim {
        Dim::One => "taser-em-shaders1d",
        Dim::Two => "taser-em-shaders2d",
        Dim::Three => "taser-em-shaders3d",
    }
}

} // verus!
