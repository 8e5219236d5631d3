//! The passes of a step.
//!
//! A pass knows its pipeline and its bindings. Recording one appends a single
//! dispatch to the caller's encoder, so that the order of passes stays visible
//! to whoever records a step.

pub mod affinity_growth;
pub mod convolve;
pub mod convolve_fft;
pub mod fft;
pub mod flow;
pub mod gradient;
pub mod kernel_fft;
pub mod parameter_flow;
pub mod parameter_map;
pub mod reintegrate;
pub mod spectral_multiply;
pub mod tile;
pub mod visualize;

pub use affinity_growth::{
    upload_constant_weights, upload_localized_weights, AffinityGrowthPass, GpuConstantWeights,
    MAX_KERNELS,
};
pub use convolve::ConvolvePass;
pub use fft::{
    is_supported_n, precompute_twiddles_1d, Fft2dPass, FftAxis, FftDirection, FftParams, FftPass,
    SUPPORTED_N,
};
pub use flow::FlowPass;
pub use gradient::GradientPass;
pub use kernel_fft::{build_padded_kernel, precompute_kernel_ffts, KernelFftBuffers};
pub use reintegrate::ReintegratePass;
pub use spectral_multiply::{SpectralMultiplyParams, SpectralMultiplyPass};
pub use visualize::{VisualizeGlobals, VisualizePass};
