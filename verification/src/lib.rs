//! Planning layer of a Flow-Lenia simulation that runs on a WebGPU device.
//!
//! The library decides everything that can be decided on the host: how fields
//! and kernel banks are laid out in device buffers, which buffers exist and how
//! large they are, which buffer each pass reads and writes, what is dispatched
//! in which order, and how the interactive front end moves from frame to
//! frame. The outcome is plain data ([`device::GpuContext`],
//! [`device::CommandEncoder`]) that a thin executor replays on a real device.
//!
//! Single-precision numbers are carried as their 32-bit patterns
//! ([`words::F32Bits`]): the library moves them and never computes with them.

pub mod activation_buffer;
pub mod app_state;
pub mod canvas;
pub mod config;
pub mod config_border;
pub mod contents;
pub mod determinism;
pub mod device;
pub mod field;
pub mod frame_stats;
pub mod globals;
pub mod index;
pub mod kernel_buffers;
pub mod meaning;
pub mod passes;
pub mod pipeline;
pub mod pipeline_laws;
pub mod readback;
pub mod screenshot;
pub mod text;
pub mod texture_readback;
pub mod validation;
pub mod validity;
pub mod words;

pub use activation_buffer::{
    flatten_activation_channel_major, readback_activation, unflatten_activation_channel_major,
    upload_activation,
};
pub use config_border::BorderCode;
pub use device::GpuContext;
pub use globals::GpuGlobals;
pub use kernel_buffers::{
    readback_kernels, readback_meta, upload_kernels, GpuKernelBuffers, GpuKernelMeta,
};
pub use passes::{
    upload_constant_weights, upload_localized_weights, AffinityGrowthPass, ConvolvePass, FlowPass,
    GpuConstantWeights, GradientPass, ReintegratePass, VisualizePass, MAX_KERNELS,
};
pub use pipeline::GpuStepPipeline;
pub use readback::readback_buffer;
pub use texture_readback::readback_rgba8_texture;
