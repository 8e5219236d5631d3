//! Direct convolution: every kernel over its source channel, at every cell.
//!
//! The result is cell-major: kernel `ki` at row `y`, column `x` is word
//! `(y * W + x) * K + ki`.

use crate::device::{
    layout5, BindGroup, BindGroupLayout, BindingKind, Buffer, Command, CommandEncoder,
    ComputePipeline, GpuContext, Shader,
};
use crate::globals::GpuGlobals;
use crate::kernel_buffers::GpuKernelBuffers;
use crate::passes::tile::{
    globals_buffer, record_tiled, tile_command, upload_globals_block, allocate_output,
    output_buffer,
};
pub use crate::passes::tile::{WORKGROUP_X, WORKGROUP_Y};
use vstd::prelude::*;

verus! {

/// Bindings of the pass: activation, packed kernels, kernel records, result, parameters.
pub open spec fn convolve_layout() -> BindGroupLayout {
    layout5(
        BindingKind::StorageRead,
        BindingKind::StorageRead,
        BindingKind::StorageRead,
        BindingKind::StorageReadWrite,
        BindingKind::Uniform,
    )
}

/// Direct convolution of the activation with the kernel bank.
#[derive(Clone, Copy, Debug, PartialEq, Eq, Structural)]
pub struct ConvolvePass {
    pub pipeline: ComputePipeline,
}

impl ConvolvePass {
    /// The compiled pass.
    pub open spec fn of() -> ConvolvePass {
        ConvolvePass { pipeline: ComputePipeline::of(Shader::Convolve, convolve_layout()) }
    }

    /// The dispatch of the pass over a grid.
    pub open spec fn command(self, bind_group: BindGroup, height: u32, width: u32) -> Command {
        tile_command(self.pipeline, bind_group, height, width)
    }

    /// Compiles the pass.
    pub fn new() -> (pass: ConvolvePass)
        ensures
            pass == ConvolvePass::of(),
    {
        let layout = BindGroupLayout::compute5(
            BindingKind::StorageRead,
            BindingKind::StorageRead,
            BindingKind::StorageRead,
            BindingKind::StorageReadWrite,
            BindingKind::Uniform,
        );
        ConvolvePass { pipeline: ComputePipeline::new(Shader::Convolve, layout) }
    }

    /// A result buffer: one word per cell and kernel.
    pub fn allocate_pre_g(ctx: &mut GpuContext, height: u32, width: u32, num_kernels: u32) -> (buffer: Buffer)
        requires
            height * width * num_kernels * 4 <= u64::MAX,
        ensures
            buffer.id == old(ctx)@.len(),
            final(ctx)@ == old(ctx)@.push(output_buffer(height, width, num_kernels)),
            final(ctx).queue() == old(ctx).queue(),
    {
        allocate_output(ctx, height, width, num_kernels)
    }

    /// Asks for the uniform buffer of the pass.
    pub fn upload_globals(ctx: &mut GpuContext, globals: &GpuGlobals) -> (buffer: Buffer)
        ensures
            buffer.id == old(ctx)@.len(),
            final(ctx)@ == old(ctx)@.push(globals_buffer(*globals)),
            final(ctx).queue() == old(ctx).queue(),
    {
        upload_globals_block(ctx, globals)
    }

    /// Binds the buffers of the pass.
    pub fn make_bind_group(
        &self,
        a_in: Buffer,
        kernels: &GpuKernelBuffers,
        pre_g_out: Buffer,
        globals: Buffer,
    ) -> (g: BindGroup)
        ensures
            g == BindGroup::of5(a_in, kernels.kernels, kernels.meta, pre_g_out, globals),
    {
        BindGroup::bind5(a_in, kernels.kernels, kernels.meta, pre_g_out, globals)
    }

    /// Appends the pass over a grid.
    pub fn record(&self, encoder: &mut CommandEncoder, bind_group: &BindGroup, height: u32, width: u32)
        ensures
            final(encoder)@ == old(encoder)@.push(self.command(*bind_group, height, width)),
    {
        record_tiled(&self.pipeline, encoder, bind_group, height, width);
    }
}

} // verus!
