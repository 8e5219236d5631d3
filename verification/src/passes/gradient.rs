//! Gradients of the affinity and of the total mass.

use crate::device::{
    layout3, zeroed, BindGroup, BindGroupLayout, BindingKind, Buffer, BufferSpec, BufferUsages,
    Command, CommandEncoder, ComputePipeline, GpuContext, Shader,
};
use crate::globals::GpuGlobals;
use crate::passes::tile::{
    globals_buffer, record_tiled, tile_command, upload_globals_block, words3,
};
pub use crate::passes::tile::{WORKGROUP_X, WORKGROUP_Y};
use vstd::prelude::*;

verus! {

/// Bindings of either gradient: field, gradient, parameters.
pub open spec fn gradient_layout() -> BindGroupLayout {
    layout3(BindingKind::StorageRead, BindingKind::StorageReadWrite, BindingKind::Uniform)
}

/// The two gradients.
#[derive(Clone, Copy, Debug, PartialEq, Eq, Structural)]
pub struct GradientPass {
    /// Gradient of the affinity of each channel.
    pub pipeline_u: ComputePipeline,
    /// Gradient of the activation summed over channels.
    pub pipeline_a_sum: ComputePipeline,
}

impl GradientPass {
    /// The compiled passes.
    pub open spec fn of() -> GradientPass {
        GradientPass {
            pipeline_u: ComputePipeline::of(Shader::GradientU, gradient_layout()),
            pipeline_a_sum: ComputePipeline::of(Shader::GradientASum, gradient_layout()),
        }
    }

    /// The dispatch of the affinity gradient over a grid.
    pub open spec fn command_u(self, bind_group: BindGroup, height: u32, width: u32) -> Command {
        tile_command(self.pipeline_u, bind_group, height, width)
    }

    /// The dispatch of the mass gradient over a grid.
    pub open spec fn command_a_sum(self, bind_group: BindGroup, height: u32, width: u32) -> Command {
        tile_command(self.pipeline_a_sum, bind_group, height, width)
    }

    /// Compiles the passes.
    pub fn new() -> (pass: GradientPass)
        ensures
            pass == GradientPass::of(),
    {
        let layout = BindGroupLayout::compute3(
            BindingKind::StorageRead,
            BindingKind::StorageReadWrite,
            BindingKind::Uniform,
        );
        GradientPass {
            pipeline_u: ComputePipeline::new(Shader::GradientU, layout),
            pipeline_a_sum: ComputePipeline::new(Shader::GradientASum, layout),
        }
    }

    /// An affinity gradient: two words per channel and cell.
    pub open spec fn grad_u_buffer(height: u32, width: u32, channels: u32) -> BufferSpec {
        zeroed(height * width * channels * 8, BufferUsages::of_storage().and_copy_src())
    }

    /// A mass gradient: two words per cell.
    pub open spec fn grad_a_sum_buffer(height: u32, width: u32) -> BufferSpec {
        zeroed(height * width * 8, BufferUsages::of_storage().and_copy_src())
    }

    /// An affinity gradient: two words per channel and cell.
    pub fn allocate_grad_u(ctx: &mut GpuContext, height: u32, width: u32, channels: u32) -> (buffer:
        Buffer)
        requires
            height * width * channels * 8 <= u64::MAX,
        ensures
            buffer.id == old(ctx)@.len(),
            final(ctx)@ == old(ctx)@.push(Self::grad_u_buffer(height, width, channels)),
            final(ctx).queue() == old(ctx).queue(),
    {
        let bytes: u64 = 2 * words3(height, width, channels);
        ctx.create_buffer(bytes, BufferUsages::storage().with_copy_src())
    }

    /// A mass gradient: two words per cell.
    pub fn allocate_grad_a_sum(ctx: &mut GpuContext, height: u32, width: u32) -> (buffer: Buffer)
        requires
            height * width * 8 <= u64::MAX,
        ensures
            buffer.id == old(ctx)@.len(),
            final(ctx)@ == old(ctx)@.push(Self::grad_a_sum_buffer(height, width)),
            final(ctx).queue() == old(ctx).queue(),
    {
        proof {
            assert(height * width * 2 * 4 == height * width * 8);
        }
        let bytes: u64 = words3(height, width, 2);
        ctx.create_buffer(bytes, BufferUsages::storage().with_copy_src())
    }

    /// Asks for the uniform buffer of the passes.
    pub fn upload_globals(ctx: &mut GpuContext, globals: &GpuGlobals) -> (buffer: Buffer)
        ensures
            buffer.id == old(ctx)@.len(),
            final(ctx)@ == old(ctx)@.push(globals_buffer(*globals)),
            final(ctx).queue() == old(ctx).queue(),
    {
        upload_globals_block(ctx, globals)
    }

    /// Binds the buffers of the affinity gradient.
    pub fn make_bind_group_u(&self, a_in: Buffer, grad_u_out: Buffer, globals: Buffer) -> (g:
        BindGroup)
        ensures
            g == BindGroup::of3(a_in, grad_u_out, globals),
    {
        BindGroup::bind3(a_in, grad_u_out, globals)
    }

    /// Binds the buffers of the mass gradient.
    pub fn make_bind_group_a_sum(&self, a_in: Buffer, grad_a_sum_out: Buffer, globals: Buffer) -> (g:
        BindGroup)
        ensures
            g == BindGroup::of3(a_in, grad_a_sum_out, globals),
    {
        BindGroup::bind3(a_in, grad_a_sum_out, globals)
    }

    /// Appends the affinity gradient over a grid.
    pub fn record_u(&self, encoder: &mut CommandEncoder, bind_group: &BindGroup, height: u32, width: u32)
        ensures
            final(encoder)@ == old(encoder)@.push(self.command_u(*bind_group, height, width)),
    {
        record_tiled(&self.pipeline_u, encoder, bind_group, height, width);
    }

    /// Appends the mass gradient over a grid.
    pub fn record_a_sum(
        &self,
        encoder: &mut CommandEncoder,
        bind_group: &BindGroup,
        height: u32,
        width: u32,
    )
        ensures
            final(encoder)@ == old(encoder)@.push(self.command_a_sum(*bind_group, height, width)),
    {
        record_tiled(&self.pipeline_a_sum, encoder, bind_group, height, width);
    }
}

} // verus!
