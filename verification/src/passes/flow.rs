//! The flow field: affinity gradient against the gradient of total mass.

use crate::device::{
    layout5, zeroed, BindGroup, BindGroupLayout, BindingKind, Buffer, BufferSpec, BufferUsages,
    Command, CommandEncoder, ComputePipeline, GpuContext, Shader,
};
use crate::globals::GpuGlobals;
use crate::passes::tile::{
    globals_buffer, record_tiled, tile_command, upload_globals_block, words3,
};
pub use crate::passes::tile::{WORKGROUP_X, WORKGROUP_Y};
use vstd::prelude::*;

verus! {

/// Bindings of the pass: activation, affinity gradient, mass gradient, flow, parameters.
pub open spec fn flow_layout() -> BindGroupLayout {
    layout5(
        BindingKind::StorageRead,
        BindingKind::StorageRead,
        BindingKind::StorageRead,
        BindingKind::StorageReadWrite,
        BindingKind::Uniform,
    )
}

/// The flow field of the activation.
#[derive(Clone, Copy, Debug, PartialEq, Eq, Structural)]
pub struct FlowPass {
    pub pipeline: ComputePipeline,
}

impl FlowPass {
    /// The compiled pass.
    pub open spec fn of() -> FlowPass {
        FlowPass { pipeline: ComputePipeline::of(Shader::Flow, flow_layout()) }
    }

    /// The dispatch of the pass over a grid.
    pub open spec fn command(self, bind_group: BindGroup, height: u32, width: u32) -> Command {
        tile_command(self.pipeline, bind_group, height, width)
    }

    /// Compiles the pass.
    pub fn new() -> (pass: FlowPass)
        ensures
            pass == FlowPass::of(),
    {
        let layout = BindGroupLayout::compute5(
            BindingKind::StorageRead,
            BindingKind::StorageRead,
            BindingKind::StorageRead,
            BindingKind::StorageReadWrite,
            BindingKind::Uniform,
        );
        FlowPass { pipeline: ComputePipeline::new(Shader::Flow, layout) }
    }

    /// A flow buffer: two words, vertical and horizontal, per channel and cell.
    pub open spec fn f_out_buffer(height: u32, width: u32, channels: u32) -> BufferSpec {
        zeroed(height * width * channels * 8, BufferUsages::of_storage().and_copy_src())
    }

    /// A flow buffer: two words, vertical and horizontal, per channel and cell.
    pub fn allocate_f_out(ctx: &mut GpuContext, height: u32, width: u32, channels: u32) -> (buffer:
        Buffer)
        requires
            height * width * channels * 8 <= u64::MAX,
        ensures
            buffer.id == old(ctx)@.len(),
            final(ctx)@ == old(ctx)@.push(Self::f_out_buffer(height, width, channels)),
            final(ctx).queue() == old(ctx).queue(),
    {
        let bytes: u64 = 2 * words3(height, width, channels);
        ctx.create_buffer(bytes, BufferUsages::storage().with_copy_src())
    }

    /// Asks for the uniform buffer of the pass.
    pub fn upload_globals(ctx: &mut GpuContext, globals: &GpuGlobals) -> (buffer: Buffer)
        ensures
            buffer.id == old(ctx)@.len(),
            final(ctx)@ == old(ctx)@.push(globals_buffer(*globals)),
            final(ctx).queue() == old(ctx).queue(),
    {
        upload_globals_block(ctx, globals)
    }

    /// Binds the buffers of the pass.
    pub fn make_bind_group(
        &self,
        a_in: Buffer,
        grad_u: Buffer,
        grad_a_sum: Buffer,
        f_out: Buffer,
        globals: Buffer,
    ) -> (g: BindGroup)
        ensures
            g == BindGroup::of5(a_in, grad_u, grad_a_sum, f_out, globals),
    {
        BindGroup::bind5(a_in, grad_u, grad_a_sum, f_out, globals)
    }

    /// Appends the pass over a grid.
    pub fn record(&self, encoder: &mut CommandEncoder, bind_group: &BindGroup, height: u32, width: u32)
        ensures
            final(encoder)@ == old(encoder)@.push(self.command(*bind_group, height, width)),
    {
        record_tiled(&self.pipeline, encoder, bind_group, height, width);
    }
}

} // verus!
