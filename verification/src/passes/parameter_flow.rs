//! Transport of the parameter map along with the mass.

use crate::device::{
    layout5, zeroed, BindGroup, BindGroupLayout, BindingKind, Buffer, BufferSpec, BufferUsages,
    Command, CommandEncoder, ComputePipeline, GpuContext, Shader,
};
use crate::globals::GpuGlobals;
use crate::passes::tile::{
    globals_buffer, record_tiled, tile_command, upload_globals_block, words3,
};
pub use crate::passes::tile::{WORKGROUP_X, WORKGROUP_Y};
use vstd::prelude::*;

verus! {

/// Bindings of the pass: parameter map, moved parameter map, flow, source channel of each kernel,
/// parameters.
pub open spec fn parameter_flow_layout() -> BindGroupLayout {
    layout5(
        BindingKind::StorageRead,
        BindingKind::StorageReadWrite,
        BindingKind::StorageRead,
        BindingKind::StorageRead,
        BindingKind::Uniform,
    )
}

/// Transport of the parameter map.
#[derive(Clone, Copy, Debug, PartialEq, Eq, Structural)]
pub struct ParameterFlowPass {
    pub pipeline: ComputePipeline,
}

impl ParameterFlowPass {
    /// The compiled pass.
    pub open spec fn of() -> ParameterFlowPass {
        ParameterFlowPass { pipeline: ComputePipeline::of(Shader::ParameterFlow, parameter_flow_layout()) }
    }

    /// The dispatch of the pass over a grid.
    pub open spec fn command(self, bind_group: BindGroup, height: u32, width: u32) -> Command {
        tile_command(self.pipeline, bind_group, height, width)
    }

    /// Compiles the pass.
    pub fn new() -> (pass: ParameterFlowPass)
        ensures
            pass == ParameterFlowPass::of(),
    {
        let layout = BindGroupLayout::compute5(
            BindingKind::StorageRead,
            BindingKind::StorageReadWrite,
            BindingKind::StorageRead,
            BindingKind::StorageRead,
            BindingKind::Uniform,
        );
        ParameterFlowPass { pipeline: ComputePipeline::new(Shader::ParameterFlow, layout) }
    }

    /// A parameter map: one word per cell and kernel, at both ends of copies.
    pub open spec fn p_buffer(height: u32, width: u32, num_kernels: u32) -> BufferSpec {
        zeroed(height * width * num_kernels * 4, BufferUsages::of_storage().and_copy_src().and_copy_dst())
    }

    /// A parameter map: one word per cell and kernel, at both ends of copies.
    pub fn allocate_p(ctx: &mut GpuContext, height: u32, width: u32, num_kernels: u32) -> (buffer: Buffer)
        requires
            height * width * num_kernels * 4 <= u64::MAX,
        ensures
            buffer.id == old(ctx)@.len(),
            final(ctx)@ == old(ctx)@.push(Self::p_buffer(height, width, num_kernels)),
            final(ctx).queue() == old(ctx).queue(),
    {
        let bytes: u64 = words3(height, width, num_kernels);
        ctx.create_buffer(bytes, BufferUsages::storage().with_copy_src().with_copy_dst())
    }

    /// Asks for the uniform buffer of the pass.
    pub fn upload_globals(ctx: &mut GpuContext, globals: &GpuGlobals) -> (buffer: Buffer)
        ensures
            buffer.id == old(ctx)@.len(),
            final(ctx)@ == old(ctx)@.push(globals_buffer(*globals)),
            final(ctx).queue() == old(ctx).queue(),
    {
        upload_globals_block(ctx, globals)
    }

    /// Binds the buffers of the pass.
    pub fn make_bind_group(
        &self,
        p_in: Buffer,
        p_out: Buffer,
        matter_flow: Buffer,
        kernel_routing: Buffer,
        globals: Buffer,
    ) -> (g: BindGroup)
        ensures
            g == BindGroup::of5(p_in, p_out, matter_flow, kernel_routing, globals),
    {
        BindGroup::bind5(p_in, p_out, matter_flow, kernel_routing, globals)
    }

    /// Appends the pass over a grid.
    pub fn record(&self, encoder: &mut CommandEncoder, bind_group: &BindGroup, height: u32, width: u32)
        ensures
            final(encoder)@ == old(encoder)@.push(self.command(*bind_group, height, width)),
    {
        record_tiled(&self.pipeline, encoder, bind_group, height, width);
    }
}

} // verus!
