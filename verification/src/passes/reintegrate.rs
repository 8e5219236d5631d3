//! Mass transport: the activation moved along the flow into the other
//! activation buffer.

use crate::device::{
    layout4, zeroed, BindGroup, BindGroupLayout, BindingKind, Buffer, BufferSpec, BufferUsages,
    Command, CommandEncoder, ComputePipeline, GpuContext, Shader,
};
use crate::globals::GpuGlobals;
use crate::passes::tile::{
    globals_buffer, record_tiled, tile_command, upload_globals_block, words3,
};
pub use crate::passes::tile::{WORKGROUP_X, WORKGROUP_Y};
use vstd::prelude::*;

verus! {

/// Bindings of the pass: activation, flow, moved activation, parameters.
pub open spec fn reintegrate_layout() -> BindGroupLayout {
    layout4(
        BindingKind::StorageRead,
        BindingKind::StorageRead,
        BindingKind::StorageReadWrite,
        BindingKind::Uniform,
    )
}

/// Mass transport along the flow.
#[derive(Clone, Copy, Debug, PartialEq, Eq, Structural)]
pub struct ReintegratePass {
    pub pipeline: ComputePipeline,
}

impl ReintegratePass {
    /// The compiled pass.
    pub open spec fn of() -> ReintegratePass {
        ReintegratePass { pipeline: ComputePipeline::of(Shader::Reintegrate, reintegrate_layout()) }
    }

    /// The dispatch of the pass over a grid.
    pub open spec fn command(self, bind_group: BindGroup, height: u32, width: u32) -> Command {
        tile_command(self.pipeline, bind_group, height, width)
    }

    /// Compiles the pass.
    pub fn new() -> (pass: ReintegratePass)
        ensures
            pass == ReintegratePass::of(),
    {
        let layout = BindGroupLayout::compute4(
            BindingKind::StorageRead,
            BindingKind::StorageRead,
            BindingKind::StorageReadWrite,
            BindingKind::Uniform,
        );
        ReintegratePass { pipeline: ComputePipeline::new(Shader::Reintegrate, layout) }
    }

    /// An activation buffer: one word per channel and cell, at both ends of copies.
    pub open spec fn a_buffer(height: u32, width: u32, channels: u32) -> BufferSpec {
        zeroed(height * width * channels * 4, BufferUsages::of_storage().and_copy_src().and_copy_dst())
    }

    /// An activation buffer: one word per channel and cell, at both ends of copies.
    pub fn allocate_a(ctx: &mut GpuContext, height: u32, width: u32, channels: u32) -> (buffer: Buffer)
        requires
            height * width * channels * 4 <= u64::MAX,
        ensures
            buffer.id == old(ctx)@.len(),
            final(ctx)@ == old(ctx)@.push(Self::a_buffer(height, width, channels)),
            final(ctx).queue() == old(ctx).queue(),
    {
        let bytes: u64 = words3(height, width, channels);
        ctx.create_buffer(bytes, BufferUsages::storage().with_copy_src().with_copy_dst())
    }

    /// Asks for the uniform buffer of the pass.
    pub fn upload_globals(ctx: &mut GpuContext, globals: &GpuGlobals) -> (buffer: Buffer)
        ensures
            buffer.id == old(ctx)@.len(),
            final(ctx)@ == old(ctx)@.push(globals_buffer(*globals)),
            final(ctx).queue() == old(ctx).queue(),
    {
        upload_globals_block(ctx, globals)
    }

    /// Binds the buffers of the pass.
    pub fn make_bind_group(
        &self,
        a_in: Buffer,
        flow: Buffer,
        a_out: Buffer,
        globals: Buffer,
    ) -> (g: BindGroup)
        ensures
            g == BindGroup::of4(a_in, flow, a_out, globals),
    {
        BindGroup::bind4(a_in, flow, a_out, globals)
    }

    /// Appends the pass over a grid.
    pub fn record(&self, encoder: &mut CommandEncoder, bind_group: &BindGroup, height: u32, width: u32)
        ensures
            final(encoder)@ == old(encoder)@.push(self.command(*bind_group, height, width)),
    {
        record_tiled(&self.pipeline, encoder, bind_group, height, width);
    }
}

} // verus!
