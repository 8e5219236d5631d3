//! Products of one spectrum with the spectra of all kernels.

use crate::device::{
    div_ceil, filled, groups, layout4, BindGroup, BindGroupLayout, BindingKind, Buffer, BufferSpec,
    BufferUsages, Command, CommandEncoder, ComputePipeline, GpuContext, Shader,
};
use crate::words::{word_bytes, words_to_bytes};
use vstd::prelude::*;

verus! {

/// Complex numbers per workgroup.
pub const WORKGROUP_X: u32 = 256;

/// Uniform block of the product.
#[derive(Clone, Copy, Debug, PartialEq, Eq, Structural)]
pub struct SpectralMultiplyParams {
    pub n: u32,
    pub k: u32,
    pub _pad0: u32,
    pub _pad1: u32,
}

impl SpectralMultiplyParams {
    /// The words of the block.
    pub open spec fn words(self) -> Seq<u32> {
        seq![self.n, self.k, self._pad0, self._pad1]
    }

    /// The block for `k` kernels on a grid of side `n`.
    pub fn new(n: u32, k: u32) -> (p: SpectralMultiplyParams)
        ensures
            p == (SpectralMultiplyParams { n, k, _pad0: 0, _pad1: 0 }),
    {
        SpectralMultiplyParams { n, k, _pad0: 0, _pad1: 0 }
    }
}

/// The uniform buffer of a block.
pub open spec fn sm_params_buffer(params: SpectralMultiplyParams) -> BufferSpec {
    filled(word_bytes(params.words()), BufferUsages::of_uniform())
}

/// The buffer of the source channels of a bank.
pub open spec fn routing_buffer(routing: Seq<u32>) -> BufferSpec {
    filled(word_bytes(routing), BufferUsages::of_storage().and_copy_dst())
}

/// Bindings of the product: spectrum, kernel spectra, products, parameters.
pub open spec fn sm_layout() -> BindGroupLayout {
    layout4(
        BindingKind::StorageRead,
        BindingKind::StorageRead,
        BindingKind::StorageReadWrite,
        BindingKind::Uniform,
    )
}

/// The dispatch that covers `n * n * k` items with workgroups of 256.
pub open spec fn linear_command(
    pipeline: ComputePipeline,
    bind_group: BindGroup,
    n: u32,
    k: u32,
) -> Command {
    Command::Dispatch { pipeline, bind_group, x: groups(n * n * k, 256) as u32, y: 1, z: 1 }
}

/// Appends the dispatch that covers `n * n * k` items.
pub fn record_linear(
    pipeline: &ComputePipeline,
    encoder: &mut CommandEncoder,
    bind_group: &BindGroup,
    n: u32,
    k: u32,
)
    requires
        n * n * k <= u32::MAX,
        n * n <= u32::MAX,
    ensures
        final(encoder)@ == old(encoder)@.push(linear_command(*pipeline, *bind_group, n, k)),
{
    proof {
        crate::passes::tile::lemma_product3(n as int, n as int, k as int);
    }
    let total: u32 = n * n * k;
    let g: u32 = div_ceil(total, WORKGROUP_X);
    encoder.dispatch(pipeline, bind_group, g, 1);
}

/// The compiled product.
#[derive(Clone, Copy, Debug, PartialEq, Eq, Structural)]
pub struct SpectralMultiplyPass {
    pub pipeline: ComputePipeline,
}

impl SpectralMultiplyPass {
    /// The compiled pass.
    pub open spec fn of() -> SpectralMultiplyPass {
        SpectralMultiplyPass {
            pipeline: ComputePipeline::of(Shader::SpectralMultiply, sm_layout()),
        }
    }

    /// Compiles the pass.
    pub fn new() -> (pass: SpectralMultiplyPass)
        ensures
            pass == SpectralMultiplyPass::of(),
    {
        let layout = BindGroupLayout::compute4(
            BindingKind::StorageRead,
            BindingKind::StorageRead,
            BindingKind::StorageReadWrite,
            BindingKind::Uniform,
        );
        SpectralMultiplyPass { pipeline: ComputePipeline::new(Shader::SpectralMultiply, layout) }
    }

    /// Binds the buffers of the pass.
    pub fn make_bind_group(
        &self,
        input_spectrum: Buffer,
        kernel_fft: Buffer,
        output_spectra: Buffer,
        params: Buffer,
    ) -> (g: BindGroup)
        ensures
            g == BindGroup::of4(input_spectrum, kernel_fft, output_spectra, params),
    {
        BindGroup::bind4(input_spectrum, kernel_fft, output_spectra, params)
    }

    /// Appends the products with `k` kernels on a grid of side `n`.
    pub fn record(&self, encoder: &mut CommandEncoder, bind_group: &BindGroup, n: u32, k: u32)
        requires
            n * n * k <= u32::MAX,
            n * n <= u32::MAX,
        ensures
            final(encoder)@ == old(encoder)@.push(
                linear_command(self.pipeline, *bind_group, n, k),
            ),
    {
        record_linear(&self.pipeline, encoder, bind_group, n, k);
    }

    /// Asks for the uniform buffer of the pass.
    pub fn upload_params(ctx: &mut GpuContext, params: SpectralMultiplyParams) -> (buffer: Buffer)
        ensures
            buffer.id == old(ctx)@.len(),
            final(ctx)@ == old(ctx)@.push(sm_params_buffer(params)),
            final(ctx).queue() == old(ctx).queue(),
    {
        let words: [u32; 4] = [params.n, params.k, params._pad0, params._pad1];
        assert(words@ =~= params.words());
        ctx.create_buffer_init(words_to_bytes(&words), BufferUsages::uniform())
    }

    /// Asks for the buffer of the source channels of a bank.
    pub fn upload_kernel_routing(ctx: &mut GpuContext, routing: &[u32]) -> (buffer: Buffer)
        ensures
            buffer.id == old(ctx)@.len(),
            final(ctx)@ == old(ctx)@.push(routing_buffer(routing@)),
            final(ctx).queue() == old(ctx).queue(),
    {
        ctx.create_buffer_init(words_to_bytes(routing), BufferUsages::storage().with_copy_dst())
    }
}

} // verus!
