//! Affinity: the growth functions of all kernels, weighted and summed into
//! their target channels.
//!
//! The weights are either one number per kernel or a map with one number per
//! cell and kernel. The two shaders share their bindings; only what binding 2
//! holds differs.

use crate::device::{
    filled, layout5, BindGroup, BindGroupLayout, BindingKind, Buffer, BufferUsages,
    Command, CommandEncoder, ComputePipeline, GpuContext, Shader,
};
use crate::activation_buffer::lemma_products_fit;
use crate::field::{field_extents, in_extents3, ActivationField};
use crate::globals::GpuGlobals;
use crate::index::{idx3, lemma_idx3, lemma_idx3_step};
use crate::kernel_buffers::GpuKernelBuffers;
use crate::passes::tile::{
    allocate_output, globals_buffer, output_buffer, record_tiled, tile_command,
    upload_globals_block,
};
use crate::words::{word_bytes, words_to_bytes, F32Bits};
pub use crate::passes::tile::{WORKGROUP_X, WORKGROUP_Y};
use vstd::prelude::*;

verus! {

/// The largest kernel bank that constant weights can be given for.
pub const MAX_KERNELS: usize = 45;

/// Constant weights, one per kernel; unused entries are zero.
#[derive(Clone, Copy, Debug)]
pub struct GpuConstantWeights {
    pub h: [F32Bits; 45],
}

/// Weights followed by zeros up to the size of the largest bank.
pub open spec fn padded_weights(h: Seq<u32>) -> Seq<u32> {
    Seq::new(45, |i: int| if i < h.len() { h[i] } else { 0 })
}

impl GpuConstantWeights {
    /// Packs the weights of a bank of at most [`MAX_KERNELS`] kernels.
    pub fn from_slice(h: &[F32Bits]) -> (weights: GpuConstantWeights)
        requires
            h@.len() <= MAX_KERNELS,
        ensures
            weights.h@ == padded_weights(h@),
    {
        let mut buf: [F32Bits; 45] = [0; 45];
        let n: usize = h.len();
        for i in 0..n
            invariant
                n == h@.len() <= 45,
                buf@.len() == 45,
                forall|j: int| 0 <= j < 45 ==> buf@[j] == if j < i { h@[j] } else { 0 },
        {
            buf[i] = h[i];
        }
        assert(buf@ =~= padded_weights(h@));
        GpuConstantWeights { h: buf }
    }
}

/// Usages of a weights buffer: storage, and both ends of copies.
pub open spec fn weights_usage() -> BufferUsages {
    BufferUsages::of_storage().and_copy_dst().and_copy_src()
}

/// Asks for the buffer of constant weights.
pub fn upload_constant_weights(ctx: &mut GpuContext, weights: &GpuConstantWeights) -> (buffer: Buffer)
    ensures
        buffer.id == old(ctx)@.len(),
        final(ctx)@ == old(ctx)@.push(filled(word_bytes(weights.h@), weights_usage())),
        final(ctx).queue() == old(ctx).queue(),
{
    let usage = BufferUsages::storage().with_copy_dst().with_copy_src();
    ctx.create_buffer_init(words_to_bytes(&weights.h), usage)
}

/// The device layout of a weight map: cell-major, the kernels of a cell
/// together.
pub open spec fn cell_major(p: ActivationField) -> Seq<u32> {
    Seq::new(
        (p.h() * p.w() * p.c()) as nat,
        |i: int| p.at(i / p.c() / p.w(), i / p.c() % p.w(), i % p.c()),
    )
}

/// The weight of kernel `ki` at row `y`, column `x` is word
/// `y * W * K + x * K + ki` of the layout.
pub proof fn law_cell_major_index(p: ActivationField, y: int, x: int, ki: int)
    requires
        in_extents3((y, x, ki), field_extents(p)),
    ensures
        0 <= y * p.w() * p.c() + x * p.c() + ki < cell_major(p).len(),
        cell_major(p)[y * p.w() * p.c() + x * p.c() + ki] == p.at(y, x, ki),
{
    lemma_idx3(y, x, ki, p.h(), p.w(), p.c());
    crate::index::lemma_idx3_sum(y, x, ki, p.w(), p.c());
}

/// Lays out a weight map with axes `(y, x, kernel)`.
pub fn flatten_p_map_cell_major(p_map: &ActivationField) -> (flat: Vec<F32Bits>)
    ensures
        flat@ == cell_major(*p_map),
{
    let (h, w, k) = p_map.dim();
    let ghost (gh, gw, gk) = (h as int, w as int, k as int);
    let mut flat: Vec<F32Bits> = Vec::new();
    proof {
        lemma_products_fit(gh, gw, gk);
        lemma_idx3_step(0, 0, gw, gk);
    }
    for y in 0..h
        invariant
            field_extents(*p_map) == (gh, gw, gk),
            gh == h,
            gw == w,
            gk == k,
            flat@.len() == idx3(y as int, 0, 0, gw, gk),
            forall|j: int| 0 <= j < flat@.len() ==> flat@[j] == cell_major(*p_map)[j],
    {
        for x in 0..w
            invariant
                y < h,
                field_extents(*p_map) == (gh, gw, gk),
                gh == h,
                gw == w,
                gk == k,
                flat@.len() == idx3(y as int, x as int, 0, gw, gk),
                forall|j: int| 0 <= j < flat@.len() ==> flat@[j] == cell_major(*p_map)[j],
        {
            for ki in 0..k
                invariant
                    y < h,
                    x < w,
                    field_extents(*p_map) == (gh, gw, gk),
                    gh == h,
                    gw == w,
                    gk == k,
                    flat@.len() == idx3(y as int, x as int, ki as int, gw, gk),
                    forall|j: int| 0 <= j < flat@.len() ==> flat@[j] == cell_major(*p_map)[j],
            {
                proof {
                    lemma_idx3(y as int, x as int, ki as int, gh, gw, gk);
                }
                flat.push(p_map.get(y, x, ki));
            }
            proof {
                lemma_idx3_step(y as int, x as int, gw, gk);
            }
        }
        proof {
            lemma_idx3_step(y as int, 0, gw, gk);
        }
    }
    assert((gh * gw + 0) * gk + 0 == gh * gw * gk);
    assert(flat@ =~= cell_major(*p_map));
    flat
}

/// Asks for the buffer of a weight map.
pub fn upload_localized_weights(ctx: &mut GpuContext, p_map: &ActivationField) -> (buffer: Buffer)
    ensures
        buffer.id == old(ctx)@.len(),
        final(ctx)@ == old(ctx)@.push(filled(word_bytes(cell_major(*p_map)), weights_usage())),
        final(ctx).queue() == old(ctx).queue(),
{
    let flat = flatten_p_map_cell_major(p_map);
    let usage = BufferUsages::storage().with_copy_dst().with_copy_src();
    ctx.create_buffer_init(words_to_bytes(flat.as_slice()), usage)
}

/// Bindings of either shader: convolutions, kernel records, weights, affinity,
/// parameters.
pub open spec fn affinity_layout() -> BindGroupLayout {
    layout5(
        BindingKind::StorageRead,
        BindingKind::StorageRead,
        BindingKind::StorageRead,
        BindingKind::StorageReadWrite,
        BindingKind::Uniform,
    )
}

/// The affinity with constant weights and with a weight map.
#[derive(Clone, Copy, Debug, PartialEq, Eq, Structural)]
pub struct AffinityGrowthPass {
    pub pipeline_constant: ComputePipeline,
    pub pipeline_localized: ComputePipeline,
}

impl AffinityGrowthPass {
    /// The compiled passes.
    pub open spec fn of() -> AffinityGrowthPass {
        AffinityGrowthPass {
            pipeline_constant: ComputePipeline::of(Shader::AffinityConstant, affinity_layout()),
            pipeline_localized: ComputePipeline::of(Shader::AffinityLocalized, affinity_layout()),
        }
    }

    /// The dispatch with constant weights over a grid.
    pub open spec fn command_constant(self, bind_group: BindGroup, height: u32, width: u32) -> Command {
        tile_command(self.pipeline_constant, bind_group, height, width)
    }

    /// The dispatch with a weight map over a grid.
    pub open spec fn command_localized(self, bind_group: BindGroup, height: u32, width: u32) -> Command {
        tile_command(self.pipeline_localized, bind_group, height, width)
    }

    /// Compiles the passes.
    pub fn new() -> (pass: AffinityGrowthPass)
        ensures
            pass == AffinityGrowthPass::of(),
    {
        let layout = BindGroupLayout::compute5(
            BindingKind::StorageRead,
            BindingKind::StorageRead,
            BindingKind::StorageRead,
            BindingKind::StorageReadWrite,
            BindingKind::Uniform,
        );
        AffinityGrowthPass {
            pipeline_constant: ComputePipeline::new(Shader::AffinityConstant, layout),
            pipeline_localized: ComputePipeline::new(Shader::AffinityLocalized, layout),
        }
    }

    /// An affinity buffer: one word per channel and cell.
    pub fn allocate_u_out(ctx: &mut GpuContext, height: u32, width: u32, channels: u32) -> (buffer:
        Buffer)
        requires
            height * width * channels * 4 <= u64::MAX,
        ensures
            buffer.id == old(ctx)@.len(),
            final(ctx)@ == old(ctx)@.push(output_buffer(height, width, channels)),
            final(ctx).queue() == old(ctx).queue(),
    {
        allocate_output(ctx, height, width, channels)
    }

    /// Asks for the uniform buffer of the passes.
    pub fn upload_globals(ctx: &mut GpuContext, globals: &GpuGlobals) -> (buffer: Buffer)
        ensures
            buffer.id == old(ctx)@.len(),
            final(ctx)@ == old(ctx)@.push(globals_buffer(*globals)),
            final(ctx).queue() == old(ctx).queue(),
    {
        upload_globals_block(ctx, globals)
    }

    /// Binds the buffers of either pass; `weights_or_p` holds the constant
    /// weights or the weight map.
    pub fn make_bind_group(
        &self,
        pre_g: Buffer,
        kernels: &GpuKernelBuffers,
        weights_or_p: Buffer,
        u_out: Buffer,
        globals: Buffer,
    ) -> (g: BindGroup)
        ensures
            g == BindGroup::of5(pre_g, kernels.meta, weights_or_p, u_out, globals),
    {
        BindGroup::bind5(pre_g, kernels.meta, weights_or_p, u_out, globals)
    }

    /// Appends the affinity with constant weights over a grid.
    pub fn record_constant(
        &self,
        encoder: &mut CommandEncoder,
        bind_group: &BindGroup,
        height: u32,
        width: u32,
    )
        ensures
            final(encoder)@ == old(encoder)@.push(self.command_constant(*bind_group, height, width)),
    {
        record_tiled(&self.pipeline_constant, encoder, bind_group, height, width);
    }

    /// Appends the affinity with a weight map over a grid.
    pub fn record_localized(
        &self,
        encoder: &mut CommandEncoder,
        bind_group: &BindGroup,
        height: u32,
        width: u32,
    )
        ensures
            final(encoder)@ == old(encoder)@.push(self.command_localized(*bind_group, height, width)),
    {
        record_tiled(&self.pipeline_localized, encoder, bind_group, height, width);
    }
}

/// The weights stand first, in order; the rest of the 45 words is zero.
pub proof fn law_padded_weights(h: Seq<u32>, i: int)
    requires
        0 <= i < 45,
    ensures
        padded_weights(h).len() == 45,
        i < h.len() ==> padded_weights(h)[i] == h[i],
        i >= h.len() ==> padded_weights(h)[i] == 0,
{
}

} // verus!
