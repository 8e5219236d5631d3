//! What the grid passes share: workgroups of 8 by 8 cells, and one uniform
//! block.

use crate::device::{
    div_ceil, filled, groups, zeroed, BindGroup, Buffer, BufferSpec, BufferUsages, Command,
    CommandEncoder, ComputePipeline, GpuContext,
};
use crate::globals::GpuGlobals;
use crate::words::word_bytes;
use vstd::prelude::*;

verus! {

/// Width of a workgroup, in cells.
pub const WORKGROUP_X: u32 = 8;

/// Height of a workgroup, in cells.
pub const WORKGROUP_Y: u32 = 8;

/// The dispatch that covers a grid with workgroups.
pub open spec fn tile_command(
    pipeline: ComputePipeline,
    bind_group: BindGroup,
    height: u32,
    width: u32,
) -> Command {
    Command::Dispatch {
        pipeline,
        bind_group,
        x: groups(width as int, 8) as u32,
        y: groups(height as int, 8) as u32,
        z: 1,
    }
}

/// Appends the dispatch that covers a grid with workgroups.
pub fn record_tiled(
    pipeline: &ComputePipeline,
    encoder: &mut CommandEncoder,
    bind_group: &BindGroup,
    height: u32,
    width: u32,
)
    ensures
        final(encoder)@ == old(encoder)@.push(tile_command(*pipeline, *bind_group, height, width)),
{
    let wg_x: u32 = div_ceil(width, WORKGROUP_X);
    let wg_y: u32 = div_ceil(height, WORKGROUP_Y);
    encoder.dispatch(pipeline, bind_group, wg_x, wg_y);
}

/// Every cell of the grid belongs to a workgroup of the dispatch, and no
/// workgroup lies outside the grid.
pub proof fn law_tiles_cover_grid(height: u32, width: u32)
    ensures
        width <= groups(width as int, 8) * 8 < width + 8,
        height <= groups(height as int, 8) * 8 < height + 8,
        groups(width as int, 8) <= u32::MAX,
        groups(height as int, 8) <= u32::MAX,
{
    crate::device::law_groups_cover(width as int, 8);
    crate::device::law_groups_cover(height as int, 8);
}

/// The uniform buffer of a block.
pub open spec fn globals_buffer(globals: GpuGlobals) -> BufferSpec {
    filled(word_bytes(globals.words()), BufferUsages::of_uniform())
}

/// Asks for the uniform buffer of a block.
pub fn upload_globals_block(ctx: &mut GpuContext, globals: &GpuGlobals) -> (buffer: Buffer)
    ensures
        buffer.id == old(ctx)@.len(),
        final(ctx)@ == old(ctx)@.push(globals_buffer(*globals)),
        final(ctx).queue() == old(ctx).queue(),
{
    ctx.create_buffer_init(globals.to_bytes(), BufferUsages::uniform())
}

/// A zeroed output of `a * b * c` words that may be read back.
pub open spec fn output_buffer(a: u32, b: u32, c: u32) -> BufferSpec {
    zeroed(a * b * c * 4, BufferUsages::of_storage().and_copy_src())
}

/// Bytes of `a * b * c` words.
pub fn words3(a: u32, b: u32, c: u32) -> (bytes: u64)
    requires
        a * b * c * 4 <= u64::MAX,
    ensures
        bytes == a * b * c * 4,
{
    proof {
        lemma_product3(a as int, b as int, c as int);
    }
    a as u64 * b as u64 * c as u64 * 4
}

/// Products of numbers that are not negative: a factor that is not zero makes
/// them no smaller.
pub proof fn lemma_product3(a: int, b: int, c: int)
    requires
        0 <= a <= u32::MAX,
        0 <= b <= u32::MAX,
        0 <= c,
    ensures
        0 <= a * b <= u64::MAX,
        0 <= a * b * c,
{
    assert(0 <= a * b <= u32::MAX * u32::MAX) by (nonlinear_arith)
        requires
            0 <= a <= u32::MAX,
            0 <= b <= u32::MAX,
    ;
    assert(0 <= a * b * c) by (nonlinear_arith)
        requires
            0 <= a * b,
            0 <= c,
    ;
}

/// Asks for a zeroed output of `a * b * c` words that may be read back.
pub fn allocate_output(ctx: &mut GpuContext, a: u32, b: u32, c: u32) -> (buffer: Buffer)
    requires
        a * b * c * 4 <= u64::MAX,
    ensures
        buffer.id == old(ctx)@.len(),
        final(ctx)@ == old(ctx)@.push(output_buffer(a, b, c)),
        final(ctx).queue() == old(ctx).queue(),
{
    let bytes: u64 = words3(a, b, c);
    ctx.create_buffer(bytes, BufferUsages::storage().with_copy_src())
}

} // verus!
