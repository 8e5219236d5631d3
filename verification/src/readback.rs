//! Copying a buffer back to the host.
//!
//! A readback is recorded with [`readback_buffer`]: a staging buffer and a copy
//! into it. Once the copy has run, the staging buffer's bytes go through
//! [`decode_readback`].

use crate::device::{zeroed, Buffer, BufferUsages, Command, CommandEncoder, GpuContext};
use crate::words::{bytes_to_words, bytes_words};
use vstd::prelude::*;

verus! {

/// Asks for a staging buffer of `element_count` elements of `element_words`
/// words and records the copy of that much of `source` into it.
pub fn readback_buffer(
    ctx: &mut GpuContext,
    encoder: &mut CommandEncoder,
    source: Buffer,
    element_count: usize,
    element_words: usize,
) -> (staging: Buffer)
    requires
        4 * (element_count * element_words) <= usize::MAX,
    ensures
        staging.id == old(ctx)@.len(),
        final(ctx)@ == old(ctx)@.push(
            zeroed(4 * (element_count * element_words), BufferUsages::of_readback()),
        ),
        final(ctx).queue() == old(ctx).queue(),
        final(encoder)@ == old(encoder)@.push(
            whole_copy(source, staging, 4 * (element_count * element_words)),
        ),
        final(encoder)@ == old(encoder)@.push(
            (Command::Copy {
                src: source,
                src_offset: 0,
                dst: staging,
                dst_offset: 0,
                size: (4 * (element_count * element_words)) as u64,
            }),
        ),
{
    proof {
        assert(0 <= element_count * element_words) by (nonlinear_arith);
    }
    let words: usize = element_count * element_words;
    let bytes: u64 = (4 * words) as u64;
    let staging = ctx.create_buffer(bytes, BufferUsages::readback());
    encoder.copy_buffer_to_buffer(source, 0, staging, 0, bytes);
    staging
}

/// The words of a mapped staging buffer; `None` where it does not hold exactly
/// `word_count` of them.
pub fn decode_readback(bytes: &[u8], word_count: usize) -> (words: Option<Vec<u32>>)
    ensures
        words is Some <==> bytes@.len() == 4 * word_count,
        words is Some ==> words->0@ == bytes_words(bytes@),
{
    match bytes_to_words(bytes) {
        None => None,
        Some(words) => if words.len() == word_count {
            Some(words)
        } else {
            None
        },
    }
}

/// The copy of the first `bytes` bytes of a buffer to the start of another.
pub open spec fn whole_copy(source: Buffer, staging: Buffer, bytes: int) -> Command {
    Command::Copy {
        src: source,
        src_offset: 0,
        dst: staging,
        dst_offset: 0,
        size: bytes as u64,
    }
}

/// A readback copies from the start of the buffer, as much as was asked for, to
/// the start of the staging buffer.
pub proof fn law_readback_copies_from_start(source: Buffer, staging: Buffer, bytes: int)
    requires
        0 <= bytes <= u64::MAX,
    ensures
        match whole_copy(source, staging, bytes) {
            Command::Copy { src, src_offset, dst, dst_offset, size } => {
                &&& src == source && dst == staging
                &&& src_offset == 0 && dst_offset == 0
                &&& size == bytes
            },
            _ => false,
        },
{
}

} // verus!
