//! What the buffers of a run start with, handle by handle.
//!
//! Words are read from the bytes that a buffer is created with.

use crate::activation_buffer::{activation_usage, channel_major, law_channel_major_index};
use crate::app_state::{parameter_write, Run, RunInputs};
use crate::config::{BorderMode, FlowLeniaConfig, KernelEntry};
use crate::device::{filled, Buffer, BufferSpec, BufferUsages};
use crate::field::{field_extents, ActivationField};
use crate::globals::{law_block_words, GpuGlobals};
use crate::kernel_buffers::{
    bank_meta, kernels_usage, law_packed_index, lemma_max_rows, meta_usage, meta_words, packed,
    KernelBank,
};
use crate::meaning::words_in;
use crate::passes::affinity_growth::{padded_weights, weights_usage};
use crate::passes::convolve_fft::{convolve_fft_buffers, routing_of};
use crate::passes::fft::pair_words;
use crate::passes::kernel_fft::{kernel_fft_buffer, spectra_words};
use crate::pipeline::{
    bank_weights, fft_base, localized_specs, pipeline_error, pipeline_specs, run_globals,
    startup_writes, step_buffer_specs, AffinityMode, ConvolveMode, GpuStepPipeline,
};
use crate::validity::has_from;
use crate::words::{bytes_words, law_words_round_trip, word_bytes, F32Bits};
use vstd::prelude::*;

verus! {

/// The device has the buffers of a pipeline that was built without an error.
#[verifier::opaque]
pub open spec fn placed(
    s: Seq<BufferSpec>,
    built: GpuStepPipeline,
    cfg: FlowLeniaConfig,
    bank: KernelBank,
    initial_a: ActivationField,
    convolve_mode: ConvolveMode,
    affinity_mode: AffinityMode,
    map_len: Option<nat>,
    twiddles: Seq<(F32Bits, F32Bits)>,
    start: int,
) -> bool {
    &&& 0 <= start
    &&& start + 14 <= usize::MAX
    &&& bank.fits()
    &&& pipeline_error(cfg, bank, initial_a, convolve_mode, affinity_mode, map_len) is None
    &&& built.is_built(start, cfg, bank, convolve_mode, affinity_mode)
    &&& has_from(
        s,
        start,
        pipeline_specs(cfg, bank, initial_a, convolve_mode, affinity_mode, twiddles),
    )
}

proof fn lemma_step_part(
    s: Seq<BufferSpec>,
    cfg: FlowLeniaConfig,
    bank: KernelBank,
    initial_a: ActivationField,
    convolve_mode: ConvolveMode,
    affinity_mode: AffinityMode,
    twiddles: Seq<(F32Bits, F32Bits)>,
    start: int,
    j: int,
)
    requires
        0 <= j < 11,
        has_from(
            s,
            start,
            pipeline_specs(cfg, bank, initial_a, convolve_mode, affinity_mode, twiddles),
        ),
    ensures
        step_buffer_specs(cfg, bank, initial_a).len() == 11,
        s[start + j] == step_buffer_specs(cfg, bank, initial_a)[j],
{
    let steps = step_buffer_specs(cfg, bank, initial_a);
    let all = pipeline_specs(cfg, bank, initial_a, convolve_mode, affinity_mode, twiddles);
    assert(steps.len() == 11);
    assert(all[j] == steps[j]);
    assert(s[start + j] == all[j]);
}

/// A buffer that starts with words holds them.
proof fn lemma_filled(s: Seq<BufferSpec>, b: Buffer, words: Seq<u32>, usage: BufferUsages)
    requires
        s[b.id as int] == filled(word_bytes(words), usage),
    ensures
        words_in(s, b) == words,
        s[b.id as int].size == 4 * words.len(),
{
    law_words_round_trip(words);
}

/// The buffers of the steps, one by one.
proof fn lemma_step_specs(
    s: Seq<BufferSpec>,
    cfg: FlowLeniaConfig,
    bank: KernelBank,
    initial_a: ActivationField,
    start: int,
)
    requires
        has_from(s, start, step_buffer_specs(cfg, bank, initial_a)),
    ensures
        s[start] == filled(word_bytes(packed(bank.images@, bank.side())), kernels_usage()),
        s[start + 1] == filled(
            word_bytes(meta_words(bank_meta(bank.params.kernels@))),
            meta_usage(),
        ),
        s[start + 2] == filled(
            word_bytes(padded_weights(bank_weights(bank.params.kernels@))),
            weights_usage(),
        ),
        s[start + 8] == filled(
            word_bytes(run_globals(cfg, bank).words()),
            BufferUsages::of_uniform(),
        ),
        s[start + 9] == filled(word_bytes(channel_major(initial_a)), activation_usage()),
        s[start + 10].size == cfg.grid_height * cfg.grid_width * cfg.channels * 4,
{
    let steps = step_buffer_specs(cfg, bank, initial_a);
    assert(steps.len() == 11);
    assert(s[start + 0] == steps[0]);
    assert(s[start + 1] == steps[1]);
    assert(s[start + 2] == steps[2]);
    assert(s[start + 8] == steps[8]);
    assert(s[start + 9] == steps[9]);
    assert(s[start + 10] == steps[10]);
}

/// The handles of a built pipeline, and what its arguments satisfy.
#[verifier::rlimit(40)]
#[verifier::spinoff_prover]
proof fn lemma_placed_handles(
    s: Seq<BufferSpec>,
    built: GpuStepPipeline,
    cfg: FlowLeniaConfig,
    bank: KernelBank,
    initial_a: ActivationField,
    convolve_mode: ConvolveMode,
    affinity_mode: AffinityMode,
    map_len: Option<nat>,
    twiddles: Seq<(F32Bits, F32Bits)>,
    start: int,
)
    requires
        placed(
            s,
            built,
            cfg,
            bank,
            initial_a,
            convolve_mode,
            affinity_mode,
            map_len,
            twiddles,
            start,
        ),
    ensures
        ({
            let b = built.buffers;
            let k = bank.params.kernels@.len();
            &&& 0 <= start && start + 14 <= usize::MAX
            &&& has_from(s, start, step_buffer_specs(cfg, bank, initial_a))
            &&& k <= 45 && k == cfg.num_kernels && k == bank.images@.len()
            &&& bank.fits()
            &&& b.kernels.count == k
            &&& b.kernels.max_side == bank.side() as u32
            &&& bank.side() % 2 == 1
            &&& field_extents(initial_a) == (
                cfg.grid_height as int,
                cfg.grid_width as int,
                cfg.channels as int,
            )
            &&& b.kernels.kernels.id == start
            &&& b.kernels.meta.id == start + 1
            &&& b.h_weights.id == start + 2
            &&& b.globals.id == start + 8
            &&& b.a.first.id == start + 9
            &&& b.a.second.id == start + 10
            &&& built.current_a() == b.a.first && built.other_a() == b.a.second
            &&& affinity_mode == AffinityMode::Constant ==> built.weights() == b.h_weights
        }),
{
    reveal(placed);
    let steps = step_buffer_specs(cfg, bank, initial_a);
    let all = pipeline_specs(cfg, bank, initial_a, convolve_mode, affinity_mode, twiddles);
    assert(steps.len() == 11);
    assert forall|i: int| 0 <= i < steps.len() implies s[start + i] == #[trigger] steps[i] by {
        assert(all[i] == steps[i]);
    }
}

/// The handles of a built pipeline, and the words behind them.
#[verifier::rlimit(40)]
#[verifier::spinoff_prover]
proof fn lemma_placed(
    s: Seq<BufferSpec>,
    built: GpuStepPipeline,
    cfg: FlowLeniaConfig,
    bank: KernelBank,
    initial_a: ActivationField,
    convolve_mode: ConvolveMode,
    affinity_mode: AffinityMode,
    map_len: Option<nat>,
    twiddles: Seq<(F32Bits, F32Bits)>,
    start: int,
)
    requires
        placed(
            s,
            built,
            cfg,
            bank,
            initial_a,
            convolve_mode,
            affinity_mode,
            map_len,
            twiddles,
            start,
        ),
    ensures
        ({
            let b = built.buffers;
            let k = bank.params.kernels@.len();
            &&& k <= 45 && k == cfg.num_kernels && k == bank.images@.len()
            &&& bank.fits()
            &&& b.kernels.count == k
            &&& b.kernels.max_side == bank.side() as u32
            &&& bank.side() % 2 == 1
            &&& field_extents(initial_a) == (
                cfg.grid_height as int,
                cfg.grid_width as int,
                cfg.channels as int,
            )
            &&& words_in(s, b.kernels.kernels) == packed(bank.images@, bank.side())
            &&& words_in(s, b.kernels.meta) == meta_words(bank_meta(bank.params.kernels@))
            &&& words_in(s, b.h_weights) == padded_weights(bank_weights(bank.params.kernels@))
            &&& words_in(s, b.globals) == run_globals(cfg, bank).words()
            &&& words_in(s, built.current_a()) == channel_major(initial_a)
            &&& built.current_a() == b.a.first && built.other_a() == b.a.second
            &&& b.a.first != b.a.second
            &&& affinity_mode == AffinityMode::Constant ==> built.weights() == b.h_weights
            &&& s[b.a.first.id as int].size == 4 * channel_major(initial_a).len()
            &&& s[b.a.second.id as int].size == cfg.grid_height * cfg.grid_width * cfg.channels
                * 4
        }),
{
    lemma_placed_handles(
        s,
        built,
        cfg,
        bank,
        initial_a,
        convolve_mode,
        affinity_mode,
        map_len,
        twiddles,
        start,
    );
    let b = built.buffers;
    lemma_step_specs(s, cfg, bank, initial_a, start);
    lemma_filled(s, b.kernels.kernels, packed(bank.images@, bank.side()), kernels_usage());
    lemma_filled(s, b.kernels.meta, meta_words(bank_meta(bank.params.kernels@)), meta_usage());
    lemma_filled(
        s,
        b.h_weights,
        padded_weights(bank_weights(bank.params.kernels@)),
        weights_usage(),
    );
    lemma_filled(s, b.globals, run_globals(cfg, bank).words(), BufferUsages::of_uniform());
    lemma_filled(s, b.a.first, channel_major(initial_a), activation_usage());
}

/// The side of a bank is a number that 32 bits can hold.
proof fn lemma_side(bank: KernelBank)
    requires
        bank.fits(),
    ensures
        0 <= bank.side() <= u32::MAX,
        forall|i: int| 0 <= i < bank.images@.len() ==> (#[trigger] bank.images@[i]).rows()
            <= bank.side(),
        0 <= bank.images@.len() * bank.side() * bank.side(),
{
    lemma_max_rows(bank.images@);
    let side = bank.side();
    let count = bank.images@.len() as int;
    assert(side <= u32::MAX) by (nonlinear_arith)
        requires
            side * side <= u32::MAX,
    ;
    assert(0 <= count * side * side) by (nonlinear_arith)
        requires
            0 <= count,
            0 <= side,
    ;
}

proof fn lemma_record_words(kernels: Seq<KernelEntry>, i: int)
    requires
        0 <= i < kernels.len(),
    ensures
        ({
            let words = meta_words(bank_meta(kernels));
            &&& words.len() == 4 * kernels.len()
            &&& words[4 * i] == kernels[i].c0
            &&& words[4 * i + 1] == kernels[i].c1
            &&& words[4 * i + 2] == kernels[i].mu
            &&& words[4 * i + 3] == kernels[i].sigma
        }),
{
    assert((4 * i) / 4 == i && (4 * i) % 4 == 0);
    assert((4 * i + 1) / 4 == i && (4 * i + 1) % 4 == 1);
    assert((4 * i + 2) / 4 == i && (4 * i + 2) % 4 == 2);
    assert((4 * i + 3) / 4 == i && (4 * i + 3) % 4 == 3);
}

proof fn lemma_field_len(initial_a: ActivationField, h: int, w: int, c: int)
    requires
        field_extents(initial_a) == (h, w, c),
        0 <= h,
        0 <= w,
        0 <= c,
    ensures
        channel_major(initial_a).len() == c * h * w,
        h * w * c * 4 == 4 * (c * h * w),
{
    assert(0 <= c * h * w && h * w * c * 4 == 4 * (c * h * w)) by (nonlinear_arith)
        requires
            0 <= h,
            0 <= w,
            0 <= c,
    ;
}

/// The weights that the constant affinity reads are the weights of the kernels,
/// in order, and zero beyond them.
pub proof fn law_weights_hold_h(
    s: Seq<BufferSpec>,
    built: GpuStepPipeline,
    cfg: FlowLeniaConfig,
    bank: KernelBank,
    initial_a: ActivationField,
    convolve_mode: ConvolveMode,
    affinity_mode: AffinityMode,
    map_len: Option<nat>,
    twiddles: Seq<(F32Bits, F32Bits)>,
    start: int,
    i: int,
)
    requires
        placed(
            s,
            built,
            cfg,
            bank,
            initial_a,
            convolve_mode,
            affinity_mode,
            map_len,
            twiddles,
            start,
        ),
        0 <= i < 45,
    ensures
        ({
            let words = words_in(s, built.buffers.h_weights);
            let kernels = bank.params.kernels@;
            &&& words.len() == 45
            &&& kernels.len() <= 45
            &&& i < kernels.len() ==> words[i] == kernels[i].h
            &&& i >= kernels.len() ==> words[i] == 0
            &&& affinity_mode == AffinityMode::Constant ==> built.weights()
                == built.buffers.h_weights
        }),
{
    lemma_placed(
        s,
        built,
        cfg,
        bank,
        initial_a,
        convolve_mode,
        affinity_mode,
        map_len,
        twiddles,
        start,
    );
}

/// Every kernel has its record: source channel, target channel, mean and width
/// of the growth function, four words per kernel.
pub proof fn law_records_hold_kernels(
    s: Seq<BufferSpec>,
    built: GpuStepPipeline,
    cfg: FlowLeniaConfig,
    bank: KernelBank,
    initial_a: ActivationField,
    convolve_mode: ConvolveMode,
    affinity_mode: AffinityMode,
    map_len: Option<nat>,
    twiddles: Seq<(F32Bits, F32Bits)>,
    start: int,
    i: int,
)
    requires
        placed(
            s,
            built,
            cfg,
            bank,
            initial_a,
            convolve_mode,
            affinity_mode,
            map_len,
            twiddles,
            start,
        ),
        0 <= i < bank.params.kernels@.len(),
    ensures
        ({
            let words = words_in(s, built.buffers.kernels.meta);
            let kernel = bank.params.kernels@[i];
            &&& words.len() == 4 * bank.params.kernels@.len()
            &&& words[4 * i] == kernel.c0
            &&& words[4 * i + 1] == kernel.c1
            &&& words[4 * i + 2] == kernel.mu
            &&& words[4 * i + 3] == kernel.sigma
            &&& built.buffers.kernels.count == bank.params.kernels@.len()
            &&& built.buffers.kernels.count == cfg.num_kernels
        }),
{
    lemma_placed(
        s,
        built,
        cfg,
        bank,
        initial_a,
        convolve_mode,
        affinity_mode,
        map_len,
        twiddles,
        start,
    );
    lemma_record_words(bank.params.kernels@, i);
}

/// Every element of every kernel image stands in the kernel's square, centred:
/// the squares follow each other, all of the side that the records are read
/// with, and the image lies as far from either edge.
pub proof fn law_kernels_hold_images(
    s: Seq<BufferSpec>,
    built: GpuStepPipeline,
    cfg: FlowLeniaConfig,
    bank: KernelBank,
    initial_a: ActivationField,
    convolve_mode: ConvolveMode,
    affinity_mode: AffinityMode,
    map_len: Option<nat>,
    twiddles: Seq<(F32Bits, F32Bits)>,
    start: int,
    k: int,
    y: int,
    x: int,
)
    requires
        placed(
            s,
            built,
            cfg,
            bank,
            initial_a,
            convolve_mode,
            affinity_mode,
            map_len,
            twiddles,
            start,
        ),
        0 <= k < bank.images@.len(),
        0 <= y < bank.images@[k].rows(),
        0 <= x < bank.images@[k].rows(),
    ensures
        ({
            let words = words_in(s, built.buffers.kernels.kernels);
            let side = built.buffers.kernels.max_side as int;
            let offset = (side - bank.images@[k].rows()) / 2;
            let at = k * side * side + (y + offset) * side + (x + offset);
            &&& bank.images@[k].rows() <= side
            &&& words.len() == bank.images@.len() * side * side
            &&& 0 <= at < words.len()
            &&& words[at] == bank.images@[k].at(y, x)
        }),
{
    lemma_placed(
        s,
        built,
        cfg,
        bank,
        initial_a,
        convolve_mode,
        affinity_mode,
        map_len,
        twiddles,
        start,
    );
    lemma_side(bank);
    law_packed_index(bank.images@, k, y, x);
}

/// The first activation buffer starts with the given field, channel by channel,
/// row by row; it is the current one, and the other is as large.
pub proof fn law_activation_holds_field(
    s: Seq<BufferSpec>,
    built: GpuStepPipeline,
    cfg: FlowLeniaConfig,
    bank: KernelBank,
    initial_a: ActivationField,
    convolve_mode: ConvolveMode,
    affinity_mode: AffinityMode,
    map_len: Option<nat>,
    twiddles: Seq<(F32Bits, F32Bits)>,
    start: int,
    y: int,
    x: int,
    c: int,
)
    requires
        placed(
            s,
            built,
            cfg,
            bank,
            initial_a,
            convolve_mode,
            affinity_mode,
            map_len,
            twiddles,
            start,
        ),
        0 <= y < cfg.grid_height,
        0 <= x < cfg.grid_width,
        0 <= c < cfg.channels,
    ensures
        ({
            let words = words_in(s, built.current_a());
            let (h, w) = (cfg.grid_height as int, cfg.grid_width as int);
            let at = c * h * w + y * w + x;
            &&& built.current_a() != built.other_a()
            &&& words.len() == cfg.channels * h * w
            &&& 0 <= at < words.len()
            &&& words[at] == initial_a.at(y, x, c)
            &&& s[built.current_a().id as int].size == 4 * (cfg.channels * h * w)
            &&& s[built.other_a().id as int].size == 4 * (cfg.channels * h * w)
        }),
{
    lemma_placed(
        s,
        built,
        cfg,
        bank,
        initial_a,
        convolve_mode,
        affinity_mode,
        map_len,
        twiddles,
        start,
    );
    lemma_field_len(
        initial_a,
        cfg.grid_height as int,
        cfg.grid_width as int,
        cfg.channels as int,
    );
    law_channel_major_index(initial_a, y, x, c);
}

/// The words of a parameter block for a configuration on a grid with a bank.
pub open spec fn is_block(
    words: Seq<u32>,
    height: u32,
    width: u32,
    channels: u32,
    kernels: int,
    side: int,
    cfg: FlowLeniaConfig,
) -> bool {
    &&& words.len() == 16
    &&& words[0] == height && words[1] == width && words[2] == channels
    &&& words[3] == kernels
    &&& words[4] == side && side == 2 * words[5] + 1
    &&& words[6] == if cfg.border == BorderMode::Wall {
        1u32
    } else {
        0u32
    }
    &&& words[7] == if cfg.paper_strict {
        1u32
    } else {
        0u32
    }
    &&& words[8] == cfg.beta_a && words[9] == cfg.n
    &&& words[10] == cfg.dd
    &&& words[11] == cfg.sigma && words[12] == cfg.dt
    &&& words[13] == 0 && words[14] == 0 && words[15] == 0
}

/// The parameters that every pass reads are those of the configuration, each in
/// its place.
pub proof fn law_parameters_hold_config(
    s: Seq<BufferSpec>,
    built: GpuStepPipeline,
    cfg: FlowLeniaConfig,
    bank: KernelBank,
    initial_a: ActivationField,
    convolve_mode: ConvolveMode,
    affinity_mode: AffinityMode,
    map_len: Option<nat>,
    twiddles: Seq<(F32Bits, F32Bits)>,
    start: int,
)
    requires
        placed(
            s,
            built,
            cfg,
            bank,
            initial_a,
            convolve_mode,
            affinity_mode,
            map_len,
            twiddles,
            start,
        ),
    ensures
        is_block(
            words_in(s, built.buffers.globals),
            cfg.grid_height,
            cfg.grid_width,
            cfg.channels,
            cfg.num_kernels as int,
            built.buffers.kernels.max_side as int,
            cfg,
        ),
{
    lemma_placed(
        s,
        built,
        cfg,
        bank,
        initial_a,
        convolve_mode,
        affinity_mode,
        map_len,
        twiddles,
        start,
    );
    lemma_side(bank);
    law_block_words(
        cfg.grid_height,
        cfg.grid_width,
        cfg.channels,
        bank.params.kernels@.len() as u32,
        bank.side() as u32,
        cfg,
    );
}

/// New parameters go to the block that every pass reads, and are those of the
/// new configuration, each in its place; grid and bank stay the run's.
pub proof fn law_update_holds_config(p: GpuStepPipeline, cfg: FlowLeniaConfig)
    requires
        p.wf(),
    ensures
        parameter_write(p, cfg).0 == p.buffers.globals,
        is_block(
            bytes_words(parameter_write(p, cfg).1),
            p.height,
            p.width,
            p.channels,
            p.buffers.kernels.count as int,
            p.buffers.kernels.max_side as int,
            cfg,
        ),
{
    let block = GpuGlobals::for_config(
        p.height,
        p.width,
        p.channels,
        p.buffers.kernels.count,
        p.buffers.kernels.max_side,
        cfg,
    );
    law_words_round_trip(block.words());
    law_block_words(
        p.height,
        p.width,
        p.channels,
        p.buffers.kernels.count,
        p.buffers.kernels.max_side,
        cfg,
    );
}

/// The buffers between the passes hold what the passes put there: one word per
/// cell and kernel for the convolutions, one per cell and channel for the
/// affinity, two for its gradient and for the flow, and two per cell for the
/// gradient of the mass.
#[verifier::rlimit(40)]
#[verifier::spinoff_prover]
pub proof fn law_working_sizes(
    s: Seq<BufferSpec>,
    built: GpuStepPipeline,
    cfg: FlowLeniaConfig,
    bank: KernelBank,
    initial_a: ActivationField,
    convolve_mode: ConvolveMode,
    affinity_mode: AffinityMode,
    map_len: Option<nat>,
    twiddles: Seq<(F32Bits, F32Bits)>,
    start: int,
)
    requires
        placed(
            s,
            built,
            cfg,
            bank,
            initial_a,
            convolve_mode,
            affinity_mode,
            map_len,
            twiddles,
            start,
        ),
    ensures
        ({
            let b = built.buffers;
            let (h, w) = (cfg.grid_height as int, cfg.grid_width as int);
            &&& s[b.pre_g.id as int].size == 4 * (h * w * cfg.num_kernels)
            &&& s[b.u.id as int].size == 4 * (h * w * cfg.channels)
            &&& s[b.grad_u.id as int].size == 4 * (2 * (h * w * cfg.channels))
            &&& s[b.grad_a_sum.id as int].size == 4 * (2 * (h * w))
            &&& s[b.flow.id as int].size == 4 * (2 * (h * w * cfg.channels))
        }),
{
    reveal(placed);
    lemma_step_part(s, cfg, bank, initial_a, convolve_mode, affinity_mode, twiddles, start, 3);
    lemma_step_part(s, cfg, bank, initial_a, convolve_mode, affinity_mode, twiddles, start, 4);
    lemma_step_part(s, cfg, bank, initial_a, convolve_mode, affinity_mode, twiddles, start, 5);
    lemma_step_part(s, cfg, bank, initial_a, convolve_mode, affinity_mode, twiddles, start, 6);
    lemma_step_part(s, cfg, bank, initial_a, convolve_mode, affinity_mode, twiddles, start, 7);
}

/// A run with a parameter map has two buffers for it, each of one word per cell
/// and kernel, the source channel of every kernel, and one write that puts the
/// map into the buffer which the first step reads.
#[verifier::rlimit(40)]
#[verifier::spinoff_prover]
pub proof fn law_map_and_routing(
    s: Seq<BufferSpec>,
    built: GpuStepPipeline,
    cfg: FlowLeniaConfig,
    bank: KernelBank,
    initial_a: ActivationField,
    convolve_mode: ConvolveMode,
    p_map: &Vec<F32Bits>,
    twiddles: Seq<(F32Bits, F32Bits)>,
    start: int,
    i: int,
)
    requires
        placed(
            s,
            built,
            cfg,
            bank,
            initial_a,
            convolve_mode,
            AffinityMode::Localized,
            Some(p_map@.len()),
            twiddles,
            start,
        ),
        built.wf(),
        0 <= i < bank.params.kernels@.len(),
    ensures
        ({
            let l = built.localized->0;
            let writes = startup_writes(start, Some(p_map));
            let words = cfg.grid_height * cfg.grid_width * cfg.num_kernels;
            &&& built.localized is Some
            &&& words_in(s, l.routing).len() == bank.params.kernels@.len()
            &&& words_in(s, l.routing)[i] == bank.params.kernels@[i].c0
            &&& l.p.first != l.p.second
            &&& s[l.p.first.id as int].size == 4 * words
            &&& s[l.p.second.id as int].size == 4 * words
            &&& p_map@.len() == words
            &&& writes.len() == 1
            &&& writes[0].0 == built.weights()
            &&& bytes_words(writes[0].1) == p_map@
        }),
{
    reveal(placed);
    let steps = step_buffer_specs(cfg, bank, initial_a);
    let local = localized_specs(cfg, bank);
    let all = pipeline_specs(
        cfg,
        bank,
        initial_a,
        convolve_mode,
        AffinityMode::Localized,
        twiddles,
    );
    assert(steps.len() == 11);
    assert(all[11] == local[0]);
    assert(all[12] == local[1]);
    assert(all[13] == local[2]);
    assert(s[start + 11] == all[11]);
    assert(s[start + 12] == all[12]);
    assert(s[start + 13] == all[13]);
    law_words_round_trip(routing_of(bank.params));
    law_words_round_trip(p_map@);
}

/// The twiddle factors are in their buffer, real part first.
#[verifier::rlimit(40)]
#[verifier::spinoff_prover]
pub proof fn law_twiddles_hold_table(
    s: Seq<BufferSpec>,
    built: GpuStepPipeline,
    cfg: FlowLeniaConfig,
    bank: KernelBank,
    initial_a: ActivationField,
    convolve_mode: ConvolveMode,
    affinity_mode: AffinityMode,
    map_len: Option<nat>,
    twiddles: Seq<(F32Bits, F32Bits)>,
    start: int,
    i: int,
)
    requires
        placed(
            s,
            built,
            cfg,
            bank,
            initial_a,
            convolve_mode,
            affinity_mode,
            map_len,
            twiddles,
            start,
        ),
        start + 23 <= usize::MAX,
        built.convolve_mode == ConvolveMode::Fft,
        0 <= i < twiddles.len(),
    ensures
        ({
            let words = words_in(s, built.convolve_fft_pass->0.twiddles);
            &&& words.len() == 2 * twiddles.len()
            &&& words[2 * i] == twiddles[i].0
            &&& words[2 * i + 1] == twiddles[i].1
        }),
{
    reveal(placed);
    let steps = step_buffer_specs(cfg, bank, initial_a);
    let all = pipeline_specs(cfg, bank, initial_a, convolve_mode, affinity_mode, twiddles);
    let conv = convolve_fft_buffers(
        cfg.grid_width,
        bank.params.kernels@.len() as u32,
        cfg.channels,
        twiddles,
    );
    let first = fft_base(start, affinity_mode) - start;
    assert(steps.len() == 11);
    assert(all[first] == conv[0]);
    assert(s[start + first] == all[first]);
    law_words_round_trip(pair_words(twiddles));
    assert((2 * i) % 2 == 0 && (2 * i) / 2 == i && (2 * i + 1) % 2 == 1 && (2 * i + 1) / 2 == i);
}

/// The spectrum of kernel `ki` stands in slice `ki` of the buffer of all
/// spectra: complex number `j` of it in the two words from `2 * j` on, after
/// the `2 * n * n` words of each kernel before.
pub proof fn law_spectra_hold_kernels(
    spectra: Seq<Vec<(F32Bits, F32Bits)>>,
    n: u32,
    ki: int,
    j: int,
)
    requires
        forall|i: int| 0 <= i < spectra.len() ==> (#[trigger] spectra[i])@.len() == n * n,
        0 <= ki < spectra.len(),
        0 <= j < n * n,
    ensures
        ({
            let words = bytes_words(kernel_fft_buffer(spectra, n).contents->0);
            let at = ki * (2 * (n * n)) + 2 * j;
            &&& words.len() == spectra.len() * (2 * (n * n))
            &&& 0 <= at && at + 1 < words.len()
            &&& words[at] == spectra[ki]@[j].0
            &&& words[at + 1] == spectra[ki]@[j].1
            &&& kernel_fft_buffer(spectra, n).size == 8 * (n * n) * spectra.len()
        }),
{
    let cells = n * n;
    let count = spectra.len() as int;
    law_words_round_trip(spectra_words(spectra, cells));
    crate::index::lemma_idx3(ki, j, 0, count, cells, 2);
    crate::index::lemma_idx3(ki, j, 1, count, cells, 2);
    assert(ki * (2 * cells) + 2 * j == (ki * cells + j) * 2) by (nonlinear_arith);
    assert(count * (2 * cells) == count * cells * 2 && 0 <= count * cells * 2 && 4 * (count * cells
        * 2) == 8 * cells * count) by (nonlinear_arith)
        requires
            0 <= count,
            0 <= cells,
    ;
}

/// The parameters of the draw say the grid, the channels and the pixels per
/// cell.
pub proof fn law_draw_parameters(s: Seq<BufferSpec>, run: Run, cfg: FlowLeniaConfig, inputs: RunInputs, start: int)
    requires
        0 <= start,
        run.is_built(start, cfg, inputs),
        has_from(s, start, inputs.run_specs(cfg)),
    ensures
        words_in(s, run.visualize_globals) == seq![
            cfg.grid_height,
            cfg.grid_width,
            cfg.channels,
            run.visualize.scale,
        ],
        run.viewport.x == 0 && run.viewport.y == 0,
        run.viewport.width == run.viewport.height,
{
    let specs = inputs.run_specs(cfg);
    assert(s[start + (specs.len() - 1)] == specs[specs.len() - 1]);
    law_words_round_trip(
        seq![cfg.grid_height, cfg.grid_width, cfg.channels, inputs.scale(cfg) as u32],
    );
}

/// What the buffers of a run may be used for: the ones that are only uploaded
/// take copies and give them, the results of the passes give them, the
/// parameters can be rewritten, and activations and maps do both.
#[verifier::rlimit(40)]
#[verifier::spinoff_prover]
pub proof fn law_run_usages(
    s: Seq<BufferSpec>,
    built: GpuStepPipeline,
    cfg: FlowLeniaConfig,
    bank: KernelBank,
    initial_a: ActivationField,
    convolve_mode: ConvolveMode,
    affinity_mode: AffinityMode,
    map_len: Option<nat>,
    twiddles: Seq<(F32Bits, F32Bits)>,
    start: int,
)
    requires
        placed(
            s,
            built,
            cfg,
            bank,
            initial_a,
            convolve_mode,
            affinity_mode,
            map_len,
            twiddles,
            start,
        ),
    ensures
        ({
            let b = built.buffers;
            &&& may(s, b.kernels.kernels, true, false, true, true)
            &&& may(s, b.kernels.meta, true, true, true, true)
            &&& may(s, b.h_weights, true, false, true, true)
            &&& may(s, b.pre_g, true, false, true, false)
            &&& may(s, b.u, true, false, true, false)
            &&& may(s, b.grad_u, true, false, true, false)
            &&& may(s, b.grad_a_sum, true, false, true, false)
            &&& may(s, b.flow, true, false, true, false)
            &&& may(s, b.globals, false, true, false, true)
            &&& may(s, b.a.first, true, false, true, true)
            &&& may(s, b.a.second, true, false, true, true)
            &&& built.localized is Some ==> {
                let l = built.localized->0;
                &&& may(s, l.p.first, true, false, true, true)
                &&& may(s, l.p.second, true, false, true, true)
                &&& may(s, l.routing, true, false, false, true)
            }
        }),
{
    reveal(placed);
    let steps = step_buffer_specs(cfg, bank, initial_a);
    let all = pipeline_specs(cfg, bank, initial_a, convolve_mode, affinity_mode, twiddles);
    assert(steps.len() == 11);
    assert(all[0] == steps[0] && all[1] == steps[1] && all[2] == steps[2] && all[3] == steps[3]);
    assert(all[4] == steps[4] && all[5] == steps[5] && all[6] == steps[6] && all[7] == steps[7]);
    assert(all[8] == steps[8] && all[9] == steps[9] && all[10] == steps[10]);
    assert(s[start + 0] == all[0] && s[start + 1] == all[1] && s[start + 2] == all[2]);
    assert(s[start + 3] == all[3] && s[start + 4] == all[4] && s[start + 5] == all[5]);
    assert(s[start + 6] == all[6] && s[start + 7] == all[7] && s[start + 8] == all[8]);
    assert(s[start + 9] == all[9] && s[start + 10] == all[10]);
    if affinity_mode == AffinityMode::Localized {
        let local = localized_specs(cfg, bank);
        assert(all[11] == local[0] && all[12] == local[1] && all[13] == local[2]);
        assert(s[start + 11] == all[11] && s[start + 12] == all[12] && s[start + 13] == all[13]);
    }
}

/// The usages of a buffer that the host does not map.
pub open spec fn may(
    s: Seq<BufferSpec>,
    b: Buffer,
    storage: bool,
    uniform: bool,
    copy_src: bool,
    copy_dst: bool,
) -> bool {
    s[b.id as int].usage == (BufferUsages { storage, uniform, copy_src, copy_dst, map_read: false })
}

/// A device accepts the writes of the host: new parameters, and a new activation
/// for either buffer. The buffer takes copies and is as large as what is
/// written.
#[verifier::rlimit(40)]
#[verifier::spinoff_prover]
pub proof fn law_writes_fit(
    s: Seq<BufferSpec>,
    built: GpuStepPipeline,
    cfg: FlowLeniaConfig,
    bank: KernelBank,
    initial_a: ActivationField,
    convolve_mode: ConvolveMode,
    affinity_mode: AffinityMode,
    map_len: Option<nat>,
    twiddles: Seq<(F32Bits, F32Bits)>,
    start: int,
    new_cfg: FlowLeniaConfig,
    new_a: ActivationField,
)
    requires
        placed(
            s,
            built,
            cfg,
            bank,
            initial_a,
            convolve_mode,
            affinity_mode,
            map_len,
            twiddles,
            start,
        ),
        field_extents(new_a) == field_extents(initial_a),
    ensures
        ({
            let write = parameter_write(built, new_cfg);
            let bytes = word_bytes(channel_major(new_a));
            &&& s[write.0.id as int].usage.copy_dst
            &&& s[write.0.id as int].size == write.1.len()
            &&& s[built.current_a().id as int].usage.copy_dst
            &&& s[built.current_a().id as int].size == bytes.len()
            &&& s[built.other_a().id as int].usage.copy_dst
            &&& s[built.other_a().id as int].size == bytes.len()
        }),
{
    law_run_usages(
        s,
        built,
        cfg,
        bank,
        initial_a,
        convolve_mode,
        affinity_mode,
        map_len,
        twiddles,
        start,
    );
    lemma_placed(
        s,
        built,
        cfg,
        bank,
        initial_a,
        convolve_mode,
        affinity_mode,
        map_len,
        twiddles,
        start,
    );
    lemma_placed_handles(
        s,
        built,
        cfg,
        bank,
        initial_a,
        convolve_mode,
        affinity_mode,
        map_len,
        twiddles,
        start,
    );
    lemma_step_specs(s, cfg, bank, initial_a, start);
    let (h, w, c) = (cfg.grid_height as int, cfg.grid_width as int, cfg.channels as int);
    lemma_field_len(initial_a, h, w, c);
    lemma_field_len(new_a, h, w, c);
}

/// A new activation goes to the buffer that the next step reads, channel by
/// channel, row by row.
pub proof fn law_new_activation(p: GpuStepPipeline, a: ActivationField, y: int, x: int, c: int)
    requires
        0 <= y < a.h(),
        0 <= x < a.w(),
        0 <= c < a.c(),
    ensures
        ({
            let write = p.activation_write(a);
            let words = bytes_words(write.1);
            &&& write.0 == p.current_a()
            &&& 0 <= c * a.h() * a.w() + y * a.w() + x < words.len()
            &&& words[c * a.h() * a.w() + y * a.w() + x] == a.at(y, x, c)
        }),
{
    law_words_round_trip(channel_major(a));
    law_channel_major_index(a, y, x, c);
}

} // verus!
