//! What holds of every step: the order of its passes respects what they read
//! and write, the two activation buffers take turns, and nothing but the
//! current state enters.

use crate::config::FlowLeniaConfig;
use crate::device::{Buffer, BufferSpec, Command};
use crate::kernel_buffers::KernelBank;
use crate::passes::convolve_fft::{
    lemma_routed_bounds, lemma_used_bounds, routed, routing_of, ConvolveFftPass,
};
use crate::passes::fft::fft_layout;
use crate::passes::kernel_fft::KernelFftBuffers;
use crate::passes::spectral_multiply::linear_command;
use crate::pipeline::{
    AffinityMode, ConvolveMode, GpuStepPipeline, LocalizedState, StepBuffers, StepPasses,
};
use vstd::prelude::*;

verus! {

/// A command before position `i` writes `b`.
pub open spec fn written_before(cmds: Seq<Command>, i: int, b: Buffer) -> bool {
    exists|j: int| 0 <= j < i && (#[trigger] cmds[j]).writes(b)
}

/// Every command reads only buffers that are known from the start or that an
/// earlier command wrote.
pub open spec fn well_ordered(cmds: Seq<Command>, known: spec_fn(Buffer) -> bool) -> bool {
    forall|i: int, b: Buffer|
        0 <= i < cmds.len() && #[trigger] cmds[i].reads(b) ==> known(b) || written_before(
            cmds,
            i,
            b,
        )
}

/// No command reads a buffer that it writes.
pub open spec fn no_aliasing(cmds: Seq<Command>) -> bool {
    forall|i: int, b: Buffer|
        0 <= i < cmds.len() && #[trigger] cmds[i].reads(b) ==> !cmds[i].writes(b)
}

/// Every buffer that a command writes is one of the given ones.
pub open spec fn writes_only(cmds: Seq<Command>, allowed: spec_fn(Buffer) -> bool) -> bool {
    forall|i: int, b: Buffer| 0 <= i < cmds.len() && #[trigger] cmds[i].writes(b) ==> allowed(b)
}

impl GpuStepPipeline {
    /// The passes are compiled and the buffers stand one after the other from
    /// `base` on, as they are built.
    pub open spec fn laid_out(self, bank: KernelBank, base: int) -> bool {
        &&& self.passes == StepPasses::of()
        &&& self.buffers == StepBuffers::from_base(bank, base)
        &&& self.localized == if self.affinity_mode == AffinityMode::Localized {
            Some(LocalizedState::from_base(base + 11))
        } else {
            None
        }
        &&& 0 <= base
        &&& base + 14 <= usize::MAX
    }

    /// What a step takes in: the current activation and weights, the kernel
    /// bank and the parameters.
    pub open spec fn is_input(self, b: Buffer) -> bool {
        ||| b == self.current_a()
        ||| b == self.weights()
        ||| b == self.buffers.kernels.kernels
        ||| b == self.buffers.kernels.meta
        ||| b == self.buffers.globals
        ||| self.localized is Some && b == self.localized->0.routing
    }

    /// What a step puts out: the other activation and the other map.
    pub open spec fn is_output(self, b: Buffer) -> bool {
        ||| b == self.other_a()
        ||| self.localized is Some && b == self.localized->0.p.at(1 - self.ping)
    }

    /// What the passes of a step hand to each other.
    pub open spec fn is_intermediate(self, b: Buffer) -> bool {
        ||| b == self.buffers.pre_g
        ||| b == self.buffers.u
        ||| b == self.buffers.grad_u
        ||| b == self.buffers.grad_a_sum
        ||| b == self.buffers.flow
    }
}

/// A step that convolves directly reads nothing but its inputs and what its own
/// passes have already written; no pass reads what it writes; and it writes
/// its intermediate buffers and outputs only, so the current activation and
/// the current map stay as they are.
pub proof fn law_direct_step_order(p: GpuStepPipeline, bank: KernelBank, base: int)
    requires
        p.wf(),
        p.convolve_mode == ConvolveMode::Direct,
        p.laid_out(bank, base),
    ensures
        well_ordered(p.step_commands(0), |b: Buffer| p.is_input(b)),
        no_aliasing(p.step_commands(0)),
        writes_only(p.step_commands(0), |b: Buffer| p.is_intermediate(b) || p.is_output(b)),
        !p.is_intermediate(p.current_a()) && !p.is_output(p.current_a()),
        p.localized is Some ==> !p.is_intermediate(p.weights()) && !p.is_output(p.weights()),
{
    let cmds = p.step_commands(0);
    assert(cmds[0] == p.convolve_command());
    assert(cmds[1] == p.affinity_command());
    assert(cmds[2] == p.gradient_u_command());
    assert(cmds[3] == p.gradient_a_sum_command());
    assert(cmds[4] == p.flow_command());
    assert(cmds[5] == p.reintegrate_command());
    if p.localized is Some {
        assert(cmds[6] == p.parameter_flow_commands()[0]);
    }
    assert(cmds[0].writes(p.buffers.pre_g));
    assert(cmds[1].writes(p.buffers.u));
    assert(cmds[2].writes(p.buffers.grad_u));
    assert(cmds[3].writes(p.buffers.grad_a_sum));
    assert(cmds[4].writes(p.buffers.flow));
    assert forall|i: int, b: Buffer| 0 <= i < cmds.len() && #[trigger] cmds[i].reads(b) implies (
    p.is_input(b) || written_before(cmds, i, b)) && !cmds[i].writes(b) by {
        if b == p.buffers.pre_g && i > 0 {
            assert(cmds[0].writes(b));
        }
        if b == p.buffers.u && i > 1 {
            assert(cmds[1].writes(b));
        }
        if b == p.buffers.grad_u && i > 2 {
            assert(cmds[2].writes(b));
        }
        if b == p.buffers.grad_a_sum && i > 3 {
            assert(cmds[3].writes(b));
        }
        if b == p.buffers.flow && i > 4 {
            assert(cmds[4].writes(b));
        }
    }
}

/// The buffer that a step writes its activation to is the one that the next
/// step reads, and likewise for the map.
pub proof fn law_step_hands_over(p: GpuStepPipeline)
    requires
        p.wf(),
        p.passes == StepPasses::of(),
        p.step_count < u64::MAX,
    ensures
        p.at_step(1).current_a() == p.other_a(),
        p.at_step(1).other_a() == p.current_a(),
        p.reintegrate_command().writes(p.at_step(1).current_a()),
        p.reintegrate_command().reads(p.current_a()),
        p.localized is Some && p.localized->0.parameter_flow
            == crate::passes::parameter_flow::ParameterFlowPass::of() ==> {
            &&& p.at_step(1).weights() == p.localized->0.p.at(1 - p.ping)
            &&& p.parameter_flow_commands()[0].writes(p.at_step(1).weights())
            &&& p.parameter_flow_commands()[0].reads(p.weights())
        },
{
    assert(p.at_step(1).ping == 1 - p.ping);
}

/// After two steps everything stands as before: the same buffer is current and
/// a step records the same commands.
pub proof fn law_two_steps_restore(p: GpuStepPipeline, base: int)
    requires
        p.wf(),
        p.step_count + 2 <= u64::MAX,
    ensures
        p.at_step(2).ping == p.ping,
        p.at_step(2).current_a() == p.current_a(),
        p.at_step(2).step_commands(base) == p.step_commands(base),
{
    let q = p.at_step(2);
    assert(q.downstream() == p.downstream());
    assert(q.convolution(base) == p.convolution(base));
}

/// Swapping again and again keeps a pipeline well formed; after `i` swaps the
/// current buffer is the first one exactly where the number of steps is even.
pub proof fn law_turns_follow_steps(p: GpuStepPipeline, i: int)
    requires
        p.wf(),
        0 <= i,
        p.step_count + i <= u64::MAX,
    ensures
        p.at_step(i).wf(),
        p.at_step(i).step_count == p.step_count + i,
        p.at_step(i).current_a() == if (p.step_count + i) % 2 == 0 {
            p.buffers.a.first
        } else {
            p.buffers.a.second
        },
{
}

/// However a run convolves, what follows the convolution is the same.
pub proof fn law_downstream_does_not_depend_on_mode(p: GpuStepPipeline, q: GpuStepPipeline)
    requires
        p.passes == q.passes,
        p.buffers == q.buffers,
        p.localized == q.localized,
        p.affinity_mode == q.affinity_mode,
        p.height == q.height,
        p.width == q.width,
        p.ping == q.ping,
    ensures
        p.downstream() == q.downstream(),
{
}

/// A profiled step submits exactly the commands of a step: its passes, one
/// after the other, are the step.
pub proof fn law_profiled_step_is_a_step(p: GpuStepPipeline, base: int)
    ensures
        p.step_commands(base) == p.pass_commands(base, 0) + p.pass_commands(base, 1)
            + p.pass_commands(base, 2) + p.pass_commands(base, 3) + p.pass_commands(base, 4)
            + p.pass_commands(base, 5) + p.pass_commands(base, 6),
        p.localized is None ==> p.pass_commands(base, 6) == Seq::<Command>::empty(),
{
    assert(p.step_commands(base) =~= p.pass_commands(base, 0) + p.pass_commands(base, 1)
        + p.pass_commands(base, 2) + p.pass_commands(base, 3) + p.pass_commands(base, 4)
        + p.pass_commands(base, 5) + p.pass_commands(base, 6));
}

/// New parameters leave the grid and the kernel bank alone: whatever the
/// configuration says of them, the block that is queued keeps the pipeline's.
pub proof fn law_update_keeps_shape(
    p: GpuStepPipeline,
    cfg: FlowLeniaConfig,
)
    ensures
        ({
            let g = crate::globals::GpuGlobals::for_config(
                p.height,
                p.width,
                p.channels,
                p.buffers.kernels.count,
                p.buffers.kernels.max_side,
                cfg,
            );
            &&& g.h == p.height && g.w == p.width && g.c == p.channels
            &&& g.k == p.buffers.kernels.count
            &&& g.max_side == p.buffers.kernels.max_side
            &&& g.words().len() == 16
        }),
{
}

/// A step leaves no buffers behind: once those that it asked for are released,
/// the context lists what it listed before, so that a run of any length needs
/// no more buffers than one step.
pub proof fn law_released_step(p: GpuStepPipeline, before: Seq<BufferSpec>)
    ensures
        (before + p.step_specs()).take(before.len() as int) == before,
{
    assert((before + p.step_specs()).take(before.len() as int) =~= before);
}

/// Commands after commands: what the first ones write is known to the second
/// ones.
proof fn lemma_concat(
    a: Seq<Command>,
    b: Seq<Command>,
    known: spec_fn(Buffer) -> bool,
    more: spec_fn(Buffer) -> bool,
)
    requires
        well_ordered(a, known),
        well_ordered(b, more),
        forall|x: Buffer| #[trigger]
            more(x) ==> known(x) || written_before(a, a.len() as int, x),
    ensures
        well_ordered(a + b, known),
{
    let cmds = a + b;
    assert forall|i: int, x: Buffer| 0 <= i < cmds.len() && #[trigger] cmds[i].reads(
        x,
    ) implies known(x) || written_before(cmds, i, x) by {
        let n = a.len() as int;
        if i < n {
            assert(a[i].reads(x));
            if written_before(a, i, x) {
                let j = choose|j: int| 0 <= j < i && (#[trigger] a[j]).writes(x);
                assert(cmds[j].writes(x));
            }
        } else {
            assert(b[i - n].reads(x));
            if more(x) {
                if written_before(a, n, x) {
                    let j = choose|j: int| 0 <= j < n && (#[trigger] a[j]).writes(x);
                    assert(cmds[j].writes(x));
                }
            } else {
                let j = choose|j: int| 0 <= j < i - n && (#[trigger] b[j]).writes(x);
                assert(cmds[n + j].writes(x));
            }
        }
    }
}

/// What either part writes, the whole writes.
proof fn lemma_written_concat(a: Seq<Command>, b: Seq<Command>, x: Buffer)
    requires
        written_before(a, a.len() as int, x) || written_before(b, b.len() as int, x),
    ensures
        written_before(a + b, (a + b).len() as int, x),
{
    let cmds = a + b;
    if written_before(a, a.len() as int, x) {
        let j = choose|j: int| 0 <= j < a.len() && (#[trigger] a[j]).writes(x);
        assert(cmds[j].writes(x));
    } else {
        let j = choose|j: int| 0 <= j < b.len() && (#[trigger] b[j]).writes(x);
        assert(cmds[a.len() + j].writes(x));
    }
}

/// Neither part reads what it writes, or writes what it may not, so the whole
/// does not.
proof fn lemma_concat_writes(
    a: Seq<Command>,
    b: Seq<Command>,
    allowed: spec_fn(Buffer) -> bool,
)
    requires
        no_aliasing(a),
        no_aliasing(b),
        writes_only(a, allowed),
        writes_only(b, allowed),
    ensures
        no_aliasing(a + b),
        writes_only(a + b, allowed),
{
    let cmds = a + b;
    let n = a.len() as int;
    assert forall|i: int, x: Buffer| 0 <= i < cmds.len() && #[trigger] cmds[i].reads(x) implies
        !cmds[i].writes(x) by {
        if i < n {
            assert(a[i].reads(x));
        } else {
            assert(b[i - n].reads(x));
        }
    }
    assert forall|i: int, x: Buffer| 0 <= i < cmds.len() && #[trigger] cmds[i].writes(x) implies
        allowed(x) by {
        if i < n {
            assert(a[i].writes(x));
        } else {
            assert(b[i - n].writes(x));
        }
    }
}

impl ConvolveFftPass {
    /// The working buffers of the pass: what it writes besides its result.
    pub open spec fn is_work(self, b: Buffer) -> bool {
        ||| b == self.scratch_complex
        ||| b == self.spectrum_a
        ||| b == self.k_spectra
        ||| b == self.inv_in
        ||| b == self.k_complex_out
        ||| self.channel_in is Some && b == self.channel_in->0
    }

    /// What the pass takes in: activation, kernel spectra, twiddle factors and
    /// parameters. Parameter blocks of single transforms stand from `base` on.
    pub open spec fn is_source(
        self,
        base: int,
        input_a: Buffer,
        kernel_fft: Buffer,
        b: Buffer,
    ) -> bool {
        ||| b == input_a
        ||| b == kernel_fft
        ||| b == self.twiddles
        ||| b == self.sm_params_buf
        ||| b == self.layout_params_buf
        ||| b.id >= base
    }

    /// The number of buffers of the pass.
    pub open spec fn buffer_count(self) -> int {
        if self.channels > 1 {
            9
        } else {
            8
        }
    }

    /// The buffers of the pass stand from `fft_base` on, before `base`; its
    /// arguments are none of them, and the parameter blocks of a whole
    /// convolution have handles.
    pub open spec fn apart(
        self,
        fft_base: int,
        base: int,
        routing: Seq<u32>,
        input_a: Buffer,
        kernel_fft: Buffer,
        pre_g_out: Buffer,
    ) -> bool {
        &&& self.wf()
        &&& self.is_built(fft_base, self.n, self.channels, routing)
        &&& fft_base + self.buffer_count() <= base
        &&& base + 2 * self.channels + 2 * self.k <= usize::MAX
        &&& input_a.id < fft_base
        &&& pre_g_out.id < fft_base
        &&& input_a != pre_g_out
        &&& fft_base + self.buffer_count() <= kernel_fft.id < base || kernel_fft.id < fft_base
        &&& kernel_fft != pre_g_out
    }
}

/// One way back is in order once the products are there.
proof fn lemma_kernel_round(f: ConvolveFftPass, fft_base: int, base: int, at: int, ki: int)
    requires
        f.is_built(fft_base, f.n, f.channels, f.routing@),
        0 <= fft_base,
        fft_base + f.buffer_count() <= base <= at,
        at + 1 <= usize::MAX,
    ensures
        well_ordered(
            f.kernel_round(at, ki),
            |b: Buffer| b == f.k_spectra || b == f.twiddles || b.id >= base,
        ),
        no_aliasing(f.kernel_round(at, ki)),
        writes_only(f.kernel_round(at, ki), |b: Buffer| f.is_work(b)),
        written_before(f.kernel_round(at, ki), 4, f.k_complex_out),
{
    let cmds = f.kernel_round(at, ki);
    assert(cmds.len() == 4);
    assert(f.fft2d.h.pipeline.layout == fft_layout());
    assert(f.fft2d.v.pipeline.layout == fft_layout());
    assert(cmds[0].writes(f.inv_in));
    assert(cmds[1].writes(f.scratch_complex));
    assert(cmds[2].writes(f.spectrum_a));
    assert(cmds[3].writes(f.k_complex_out));
    assert forall|i: int, b: Buffer| 0 <= i < cmds.len() && #[trigger] cmds[i].reads(b) implies (b
        == f.k_spectra || b == f.twiddles || b.id >= base || written_before(cmds, i, b))
        && !cmds[i].writes(b) by {
        if i == 1 && b == f.inv_in {
            assert(cmds[0].writes(b));
        }
        if i == 2 && b == f.scratch_complex {
            assert(cmds[1].writes(b));
        }
        if i == 3 {
            assert(cmds[2].writes(b));
        }
    }
}

/// All ways back of a channel are in order once the products are there, and
/// they fill the slices if there is a kernel that reads the channel.
proof fn lemma_kernel_rounds(
    f: ConvolveFftPass,
    fft_base: int,
    base: int,
    at: int,
    c: int,
    m: int,
)
    requires
        f.is_built(fft_base, f.n, f.channels, f.routing@),
        f.routing@.len() == f.k,
        0 <= fft_base,
        fft_base + f.buffer_count() <= base <= at,
        0 <= m <= f.k,
        at + 2 * routed(f.routing@, c, m) <= usize::MAX,
    ensures
        well_ordered(
            f.kernel_rounds(at, c, m),
            |b: Buffer| b == f.k_spectra || b == f.twiddles || b.id >= base,
        ),
        no_aliasing(f.kernel_rounds(at, c, m)),
        writes_only(f.kernel_rounds(at, c, m), |b: Buffer| f.is_work(b)),
        (exists|ki: int| 0 <= ki < m && f.routing@[ki] == c) ==> written_before(
            f.kernel_rounds(at, c, m),
            f.kernel_rounds(at, c, m).len() as int,
            f.k_complex_out,
        ),
    decreases m,
{
    let known = |b: Buffer| b == f.k_spectra || b == f.twiddles || b.id >= base;
    let work = |b: Buffer| f.is_work(b);
    if m > 0 {
        lemma_kernel_rounds(f, fft_base, base, at, c, m - 1);
        let before = f.kernel_rounds(at, c, m - 1);
        if f.routing@[m - 1] == c {
            lemma_routed_bounds(f.routing@, c, m - 1);
            let here = at + 2 * routed(f.routing@, c, m - 1);
            let round = f.kernel_round(here, m - 1);
            lemma_kernel_round(f, fft_base, base, here, m - 1);
            lemma_concat(before, round, known, known);
            lemma_concat_writes(before, round, work);
            assert(round.len() == 4);
            lemma_written_concat(before, round, f.k_complex_out);
        }
    }
}

/// Everything recorded for a channel is in order.
proof fn lemma_channel_round(
    f: ConvolveFftPass,
    fft_base: int,
    base: int,
    at: int,
    c: int,
    input_a: Buffer,
    kernel_fft: Buffer,
    pre_g_out: Buffer,
)
    requires
        f.apart(fft_base, base, f.routing@, input_a, kernel_fft, pre_g_out),
        0 <= fft_base,
        0 <= c < f.channels,
        base <= at,
        at + 2 + 2 * routed(f.routing@, c, f.k as int) <= usize::MAX,
    ensures
        well_ordered(
            f.channel_round(at, c, input_a, kernel_fft),
            |b: Buffer| f.is_source(base, input_a, kernel_fft, b),
        ),
        no_aliasing(f.channel_round(at, c, input_a, kernel_fft)),
        writes_only(f.channel_round(at, c, input_a, kernel_fft), |b: Buffer| f.is_work(b)),
        (exists|ki: int| 0 <= ki < f.k && f.routing@[ki] == c) ==> written_before(
            f.channel_round(at, c, input_a, kernel_fft),
            f.channel_round(at, c, input_a, kernel_fft).len() as int,
            f.k_complex_out,
        ),
{
    let known = |b: Buffer| f.is_source(base, input_a, kernel_fft, b);
    let work = |b: Buffer| f.is_work(b);
    let input = f.channel_input(input_a, c);
    let copy = if c == 0 {
        Seq::<Command>::empty()
    } else {
        seq![
            (Command::Copy {
                src: input_a,
                src_offset: (c * (f.n * f.n * 4)) as u64,
                dst: input,
                dst_offset: 0,
                size: (f.n * f.n * 4) as u64,
            }),
        ]
    };
    let forward = f.fft2d.forward_commands(
        at,
        f.twiddles,
        input,
        f.scratch_complex,
        f.spectrum_a,
    );
    let sm = linear_command(
        f.sm_pass.pipeline,
        crate::device::BindGroup::of4(f.spectrum_a, kernel_fft, f.k_spectra, f.sm_params_buf),
        f.n,
        f.k,
    );
    let head = copy + forward + seq![sm];
    let rounds = f.kernel_rounds(at + 2, c, f.k as int);
    let o = copy.len() as int;
    lemma_routed_bounds(f.routing@, c, f.k as int);
    assert(f.fft2d.h.pipeline.layout == fft_layout());
    assert(f.fft2d.v.pipeline.layout == fft_layout());
    assert(head[o] == forward[0]);
    assert(head[o + 1] == forward[1]);
    assert(head[o + 2] == sm);
    assert(head[o].writes(f.scratch_complex));
    assert(head[o + 1].writes(f.spectrum_a));
    assert(head[o + 2].writes(f.k_spectra));
    if c > 0 {
        assert(head[0].writes(input));
    }
    assert forall|i: int, b: Buffer| 0 <= i < head.len() && #[trigger] head[i].reads(b) implies (
    known(b) || written_before(head, i, b)) && !head[i].writes(b) by {
        if i == o && b == input && c > 0 {
            assert(head[0].writes(b));
        }
        if i == o + 1 && b == f.scratch_complex {
            assert(head[o].writes(b));
        }
        if i == o + 2 && b == f.spectrum_a {
            assert(head[o + 1].writes(b));
        }
    }
    assert(writes_only(head, work));
    lemma_kernel_rounds(f, fft_base, base, at + 2, c, f.k as int);
    let more = |b: Buffer| b == f.k_spectra || b == f.twiddles || b.id >= base;
    assert forall|x: Buffer| #[trigger] more(x) implies known(x) || written_before(
        head,
        head.len() as int,
        x,
    ) by {
        if x == f.k_spectra {
            assert(head[o + 2].writes(x));
        }
    }
    lemma_concat(head, rounds, known, more);
    lemma_concat_writes(head, rounds, work);
    assert(f.channel_round(at, c, input_a, kernel_fft) =~= head + rounds);
    if exists|ki: int| 0 <= ki < f.k && f.routing@[ki] == c {
        lemma_written_concat(head, rounds, f.k_complex_out);
    }
}

/// Everything recorded for the first channels is in order.
proof fn lemma_channel_rounds(
    f: ConvolveFftPass,
    fft_base: int,
    base: int,
    c: int,
    input_a: Buffer,
    kernel_fft: Buffer,
    pre_g_out: Buffer,
)
    requires
        f.apart(fft_base, base, f.routing@, input_a, kernel_fft, pre_g_out),
        0 <= fft_base,
        0 <= c <= f.channels,
    ensures
        well_ordered(
            f.channel_rounds(base, c, input_a, kernel_fft),
            |b: Buffer| f.is_source(base, input_a, kernel_fft, b),
        ),
        no_aliasing(f.channel_rounds(base, c, input_a, kernel_fft)),
        writes_only(f.channel_rounds(base, c, input_a, kernel_fft), |b: Buffer| f.is_work(b)),
        f.routing@[0] < c ==> written_before(
            f.channel_rounds(base, c, input_a, kernel_fft),
            f.channel_rounds(base, c, input_a, kernel_fft).len() as int,
            f.k_complex_out,
        ),
    decreases c,
{
    let known = |b: Buffer| f.is_source(base, input_a, kernel_fft, b);
    let work = |b: Buffer| f.is_work(b);
    if c > 0 {
        lemma_channel_rounds(f, fft_base, base, c - 1, input_a, kernel_fft, pre_g_out);
        lemma_used_bounds(f, c - 1);
        lemma_used_bounds(f, c);
        let at = base + f.used(c - 1);
        lemma_channel_round(f, fft_base, base, at, c - 1, input_a, kernel_fft, pre_g_out);
        let before = f.channel_rounds(base, c - 1, input_a, kernel_fft);
        let round = f.channel_round(at, c - 1, input_a, kernel_fft);
        lemma_concat(before, round, known, known);
        lemma_concat_writes(before, round, work);
        if f.routing@[0] < c {
            if f.routing@[0] == c - 1 {
                assert(0 <= 0 < f.k && f.routing@[0] == c - 1);
            }
            lemma_written_concat(before, round, f.k_complex_out);
        }
    }
}

/// The convolution by transform reads nothing but its sources and what it has
/// already written; no command reads what it writes; it writes its working
/// buffers and its result only; and the result is written.
pub proof fn law_convolve_fft_order(
    f: ConvolveFftPass,
    fft_base: int,
    base: int,
    input_a: Buffer,
    kernel_fft: Buffer,
    pre_g_out: Buffer,
)
    requires
        f.apart(fft_base, base, f.routing@, input_a, kernel_fft, pre_g_out),
        0 <= fft_base,
    ensures
        ({
            let cmds = f.commands(base, input_a, kernel_fft, pre_g_out);
            &&& well_ordered(cmds, |b: Buffer| f.is_source(base, input_a, kernel_fft, b))
            &&& no_aliasing(cmds)
            &&& writes_only(cmds, |b: Buffer| f.is_work(b) || b == pre_g_out)
            &&& written_before(cmds, cmds.len() as int, pre_g_out)
        }),
{
    let known = |b: Buffer| f.is_source(base, input_a, kernel_fft, b);
    let allowed = |b: Buffer| f.is_work(b) || b == pre_g_out;
    let rounds = f.channel_rounds(base, f.channels as int, input_a, kernel_fft);
    lemma_channel_rounds(f, fft_base, base, f.channels as int, input_a, kernel_fft, pre_g_out);
    let layout = linear_command(
        f.layout_pass.pipeline,
        crate::device::BindGroup::of3(f.k_complex_out, pre_g_out, f.layout_params_buf),
        f.n,
        f.k,
    );
    let last = seq![layout];
    let more = |b: Buffer| b == f.k_complex_out || b == f.layout_params_buf;
    assert(f.routing@[0] < f.channels);
    assert forall|x: Buffer| #[trigger] more(x) implies known(x) || written_before(
        rounds,
        rounds.len() as int,
        x,
    ) by {}
    assert(well_ordered(last, more));
    assert(no_aliasing(last));
    assert(writes_only(last, allowed));
    assert(writes_only(rounds, allowed)) by {
        assert forall|i: int, b: Buffer| 0 <= i < rounds.len() && #[trigger] rounds[i].writes(
            b,
        ) implies allowed(b) by {
            let work = |b: Buffer| f.is_work(b);
            assert(writes_only(rounds, work));
            assert(work(b));
        }
    }
    lemma_concat(rounds, last, known, more);
    lemma_concat_writes(rounds, last, allowed);
    assert(f.commands(base, input_a, kernel_fft, pre_g_out) =~= rounds + last);
    assert(last[0].writes(pre_g_out));
    lemma_written_concat(rounds, last, pre_g_out);
}

/// A step that convolves by transform reads nothing but its inputs, the kernel
/// spectra, the sources of the transforms, and what its own passes have already
/// written; no pass reads what it writes; and it leaves the current activation
/// and the current map as they are.
pub proof fn law_fft_step_order(p: GpuStepPipeline, bank: KernelBank, start: int, base: int)
    requires
        p.wf(),
        p.ready(),
        p.convolve_mode == ConvolveMode::Fft,
        p.laid_out(bank, start),
        p.convolve_fft_pass->0.apart(
            crate::pipeline::fft_base(start, p.affinity_mode),
            base,
            p.convolve_fft_pass->0.routing@,
            p.current_a(),
            p.kernel_fft->0.buffer,
            p.buffers.pre_g,
        ),
        p.kernel_fft->0.buffer.id >= crate::pipeline::fft_base(start, p.affinity_mode),
    ensures
        ({
            let f = p.convolve_fft_pass->0;
            let cmds = p.step_commands(base);
            &&& well_ordered(
                cmds,
                |b: Buffer|
                    p.is_input(b) || f.is_source(
                        base,
                        p.current_a(),
                        p.kernel_fft->0.buffer,
                        b,
                    ),
            )
            &&& no_aliasing(cmds)
            &&& writes_only(
                cmds,
                |b: Buffer| p.is_intermediate(b) || p.is_output(b) || f.is_work(b),
            )
            &&& !f.is_work(p.current_a()) && !p.is_intermediate(p.current_a()) && !p.is_output(
                p.current_a(),
            )
            &&& p.localized is Some ==> !f.is_work(p.weights()) && !p.is_intermediate(p.weights())
                && !p.is_output(p.weights())
        }),
{
    let f = p.convolve_fft_pass->0;
    let kfft = p.kernel_fft->0.buffer;
    let fft_base = crate::pipeline::fft_base(start, p.affinity_mode);
    let known = |b: Buffer| p.is_input(b) || f.is_source(base, p.current_a(), kfft, b);
    let allowed = |b: Buffer| p.is_intermediate(b) || p.is_output(b) || f.is_work(b);
    let source = |b: Buffer| f.is_source(base, p.current_a(), kfft, b);
    let conv = p.convolution(base);
    law_convolve_fft_order(f, fft_base, base, p.current_a(), kfft, p.buffers.pre_g);
    assert(well_ordered(conv, source));
    assert(well_ordered(conv, known)) by {
        assert forall|i: int, b: Buffer| 0 <= i < conv.len() && #[trigger] conv[i].reads(
            b,
        ) implies known(b) || written_before(conv, i, b) by {
            assert(source(b) || written_before(conv, i, b));
        }
    }
    assert(writes_only(conv, allowed)) by {
        let work = |b: Buffer| f.is_work(b) || b == p.buffers.pre_g;
        assert(writes_only(conv, work));
        assert forall|i: int, b: Buffer| 0 <= i < conv.len() && #[trigger] conv[i].writes(
            b,
        ) implies allowed(b) by {
            assert(work(b));
        }
    }
    let cmds = p.downstream();
    let more = |b: Buffer| p.is_input(b) || b == p.buffers.pre_g;
    assert(cmds[0] == p.affinity_command());
    assert(cmds[1] == p.gradient_u_command());
    assert(cmds[2] == p.gradient_a_sum_command());
    assert(cmds[3] == p.flow_command());
    assert(cmds[4] == p.reintegrate_command());
    if p.localized is Some {
        assert(cmds[5] == p.parameter_flow_commands()[0]);
    }
    assert(cmds[0].writes(p.buffers.u));
    assert(cmds[1].writes(p.buffers.grad_u));
    assert(cmds[2].writes(p.buffers.grad_a_sum));
    assert(cmds[3].writes(p.buffers.flow));
    assert forall|i: int, b: Buffer| 0 <= i < cmds.len() && #[trigger] cmds[i].reads(b) implies (
    more(b) || written_before(cmds, i, b)) && !cmds[i].writes(b) by {
        if b == p.buffers.u && i > 0 {
            assert(cmds[0].writes(b));
        }
        if b == p.buffers.grad_u && i > 1 {
            assert(cmds[1].writes(b));
        }
        if b == p.buffers.grad_a_sum && i > 2 {
            assert(cmds[2].writes(b));
        }
        if b == p.buffers.flow && i > 3 {
            assert(cmds[3].writes(b));
        }
    }
    assert(writes_only(cmds, allowed));
    assert forall|x: Buffer| #[trigger] more(x) implies known(x) || written_before(
        conv,
        conv.len() as int,
        x,
    ) by {}
    lemma_concat(conv, cmds, known, more);
    lemma_concat_writes(conv, cmds, allowed);
}

impl GpuStepPipeline {
    /// A built pipeline with its kernel spectra in place, `i` steps into its
    /// run.
    pub open spec fn running(self, kernel_fft: Option<KernelFftBuffers>, i: int) -> GpuStepPipeline {
        GpuStepPipeline { kernel_fft, ..self }.at_step(i)
    }
}

/// Every step of a run that convolves directly is in order: a built pipeline is
/// laid out as [`law_direct_step_order`] asks, and stays so.
pub proof fn law_direct_run_order(
    built: GpuStepPipeline,
    cfg: FlowLeniaConfig,
    bank: KernelBank,
    convolve_mode: ConvolveMode,
    affinity_mode: AffinityMode,
    start: int,
    i: int,
)
    requires
        built.wf(),
        built.is_built(start, cfg, bank, convolve_mode, affinity_mode),
        built.convolve_mode == ConvolveMode::Direct,
        0 <= start,
        start + 14 <= usize::MAX,
        0 <= i <= u64::MAX,
    ensures
        ({
            let p = built.running(None, i);
            &&& p.wf() && p.ready()
            &&& well_ordered(p.step_commands(0), |b: Buffer| p.is_input(b))
            &&& no_aliasing(p.step_commands(0))
            &&& writes_only(
                p.step_commands(0),
                |b: Buffer| p.is_intermediate(b) || p.is_output(b),
            )
        }),
{
    law_direct_step_order(built.running(None, i), bank, start);
}

/// Every step of a run that convolves by transform is in order, once the kernel
/// spectra are in a buffer of their own; `base` is any place after all of the
/// run's buffers.
pub proof fn law_fft_run_order(
    built: GpuStepPipeline,
    cfg: FlowLeniaConfig,
    bank: KernelBank,
    convolve_mode: ConvolveMode,
    affinity_mode: AffinityMode,
    kernel_fft: KernelFftBuffers,
    start: int,
    base: int,
    i: int,
)
    requires
        built.wf(),
        built.is_built(start, cfg, bank, convolve_mode, affinity_mode),
        built.convolve_mode == ConvolveMode::Fft,
        0 <= start,
        crate::pipeline::kernel_fft_base(start, affinity_mode, cfg.channels)
            <= kernel_fft.buffer.id < base,
        base + 2 * cfg.channels + 2 * bank.params.kernels@.len() <= usize::MAX,
        0 <= i <= u64::MAX,
    ensures
        ({
            let p = built.running(Some(kernel_fft), i);
            let f = p.convolve_fft_pass->0;
            let cmds = p.step_commands(base);
            &&& p.wf() && p.ready()
            &&& well_ordered(
                cmds,
                |b: Buffer|
                    p.is_input(b) || f.is_source(base, p.current_a(), kernel_fft.buffer, b),
            )
            &&& no_aliasing(cmds)
            &&& writes_only(
                cmds,
                |b: Buffer| p.is_intermediate(b) || p.is_output(b) || f.is_work(b),
            )
        }),
{
    let p = built.running(Some(kernel_fft), i);
    assert(p.convolve_fft_pass->0.routing@ == routing_of(bank.params));
    law_fft_step_order(p, bank, start, base);
}

} // verus!
