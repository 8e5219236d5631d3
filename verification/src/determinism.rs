//! A step is a function of the current state.
//!
//! What the shaders compute is left open. Whatever it is, a step leaves the
//! same activation and the same map wherever it finds the same inputs: nothing
//! that its working buffers held before gets into the result.

use crate::device::{Buffer, Command};
use crate::kernel_buffers::KernelBank;
use crate::passes::convolve_fft::{
    fills_slice, law_every_slice_filled_once, lemma_routed_bounds, lemma_used_bounds, routed,
    slice_fills, ConvolveFftPass,
};
use crate::passes::fft::fft_layout;
use crate::pipeline::{fft_base, ConvolveMode, GpuStepPipeline};
use crate::pipeline_laws::{
    law_direct_step_order, law_fft_step_order, well_ordered, written_before,
};
use vstd::prelude::*;

verus! {

/// A part of a buffer that is written as a whole: a slice, by its offset.
pub struct Cell {
    pub buffer: Buffer,
    pub offset: u64,
}

impl Command {
    /// Whether the command writes the whole of `x`. A copy writes the part at
    /// its offset, a pass the whole buffer.
    pub open spec fn fills(self, x: Cell) -> bool {
        match self {
            Command::Copy { dst, dst_offset, .. } => dst == x.buffer && dst_offset == x.offset,
            _ => self.writes(x.buffer),
        }
    }
}

/// A command before position `i` fills `x`.
pub open spec fn filled_before(cmds: Seq<Command>, i: int, x: Cell) -> bool {
    exists|j: int| 0 <= j < i && (#[trigger] cmds[j]).fills(x)
}

/// Every part that a command reads is known from the start or was filled by an
/// earlier command. `cells` says which parts the buffers have.
pub open spec fn settled(
    cmds: Seq<Command>,
    cells: spec_fn(Cell) -> bool,
    known: spec_fn(Cell) -> bool,
) -> bool {
    forall|i: int, x: Cell|
        0 <= i < cmds.len() && cells(x) && #[trigger] cmds[i].reads(x.buffer) ==> known(x)
            || filled_before(cmds, i, x)
}

/// What a device holds: the value of every part of every buffer.
pub struct Memory<V> {
    pub at: spec_fn(Cell) -> V,
}

/// The values that a command reads.
pub open spec fn read_values<V>(m: Memory<V>, cells: spec_fn(Cell) -> bool, c: Command) -> Map<
    Cell,
    V,
> {
    Map::new(|x: Cell| cells(x) && c.reads(x.buffer), |x: Cell| (m.at)(x))
}

/// Runs commands one after the other. `shader` says what a command leaves in a
/// part that it fills, from the values that it reads.
pub open spec fn run<V>(
    shader: spec_fn(Command, Cell, Map<Cell, V>) -> V,
    cells: spec_fn(Cell) -> bool,
    cmds: Seq<Command>,
    m: Memory<V>,
) -> Memory<V>
    decreases cmds.len(),
{
    if cmds.len() == 0 {
        m
    } else {
        let before = run(shader, cells, cmds.drop_last(), m);
        let c = cmds.last();
        Memory {
            at: |x: Cell|
                if c.fills(x) {
                    shader(c, x, read_values(before, cells, c))
                } else {
                    (before.at)(x)
                },
        }
    }
}

/// Memories that agree on what is known agree on it, and on everything filled,
/// after settled commands.
proof fn lemma_determined<V>(
    shader: spec_fn(Command, Cell, Map<Cell, V>) -> V,
    cells: spec_fn(Cell) -> bool,
    cmds: Seq<Command>,
    known: spec_fn(Cell) -> bool,
    m1: Memory<V>,
    m2: Memory<V>,
)
    requires
        settled(cmds, cells, known),
        forall|x: Cell| known(x) ==> #[trigger] (m1.at)(x) == (m2.at)(x),
    ensures
        forall|x: Cell|
            known(x) || filled_before(cmds, cmds.len() as int, x) ==> #[trigger] (run(
                shader,
                cells,
                cmds,
                m1,
            ).at)(x) == (run(shader, cells, cmds, m2).at)(x),
    decreases cmds.len(),
{
    if cmds.len() > 0 {
        let init = cmds.drop_last();
        let c = cmds.last();
        let n = init.len() as int;
        assert forall|i: int, x: Cell|
            0 <= i < init.len() && cells(x) && #[trigger] init[i].reads(x.buffer) implies known(x)
            || filled_before(init, i, x) by {
            assert(cmds[i].reads(x.buffer));
            if filled_before(cmds, i, x) {
                let j = choose|j: int| 0 <= j < i && (#[trigger] cmds[j]).fills(x);
                assert(init[j].fills(x));
            }
        }
        lemma_determined(shader, cells, init, known, m1, m2);
        let r1 = run(shader, cells, init, m1);
        let r2 = run(shader, cells, init, m2);
        assert forall|x: Cell| cells(x) && c.reads(x.buffer) implies (r1.at)(x) == (r2.at)(x) by {
            assert(cmds[n].reads(x.buffer));
            if filled_before(cmds, n, x) {
                let j = choose|j: int| 0 <= j < n && (#[trigger] cmds[j]).fills(x);
                assert(init[j].fills(x));
            }
        }
        assert(read_values(r1, cells, c) =~= read_values(r2, cells, c));
        assert forall|x: Cell| known(x) || filled_before(cmds, cmds.len() as int, x) implies
            #[trigger] (run(shader, cells, cmds, m1).at)(x) == (run(shader, cells, cmds, m2).at)(
            x,
        ) by {
            if !c.fills(x) {
                if !known(x) {
                    let j = choose|j: int| 0 <= j < cmds.len() && (#[trigger] cmds[j]).fills(x);
                    assert(j < n);
                    assert(init[j].fills(x));
                }
                assert((r1.at)(x) == (r2.at)(x));
            }
        }
    }
}

impl GpuStepPipeline {
    /// The parts that the buffers of a step have: the slices of all kernels,
    /// and every other buffer as a whole.
    pub open spec fn is_cell(self, x: Cell) -> bool {
        if self.convolve_mode == ConvolveMode::Fft && x.buffer
            == self.convolve_fft_pass->0.k_complex_out {
            exists|ki: int|
                0 <= ki < self.convolve_fft_pass->0.k && x.offset == #[trigger] (ki
                    * self.convolve_fft_pass->0.slice_bytes())
        } else {
            x.offset == 0
        }
    }
}

/// A step that convolves directly is a function of the current state: on two
/// devices that agree on the inputs of the step, whatever else they hold, the
/// step leaves the same activation and the same map, whatever the shaders
/// compute.
pub proof fn law_direct_step_is_deterministic<V>(
    shader: spec_fn(Command, Cell, Map<Cell, V>) -> V,
    p: GpuStepPipeline,
    bank: KernelBank,
    base: int,
    m1: Memory<V>,
    m2: Memory<V>,
)
    requires
        p.wf(),
        p.convolve_mode == ConvolveMode::Direct,
        p.laid_out(bank, base),
        forall|x: Cell| p.is_input(x.buffer) ==> #[trigger] (m1.at)(x) == (m2.at)(x),
    ensures
        ({
            let cells = |x: Cell| p.is_cell(x);
            forall|x: Cell|
                p.is_output(x.buffer) && cells(x) ==> #[trigger] (run(
                    shader,
                    cells,
                    p.step_commands(0),
                    m1,
                ).at)(x) == (run(shader, cells, p.step_commands(0), m2).at)(x)
        }),
{
    let cells = |x: Cell| p.is_cell(x);
    let known = |x: Cell| p.is_input(x.buffer);
    let input = |b: Buffer| p.is_input(b);
    let cmds = p.step_commands(0);
    law_direct_step_order(p, bank, base);
    assert(cmds[0] == p.convolve_command());
    assert(cmds[1] == p.affinity_command());
    assert(cmds[2] == p.gradient_u_command());
    assert(cmds[3] == p.gradient_a_sum_command());
    assert(cmds[4] == p.flow_command());
    assert(cmds[5] == p.reintegrate_command());
    if p.localized is Some {
        assert(cmds[6] == p.parameter_flow_commands()[0]);
    }
    assert forall|i: int, x: Cell|
        0 <= i < cmds.len() && cells(x) && #[trigger] cmds[i].reads(x.buffer) implies known(x)
        || filled_before(cmds, i, x) by {
        assert(well_ordered(cmds, input));
        if !known(x) {
            assert(written_before(cmds, i, x.buffer));
            let j = choose|j: int| 0 <= j < i && (#[trigger] cmds[j]).writes(x.buffer);
            assert(cmds[j].fills(x));
        }
    }
    lemma_determined(shader, cells, cmds, known, m1, m2);
    assert forall|x: Cell| p.is_output(x.buffer) && cells(x) implies #[trigger] (run(
        shader,
        cells,
        cmds,
        m1,
    ).at)(x) == (run(shader, cells, cmds, m2).at)(x) by {
        if x.buffer == p.other_a() {
            assert(cmds[5].fills(x));
        } else {
            assert(cmds[6].fills(x));
        }
    }
}

/// A command that does not read the slices, and copies to the start of a buffer
/// or into the slices.
spec fn tidy(f: ConvolveFftPass, c: Command) -> bool {
    &&& !c.reads(f.k_complex_out)
    &&& match c {
        Command::Copy { dst, dst_offset, .. } => dst_offset == 0 || dst == f.k_complex_out,
        _ => true,
    }
}

spec fn all_tidy(f: ConvolveFftPass, cmds: Seq<Command>) -> bool {
    forall|i: int| 0 <= i < cmds.len() ==> tidy(f, #[trigger] cmds[i])
}

proof fn lemma_tidy_concat(f: ConvolveFftPass, a: Seq<Command>, b: Seq<Command>)
    requires
        all_tidy(f, a),
        all_tidy(f, b),
    ensures
        all_tidy(f, a + b),
{
    assert forall|i: int| 0 <= i < (a + b).len() implies tidy(f, #[trigger] (a + b)[i]) by {
        if i < a.len() {
            assert(tidy(f, a[i]));
        } else {
            assert(tidy(f, b[i - a.len()]));
        }
    }
}

proof fn lemma_kernel_rounds_tidy(f: ConvolveFftPass, start: int, at: int, c: int, m: int)
    requires
        f.is_built(start, f.n, f.channels, f.routing@),
        f.routing@.len() == f.k,
        0 <= start,
        start + f.buffer_count() <= at,
        0 <= m <= f.k,
        at + 2 * routed(f.routing@, c, m) <= usize::MAX,
    ensures
        all_tidy(f, f.kernel_rounds(at, c, m)),
    decreases m,
{
    if m > 0 {
        lemma_kernel_rounds_tidy(f, start, at, c, m - 1);
        if f.routing@[m - 1] == c {
            lemma_routed_bounds(f.routing@, c, m - 1);
            let here = at + 2 * routed(f.routing@, c, m - 1);
            let round = f.kernel_round(here, m - 1);
            assert(round.len() == 4);
            assert(f.fft2d.h.pipeline.layout == fft_layout());
            assert(f.fft2d.v.pipeline.layout == fft_layout());
            assert(tidy(f, round[0]));
            assert(tidy(f, round[1]));
            assert(tidy(f, round[2]));
            assert(tidy(f, round[3]));
            assert(all_tidy(f, round));
            lemma_tidy_concat(f, f.kernel_rounds(at, c, m - 1), round);
        }
    }
}

proof fn lemma_channel_rounds_tidy(
    f: ConvolveFftPass,
    start: int,
    base: int,
    c: int,
    input_a: Buffer,
    kernel_fft: Buffer,
    pre_g_out: Buffer,
)
    requires
        f.apart(start, base, f.routing@, input_a, kernel_fft, pre_g_out),
        0 <= start,
        0 <= c <= f.channels,
    ensures
        all_tidy(f, f.channel_rounds(base, c, input_a, kernel_fft)),
    decreases c,
{
    if c > 0 {
        lemma_channel_rounds_tidy(f, start, base, c - 1, input_a, kernel_fft, pre_g_out);
        lemma_used_bounds(f, c - 1);
        lemma_used_bounds(f, c);
        let at = base + f.used(c - 1);
        lemma_routed_bounds(f.routing@, c - 1, f.k as int);
        let rounds = f.kernel_rounds(at + 2, c - 1, f.k as int);
        lemma_kernel_rounds_tidy(f, start, at + 2, c - 1, f.k as int);
        let round = f.channel_round(at, c - 1, input_a, kernel_fft);
        let head = round.take(round.len() - rounds.len());
        assert(round =~= head + rounds);
        assert(f.fft2d.h.pipeline.layout == fft_layout());
        assert(f.fft2d.v.pipeline.layout == fft_layout());
        assert(head.len() == if c == 1 {
            3int
        } else {
            4
        });
        assert(tidy(f, head[0]));
        assert(tidy(f, head[1]));
        assert(tidy(f, head[2]));
        if c > 1 {
            assert(tidy(f, head[3]));
        }
        assert(all_tidy(f, head));
        lemma_tidy_concat(f, head, rounds);
        lemma_tidy_concat(f, f.channel_rounds(base, c - 1, input_a, kernel_fft), round);
    }
}

/// Where some command fills a slice, one can be pointed at.
proof fn lemma_some_fill(f: ConvolveFftPass, cmds: Seq<Command>, ki: int) -> (j: int)
    requires
        slice_fills(f, cmds, ki) > 0,
    ensures
        0 <= j < cmds.len(),
        fills_slice(f, cmds[j], ki),
    decreases cmds.len(),
{
    if fills_slice(f, cmds.last(), ki) {
        cmds.len() - 1
    } else {
        lemma_some_fill(f, cmds.drop_last(), ki)
    }
}

/// A step that convolves by transform is a function of the current state: on
/// two devices that agree on the inputs of the step, on the kernel spectra and
/// on the parameters of the transforms, whatever else they hold, the step
/// leaves the same activation and the same map, whatever the shaders compute.
pub proof fn law_fft_step_is_deterministic<V>(
    shader: spec_fn(Command, Cell, Map<Cell, V>) -> V,
    p: GpuStepPipeline,
    bank: KernelBank,
    start: int,
    base: int,
    m1: Memory<V>,
    m2: Memory<V>,
)
    requires
        p.wf(),
        p.ready(),
        p.convolve_mode == ConvolveMode::Fft,
        p.laid_out(bank, start),
        p.convolve_fft_pass->0.apart(
            fft_base(start, p.affinity_mode),
            base,
            p.convolve_fft_pass->0.routing@,
            p.current_a(),
            p.kernel_fft->0.buffer,
            p.buffers.pre_g,
        ),
        p.kernel_fft->0.buffer.id >= fft_base(start, p.affinity_mode),
        forall|x: Cell|
            p.is_input(x.buffer) || p.convolve_fft_pass->0.is_source(
                base,
                p.current_a(),
                p.kernel_fft->0.buffer,
                x.buffer,
            ) ==> #[trigger] (m1.at)(x) == (m2.at)(x),
    ensures
        ({
            let cells = |x: Cell| p.is_cell(x);
            forall|x: Cell|
                p.is_output(x.buffer) && cells(x) ==> #[trigger] (run(
                    shader,
                    cells,
                    p.step_commands(base),
                    m1,
                ).at)(x) == (run(shader, cells, p.step_commands(base), m2).at)(x)
        }),
{
    let f = p.convolve_fft_pass->0;
    let kfft = p.kernel_fft->0.buffer;
    let cells = |x: Cell| p.is_cell(x);
    let source = |b: Buffer| p.is_input(b) || f.is_source(base, p.current_a(), kfft, b);
    let known = |x: Cell| source(x.buffer);
    let cmds = p.step_commands(base);
    lemma_fft_step_settled(p, bank, start, base);
    lemma_determined(shader, cells, cmds, known, m1, m2);
    let n = p.convolution(base).len() as int;
    assert(cmds[n + 4] == p.reintegrate_command());
    if p.localized is Some {
        assert(cmds[n + 5] == p.parameter_flow_commands()[0]);
    }
    assert forall|x: Cell| p.is_output(x.buffer) && cells(x) implies #[trigger] (run(
        shader,
        cells,
        cmds,
        m1,
    ).at)(x) == (run(shader, cells, cmds, m2).at)(x) by {
        if x.buffer == p.other_a() {
            assert(cmds[n + 4].fills(x));
        } else {
            assert(cmds[n + 5].fills(x));
        }
    }
}

/// Every part that a step by transform reads is an input or was filled before:
/// in particular every slice, before the slices are read.
proof fn lemma_fft_step_settled(p: GpuStepPipeline, bank: KernelBank, start: int, base: int)
    requires
        p.wf(),
        p.ready(),
        p.convolve_mode == ConvolveMode::Fft,
        p.laid_out(bank, start),
        p.convolve_fft_pass->0.apart(
            fft_base(start, p.affinity_mode),
            base,
            p.convolve_fft_pass->0.routing@,
            p.current_a(),
            p.kernel_fft->0.buffer,
            p.buffers.pre_g,
        ),
        p.kernel_fft->0.buffer.id >= fft_base(start, p.affinity_mode),
    ensures
        settled(
            p.step_commands(base),
            |x: Cell| p.is_cell(x),
            |x: Cell|
                p.is_input(x.buffer) || p.convolve_fft_pass->0.is_source(
                    base,
                    p.current_a(),
                    p.kernel_fft->0.buffer,
                    x.buffer,
                ),
        ),
{
    let f = p.convolve_fft_pass->0;
    let kfft = p.kernel_fft->0.buffer;
    let first = fft_base(start, p.affinity_mode);
    let source = |b: Buffer| p.is_input(b) || f.is_source(base, p.current_a(), kfft, b);
    let cmds = p.step_commands(base);
    let conv = p.convolution(base);
    let rounds = f.channel_rounds(base, f.channels as int, p.current_a(), kfft);
    let n = rounds.len() as int;
    law_fft_step_order(p, bank, start, base);
    assert(well_ordered(cmds, source));
    lemma_channel_rounds_tidy(
        f,
        first,
        base,
        f.channels as int,
        p.current_a(),
        kfft,
        p.buffers.pre_g,
    );
    assert(conv.len() == n + 1);
    assert forall|i: int| 0 <= i < n implies cmds[i] == rounds[i] by {}
    assert(cmds[n + 1] == p.affinity_command());
    assert(cmds[n + 2] == p.gradient_u_command());
    assert(cmds[n + 3] == p.gradient_a_sum_command());
    assert(cmds[n + 4] == p.flow_command());
    assert(cmds[n + 5] == p.reintegrate_command());
    if p.localized is Some {
        assert(cmds[n + 6] == p.parameter_flow_commands()[0]);
    }
    assert forall|i: int, x: Cell|
        0 <= i < cmds.len() && p.is_cell(x) && #[trigger] cmds[i].reads(x.buffer) implies source(
        x.buffer,
    ) || filled_before(cmds, i, x) by {
        if x.buffer == f.k_complex_out {
            if i < n {
                assert(tidy(f, rounds[i]));
            }
            let ki = choose|ki: int|
                0 <= ki < f.k && x.offset == #[trigger] (ki * f.slice_bytes());
            law_every_slice_filled_once(
                f,
                first,
                base,
                p.current_a(),
                kfft,
                p.buffers.pre_g,
                ki,
            );
            let j = lemma_some_fill(f, conv, ki);
            assert(j < n);
            assert(cmds[j] == conv[j]);
            assert(cmds[j].fills(x));
        } else if !source(x.buffer) {
            assert(written_before(cmds, i, x.buffer));
            let j = choose|j: int| 0 <= j < i && (#[trigger] cmds[j]).writes(x.buffer);
            if j < n {
                assert(tidy(f, rounds[j]));
            }
            assert(cmds[j].fills(x));
        }
    }
}

} // verus!
