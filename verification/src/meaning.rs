//! What recorded commands compute.
//!
//! The arithmetic of the shaders is left open; what is fixed here is what each
//! shader takes from which binding and where its result goes. Running the
//! recorded commands under this reading says what a step, a convolution by
//! transform and the transforms of the kernels compute from what the buffers
//! held before.

use crate::determinism::{Cell, Memory};
use crate::device::{
    BindGroup, BindGroupLayout, BindingKind, Buffer, BufferSpec, Command, Shader, ShaderStage,
};
use crate::config::FlowLeniaConfig;
use crate::field::{ActivationField, KernelImage};
use crate::kernel_buffers::KernelBank;
use crate::passes::convolve_fft::{
    convolve_fft_buffers, inverse_buffers, lemma_routed_bounds, lemma_used_bounds, routed,
    routing_of, ConvolveFftPass,
};
use crate::passes::fft::{
    direction_buffers, forward_2d_buffers, Fft2dPass, FftAxis, FftDirection, FftPass,
};
use crate::passes::kernel_fft::{bank_fft_buffers, bank_fft_commands, padded_kernel};
use crate::pipeline::{
    fft_base, kernel_fft_base, localized_specs, pipeline_specs, startup_commands,
    step_buffer_specs, AffinityMode, ConvolveMode, GpuStepPipeline,
};
use crate::validity::has_from;
use crate::words::{bytes_words, law_words_round_trip, F32Bits};
use vstd::prelude::*;

verus! {

/// The arithmetic of the shaders, over values of whatever kind.
#[verifier::reject_recursive_types(V)]
pub struct Arithmetic<V> {
    /// A pass over the grid, from what it reads in the order of its bindings,
    /// the parameters last.
    pub pass: spec_fn(Shader, Seq<V>) -> V,
    /// A one-dimensional transform, from the twiddle factors and the input.
    pub transform: spec_fn(FftAxis, FftDirection, V, V) -> V,
    /// The product of the spectrum of a channel and the spectrum of a kernel.
    pub product: spec_fn(V, V) -> V,
    /// The real parts of a slice, as one kernel's part of the convolutions.
    pub real_part: spec_fn(V) -> V,
    /// What is left where a command does not do its work properly.
    pub spoilt: spec_fn(Command, Cell) -> V,
}

/// What the meaning of a command depends on besides the values.
pub struct Setting {
    /// The buffers of the device.
    pub buffers: Seq<BufferSpec>,
    pub height: int,
    pub width: int,
    /// Number of kernels.
    pub kernels: int,
    /// Bytes of a part of a buffer, as copies move it.
    pub part: spec_fn(Buffer) -> int,
}

/// The start of a buffer.
pub open spec fn start_of(b: Buffer) -> Cell {
    Cell { buffer: b, offset: 0 }
}

/// What the start of a buffer holds.
pub open spec fn held<V>(m: Memory<V>, b: Buffer) -> V {
    (m.at)(start_of(b))
}

/// The words that a buffer was created with.
pub open spec fn words_in(s: Seq<BufferSpec>, b: Buffer) -> Seq<u32> {
    bytes_words(s[b.id as int].contents->0)
}

/// The axis of a transform shader.
pub open spec fn axis_of(shader: Shader) -> Option<FftAxis> {
    match shader {
        Shader::FftRadix4H | Shader::FftRadix2x4H => Some(FftAxis::H),
        Shader::FftRadix4V | Shader::FftRadix2x4V => Some(FftAxis::V),
        _ => None,
    }
}

/// The bindings of a shader, from 0 on: what it reads, what it writes, and its
/// parameters.
pub open spec fn kinds_of(shader: Shader) -> Seq<BindingKind> {
    let (r, w, u) = (
        BindingKind::StorageRead,
        BindingKind::StorageReadWrite,
        BindingKind::Uniform,
    );
    match shader {
        Shader::Convolve => seq![r, r, r, w, u],
        Shader::AffinityConstant => seq![r, r, r, w, u],
        Shader::AffinityLocalized => seq![r, r, r, w, u],
        Shader::GradientU => seq![r, w, u],
        Shader::GradientASum => seq![r, w, u],
        Shader::Flow => seq![r, r, r, w, u],
        Shader::Reintegrate => seq![r, r, w, u],
        Shader::ParameterFlow => seq![r, w, r, r, u],
        Shader::FftRadix4H => seq![r, r, w, u],
        Shader::FftRadix4V => seq![r, r, w, u],
        Shader::FftRadix2x4H => seq![r, r, w, u],
        Shader::FftRadix2x4V => seq![r, r, w, u],
        Shader::SpectralMultiply => seq![r, r, w, u],
        Shader::FftToPreG => seq![r, w, u],
        Shader::Visualize => seq![r, u],
    }
}

/// The layout has exactly the given bindings.
pub open spec fn has_kinds(l: BindGroupLayout, kinds: Seq<BindingKind>) -> bool {
    &&& kinds.len() >= 2
    &&& l.b0 == kinds[0]
    &&& l.b1 == kinds[1]
    &&& l.b2 == if kinds.len() > 2 {
        Some(kinds[2])
    } else {
        None
    }
    &&& l.b3 == if kinds.len() > 3 {
        Some(kinds[3])
    } else {
        None
    }
    &&& l.b4 == if kinds.len() > 4 {
        Some(kinds[4])
    } else {
        None
    }
}

/// The buffer that a shader writes.
pub open spec fn result_of(shader: Shader, g: BindGroup) -> Buffer {
    match shader {
        Shader::GradientU | Shader::GradientASum | Shader::ParameterFlow | Shader::FftToPreG => g.b1,
        Shader::Convolve | Shader::AffinityConstant | Shader::AffinityLocalized | Shader::Flow =>
            g.b3->0,
        _ => g.b2->0,
    }
}

/// What a pass over the grid reads, in the order of its bindings, the
/// parameters last.
pub open spec fn sources_of(shader: Shader, g: BindGroup) -> Seq<Buffer> {
    match shader {
        // Activation, kernels and records; convolutions, records and weights;
        // activation, affinity gradient and mass gradient.
        Shader::Convolve | Shader::AffinityConstant | Shader::AffinityLocalized | Shader::Flow =>
            seq![g.b0, g.b1, g.b2->0, g.b4->0],
        // Affinity; activation.
        Shader::GradientU | Shader::GradientASum => seq![g.b0, g.b2->0],
        // Activation and flow.
        Shader::Reintegrate => seq![g.b0, g.b1, g.b3->0],
        // Map, flow and source channels.
        Shader::ParameterFlow => seq![g.b0, g.b2->0, g.b3->0, g.b4->0],
        _ => seq![],
    }
}

/// The workgroups of 8 by 8 cells cover the grid, and none lies outside.
pub open spec fn covers_grid(set: Setting, x: u32, y: u32) -> bool {
    &&& set.width <= x * 8 < set.width + 8
    &&& set.height <= y * 8 < set.height + 8
}

/// The workgroups of 256 items cover all slices, and none lies outside.
pub open spec fn covers_slices(set: Setting, x: u32, y: u32) -> bool {
    let items = set.width * set.width * set.kernels;
    items <= x * 256 < items + 256 && y == 1
}

/// The shader can transform rows of the given length.
pub open spec fn fits_length(shader: Shader, n: int) -> bool {
    match shader {
        Shader::FftRadix4H | Shader::FftRadix4V => n == 64 || n == 256,
        Shader::FftRadix2x4H | Shader::FftRadix2x4V => n == 8 || n == 32 || n == 128 || n == 512,
        _ => false,
    }
}

/// The direction that the parameters of a transform ask for.
pub open spec fn direction_in(s: Seq<BufferSpec>, b: Buffer) -> FftDirection {
    if words_in(s, b)[2] == 0 {
        FftDirection::Forward
    } else {
        FftDirection::Inverse
    }
}

/// A dispatch does its work: its bindings are those of its shader, it covers
/// everything, and its parameters say how much that is.
pub open spec fn proper(set: Setting, c: Command) -> bool {
    match c {
        Command::Dispatch { pipeline, bind_group, x, y, z } => {
            let shader = pipeline.shader;
            let n = set.width;
            &&& pipeline.layout.stage == ShaderStage::Compute
            &&& has_kinds(pipeline.layout, kinds_of(shader))
            &&& z == 1
            &&& if axis_of(shader) is Some {
                let words = words_in(set.buffers, bind_group.b3->0);
                &&& fits_length(shader, n)
                &&& pipeline.workgroup_x is Some && pipeline.workgroup_x->0 == n
                &&& x == n && y == 1
                &&& words.len() == 4 && words[0] == n && words[1] == n
                &&& words[2] == 0 || words[2] == 1
            } else if shader == Shader::SpectralMultiply || shader == Shader::FftToPreG {
                let params = if shader == Shader::FftToPreG {
                    bind_group.b2->0
                } else {
                    bind_group.b3->0
                };
                let words = words_in(set.buffers, params);
                &&& pipeline.workgroup_x is None
                &&& covers_slices(set, x, y)
                &&& words.len() == 4 && words[0] == n && words[1] == set.kernels
            } else {
                &&& pipeline.workgroup_x is None
                &&& covers_grid(set, x, y)
            }
        },
        _ => true,
    }
}

/// What a command leaves in a part of a buffer.
pub open spec fn left<V>(
    ar: Arithmetic<V>,
    set: Setting,
    c: Command,
    m: Memory<V>,
    x: Cell,
) -> V {
    match c {
        Command::Copy { src, src_offset, dst, dst_offset, size } => if x.buffer != dst || x.offset
            != dst_offset {
            (m.at)(x)
        } else if size == (set.part)(src) {
            (m.at)(Cell { buffer: src, offset: src_offset })
        } else {
            (ar.spoilt)(c, x)
        },
        Command::Dispatch { pipeline, bind_group, .. } => {
            let shader = pipeline.shader;
            let g = bind_group;
            if x.buffer != result_of(shader, g) {
                (m.at)(x)
            } else if !proper(set, c) {
                (ar.spoilt)(c, x)
            } else if shader == Shader::SpectralMultiply {
                (ar.product)(held(m, g.b0), (m.at)(Cell { buffer: g.b1, offset: x.offset }))
            } else if shader == Shader::FftToPreG {
                (ar.real_part)((m.at)(Cell { buffer: g.b0, offset: x.offset }))
            } else if x.offset != 0 {
                (m.at)(x)
            } else if axis_of(shader) is Some {
                (ar.transform)(
                    axis_of(shader)->0,
                    direction_in(set.buffers, g.b3->0),
                    held(m, g.b1),
                    held(m, g.b0),
                )
            } else {
                (ar.pass)(
                    shader,
                    sources_of(shader, g).map_values(|b: Buffer| held(m, b)),
                )
            }
        },
        Command::Draw { .. } => (m.at)(x),
    }
}

/// The memory after a command.
#[verifier::opaque]
pub open spec fn effect<V>(ar: Arithmetic<V>, set: Setting, c: Command, m: Memory<V>) -> Memory<V> {
    Memory { at: |x: Cell| left(ar, set, c, m, x) }
}

/// The memory after commands, one after the other.
pub open spec fn after<V>(
    ar: Arithmetic<V>,
    set: Setting,
    cmds: Seq<Command>,
    m: Memory<V>,
) -> Memory<V>
    decreases cmds.len(),
{
    if cmds.len() == 0 {
        m
    } else {
        effect(ar, set, cmds.last(), after(ar, set, cmds.drop_last(), m))
    }
}

proof fn lemma_after_concat<V>(
    ar: Arithmetic<V>,
    set: Setting,
    a: Seq<Command>,
    b: Seq<Command>,
    m: Memory<V>,
)
    ensures
        after(ar, set, a + b, m) == after(ar, set, b, after(ar, set, a, m)),
    decreases b.len(),
{
    if b.len() == 0 {
        assert(a + b =~= a);
    } else {
        assert((a + b).drop_last() =~= a + b.drop_last());
        assert((a + b).last() == b.last());
        lemma_after_concat(ar, set, a, b.drop_last(), m);
    }
}

proof fn lemma_after_push<V>(
    ar: Arithmetic<V>,
    set: Setting,
    a: Seq<Command>,
    c: Command,
    m: Memory<V>,
)
    ensures
        after(ar, set, a.push(c), m) == effect(ar, set, c, after(ar, set, a, m)),
{
    assert(a.push(c).drop_last() =~= a);
}

proof fn lemma_after_one<V>(ar: Arithmetic<V>, set: Setting, c: Command, m: Memory<V>)
    ensures
        after(ar, set, seq![c], m) == effect(ar, set, c, m),
{
    assert(seq![c].drop_last() =~= Seq::<Command>::empty());
    assert(after(ar, set, Seq::<Command>::empty(), m) == m);
}

proof fn lemma_after_two<V>(
    ar: Arithmetic<V>,
    set: Setting,
    c0: Command,
    c1: Command,
    m: Memory<V>,
)
    ensures
        after(ar, set, seq![c0, c1], m) == effect(ar, set, c1, effect(ar, set, c0, m)),
{
    assert(seq![c0, c1] =~= seq![c0].push(c1));
    lemma_after_push(ar, set, seq![c0], c1, m);
    lemma_after_one(ar, set, c0, m);
}

// Steps.

impl GpuStepPipeline {
    /// What the passes after the convolution make of the convolutions, with the
    /// activation `a`, the records, the weights and the parameters.
    pub open spec fn flow_of<V>(
        self,
        ar: Arithmetic<V>,
        pre_g: V,
        a: V,
        meta: V,
        weights: V,
        globals: V,
    ) -> V {
        let affinity = match self.affinity_mode {
            AffinityMode::Constant => Shader::AffinityConstant,
            AffinityMode::Localized => Shader::AffinityLocalized,
        };
        let u = (ar.pass)(affinity, seq![pre_g, meta, weights, globals]);
        let grad_u = (ar.pass)(Shader::GradientU, seq![u, globals]);
        let grad_a_sum = (ar.pass)(Shader::GradientASum, seq![a, globals]);
        (ar.pass)(Shader::Flow, seq![a, grad_u, grad_a_sum, globals])
    }
}

/// The setting is that of the pipeline's grid.
pub open spec fn grid_of(set: Setting, p: GpuStepPipeline) -> bool {
    set.height == p.height && set.width == p.width
}

/// What follows the convolution computes this: the affinity of each channel
/// from the convolutions, the records and the weights; its gradient; the
/// gradient of the mass; from the two and the activation the flow; and with the
/// flow the next activation and, where there is a map, the next map. The next
/// step finds both in its current buffers; the current ones stay as they are.
#[verifier::rlimit(40)]
#[verifier::spinoff_prover]
pub proof fn law_downstream_computes<V>(
    ar: Arithmetic<V>,
    set: Setting,
    p: GpuStepPipeline,
    bank: KernelBank,
    base: int,
    m: Memory<V>,
)
    requires
        p.wf(),
        p.laid_out(bank, base),
        grid_of(set, p),
    ensures
        ({
            let b = p.buffers;
            let a = held(m, p.current_a());
            let g = held(m, b.globals);
            let flow = p.flow_of(
                ar,
                held(m, b.pre_g),
                a,
                held(m, b.kernels.meta),
                held(m, p.weights()),
                g,
            );
            let end = after(ar, set, p.downstream(), m);
            let next = p.at_step(1);
            &&& held(end, next.current_a()) == (ar.pass)(Shader::Reintegrate, seq![a, flow, g])
            &&& held(end, p.current_a()) == a
            &&& p.localized is Some ==> {
                let map = held(m, p.weights());
                let routing = held(m, p.localized->0.routing);
                &&& held(end, next.weights()) == (ar.pass)(
                    Shader::ParameterFlow,
                    seq![map, flow, routing, g],
                )
                &&& held(end, p.weights()) == map
            }
        }),
{
    reveal(effect);
    let b = p.buffers;
    let cmds = p.downstream();
    crate::passes::tile::law_tiles_cover_grid(p.height, p.width);
    let m1 = effect(ar, set, p.affinity_command(), m);
    let m2 = effect(ar, set, p.gradient_u_command(), m1);
    let m3 = effect(ar, set, p.gradient_a_sum_command(), m2);
    let m4 = effect(ar, set, p.flow_command(), m3);
    let m5 = effect(ar, set, p.reintegrate_command(), m4);
    let first = seq![p.affinity_command(), p.gradient_u_command()];
    let second = seq![p.gradient_a_sum_command(), p.flow_command()];
    let third = seq![p.reintegrate_command()];
    let last = p.parameter_flow_commands();
    assert(cmds =~= first + second + third + last);
    lemma_after_two(ar, set, p.affinity_command(), p.gradient_u_command(), m);
    lemma_after_two(ar, set, p.gradient_a_sum_command(), p.flow_command(), m2);
    lemma_after_one(ar, set, p.reintegrate_command(), m4);
    lemma_after_concat(ar, set, first, second, m);
    lemma_after_concat(ar, set, first + second, third, m);
    lemma_after_concat(ar, set, first + second + third, last, m);
    assert(after(ar, set, first + second + third, m) == m5);
    let a = held(m, p.current_a());
    let g = held(m, b.globals);
    let meta = held(m, b.kernels.meta);
    let affinity = match p.affinity_mode {
        AffinityMode::Constant => Shader::AffinityConstant,
        AffinityMode::Localized => Shader::AffinityLocalized,
    };
    let w = held(m, p.weights());
    let u = (ar.pass)(affinity, seq![held(m, b.pre_g), meta, w, g]);
    assert(proper(set, p.affinity_command()));
    assert(sources_of(affinity, b.affinity_bg(p.weights())).map_values(|x: Buffer| held(m, x))
        =~= seq![held(m, b.pre_g), meta, w, g]);
    assert(held(m1, b.u) == u);
    assert(held(m1, b.globals) == g && held(m1, p.current_a()) == a);
    let gu = (ar.pass)(Shader::GradientU, seq![u, g]);
    assert(proper(set, p.gradient_u_command()));
    assert(sources_of(Shader::GradientU, b.gradient_u_bg()).map_values(|x: Buffer| held(m1, x))
        =~= seq![u, g]);
    assert(held(m2, b.grad_u) == gu);
    assert(held(m2, b.globals) == g && held(m2, p.current_a()) == a);
    let ga = (ar.pass)(Shader::GradientASum, seq![a, g]);
    assert(proper(set, p.gradient_a_sum_command()));
    assert(sources_of(
        Shader::GradientASum,
        b.gradient_a_sum_bg(p.ping as int),
    ).map_values(|x: Buffer| held(m2, x)) =~= seq![a, g]);
    assert(held(m3, b.grad_a_sum) == ga);
    assert(held(m3, b.grad_u) == gu);
    assert(held(m3, b.globals) == g && held(m3, p.current_a()) == a);
    let flow = (ar.pass)(Shader::Flow, seq![a, gu, ga, g]);
    assert(proper(set, p.flow_command()));
    assert(sources_of(Shader::Flow, b.flow_bg(p.ping as int)).map_values(
        |x: Buffer| held(m3, x),
    ) =~= seq![a, gu, ga, g]);
    assert(held(m4, b.flow) == flow);
    assert(held(m4, b.globals) == g && held(m4, p.current_a()) == a);
    assert(proper(set, p.reintegrate_command()));
    assert(sources_of(Shader::Reintegrate, b.reintegrate_bg(p.ping as int)).map_values(
        |x: Buffer| held(m4, x),
    ) =~= seq![a, flow, g]);
    assert(held(m5, p.other_a()) == (ar.pass)(Shader::Reintegrate, seq![a, flow, g]));
    assert(held(m5, p.current_a()) == a);
    assert(p.at_step(1).current_a() == p.other_a());
    if p.localized is Some {
        let l = p.localized->0;
        let c = last[0];
        assert(last =~= seq![c]);
        lemma_after_one(ar, set, c, m5);
        assert(proper(set, c));
        let routing = held(m, l.routing);
        let bg = BindGroup::of5(
            l.p.at(p.ping as int),
            l.p.at(1 - p.ping),
            b.flow,
            l.routing,
            b.globals,
        );
        assert(held(m5, p.weights()) == w && held(m5, l.routing) == routing && held(m5, b.flow)
            == flow && held(m5, b.globals) == g);
        assert(sources_of(Shader::ParameterFlow, bg).map_values(|x: Buffer| held(m5, x))
            =~= seq![w, flow, routing, g]);
        assert(p.at_step(1).weights() == l.p.at(1 - p.ping));
    } else {
        assert(after(ar, set, last, m5) == m5);
    }
}

/// A step that convolves directly computes the convolutions of the current
/// activation with the kernels, by their records, and from them what
/// [`law_downstream_computes`] says.
#[verifier::rlimit(40)]
#[verifier::spinoff_prover]
pub proof fn law_direct_step_computes<V>(
    ar: Arithmetic<V>,
    set: Setting,
    p: GpuStepPipeline,
    bank: KernelBank,
    base: int,
    m: Memory<V>,
)
    requires
        p.wf(),
        p.convolve_mode == ConvolveMode::Direct,
        p.laid_out(bank, base),
        grid_of(set, p),
    ensures
        ({
            let b = p.buffers;
            let a = held(m, p.current_a());
            let g = held(m, b.globals);
            let meta = held(m, b.kernels.meta);
            let pre_g = (ar.pass)(
                Shader::Convolve,
                seq![a, held(m, b.kernels.kernels), meta, g],
            );
            let flow = p.flow_of(ar, pre_g, a, meta, held(m, p.weights()), g);
            let end = after(ar, set, p.step_commands(0), m);
            let next = p.at_step(1);
            &&& held(end, next.current_a()) == (ar.pass)(Shader::Reintegrate, seq![a, flow, g])
            &&& held(end, p.current_a()) == a
            &&& p.localized is Some ==> {
                let map = held(m, p.weights());
                let routing = held(m, p.localized->0.routing);
                &&& held(end, next.weights()) == (ar.pass)(
                    Shader::ParameterFlow,
                    seq![map, flow, routing, g],
                )
                &&& held(end, p.weights()) == map
            }
        }),
{
    reveal(effect);
    let b = p.buffers;
    let c = p.convolve_command();
    let m1 = effect(ar, set, c, m);
    crate::passes::tile::law_tiles_cover_grid(p.height, p.width);
    lemma_after_one(ar, set, c, m);
    lemma_after_concat(ar, set, p.convolution(0), p.downstream(), m);
    assert(p.convolution(0) =~= seq![c]);
    assert(proper(set, c));
    let a = held(m, p.current_a());
    assert(sources_of(Shader::Convolve, b.convolve_bg(p.ping as int)).map_values(
        |x: Buffer| held(m, x),
    ) =~= seq![
        a,
        held(m, b.kernels.kernels),
        held(m, b.kernels.meta),
        held(m, b.globals),
    ]);
    assert(held(m1, p.current_a()) == a);
    assert(held(m1, b.globals) == held(m, b.globals));
    assert(held(m1, b.kernels.meta) == held(m, b.kernels.meta));
    assert(held(m1, p.weights()) == held(m, p.weights()));
    if p.localized is Some {
        assert(held(m1, p.localized->0.routing) == held(m, p.localized->0.routing));
    }
    law_downstream_computes(ar, set, p, bank, base, m1);
}

// Transforms.

/// The forward transform: rows, then columns.
pub open spec fn forward<V>(ar: Arithmetic<V>, twiddles: V, v: V) -> V {
    (ar.transform)(
        FftAxis::V,
        FftDirection::Forward,
        twiddles,
        (ar.transform)(FftAxis::H, FftDirection::Forward, twiddles, v),
    )
}

/// The inverse transform: columns, then rows.
pub open spec fn inverse<V>(ar: Arithmetic<V>, twiddles: V, v: V) -> V {
    (ar.transform)(
        FftAxis::H,
        FftDirection::Inverse,
        twiddles,
        (ar.transform)(FftAxis::V, FftDirection::Inverse, twiddles, v),
    )
}

/// The parameters of the two transforms of one direction say so.
proof fn lemma_direction_words(s: Seq<BufferSpec>, at: int, n: u32, direction: FftDirection)
    requires
        has_from(s, at, direction_buffers(n, direction)),
        at + 1 <= usize::MAX,
    ensures
        ({
            let p0 = words_in(s, Buffer { id: at as usize });
            let p1 = words_in(s, Buffer { id: (at + 1) as usize });
            &&& p0 == seq![n, n, direction.as_u32(), 0]
            &&& p1 == seq![n, n, direction.as_u32(), 0]
            &&& direction_in(s, Buffer { id: at as usize }) == direction
            &&& direction_in(s, Buffer { id: (at + 1) as usize }) == direction
        }),
{
    let d = direction_buffers(n, direction);
    assert(s[at + 0] == d[0]);
    assert(s[at + 1] == d[1]);
    law_words_round_trip(seq![n, n, direction.as_u32(), 0]);
}

/// The two passes of a transform run along their own axes, on rows of the right
/// length.
proof fn lemma_axes(n: u32)
    requires
        n == 64 || n == 256 || n == 8 || n == 32 || n == 128 || n == 512,
    ensures
        ({
            let f = Fft2dPass::of(n);
            &&& axis_of(f.h.pipeline.shader) == Some(FftAxis::H)
            &&& axis_of(f.v.pipeline.shader) == Some(FftAxis::V)
            &&& fits_length(f.h.pipeline.shader, n as int)
            &&& fits_length(f.v.pipeline.shader, n as int)
            &&& f.h == FftPass::of(n, f.h.pipeline.shader)
            &&& f.v == FftPass::of(n, f.v.pipeline.shader)
            &&& f.n == n
        }),
{
}

/// A one-dimensional transform leaves the transform of its input at the start
/// of its output, and touches nothing else.
proof fn lemma_transform_effect<V>(
    ar: Arithmetic<V>,
    set: Setting,
    n: u32,
    shader: Shader,
    direction: FftDirection,
    g: BindGroup,
    m: Memory<V>,
)
    requires
        axis_of(shader) is Some,
        fits_length(shader, n as int),
        set.width == n,
        g.b2 is Some && g.b3 is Some,
        words_in(set.buffers, g.b3->0) == seq![n, n, direction.as_u32(), 0],
        direction_in(set.buffers, g.b3->0) == direction,
    ensures
        ({
            let end = effect(ar, set, FftPass::of(n, shader).command(g, n), m);
            &&& held(end, g.b2->0) == (ar.transform)(
                axis_of(shader)->0,
                direction,
                held(m, g.b1),
                held(m, g.b0),
            )
            &&& forall|x: Cell|
                x.offset != 0 || x.buffer != g.b2->0 ==> #[trigger] (end.at)(x) == (m.at)(x)
        }),
{
    reveal(effect);
    let c = FftPass::of(n, shader).command(g, n);
    assert(has_kinds(FftPass::of(n, shader).pipeline.layout, kinds_of(shader)));
    assert(proper(set, c));
}

/// Two one-dimensional transforms, one after the other.
#[verifier::rlimit(40)]
#[verifier::spinoff_prover]
proof fn lemma_two_transforms<V>(
    ar: Arithmetic<V>,
    set: Setting,
    n: u32,
    first: Shader,
    second: Shader,
    direction: FftDirection,
    at: int,
    twiddles: Buffer,
    input: Buffer,
    scratch: Buffer,
    output: Buffer,
    m: Memory<V>,
)
    requires
        axis_of(first) is Some && axis_of(second) is Some,
        fits_length(first, n as int) && fits_length(second, n as int),
        set.width == n,
        has_from(set.buffers, at, direction_buffers(n, direction)),
        at + 1 <= usize::MAX,
        twiddles != scratch,
    ensures
        ({
            let g0 = BindGroup::of4(input, twiddles, scratch, Buffer { id: at as usize });
            let g1 = BindGroup::of4(scratch, twiddles, output, Buffer { id: (at + 1) as usize });
            let cmds = seq![
                FftPass::of(n, first).command(g0, n),
                FftPass::of(n, second).command(g1, n),
            ];
            let end = after(ar, set, cmds, m);
            &&& held(end, output) == (ar.transform)(
                axis_of(second)->0,
                direction,
                held(m, twiddles),
                (ar.transform)(
                    axis_of(first)->0,
                    direction,
                    held(m, twiddles),
                    held(m, input),
                ),
            )
            &&& forall|x: Cell|
                x.offset != 0 || (x.buffer != scratch && x.buffer != output) ==> #[trigger] (
                end.at)(x) == (m.at)(x)
        }),
{
    let g0 = BindGroup::of4(input, twiddles, scratch, Buffer { id: at as usize });
    let g1 = BindGroup::of4(scratch, twiddles, output, Buffer { id: (at + 1) as usize });
    let c0 = FftPass::of(n, first).command(g0, n);
    let c1 = FftPass::of(n, second).command(g1, n);
    let m1 = effect(ar, set, c0, m);
    lemma_direction_words(set.buffers, at, n, direction);
    lemma_after_two(ar, set, c0, c1, m);
    lemma_transform_effect(ar, set, n, first, direction, g0, m);
    lemma_transform_effect(ar, set, n, second, direction, g1, m1);
    assert((m1.at)(start_of(twiddles)) == (m.at)(start_of(twiddles)));
}

/// Running the commands of a forward transform leaves the transform of the
/// input in the output, and touches nothing but the scratch buffer besides.
#[verifier::rlimit(40)]
#[verifier::spinoff_prover]
pub proof fn law_forward_computes<V>(
    ar: Arithmetic<V>,
    set: Setting,
    n: u32,
    at: int,
    twiddles: Buffer,
    input: Buffer,
    scratch: Buffer,
    output: Buffer,
    m: Memory<V>,
)
    requires
        n == 64 || n == 256 || n == 8 || n == 32 || n == 128 || n == 512,
        set.width == n,
        has_from(set.buffers, at, direction_buffers(n, FftDirection::Forward)),
        at + 1 <= usize::MAX,
        twiddles != scratch,
    ensures
        ({
            let cmds = Fft2dPass::of(n).forward_commands(at, twiddles, input, scratch, output);
            let end = after(ar, set, cmds, m);
            &&& held(end, output) == forward(ar, held(m, twiddles), held(m, input))
            &&& forall|x: Cell|
                x.offset != 0 || (x.buffer != scratch && x.buffer != output) ==> #[trigger] (
                end.at)(x) == (m.at)(x)
        }),
{
    let f = Fft2dPass::of(n);
    let cmds = f.forward_commands(at, twiddles, input, scratch, output);
    lemma_axes(n);
    lemma_two_transforms(
        ar,
        set,
        n,
        f.h.pipeline.shader,
        f.v.pipeline.shader,
        FftDirection::Forward,
        at,
        twiddles,
        input,
        scratch,
        output,
        m,
    );
    let g0 = BindGroup::of4(input, twiddles, scratch, Buffer { id: at as usize });
    let g1 = BindGroup::of4(scratch, twiddles, output, Buffer { id: (at + 1) as usize });
    assert(cmds =~= seq![f.h.command(g0, n), f.v.command(g1, n)]);
}

/// Running the commands of an inverse transform leaves the inverse transform of
/// the input in the output, and touches nothing but the scratch buffer besides.
#[verifier::rlimit(40)]
#[verifier::spinoff_prover]
pub proof fn law_inverse_computes<V>(
    ar: Arithmetic<V>,
    set: Setting,
    n: u32,
    at: int,
    twiddles: Buffer,
    input: Buffer,
    scratch: Buffer,
    output: Buffer,
    m: Memory<V>,
)
    requires
        n == 64 || n == 256 || n == 8 || n == 32 || n == 128 || n == 512,
        set.width == n,
        has_from(set.buffers, at, direction_buffers(n, FftDirection::Inverse)),
        at + 1 <= usize::MAX,
        twiddles != scratch,
    ensures
        ({
            let cmds = Fft2dPass::of(n).inverse_commands(at, twiddles, input, scratch, output);
            let end = after(ar, set, cmds, m);
            &&& held(end, output) == inverse(ar, held(m, twiddles), held(m, input))
            &&& forall|x: Cell|
                x.offset != 0 || (x.buffer != scratch && x.buffer != output) ==> #[trigger] (
                end.at)(x) == (m.at)(x)
        }),
{
    let f = Fft2dPass::of(n);
    let cmds = f.inverse_commands(at, twiddles, input, scratch, output);
    lemma_axes(n);
    lemma_two_transforms(
        ar,
        set,
        n,
        f.v.pipeline.shader,
        f.h.pipeline.shader,
        FftDirection::Inverse,
        at,
        twiddles,
        input,
        scratch,
        output,
        m,
    );
    let g0 = BindGroup::of4(input, twiddles, scratch, Buffer { id: at as usize });
    let g1 = BindGroup::of4(scratch, twiddles, output, Buffer { id: (at + 1) as usize });
    assert(cmds =~= seq![f.v.command(g0, n), f.h.command(g1, n)]);
}

/// Where the inverse along each axis undoes the transform along that axis, an
/// inverse transform that is recorded after a forward one gives the input back.
#[verifier::rlimit(40)]
#[verifier::spinoff_prover]
pub proof fn law_inverse_undoes_forward<V>(
    ar: Arithmetic<V>,
    set: Setting,
    n: u32,
    at: int,
    twiddles: Buffer,
    input: Buffer,
    scratch: Buffer,
    spectrum: Buffer,
    output: Buffer,
    m: Memory<V>,
)
    requires
        n == 64 || n == 256 || n == 8 || n == 32 || n == 128 || n == 512,
        set.width == n,
        has_from(
            set.buffers,
            at,
            direction_buffers(n, FftDirection::Forward) + direction_buffers(
                n,
                FftDirection::Inverse,
            ),
        ),
        at + 3 <= usize::MAX,
        twiddles != scratch && twiddles != spectrum,
        forall|axis: FftAxis, t: V, v: V|
            (ar.transform)(
                axis,
                FftDirection::Inverse,
                t,
                #[trigger] (ar.transform)(axis, FftDirection::Forward, t, v),
            ) == v,
    ensures
        ({
            let f = Fft2dPass::of(n);
            let cmds = f.forward_commands(at, twiddles, input, scratch, spectrum)
                + f.inverse_commands(at + 2, twiddles, spectrum, scratch, output);
            held(after(ar, set, cmds, m), output) == held(m, input)
        }),
{
    let f = Fft2dPass::of(n);
    let fwd = f.forward_commands(at, twiddles, input, scratch, spectrum);
    let inv = f.inverse_commands(at + 2, twiddles, spectrum, scratch, output);
    let (df, di) = (
        direction_buffers(n, FftDirection::Forward),
        direction_buffers(n, FftDirection::Inverse),
    );
    lemma_has_split(set.buffers, at, df, di);
    lemma_after_concat(ar, set, fwd, inv, m);
    let mid = after(ar, set, fwd, m);
    law_forward_computes(ar, set, n, at, twiddles, input, scratch, spectrum, m);
    law_inverse_computes(ar, set, n, at + 2, twiddles, spectrum, scratch, output, mid);
    assert((mid.at)(start_of(twiddles)) == (m.at)(start_of(twiddles)));
}

proof fn lemma_has_split(s: Seq<BufferSpec>, base: int, a: Seq<BufferSpec>, b: Seq<BufferSpec>)
    requires
        has_from(s, base, a + b),
    ensures
        has_from(s, base, a),
        has_from(s, base + a.len(), b),
{
    let ab = a + b;
    assert forall|i: int| 0 <= i < a.len() implies s[base + i] == #[trigger] a[i] by {
        assert(ab[i] == a[i]);
    }
    assert forall|i: int| 0 <= i < b.len() implies s[base + a.len() + i] == #[trigger] b[i] by {
        assert(ab[a.len() + i] == b[i]);
    }
}

// The convolution by transform.

/// The slice of kernel `ki` in a buffer of slices of `n * n` complex numbers of
/// eight bytes.
pub open spec fn slice_of(b: Buffer, n: u32, ki: int) -> Cell {
    Cell { buffer: b, offset: (ki * (n * n * 8)) as u64 }
}

/// The plane of channel `c` in an activation of planes of `n * n` words.
pub open spec fn plane_of(b: Buffer, n: u32, c: int) -> Cell {
    Cell { buffer: b, offset: (c * (n * n * 4)) as u64 }
}

/// Copies move a whole plane of the activation, and whole slices otherwise.
pub open spec fn whole_parts(set: Setting, n: u32, input_a: Buffer) -> bool {
    forall|b: Buffer| #[trigger]
        (set.part)(b) == if b == input_a {
            n * n * 4
        } else {
            n * n * 8
        }
}

/// The setting of a convolution by transform: a square grid, and copies that
/// move a whole plane of an activation or a whole slice.
pub open spec fn spectral_setting(
    set: Setting,
    f: ConvolveFftPass,
    fft_start: int,
    base: int,
    twiddles: Seq<(F32Bits, F32Bits)>,
    input_a: Buffer,
) -> bool {
    &&& set.width == f.n
    &&& set.kernels == f.k
    &&& whole_parts(set, f.n, input_a)
    &&& has_from(
        set.buffers,
        fft_start,
        convolve_fft_buffers(f.n, f.k, f.channels, twiddles),
    )
    &&& has_from(set.buffers, base, f.step_buffers(f.channels as int))
}

/// The convolution of a channel with a kernel, by way of their spectra.
pub open spec fn convolved<V>(ar: Arithmetic<V>, twiddles: V, plane: V, kernel_spectrum: V) -> V {
    inverse(ar, twiddles, (ar.product)(forward(ar, twiddles, plane), kernel_spectrum))
}

proof fn lemma_slices_differ(n: u32, ki: int, kj: int)
    requires
        8 <= n <= 512,
        0 <= ki <= u32::MAX,
        0 <= kj <= u32::MAX,
    ensures
        0 <= ki * (n * n * 8) <= u64::MAX,
        (ki * (n * n * 8)) as u64 == (kj * (n * n * 8)) as u64 <==> ki == kj,
{
    let s = n * n * 8;
    assert(64 <= n * n <= 512 * 512) by (nonlinear_arith)
        requires
            8 <= n <= 512,
    ;
    assert(0 <= ki * s <= u32::MAX * (512 * 512 * 8)) by (nonlinear_arith)
        requires
            0 <= ki <= u32::MAX,
            0 <= s <= 512 * 512 * 8,
    ;
    assert(0 <= kj * s <= u32::MAX * (512 * 512 * 8)) by (nonlinear_arith)
        requires
            0 <= kj <= u32::MAX,
            0 <= s <= 512 * 512 * 8,
    ;
    if ki != kj {
        assert(ki * s != kj * s) by (nonlinear_arith)
            requires
                ki != kj,
                s > 0,
        ;
    }
}

/// The way back of one kernel: its own product, transformed back, in its own
/// slice.
#[verifier::rlimit(40)]
#[verifier::spinoff_prover]
proof fn lemma_kernel_round_computes<V>(
    ar: Arithmetic<V>,
    set: Setting,
    f: ConvolveFftPass,
    fft_start: int,
    input_a: Buffer,
    at: int,
    ki: int,
    m: Memory<V>,
)
    requires
        f.wf(),
        f.is_built(fft_start, f.n, f.channels, f.routing@),
        0 <= ki < f.k,
        0 <= fft_start,
        input_a.id < fft_start,
        set.width == f.n,
        whole_parts(set, f.n, input_a),
        has_from(set.buffers, at, direction_buffers(f.n, FftDirection::Inverse)),
        at + 1 <= usize::MAX,
    ensures
        ({
            let end = after(ar, set, f.kernel_round(at, ki), m);
            &&& (end.at)(slice_of(f.k_complex_out, f.n, ki)) == inverse(
                ar,
                held(m, f.twiddles),
                (m.at)(slice_of(f.k_spectra, f.n, ki)),
            )
            &&& forall|x: Cell|
                x != slice_of(f.k_complex_out, f.n, ki) && x.buffer != f.inv_in && x.buffer
                    != f.scratch_complex && x.buffer != f.spectrum_a ==> #[trigger] (end.at)(x)
                    == (m.at)(x)
        }),
{
    reveal(effect);
    let n = f.n;
    lemma_slices_differ(n, ki, ki);
    assert(64 <= n * n <= 512 * 512) by (nonlinear_arith)
        requires
            8 <= n <= 512,
    ;
    let cmds = f.kernel_round(at, ki);
    let inv = f.fft2d.inverse_commands(
        at,
        f.twiddles,
        f.inv_in,
        f.scratch_complex,
        f.spectrum_a,
    );
    let c0 = cmds[0];
    let c3 = cmds[3];
    assert(cmds =~= seq![c0] + inv + seq![c3]);
    lemma_after_concat(ar, set, seq![c0] + inv, seq![c3], m);
    lemma_after_concat(ar, set, seq![c0], inv, m);
    lemma_after_one(ar, set, c0, m);
    let m1 = effect(ar, set, c0, m);
    law_inverse_computes(
        ar,
        set,
        n,
        at,
        f.twiddles,
        f.inv_in,
        f.scratch_complex,
        f.spectrum_a,
        m1,
    );
    let m2 = after(ar, set, inv, m1);
    lemma_after_one(ar, set, c3, m2);
    assert(held(m1, f.inv_in) == (m.at)(slice_of(f.k_spectra, n, ki)));
    assert(held(m1, f.twiddles) == held(m, f.twiddles));
    let end = effect(ar, set, c3, m2);
    assert forall|x: Cell|
        x != slice_of(f.k_complex_out, n, ki) && x.buffer != f.inv_in && x.buffer
            != f.scratch_complex && x.buffer != f.spectrum_a implies #[trigger] (end.at)(x) == (
    m.at)(x) by {
        assert((m2.at)(x) == (m1.at)(x));
        if x.buffer == f.k_complex_out {
            assert(x.offset != slice_of(f.k_complex_out, n, ki).offset);
        }
    }
}

proof fn lemma_inverse_len(n: u32, count: int)
    requires
        0 <= count,
    ensures
        inverse_buffers(n, count).len() == 2 * count,
    decreases count,
{
    if count > 0 {
        lemma_inverse_len(n, count - 1);
    }
}

/// The parameters of the first ways back stand before those of the next one.
proof fn lemma_inverse_prefix(s: Seq<BufferSpec>, at: int, n: u32, count: int, fewer: int)
    requires
        0 <= fewer < count,
        has_from(s, at, inverse_buffers(n, count)),
    ensures
        has_from(s, at + 2 * fewer, direction_buffers(n, FftDirection::Inverse)),
    decreases count,
{
    lemma_inverse_len(n, count - 1);
    lemma_has_split(
        s,
        at,
        inverse_buffers(n, count - 1),
        direction_buffers(n, FftDirection::Inverse),
    );
    if fewer < count - 1 {
        lemma_inverse_prefix(s, at, n, count - 1, fewer);
    }
}

proof fn lemma_routed_grows(routing: Seq<u32>, c: int, m: int, k: int)
    requires
        0 <= m <= k,
    ensures
        routed(routing, c, m) <= routed(routing, c, k),
    decreases k - m,
{
    if m < k {
        lemma_routed_grows(routing, c, m, k - 1);
    }
}

#[verifier::rlimit(40)]
#[verifier::spinoff_prover]
proof fn lemma_kernel_rounds_compute<V>(
    ar: Arithmetic<V>,
    set: Setting,
    f: ConvolveFftPass,
    fft_start: int,
    input_a: Buffer,
    at: int,
    c: int,
    count: int,
    m: Memory<V>,
)
    requires
        f.wf(),
        f.is_built(fft_start, f.n, f.channels, f.routing@),
        0 <= fft_start,
        input_a.id < fft_start,
        0 <= count <= f.k,
        set.width == f.n,
        whole_parts(set, f.n, input_a),
        has_from(
            set.buffers,
            at,
            inverse_buffers(f.n, routed(f.routing@, c, f.k as int)),
        ),
        at + 2 * routed(f.routing@, c, f.k as int) <= usize::MAX,
    ensures
        ({
            let end = after(ar, set, f.kernel_rounds(at, c, count), m);
            &&& forall|ki: int|
                0 <= ki < f.k ==> #[trigger] (end.at)(slice_of(f.k_complex_out, f.n, ki)) == if ki
                    < count && f.routing@[ki] == c {
                    inverse(
                        ar,
                        held(m, f.twiddles),
                        (m.at)(slice_of(f.k_spectra, f.n, ki)),
                    )
                } else {
                    (m.at)(slice_of(f.k_complex_out, f.n, ki))
                }
            &&& forall|x: Cell|
                x.buffer != f.k_complex_out && x.buffer != f.inv_in && x.buffer
                    != f.scratch_complex && x.buffer != f.spectrum_a ==> #[trigger] (end.at)(x)
                    == (m.at)(x)
        }),
    decreases count,
{
    if count > 0 {
        lemma_kernel_rounds_compute(ar, set, f, fft_start, input_a, at, c, count - 1, m);
        let kj = count - 1;
        if f.routing@[kj] == c {
            let before = f.kernel_rounds(at, c, kj);
            let here = at + 2 * routed(f.routing@, c, kj);
            let round = f.kernel_round(here, kj);
            let mid = after(ar, set, before, m);
            lemma_routed_bounds(f.routing@, c, kj);
            lemma_routed_grows(f.routing@, c, count, f.k as int);
            lemma_inverse_prefix(
                set.buffers,
                at,
                f.n,
                routed(f.routing@, c, f.k as int),
                routed(f.routing@, c, kj),
            );
            lemma_after_concat(ar, set, before, round, m);
            lemma_kernel_round_computes(ar, set, f, fft_start, input_a, here, kj, mid);
            let end = after(ar, set, round, mid);
            assert((mid.at)(start_of(f.twiddles)) == (m.at)(start_of(f.twiddles)));
            assert forall|ki: int| 0 <= ki < f.k implies #[trigger] (end.at)(
                slice_of(f.k_complex_out, f.n, ki),
            ) == if ki < count && f.routing@[ki] == c {
                inverse(ar, held(m, f.twiddles), (m.at)(slice_of(f.k_spectra, f.n, ki)))
            } else {
                (m.at)(slice_of(f.k_complex_out, f.n, ki))
            } by {
                lemma_slices_differ(f.n, ki, kj);
                assert((mid.at)(slice_of(f.k_spectra, f.n, ki)) == (m.at)(
                    slice_of(f.k_spectra, f.n, ki),
                ));
                if ki != kj {
                    assert(slice_of(f.k_complex_out, f.n, ki) != slice_of(
                        f.k_complex_out,
                        f.n,
                        kj,
                    ));
                    assert((end.at)(slice_of(f.k_complex_out, f.n, ki)) == (mid.at)(
                        slice_of(f.k_complex_out, f.n, ki),
                    ));
                }
            }
            assert forall|x: Cell|
                x.buffer != f.k_complex_out && x.buffer != f.inv_in && x.buffer
                    != f.scratch_complex && x.buffer != f.spectrum_a implies #[trigger] (end.at)(x)
                == (m.at)(x) by {
                assert((mid.at)(x) == (m.at)(x));
            }
            assert(f.kernel_rounds(at, c, count) == before + round);
            assert(after(ar, set, f.kernel_rounds(at, c, count), m) == end);
        } else {
            assert(f.kernel_rounds(at, c, count) == f.kernel_rounds(at, c, count - 1));
        }
    } else {
        assert(after(ar, set, f.kernel_rounds(at, c, count), m) == m);
    }
}

#[verifier::rlimit(40)]
#[verifier::spinoff_prover]
proof fn lemma_channel_round_computes<V>(
    ar: Arithmetic<V>,
    set: Setting,
    f: ConvolveFftPass,
    fft_start: int,
    base: int,
    at: int,
    c: int,
    twiddles: Seq<(F32Bits, F32Bits)>,
    input_a: Buffer,
    kernel_fft: Buffer,
    pre_g_out: Buffer,
    m: Memory<V>,
)
    requires
        f.apart(fft_start, base, f.routing@, input_a, kernel_fft, pre_g_out),
        spectral_setting(set, f, fft_start, base, twiddles, input_a),
        0 <= fft_start,
        0 <= c < f.channels,
        has_from(
            set.buffers,
            at,
            direction_buffers(f.n, FftDirection::Forward) + inverse_buffers(
                f.n,
                routed(f.routing@, c, f.k as int),
            ),
        ),
        at + 2 + 2 * routed(f.routing@, c, f.k as int) <= usize::MAX,
    ensures
        ({
            let end = after(ar, set, f.channel_round(at, c, input_a, kernel_fft), m);
            &&& forall|ki: int|
                0 <= ki < f.k ==> #[trigger] (end.at)(slice_of(f.k_complex_out, f.n, ki))
                    == if f.routing@[ki] == c {
                    convolved(
                        ar,
                        held(m, f.twiddles),
                        (m.at)(plane_of(input_a, f.n, c)),
                        (m.at)(slice_of(kernel_fft, f.n, ki)),
                    )
                } else {
                    (m.at)(slice_of(f.k_complex_out, f.n, ki))
                }
            &&& forall|x: Cell| !f.is_work(x.buffer) ==> #[trigger] (end.at)(x) == (m.at)(x)
        }),
{
    reveal(effect);
    let n = f.n;
    let (df, di) = (
        direction_buffers(n, FftDirection::Forward),
        inverse_buffers(n, routed(f.routing@, c, f.k as int)),
    );
    lemma_has_split(set.buffers, at, df, di);
    lemma_routed_bounds(f.routing@, c, f.k as int);
    let input = f.channel_input(input_a, c);
    let round = f.channel_round(at, c, input_a, kernel_fft);
    let rounds = f.kernel_rounds(at + 2, c, f.k as int);
    let forward_cmds = f.fft2d.forward_commands(
        at,
        f.twiddles,
        input,
        f.scratch_complex,
        f.spectrum_a,
    );
    let head = round.take(round.len() - rounds.len() - 3);
    let sm = round[round.len() - rounds.len() - 1];
    assert(round =~= head + forward_cmds + seq![sm] + rounds);
    lemma_after_concat(ar, set, head + forward_cmds + seq![sm], rounds, m);
    lemma_after_concat(ar, set, head + forward_cmds, seq![sm], m);
    lemma_after_concat(ar, set, head, forward_cmds, m);
    let m1 = after(ar, set, head, m);
    assert(64 <= n * n <= 512 * 512) by (nonlinear_arith)
        requires
            8 <= n <= 512,
    ;
    assert(0 <= c * (n * n * 4) <= u32::MAX * (512 * 512 * 4)) by (nonlinear_arith)
        requires
            0 <= c <= u32::MAX,
            0 <= n * n * 4 <= 512 * 512 * 4,
    ;
    if c == 0 {
        assert(head =~= Seq::<Command>::empty());
        assert(0 * (n * n * 4) == 0) by (nonlinear_arith);
        assert(plane_of(input_a, n, 0) == start_of(input_a));
    } else {
        let copy = head[0];
        assert(head =~= seq![copy]);
        lemma_after_one(ar, set, copy, m);
        assert(c * (n * n * 4) > 0) by (nonlinear_arith)
            requires
                c > 0,
                n * n >= 64,
        ;
    }
    assert(held(m1, input) == (m.at)(plane_of(input_a, n, c)));
    assert(held(m1, f.twiddles) == held(m, f.twiddles));
    law_forward_computes(
        ar,
        set,
        n,
        at,
        f.twiddles,
        input,
        f.scratch_complex,
        f.spectrum_a,
        m1,
    );
    let m2 = after(ar, set, forward_cmds, m1);
    lemma_after_one(ar, set, sm, m2);
    let m3 = effect(ar, set, sm, m2);
    lemma_linear(set, f, fft_start, twiddles);
    assert(proper(set, sm));
    assert forall|ki: int| 0 <= ki < f.k implies #[trigger] (m3.at)(slice_of(f.k_spectra, n, ki))
        == (ar.product)(
        forward(ar, held(m, f.twiddles), (m.at)(plane_of(input_a, n, c))),
        (m.at)(slice_of(kernel_fft, n, ki)),
    ) by {
        let x = slice_of(kernel_fft, n, ki);
        assert((m2.at)(x) == (m1.at)(x));
        assert((m1.at)(x) == (m.at)(x));
    }
    lemma_kernel_rounds_compute(ar, set, f, fft_start, input_a, at + 2, c, f.k as int, m3);
    let end = after(ar, set, rounds, m3);
    assert((m2.at)(start_of(f.twiddles)) == (m1.at)(start_of(f.twiddles)));
    assert((m3.at)(start_of(f.twiddles)) == (m.at)(start_of(f.twiddles)));
    assert forall|ki: int| 0 <= ki < f.k implies #[trigger] (end.at)(
        slice_of(f.k_complex_out, n, ki),
    ) == if f.routing@[ki] == c {
        convolved(
            ar,
            held(m, f.twiddles),
            (m.at)(plane_of(input_a, n, c)),
            (m.at)(slice_of(kernel_fft, n, ki)),
        )
    } else {
        (m.at)(slice_of(f.k_complex_out, n, ki))
    } by {
        let x = slice_of(f.k_complex_out, n, ki);
        assert((m1.at)(x) == (m.at)(x));
        assert((m2.at)(x) == (m1.at)(x));
        assert((m3.at)(x) == (m2.at)(x));
        assert((m3.at)(slice_of(f.k_spectra, n, ki)) == (ar.product)(
            forward(ar, held(m, f.twiddles), (m.at)(plane_of(input_a, n, c))),
            (m.at)(slice_of(kernel_fft, n, ki)),
        ));
    }
    assert forall|x: Cell| !f.is_work(x.buffer) implies #[trigger] (end.at)(x) == (m.at)(x) by {
        assert((m1.at)(x) == (m.at)(x));
        assert((m2.at)(x) == (m1.at)(x));
        assert((m3.at)(x) == (m2.at)(x));
    }
}

/// The blocks of the product and of the rearrangement say the grid and the
/// number of kernels, and their workgroups cover all slices.
proof fn lemma_linear(
    set: Setting,
    f: ConvolveFftPass,
    fft_start: int,
    twiddles: Seq<(F32Bits, F32Bits)>,
)
    requires
        f.wf(),
        f.is_built(fft_start, f.n, f.channels, f.routing@),
        set.width == f.n,
        set.kernels == f.k,
        has_from(
            set.buffers,
            fft_start,
            convolve_fft_buffers(f.n, f.k, f.channels, twiddles),
        ),
    ensures
        words_in(set.buffers, f.sm_params_buf) == seq![f.n, f.k, 0, 0],
        words_in(set.buffers, f.layout_params_buf) == seq![f.n, f.k, 0, 0],
        covers_slices(set, crate::device::groups(f.n * f.n * f.k, 256) as u32, 1),
{
    let specs = convolve_fft_buffers(f.n, f.k, f.channels, twiddles);
    assert(set.buffers[fft_start + 6] == specs[6]);
    assert(set.buffers[fft_start + 7] == specs[7]);
    law_words_round_trip(seq![f.n, f.k, 0, 0]);
    crate::passes::tile::lemma_product3(f.n as int, f.n as int, f.k as int);
    crate::device::law_groups_cover(f.n * f.n * f.k, 256);
}

/// The parameters of the first channels stand before those of the next one.
proof fn lemma_step_buffers_prefix(s: Seq<BufferSpec>, base: int, f: ConvolveFftPass, count: int, c: int)
    requires
        f.wf(),
        0 <= c < count <= f.channels,
        has_from(s, base, f.step_buffers(count)),
    ensures
        has_from(
            s,
            base + f.used(c),
            direction_buffers(f.n, FftDirection::Forward) + inverse_buffers(
                f.n,
                routed(f.routing@, c, f.k as int),
            ),
        ),
    decreases count,
{
    let own = direction_buffers(f.n, FftDirection::Forward) + inverse_buffers(
        f.n,
        routed(f.routing@, count - 1, f.k as int),
    );
    assert(f.step_buffers(count) =~= f.step_buffers(count - 1) + own);
    lemma_has_split(s, base, f.step_buffers(count - 1), own);
    if c < count - 1 {
        lemma_step_buffers_prefix(s, base, f, count - 1, c);
    } else {
        lemma_step_buffers_used(f, c);
    }
}

proof fn lemma_step_buffers_used(f: ConvolveFftPass, c: int)
    requires
        f.wf(),
        0 <= c,
    ensures
        f.step_buffers(c).len() == f.used(c),
    decreases c,
{
    if c > 0 {
        lemma_step_buffers_used(f, c - 1);
        lemma_routed_bounds(f.routing@, c - 1, f.k as int);
        lemma_inverse_len(f.n, routed(f.routing@, c - 1, f.k as int));
    }
}

#[verifier::rlimit(40)]
#[verifier::spinoff_prover]
proof fn lemma_channel_rounds_compute<V>(
    ar: Arithmetic<V>,
    set: Setting,
    f: ConvolveFftPass,
    fft_start: int,
    base: int,
    c: int,
    twiddles: Seq<(F32Bits, F32Bits)>,
    input_a: Buffer,
    kernel_fft: Buffer,
    pre_g_out: Buffer,
    m: Memory<V>,
)
    requires
        f.apart(fft_start, base, f.routing@, input_a, kernel_fft, pre_g_out),
        spectral_setting(set, f, fft_start, base, twiddles, input_a),
        0 <= fft_start,
        0 <= c <= f.channels,
    ensures
        ({
            let end = after(ar, set, f.channel_rounds(base, c, input_a, kernel_fft), m);
            &&& forall|ki: int|
                0 <= ki < f.k && f.routing@[ki] < c ==> #[trigger] (end.at)(
                    slice_of(f.k_complex_out, f.n, ki),
                ) == convolved(
                    ar,
                    held(m, f.twiddles),
                    (m.at)(plane_of(input_a, f.n, f.routing@[ki] as int)),
                    (m.at)(slice_of(kernel_fft, f.n, ki)),
                )
            &&& forall|x: Cell| !f.is_work(x.buffer) ==> #[trigger] (end.at)(x) == (m.at)(x)
        }),
    decreases c,
{
    if c > 0 {
        lemma_channel_rounds_compute(
            ar,
            set,
            f,
            fft_start,
            base,
            c - 1,
            twiddles,
            input_a,
            kernel_fft,
            pre_g_out,
            m,
        );
        lemma_used_bounds(f, c - 1);
        lemma_used_bounds(f, c);
        lemma_step_buffers_prefix(set.buffers, base, f, f.channels as int, c - 1);
        let at = base + f.used(c - 1);
        let before = f.channel_rounds(base, c - 1, input_a, kernel_fft);
        let round = f.channel_round(at, c - 1, input_a, kernel_fft);
        let mid = after(ar, set, before, m);
        lemma_after_concat(ar, set, before, round, m);
        lemma_channel_round_computes(
            ar,
            set,
            f,
            fft_start,
            base,
            at,
            c - 1,
            twiddles,
            input_a,
            kernel_fft,
            pre_g_out,
            mid,
        );
        let end = after(ar, set, round, mid);
        assert((mid.at)(start_of(f.twiddles)) == (m.at)(start_of(f.twiddles)));
        assert forall|ki: int| 0 <= ki < f.k && f.routing@[ki] < c implies #[trigger] (end.at)(
            slice_of(f.k_complex_out, f.n, ki),
        ) == convolved(
            ar,
            held(m, f.twiddles),
            (m.at)(plane_of(input_a, f.n, f.routing@[ki] as int)),
            (m.at)(slice_of(kernel_fft, f.n, ki)),
        ) by {
            assert((mid.at)(plane_of(input_a, f.n, c - 1)) == (m.at)(
                plane_of(input_a, f.n, c - 1),
            ));
            assert((mid.at)(slice_of(kernel_fft, f.n, ki)) == (m.at)(
                slice_of(kernel_fft, f.n, ki),
            ));
        }
        assert forall|x: Cell| !f.is_work(x.buffer) implies #[trigger] (end.at)(x) == (m.at)(
            x,
        ) by {
            assert((mid.at)(x) == (m.at)(x));
        }
    }
}

/// The convolution by transform convolves every kernel with its own source
/// channel: the part of kernel `ki` is the real part of the inverse transform
/// of the product of two spectra, that of the channel which the kernel reads
/// and that of the kernel itself.
#[verifier::rlimit(40)]
#[verifier::spinoff_prover]
pub proof fn law_convolve_fft_computes<V>(
    ar: Arithmetic<V>,
    set: Setting,
    f: ConvolveFftPass,
    fft_start: int,
    base: int,
    twiddles: Seq<(F32Bits, F32Bits)>,
    input_a: Buffer,
    kernel_fft: Buffer,
    pre_g_out: Buffer,
    m: Memory<V>,
    ki: int,
)
    requires
        f.apart(fft_start, base, f.routing@, input_a, kernel_fft, pre_g_out),
        spectral_setting(set, f, fft_start, base, twiddles, input_a),
        0 <= fft_start,
        0 <= ki < f.k,
    ensures
        ({
            let cmds = f.commands(base, input_a, kernel_fft, pre_g_out);
            let end = after(ar, set, cmds, m);
            let channel = f.routing@[ki] as int;
            let spectrum = forward(
                ar,
                held(m, f.twiddles),
                (m.at)(plane_of(input_a, f.n, channel)),
            );
            let product = (ar.product)(spectrum, (m.at)(slice_of(kernel_fft, f.n, ki)));
            &&& (end.at)(slice_of(pre_g_out, f.n, ki)) == (ar.real_part)(
                inverse(ar, held(m, f.twiddles), product),
            )
            &&& forall|x: Cell|
                !f.is_work(x.buffer) && x.buffer != pre_g_out ==> #[trigger] (end.at)(x) == (m.at)(
                    x,
                )
        }),
{
    reveal(effect);
    let c = f.channels as int;
    let rounds = f.channel_rounds(base, c, input_a, kernel_fft);
    let cmds = f.commands(base, input_a, kernel_fft, pre_g_out);
    let layout = cmds.last();
    let mid = after(ar, set, rounds, m);
    lemma_channel_rounds_compute(
        ar,
        set,
        f,
        fft_start,
        base,
        c,
        twiddles,
        input_a,
        kernel_fft,
        pre_g_out,
        m,
    );
    lemma_after_push(ar, set, rounds, layout, m);
    lemma_linear(set, f, fft_start, twiddles);
    assert(proper(set, layout));
    assert(f.routing@[ki] < f.channels);
    assert((mid.at)(slice_of(f.k_complex_out, f.n, ki)) == convolved(
        ar,
        held(m, f.twiddles),
        (m.at)(plane_of(input_a, f.n, f.routing@[ki] as int)),
        (m.at)(slice_of(kernel_fft, f.n, ki)),
    ));
    let end = effect(ar, set, layout, mid);
    assert forall|x: Cell| !f.is_work(x.buffer) && x.buffer != pre_g_out implies #[trigger] (
    end.at)(x) == (m.at)(x) by {
        assert((mid.at)(x) == (m.at)(x));
    }
}

/// A step that convolves by transform gives every kernel of the bank the
/// convolution of its own source channel with itself, and leaves the
/// activation, the map, the records, the weights and the parameters to the
/// passes that follow.
#[verifier::rlimit(40)]
#[verifier::spinoff_prover]
pub proof fn law_fft_step_convolves<V>(
    ar: Arithmetic<V>,
    set: Setting,
    p: GpuStepPipeline,
    cfg: FlowLeniaConfig,
    bank: KernelBank,
    start: int,
    base: int,
    twiddles: Seq<(F32Bits, F32Bits)>,
    m: Memory<V>,
    ki: int,
)
    requires
        p.wf(),
        p.ready(),
        p.convolve_mode == ConvolveMode::Fft,
        p.laid_out(bank, start),
        p.convolve_fft_pass->0.is_built(
            fft_base(start, p.affinity_mode),
            cfg.grid_width,
            cfg.channels,
            routing_of(bank.params),
        ),
        p.convolve_fft_pass->0.apart(
            fft_base(start, p.affinity_mode),
            base,
            routing_of(bank.params),
            p.current_a(),
            p.kernel_fft->0.buffer,
            p.buffers.pre_g,
        ),
        p.kernel_fft->0.buffer.id >= fft_base(start, p.affinity_mode),
        spectral_setting(
            set,
            p.convolve_fft_pass->0,
            fft_base(start, p.affinity_mode),
            base,
            twiddles,
            p.current_a(),
        ),
        0 <= ki < bank.params.kernels@.len(),
    ensures
        ({
            let n = cfg.grid_width;
            let channel = bank.params.kernels@[ki].c0 as int;
            let end = after(ar, set, p.convolution(base), m);
            let tw = held(m, Buffer { id: fft_base(start, p.affinity_mode) as usize });
            let spectrum = forward(ar, tw, (m.at)(plane_of(p.current_a(), n, channel)));
            let kernel = (m.at)(slice_of(p.kernel_fft->0.buffer, n, ki));
            &&& (end.at)(slice_of(p.buffers.pre_g, n, ki)) == (ar.real_part)(
                inverse(ar, tw, (ar.product)(spectrum, kernel)),
            )
            &&& held(end, p.current_a()) == held(m, p.current_a())
            &&& held(end, p.weights()) == held(m, p.weights())
            &&& held(end, p.buffers.kernels.meta) == held(m, p.buffers.kernels.meta)
            &&& held(end, p.buffers.globals) == held(m, p.buffers.globals)
            &&& p.localized is Some ==> held(end, p.localized->0.routing) == held(
                m,
                p.localized->0.routing,
            )
        }),
{
    let f = p.convolve_fft_pass->0;
    let first = fft_base(start, p.affinity_mode);
    law_convolve_fft_computes(
        ar,
        set,
        f,
        first,
        base,
        twiddles,
        p.current_a(),
        p.kernel_fft->0.buffer,
        p.buffers.pre_g,
        m,
        ki,
    );
    let end = after(ar, set, p.convolution(base), m);
    assert((end.at)(start_of(p.current_a())) == (m.at)(start_of(p.current_a())));
    assert((end.at)(start_of(p.weights())) == (m.at)(start_of(p.weights())));
    assert((end.at)(start_of(p.buffers.kernels.meta)) == (m.at)(
        start_of(p.buffers.kernels.meta),
    ));
    assert((end.at)(start_of(p.buffers.globals)) == (m.at)(start_of(p.buffers.globals)));
    if p.localized is Some {
        assert((end.at)(start_of(p.localized->0.routing)) == (m.at)(
            start_of(p.localized->0.routing),
        ));
    }
}

// The transforms of the kernels.

#[verifier::rlimit(40)]
#[verifier::spinoff_prover]
proof fn lemma_forward_2d_computes<V>(
    ar: Arithmetic<V>,
    set: Setting,
    n: u32,
    at: int,
    twiddles: Buffer,
    input: Seq<u32>,
    m: Memory<V>,
)
    requires
        n == 64 || n == 256 || n == 8 || n == 32 || n == 128 || n == 512,
        set.width == n,
        0 <= at,
        at + 5 <= usize::MAX,
        twiddles.id < at,
        has_from(set.buffers, at, forward_2d_buffers(n, input)),
        (set.part)(Buffer { id: at as usize }) == n * n * 4,
        (set.part)(Buffer { id: (at + 1) as usize }) == n * n * 8,
    ensures
        ({
            let end = after(ar, set, Fft2dPass::of(n).forward_2d_commands(at, twiddles), m);
            &&& held(end, Buffer { id: (at + 5) as usize }) == forward(
                ar,
                held(m, twiddles),
                held(m, Buffer { id: at as usize }),
            )
            &&& forall|x: Cell|
                x.buffer.id <= at || x.buffer.id > at + 5 ==> #[trigger] (end.at)(x) == (m.at)(x)
        }),
{
    reveal(effect);
    let f = Fft2dPass::of(n);
    let (a, b) = (Buffer { id: (at + 1) as usize }, Buffer { id: (at + 2) as usize });
    let cmds = f.forward_2d_commands(at, twiddles);
    let mid_cmds = f.forward_commands(at + 3, twiddles, a, b, a);
    let c0 = cmds[0];
    let c3 = cmds[3];
    assert(0 <= n * n <= 512 * 512) by (nonlinear_arith)
        requires
            0 <= n <= 512,
    ;
    assert(cmds =~= seq![c0] + mid_cmds + seq![c3]);
    lemma_after_concat(ar, set, seq![c0] + mid_cmds, seq![c3], m);
    lemma_after_concat(ar, set, seq![c0], mid_cmds, m);
    lemma_after_one(ar, set, c0, m);
    let m1 = effect(ar, set, c0, m);
    let specs = forward_2d_buffers(n, input);
    let d = direction_buffers(n, FftDirection::Forward);
    assert(has_from(set.buffers, at + 3, d)) by {
        assert forall|i: int| 0 <= i < d.len() implies set.buffers[at + 3 + i] == #[trigger] d[i] by {
            assert(set.buffers[at + (3 + i)] == specs[3 + i]);
        }
    }
    law_forward_computes(ar, set, n, at + 3, twiddles, a, b, a, m1);
    let m2 = after(ar, set, mid_cmds, m1);
    lemma_after_one(ar, set, c3, m2);
    let end = effect(ar, set, c3, m2);
    assert forall|x: Cell| x.buffer.id <= at || x.buffer.id > at + 5 implies #[trigger] (end.at)(x)
        == (m.at)(x) by {
        assert((m2.at)(x) == (m1.at)(x));
    }
}

proof fn lemma_bank_prefix(s: Seq<BufferSpec>, base: int, ks: Seq<KernelImage>, n: u32, i: int)
    requires
        0 <= i < ks.len(),
        has_from(s, base, bank_fft_buffers(ks, n)),
    ensures
        has_from(s, base + 6 * i, forward_2d_buffers(n, padded_kernel(ks[i], n as int))),
    decreases ks.len(),
{
    lemma_bank_len(ks.drop_last(), n);
    lemma_has_split(
        s,
        base,
        bank_fft_buffers(ks.drop_last(), n),
        forward_2d_buffers(n, padded_kernel(ks.last(), n as int)),
    );
    if i < ks.len() - 1 {
        lemma_bank_prefix(s, base, ks.drop_last(), n, i);
    }
}

proof fn lemma_bank_len(ks: Seq<KernelImage>, n: u32)
    ensures
        bank_fft_buffers(ks, n).len() == 6 * ks.len(),
    decreases ks.len(),
{
    if ks.len() > 0 {
        lemma_bank_len(ks.drop_last(), n);
    }
}

#[verifier::rlimit(40)]
#[verifier::spinoff_prover]
proof fn lemma_bank_computes<V>(
    ar: Arithmetic<V>,
    set: Setting,
    images: Seq<KernelImage>,
    n: u32,
    base: int,
    twiddles: Buffer,
    count: nat,
    m: Memory<V>,
)
    requires
        n == 64 || n == 256 || n == 8 || n == 32 || n == 128 || n == 512,
        set.width == n,
        0 <= base,
        base + 6 * images.len() <= usize::MAX,
        twiddles.id < base,
        has_from(set.buffers, base, bank_fft_buffers(images, n)),
        forall|b: Buffer| #[trigger]
            (set.part)(b) == if b.id >= base && (b.id - base) % 6 == 0 {
                n * n * 4
            } else {
                n * n * 8
            },
        count <= images.len(),
    ensures
        ({
            let end = after(
                ar,
                set,
                bank_fft_commands(Fft2dPass::of(n), base, twiddles, count),
                m,
            );
            &&& forall|i: int|
                0 <= i < count ==> held(end, #[trigger] nth(base, i, 5)) == forward(
                    ar,
                    held(m, twiddles),
                    held(m, nth(base, i, 0)),
                )
            &&& forall|x: Cell|
                x.buffer.id < base || x.buffer.id >= base + 6 * count ==> #[trigger] (end.at)(x)
                    == (m.at)(x)
            &&& forall|i: int|
                0 <= i < images.len() ==> held(end, #[trigger] nth(base, i, 0)) == held(
                    m,
                    nth(base, i, 0),
                )
        }),
    decreases count,
{
    if count > 0 {
        let j = count - 1;
        lemma_bank_computes(ar, set, images, n, base, twiddles, j as nat, m);
        let before = bank_fft_commands(Fft2dPass::of(n), base, twiddles, j as nat);
        let at = base + 6 * j;
        let own = Fft2dPass::of(n).forward_2d_commands(at, twiddles);
        let mid = after(ar, set, before, m);
        lemma_after_concat(ar, set, before, own, m);
        lemma_bank_prefix(set.buffers, base, images, n, j as int);
        assert((at - base) % 6 == 0);
        assert((at + 1 - base) % 6 == 1);
        lemma_forward_2d_computes(
            ar,
            set,
            n,
            at,
            twiddles,
            padded_kernel(images[j as int], n as int),
            mid,
        );
        let end = after(ar, set, own, mid);
        assert((mid.at)(start_of(twiddles)) == (m.at)(start_of(twiddles)));
        assert forall|i: int| 0 <= i < count implies held(end, #[trigger] nth(base, i, 5))
            == forward(ar, held(m, twiddles), held(m, nth(base, i, 0))) by {
            if i < j {
                assert((end.at)(start_of(nth(base, i, 5))) == (mid.at)(
                    start_of(nth(base, i, 5)),
                ));
            } else {
                assert(held(mid, nth(base, i, 0)) == held(m, nth(base, i, 0)));
            }
        }
        assert forall|x: Cell|
            x.buffer.id < base || x.buffer.id >= base + 6 * count implies #[trigger] (end.at)(x)
            == (m.at)(x) by {
            assert((mid.at)(x) == (m.at)(x));
        }
        assert forall|i: int| 0 <= i < images.len() implies held(end, #[trigger] nth(base, i, 0))
            == held(m, nth(base, i, 0)) by {
            assert((end.at)(start_of(nth(base, i, 0))) == (mid.at)(start_of(nth(base, i, 0))));
        }
    }
}

/// The `j`-th of the six buffers of the transform of kernel `i`.
pub open spec fn nth(base: int, i: int, j: int) -> Buffer {
    Buffer { id: (base + 6 * i + j) as usize }
}

proof fn lemma_kernel_words(
    s: Seq<BufferSpec>,
    images: Seq<KernelImage>,
    n: u32,
    base: int,
    i: int,
)
    requires
        has_from(s, base, bank_fft_buffers(images, n)),
        0 <= base,
        base + 6 * images.len() <= usize::MAX,
        0 <= i < images.len(),
    ensures
        words_in(s, nth(base, i, 0)) == padded_kernel(images[i], n as int),
{
    lemma_bank_prefix(s, base, images, n, i);
    let padded = padded_kernel(images[i], n as int);
    let own = forward_2d_buffers(n, padded);
    assert(own.len() == 6);
    assert(s[base + 6 * i + 0] == own[0]);
    law_words_round_trip(padded);
}

/// The first buffer of the transform of a kernel starts with the kernel, laid
/// out around the origin of the grid.
proof fn lemma_kernel_source(
    s: Seq<BufferSpec>,
    images: Seq<KernelImage>,
    n: u32,
    base: int,
    i: int,
    y: int,
    x: int,
)
    requires
        has_from(s, base, bank_fft_buffers(images, n)),
        0 <= base,
        base + 6 * images.len() <= usize::MAX,
        0 <= i < images.len(),
        images[i].rows() <= n,
        images[i].cols() <= n,
        0 <= y < images[i].rows(),
        0 <= x < images[i].cols(),
    ensures
        ({
            let words = words_in(s, nth(base, i, 0));
            let image = images[i];
            &&& words.len() == n * n
            &&& words[((y - image.rows() / 2) % (n as int)) * n + (x - image.cols() / 2) % (
            n as int)] == image.at(y, x)
        }),
{
    lemma_kernel_words(s, images, n, base, i);
    let (dy, dx) = (y - images[i].rows() / 2, x - images[i].cols() / 2);
    crate::passes::kernel_fft::law_padded_kernel_offsets(images[i], n as int, dy, dx);
    assert(crate::passes::kernel_fft::wrap(dy, n as int) == dy % (n as int));
    assert(crate::passes::kernel_fft::wrap(dx, n as int) == dx % (n as int));
    let cells = n * n;
    assert(0 <= cells) by (nonlinear_arith)
        requires
            cells == n * n,
    ;
}

/// The commands that a pipeline records when it is built leave, in the staging
/// buffer of every kernel, the forward transform of that kernel: of a buffer
/// that starts with the kernel laid out on the grid.
#[verifier::rlimit(40)]
#[verifier::spinoff_prover]
pub proof fn law_startup_transforms_kernels<V>(
    ar: Arithmetic<V>,
    set: Setting,
    built: GpuStepPipeline,
    cfg: FlowLeniaConfig,
    bank: KernelBank,
    initial_a: ActivationField,
    convolve_mode: ConvolveMode,
    affinity_mode: AffinityMode,
    twiddles: Seq<(F32Bits, F32Bits)>,
    start: int,
    m: Memory<V>,
    i: int,
    y: int,
    x: int,
)
    requires
        built.wf(),
        built.is_built(start, cfg, bank, convolve_mode, affinity_mode),
        built.convolve_mode == ConvolveMode::Fft,
        bank.images@.len() == bank.params.kernels@.len(),
        has_from(
            set.buffers,
            start,
            pipeline_specs(cfg, bank, initial_a, convolve_mode, affinity_mode, twiddles),
        ),
        start + 23 + 6 * bank.images@.len() <= usize::MAX,
        0 <= start,
        set.width == cfg.grid_width,
        ({
            let base = kernel_fft_base(start, affinity_mode, cfg.channels);
            forall|b: Buffer| #[trigger]
                (set.part)(b) == if b.id >= base && (b.id - base) % 6 == 0 {
                    cfg.grid_width * cfg.grid_width * 4
                } else {
                    cfg.grid_width * cfg.grid_width * 8
                }
        }),
        0 <= i < bank.images@.len(),
        bank.images@[i].rows() <= cfg.grid_width,
        bank.images@[i].cols() <= cfg.grid_width,
        0 <= y < bank.images@[i].rows(),
        0 <= x < bank.images@[i].cols(),
    ensures
        ({
            let n = cfg.grid_width as int;
            let image = bank.images@[i];
            let source = nth(kernel_fft_base(start, affinity_mode, cfg.channels), i, 0);
            let words = words_in(set.buffers, source);
            let end = after(
                ar,
                set,
                startup_commands(start, cfg, bank, convolve_mode, affinity_mode),
                m,
            );
            &&& held(end, built.spectra_staging@[i]) == forward(
                ar,
                held(m, built.convolve_fft_pass->0.twiddles),
                held(m, source),
            )
            &&& words.len() == n * n
            &&& words[((y - image.rows() / 2) % n) * n + (x - image.cols() / 2) % n] == image.at(
                y,
                x,
            )
        }),
{
    let n = cfg.grid_width;
    let base = kernel_fft_base(start, affinity_mode, cfg.channels);
    let first = fft_base(start, affinity_mode);
    let steps = step_buffer_specs(cfg, bank, initial_a);
    let local = if affinity_mode == AffinityMode::Localized {
        localized_specs(cfg, bank)
    } else {
        seq![]
    };
    let conv = convolve_fft_buffers(
        n,
        bank.params.kernels@.len() as u32,
        cfg.channels,
        twiddles,
    );
    let ffts = bank_fft_buffers(bank.images@, n);
    lemma_has_split(set.buffers, start, steps + local, conv + ffts);
    lemma_has_split(set.buffers, first, conv, ffts);
    assert(base == first + conv.len());
    let tw = Buffer { id: first as usize };
    assert(built.convolve_fft_pass->0.twiddles == tw);
    lemma_bank_computes(ar, set, bank.images@, n, base, tw, bank.images@.len(), m);
    lemma_kernel_source(set.buffers, bank.images@, n, base, i, y, x);
    assert(built.spectra_staging@[i] == nth(base, i, 5));
}

} // verus!
