//! What a device asks of a command, and that the commands of a run meet it.
//!
//! A device refuses a command that binds a buffer for something that the buffer
//! was not created for, or that copies past the end of a buffer.

use crate::activation_buffer::channel_major;
use crate::app_state::{AppState, Run, RunInputs};
use crate::config::FlowLeniaConfig;
use crate::device::{
    zeroed, BindGroup, BindGroupLayout, BindingKind, Buffer, BufferSpec, BufferUsages, Command,
    ShaderStage,
};
use crate::field::{field_extents, ActivationField, KernelImage};
use crate::kernel_buffers::KernelBank;
use crate::passes::convolve_fft::{
    convolve_fft_buffers, inverse_buffers, law_every_kernel_once, lemma_routed_bounds,
    lemma_used_bounds, routed, routing_of, ConvolveFftPass,
};
use crate::passes::fft::{
    direction_buffers, fft_layout, forward_2d_buffers, Fft2dPass, FftDirection,
};
use crate::passes::kernel_fft::{
    bank_fft_buffers, bank_fft_commands, padded_kernel, KernelFftBuffers,
};
use crate::passes::spectral_multiply::linear_command;
use crate::pipeline::{
    fft_base, kernel_fft_base, localized_specs, pipeline_specs, startup_commands,
    step_buffer_specs, AffinityMode, ConvolveMode, GpuStepPipeline,
};
use crate::screenshot::ScreenshotPlan;
use crate::words::F32Bits;
use vstd::prelude::*;

verus! {

/// The buffer exists and may be bound in this way.
pub open spec fn bindable(s: Seq<BufferSpec>, kind: BindingKind, b: Buffer) -> bool {
    &&& b.id < s.len()
    &&& match kind {
        BindingKind::StorageRead => s[b.id as int].usage.storage,
        BindingKind::StorageReadWrite => s[b.id as int].usage.storage,
        BindingKind::Uniform => s[b.id as int].usage.uniform,
    }
}

/// A binding that a layout may have is bound exactly where the layout has it,
/// to a buffer that may be bound in this way.
pub open spec fn slot_valid(
    s: Seq<BufferSpec>,
    kind: Option<BindingKind>,
    b: Option<Buffer>,
) -> bool {
    &&& kind is Some <==> b is Some
    &&& kind is Some ==> bindable(s, kind->0, b->0)
}

/// The group binds what the layout asks for.
pub open spec fn group_valid(s: Seq<BufferSpec>, l: BindGroupLayout, g: BindGroup) -> bool {
    &&& bindable(s, l.b0, g.b0)
    &&& bindable(s, l.b1, g.b1)
    &&& slot_valid(s, l.b2, g.b2)
    &&& slot_valid(s, l.b3, g.b3)
    &&& slot_valid(s, l.b4, g.b4)
}

/// A copy between two buffers that were created for it, inside both, in whole
/// words.
pub open spec fn copy_valid(
    s: Seq<BufferSpec>,
    src: Buffer,
    src_offset: int,
    dst: Buffer,
    dst_offset: int,
    size: int,
) -> bool {
    &&& src.id < s.len() && dst.id < s.len() && src != dst
    &&& s[src.id as int].usage.copy_src && s[dst.id as int].usage.copy_dst
    &&& src_offset % 4 == 0 && dst_offset % 4 == 0 && size % 4 == 0
    &&& src_offset + size <= s[src.id as int].size
    &&& dst_offset + size <= s[dst.id as int].size
}

/// A device with the given buffers accepts the command.
pub open spec fn command_valid(s: Seq<BufferSpec>, c: Command) -> bool {
    match c {
        Command::Dispatch { pipeline, bind_group, .. } => {
            &&& pipeline.layout.stage == ShaderStage::Compute
            &&& group_valid(s, pipeline.layout, bind_group)
        },
        Command::Copy { src, src_offset, dst, dst_offset, size } => copy_valid(
            s,
            src,
            src_offset as int,
            dst,
            dst_offset as int,
            size as int,
        ),
        Command::Draw { layout, bind_group, .. } => {
            &&& layout.stage == ShaderStage::Fragment
            &&& group_valid(s, layout, bind_group)
        },
    }
}

/// A device with the given buffers accepts every one of the commands.
pub open spec fn all_valid(s: Seq<BufferSpec>, cmds: Seq<Command>) -> bool {
    forall|i: int| 0 <= i < cmds.len() ==> command_valid(s, #[trigger] cmds[i])
}

/// The device has the given buffers from `base` on.
pub open spec fn has_from(s: Seq<BufferSpec>, base: int, specs: Seq<BufferSpec>) -> bool {
    &&& 0 <= base
    &&& base + specs.len() <= s.len()
    &&& forall|i: int| 0 <= i < specs.len() ==> s[base + i] == #[trigger] specs[i]
}

proof fn lemma_has_parts(s: Seq<BufferSpec>, base: int, a: Seq<BufferSpec>, b: Seq<BufferSpec>)
    requires
        has_from(s, base, a + b),
    ensures
        has_from(s, base, a),
        has_from(s, base + a.len(), b),
{
    let ab = a + b;
    assert forall|i: int| 0 <= i < a.len() implies s[base + i] == #[trigger] a[i] by {
        assert(ab[i] == a[i]);
    }
    assert forall|i: int| 0 <= i < b.len() implies s[base + a.len() + i] == #[trigger] b[i] by {
        assert(ab[a.len() + i] == b[i]);
    }
}

proof fn lemma_all_valid_concat(s: Seq<BufferSpec>, a: Seq<Command>, b: Seq<Command>)
    requires
        all_valid(s, a),
        all_valid(s, b),
    ensures
        all_valid(s, a + b),
{
    assert forall|i: int| 0 <= i < (a + b).len() implies command_valid(
        s,
        #[trigger] (a + b)[i],
    ) by {
        if i < a.len() {
            assert(command_valid(s, a[i]));
        } else {
            assert(command_valid(s, b[i - a.len()]));
        }
    }
}

/// The buffers of the steps and of the map may be bound as the passes bind
/// them.
proof fn lemma_step_buffers_bindable(
    s: Seq<BufferSpec>,
    p: GpuStepPipeline,
    cfg: FlowLeniaConfig,
    bank: KernelBank,
    initial_a: ActivationField,
    start: int,
)
    requires
        p.laid_out(bank, start),
        has_from(s, start, step_buffer_specs(cfg, bank, initial_a)),
        p.affinity_mode == AffinityMode::Localized ==> has_from(
            s,
            start + 11,
            localized_specs(cfg, bank),
        ),
    ensures
        ({
            let b = p.buffers;
            let r = BindingKind::StorageRead;
            &&& bindable(s, r, b.kernels.kernels)
            &&& bindable(s, r, b.kernels.meta)
            &&& bindable(s, r, b.h_weights)
            &&& bindable(s, r, b.pre_g)
            &&& bindable(s, r, b.u)
            &&& bindable(s, r, b.grad_u)
            &&& bindable(s, r, b.grad_a_sum)
            &&& bindable(s, r, b.flow)
            &&& bindable(s, BindingKind::Uniform, b.globals)
            &&& bindable(s, r, b.a.first)
            &&& bindable(s, r, b.a.second)
            &&& s[b.a.first.id as int].usage.copy_src
            &&& s[b.a.second.id as int].usage.copy_src
            &&& p.localized is Some ==> {
                &&& bindable(s, r, p.localized->0.p.first)
                &&& bindable(s, r, p.localized->0.p.second)
                &&& bindable(s, r, p.localized->0.routing)
            }
        }),
{
    let specs = step_buffer_specs(cfg, bank, initial_a);
    assert(specs.len() == 11);
    assert(s[start] == specs[0]);
    assert(s[start + 1] == specs[1]);
    assert(s[start + 2] == specs[2]);
    assert(s[start + 3] == specs[3]);
    assert(s[start + 4] == specs[4]);
    assert(s[start + 5] == specs[5]);
    assert(s[start + 6] == specs[6]);
    assert(s[start + 7] == specs[7]);
    assert(s[start + 8] == specs[8]);
    assert(s[start + 9] == specs[9]);
    assert(s[start + 10] == specs[10]);
    if p.affinity_mode == AffinityMode::Localized {
        let l = localized_specs(cfg, bank);
        assert(s[start + 11 + 0] == l[0]);
        assert(s[start + 11 + 1] == l[1]);
        assert(s[start + 11 + 2] == l[2]);
    }
}

/// What follows the convolution is accepted.
proof fn lemma_downstream_valid(
    s: Seq<BufferSpec>,
    p: GpuStepPipeline,
    cfg: FlowLeniaConfig,
    bank: KernelBank,
    initial_a: ActivationField,
    start: int,
)
    requires
        p.wf(),
        p.laid_out(bank, start),
        has_from(s, start, step_buffer_specs(cfg, bank, initial_a)),
        p.affinity_mode == AffinityMode::Localized ==> has_from(
            s,
            start + 11,
            localized_specs(cfg, bank),
        ),
    ensures
        all_valid(s, p.downstream()),
        command_valid(s, p.convolve_command()),
{
    lemma_step_buffers_bindable(s, p, cfg, bank, initial_a, start);
    let cmds = p.downstream();
    assert(cmds[0] == p.affinity_command());
    assert(cmds[1] == p.gradient_u_command());
    assert(cmds[2] == p.gradient_a_sum_command());
    assert(cmds[3] == p.flow_command());
    assert(cmds[4] == p.reintegrate_command());
    assert(command_valid(s, p.affinity_command()));
    assert(command_valid(s, p.gradient_u_command()));
    assert(command_valid(s, p.gradient_a_sum_command()));
    assert(command_valid(s, p.flow_command()));
    assert(command_valid(s, p.reintegrate_command()));
    if p.localized is Some {
        assert(cmds[5] == p.parameter_flow_commands()[0]);
        assert(command_valid(s, cmds[5]));
    }
}

/// A device that has the buffers of a pipeline that convolves directly accepts
/// every command of its steps.
pub proof fn law_direct_steps_are_valid(
    s: Seq<BufferSpec>,
    built: GpuStepPipeline,
    cfg: FlowLeniaConfig,
    bank: KernelBank,
    initial_a: ActivationField,
    convolve_mode: ConvolveMode,
    affinity_mode: AffinityMode,
    twiddles: Seq<(F32Bits, F32Bits)>,
    start: int,
    i: int,
)
    requires
        built.wf(),
        built.is_built(start, cfg, bank, convolve_mode, affinity_mode),
        built.convolve_mode == ConvolveMode::Direct,
        has_from(
            s,
            start,
            pipeline_specs(cfg, bank, initial_a, convolve_mode, affinity_mode, twiddles),
        ),
        start + 14 <= usize::MAX,
        0 <= i <= u64::MAX,
    ensures
        all_valid(s, built.running(None, i).step_commands(0)),
{
    let p = built.running(None, i);
    let steps = step_buffer_specs(cfg, bank, initial_a);
    let rest = if affinity_mode == AffinityMode::Localized {
        localized_specs(cfg, bank)
    } else {
        seq![]
    };
    assert(pipeline_specs(cfg, bank, initial_a, convolve_mode, affinity_mode, twiddles)
        =~= steps + rest);
    lemma_has_parts(s, start, steps, rest);
    lemma_downstream_valid(s, p, cfg, bank, initial_a, start);
    assert(all_valid(s, p.convolution(0)));
    lemma_all_valid_concat(s, p.convolution(0), p.downstream());
}

/// The device has uniform buffers at all places from `from` to just before
/// `to`.
pub open spec fn uniforms(s: Seq<BufferSpec>, from: int, to: int) -> bool {
    &&& to <= s.len()
    &&& forall|j: int| from <= j < to ==> (#[trigger] s[j]).usage.uniform
}

proof fn lemma_inverse_buffers_uniform(n: u32, count: int)
    requires
        0 <= count,
    ensures
        inverse_buffers(n, count).len() == 2 * count,
        forall|j: int|
            0 <= j < inverse_buffers(n, count).len() ==> (#[trigger] inverse_buffers(
                n,
                count,
            )[j]).usage.uniform,
    decreases count,
{
    if count > 0 {
        lemma_inverse_buffers_uniform(n, count - 1);
        let before = inverse_buffers(n, count - 1);
        let pair = direction_buffers(n, FftDirection::Inverse);
        let all = inverse_buffers(n, count);
        assert(all =~= before + pair);
        assert forall|j: int| 0 <= j < all.len() implies (#[trigger] all[j]).usage.uniform by {
            if j < before.len() {
                assert(all[j] == before[j]);
            } else {
                assert(all[j] == pair[j - before.len()]);
            }
        }
    }
}

/// The parameter blocks of a convolution by transform are uniform buffers.
proof fn lemma_step_buffers_uniform(f: ConvolveFftPass, c: int)
    requires
        0 <= c,
        f.routing@.len() == f.k,
    ensures
        f.step_buffers(c).len() == f.used(c),
        forall|j: int|
            0 <= j < f.step_buffers(c).len() ==> (#[trigger] f.step_buffers(c)[j]).usage.uniform,
    decreases c,
{
    if c > 0 {
        lemma_step_buffers_uniform(f, c - 1);
        lemma_routed_bounds(f.routing@, c - 1, f.k as int);
        let count = routed(f.routing@, c - 1, f.k as int);
        lemma_inverse_buffers_uniform(f.n, count);
        let before = f.step_buffers(c - 1);
        let pair = direction_buffers(f.n, FftDirection::Forward);
        let inv = inverse_buffers(f.n, count);
        let all = f.step_buffers(c);
        assert(all =~= before + pair + inv);
        assert forall|j: int| 0 <= j < all.len() implies (#[trigger] all[j]).usage.uniform by {
            if j < before.len() {
                assert(all[j] == before[j]);
            } else if j < before.len() + 2 {
                assert(all[j] == pair[j - before.len()]);
            } else {
                assert(all[j] == inv[j - before.len() - 2]);
            }
        }
    }
}

impl ConvolveFftPass {
    /// The device has the pass's buffers, large enough and for the right uses,
    /// and its arguments: an activation of all channels to copy from, kernel
    /// spectra and a result.
    pub open spec fn supplied(
        self,
        s: Seq<BufferSpec>,
        input_a: Buffer,
        kernel_fft: Buffer,
        pre_g_out: Buffer,
    ) -> bool {
        let r = BindingKind::StorageRead;
        let cells = self.n * self.n;
        let at = |b: Buffer| s[b.id as int];
        &&& bindable(s, r, self.twiddles)
        &&& bindable(s, r, self.scratch_complex)
        &&& bindable(s, r, self.spectrum_a)
        &&& bindable(s, r, self.k_spectra)
        &&& bindable(s, r, self.inv_in)
        &&& bindable(s, r, self.k_complex_out)
        &&& bindable(s, BindingKind::Uniform, self.sm_params_buf)
        &&& bindable(s, BindingKind::Uniform, self.layout_params_buf)
        &&& bindable(s, r, input_a)
        &&& bindable(s, r, kernel_fft)
        &&& bindable(s, r, pre_g_out)
        &&& at(self.spectrum_a).usage.copy_src && at(self.spectrum_a).size == cells * 8
        &&& at(self.k_spectra).usage.copy_src && at(self.k_spectra).size == cells * self.k * 8
        &&& at(self.inv_in).usage.copy_dst && at(self.inv_in).size == cells * 8
        &&& at(self.k_complex_out).usage.copy_dst && at(self.k_complex_out).size == cells * self.k
            * 8
        &&& at(input_a).usage.copy_src && at(input_a).size == cells * self.channels * 4
        &&& self.channels > 1 ==> {
            &&& bindable(s, r, self.channel_in->0)
            &&& at(self.channel_in->0).usage.copy_dst
            &&& at(self.channel_in->0).size == cells * 4
        }
    }
}

proof fn lemma_kernel_round_valid(
    s: Seq<BufferSpec>,
    f: ConvolveFftPass,
    fft_start: int,
    at: int,
    ki: int,
    input_a: Buffer,
    kernel_fft: Buffer,
    pre_g_out: Buffer,
)
    requires
        f.wf(),
        f.is_built(fft_start, f.n, f.channels, f.routing@),
        f.supplied(s, input_a, kernel_fft, pre_g_out),
        0 <= ki < f.k,
        0 <= at,
        uniforms(s, at, at + 2),
        at + 2 <= usize::MAX,
    ensures
        all_valid(s, f.kernel_round(at, ki)),
{
    let cmds = f.kernel_round(at, ki);
    let slice = f.slice_bytes();
    let cells = f.n * f.n;
    assert(0 <= cells <= 512 * 512) by (nonlinear_arith)
        requires
            0 <= f.n <= 512,
            cells == f.n * f.n,
    ;
    assert(0 <= ki * slice && ki * slice + slice <= cells * f.k * 8) by (nonlinear_arith)
        requires
            0 <= ki,
            ki + 1 <= f.k,
            slice == cells * 8,
            0 <= cells,
    ;
    assert(ki * slice == 4 * (ki * (2 * cells))) by (nonlinear_arith)
        requires
            slice == cells * 8,
    ;
    assert(cells * f.k * 8 <= u32::MAX * 8);
    assert(f.fft2d.h.pipeline.layout == fft_layout());
    assert(f.fft2d.v.pipeline.layout == fft_layout());
    assert(s[at].usage.uniform);
    assert(s[at + 1].usage.uniform);
    assert(command_valid(s, cmds[0]));
    assert(command_valid(s, cmds[1]));
    assert(command_valid(s, cmds[2]));
    assert(command_valid(s, cmds[3]));
}

proof fn lemma_kernel_rounds_valid(
    s: Seq<BufferSpec>,
    f: ConvolveFftPass,
    fft_start: int,
    at: int,
    c: int,
    m: int,
    input_a: Buffer,
    kernel_fft: Buffer,
    pre_g_out: Buffer,
)
    requires
        f.wf(),
        f.is_built(fft_start, f.n, f.channels, f.routing@),
        f.supplied(s, input_a, kernel_fft, pre_g_out),
        0 <= m <= f.k,
        0 <= at,
        uniforms(s, at, at + 2 * routed(f.routing@, c, m)),
        at + 2 * routed(f.routing@, c, m) <= usize::MAX,
    ensures
        all_valid(s, f.kernel_rounds(at, c, m)),
    decreases m,
{
    if m > 0 {
        lemma_routed_bounds(f.routing@, c, m - 1);
        lemma_kernel_rounds_valid(
            s,
            f,
            fft_start,
            at,
            c,
            m - 1,
            input_a,
            kernel_fft,
            pre_g_out,
        );
        if f.routing@[m - 1] == c {
            let here = at + 2 * routed(f.routing@, c, m - 1);
            lemma_kernel_round_valid(
                s,
                f,
                fft_start,
                here,
                m - 1,
                input_a,
                kernel_fft,
                pre_g_out,
            );
            lemma_all_valid_concat(
                s,
                f.kernel_rounds(at, c, m - 1),
                f.kernel_round(here, m - 1),
            );
        }
    }
}

proof fn lemma_channel_round_valid(
    s: Seq<BufferSpec>,
    f: ConvolveFftPass,
    fft_start: int,
    at: int,
    c: int,
    input_a: Buffer,
    kernel_fft: Buffer,
    pre_g_out: Buffer,
)
    requires
        f.wf(),
        f.is_built(fft_start, f.n, f.channels, f.routing@),
        f.supplied(s, input_a, kernel_fft, pre_g_out),
        input_a.id < fft_start,
        0 <= c < f.channels,
        0 <= at,
        uniforms(s, at, at + 2 + 2 * routed(f.routing@, c, f.k as int)),
        at + 2 + 2 * routed(f.routing@, c, f.k as int) <= usize::MAX,
    ensures
        all_valid(s, f.channel_round(at, c, input_a, kernel_fft)),
{
    let input = f.channel_input(input_a, c);
    let cells = f.n * f.n;
    assert(0 <= cells <= 512 * 512) by (nonlinear_arith)
        requires
            0 <= f.n <= 512,
            cells == f.n * f.n,
    ;
    let plane = cells * 4;
    assert(0 <= c * plane && c * plane + plane <= cells * f.channels * 4) by (nonlinear_arith)
        requires
            0 <= c,
            c + 1 <= f.channels,
            plane == cells * 4,
            0 <= cells,
    ;
    assert(c * plane == 4 * (c * cells)) by (nonlinear_arith)
        requires
            plane == cells * 4,
    ;
    assert(c * plane <= u32::MAX * (512 * 512 * 4)) by (nonlinear_arith)
        requires
            0 <= c <= u32::MAX,
            0 <= plane <= 512 * 512 * 4,
    ;
    lemma_routed_bounds(f.routing@, c, f.k as int);
    let copy = if c == 0 {
        Seq::<Command>::empty()
    } else {
        seq![
            (Command::Copy {
                src: input_a,
                src_offset: (c * (f.n * f.n * 4)) as u64,
                dst: input,
                dst_offset: 0,
                size: (f.n * f.n * 4) as u64,
            }),
        ]
    };
    let forward = f.fft2d.forward_commands(
        at,
        f.twiddles,
        input,
        f.scratch_complex,
        f.spectrum_a,
    );
    let sm = linear_command(
        f.sm_pass.pipeline,
        BindGroup::of4(f.spectrum_a, kernel_fft, f.k_spectra, f.sm_params_buf),
        f.n,
        f.k,
    );
    let rounds = f.kernel_rounds(at + 2, c, f.k as int);
    assert(f.fft2d.h.pipeline.layout == fft_layout());
    assert(f.fft2d.v.pipeline.layout == fft_layout());
    assert(s[at].usage.uniform);
    assert(s[at + 1].usage.uniform);
    assert(all_valid(s, copy)) by {
        if c > 0 {
            assert(command_valid(s, copy[0]));
        }
    }
    assert(command_valid(s, forward[0]));
    assert(command_valid(s, forward[1]));
    assert(command_valid(s, sm));
    assert(all_valid(s, forward));
    assert(all_valid(s, seq![sm]));
    lemma_kernel_rounds_valid(
        s,
        f,
        fft_start,
        at + 2,
        c,
        f.k as int,
        input_a,
        kernel_fft,
        pre_g_out,
    );
    lemma_all_valid_concat(s, copy, forward);
    lemma_all_valid_concat(s, copy + forward, seq![sm]);
    lemma_all_valid_concat(s, copy + forward + seq![sm], rounds);
    assert(f.channel_round(at, c, input_a, kernel_fft) =~= copy + forward + seq![sm] + rounds);
}

proof fn lemma_channel_rounds_valid(
    s: Seq<BufferSpec>,
    f: ConvolveFftPass,
    fft_start: int,
    base: int,
    c: int,
    input_a: Buffer,
    kernel_fft: Buffer,
    pre_g_out: Buffer,
)
    requires
        f.wf(),
        f.is_built(fft_start, f.n, f.channels, f.routing@),
        f.supplied(s, input_a, kernel_fft, pre_g_out),
        input_a.id < fft_start,
        0 <= c <= f.channels,
        0 <= base,
        uniforms(s, base, base + f.used(c)),
        base + f.used(c) <= usize::MAX,
    ensures
        all_valid(s, f.channel_rounds(base, c, input_a, kernel_fft)),
    decreases c,
{
    if c > 0 {
        lemma_used_bounds(f, c - 1);
        lemma_routed_bounds(f.routing@, c - 1, f.k as int);
        lemma_channel_rounds_valid(
            s,
            f,
            fft_start,
            base,
            c - 1,
            input_a,
            kernel_fft,
            pre_g_out,
        );
        let at = base + f.used(c - 1);
        lemma_channel_round_valid(s, f, fft_start, at, c - 1, input_a, kernel_fft, pre_g_out);
        lemma_all_valid_concat(
            s,
            f.channel_rounds(base, c - 1, input_a, kernel_fft),
            f.channel_round(at, c - 1, input_a, kernel_fft),
        );
    }
}

/// A device that has what the pass needs, and the parameter blocks of one
/// convolution from `base` on, accepts every command of the convolution.
pub proof fn law_convolve_fft_is_valid(
    s: Seq<BufferSpec>,
    f: ConvolveFftPass,
    fft_start: int,
    base: int,
    input_a: Buffer,
    kernel_fft: Buffer,
    pre_g_out: Buffer,
)
    requires
        f.wf(),
        f.is_built(fft_start, f.n, f.channels, f.routing@),
        f.supplied(s, input_a, kernel_fft, pre_g_out),
        input_a.id < fft_start,
        has_from(s, base, f.step_buffers(f.channels as int)),
        base + 2 * f.channels + 2 * f.k <= usize::MAX,
    ensures
        all_valid(s, f.commands(base, input_a, kernel_fft, pre_g_out)),
{
    let c = f.channels as int;
    lemma_step_buffers_uniform(f, c);
    law_every_kernel_once(f);
    let specs = f.step_buffers(c);
    assert forall|j: int| base <= j < base + f.used(c) implies (#[trigger] s[j]).usage.uniform by {
        assert(s[base + (j - base)] == specs[j - base]);
    }
    lemma_channel_rounds_valid(s, f, fft_start, base, c, input_a, kernel_fft, pre_g_out);
    let layout = linear_command(
        f.layout_pass.pipeline,
        BindGroup::of3(f.k_complex_out, pre_g_out, f.layout_params_buf),
        f.n,
        f.k,
    );
    assert(command_valid(s, layout));
    let rounds = f.channel_rounds(base, c, input_a, kernel_fft);
    lemma_all_valid_concat(s, rounds, seq![layout]);
    assert(f.commands(base, input_a, kernel_fft, pre_g_out) =~= rounds + seq![layout]);
}

/// The built buffers of a pipeline that convolves by transform are what its
/// transforms need.
proof fn lemma_supplied(
    s: Seq<BufferSpec>,
    p: GpuStepPipeline,
    f: ConvolveFftPass,
    cfg: FlowLeniaConfig,
    bank: KernelBank,
    initial_a: ActivationField,
    twiddles: Seq<(F32Bits, F32Bits)>,
    start: int,
)
    requires
        p.wf(),
        p.laid_out(bank, start),
        p.kernel_fft is Some,
        f.wf(),
        f.is_built(fft_base(start, p.affinity_mode), cfg.grid_width, cfg.channels, f.routing@),
        cfg.grid_height == cfg.grid_width,
        field_extents(initial_a) == (
            cfg.grid_height as int,
            cfg.grid_width as int,
            cfg.channels as int,
        ),
        has_from(s, start, step_buffer_specs(cfg, bank, initial_a)),
        p.affinity_mode == AffinityMode::Localized ==> has_from(
            s,
            start + 11,
            localized_specs(cfg, bank),
        ),
        has_from(
            s,
            fft_base(start, p.affinity_mode),
            convolve_fft_buffers(cfg.grid_width, f.k, cfg.channels, twiddles),
        ),
        bindable(s, BindingKind::StorageRead, p.kernel_fft->0.buffer),
    ensures
        f.supplied(s, p.current_a(), p.kernel_fft->0.buffer, p.buffers.pre_g),
{
    lemma_step_buffers_bindable(s, p, cfg, bank, initial_a, start);
    let specs = convolve_fft_buffers(cfg.grid_width, f.k, cfg.channels, twiddles);
    let b = fft_base(start, p.affinity_mode);
    assert(s[b + 0] == specs[0]);
    assert(s[b + 1] == specs[1]);
    assert(s[b + 2] == specs[2]);
    assert(s[b + 3] == specs[3]);
    assert(s[b + 4] == specs[4]);
    assert(s[b + 5] == specs[5]);
    assert(s[b + 6] == specs[6]);
    assert(s[b + 7] == specs[7]);
    if cfg.channels > 1 {
        assert(s[b + 8] == specs[8]);
    }
    let steps = step_buffer_specs(cfg, bank, initial_a);
    assert(s[start + 9] == steps[9]);
    assert(s[start + 10] == steps[10]);
    let (n, c) = (cfg.grid_width as int, cfg.channels as int);
    assert(c * n * n == n * n * c && 0 <= c * n * n && 4 * (n * n * c) == n * n * c * 4)
        by (nonlinear_arith)
        requires
            0 <= n,
            0 <= c,
    ;
}

/// A device that has the buffers of a pipeline that convolves by transform, its
/// kernel spectra, and the parameter blocks of one step from `base` on, accepts
/// every command of the step.
pub proof fn law_fft_steps_are_valid(
    s: Seq<BufferSpec>,
    built: GpuStepPipeline,
    cfg: FlowLeniaConfig,
    bank: KernelBank,
    initial_a: ActivationField,
    convolve_mode: ConvolveMode,
    affinity_mode: AffinityMode,
    twiddles: Seq<(F32Bits, F32Bits)>,
    kernel_fft: KernelFftBuffers,
    start: int,
    base: int,
    i: int,
)
    requires
        built.wf(),
        built.is_built(start, cfg, bank, convolve_mode, affinity_mode),
        built.convolve_mode == ConvolveMode::Fft,
        cfg.grid_height == cfg.grid_width,
        field_extents(initial_a) == (
            cfg.grid_height as int,
            cfg.grid_width as int,
            cfg.channels as int,
        ),
        has_from(
            s,
            start,
            pipeline_specs(cfg, bank, initial_a, convolve_mode, affinity_mode, twiddles),
        ),
        bindable(s, BindingKind::StorageRead, kernel_fft.buffer),
        has_from(s, base, built.step_specs()),
        start + 14 <= usize::MAX,
        base + 2 * cfg.channels + 2 * bank.params.kernels@.len() <= usize::MAX,
        0 <= i <= u64::MAX,
    ensures
        all_valid(s, built.running(Some(kernel_fft), i).step_commands(base)),
{
    let p = built.running(Some(kernel_fft), i);
    let f = p.convolve_fft_pass->0;
    let steps = step_buffer_specs(cfg, bank, initial_a);
    let local = if affinity_mode == AffinityMode::Localized {
        localized_specs(cfg, bank)
    } else {
        seq![]
    };
    let conv = convolve_fft_buffers(
        cfg.grid_width,
        bank.params.kernels@.len() as u32,
        cfg.channels,
        twiddles,
    );
    let ffts = bank_fft_buffers(bank.images@, cfg.grid_width);
    assert(f.routing@ == routing_of(bank.params));
    assert(f.k == bank.params.kernels@.len());
    lemma_has_parts(s, start, steps + local, conv + ffts);
    lemma_has_parts(s, start, steps, local);
    lemma_has_parts(s, start + (steps + local).len(), conv, ffts);
    assert(start + (steps + local).len() == fft_base(start, affinity_mode));
    lemma_supplied(s, p, f, cfg, bank, initial_a, twiddles, start);
    law_convolve_fft_is_valid(
        s,
        f,
        fft_base(start, affinity_mode),
        base,
        p.current_a(),
        kernel_fft.buffer,
        p.buffers.pre_g,
    );
    lemma_downstream_valid(s, p, cfg, bank, initial_a, start);
    lemma_all_valid_concat(s, p.convolution(base), p.downstream());
}

/// A device that has the buffers of a transform of host values from `base` on,
/// and twiddle factors, accepts every command of the transform.
proof fn lemma_forward_2d_valid(
    s: Seq<BufferSpec>,
    t: Fft2dPass,
    base: int,
    twiddles: Buffer,
    input: Seq<u32>,
)
    requires
        t == Fft2dPass::of(t.n),
        t.n <= 512,
        input.len() == t.n * t.n,
        has_from(s, base, forward_2d_buffers(t.n, input)),
        bindable(s, BindingKind::StorageRead, twiddles),
        base + 6 <= usize::MAX,
    ensures
        all_valid(s, t.forward_2d_commands(base, twiddles)),
{
    let specs = forward_2d_buffers(t.n, input);
    let cells = t.n * t.n;
    assert(0 <= cells <= 512 * 512) by (nonlinear_arith)
        requires
            0 <= t.n <= 512,
            cells == t.n * t.n,
    ;
    assert(specs.len() == 6);
    assert(s[base + 0] == specs[0]);
    assert(s[base + 1] == specs[1]);
    assert(s[base + 2] == specs[2]);
    assert(s[base + 3] == specs[3]);
    assert(s[base + 4] == specs[4]);
    assert(s[base + 5] == specs[5]);
    assert(t.h.pipeline.layout == fft_layout());
    assert(t.v.pipeline.layout == fft_layout());
    let cmds = t.forward_2d_commands(base, twiddles);
    assert(cmds.len() == 4);
    assert(command_valid(s, cmds[0]));
    assert(command_valid(s, cmds[1]));
    assert(command_valid(s, cmds[2]));
    assert(command_valid(s, cmds[3]));
}

proof fn lemma_bank_ffts_valid(
    s: Seq<BufferSpec>,
    t: Fft2dPass,
    base: int,
    twiddles: Buffer,
    images: Seq<KernelImage>,
)
    requires
        t == Fft2dPass::of(t.n),
        t.n <= 512,
        has_from(s, base, bank_fft_buffers(images, t.n)),
        bindable(s, BindingKind::StorageRead, twiddles),
        base + 6 * images.len() <= usize::MAX,
    ensures
        all_valid(s, bank_fft_commands(t, base, twiddles, images.len())),
        bank_fft_buffers(images, t.n).len() == 6 * images.len(),
    decreases images.len(),
{
    if images.len() > 0 {
        let before = bank_fft_buffers(images.drop_last(), t.n);
        let input = padded_kernel(images.last(), t.n as int);
        let last = forward_2d_buffers(t.n, input);
        lemma_has_parts(s, base, before, last);
        lemma_bank_ffts_valid(s, t, base, twiddles, images.drop_last());
        let at = base + 6 * (images.len() - 1);
        assert(0 <= t.n * t.n) by (nonlinear_arith);
        lemma_forward_2d_valid(s, t, at, twiddles, input);
        lemma_all_valid_concat(
            s,
            bank_fft_commands(t, base, twiddles, (images.len() - 1) as nat),
            t.forward_2d_commands(at, twiddles),
        );
    }
}

/// A device that has the buffers of a pipeline accepts the commands that
/// building the pipeline records.
pub proof fn law_startup_is_valid(
    s: Seq<BufferSpec>,
    cfg: FlowLeniaConfig,
    bank: KernelBank,
    initial_a: ActivationField,
    convolve_mode: ConvolveMode,
    affinity_mode: AffinityMode,
    twiddles: Seq<(F32Bits, F32Bits)>,
    start: int,
)
    requires
        bank.images@.len() == bank.params.kernels@.len(),
        cfg.grid_width <= 512,
        has_from(
            s,
            start,
            pipeline_specs(cfg, bank, initial_a, convolve_mode, affinity_mode, twiddles),
        ),
        start + 23 + 6 * bank.images@.len() <= usize::MAX,
    ensures
        all_valid(s, startup_commands(start, cfg, bank, convolve_mode, affinity_mode)),
{
    if convolve_mode.resolved(cfg.grid_width) == ConvolveMode::Fft {
        let steps = step_buffer_specs(cfg, bank, initial_a);
        let local = if affinity_mode == AffinityMode::Localized {
            localized_specs(cfg, bank)
        } else {
            seq![]
        };
        let conv = convolve_fft_buffers(
            cfg.grid_width,
            bank.params.kernels@.len() as u32,
            cfg.channels,
            twiddles,
        );
        let ffts = bank_fft_buffers(bank.images@, cfg.grid_width);
        lemma_has_parts(s, start, steps + local, conv + ffts);
        let b = start + (steps + local).len();
        lemma_has_parts(s, b, conv, ffts);
        assert(b == fft_base(start, affinity_mode));
        assert(s[b + 0] == conv[0]);
        assert(b + conv.len() == kernel_fft_base(start, affinity_mode, cfg.channels));
        lemma_bank_ffts_valid(
            s,
            Fft2dPass::of(cfg.grid_width),
            b + conv.len(),
            Buffer { id: b as usize },
            bank.images@,
        );
    }
}

/// A device that has the buffers of a run accepts what every frame asks of it,
/// whatever the settings say by then: the draw, the copy that reads the whole
/// activation back, and the draw of a screenshot. Unless a rebuild is pending,
/// what is read back has the size that the configuration calls for.
pub proof fn law_frames_are_valid(
    s: Seq<BufferSpec>,
    state: AppState,
    built: Run,
    kernel_fft: Option<KernelFftBuffers>,
    cfg: FlowLeniaConfig,
    inputs: RunInputs,
    start: int,
    i: int,
)
    requires
        state.wf(),
        inputs.accepted(cfg),
        built.is_built(start, cfg, inputs),
        state.run == (Run { pipeline: built.pipeline.running(kernel_fft, i), ..built }),
        has_from(s, start, inputs.run_specs(cfg)),
        start + 14 <= usize::MAX,
        0 <= i <= u64::MAX,
        s.len() <= usize::MAX,
    ensures
        ({
            let run = state.run;
            let p = run.pipeline;
            let bytes = 4 * (p.height * p.width * p.channels);
            let next = Buffer { id: s.len() as usize };
            let (w, h) = (state.controls.cfg.grid_width, state.controls.cfg.grid_height);
            let shot = ScreenshotPlan::of(w, h, p.current_a(), next);
            &&& command_valid(
                s,
                run.visualize.command(
                    BindGroup::of2(p.current_a(), run.visualize_globals),
                    Some(run.viewport),
                ),
            )
            &&& command_valid(
                s.push(zeroed(bytes, BufferUsages::of_readback())),
                (Command::Copy {
                    src: p.current_a(),
                    src_offset: 0,
                    dst: next,
                    dst_offset: 0,
                    size: bytes as u64,
                }),
            )
            &&& command_valid(
                s.push(state.controls.screenshot_buffer()),
                shot.visualize.command(shot.bind_group, None),
            )
            &&& state.controls.pending_rebuild is None ==> bytes == 4 * (h * w
                * state.controls.cfg.channels)
        }),
{
    let p = state.run.pipeline;
    let specs = inputs.run_specs(cfg);
    let steps = step_buffer_specs(cfg, inputs.bank, inputs.initial_a);
    let rest = specs.subrange(steps.len() as int, specs.len() as int);
    assert(steps.len() == 11);
    assert(specs =~= steps + rest);
    lemma_has_parts(s, start, steps, rest);
    lemma_step_buffers_bindable(s, p, cfg, inputs.bank, inputs.initial_a, start);
    assert(s[start + (specs.len() - 1)] == specs[specs.len() - 1]);
    assert(s[start + 9] == steps[9]);
    assert(s[start + 10] == steps[10]);
    let (h, w, c) = (cfg.grid_height as int, cfg.grid_width as int, cfg.channels as int);
    assert(channel_major(inputs.initial_a).len() == c * h * w);
    assert(4 * (h * w * c) == h * w * c * 4 && c * h * w == h * w * c && 0 <= h * w * c)
        by (nonlinear_arith)
        requires
            0 <= h,
            0 <= w,
            0 <= c,
    ;
}

} // verus!
