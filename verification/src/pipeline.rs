//! One simulation step as a list of commands.
//!
//! A [`GpuStepPipeline`] owns the handles of every buffer of a run. The
//! activation lives in two buffers that take turns: a step reads the current
//! one and writes the other, and [`GpuStepPipeline::swap_buffers`] makes the
//! other one current.

use crate::activation_buffer::{
    activation_usage, channel_major, flatten_activation_channel_major, upload_activation,
};
use crate::config::{FlowLeniaConfig, KernelEntry};
use crate::device::{
    filled, zeroed, BindGroup, Buffer, BufferSpec, BufferUsages, Command, CommandEncoder,
    GpuContext, Shader,
};
use crate::field::{field_extents, ActivationField, KernelImage};
use crate::globals::GpuGlobals;
use crate::kernel_buffers::{
    bank_buffers, bank_error, check_bank, place_bank, uploaded_bank, GpuKernelBuffers,
    KernelBank, KernelBankError,
};
use crate::passes::affinity_growth::{
    padded_weights, upload_constant_weights, weights_usage, AffinityGrowthPass,
    GpuConstantWeights, MAX_KERNELS,
};
use crate::passes::convolve::ConvolvePass;
use crate::passes::convolve_fft::{
    convolve_fft_buffers, kernel_routing, routing_of, ConvolveFftPass,
};
use crate::passes::fft::{fft_pipeline_grid, is_fft_pipeline_grid};
use crate::passes::flow::FlowPass;
use crate::passes::gradient::GradientPass;
use crate::passes::kernel_fft::{
    bank_fft_buffers, bank_fft_commands, kernel_fft_buffer, pack_kernel_ffts,
    precompute_kernel_ffts, KernelFftBuffers,
};
use crate::passes::parameter_flow::ParameterFlowPass;
use crate::passes::reintegrate::ReintegratePass;
use crate::passes::spectral_multiply::{routing_buffer, SpectralMultiplyPass};
use crate::passes::tile::{globals_buffer, output_buffer, upload_globals_block};
use crate::readback::{readback_buffer, whole_copy};
use crate::words::{word_bytes, words_to_bytes, F32Bits};
use vstd::prelude::*;

verus! {

/// How a step convolves.
#[derive(Clone, Copy, Debug, PartialEq, Eq, Structural)]
pub enum ConvolveMode {
    /// Kernel by kernel at every cell.
    Direct,
    /// By transform; the grid must have one.
    Fft,
    /// By transform where the grid has one, else directly.
    Auto,
}

impl Default for ConvolveMode {
    fn default() -> (mode: ConvolveMode)
        ensures
            mode == ConvolveMode::Auto,
    {
        ConvolveMode::Auto
    }
}

impl ConvolveMode {
    /// What the mode comes to on a grid of side `grid`.
    pub open spec fn resolved(self, grid: u32) -> ConvolveMode {
        match self {
            ConvolveMode::Auto => if fft_pipeline_grid(grid) {
                ConvolveMode::Fft
            } else {
                ConvolveMode::Direct
            },
            other => other,
        }
    }

    /// What the mode comes to on a grid of side `grid`.
    pub fn resolve(self, grid: u32) -> (mode: ConvolveMode)
        ensures
            mode == self.resolved(grid),
    {
        match self {
            ConvolveMode::Auto => if is_fft_pipeline_grid(grid) {
                ConvolveMode::Fft
            } else {
                ConvolveMode::Direct
            },
            other => other,
        }
    }
}

/// A resolved mode is never `Auto`, explicit modes stay as they are, and
/// resolving again changes nothing.
pub proof fn law_resolve(mode: ConvolveMode, grid: u32)
    ensures
        mode.resolved(grid) != ConvolveMode::Auto,
        mode != ConvolveMode::Auto ==> mode.resolved(grid) == mode,
        mode.resolved(grid).resolved(grid) == mode.resolved(grid),
        mode == ConvolveMode::Auto ==> (mode.resolved(grid) == ConvolveMode::Fft
            <==> fft_pipeline_grid(grid)),
{
}

/// Where the affinity takes its weights from.
#[derive(Clone, Copy, Debug, PartialEq, Eq, Structural)]
pub enum AffinityMode {
    /// One weight per kernel.
    Constant,
    /// A map with the weights of every cell, which moves with the mass.
    Localized,
}

impl Default for AffinityMode {
    fn default() -> (mode: AffinityMode)
        ensures
            mode == AffinityMode::Constant,
    {
        AffinityMode::Constant
    }
}

/// Why a pipeline cannot be built.
#[derive(Clone, Copy, Debug, PartialEq, Eq, Structural)]
pub enum PipelineError {
    NoChannels,
    UnsupportedGrid,
    NotSquare,
    ShapeMismatch,
    KernelCountMismatch,
    /// A kernel reads or writes a channel that there is not.
    KernelChannelMismatch,
    Kernels(KernelBankError),
    TooManyKernels,
    UnexpectedParameterMap,
    MissingParameterMap,
    ParameterMapLength,
    KernelTooLarge,
}

impl PipelineError {
    /// The message of the error.
    pub open spec fn text(self) -> Seq<char> {
        match self {
            PipelineError::NoChannels => "ConvolveMode::Fft requires cfg.channels >= 1"@,
            PipelineError::UnsupportedGrid =>
                "ConvolveMode::Fft requires cfg.grid_width to be 64, 256 or 512"@,
            PipelineError::NotSquare => "ConvolveMode::Fft requires square grid"@,
            PipelineError::ShapeMismatch => "initial_a shape mismatch with cfg grid"@,
            PipelineError::KernelCountMismatch => "kernel_params.len() != cfg.num_kernels"@,
            PipelineError::KernelChannelMismatch =>
                "kernel_params name a channel beyond cfg.channels"@,
            PipelineError::Kernels(KernelBankError::Empty) =>
                "upload_kernels: KernelParams is empty"@,
            PipelineError::Kernels(KernelBankError::SideMismatch { .. }) => "kernel side mismatch"@,
            PipelineError::TooManyKernels => "h.len() exceeds MAX_KERNELS"@,
            PipelineError::UnexpectedParameterMap =>
                "AffinityMode::Constant must not be paired with initial_p_map; pass None"@,
            PipelineError::MissingParameterMap =>
                "AffinityMode::Localized requires initial_p_map"@,
            PipelineError::ParameterMapLength => "initial_p_map length does not match H*W*K"@,
            PipelineError::KernelTooLarge => "kernel must fit inside grid"@,
        }
    }

    /// The message of the error.
    pub fn message(&self) -> (message: &'static str)
        ensures
            message@ == self.text(),
    {
        match self {
            PipelineError::NoChannels => "ConvolveMode::Fft requires cfg.channels >= 1",
            PipelineError::UnsupportedGrid =>
                "ConvolveMode::Fft requires cfg.grid_width to be 64, 256 or 512",
            PipelineError::NotSquare => "ConvolveMode::Fft requires square grid",
            PipelineError::ShapeMismatch => "initial_a shape mismatch with cfg grid",
            PipelineError::KernelCountMismatch => "kernel_params.len() != cfg.num_kernels",
            PipelineError::KernelChannelMismatch =>
                "kernel_params name a channel beyond cfg.channels",
            PipelineError::Kernels(KernelBankError::Empty) =>
                "upload_kernels: KernelParams is empty",
            PipelineError::Kernels(KernelBankError::SideMismatch { .. }) => "kernel side mismatch",
            PipelineError::TooManyKernels => "h.len() exceeds MAX_KERNELS",
            PipelineError::UnexpectedParameterMap =>
                "AffinityMode::Constant must not be paired with initial_p_map; pass None",
            PipelineError::MissingParameterMap => "AffinityMode::Localized requires initial_p_map",
            PipelineError::ParameterMapLength => "initial_p_map length does not match H*W*K",
            PipelineError::KernelTooLarge => "kernel must fit inside grid",
        }
    }
}

/// Every kernel reads and writes one of the first `channels` channels.
pub open spec fn channels_exist(kernels: Seq<KernelEntry>, channels: u32) -> bool {
    forall|i: int|
        0 <= i < kernels.len() ==> (#[trigger] kernels[i]).c0 < channels && kernels[i].c1
            < channels
}

/// Every image fits a grid of side `n`.
pub open spec fn images_fit(images: Seq<KernelImage>, n: int) -> bool {
    forall|i: int|
        0 <= i < images.len() ==> (#[trigger] images[i]).rows() <= n && images[i].cols() <= n
}

/// The error that a pipeline is refused with, if it is. The first check that
/// fails decides.
pub open spec fn pipeline_error(
    cfg: FlowLeniaConfig,
    bank: KernelBank,
    initial_a: ActivationField,
    convolve_mode: ConvolveMode,
    affinity_mode: AffinityMode,
    p_map_len: Option<nat>,
) -> Option<PipelineError> {
    let fft = convolve_mode.resolved(cfg.grid_width) == ConvolveMode::Fft;
    let k = bank.params.kernels@.len();
    if fft && cfg.channels == 0 {
        Some(PipelineError::NoChannels)
    } else if fft && !fft_pipeline_grid(cfg.grid_width) {
        Some(PipelineError::UnsupportedGrid)
    } else if fft && cfg.grid_height != cfg.grid_width {
        Some(PipelineError::NotSquare)
    } else if field_extents(initial_a) != (
        cfg.grid_height as int,
        cfg.grid_width as int,
        cfg.channels as int,
    ) {
        Some(PipelineError::ShapeMismatch)
    } else if k != cfg.num_kernels {
        Some(PipelineError::KernelCountMismatch)
    } else if !channels_exist(bank.params.kernels@, cfg.channels) {
        Some(PipelineError::KernelChannelMismatch)
    } else if bank_error(bank) is Some {
        Some(PipelineError::Kernels(bank_error(bank)->0))
    } else if k > MAX_KERNELS {
        Some(PipelineError::TooManyKernels)
    } else if affinity_mode == AffinityMode::Constant && p_map_len is Some {
        Some(PipelineError::UnexpectedParameterMap)
    } else if affinity_mode == AffinityMode::Localized && p_map_len is None {
        Some(PipelineError::MissingParameterMap)
    } else if affinity_mode == AffinityMode::Localized && p_map_len->0 != cfg.grid_height
        * cfg.grid_width * k {
        Some(PipelineError::ParameterMapLength)
    } else if fft && !images_fit(bank.images@, cfg.grid_width as int) {
        Some(PipelineError::KernelTooLarge)
    } else {
        None
    }
}

/// The sizes of the buffers of a run can be counted in 64 bits.
pub open spec fn sizes_fit(cfg: FlowLeniaConfig) -> bool {
    &&& cfg.grid_height * cfg.grid_width * cfg.channels * 8 <= u64::MAX
    &&& cfg.grid_height * cfg.grid_width * cfg.num_kernels * 4 <= u64::MAX
    &&& cfg.grid_height * cfg.grid_width * 8 <= u64::MAX
}

/// The length of a parameter map that may be absent.
pub open spec fn map_len(p_map: Option<&Vec<F32Bits>>) -> Option<nat> {
    match p_map {
        Some(m) => Some(m@.len()),
        None => None,
    }
}

/// Two buffers that take turns.
#[derive(Clone, Copy, Debug, PartialEq, Eq, Structural)]
pub struct PingPong {
    pub first: Buffer,
    pub second: Buffer,
}

impl PingPong {
    /// The buffer whose turn `ping` is.
    pub open spec fn at(self, ping: int) -> Buffer {
        if ping == 0 {
            self.first
        } else {
            self.second
        }
    }

    /// The buffer whose turn `ping` is.
    pub fn get(&self, ping: usize) -> (b: Buffer)
        ensures
            b == self.at(ping as int),
    {
        if ping == 0 {
            self.first
        } else {
            self.second
        }
    }
}

/// The compiled passes of a step.
#[derive(Clone, Copy, Debug, PartialEq, Eq, Structural)]
pub struct StepPasses {
    pub convolve: ConvolvePass,
    pub affinity: AffinityGrowthPass,
    pub gradient: GradientPass,
    pub flow: FlowPass,
    pub reintegrate: ReintegratePass,
}

impl StepPasses {
    /// The compiled passes.
    pub open spec fn of() -> StepPasses {
        StepPasses {
            convolve: ConvolvePass::of(),
            affinity: AffinityGrowthPass::of(),
            gradient: GradientPass::of(),
            flow: FlowPass::of(),
            reintegrate: ReintegratePass::of(),
        }
    }

    /// Compiles the passes.
    pub fn new() -> (passes: StepPasses)
        ensures
            passes == StepPasses::of(),
    {
        StepPasses {
            convolve: ConvolvePass::new(),
            affinity: AffinityGrowthPass::new(),
            gradient: GradientPass::new(),
            flow: FlowPass::new(),
            reintegrate: ReintegratePass::new(),
        }
    }
}

/// The buffers that every step uses.
#[derive(Clone, Copy, Debug, PartialEq, Eq, Structural)]
pub struct StepBuffers {
    pub kernels: GpuKernelBuffers,
    pub h_weights: Buffer,
    /// Convolutions, per cell and kernel.
    pub pre_g: Buffer,
    /// Affinity, per channel and cell.
    pub u: Buffer,
    pub grad_u: Buffer,
    pub grad_a_sum: Buffer,
    pub flow: Buffer,
    pub globals: Buffer,
    /// The activation; the current one is read, the other one written.
    pub a: PingPong,
}

impl StepBuffers {
    /// The handles of buffers that were asked for one after the other from
    /// `base` on.
    pub open spec fn from_base(bank: KernelBank, base: int) -> StepBuffers {
        StepBuffers {
            kernels: uploaded_bank(bank, base),
            h_weights: Buffer { id: (base + 2) as usize },
            pre_g: Buffer { id: (base + 3) as usize },
            u: Buffer { id: (base + 4) as usize },
            grad_u: Buffer { id: (base + 5) as usize },
            grad_a_sum: Buffer { id: (base + 6) as usize },
            flow: Buffer { id: (base + 7) as usize },
            globals: Buffer { id: (base + 8) as usize },
            a: PingPong {
                first: Buffer { id: (base + 9) as usize },
                second: Buffer { id: (base + 10) as usize },
            },
        }
    }

    /// Bindings of the direct convolution.
    pub open spec fn convolve_bg(self, ping: int) -> BindGroup {
        BindGroup::of5(
            self.a.at(ping),
            self.kernels.kernels,
            self.kernels.meta,
            self.pre_g,
            self.globals,
        )
    }

    /// Bindings of the affinity with the given weights.
    pub open spec fn affinity_bg(self, weights: Buffer) -> BindGroup {
        BindGroup::of5(self.pre_g, self.kernels.meta, weights, self.u, self.globals)
    }

    /// Bindings of the affinity gradient.
    pub open spec fn gradient_u_bg(self) -> BindGroup {
        BindGroup::of3(self.u, self.grad_u, self.globals)
    }

    /// Bindings of the mass gradient.
    pub open spec fn gradient_a_sum_bg(self, ping: int) -> BindGroup {
        BindGroup::of3(self.a.at(ping), self.grad_a_sum, self.globals)
    }

    /// Bindings of the flow.
    pub open spec fn flow_bg(self, ping: int) -> BindGroup {
        BindGroup::of5(self.a.at(ping), self.grad_u, self.grad_a_sum, self.flow, self.globals)
    }

    /// Bindings of the mass transport: from the current activation into the
    /// other one.
    pub open spec fn reintegrate_bg(self, ping: int) -> BindGroup {
        BindGroup::of4(self.a.at(ping), self.flow, self.a.at(1 - ping), self.globals)
    }
}

/// The weights of a bank.
pub open spec fn bank_weights(es: Seq<KernelEntry>) -> Seq<u32> {
    es.map_values(|e: KernelEntry| e.h)
}

/// The parameter block of a run.
pub open spec fn run_globals(cfg: FlowLeniaConfig, bank: KernelBank) -> GpuGlobals {
    GpuGlobals::for_config(
        cfg.grid_height,
        cfg.grid_width,
        cfg.channels,
        bank.params.kernels@.len() as u32,
        bank.side() as u32,
        cfg,
    )
}

/// The buffers that every step uses, in order.
pub open spec fn step_buffer_specs(
    cfg: FlowLeniaConfig,
    bank: KernelBank,
    initial_a: ActivationField,
) -> Seq<BufferSpec> {
    let (h, w, c) = (cfg.grid_height, cfg.grid_width, cfg.channels);
    bank_buffers(bank) + seq![
        filled(
            word_bytes(padded_weights(bank_weights(bank.params.kernels@))),
            weights_usage(),
        ),
        output_buffer(h, w, bank.params.kernels@.len() as u32),
        output_buffer(h, w, c),
        GradientPass::grad_u_buffer(h, w, c),
        GradientPass::grad_a_sum_buffer(h, w),
        FlowPass::f_out_buffer(h, w, c),
        globals_buffer(run_globals(cfg, bank)),
        filled(word_bytes(channel_major(initial_a)), activation_usage()),
        ReintegratePass::a_buffer(h, w, c),
    ]
}

/// The weights of a bank, one per kernel.
fn collect_weights(kernels: &Vec<KernelEntry>) -> (h: Vec<F32Bits>)
    ensures
        h@ == bank_weights(kernels@),
{
    let mut h: Vec<F32Bits> = Vec::new();
    for i in 0..kernels.len()
        invariant
            h@.len() == i,
            forall|j: int| 0 <= j < i ==> h@[j] == bank_weights(kernels@)[j],
    {
        h.push(kernels[i].h);
    }
    assert(h@ =~= bank_weights(kernels@));
    h
}

/// Asks for the buffers that every step uses.
fn build_step_buffers(
    ctx: &mut GpuContext,
    cfg: &FlowLeniaConfig,
    bank: &KernelBank,
    max_side: u32,
    initial_a: &ActivationField,
) -> (buffers: StepBuffers)
    requires
        bank.fits(),
        bank_error(*bank) is None,
        max_side == bank.side(),
        bank.params.kernels@.len() == cfg.num_kernels <= MAX_KERNELS,
        sizes_fit(*cfg),
    ensures
        buffers == StepBuffers::from_base(*bank, old(ctx)@.len() as int),
        old(ctx)@.len() + 11 <= usize::MAX + 1,
        final(ctx)@ == old(ctx)@ + step_buffer_specs(*cfg, *bank, *initial_a),
        final(ctx).queue() == old(ctx).queue(),
{
    let (height, width, channels) = (cfg.grid_height, cfg.grid_width, cfg.channels);
    let kernels = place_bank(ctx, bank, max_side);
    proof {
        crate::kernel_buffers::lemma_max_rows(bank.images@);
        let m = bank.side();
        assert(m <= u32::MAX) by (nonlinear_arith)
            requires
                m * m <= u32::MAX,
        ;
        crate::passes::tile::lemma_product3(height as int, width as int, channels as int);
    }
    let h_vec = collect_weights(&bank.params.kernels);
    let h_weights_block = GpuConstantWeights::from_slice(h_vec.as_slice());
    let h_weights = upload_constant_weights(ctx, &h_weights_block);
    let pre_g = ConvolvePass::allocate_pre_g(ctx, height, width, kernels.count);
    let u = AffinityGrowthPass::allocate_u_out(ctx, height, width, channels);
    let grad_u = GradientPass::allocate_grad_u(ctx, height, width, channels);
    let grad_a_sum = GradientPass::allocate_grad_a_sum(ctx, height, width);
    let flow = FlowPass::allocate_f_out(ctx, height, width, channels);
    let block = GpuGlobals::from_config(
        height,
        width,
        channels,
        kernels.count,
        kernels.max_side,
        cfg,
    );
    let globals = upload_globals_block(ctx, &block);
    let first = upload_activation(ctx, initial_a);
    let second = ReintegratePass::allocate_a(ctx, height, width, channels);
    assert(ctx@ =~= old(ctx)@ + step_buffer_specs(*cfg, *bank, *initial_a));
    StepBuffers {
        kernels,
        h_weights,
        pre_g,
        u,
        grad_u,
        grad_a_sum,
        flow,
        globals,
        a: PingPong { first, second },
    }
}

/// What a run with a parameter map has in addition.
#[derive(Clone, Copy, Debug, PartialEq, Eq, Structural)]
pub struct LocalizedState {
    pub parameter_flow: ParameterFlowPass,
    /// The map; takes turns with the activation.
    pub p: PingPong,
    /// Source channel of each kernel.
    pub routing: Buffer,
}

impl LocalizedState {
    /// The handles of buffers that were asked for one after the other from
    /// `base` on.
    pub open spec fn from_base(base: int) -> LocalizedState {
        LocalizedState {
            parameter_flow: ParameterFlowPass::of(),
            p: PingPong {
                first: Buffer { id: base as usize },
                second: Buffer { id: (base + 1) as usize },
            },
            routing: Buffer { id: (base + 2) as usize },
        }
    }
}

/// The buffers of a run with a parameter map, in order.
pub open spec fn localized_specs(cfg: FlowLeniaConfig, bank: KernelBank) -> Seq<BufferSpec> {
    let p = ParameterFlowPass::p_buffer(
        cfg.grid_height,
        cfg.grid_width,
        bank.params.kernels@.len() as u32,
    );
    seq![p, p, routing_buffer(routing_of(bank.params))]
}

/// Asks for the buffers of a run with a parameter map and queues the map for
/// the first of them.
fn build_localized(
    ctx: &mut GpuContext,
    cfg: &FlowLeniaConfig,
    bank: &KernelBank,
    p_map: &Vec<F32Bits>,
) -> (state: LocalizedState)
    requires
        bank.params.kernels@.len() == cfg.num_kernels,
        sizes_fit(*cfg),
    ensures
        state == LocalizedState::from_base(old(ctx)@.len() as int),
        old(ctx)@.len() + 3 <= usize::MAX + 1,
        final(ctx)@ == old(ctx)@ + localized_specs(*cfg, *bank),
        final(ctx).queue() == old(ctx).queue().push((state.p.first, word_bytes(p_map@))),
{
    let k: u32 = bank.params.kernels.len() as u32;
    let first = ParameterFlowPass::allocate_p(ctx, cfg.grid_height, cfg.grid_width, k);
    let second = ParameterFlowPass::allocate_p(ctx, cfg.grid_height, cfg.grid_width, k);
    ctx.write_buffer(first, words_to_bytes(p_map.as_slice()));
    let routing_words = kernel_routing(&bank.params);
    let routing = SpectralMultiplyPass::upload_kernel_routing(ctx, routing_words.as_slice());
    assert(ctx@ =~= old(ctx)@ + localized_specs(*cfg, *bank));
    LocalizedState {
        parameter_flow: ParameterFlowPass::new(),
        p: PingPong { first, second },
        routing,
    }
}

/// Every buffer and pass of a run, and where the run stands.
#[derive(Debug)]
pub struct GpuStepPipeline {
    pub passes: StepPasses,
    pub buffers: StepBuffers,
    /// Set where the run convolves by transform.
    pub convolve_fft_pass: Option<ConvolveFftPass>,
    /// Set once the kernel spectra are in place.
    pub kernel_fft: Option<KernelFftBuffers>,
    /// Staging buffers of the kernel spectra, where there are any to come.
    pub spectra_staging: Vec<Buffer>,
    /// The first buffer that is needed at startup only: from here on there are
    /// the buffers of the kernel transforms, which can be released once the
    /// spectra have been read back.
    pub keep: usize,
    /// Set where the run has a parameter map.
    pub localized: Option<LocalizedState>,
    pub height: u32,
    pub width: u32,
    pub channels: u32,
    /// The activation buffer whose turn it is.
    pub ping: usize,
    pub step_count: u64,
    pub convolve_mode: ConvolveMode,
    pub affinity_mode: AffinityMode,
}

/// The buffers of a pipeline, in order.
pub open spec fn pipeline_specs(
    cfg: FlowLeniaConfig,
    bank: KernelBank,
    initial_a: ActivationField,
    convolve_mode: ConvolveMode,
    affinity_mode: AffinityMode,
    twiddles: Seq<(F32Bits, F32Bits)>,
) -> Seq<BufferSpec> {
    step_buffer_specs(cfg, bank, initial_a) + (if affinity_mode == AffinityMode::Localized {
        localized_specs(cfg, bank)
    } else {
        seq![]
    }) + (if convolve_mode.resolved(cfg.grid_width) == ConvolveMode::Fft {
        convolve_fft_buffers(
            cfg.grid_width,
            bank.params.kernels@.len() as u32,
            cfg.channels,
            twiddles,
        ) + bank_fft_buffers(bank.images@, cfg.grid_width)
    } else {
        seq![]
    })
}

/// The first buffer after those of the steps and of the parameter map.
pub open spec fn fft_base(base: int, affinity_mode: AffinityMode) -> int {
    if affinity_mode == AffinityMode::Localized {
        base + 14
    } else {
        base + 11
    }
}

/// The first buffer of the kernel transforms.
pub open spec fn kernel_fft_base(base: int, affinity_mode: AffinityMode, channels: u32) -> int {
    if channels > 1 {
        fft_base(base, affinity_mode) + 9
    } else {
        fft_base(base, affinity_mode) + 8
    }
}

impl GpuStepPipeline {
    /// The turn matches the number of steps taken, the mode is resolved, and
    /// what the modes call for is there.
    pub open spec fn wf(self) -> bool {
        &&& self.ping == self.step_count % 2
        &&& self.convolve_mode != ConvolveMode::Auto
        &&& self.convolve_fft_pass is Some <==> self.convolve_mode == ConvolveMode::Fft
        &&& self.convolve_fft_pass is Some ==> self.convolve_fft_pass->0.wf()
            && self.convolve_fft_pass->0.n == self.width
        &&& self.localized is Some <==> self.affinity_mode == AffinityMode::Localized
        &&& self.buffers.kernels.max_side % 2 == 1
    }

    /// Steps can be recorded: the kernel spectra are in place where they are
    /// used.
    pub open spec fn ready(self) -> bool {
        self.convolve_mode == ConvolveMode::Fft ==> self.kernel_fft is Some
    }

    /// The pipeline as it is built, with buffers from `base` on.
    pub open spec fn is_built(
        self,
        base: int,
        cfg: FlowLeniaConfig,
        bank: KernelBank,
        convolve_mode: ConvolveMode,
        affinity_mode: AffinityMode,
    ) -> bool {
        &&& self.passes == StepPasses::of()
        &&& self.buffers == StepBuffers::from_base(bank, base)
        &&& self.localized == if affinity_mode == AffinityMode::Localized {
            Some(LocalizedState::from_base(base + 11))
        } else {
            None
        }
        &&& self.convolve_mode == convolve_mode.resolved(cfg.grid_width)
        &&& self.convolve_mode == ConvolveMode::Fft ==> {
            &&& self.convolve_fft_pass is Some
            &&& self.convolve_fft_pass->0.is_built(
                fft_base(base, affinity_mode),
                cfg.grid_width,
                cfg.channels,
                routing_of(bank.params),
            )
            &&& self.spectra_staging@.len() == bank.params.kernels@.len()
            &&& forall|i: int|
                0 <= i < self.spectra_staging@.len() ==> (#[trigger] self.spectra_staging@[i]).id
                    == kernel_fft_base(base, affinity_mode, cfg.channels) + 6 * i + 5
        }
        &&& self.convolve_mode == ConvolveMode::Direct ==> self.convolve_fft_pass is None
            && self.spectra_staging@.len() == 0
        &&& self.keep == if self.convolve_mode == ConvolveMode::Fft {
            kernel_fft_base(base, affinity_mode, cfg.channels)
        } else {
            fft_base(base, affinity_mode)
        }
        &&& self.kernel_fft is None
        &&& self.affinity_mode == affinity_mode
        &&& (self.height, self.width, self.channels) == (
            cfg.grid_height,
            cfg.grid_width,
            cfg.channels,
        )
        &&& self.ping == 0
        &&& self.step_count == 0
    }

    /// The current activation buffer.
    pub open spec fn current_a(self) -> Buffer {
        self.buffers.a.at(self.ping as int)
    }

    /// The host write that replaces the current activation.
    pub open spec fn activation_write(self, a: ActivationField) -> (Buffer, Seq<u8>) {
        (self.current_a(), word_bytes(channel_major(a)))
    }

    /// The other activation buffer.
    pub open spec fn other_a(self) -> Buffer {
        self.buffers.a.at(1 - self.ping)
    }

    /// The weights that the affinity reads.
    pub open spec fn weights(self) -> Buffer {
        match self.localized {
            Some(l) => l.p.at(self.ping as int),
            None => self.buffers.h_weights,
        }
    }

    /// The dispatch of the direct convolution.
    pub open spec fn convolve_command(self) -> Command {
        self.passes.convolve.command(
            self.buffers.convolve_bg(self.ping as int),
            self.height,
            self.width,
        )
    }

    /// The dispatch of the affinity.
    pub open spec fn affinity_command(self) -> Command {
        let bg = self.buffers.affinity_bg(self.weights());
        match self.affinity_mode {
            AffinityMode::Constant => self.passes.affinity.command_constant(
                bg,
                self.height,
                self.width,
            ),
            AffinityMode::Localized => self.passes.affinity.command_localized(
                bg,
                self.height,
                self.width,
            ),
        }
    }

    /// The dispatch of the affinity gradient.
    pub open spec fn gradient_u_command(self) -> Command {
        self.passes.gradient.command_u(self.buffers.gradient_u_bg(), self.height, self.width)
    }

    /// The dispatch of the mass gradient.
    pub open spec fn gradient_a_sum_command(self) -> Command {
        self.passes.gradient.command_a_sum(
            self.buffers.gradient_a_sum_bg(self.ping as int),
            self.height,
            self.width,
        )
    }

    /// The dispatch of the flow.
    pub open spec fn flow_command(self) -> Command {
        self.passes.flow.command(
            self.buffers.flow_bg(self.ping as int),
            self.height,
            self.width,
        )
    }

    /// The dispatch of the mass transport.
    pub open spec fn reintegrate_command(self) -> Command {
        self.passes.reintegrate.command(
            self.buffers.reintegrate_bg(self.ping as int),
            self.height,
            self.width,
        )
    }

    /// The transport of the parameter map, where there is one: from the current
    /// map into the other one.
    pub open spec fn parameter_flow_commands(self) -> Seq<Command> {
        match self.localized {
            Some(l) => seq![
                l.parameter_flow.command(
                    BindGroup::of5(
                        l.p.at(self.ping as int),
                        l.p.at(1 - self.ping),
                        self.buffers.flow,
                        l.routing,
                        self.buffers.globals,
                    ),
                    self.height,
                    self.width,
                ),
            ],
            None => seq![],
        }
    }

    /// What follows the convolution.
    pub open spec fn downstream(self) -> Seq<Command> {
        seq![
            self.affinity_command(),
            self.gradient_u_command(),
            self.gradient_a_sum_command(),
            self.flow_command(),
            self.reintegrate_command(),
        ] + self.parameter_flow_commands()
    }

    /// The convolution. `base` is the first of the parameter buffers that it
    /// uses where it goes by transform.
    pub open spec fn convolution(self, base: int) -> Seq<Command> {
        match self.convolve_mode {
            ConvolveMode::Fft => self.convolve_fft_pass->0.commands(
                base,
                self.current_a(),
                self.kernel_fft->0.buffer,
                self.buffers.pre_g,
            ),
            _ => seq![self.convolve_command()],
        }
    }

    /// The buffers that recording a step asks for.
    pub open spec fn step_specs(self) -> Seq<BufferSpec> {
        match self.convolve_mode {
            ConvolveMode::Fft => self.convolve_fft_pass->0.step_buffers(
                self.convolve_fft_pass->0.channels as int,
            ),
            _ => seq![],
        }
    }

    /// One step.
    pub open spec fn step_commands(self, base: int) -> Seq<Command> {
        self.convolution(base) + self.downstream()
    }

    /// The pipeline `i` swaps later.
    pub open spec fn at_step(self, i: int) -> GpuStepPipeline {
        GpuStepPipeline {
            ping: ((self.ping + i) % 2) as usize,
            step_count: (self.step_count + i) as u64,
            ..self
        }
    }
}

/// Whether every kernel reads and writes one of the first `channels` channels.
fn check_channels(kernels: &Vec<KernelEntry>, channels: u32) -> (exist: bool)
    ensures
        exist == channels_exist(kernels@, channels),
{
    for i in 0..kernels.len()
        invariant
            forall|j: int|
                0 <= j < i ==> (#[trigger] kernels@[j]).c0 < channels && kernels@[j].c1 < channels,
    {
        if kernels[i].c0 >= channels || kernels[i].c1 >= channels {
            assert(!(kernels@[i as int].c0 < channels && kernels@[i as int].c1 < channels));
            return false;
        }
    }
    true
}

/// Whether every image fits a grid of side `n`.
fn check_images_fit(images: &Vec<KernelImage>, n: u32) -> (fits: bool)
    ensures
        fits == images_fit(images@, n as int),
{
    for i in 0..images.len()
        invariant
            forall|j: int|
                0 <= j < i ==> (#[trigger] images@[j]).rows() <= n && images@[j].cols() <= n,
    {
        let (rows, cols) = images[i].dim();
        if rows as u64 > n as u64 || cols as u64 > n as u64 {
            assert(!(images@[i as int].rows() <= n && images@[i as int].cols() <= n));
            return false;
        }
    }
    true
}

/// Checks the arguments of a pipeline against each other: the side that the
/// bank is padded to, or the first check that fails.
pub fn check_pipeline(
    cfg: &FlowLeniaConfig,
    bank: &KernelBank,
    initial_a: &ActivationField,
    convolve_mode: ConvolveMode,
    affinity_mode: AffinityMode,
    initial_p_map: Option<&Vec<F32Bits>>,
) -> (result: Result<u32, PipelineError>)
    requires
        bank.fits(),
    ensures
        match pipeline_error(
            *cfg,
            *bank,
            *initial_a,
            convolve_mode,
            affinity_mode,
            map_len(initial_p_map),
        ) {
            Some(e) => result == Err::<u32, PipelineError>(e),
            None => result == Ok::<u32, PipelineError>(bank.side() as u32) && 0 <= bank.side()
                <= u32::MAX,
        },
{
    let fft: bool = match convolve_mode.resolve(cfg.grid_width) {
        ConvolveMode::Fft => true,
        _ => false,
    };
    if fft {
        if cfg.channels == 0 {
            return Err(PipelineError::NoChannels);
        }
        if !is_fft_pipeline_grid(cfg.grid_width) {
            return Err(PipelineError::UnsupportedGrid);
        }
        if cfg.grid_height != cfg.grid_width {
            return Err(PipelineError::NotSquare);
        }
    }
    let (h, w, c) = initial_a.dim();
    if h as u64 != cfg.grid_height as u64 || w as u64 != cfg.grid_width as u64 || c as u64
        != cfg.channels as u64 {
        return Err(PipelineError::ShapeMismatch);
    }
    let k: usize = bank.params.kernels.len();
    if k as u64 != cfg.num_kernels as u64 {
        return Err(PipelineError::KernelCountMismatch);
    }
    if !check_channels(&bank.params.kernels, cfg.channels) {
        return Err(PipelineError::KernelChannelMismatch);
    }
    let max_side: u32 = match check_bank(bank) {
        Ok(side) => side,
        Err(e) => {
            return Err(PipelineError::Kernels(e));
        },
    };
    if k > MAX_KERNELS {
        return Err(PipelineError::TooManyKernels);
    }
    match affinity_mode {
        AffinityMode::Constant => {
            if initial_p_map.is_some() {
                return Err(PipelineError::UnexpectedParameterMap);
            }
        },
        AffinityMode::Localized => match initial_p_map {
            None => {
                return Err(PipelineError::MissingParameterMap);
            },
            Some(p_map) => {
                proof {
                    let (gh, gw) = (cfg.grid_height as int, cfg.grid_width as int);
                    crate::passes::tile::lemma_product3(gh, gw, k as int);
                    assert(gh * gw * k <= u64::MAX * 45) by (nonlinear_arith)
                        requires
                            0 <= gh * gw <= u64::MAX,
                            0 <= k <= 45,
                    ;
                }
                let expected: u128 = cfg.grid_height as u128 * cfg.grid_width as u128 * k as u128;
                if p_map.len() as u128 != expected {
                    return Err(PipelineError::ParameterMapLength);
                }
            },
        },
    }
    if fft && !check_images_fit(&bank.images, cfg.grid_width) {
        return Err(PipelineError::KernelTooLarge);
    }
    Ok(max_side)
}

impl GpuStepPipeline {
    /// Builds a pipeline that convolves by transform where the grid has one and
    /// takes constant weights.
    pub fn new(
        ctx: &mut GpuContext,
        encoder: &mut CommandEncoder,
        cfg: &FlowLeniaConfig,
        bank: &KernelBank,
        initial_a: &ActivationField,
        twiddles: &Vec<(F32Bits, F32Bits)>,
    ) -> (result: Result<GpuStepPipeline, PipelineError>)
        requires
            build_requires(*cfg, *bank, ConvolveMode::Auto, twiddles@),
        ensures
            build_ensures(
                *old(ctx),
                *final(ctx),
                *old(encoder),
                *final(encoder),
                *cfg,
                *bank,
                *initial_a,
                ConvolveMode::Auto,
                AffinityMode::Constant,
                None,
                twiddles@,
                result,
            ),
    {
        Self::new_with_modes(
            ctx,
            encoder,
            cfg,
            bank,
            initial_a,
            ConvolveMode::Auto,
            AffinityMode::Constant,
            None,
            twiddles,
        )
    }

    /// Builds a pipeline that convolves as told and takes constant weights.
    pub fn new_with_mode(
        ctx: &mut GpuContext,
        encoder: &mut CommandEncoder,
        cfg: &FlowLeniaConfig,
        bank: &KernelBank,
        initial_a: &ActivationField,
        convolve_mode: ConvolveMode,
        twiddles: &Vec<(F32Bits, F32Bits)>,
    ) -> (result: Result<GpuStepPipeline, PipelineError>)
        requires
            build_requires(*cfg, *bank, convolve_mode, twiddles@),
        ensures
            build_ensures(
                *old(ctx),
                *final(ctx),
                *old(encoder),
                *final(encoder),
                *cfg,
                *bank,
                *initial_a,
                convolve_mode,
                AffinityMode::Constant,
                None,
                twiddles@,
                result,
            ),
    {
        Self::new_with_modes(
            ctx,
            encoder,
            cfg,
            bank,
            initial_a,
            convolve_mode,
            AffinityMode::Constant,
            None,
            twiddles,
        )
    }

    /// Checks the arguments against each other, asks for every buffer, and
    /// seeds the first activation buffer with `initial_a`.
    ///
    /// With [`AffinityMode::Localized`] the map `initial_p_map` must be given,
    /// cell-major with the weights of every kernel; with
    /// [`AffinityMode::Constant`] it must not. Where the run convolves by
    /// transform, the transforms of the kernels are recorded in `encoder`;
    /// [`Self::install_kernel_ffts`] takes their results.
    #[verifier::rlimit(60)]
    #[verifier::spinoff_prover]
    pub fn new_with_modes(
        ctx: &mut GpuContext,
        encoder: &mut CommandEncoder,
        cfg: &FlowLeniaConfig,
        bank: &KernelBank,
        initial_a: &ActivationField,
        convolve_mode: ConvolveMode,
        affinity_mode: AffinityMode,
        initial_p_map: Option<&Vec<F32Bits>>,
        twiddles: &Vec<(F32Bits, F32Bits)>,
    ) -> (result: Result<GpuStepPipeline, PipelineError>)
        requires
            build_requires(*cfg, *bank, convolve_mode, twiddles@),
        ensures
            build_ensures(
                *old(ctx),
                *final(ctx),
                *old(encoder),
                *final(encoder),
                *cfg,
                *bank,
                *initial_a,
                convolve_mode,
                affinity_mode,
                initial_p_map,
                twiddles@,
                result,
            ),
    {
        let max_side: u32 = match check_pipeline(
            cfg,
            bank,
            initial_a,
            convolve_mode,
            affinity_mode,
            initial_p_map,
        ) {
            Ok(side) => side,
            Err(e) => {
                return Err(e);
            },
        };
        let ghost base = old(ctx)@.len() as int;
        let mode = convolve_mode.resolve(cfg.grid_width);
        let passes = StepPasses::new();
        let buffers = build_step_buffers(ctx, cfg, bank, max_side, initial_a);
        let ghost after_steps = ctx@;
        let localized = match initial_p_map {
            Some(p_map) => Some(build_localized(ctx, cfg, bank, p_map)),
            None => None,
        };
        let ghost after_localized = ctx@;
        proof {
            assert(after_steps.len() == base + 11);
            assert(after_localized.len() == fft_base(base, affinity_mode));
        }
        let mut keep: usize = ctx.buffers.len();
        let mut spectra_staging: Vec<Buffer> = Vec::new();
        let mut convolve_fft_pass: Option<ConvolveFftPass> = None;
        match mode {
            ConvolveMode::Fft => {
                let n: u32 = cfg.grid_width;
                proof {
                    let k = bank.params.kernels@.len() as int;
                    assert(0 <= n * n <= 512 * 512) by (nonlinear_arith)
                        requires
                            0 <= n <= 512,
                    ;
                    assert(0 <= n * n * k <= 512 * 512 * 45) by (nonlinear_arith)
                        requires
                            0 <= n * n <= 512 * 512,
                            0 <= k <= 45,
                    ;
                }
                let pass = ConvolveFftPass::new(ctx, n, cfg.channels, &bank.params, twiddles);
                keep = ctx.buffers.len();
                spectra_staging =
                precompute_kernel_ffts(ctx, encoder, &bank.images, n, &pass.fft2d, pass.twiddles);
                convolve_fft_pass = Some(pass);
            },
            _ => {},
        }
        proof {
            assert(ctx@ =~= old(ctx)@ + pipeline_specs(
                *cfg,
                *bank,
                *initial_a,
                convolve_mode,
                affinity_mode,
                twiddles@,
            ));
            assert(encoder@ =~= old(encoder)@ + startup_commands(
                base,
                *cfg,
                *bank,
                convolve_mode,
                affinity_mode,
            ));
        }
        let pipeline = GpuStepPipeline {
            passes,
            buffers,
            convolve_fft_pass,
            kernel_fft: None,
            spectra_staging,
            keep,
            localized,
            height: cfg.grid_height,
            width: cfg.grid_width,
            channels: cfg.channels,
            ping: 0,
            step_count: 0,
            convolve_mode: mode,
            affinity_mode,
        };
        proof {
            assert(ctx.queue() =~= old(ctx).queue() + startup_writes(base, initial_p_map));
            assert(pipeline.wf());
            assert(pipeline.is_built(base, *cfg, *bank, convolve_mode, affinity_mode));
        }
        Ok(pipeline)
    }
}

/// What building a pipeline asks of its arguments: sizes that machine words can
/// hold, and, where the run convolves by transform, one twiddle factor per row
/// of the grid.
pub open spec fn build_requires(
    cfg: FlowLeniaConfig,
    bank: KernelBank,
    convolve_mode: ConvolveMode,
    twiddles: Seq<(F32Bits, F32Bits)>,
) -> bool {
    &&& bank.fits()
    &&& sizes_fit(cfg)
    &&& convolve_mode.resolved(cfg.grid_width) == ConvolveMode::Fft ==> twiddles.len()
        == cfg.grid_width
}

/// Whether the sizes of the buffers of a run can be counted.
fn check_sizes(cfg: &FlowLeniaConfig) -> (fit: bool)
    ensures
        fit == sizes_fit(*cfg),
{
    let (h, w) = (cfg.grid_height as u128, cfg.grid_width as u128);
    let (c, k) = (cfg.channels as u128, cfg.num_kernels as u128);
    let limit: u128 = u64::MAX as u128;
    proof {
        crate::passes::tile::lemma_product3(h as int, w as int, c as int);
        crate::passes::tile::lemma_product3(h as int, w as int, k as int);
        assert(h * w * c <= u64::MAX * u32::MAX && h * w * k <= u64::MAX * u32::MAX)
            by (nonlinear_arith)
            requires
                0 <= h * w <= u64::MAX,
                0 <= c <= u32::MAX,
                0 <= k <= u32::MAX,
        ;
    }
    let cells: u128 = h * w;
    cells * c * 8 <= limit && cells * k * 4 <= limit && cells * 8 <= limit
}

/// Whether a pipeline can be asked for with these arguments. Whether it is then
/// built or refused is another matter.
pub fn can_build(
    cfg: &FlowLeniaConfig,
    bank: &KernelBank,
    convolve_mode: ConvolveMode,
    twiddles: &Vec<(F32Bits, F32Bits)>,
) -> (can: bool)
    ensures
        can == build_requires(*cfg, *bank, convolve_mode, twiddles@),
{
    if !bank.check_fits() || !check_sizes(cfg) {
        return false;
    }
    match convolve_mode.resolve(cfg.grid_width) {
        ConvolveMode::Fft => {
            if twiddles.len() as u64 != cfg.grid_width as u64 {
                return false;
            }
        },
        _ => {},
    }
    true
}

/// The commands that building a pipeline records: the transforms of the
/// kernels, where the run convolves by transform.
pub open spec fn startup_commands(
    base: int,
    cfg: FlowLeniaConfig,
    bank: KernelBank,
    convolve_mode: ConvolveMode,
    affinity_mode: AffinityMode,
) -> Seq<Command> {
    if convolve_mode.resolved(cfg.grid_width) == ConvolveMode::Fft {
        bank_fft_commands(
            crate::passes::fft::Fft2dPass::of(cfg.grid_width),
            kernel_fft_base(base, affinity_mode, cfg.channels),
            Buffer { id: fft_base(base, affinity_mode) as usize },
            bank.params.kernels@.len(),
        )
    } else {
        seq![]
    }
}

/// The host writes that building a pipeline queues: the parameter map, where
/// there is one.
pub open spec fn startup_writes(base: int, p_map: Option<&Vec<F32Bits>>) -> Seq<(Buffer, Seq<u8>)> {
    match p_map {
        Some(m) => seq![(Buffer { id: (base + 11) as usize }, word_bytes(m@))],
        None => seq![],
    }
}

/// What building a pipeline gives: an error and nothing else, or the pipeline,
/// its buffers, its startup commands and its startup writes.
pub open spec fn build_ensures(
    old_ctx: GpuContext,
    new_ctx: GpuContext,
    old_encoder: CommandEncoder,
    new_encoder: CommandEncoder,
    cfg: FlowLeniaConfig,
    bank: KernelBank,
    initial_a: ActivationField,
    convolve_mode: ConvolveMode,
    affinity_mode: AffinityMode,
    p_map: Option<&Vec<F32Bits>>,
    twiddles: Seq<(F32Bits, F32Bits)>,
    result: Result<GpuStepPipeline, PipelineError>,
) -> bool {
    let base = old_ctx@.len() as int;
    match pipeline_error(cfg, bank, initial_a, convolve_mode, affinity_mode, map_len(p_map)) {
        Some(e) => {
            &&& result == Err::<GpuStepPipeline, PipelineError>(e)
            &&& new_ctx == old_ctx
            &&& new_encoder == old_encoder
        },
        None => {
            &&& result is Ok
            &&& result->Ok_0.wf()
            &&& result->Ok_0.is_built(base, cfg, bank, convolve_mode, affinity_mode)
            &&& new_ctx@ == old_ctx@ + pipeline_specs(
                cfg,
                bank,
                initial_a,
                convolve_mode,
                affinity_mode,
                twiddles,
            )
            &&& new_ctx.queue() == old_ctx.queue() + startup_writes(base, p_map)
            &&& new_encoder@ == old_encoder@ + startup_commands(
                base,
                cfg,
                bank,
                convolve_mode,
                affinity_mode,
            )
        },
    }
}

/// `n` copies of a list of buffers, one after the other.
pub open spec fn repeated(specs: Seq<BufferSpec>, n: nat) -> Seq<BufferSpec>
    decreases n,
{
    if n == 0 {
        seq![]
    } else {
        repeated(specs, (n - 1) as nat) + specs
    }
}

proof fn lemma_repeated_len(specs: Seq<BufferSpec>, n: nat)
    ensures
        repeated(specs, n).len() == n * specs.len(),
    decreases n,
{
    if n > 0 {
        lemma_repeated_len(specs, (n - 1) as nat);
        assert((n - 1) * specs.len() + specs.len() == n * specs.len()) by (nonlinear_arith);
    } else {
        assert(0 * specs.len() == 0) by (nonlinear_arith);
    }
}

/// What a profiled run submits: some steps to warm up, then for every timed
/// step one submission per pass, in the order of the labels.
#[derive(Debug)]
pub struct ProfilePlan {
    pub labels: Vec<&'static str>,
    pub warmup: Vec<CommandEncoder>,
    pub timed: Vec<Vec<CommandEncoder>>,
}

/// Steps that a profiled run takes before it measures.
pub const PROFILE_WARMUP: u32 = 5;

/// The label of a pass.
pub open spec fn pass_label(index: int) -> Seq<char> {
    if index == 0 {
        "convolve"@
    } else if index == 1 {
        "affinity"@
    } else if index == 2 {
        "gradient_u"@
    } else if index == 3 {
        "gradient_a_sum"@
    } else if index == 4 {
        "flow"@
    } else if index == 5 {
        "reintegrate"@
    } else {
        "parameter_flow"@
    }
}

impl GpuStepPipeline {
    /// The number of passes of a step.
    pub open spec fn pass_count(self) -> int {
        if self.localized is Some {
            7
        } else {
            6
        }
    }

    /// The commands of one pass of a step.
    pub open spec fn pass_commands(self, base: int, index: int) -> Seq<Command> {
        if index == 0 {
            self.convolution(base)
        } else if index == 1 {
            seq![self.affinity_command()]
        } else if index == 2 {
            seq![self.gradient_u_command()]
        } else if index == 3 {
            seq![self.gradient_a_sum_command()]
        } else if index == 4 {
            seq![self.flow_command()]
        } else if index == 5 {
            seq![self.reintegrate_command()]
        } else {
            self.parameter_flow_commands()
        }
    }

    /// Puts the kernel spectra in place: one spectrum per kernel, in the order
    /// of the staging buffers.
    pub fn install_kernel_ffts(
        &mut self,
        ctx: &mut GpuContext,
        spectra: &Vec<Vec<(F32Bits, F32Bits)>>,
    )
        requires
            old(self).wf(),
            old(self).convolve_mode == ConvolveMode::Fft,
            spectra@.len() == old(self).convolve_fft_pass->0.k,
            forall|i: int|
                0 <= i < spectra@.len() ==> (#[trigger] spectra@[i])@.len() == old(self).width
                    * old(self).width,
        ensures
            final(self).wf(),
            final(self).ready(),
            old(ctx)@.len() <= usize::MAX,
            *final(self) == (GpuStepPipeline {
                kernel_fft: Some(
                    KernelFftBuffers {
                        n: old(self).width,
                        k: spectra@.len() as u32,
                        buffer: Buffer { id: old(ctx)@.len() as usize },
                    },
                ),
                ..*old(self)
            }),
            final(ctx)@ == old(ctx)@.push(kernel_fft_buffer(spectra@, old(self).width)),
            final(ctx).queue() == old(ctx).queue(),
    {
        proof {
            let n = self.width as int;
            assert(n * n <= 512 * 512) by (nonlinear_arith)
                requires
                    0 <= n <= 512,
            ;
        }
        let buffers = pack_kernel_ffts(ctx, self.width, spectra);
        self.kernel_fft = Some(buffers);
    }

    /// Appends one step that convolves directly. The buffers do not take turns;
    /// that is [`Self::swap_buffers`].
    pub fn record_step(&self, encoder: &mut CommandEncoder)
        requires
            self.wf(),
            self.convolve_mode == ConvolveMode::Direct,
        ensures
            final(encoder)@ == old(encoder)@ + self.step_commands(0),
    {
        self.record_direct_convolution(encoder);
        self.record_downstream(encoder);
        assert(encoder@ =~= old(encoder)@ + self.step_commands(0));
    }

    /// Appends the direct convolution.
    fn record_direct_convolution(&self, encoder: &mut CommandEncoder)
        ensures
            final(encoder)@ == old(encoder)@.push(self.convolve_command()),
    {
        let b = &self.buffers;
        let bg = self.passes.convolve.make_bind_group(
            b.a.get(self.ping),
            &b.kernels,
            b.pre_g,
            b.globals,
        );
        self.passes.convolve.record(encoder, &bg, self.height, self.width);
    }

    /// Appends the convolution by transform.
    fn record_fft_convolution(&self, ctx: &mut GpuContext, encoder: &mut CommandEncoder)
        requires
            self.wf(),
            self.ready(),
            self.convolve_mode == ConvolveMode::Fft,
        ensures
            final(ctx)@ == old(ctx)@ + self.step_specs(),
            final(ctx).queue() == old(ctx).queue(),
            final(encoder)@ == old(encoder)@ + self.convolution(old(ctx)@.len() as int),
    {
        if let Some(fft) = &self.convolve_fft_pass {
            if let Some(kfft) = &self.kernel_fft {
                fft.record(
                    ctx,
                    encoder,
                    self.buffers.a.get(self.ping),
                    kfft.buffer,
                    self.buffers.pre_g,
                );
            }
        }
    }

    /// Appends one step that convolves by transform.
    pub fn record_step_fft(&self, ctx: &mut GpuContext, encoder: &mut CommandEncoder)
        requires
            self.wf(),
            self.ready(),
            self.convolve_mode == ConvolveMode::Fft,
        ensures
            final(ctx)@ == old(ctx)@ + self.step_specs(),
            final(ctx).queue() == old(ctx).queue(),
            final(encoder)@ == old(encoder)@ + self.step_commands(old(ctx)@.len() as int),
    {
        self.record_fft_convolution(ctx, encoder);
        self.record_downstream(encoder);
        assert(encoder@ =~= old(encoder)@ + self.step_commands(old(ctx)@.len() as int));
    }

    /// Appends what follows the convolution: affinity, gradients, flow, mass
    /// transport, and the transport of the parameter map where there is one.
    fn record_downstream(&self, encoder: &mut CommandEncoder)
        requires
            self.wf(),
        ensures
            final(encoder)@ == old(encoder)@ + self.downstream(),
    {
        self.record_affinity(encoder);
        self.record_gradient_u(encoder);
        self.record_gradient_a_sum(encoder);
        self.record_flow(encoder);
        self.record_reintegrate(encoder);
        self.record_parameter_flow_if_localized(encoder);
        assert(encoder@ =~= old(encoder)@ + self.downstream());
    }

    /// Appends the affinity, with constant weights or with the current map.
    fn record_affinity(&self, encoder: &mut CommandEncoder)
        requires
            self.wf(),
        ensures
            final(encoder)@ == old(encoder)@.push(self.affinity_command()),
    {
        let b = &self.buffers;
        match &self.localized {
            Some(l) => {
                let bg = self.passes.affinity.make_bind_group(
                    b.pre_g,
                    &b.kernels,
                    l.p.get(self.ping),
                    b.u,
                    b.globals,
                );
                self.passes.affinity.record_localized(encoder, &bg, self.height, self.width);
            },
            None => {
                let bg = self.passes.affinity.make_bind_group(
                    b.pre_g,
                    &b.kernels,
                    b.h_weights,
                    b.u,
                    b.globals,
                );
                self.passes.affinity.record_constant(encoder, &bg, self.height, self.width);
            },
        }
    }

    /// Appends the affinity gradient.
    fn record_gradient_u(&self, encoder: &mut CommandEncoder)
        ensures
            final(encoder)@ == old(encoder)@.push(self.gradient_u_command()),
    {
        let b = &self.buffers;
        let bg = self.passes.gradient.make_bind_group_u(b.u, b.grad_u, b.globals);
        self.passes.gradient.record_u(encoder, &bg, self.height, self.width);
    }

    /// Appends the mass gradient.
    fn record_gradient_a_sum(&self, encoder: &mut CommandEncoder)
        ensures
            final(encoder)@ == old(encoder)@.push(self.gradient_a_sum_command()),
    {
        let b = &self.buffers;
        let bg = self.passes.gradient.make_bind_group_a_sum(
            b.a.get(self.ping),
            b.grad_a_sum,
            b.globals,
        );
        self.passes.gradient.record_a_sum(encoder, &bg, self.height, self.width);
    }

    /// Appends the flow.
    fn record_flow(&self, encoder: &mut CommandEncoder)
        ensures
            final(encoder)@ == old(encoder)@.push(self.flow_command()),
    {
        let b = &self.buffers;
        let bg = self.passes.flow.make_bind_group(
            b.a.get(self.ping),
            b.grad_u,
            b.grad_a_sum,
            b.flow,
            b.globals,
        );
        self.passes.flow.record(encoder, &bg, self.height, self.width);
    }

    /// Appends the mass transport.
    fn record_reintegrate(&self, encoder: &mut CommandEncoder)
        requires
            self.wf(),
        ensures
            final(encoder)@ == old(encoder)@.push(self.reintegrate_command()),
    {
        let b = &self.buffers;
        let bg = self.passes.reintegrate.make_bind_group(
            b.a.get(self.ping),
            b.flow,
            b.a.get(1 - self.ping),
            b.globals,
        );
        self.passes.reintegrate.record(encoder, &bg, self.height, self.width);
    }

    /// Appends the transport of the parameter map, where there is one. It
    /// follows the mass transport.
    fn record_parameter_flow_if_localized(&self, encoder: &mut CommandEncoder)
        requires
            self.wf(),
        ensures
            final(encoder)@ == old(encoder)@ + self.parameter_flow_commands(),
    {
        match &self.localized {
            Some(l) => {
                let bg = l.parameter_flow.make_bind_group(
                    l.p.get(self.ping),
                    l.p.get(1 - self.ping),
                    self.buffers.flow,
                    l.routing,
                    self.buffers.globals,
                );
                l.parameter_flow.record(encoder, &bg, self.height, self.width);
            },
            None => {},
        }
        assert(encoder@ =~= old(encoder)@ + self.parameter_flow_commands());
    }

    /// How the run convolves; never [`ConvolveMode::Auto`].
    pub fn convolve_mode(&self) -> (mode: ConvolveMode)
        ensures
            mode == self.convolve_mode,
            self.wf() ==> mode != ConvolveMode::Auto,
    {
        self.convolve_mode
    }

    /// Where the affinity takes its weights from.
    pub fn affinity_mode(&self) -> (mode: AffinityMode)
        ensures
            mode == self.affinity_mode,
    {
        self.affinity_mode
    }

    /// The current parameter map; `None` where the run has none.
    pub fn current_parameter_map_buffer(&self) -> (buffer: Option<Buffer>)
        ensures
            buffer == match self.localized {
                Some(l) => Some(l.p.at(self.ping as int)),
                None => None,
            },
    {
        match &self.localized {
            Some(l) => Some(l.p.get(self.ping)),
            None => None,
        }
    }

    /// Makes the buffers take turns. Called once a step has been submitted.
    pub fn swap_buffers(&mut self)
        requires
            old(self).wf(),
            old(self).step_count < u64::MAX,
        ensures
            final(self).wf(),
            *final(self) == old(self).at_step(1),
            final(self).ping == 1 - old(self).ping,
    {
        self.ping = 1 - self.ping;
        self.step_count = self.step_count + 1;
        assert(*self == old(self).at_step(1));
    }

    /// One step: its commands, and the buffers take turns.
    pub fn step(&mut self, ctx: &mut GpuContext) -> (encoder: CommandEncoder)
        requires
            old(self).wf(),
            old(self).ready(),
            old(self).step_count < u64::MAX,
        ensures
            final(self).wf(),
            final(self).ready(),
            *final(self) == old(self).at_step(1),
            final(self).ping == 1 - old(self).ping,
            final(ctx)@ == old(ctx)@ + old(self).step_specs(),
            final(ctx).queue() == old(ctx).queue(),
            encoder@ == old(self).step_commands(old(ctx)@.len() as int),
    {
        let mut encoder = CommandEncoder::new();
        match self.convolve_mode {
            ConvolveMode::Fft => self.record_step_fft(ctx, &mut encoder),
            _ => self.record_step(&mut encoder),
        }
        assert(encoder@ =~= old(self).step_commands(old(ctx)@.len() as int));
        assert(ctx@ =~= old(ctx)@ + old(self).step_specs());
        self.swap_buffers();
        encoder
    }

    /// `n` steps in a row, one submission each.
    pub fn run_steps(&mut self, ctx: &mut GpuContext, n: u32) -> (encoders: Vec<CommandEncoder>)
        requires
            old(self).wf(),
            old(self).ready(),
            old(self).step_count + n <= u64::MAX,
        ensures
            final(self).wf(),
            final(self).ready(),
            *final(self) == old(self).at_step(n as int),
            final(ctx)@ == old(ctx)@ + repeated(old(self).step_specs(), n as nat),
            final(ctx).queue() == old(ctx).queue(),
            encoders@.len() == n,
            forall|i: int|
                0 <= i < n ==> (#[trigger] encoders@[i])@ == old(self).at_step(i).step_commands(
                    old(ctx)@.len() + i * old(self).step_specs().len(),
                ),
    {
        let mut encoders: Vec<CommandEncoder> = Vec::new();
        let ghost start = *self;
        let ghost base = ctx@.len() as int;
        let ghost specs = self.step_specs();
        proof {
            assert(*self == start.at_step(0));
            assert(ctx@ =~= old(ctx)@ + repeated(specs, 0));
        }
        for i in 0..n
            invariant
                start == *old(self),
                base == old(ctx)@.len(),
                specs == start.step_specs(),
                start.wf(),
                self.wf(),
                self.ready(),
                *self == start.at_step(i as int),
                start.step_count + n <= u64::MAX,
                ctx@ == old(ctx)@ + repeated(specs, i as nat),
                ctx.queue() == old(ctx).queue(),
                encoders@.len() == i,
                forall|j: int|
                    0 <= j < i ==> (#[trigger] encoders@[j])@ == start.at_step(j).step_commands(
                        base + j * specs.len(),
                    ),
        {
            proof {
                lemma_repeated_len(specs, i as nat);
                assert(start.at_step(i as int).at_step(1) == start.at_step(i + 1));
                assert(self.step_specs() == specs);
            }
            let encoder = self.step(ctx);
            encoders.push(encoder);
            proof {
                assert(ctx@ =~= old(ctx)@ + repeated(specs, (i + 1) as nat));
            }
        }
        encoders
    }
}

impl GpuStepPipeline {
    /// The labels of the passes of a step.
    fn pass_labels(&self) -> (labels: Vec<&'static str>)
        ensures
            labels@.len() == self.pass_count(),
            forall|i: int| 0 <= i < labels@.len() ==> (#[trigger] labels@[i])@ == pass_label(i),
    {
        let mut labels: Vec<&'static str> = Vec::new();
        labels.push("convolve");
        labels.push("affinity");
        labels.push("gradient_u");
        labels.push("gradient_a_sum");
        labels.push("flow");
        labels.push("reintegrate");
        if self.localized.is_some() {
            labels.push("parameter_flow");
        }
        labels
    }

    /// One step that convolves by transform, one submission per pass.
    fn record_passes(&self, ctx: &mut GpuContext) -> (encoders: Vec<CommandEncoder>)
        requires
            self.wf(),
            self.ready(),
            self.convolve_mode == ConvolveMode::Fft,
        ensures
            final(ctx)@ == old(ctx)@ + self.step_specs(),
            final(ctx).queue() == old(ctx).queue(),
            encoders@.len() == self.pass_count(),
            forall|i: int|
                0 <= i < encoders@.len() ==> (#[trigger] encoders@[i])@ == self.pass_commands(
                    old(ctx)@.len() as int,
                    i,
                ),
    {
        let ghost base = ctx@.len() as int;
        let mut e0 = CommandEncoder::new();
        self.record_fft_convolution(ctx, &mut e0);
        let mut e1 = CommandEncoder::new();
        self.record_affinity(&mut e1);
        let mut e2 = CommandEncoder::new();
        self.record_gradient_u(&mut e2);
        let mut e3 = CommandEncoder::new();
        self.record_gradient_a_sum(&mut e3);
        let mut e4 = CommandEncoder::new();
        self.record_flow(&mut e4);
        let mut e5 = CommandEncoder::new();
        self.record_reintegrate(&mut e5);
        let mut e6 = CommandEncoder::new();
        self.record_parameter_flow_if_localized(&mut e6);
        proof {
            assert(e0@ =~= self.pass_commands(base, 0));
            assert(e1@ =~= self.pass_commands(base, 1));
            assert(e2@ =~= self.pass_commands(base, 2));
            assert(e3@ =~= self.pass_commands(base, 3));
            assert(e4@ =~= self.pass_commands(base, 4));
            assert(e5@ =~= self.pass_commands(base, 5));
            assert(e6@ =~= self.pass_commands(base, 6));
        }
        let mut encoders: Vec<CommandEncoder> = Vec::new();
        encoders.push(e0);
        encoders.push(e1);
        encoders.push(e2);
        encoders.push(e3);
        encoders.push(e4);
        encoders.push(e5);
        if self.localized.is_some() {
            encoders.push(e6);
        }
        encoders
    }

    /// Plans a profiled run: [`PROFILE_WARMUP`] steps, then `iters` steps with
    /// every pass submitted on its own.
    pub fn profile_passes_fft(&mut self, ctx: &mut GpuContext, iters: u32) -> (plan: ProfilePlan)
        requires
            old(self).wf(),
            old(self).ready(),
            old(self).convolve_mode == ConvolveMode::Fft,
            old(self).step_count + PROFILE_WARMUP + iters <= u64::MAX,
        ensures
            final(self).wf(),
            final(self).ready(),
            *final(self) == old(self).at_step(5 + iters),
            final(ctx)@ == old(ctx)@ + repeated(old(self).step_specs(), (5 + iters) as nat),
            final(ctx).queue() == old(ctx).queue(),
            plan.labels@.len() == old(self).pass_count(),
            forall|i: int|
                0 <= i < plan.labels@.len() ==> (#[trigger] plan.labels@[i])@ == pass_label(i),
            plan.warmup@.len() == 5,
            forall|i: int|
                0 <= i < 5 ==> (#[trigger] plan.warmup@[i])@ == old(self).at_step(i).step_commands(
                    old(ctx)@.len() + i * old(self).step_specs().len(),
                ),
            plan.timed@.len() == iters,
            forall|t: int|
                0 <= t < iters ==> (#[trigger] plan.timed@[t])@.len() == old(self).pass_count(),
            forall|t: int, i: int|
                0 <= t < iters && 0 <= i < old(self).pass_count() ==> (
                #[trigger] plan.timed@[t]@[i])@ == old(self).at_step(5 + t).pass_commands(
                    old(ctx)@.len() + (5 + t) * old(self).step_specs().len(),
                    i,
                ),
    {
        let labels = self.pass_labels();
        let ghost start = *self;
        let ghost base = ctx@.len() as int;
        let ghost specs = self.step_specs();
        let warmup = self.run_steps(ctx, PROFILE_WARMUP);
        let mut timed: Vec<Vec<CommandEncoder>> = Vec::new();
        for t in 0..iters
            invariant
                start == *old(self),
                base == old(ctx)@.len(),
                specs == start.step_specs(),
                start.wf(),
                start.ready(),
                start.convolve_mode == ConvolveMode::Fft,
                start.step_count + 5 + iters <= u64::MAX,
                self.wf(),
                self.ready(),
                *self == start.at_step(5 + t),
                ctx@ == old(ctx)@ + repeated(specs, (5 + t) as nat),
                ctx.queue() == old(ctx).queue(),
                timed@.len() == t,
                forall|u: int|
                    0 <= u < t ==> (#[trigger] timed@[u])@.len() == start.pass_count(),
                forall|u: int, i: int|
                    0 <= u < t && 0 <= i < start.pass_count() ==> (
                    #[trigger] timed@[u]@[i])@ == start.at_step(5 + u).pass_commands(
                        base + (5 + u) * specs.len(),
                        i,
                    ),
        {
            proof {
                lemma_repeated_len(specs, (5 + t) as nat);
                assert(start.at_step(5 + t).at_step(1) == start.at_step(5 + t + 1));
                assert(self.step_specs() == specs);
            }
            let encoders = self.record_passes(ctx);
            timed.push(encoders);
            self.swap_buffers();
            proof {
                assert(ctx@ =~= old(ctx)@ + repeated(specs, (5 + t + 1) as nat));
            }
        }
        ProfilePlan { labels, warmup, timed }
    }

    /// Number of steps taken.
    pub fn step_count(&self) -> (count: u64)
        ensures
            count == self.step_count,
    {
        self.step_count
    }

    /// Queues a new parameter block. The grid and the kernel bank stay those of
    /// the pipeline, whatever `cfg` says of them.
    pub fn update_globals(&self, ctx: &mut GpuContext, cfg: &FlowLeniaConfig)
        requires
            self.wf(),
        ensures
            final(ctx)@ == old(ctx)@,
            final(ctx).queue() == old(ctx).queue().push(
                (
                    self.buffers.globals,
                    word_bytes(
                        GpuGlobals::for_config(
                            self.height,
                            self.width,
                            self.channels,
                            self.buffers.kernels.count,
                            self.buffers.kernels.max_side,
                            *cfg,
                        ).words(),
                    ),
                ),
            ),
    {
        let globals = GpuGlobals::from_config(
            self.height,
            self.width,
            self.channels,
            self.buffers.kernels.count,
            self.buffers.kernels.max_side,
            cfg,
        );
        ctx.write_buffer(self.buffers.globals, globals.to_bytes());
    }

    /// The activation buffer that the next step reads.
    pub fn current_activation_buffer(&self) -> (buffer: Buffer)
        ensures
            buffer == self.current_a(),
    {
        self.buffers.a.get(self.ping)
    }

    /// One of the two activation buffers.
    pub fn a_buffer(&self, index: usize) -> (buffer: Buffer)
        requires
            index < 2,
        ensures
            buffer == self.buffers.a.at(index as int),
    {
        self.buffers.a.get(index)
    }

    /// The index of the current activation buffer.
    pub fn ping_index(&self) -> (ping: usize)
        ensures
            ping == self.ping,
            self.wf() ==> ping < 2 && self.buffers.a.at(ping as int) == self.current_a(),
    {
        self.ping
    }

    /// Records the readback of the current activation;
    /// [`crate::activation_buffer::readback_activation`] reads the returned
    /// staging buffer.
    pub fn readback_activation(&self, ctx: &mut GpuContext, encoder: &mut CommandEncoder) -> (staging:
        Buffer)
        requires
            4 * (self.height * self.width * self.channels) <= usize::MAX,
        ensures
            staging.id == old(ctx)@.len(),
            final(ctx)@ == old(ctx)@.push(
                zeroed(
                    4 * (self.height * self.width * self.channels),
                    BufferUsages::of_readback(),
                ),
            ),
            final(ctx).queue() == old(ctx).queue(),
            final(encoder)@ == old(encoder)@.push(
                whole_copy(
                    self.current_a(),
                    staging,
                    4 * (self.height * self.width * self.channels),
                ),
            ),
            final(encoder)@ == old(encoder)@.push(
                (Command::Copy {
                    src: self.current_a(),
                    src_offset: 0,
                    dst: staging,
                    dst_offset: 0,
                    size: (4 * (self.height * self.width * self.channels)) as u64,
                }),
            ),
    {
        let bytes: u64 = crate::passes::tile::words3(self.height, self.width, self.channels);
        let words: usize = (bytes / 4) as usize;
        readback_buffer(ctx, encoder, self.current_activation_buffer(), words, 1)
    }

    /// Queues a new activation for the current buffer.
    pub fn upload_activation_to_current(&self, ctx: &mut GpuContext, new_a: &ActivationField)
        ensures
            final(ctx)@ == old(ctx)@,
            final(ctx).queue() == old(ctx).queue().push(self.activation_write(*new_a)),
    {
        let flat = flatten_activation_channel_major(new_a);
        ctx.write_buffer(self.current_activation_buffer(), words_to_bytes(flat.as_slice()));
    }
}

/// A pipeline is built exactly where the arguments agree with each other: the
/// activation has the grid's shape, there are as many kernels as the
/// configuration says, at least one and at most 45, every kernel links channels
/// that exist, the bank is consistent, a map is given exactly where it is used
/// and has one weight per cell and kernel; and, to convolve by transform, the
/// grid is square, of side 64, 256 or 512, with at least one channel, and every
/// image fits it.
pub proof fn law_accepted_arguments(
    cfg: FlowLeniaConfig,
    bank: KernelBank,
    initial_a: ActivationField,
    convolve_mode: ConvolveMode,
    affinity_mode: AffinityMode,
    map_len: Option<nat>,
)
    ensures
        ({
            let ks = bank.params.kernels@;
            let by_transform = convolve_mode == ConvolveMode::Fft || (convolve_mode
                == ConvolveMode::Auto && (cfg.grid_width == 64 || cfg.grid_width == 256
                || cfg.grid_width == 512));
            pipeline_error(
                cfg,
                bank,
                initial_a,
                convolve_mode,
                affinity_mode,
                map_len,
            ) is None <==> {
                &&& initial_a.h() == cfg.grid_height
                &&& initial_a.w() == cfg.grid_width
                &&& initial_a.c() == cfg.channels
                &&& ks.len() == cfg.num_kernels
                &&& forall|i: int|
                    0 <= i < ks.len() ==> (#[trigger] ks[i]).c0 < cfg.channels && ks[i].c1
                        < cfg.channels
                &&& bank_error(bank) is None
                &&& ks.len() <= 45
                &&& affinity_mode == AffinityMode::Constant ==> map_len is None
                &&& affinity_mode == AffinityMode::Localized ==> map_len == Some(
                    (cfg.grid_height * cfg.grid_width * ks.len()) as nat,
                )
                &&& by_transform ==> {
                    &&& cfg.channels >= 1
                    &&& cfg.grid_width == 64 || cfg.grid_width == 256 || cfg.grid_width == 512
                    &&& cfg.grid_height == cfg.grid_width
                    &&& forall|i: int|
                        0 <= i < bank.images@.len() ==> (#[trigger] bank.images@[i]).rows()
                            <= cfg.grid_width && bank.images@[i].cols() <= cfg.grid_width
                }
            }
        }),
{
    let (h, w, k) = (
        cfg.grid_height as int,
        cfg.grid_width as int,
        bank.params.kernels@.len() as int,
    );
    crate::passes::tile::lemma_product3(h, w, k);
}

/// Every refusal has its reason.
pub proof fn law_refusals_have_reasons(
    cfg: FlowLeniaConfig,
    bank: KernelBank,
    initial_a: ActivationField,
    convolve_mode: ConvolveMode,
    affinity_mode: AffinityMode,
    map_len: Option<nat>,
)
    ensures
        ({
            let ks = bank.params.kernels@;
            match pipeline_error(
                cfg,
                bank,
                initial_a,
                convolve_mode,
                affinity_mode,
                map_len,
            ) {
                None => true,
                Some(PipelineError::NoChannels) => cfg.channels == 0,
                Some(PipelineError::UnsupportedGrid) => convolve_mode == ConvolveMode::Fft
                    && cfg.grid_width != 64 && cfg.grid_width != 256 && cfg.grid_width != 512,
                Some(PipelineError::NotSquare) => cfg.grid_height != cfg.grid_width,
                Some(PipelineError::ShapeMismatch) => initial_a.h() != cfg.grid_height
                    || initial_a.w() != cfg.grid_width || initial_a.c() != cfg.channels,
                Some(PipelineError::KernelCountMismatch) => ks.len() != cfg.num_kernels,
                Some(PipelineError::KernelChannelMismatch) => exists|i: int|
                    0 <= i < ks.len() && ((#[trigger] ks[i]).c0 >= cfg.channels || ks[i].c1
                        >= cfg.channels),
                Some(PipelineError::Kernels(e)) => bank_error(bank) == Some(e),
                Some(PipelineError::TooManyKernels) => ks.len() > 45,
                Some(PipelineError::UnexpectedParameterMap) => affinity_mode
                    == AffinityMode::Constant && map_len is Some,
                Some(PipelineError::MissingParameterMap) => affinity_mode
                    == AffinityMode::Localized && map_len is None,
                Some(PipelineError::ParameterMapLength) => affinity_mode
                    == AffinityMode::Localized && map_len->0 != cfg.grid_height * cfg.grid_width
                    * ks.len(),
                Some(PipelineError::KernelTooLarge) => exists|i: int|
                    0 <= i < bank.images@.len() && ((#[trigger] bank.images@[i]).rows()
                        > cfg.grid_width || bank.images@[i].cols() > cfg.grid_width),
            }
        }),
{
}

/// A run convolves by transform when it is told to, and where it may choose on
/// grids of side 64, 256 and 512; it convolves directly otherwise.
pub proof fn law_auto_grids(grid: u32)
    ensures
        ConvolveMode::Fft.resolved(grid) == ConvolveMode::Fft,
        ConvolveMode::Direct.resolved(grid) == ConvolveMode::Direct,
        ConvolveMode::Auto.resolved(grid) == ConvolveMode::Fft <==> grid == 64 || grid == 256
            || grid == 512,
        ConvolveMode::Auto.resolved(grid) == ConvolveMode::Direct <==> grid != 64 && grid != 256
            && grid != 512,
{
}

/// The label of a profiled pass says what it runs.
pub proof fn law_labels_name_passes(p: GpuStepPipeline, base: int)
    requires
        p.wf(),
        p.passes == StepPasses::of(),
        p.localized is Some ==> p.localized->0.parameter_flow == ParameterFlowPass::of(),
    ensures
        pass_label(0) == "convolve"@ && p.pass_commands(base, 0) == p.convolution(base),
        pass_label(1) == "affinity"@ && runs(
            p.pass_commands(base, 1),
            if p.localized is Some {
                Shader::AffinityLocalized
            } else {
                Shader::AffinityConstant
            },
        ),
        pass_label(2) == "gradient_u"@ && runs(p.pass_commands(base, 2), Shader::GradientU),
        pass_label(3) == "gradient_a_sum"@ && runs(
            p.pass_commands(base, 3),
            Shader::GradientASum,
        ),
        pass_label(4) == "flow"@ && runs(p.pass_commands(base, 4), Shader::Flow),
        pass_label(5) == "reintegrate"@ && runs(p.pass_commands(base, 5), Shader::Reintegrate),
        pass_label(6) == "parameter_flow"@,
        p.localized is Some ==> runs(p.pass_commands(base, 6), Shader::ParameterFlow),
        p.pass_count() == if p.localized is Some {
            7int
        } else {
            6int
        },
        PROFILE_WARMUP == 5,
{
}

/// A single dispatch of the given shader.
pub open spec fn runs(cmds: Seq<Command>, shader: Shader) -> bool {
    cmds.len() == 1 && match cmds[0] {
        Command::Dispatch { pipeline, .. } => pipeline.shader == shader,
        _ => false,
    }
}

/// Two buffers that take turns: the first one at turn 0, the second one at any
/// other.
pub proof fn law_turns(pp: PingPong, turn: int)
    ensures
        turn == 0 ==> pp.at(turn) == pp.first,
        turn != 0 ==> pp.at(turn) == pp.second,
{
}

/// What is needed at startup only comes after everything that the steps use.
pub proof fn law_keep(
    built: GpuStepPipeline,
    cfg: FlowLeniaConfig,
    bank: KernelBank,
    convolve_mode: ConvolveMode,
    affinity_mode: AffinityMode,
    start: int,
    i: int,
)
    requires
        built.is_built(start, cfg, bank, convolve_mode, affinity_mode),
        0 <= start,
        start + 23 <= usize::MAX,
    ensures
        built.buffers.a.second.id < built.keep,
        built.localized is Some ==> built.localized->0.routing.id < built.keep,
        built.convolve_mode == ConvolveMode::Fft ==> {
            let f = built.convolve_fft_pass->0;
            &&& f.twiddles.id < built.keep && f.layout_params_buf.id < built.keep
            &&& f.channel_in is Some ==> f.channel_in->0.id < built.keep
            &&& 0 <= i < built.spectra_staging@.len() ==> built.spectra_staging@[i].id
                >= built.keep
        },
{
}

/// What a refusal says.
pub proof fn law_messages()
    ensures
        PipelineError::NoChannels.text() == "ConvolveMode::Fft requires cfg.channels >= 1"@,
        PipelineError::UnsupportedGrid.text()
            == "ConvolveMode::Fft requires cfg.grid_width to be 64, 256 or 512"@,
        PipelineError::NotSquare.text() == "ConvolveMode::Fft requires square grid"@,
        PipelineError::ShapeMismatch.text() == "initial_a shape mismatch with cfg grid"@,
        PipelineError::KernelCountMismatch.text() == "kernel_params.len() != cfg.num_kernels"@,
        PipelineError::KernelChannelMismatch.text()
            == "kernel_params name a channel beyond cfg.channels"@,
        PipelineError::TooManyKernels.text() == "h.len() exceeds MAX_KERNELS"@,
        PipelineError::UnexpectedParameterMap.text()
            == "AffinityMode::Constant must not be paired with initial_p_map; pass None"@,
        PipelineError::MissingParameterMap.text()
            == "AffinityMode::Localized requires initial_p_map"@,
        PipelineError::ParameterMapLength.text() == "initial_p_map length does not match H*W*K"@,
        PipelineError::KernelTooLarge.text() == "kernel must fit inside grid"@,
{
}

} // verus!
