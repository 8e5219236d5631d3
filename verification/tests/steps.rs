//! Passes, transforms and pipelines.

use flow_lenia_gpu::config::{BorderMode, FlowLeniaConfig, KernelEntry, KernelParams};
use flow_lenia_gpu::device::{
    div_ceil, BindGroup, BindingKind, Buffer, BufferUsages, Command, CommandEncoder, GpuContext,
    Shader, ShaderStage,
};
use flow_lenia_gpu::field::{ActivationField, KernelImage};
use flow_lenia_gpu::kernel_buffers::{KernelBank, KernelBankError};
use flow_lenia_gpu::passes::convolve_fft::{ConvolveFftPass, FftToPreGPass, PreGParams};
use flow_lenia_gpu::passes::fft::{
    decode_spectrum, is_fft_pipeline_grid, is_supported_mixed_n, is_supported_n,
    precompute_twiddles_1d, Fft2dPass, FftAxis, FftDirection, FftParams, FftPass,
    SUPPORTED_MIXED_N, SUPPORTED_N,
};
use flow_lenia_gpu::passes::flow::FlowPass;
use flow_lenia_gpu::passes::gradient::GradientPass;
use flow_lenia_gpu::passes::kernel_fft::precompute_kernel_ffts;
use flow_lenia_gpu::passes::parameter_flow::ParameterFlowPass;
use flow_lenia_gpu::passes::reintegrate::ReintegratePass;
use flow_lenia_gpu::passes::spectral_multiply::{SpectralMultiplyParams, SpectralMultiplyPass};
use flow_lenia_gpu::passes::visualize::{VisualizeGlobals, VisualizePass};
use flow_lenia_gpu::pipeline::{
    can_build, AffinityMode, ConvolveMode, GpuStepPipeline, PipelineError,
};
use flow_lenia_gpu::words::bytes_to_words;
use flow_lenia_gpu::{AffinityGrowthPass, ConvolvePass};

fn small_cfg(channels: u32, paper_strict: bool, border: BorderMode) -> FlowLeniaConfig {
    FlowLeniaConfig {
        grid_width: 32,
        grid_height: 32,
        channels,
        dt: 0.2_f32.to_bits(),
        sigma: 0.65_f32.to_bits(),
        n: 2.0_f32.to_bits(),
        beta_a: 2.0_f32.to_bits(),
        dd: 5,
        num_kernels: 6,
        paper_strict,
        border,
    }
}

fn fft_cfg(n: u32, channels: u32, num_kernels: u32) -> FlowLeniaConfig {
    let mut cfg = small_cfg(channels, false, BorderMode::Torus);
    cfg.grid_width = n;
    cfg.grid_height = n;
    cfg.num_kernels = num_kernels;
    cfg
}

fn bank(cfg: &FlowLeniaConfig) -> KernelBank {
    let k = cfg.num_kernels as usize;
    KernelBank {
        params: KernelParams {
            kernels: (0..k)
                .map(|i| KernelEntry {
                    c0: if cfg.channels == 0 { 0 } else { i as u32 % cfg.channels },
                    c1: 0,
                    h: 1.0_f32.to_bits(),
                    mu: 0.15_f32.to_bits(),
                    sigma: 0.02_f32.to_bits(),
                })
                .collect(),
        },
        images: (0..k).map(|_| KernelImage::zeros(7, 7)).collect(),
        radii: vec![3; k],
    }
}

fn field(cfg: &FlowLeniaConfig) -> ActivationField {
    ActivationField::zeros(
        cfg.grid_height as usize,
        cfg.grid_width as usize,
        cfg.channels as usize,
    )
}

fn table(cfg: &FlowLeniaConfig) -> Vec<(u32, u32)> {
    vec![(1.0_f32.to_bits(), 0); cfg.grid_width as usize]
}

fn build(
    cfg: &FlowLeniaConfig,
    mode: ConvolveMode,
    affinity: AffinityMode,
    p_map: Option<&Vec<u32>>,
) -> (GpuContext, CommandEncoder, Result<GpuStepPipeline, PipelineError>) {
    let mut ctx = GpuContext::new();
    let mut encoder = CommandEncoder::new();
    let r = GpuStepPipeline::new_with_modes(
        &mut ctx,
        &mut encoder,
        cfg,
        &bank(cfg),
        &field(cfg),
        mode,
        affinity,
        p_map,
        &table(cfg),
    );
    (ctx, encoder, r)
}

fn shaders(commands: &[Command]) -> Vec<Shader> {
    commands
        .iter()
        .filter_map(|c| match c {
            Command::Dispatch { pipeline, .. } => Some(pipeline.shader),
            _ => None,
        })
        .collect()
}

fn bound(c: &Command) -> BindGroup {
    match c {
        Command::Dispatch { bind_group, .. } => *bind_group,
        _ => panic!("not a dispatch"),
    }
}

fn written(c: &Command) -> Vec<Buffer> {
    match c {
        Command::Dispatch { pipeline, bind_group, .. } => {
            let l = &pipeline.layout;
            let kinds = [Some(l.b0), Some(l.b1), l.b2, l.b3, l.b4];
            let b = bind_group;
            let bufs = [Some(b.b0), Some(b.b1), b.b2, b.b3, b.b4];
            kinds
                .iter()
                .zip(bufs.iter())
                .filter(|(k, _)| **k == Some(BindingKind::StorageReadWrite))
                .map(|(_, b)| b.unwrap())
                .collect()
        }
        Command::Copy { dst, .. } => vec![*dst],
        _ => vec![],
    }
}

#[test]
#[should_panic(expected = "ConvolveMode::Fft requires cfg.grid_width")]
fn gpu_pipeline_fft_mode_rejects_unsupported_grid() {
    let mut cfg = small_cfg(1, false, BorderMode::Torus);
    cfg.grid_width = 32;
    cfg.grid_height = 32;
    let mut ctx = GpuContext::new();
    let mut encoder = CommandEncoder::new();
    if let Err(e) = GpuStepPipeline::new_with_mode(
        &mut ctx,
        &mut encoder,
        &cfg,
        &bank(&cfg),
        &field(&cfg),
        ConvolveMode::Fft,
        &table(&cfg),
    ) {
        panic!("{}", e.message());
    }
}

#[test]
#[should_panic(expected = "AffinityMode::Constant must not be paired with initial_p_map")]
fn gpu_pipeline_constant_mode_rejects_initial_p_map() {
    let cfg = small_cfg(3, false, BorderMode::Torus);
    let dummy_p_map = vec![0.0_f32.to_bits(); 8];
    let (_, _, r) = build(&cfg, ConvolveMode::Direct, AffinityMode::Constant, Some(&dummy_p_map));
    if let Err(e) = r {
        panic!("{}", e.message());
    }
}

#[test]
#[should_panic(expected = "AffinityMode::Localized requires initial_p_map")]
fn gpu_pipeline_localized_mode_requires_initial_p_map() {
    let cfg = small_cfg(3, false, BorderMode::Torus);
    let (_, _, r) = build(&cfg, ConvolveMode::Direct, AffinityMode::Localized, None);
    if let Err(e) = r {
        panic!("{}", e.message());
    }
}

#[test]
fn every_reason_to_refuse_a_pipeline() {
    let refuse = |cfg: &FlowLeniaConfig, mode, affinity, p: Option<&Vec<u32>>| {
        let (ctx, encoder, r) = build(cfg, mode, affinity, p);
        assert!(ctx.buffers.is_empty() && ctx.writes.is_empty() && encoder.commands.is_empty());
        r.err().unwrap()
    };
    let c = AffinityMode::Constant;
    let l = AffinityMode::Localized;
    assert_eq!(refuse(&fft_cfg(64, 0, 2), ConvolveMode::Auto, c, None), PipelineError::NoChannels);
    assert_eq!(
        refuse(&fft_cfg(128, 1, 2), ConvolveMode::Fft, c, None),
        PipelineError::UnsupportedGrid
    );
    let mut tall = fft_cfg(64, 1, 2);
    tall.grid_height = 32;
    assert_eq!(refuse(&tall, ConvolveMode::Fft, c, None), PipelineError::NotSquare);
    assert_eq!(
        refuse(&fft_cfg(32, 1, 46), ConvolveMode::Auto, c, None),
        PipelineError::TooManyKernels
    );
    assert_eq!(
        refuse(&fft_cfg(32, 1, 0), ConvolveMode::Auto, c, None),
        PipelineError::Kernels(KernelBankError::Empty)
    );
    assert_eq!(
        refuse(&fft_cfg(32, 1, 2), ConvolveMode::Auto, l, Some(&vec![0; 7])),
        PipelineError::ParameterMapLength
    );

    let cfg = fft_cfg(32, 1, 2);
    let mut ctx = GpuContext::new();
    let mut e = CommandEncoder::new();
    let small = ActivationField::zeros(32, 31, 1);
    let r = GpuStepPipeline::new(&mut ctx, &mut e, &cfg, &bank(&cfg), &small, &table(&cfg));
    assert_eq!(r.err(), Some(PipelineError::ShapeMismatch));
    let more = bank(&fft_cfg(32, 1, 3));
    let r = GpuStepPipeline::new(&mut ctx, &mut e, &cfg, &more, &field(&cfg), &table(&cfg));
    assert_eq!(r.err(), Some(PipelineError::KernelCountMismatch));
    for (c0, c1) in [(1, 0), (0, 1), (2, 0)] {
        let mut stray = bank(&cfg);
        stray.params.kernels[1].c0 = c0;
        stray.params.kernels[1].c1 = c1;
        let r = GpuStepPipeline::new(&mut ctx, &mut e, &cfg, &stray, &field(&cfg), &table(&cfg));
        assert_eq!(r.err(), Some(PipelineError::KernelChannelMismatch));
        assert!(ctx.buffers.is_empty() && e.commands.is_empty());
    }
    let two = fft_cfg(64, 2, 3);
    let mut stray = bank(&two);
    stray.params.kernels[2].c0 = 2;
    assert!(can_build(&two, &stray, ConvolveMode::Fft, &table(&two)));
    let r = GpuStepPipeline::new(&mut ctx, &mut e, &two, &stray, &field(&two), &table(&two));
    assert_eq!(r.err(), Some(PipelineError::KernelChannelMismatch));
    assert!(PipelineError::KernelChannelMismatch.message().contains("cfg.channels"));
    let mut uneven = bank(&cfg);
    uneven.radii = vec![3, 4];
    let r = GpuStepPipeline::new(&mut ctx, &mut e, &cfg, &uneven, &field(&cfg), &table(&cfg));
    assert_eq!(
        r.err(),
        Some(PipelineError::Kernels(KernelBankError::SideMismatch { got: 7, expected: 9 }))
    );
    let big = fft_cfg(64, 1, 1);
    let mut huge = bank(&big);
    huge.images = vec![KernelImage::zeros(65, 65)];
    huge.radii = vec![32];
    let r = GpuStepPipeline::new(&mut ctx, &mut e, &big, &huge, &field(&big), &table(&big));
    assert_eq!(r.err(), Some(PipelineError::KernelTooLarge));
    assert!(PipelineError::KernelTooLarge.message().contains("fit inside grid"));
}

#[test]
fn modes_resolve() {
    for grid in [64, 256, 512] {
        assert_eq!(ConvolveMode::Auto.resolve(grid), ConvolveMode::Fft);
    }
    for grid in [0, 8, 32, 128, 1024] {
        assert_eq!(ConvolveMode::Auto.resolve(grid), ConvolveMode::Direct);
    }
    assert_eq!(ConvolveMode::Direct.resolve(64), ConvolveMode::Direct);
    assert_eq!(ConvolveMode::Fft.resolve(32), ConvolveMode::Fft);
    assert_eq!(ConvolveMode::default(), ConvolveMode::Auto);
    assert_eq!(AffinityMode::default(), AffinityMode::Constant);
}

#[test]
fn supported_sides() {
    assert_eq!(SUPPORTED_N, [64, 256]);
    assert_eq!(SUPPORTED_MIXED_N, [8, 32, 128, 512]);
    for n in 0..1100 {
        assert_eq!(is_supported_n(n), SUPPORTED_N.contains(&n));
        assert_eq!(is_supported_mixed_n(n), SUPPORTED_MIXED_N.contains(&n));
        assert_eq!(is_fft_pipeline_grid(n), n == 64 || n == 256 || n == 512);
    }
}

#[test]
fn workgroups_cover_the_grid() {
    assert_eq!(div_ceil(64, 8), 8);
    assert_eq!(div_ceil(65, 8), 9);
    assert_eq!(div_ceil(0, 8), 0);
    assert_eq!(div_ceil(u32::MAX, 1), u32::MAX);
    assert_eq!(div_ceil(u32::MAX, 2), 1 << 31);
}

#[test]
fn a_direct_step() {
    let cfg = small_cfg(3, false, BorderMode::Torus);
    let (mut ctx, startup, r) = build(&cfg, ConvolveMode::Auto, AffinityMode::Constant, None);
    let mut p = r.unwrap();
    assert_eq!(p.convolve_mode(), ConvolveMode::Direct);
    assert_eq!(p.affinity_mode(), AffinityMode::Constant);
    assert_eq!(p.current_parameter_map_buffer(), None);
    assert!(startup.commands.is_empty());
    assert_eq!(ctx.buffers.len(), 11);
    let sizes: Vec<u64> = ctx.buffers.iter().map(|b| b.size).collect();
    assert_eq!(
        sizes,
        vec![6 * 49 * 4, 96, 180, 32 * 32 * 24, 32 * 32 * 12, 32 * 32 * 24, 32 * 32 * 8, 32 * 32 * 24, 64, 32 * 32 * 12, 32 * 32 * 12]
    );
    let e = p.step(&mut ctx);
    assert_eq!(
        shaders(&e.commands),
        vec![
            Shader::Convolve,
            Shader::AffinityConstant,
            Shader::GradientU,
            Shader::GradientASum,
            Shader::Flow,
            Shader::Reintegrate
        ]
    );
    match e.commands[0] {
        Command::Dispatch { x, y, z, .. } => assert_eq!((x, y, z), (4, 4, 1)),
        _ => panic!("not a dispatch"),
    }
    let last = bound(&e.commands[5]);
    assert_eq!(last.b0, p.a_buffer(0));
    assert_eq!(last.b2, Some(p.a_buffer(1)));
    assert_eq!(p.current_activation_buffer(), p.a_buffer(1));
    assert_eq!(p.ping_index(), 1);
    let mut again = CommandEncoder::new();
    p.record_step(&mut again);
    assert_eq!(bound(&again.commands[0]).b0, p.a_buffer(1));
    assert_eq!(ctx.buffers.len(), 11);
}

#[test]
fn buffers_take_turns() {
    let cfg = small_cfg(1, false, BorderMode::Wall);
    let (mut ctx, _, r) = build(&cfg, ConvolveMode::Direct, AffinityMode::Constant, None);
    let mut p = r.unwrap();
    let runs = p.run_steps(&mut ctx, 5);
    assert_eq!(runs.len(), 5);
    assert_eq!(p.step_count(), 5);
    assert_eq!(p.ping_index(), 1);
    assert_eq!(runs[0].commands, runs[2].commands);
    assert_eq!(runs[1].commands, runs[3].commands);
    assert_ne!(runs[0].commands, runs[1].commands);
    for (i, e) in runs.iter().enumerate() {
        let last = e.commands.last().unwrap();
        assert_eq!(written(last), vec![p.a_buffer(1 - i % 2)]);
    }
    p.swap_buffers();
    assert_eq!((p.ping_index(), p.step_count()), (0, 6));
}

#[test]
fn a_localized_step_moves_the_map() {
    let cfg = small_cfg(3, false, BorderMode::Torus);
    let map: Vec<u32> = (0..32 * 32 * 6).collect();
    let (mut ctx, _, r) = build(&cfg, ConvolveMode::Auto, AffinityMode::Localized, Some(&map));
    let mut p = r.unwrap();
    assert_eq!(ctx.buffers.len(), 14);
    assert_eq!(ctx.writes.len(), 1);
    let first = p.current_parameter_map_buffer().unwrap();
    assert_eq!(ctx.writes[0].buffer, first);
    assert_eq!(bytes_to_words(&ctx.writes[0].bytes), Some(map));
    let routing = bytes_to_words(ctx.buffers[13].contents.as_ref().unwrap()).unwrap();
    assert_eq!(routing, vec![0, 1, 2, 0, 1, 2]);
    let e = p.step(&mut ctx);
    assert_eq!(shaders(&e.commands)[1], Shader::AffinityLocalized);
    assert_eq!(shaders(&e.commands)[6], Shader::ParameterFlow);
    assert_eq!(bound(&e.commands[1]).b2, Some(first));
    let flow = bound(&e.commands[6]);
    assert_eq!(flow.b0, first);
    assert_eq!(Some(flow.b1), p.current_parameter_map_buffer());
    assert_ne!(flow.b1, first);
}

#[test]
fn a_step_by_transform() {
    let cfg = fft_cfg(64, 3, 8);
    let (mut ctx, startup, r) = build(&cfg, ConvolveMode::Auto, AffinityMode::Constant, None);
    let mut p = r.unwrap();
    assert_eq!(p.convolve_mode(), ConvolveMode::Fft, "Auto must resolve to Fft for N=64");
    assert_eq!(ctx.buffers.len(), 11 + 9 + 6 * 8);
    assert_eq!(startup.commands.len(), 4 * 8);
    assert_eq!(p.spectra_staging.len(), 8);
    assert_eq!(ctx.buffers[p.spectra_staging[7].id].size, 64 * 64 * 8);
    assert!(ctx.buffers[p.spectra_staging[7].id].usage.map_read);
    let spectra = vec![vec![(0, 0); 64 * 64]; 8];
    p.install_kernel_ffts(&mut ctx, &spectra);
    let kfft = p.kernel_fft.unwrap();
    assert_eq!((kfft.n, kfft.k, kfft.buffer.id), (64, 8, 68));
    let before = ctx.buffers.len();
    let e = p.step(&mut ctx);
    assert_eq!(ctx.buffers.len() - before, 2 * 3 + 2 * 8);
    let all = shaders(&e.commands);
    assert_eq!(all.iter().filter(|s| **s == Shader::SpectralMultiply).count(), 3);
    assert_eq!(all.iter().filter(|s| **s == Shader::FftRadix4H).count(), 3 + 8);
    assert_eq!(all.iter().filter(|s| **s == Shader::FftToPreG).count(), 1);
    assert_eq!(all.last(), Some(&Shader::Reintegrate));
    let slices: Vec<u64> = e
        .commands
        .iter()
        .filter_map(|c| match c {
            Command::Copy { dst, dst_offset, .. }
                if *dst == p.convolve_fft_pass.as_ref().unwrap().k_complex_out =>
            {
                Some(*dst_offset)
            }
            _ => None,
        })
        .collect();
    let mut sorted = slices.clone();
    sorted.sort();
    assert_eq!(sorted, (0..8).map(|k| k * 64 * 64 * 8).collect::<Vec<u64>>());
    assert_eq!(slices[0..3], [0, 3 * 64 * 64 * 8, 6 * 64 * 64 * 8]);
}

#[test]
fn one_channel_is_transformed_in_place() {
    let cfg = fft_cfg(512, 1, 2);
    let (mut ctx, _, r) = build(&cfg, ConvolveMode::Fft, AffinityMode::Constant, None);
    let mut p = r.unwrap();
    assert_eq!(p.convolve_mode(), ConvolveMode::Fft, "512 must route to Fft");
    let f = p.convolve_fft_pass.as_ref().unwrap();
    assert!(f.channel_in.is_none());
    assert_eq!(f.fft2d.axis(FftAxis::H).pipeline.shader, Shader::FftRadix2x4H);
    p.install_kernel_ffts(&mut ctx, &vec![vec![(0, 0); 512 * 512]; 2]);
    let e = p.step(&mut ctx);
    assert_eq!(bound(&e.commands[0]).b0, p.a_buffer(0));
    assert_eq!(e.commands.len(), 2 + 1 + 2 * 4 + 1 + 5);
}

#[test]
fn profiled_steps_are_steps() {
    let cfg = fft_cfg(64, 1, 1);
    let (mut ctx, _, r) = build(&cfg, ConvolveMode::Fft, AffinityMode::Constant, None);
    let mut p = r.unwrap();
    p.install_kernel_ffts(&mut ctx, &vec![vec![(0, 0); 64 * 64]]);
    let plan = p.profile_passes_fft(&mut ctx, 2);
    assert_eq!(
        plan.labels,
        vec!["convolve", "affinity", "gradient_u", "gradient_a_sum", "flow", "reintegrate"]
    );
    assert_eq!((plan.warmup.len(), plan.timed.len()), (5, 2));
    assert_eq!(p.step_count(), 7);
    for t in &plan.timed {
        let joined: Vec<Command> = t.iter().flat_map(|e| e.commands.clone()).collect();
        assert_eq!(shaders(&joined), shaders(&plan.warmup[0].commands));
    }
    let first: Vec<Command> = plan.timed[0].iter().flat_map(|e| e.commands.clone()).collect();
    assert_eq!(bound(first.last().unwrap()), bound(plan.warmup[1].commands.last().unwrap()));

    let map = vec![0; 64 * 64];
    let (mut ctx, _, r) = build(&cfg, ConvolveMode::Fft, AffinityMode::Localized, Some(&map));
    let mut p = r.unwrap();
    p.install_kernel_ffts(&mut ctx, &vec![vec![(0, 0); 64 * 64]]);
    let plan = p.profile_passes_fft(&mut ctx, 1);
    assert_eq!(plan.labels.last(), Some(&"parameter_flow"));
    assert_eq!(plan.timed[0].len(), 7);
}

#[test]
fn parameters_can_change_while_running() {
    let cfg = small_cfg(2, false, BorderMode::Torus);
    let (mut ctx, _, r) = build(&cfg, ConvolveMode::Direct, AffinityMode::Constant, None);
    let p = r.unwrap();
    let mut other = cfg;
    other.grid_width = 999;
    other.border = BorderMode::Wall;
    other.paper_strict = true;
    p.update_globals(&mut ctx, &other);
    assert_eq!(ctx.writes[0].buffer, p.buffers.globals);
    let words = bytes_to_words(&ctx.writes[0].bytes).unwrap();
    assert_eq!(words[0..8], [32, 32, 2, 6, 7, 3, 1, 1]);
    let mut a = ActivationField::zeros(32, 32, 2);
    a.set(0, 1, 0, 8);
    p.upload_activation_to_current(&mut ctx, &a);
    assert_eq!(ctx.writes[1].buffer, p.current_activation_buffer());
    assert_eq!(bytes_to_words(&ctx.writes[1].bytes).unwrap()[1], 8);
    let mut e = CommandEncoder::new();
    let staging = p.readback_activation(&mut ctx, &mut e);
    assert_eq!(ctx.buffers[staging.id].size, 32 * 32 * 2 * 4);
}

#[test]
fn transforms_are_mirrored() {
    let t = Fft2dPass::new(64);
    let mut ctx = GpuContext::new();
    let b: Vec<Buffer> =
        (0..4).map(|_| ctx.create_buffer(8, BufferUsages::storage())).collect();
    let mut e = CommandEncoder::new();
    t.forward_2d_with_scratch(&mut ctx, &mut e, b[0], b[1], b[2], b[3]);
    t.inverse_2d_with_scratch(&mut ctx, &mut e, b[0], b[3], b[2], b[1]);
    assert_eq!(
        shaders(&e.commands),
        vec![Shader::FftRadix4H, Shader::FftRadix4V, Shader::FftRadix4V, Shader::FftRadix4H]
    );
    assert_eq!(bound(&e.commands[0]), t.h.make_bind_group(b[1], b[0], b[2], Buffer { id: 4 }));
    assert_eq!(bound(&e.commands[3]), t.h.make_bind_group(b[2], b[0], b[1], Buffer { id: 7 }));
    let words = bytes_to_words(ctx.buffers[4].contents.as_ref().unwrap()).unwrap();
    assert_eq!(words, vec![64, 64, 0, 0]);
    let words = bytes_to_words(ctx.buffers[6].contents.as_ref().unwrap()).unwrap();
    assert_eq!(words, vec![64, 64, 1, 0]);
    match e.commands[0] {
        Command::Dispatch { pipeline, x, y, z, .. } => {
            assert_eq!(pipeline.workgroup_x, Some(64));
            assert_eq!((x, y, z), (64, 1, 1));
        }
        _ => panic!("not a dispatch"),
    }
    assert_eq!(FftPass::new_v_mixed(512).pipeline.shader, Shader::FftRadix2x4V);
    assert_eq!(t.axis(FftAxis::V).n, 64);
    assert_eq!(FftParams::new(8, 3, FftDirection::Inverse).direction, 1);
}

#[test]
fn host_values_are_transformed_and_read_back() {
    let t = Fft2dPass::new(8);
    let mut ctx = GpuContext::new();
    let tw = precompute_twiddles_1d(&mut ctx, 8, &vec![(5, 6); 8]);
    assert_eq!(ctx.buffers[0].size, 64);
    let input: Vec<u32> = (0..64).collect();
    let mut e = CommandEncoder::new();
    let staging = t.forward_2d(&mut ctx, &mut e, tw, &input);
    assert_eq!(staging.id, 6);
    assert_eq!(e.commands.len(), 4);
    let sizes: Vec<u64> = ctx.buffers.iter().map(|b| b.size).collect();
    assert_eq!(sizes, vec![64, 256, 512, 512, 16, 16, 512]);
    let bytes: Vec<u8> = (0..512).map(|i| (i / 4 % 256) as u8 * u8::from(i % 4 == 0)).collect();
    let s = decode_spectrum(&bytes, 8).unwrap();
    assert_eq!(s.len(), 64);
    assert_eq!(s[3], (6, 7));
    assert!(decode_spectrum(&bytes[4..], 8).is_none());
    let mut e = CommandEncoder::new();
    let images = vec![KernelImage::zeros(3, 3), KernelImage::zeros(5, 5)];
    let staging = precompute_kernel_ffts(&mut ctx, &mut e, &images, 8, &t, tw);
    assert_eq!(staging.iter().map(|b| b.id).collect::<Vec<usize>>(), vec![12, 18]);
}

#[test]
fn convolution_by_transform_on_its_own() {
    let cfg = fft_cfg(64, 1, 10);
    let mut ctx = GpuContext::new();
    let pass = ConvolveFftPass::new(&mut ctx, 64, 1, &bank(&cfg).params, &table(&cfg));
    assert_eq!((pass.n, pass.k), (64, 10));
    assert_eq!(ctx.buffers.len(), 8);
    assert_eq!(ctx.buffers[pass.k_spectra.id].size, 10 * 64 * 64 * 8);
    let mut e = CommandEncoder::new();
    let (a, k, g) = (Buffer { id: 100 }, Buffer { id: 101 }, Buffer { id: 102 });
    pass.record(&mut ctx, &mut e, a, k, g);
    assert_eq!(e.commands.len(), 2 + 1 + 10 * 4 + 1);
    match e.commands[2] {
        Command::Dispatch { x, .. } => assert_eq!(x, 64 * 64 * 10 / 256),
        _ => panic!("not a dispatch"),
    }
    assert_eq!(written(e.commands.last().unwrap()), vec![g]);
    assert_eq!(PreGParams::new(64, 10), PreGParams { n: 64, k: 10, _pad0: 0, _pad1: 0 });
    assert_eq!(FftToPreGPass::new().pipeline.shader.entry_point(), "fft_complex_to_pre_g");
    assert_eq!(SpectralMultiplyParams::new(2, 3).k, 3);
    assert_eq!(SpectralMultiplyPass::new().pipeline.shader.file_name(), "spectral_multiply.wgsl");
}

#[test]
fn pass_bindings() {
    let (r, w, u) = (BindingKind::StorageRead, BindingKind::StorageReadWrite, BindingKind::Uniform);
    let l = ConvolvePass::new().pipeline.layout;
    assert_eq!((l.stage, l.b0, l.b1, l.b2, l.b3, l.b4), (ShaderStage::Compute, r, r, Some(r), Some(w), Some(u)));
    let l = AffinityGrowthPass::new().pipeline_localized.layout;
    assert_eq!((l.b0, l.b1, l.b2, l.b3, l.b4), (r, r, Some(r), Some(w), Some(u)));
    let l = GradientPass::new().pipeline_a_sum.layout;
    assert_eq!((l.b0, l.b1, l.b2, l.b3, l.b4), (r, w, Some(u), None, None));
    let l = FlowPass::new().pipeline.layout;
    assert_eq!((l.b0, l.b1, l.b2, l.b3, l.b4), (r, r, Some(r), Some(w), Some(u)));
    let l = ReintegratePass::new().pipeline.layout;
    assert_eq!((l.b0, l.b1, l.b2, l.b3, l.b4), (r, r, Some(w), Some(u), None));
    let l = ParameterFlowPass::new().pipeline.layout;
    assert_eq!((l.b0, l.b1, l.b2, l.b3, l.b4), (r, w, Some(r), Some(r), Some(u)));
    let l = VisualizePass::new(4).layout;
    assert_eq!((l.stage, l.b0, l.b1, l.b2), (ShaderStage::Fragment, r, u, None));
    assert_eq!(std::mem::size_of::<VisualizeGlobals>(), 16);
    assert!(Shader::Flow.needs_types() && !Shader::Visualize.needs_types());
    assert_eq!(Shader::Flow.entry_point(), "main");
}

#[test]
fn arguments_can_be_checked_before_building() {
    let cfg = fft_cfg(64, 2, 3);
    let good = bank(&cfg);
    assert!(good.check_fits());
    assert!(can_build(&cfg, &good, ConvolveMode::Auto, &table(&cfg)));
    assert!(!can_build(&cfg, &good, ConvolveMode::Auto, &vec![]));
    assert!(can_build(&cfg, &good, ConvolveMode::Direct, &vec![]));
    let mut wide = bank(&cfg);
    wide.images[1] = KernelImage::zeros(7, 5);
    assert!(!wide.check_fits());
    let mut short = bank(&cfg);
    short.radii.pop();
    assert!(!short.check_fits());
    let mut huge = bank(&cfg);
    huge.radii[0] = u32::MAX / 2 + 1;
    assert!(!huge.check_fits());
    let mut endless = cfg;
    endless.grid_width = u32::MAX;
    endless.grid_height = u32::MAX;
    assert!(!can_build(&endless, &good, ConvolveMode::Direct, &vec![]));
}

#[test]
fn every_kernel_fills_its_slice_once() {
    let cfg = fft_cfg(64, 2, 3);
    let (mut ctx, _, built) = build(&cfg, ConvolveMode::Fft, AffinityMode::Constant, None);
    let mut pipeline = built.unwrap();
    assert_eq!(pipeline.keep + 6 * 3, ctx.buffers.len());
    assert_eq!(pipeline.spectra_staging[0].id, pipeline.keep + 5);
    pipeline.install_kernel_ffts(&mut ctx, &vec![vec![(0, 0); 64 * 64]; 3]);
    let encoder = pipeline.step(&mut ctx);
    let slices_buffer = pipeline.convolve_fft_pass.as_ref().unwrap().k_complex_out;
    let mut slices: Vec<u64> = Vec::new();
    for c in &encoder.commands {
        if let Command::Copy { dst, dst_offset, size, .. } = c {
            if *dst == slices_buffer {
                assert_eq!(*size, 64 * 64 * 8);
                slices.push(dst_offset / size);
            }
        }
    }
    slices.sort();
    assert_eq!(slices, vec![0, 1, 2]);
}

fn bindings(c: &Command) -> Vec<(BindingKind, Buffer)> {
    match c {
        Command::Dispatch { pipeline, bind_group: b, .. } => {
            let l = &pipeline.layout;
            let kinds = [Some(l.b0), Some(l.b1), l.b2, l.b3, l.b4];
            let bufs = [Some(b.b0), Some(b.b1), b.b2, b.b3, b.b4];
            kinds
                .iter()
                .zip(bufs.iter())
                .filter(|(k, _)| k.is_some())
                .map(|(k, b)| (k.unwrap(), b.unwrap()))
                .collect()
        }
        _ => vec![],
    }
}

fn read(c: &Command) -> Vec<Buffer> {
    match c {
        Command::Copy { src, .. } => vec![*src],
        _ => bindings(c)
            .into_iter()
            .filter(|(k, _)| *k != BindingKind::StorageReadWrite)
            .map(|(_, b)| b)
            .collect(),
    }
}

fn ready(cfg: &FlowLeniaConfig, mode: ConvolveMode) -> (GpuContext, GpuStepPipeline) {
    let cells = (cfg.grid_width * cfg.grid_height) as usize;
    let map = vec![0; cells * cfg.num_kernels as usize];
    let (mut ctx, _, r) = build(cfg, mode, AffinityMode::Localized, Some(&map));
    let mut p = r.unwrap();
    if p.convolve_mode() == ConvolveMode::Fft {
        let spectra = vec![vec![(0, 0); cells]; cfg.num_kernels as usize];
        p.install_kernel_ffts(&mut ctx, &spectra);
    }
    (ctx, p)
}

#[test]
fn steps_read_only_what_is_there() {
    for mode in [ConvolveMode::Direct, ConvolveMode::Fft] {
        let cfg = fft_cfg(64, 2, 3);
        let (mut ctx, mut p) = ready(&cfg, mode);
        for _ in 0..3 {
            let current = p.current_activation_buffer();
            let map = p.current_parameter_map_buffer().unwrap();
            let e = p.step(&mut ctx);
            let mut there: Vec<Buffer> = vec![current, map];
            for c in &e.commands {
                let writes = written(c);
                for b in read(c) {
                    let uploaded = ctx.buffers[b.id].contents.is_some() && b != p.a_buffer(0);
                    assert!(uploaded || there.contains(&b), "{c:?} reads {b:?} too early");
                    assert!(!writes.contains(&b));
                }
                assert!(!writes.contains(&current) && !writes.contains(&map));
                there.extend(writes);
            }
            assert!(there.contains(&p.current_activation_buffer()));
            assert!(there.contains(&p.current_parameter_map_buffer().unwrap()));
        }
    }
}

#[test]
fn a_device_accepts_every_command() {
    for mode in [ConvolveMode::Direct, ConvolveMode::Fft] {
        let cfg = fft_cfg(64, 2, 3);
        let map = vec![0; 64 * 64 * 3];
        let (_, startup, _) = build(&cfg, mode, AffinityMode::Localized, Some(&map));
        let (mut ctx, mut p) = ready(&cfg, mode);
        let e = p.step(&mut ctx);
        for c in startup.commands.iter().chain(e.commands.iter()) {
            for (kind, b) in bindings(c) {
                let usage = ctx.buffers[b.id].usage;
                assert!(if kind == BindingKind::Uniform { usage.uniform } else { usage.storage });
            }
            if let Command::Copy { src, src_offset, dst, dst_offset, size } = c {
                let (from, to) = (&ctx.buffers[src.id], &ctx.buffers[dst.id]);
                assert!(from.usage.copy_src && to.usage.copy_dst && src != dst);
                assert!(src_offset + size <= from.size && dst_offset + size <= to.size);
                assert_eq!((src_offset % 4, dst_offset % 4, size % 4), (0, 0, 0));
            }
        }
    }
}

#[test]
fn released_steps_leave_no_buffers() {
    let cfg = fft_cfg(64, 2, 3);
    let (mut ctx, mut p) = ready(&cfg, ConvolveMode::Fft);
    let mark = ctx.buffers.len();
    let mut first: Vec<Command> = Vec::new();
    for i in 0..100 {
        let e = p.step(&mut ctx);
        ctx.release(mark);
        assert_eq!(ctx.buffers.len(), mark);
        if i == 0 {
            first = e.commands;
        } else {
            assert_eq!(e.commands == first, i % 2 == 0);
        }
    }
    assert_eq!(p.step_count(), 100);
}
