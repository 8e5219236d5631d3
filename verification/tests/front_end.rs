//! Canvas, readback of images, reports and the front end.

use flow_lenia_gpu::app_state::{
    demo_cfg, split_channels, AppState, Key, KeyAction, KeyEvent, PanelInput, RebuildRequest,
    RunInputs,
};
use flow_lenia_gpu::canvas::{
    choose_surface_format, clamp_surface_size, compute_visualize_layout, decide_frame,
    resolve_physical_canvas_size, SurfaceStatus, CANVAS_H, CANVAS_W, SIDE_PANEL_W,
};
use flow_lenia_gpu::config::{BorderMode, FlowLeniaConfig, KernelEntry, KernelParams};
use flow_lenia_gpu::device::{Buffer, Command, CommandEncoder, GpuContext, Shader, Viewport};
use flow_lenia_gpu::field::{ActivationField, KernelImage};
use flow_lenia_gpu::frame_stats::{frame_stats, sort_samples, FpsCounter, FrameTimingDiag};
use flow_lenia_gpu::kernel_buffers::KernelBank;
use flow_lenia_gpu::pipeline::PipelineError;
use flow_lenia_gpu::screenshot::{
    finish_screenshot, package_screenshot, plan_screenshot, screenshot_name, ScreenshotError,
};
use flow_lenia_gpu::texture_readback::{
    align_to, readback_rgba8_texture, strip_row_padding, TextureFormat,
};
use flow_lenia_gpu::validation::ValidationGuard;
use flow_lenia_gpu::words::bytes_to_words;

fn inputs(cfg: &FlowLeniaConfig) -> RunInputs {
    let k = cfg.num_kernels as usize;
    RunInputs {
        bank: KernelBank {
            params: KernelParams {
                kernels: (0..k)
                    .map(|i| KernelEntry { c0: i as u32 % cfg.channels, c1: 0, h: 1, mu: 2, sigma: 3 })
                    .collect(),
            },
            images: (0..k).map(|_| KernelImage::zeros(5, 5)).collect(),
            radii: vec![2; k],
        },
        initial_a: ActivationField::zeros(
            cfg.grid_height as usize,
            cfg.grid_width as usize,
            cfg.channels as usize,
        ),
        twiddles: vec![(0, 0); cfg.grid_width as usize],
        area_w: CANVAS_W - SIDE_PANEL_W,
        area_h: CANVAS_H,
    }
}

fn ready_state(ctx: &mut GpuContext) -> AppState {
    let mut encoder = CommandEncoder::new();
    let mut state = AppState::new(ctx, &mut encoder, &inputs(&demo_cfg()));
    let spectra = vec![vec![(0, 0); 64 * 64]; 10];
    state.run.pipeline.install_kernel_ffts(ctx, &spectra);
    state
}

fn still(state: &AppState) -> PanelInput {
    let c = &state.controls;
    PanelInput {
        pause_clicked: false,
        reset_clicked: false,
        screenshot_clicked: false,
        apply_clicked: false,
        new_seed_clicked: false,
        apply_grid_clicked: false,
        paper_strict: c.cfg.paper_strict,
        border: c.cfg.border,
        dt: c.cfg.dt,
        dt_differs: false,
        dd: c.cfg.dd,
        grid: c.pending_grid,
        channels: c.pending_channels,
        num_kernels: c.pending_num_kernels,
    }
}

#[test]
#[should_panic(expected = "WebGPU validation errors")]
fn validation_guard_catches_bad_buffer_copy() {
    let mut guard = ValidationGuard::new();
    guard.capture("Validation: copy of 0..64 would overrun a buffer of 16 bytes".to_string());
    assert!(!guard.errors().is_empty());
    if let Err(report) = guard.assert_no_errors() {
        panic!("{report}");
    }
}

#[test]
fn validation_reports_list_every_error() {
    let mut guard = ValidationGuard::new();
    assert_eq!(guard.assert_no_errors(), Ok(()));
    assert!(guard.errors().is_empty());
    for i in 0..12 {
        guard.capture(format!("e{i}"));
    }
    assert_eq!(guard.errors().len(), 12);
    assert_eq!(guard.errors()[11], "e11");
    let report = guard.assert_no_errors().unwrap_err();
    let lines: Vec<&str> = report.split('\n').collect();
    assert_eq!(lines[0], "WebGPU validation errors detected:");
    assert_eq!(lines[1], "  [0] e0");
    assert_eq!(lines[12], "  [11] e11");
    assert_eq!(lines.len(), 13);
}

#[test]
fn alignment() {
    assert_eq!(align_to(0, 256), 0);
    assert_eq!(align_to(1, 256), 256);
    assert_eq!(align_to(256, 256), 256);
    assert_eq!(align_to(257, 256), 512);
    assert_eq!(align_to(4096, 256), 4096);
}

#[test]
fn texture_rows_are_trimmed() {
    let plan = readback_rgba8_texture(TextureFormat::Rgba8Unorm, 3, 2).unwrap();
    assert_eq!((plan.bytes_per_row, plan.buffer_size), (256, 512));
    assert!(readback_rgba8_texture(TextureFormat::Rgba8UnormSrgb, 64, 64).is_some());
    assert!(readback_rgba8_texture(TextureFormat::Other, 3, 2).is_none());
    let mut bytes = vec![0xee_u8; 512];
    for i in 0..12 {
        bytes[i] = i as u8;
        bytes[256 + i] = 100 + i as u8;
    }
    let image = strip_row_padding(&bytes, 3, 2);
    let expected: Vec<u8> = (0..12).chain(100..112).collect();
    assert_eq!(image, expected);
    let whole: Vec<u8> = (0..512).map(|i| (i % 251) as u8).collect();
    assert_eq!(strip_row_padding(&whole, 64, 2), whole);
}

#[test]
fn screenshots_are_planned() {
    let mut ctx = GpuContext::new();
    let mut encoder = CommandEncoder::new();
    let a = Buffer { id: 99 };
    let plan = plan_screenshot(&mut ctx, &mut encoder, 64, 64, 3, a);
    assert_eq!(plan.visualize.upscale(), 16);
    assert_eq!((plan.readback.width, plan.readback.height), (1024, 1024));
    assert_eq!(plan.readback.bytes_per_row, 4096);
    assert_eq!(plan.readback.buffer_size, 4096 * 1024);
    assert_eq!(
        bytes_to_words(ctx.buffers[0].contents.as_ref().unwrap()),
        Some(vec![64, 64, 3, 16])
    );
    match encoder.commands[0] {
        Command::Draw { shader, bind_group, vertices, viewport, .. } => {
            assert_eq!(shader, Shader::Visualize);
            assert_eq!((bind_group.b0, bind_group.b1), (a, plan.globals));
            assert_eq!(vertices, 3);
            assert_eq!(viewport, None);
        }
        _ => panic!("not a draw"),
    }
    let large = plan_screenshot(&mut ctx, &mut encoder, 2000, 30, 1, a);
    assert_eq!(large.visualize.upscale(), 1);
    assert_eq!((large.readback.width, large.readback.height), (2000, 30));
    let odd = plan_screenshot(&mut ctx, &mut encoder, 33, 10, 1, a);
    assert_eq!(odd.visualize.upscale(), 31);
    assert_eq!((odd.readback.width, odd.readback.height), (1023, 310));
    assert_eq!(odd.readback.bytes_per_row, 4096);
}

#[test]
fn screenshots_are_encoded() {
    let mut ctx = GpuContext::new();
    let mut encoder = CommandEncoder::new();
    let plan = plan_screenshot(&mut ctx, &mut encoder, 1024, 1, 3, Buffer { id: 0 });
    let mapped = vec![7_u8; 4096];
    let file = finish_screenshot(&plan, 42, &mapped).unwrap();
    assert_eq!(file.file_name, "flow-lenia-step42-seed1729.png");
    assert_eq!(&file.bytes[0..8], &[0x89, b'P', b'N', b'G', 13, 10, 26, 10]);
    assert_eq!(&file.bytes[16..24], &[0, 0, 4, 0, 0, 0, 0, 1]);
    assert!(matches!(
        finish_screenshot(&plan, 42, &mapped[1..]),
        Err(ScreenshotError::ShortReadback)
    ));
    let flat = plan_screenshot(&mut ctx, &mut encoder, 1024, 0, 3, Buffer { id: 0 });
    assert!(matches!(finish_screenshot(&flat, 1, &[]), Err(ScreenshotError::Encode)));
    assert!(matches!(package_screenshot(1, None), Err(ScreenshotError::Encode)));
    assert_eq!(package_screenshot(0, Some(vec![1])).unwrap().bytes, vec![1]);
    assert_eq!(screenshot_name(u64::MAX), "flow-lenia-step18446744073709551615-seed1729.png");
    assert_eq!(screenshot_name(0), "flow-lenia-step0-seed1729.png");
}

#[test]
fn frames_per_second() {
    let mut fps = FpsCounter::new();
    for _ in 0..59 {
        assert_eq!(fps.tick(0), None);
    }
    assert_eq!(fps.tick(1), Some(60));
    assert_eq!(fps.tick(0), None);
    assert_eq!(fps.tick(3), Some(2));
}

#[test]
fn frame_statistics() {
    assert!(frame_stats(&vec![]).is_none());
    assert_eq!(sort_samples(&vec![3, 1, 2, 1]), vec![1, 1, 2, 3]);
    let samples: Vec<u64> = (1..=100).rev().map(|i| i * 1_000_000).collect();
    let s = frame_stats(&samples).unwrap();
    assert_eq!(s.n, 100);
    assert_eq!(s.sum, 5050 * 1_000_000);
    assert_eq!((s.min, s.max), (1_000_000, 100_000_000));
    assert_eq!((s.p50, s.p95, s.p99), (51_000_000, 96_000_000, 100_000_000));
    assert_eq!((s.slow_30, s.slow_50, s.slow_100), (70, 50, 0));
    let one = frame_stats(&vec![200_000_000]).unwrap();
    assert_eq!((one.p50, one.p99, one.slow_100), (200_000_000, 200_000_000, 1));
}

#[test]
fn frame_timing_reports() {
    let mut d = FrameTimingDiag::new();
    d.tick(0);
    assert!(d.intervals.is_empty());
    d.tick(500_000_000);
    d.tick(1_000_000_001);
    assert_eq!(d.intervals, vec![500_000_000]);
    let mut now = 2_000_000_000;
    d.tick(now);
    assert_eq!(d.intervals.len(), 1);
    for i in 0..299 {
        assert!(d.maybe_report().is_none(), "{i}");
        now += 16_000_000;
        d.tick(now);
        d.record_render(i);
    }
    let r = d.maybe_report().unwrap();
    assert_eq!(r.interval.unwrap().n, 300);
    assert_eq!(r.interval.unwrap().max, 500_000_000);
    assert_eq!(r.interval.unwrap().slow_30, 1);
    assert_eq!(r.render.unwrap().n, 299);
    assert!(d.intervals.is_empty() && d.render_durations.is_empty());
    assert_eq!(d.last_frame_start, Some(now));
}

#[test]
fn layout_of_the_canvas() {
    assert_eq!(compute_visualize_layout(64, 64, 518, 512), (8, 512));
    assert_eq!(compute_visualize_layout(256, 256, 518, 512), (2, 512));
    assert_eq!(compute_visualize_layout(512, 512, 100, 100), (1, 512));
    assert_eq!(compute_visualize_layout(100, 50, 518, 512), (5, 500));
    assert_eq!(resolve_physical_canvas_size(1, 900, 1536, 1024), (1536, 1024));
    assert_eq!(resolve_physical_canvas_size(900, 0, 0, 7), (1, 7));
    assert_eq!(resolve_physical_canvas_size(2, 2, 9, 9), (2, 2));
    assert_eq!(clamp_surface_size(0, 5), (1, 5));
    assert_eq!(choose_surface_format(&[false, true, true]), 1);
    assert_eq!(choose_surface_format(&[false, false]), 0);
    assert_eq!(choose_surface_format(&[true]), 0);
}

#[test]
fn surface_decisions() {
    let all = [
        (SurfaceStatus::Success, false, true),
        (SurfaceStatus::Suboptimal, true, true),
        (SurfaceStatus::Lost, true, false),
        (SurfaceStatus::Outdated, true, false),
        (SurfaceStatus::Timeout, false, false),
        (SurfaceStatus::Occluded, false, false),
        (SurfaceStatus::Validation, false, false),
    ];
    for (status, reconfigure, render) in all {
        let d = decide_frame(status);
        assert_eq!((d.reconfigure, d.render), (reconfigure, render));
    }
}

#[test]
fn the_state_at_start() {
    let cfg = demo_cfg();
    assert_eq!(f32::from_bits(cfg.dt), 0.2);
    assert_eq!(f32::from_bits(cfg.sigma), 0.65);
    assert_eq!(f32::from_bits(cfg.n), 2.0);
    assert_eq!(f32::from_bits(cfg.beta_a), 2.0);
    let mut ctx = GpuContext::new();
    let state = ready_state(&mut ctx);
    let c = &state.controls;
    assert!(c.running && !c.mass_readback_in_flight && c.pending_rebuild.is_none());
    assert_eq!((c.seed, c.steps_per_frame, c.frames_until_mass_readback), (1729, 1, 1));
    assert_eq!((c.pending_grid, c.pending_channels, c.pending_num_kernels), (64, 3, 10));
    assert_eq!(state.cached_mass, vec![0, 0, 0]);
    assert_eq!(state.run.viewport, Viewport { x: 0, y: 0, width: 512, height: 512 });
    assert_eq!(state.run.visualize.upscale(), 8);
    let mut bad = inputs(&cfg);
    bad.initial_a = ActivationField::zeros(1, 1, 1);
    assert_eq!(bad.check(&cfg), Some(PipelineError::ShapeMismatch));
    assert_eq!(inputs(&cfg).check(&cfg), None);
}

#[test]
fn keys() {
    let mut ctx = GpuContext::new();
    let mut state = ready_state(&mut ctx);
    let press = |key| KeyEvent { key, pressed: true, repeat: false };
    assert_eq!(state.handle_key(press(Key::Space), false), KeyAction::Nothing);
    assert!(!state.controls.running);
    assert_eq!(state.handle_key(press(Key::Space), true), KeyAction::Nothing);
    assert!(!state.controls.running);
    let repeat = KeyEvent { key: Key::Space, pressed: true, repeat: true };
    state.handle_key(repeat, false);
    let release = KeyEvent { key: Key::Space, pressed: false, repeat: false };
    state.handle_key(release, false);
    assert!(!state.controls.running);
    state.handle_key(press(Key::Space), false);
    assert!(state.controls.running);
    for c in ['r', 'R'] {
        assert_eq!(state.handle_key(press(Key::Character(c)), false), KeyAction::Reset);
    }
    for c in ['q', 'Q'] {
        assert_eq!(state.handle_key(press(Key::Character(c)), false), KeyAction::Exit);
    }
    assert_eq!(state.handle_key(press(Key::Character('x')), false), KeyAction::Nothing);
    assert_eq!(state.handle_key(press(Key::Other), false), KeyAction::Nothing);
    assert_eq!(state.handle_key(press(Key::Character('q')), true), KeyAction::Nothing);
}

#[test]
fn pausing_freezes_the_step_counter() {
    let mut ctx = GpuContext::new();
    let mut state = ready_state(&mut ctx);
    assert_eq!(state.step_frame(&mut ctx).len(), 1);
    assert_eq!(state.run.pipeline.step_count(), 1);
    state.controls.running = false;
    let before = ctx.buffers.len();
    assert!(state.step_frame(&mut ctx).is_empty());
    assert_eq!(state.run.pipeline.step_count(), 1);
    assert_eq!(ctx.buffers.len(), before);
    let mut encoder = CommandEncoder::new();
    state.record_frame(&mut encoder);
    match encoder.commands[0] {
        Command::Draw { bind_group, viewport, .. } => {
            assert_eq!(bind_group.b0, state.run.pipeline.current_activation_buffer());
            assert_eq!(viewport, Some(state.run.viewport));
        }
        _ => panic!("not a draw"),
    }
}

#[test]
fn mass_is_read_back_now_and_then() {
    let mut ctx = GpuContext::new();
    let mut state = ready_state(&mut ctx);
    assert!(state.finish_frame());
    assert!(state.controls.mass_readback_in_flight);
    assert_eq!(state.controls.frames_until_mass_readback, 30);
    for _ in 0..40 {
        assert!(!state.finish_frame());
    }
    assert_eq!(state.controls.frames_until_mass_readback, 0);
    state.mass_readback_done(vec![1, 2, 3]);
    assert_eq!(state.cached_mass, vec![1, 2, 3]);
    assert!(state.finish_frame());
    state.mass_readback_done(vec![1, 2, 3]);
    for _ in 0..29 {
        assert!(!state.finish_frame());
    }
    assert!(state.finish_frame());
    state.mass_readback_done(vec![]);
    state.controls.running = false;
    state.controls.frames_until_mass_readback = 1;
    assert!(!state.finish_frame());
    assert_eq!(state.controls.frames_until_mass_readback, 1);
    let mut encoder = CommandEncoder::new();
    let staging = state.trigger_mass_readback(&mut ctx, &mut encoder);
    assert_eq!(ctx.buffers[staging.id].size, 64 * 64 * 3 * 4);
    assert_eq!(split_channels(&[1, 2, 3, 4, 5, 6], 3, 2), vec![vec![1, 2], vec![3, 4], vec![5, 6]]);
    assert!(split_channels(&[1, 2], 0, 2).is_empty());
}

#[test]
fn an_idle_panel_changes_nothing() {
    let mut ctx = GpuContext::new();
    let mut state = ready_state(&mut ctx);
    let before = state.controls;
    let mut encoder = CommandEncoder::new();
    let panel = still(&state);
    let mut draw = CommandEncoder::new();
    assert_eq!(state.apply_panel(&mut ctx, &mut encoder, &mut draw, &panel, None), None);
    assert_eq!(state.controls, before);
    assert!(ctx.writes.is_empty() && encoder.commands.is_empty() && draw.commands.is_empty());
}

#[test]
fn panel_parameters_take_effect_at_once() {
    let mut ctx = GpuContext::new();
    let mut state = ready_state(&mut ctx);
    let mut encoder = CommandEncoder::new();
    let mut panel = still(&state);
    panel.border = BorderMode::Wall;
    panel.dd = 7;
    panel.grid = 128;
    panel.screenshot_clicked = true;
    panel.pause_clicked = true;
    panel.apply_grid_clicked = true;
    let mut draw = CommandEncoder::new();
    let shot = state.apply_panel(&mut ctx, &mut encoder, &mut draw, &panel, None).unwrap();
    assert_eq!((shot.step, shot.plan.readback.width, draw.commands.len()), (0, 1024, 1));
    assert_eq!((shot.plan.visualize.upscale(), state.controls.cfg.grid_height), (16, 128));
    assert!(!state.controls.running);
    assert_eq!(state.controls.cfg.border, BorderMode::Wall);
    assert_eq!((state.controls.cfg.dd, state.controls.cfg.grid_width), (7, 128));
    assert_eq!(state.controls.pending_grid, 128);
    assert_eq!(ctx.writes.len(), 1);
    assert_eq!(ctx.writes[0].buffer, state.run.pipeline.buffers.globals);
    let words = bytes_to_words(&ctx.writes[0].bytes).unwrap();
    assert_eq!((words[0], words[6], words[10]), (64, 1, 7));
}

#[test]
fn panel_requests_have_an_order() {
    let mut ctx = GpuContext::new();
    let mut state = ready_state(&mut ctx);
    let mut encoder = CommandEncoder::new();
    let mut panel = still(&state);
    panel.grid = 32;
    panel.channels = 1;
    panel.num_kernels = 4;
    panel.new_seed_clicked = true;
    state.apply_panel(&mut ctx, &mut encoder, &mut CommandEncoder::new(), &panel, None);
    assert_eq!(state.controls.pending_rebuild, Some(RebuildRequest::NewSeed));
    assert_eq!(state.controls.cfg.num_kernels, 10);
    panel.apply_clicked = true;
    state.apply_panel(&mut ctx, &mut encoder, &mut CommandEncoder::new(), &panel, None);
    assert_eq!(state.controls.pending_rebuild, Some(RebuildRequest::ApplyKernelCount));
    assert_eq!((state.controls.cfg.num_kernels, state.controls.cfg.channels), (4, 3));
    panel.apply_grid_clicked = true;
    state.apply_panel(&mut ctx, &mut encoder, &mut CommandEncoder::new(), &panel, None);
    let cfg = state.controls.cfg;
    assert_eq!((cfg.grid_width, cfg.grid_height, cfg.channels, cfg.num_kernels), (32, 32, 1, 4));
    let plan = state.rebuild_request().unwrap();
    assert_eq!(plan.request, RebuildRequest::ApplyGridAndChannels);
    assert_eq!((plan.cfg, plan.seed), (cfg, 1729));
    let next = inputs(&cfg);
    assert!(next.is_accepted(&cfg));
    state.controls.running = false;
    state.serve_rebuild(&mut ctx, &mut encoder, &next);
    assert_eq!(state.rebuild_request(), None);
    assert!(state.controls.running);
    let before = ctx.buffers.len();
    state.serve_rebuild(&mut ctx, &mut encoder, &next);
    assert_eq!(ctx.buffers.len(), before);
    assert_eq!(state.cached_mass.len(), 1);
    assert_eq!(state.run.visualize.upscale(), 16);
    assert_eq!(state.run.pipeline.width, 32);
}

#[test]
fn seeds_go_around() {
    let mut ctx = GpuContext::new();
    let mut state = ready_state(&mut ctx);
    let mut encoder = CommandEncoder::new();
    let fresh = inputs(&demo_cfg());
    state.controls.pending_rebuild = Some(RebuildRequest::NewSeed);
    assert_eq!(state.rebuild_request().unwrap().seed, 1730);
    state.serve_rebuild(&mut ctx, &mut encoder, &fresh);
    assert_eq!(state.controls.seed, 1730);
    state.controls.seed = u64::MAX;
    state.controls.pending_rebuild = Some(RebuildRequest::NewSeed);
    state.serve_rebuild(&mut ctx, &mut encoder, &fresh);
    assert_eq!((state.controls.seed, state.controls.pending_rebuild), (0, None));
}

#[test]
fn reset_returns_to_the_demo() {
    let mut ctx = GpuContext::new();
    let mut state = ready_state(&mut ctx);
    state.step_frame(&mut ctx);
    state.controls.seed = 5;
    state.controls.running = false;
    state.mass_readback_done(vec![9]);
    let mut moved = still(&state);
    moved.dt = 0.4_f32.to_bits();
    moved.dt_differs = true;
    moved.dd = 7;
    moved.border = BorderMode::Wall;
    moved.paper_strict = true;
    moved.grid = 128;
    moved.channels = 1;
    moved.num_kernels = 4;
    let mut draw = CommandEncoder::new();
    state.apply_panel(&mut ctx, &mut CommandEncoder::new(), &mut draw, &moved, None);
    assert_eq!((f32::from_bits(state.controls.cfg.dt), state.controls.pending_grid), (0.4, 128));
    ctx.take_writes();
    let mut panel = still(&state);
    panel.reset_clicked = true;
    panel.pause_clicked = true;
    panel.dt_differs = true;
    panel.screenshot_clicked = true;
    let mut encoder = CommandEncoder::new();
    let fresh = inputs(&demo_cfg());
    assert!(fresh.is_accepted(&demo_cfg()) && state.controls.can_screenshot());
    let mut by_key = ready_state(&mut GpuContext::new());
    by_key.controls = state.controls;
    by_key.reset_simulation(&mut GpuContext::new(), &mut CommandEncoder::new(), &fresh);
    let shot = state.apply_panel(&mut ctx, &mut encoder, &mut draw, &panel, Some(&fresh)).unwrap();
    assert_eq!(shot.step, 0);
    assert_eq!(shot.plan.bind_group.b0, state.run.pipeline.current_activation_buffer());
    assert_eq!(state.controls, by_key.controls);
    assert_eq!(state.controls.cfg, demo_cfg());
    let c = &state.controls;
    assert_eq!((c.pending_grid, c.pending_channels, c.pending_num_kernels), (64, 3, 10));
    assert!(ctx.writes.is_empty());
    assert_eq!(state.controls.seed, 1729);
    assert!(state.controls.running);
    assert_eq!(state.cached_mass, vec![0, 0, 0]);
    assert_eq!(state.run.pipeline.step_count(), 0);
    assert_eq!(encoder.commands.len(), 40);
    let plan = state.trigger_screenshot(&mut ctx, &mut encoder);
    assert_eq!(plan.bind_group.b0, state.run.pipeline.current_activation_buffer());
    state.reset_simulation(&mut ctx, &mut encoder, &fresh);
    assert_eq!(state.controls.seed, 1729);
}

#[test]
fn a_device_accepts_every_frame() {
    let mut ctx = GpuContext::new();
    let mut state = ready_state(&mut ctx);
    for _ in 0..2 {
        let mut encoder = CommandEncoder::new();
        state.record_frame(&mut encoder);
        let staging = state.trigger_mass_readback(&mut ctx, &mut encoder);
        match encoder.commands[0] {
            Command::Draw { bind_group, vertices, .. } => {
                assert!(ctx.buffers[bind_group.b0.id].usage.storage);
                assert!(ctx.buffers[bind_group.b1.id].usage.uniform);
                assert_eq!((bind_group.b2, vertices), (None, 3));
            }
            _ => panic!("not a draw"),
        }
        match encoder.commands[1] {
            Command::Copy { src, dst, size, .. } => {
                assert_eq!((dst, size), (staging, 64 * 64 * 3 * 4));
                assert!(ctx.buffers[src.id].usage.copy_src && ctx.buffers[dst.id].usage.copy_dst);
                assert_eq!((ctx.buffers[src.id].size, ctx.buffers[dst.id].size), (size, size));
            }
            _ => panic!("not a copy"),
        }
        state.step_frame(&mut ctx);
    }
}

#[test]
fn a_staged_grid_does_not_change_what_is_read_back() {
    let mut ctx = GpuContext::new();
    let mut state = ready_state(&mut ctx);
    let mut panel = still(&state);
    panel.grid = 128;
    panel.apply_grid_clicked = true;
    let mut encoder = CommandEncoder::new();
    state.apply_panel(&mut ctx, &mut encoder, &mut CommandEncoder::new(), &panel, None);
    assert_eq!(state.controls.cfg.grid_width, 128);
    let staging = state.trigger_mass_readback(&mut ctx, &mut encoder);
    assert_eq!(ctx.buffers[staging.id].size, 49152);
    let source = state.run.pipeline.current_activation_buffer();
    assert_eq!(ctx.buffers[source.id].size, 49152);
    let next = inputs(&state.controls.cfg);
    state.serve_rebuild(&mut ctx, &mut encoder, &next);
    let staging = state.trigger_mass_readback(&mut ctx, &mut encoder);
    assert_eq!(ctx.buffers[staging.id].size, 196608);
}

#[test]
fn a_request_along_with_a_reset_still_stands() {
    let mut ctx = GpuContext::new();
    let mut state = ready_state(&mut ctx);
    let fresh = inputs(&demo_cfg());
    let mut panel = still(&state);
    panel.reset_clicked = true;
    panel.new_seed_clicked = true;
    panel.dd = 7;
    panel.grid = 128;
    panel.channels = 2;
    panel.num_kernels = 4;
    let mut startup = CommandEncoder::new();
    let mut draw = CommandEncoder::new();
    state.apply_panel(&mut ctx, &mut startup, &mut draw, &panel, Some(&fresh));
    assert_eq!(state.controls.cfg, demo_cfg());
    assert_eq!(state.controls.pending_rebuild, Some(RebuildRequest::NewSeed));
    assert_eq!((state.controls.seed, state.rebuild_request().unwrap().seed), (1729, 1730));
    assert_eq!((state.controls.pending_grid, state.controls.pending_num_kernels), (64, 10));
    panel.apply_clicked = true;
    state.apply_panel(&mut ctx, &mut startup, &mut draw, &panel, Some(&fresh));
    assert_eq!(state.controls.pending_rebuild, Some(RebuildRequest::ApplyKernelCount));
    assert_eq!((state.controls.cfg.num_kernels, state.controls.cfg.grid_width), (4, 64));
    panel.apply_grid_clicked = true;
    state.apply_panel(&mut ctx, &mut startup, &mut draw, &panel, Some(&fresh));
    assert_eq!(state.controls.pending_rebuild, Some(RebuildRequest::ApplyGridAndChannels));
    let cfg = state.controls.cfg;
    assert_eq!((cfg.grid_width, cfg.grid_height, cfg.channels, cfg.num_kernels), (128, 128, 2, 4));
    assert_eq!((cfg.dd, state.controls.pending_grid), (5, 128));
    assert!(ctx.writes.is_empty());
    assert_eq!(state.run.pipeline.width, 64);
}
