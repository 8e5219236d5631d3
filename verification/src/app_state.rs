//! The interactive front end: what a frame, a key or a button does.
//!
//! The state of the front end is plain data. Whatever needs the window, the
//! surface or a clock happens outside and is handed in.

use crate::canvas::{compute_visualize_layout, layout_scale, square};
use crate::config::{BorderMode, FlowLeniaConfig};
use crate::device::{
    zeroed, BindGroup, Buffer, BufferSpec, BufferUsages, Command, CommandEncoder, GpuContext,
    Viewport,
};
use crate::field::ActivationField;
use crate::globals::GpuGlobals;
use crate::kernel_buffers::KernelBank;
use crate::passes::visualize::{visualize_buffer, VisualizeGlobals, VisualizePass};
use crate::pipeline::{
    build_requires, can_build, check_pipeline, pipeline_error, pipeline_specs, repeated, startup_commands,
    AffinityMode, ConvolveMode, GpuStepPipeline, PipelineError,
};
use crate::readback::whole_copy;
use crate::screenshot::{
    larger, plan_screenshot, screenshot_possible, screenshot_scale, ScreenshotPlan, SEED,
};
use crate::texture_readback::padded_row_bytes;
use crate::words::{word_bytes, F32Bits};
use vstd::prelude::*;

verus! {

/// Side of the grid at start.
pub const GRID_W: u32 = 64;

/// Side of the grid at start.
pub const GRID_H: u32 = 64;

/// Frames between two mass readbacks.
pub const MASS_READBACK_INTERVAL: u32 = 30;

/// The configuration at start: time step 0.2, half width 0.65, exponent and
/// critical mass 2.
pub open spec fn demo() -> FlowLeniaConfig {
    FlowLeniaConfig {
        grid_width: GRID_W,
        grid_height: GRID_H,
        channels: 3,
        dt: 0x3e4c_cccd,
        sigma: 0x3f26_6666,
        n: 0x4000_0000,
        beta_a: 0x4000_0000,
        dd: 5,
        num_kernels: 10,
        paper_strict: false,
        border: BorderMode::Torus,
    }
}

/// The configuration at start.
pub fn demo_cfg() -> (cfg: FlowLeniaConfig)
    ensures
        cfg == demo(),
{
    FlowLeniaConfig {
        grid_width: GRID_W,
        grid_height: GRID_H,
        channels: 3,
        dt: 0x3e4c_cccd,
        sigma: 0x3f26_6666,
        n: 0x4000_0000,
        beta_a: 0x4000_0000,
        dd: 5,
        num_kernels: 10,
        paper_strict: false,
        border: BorderMode::Torus,
    }
}

/// Why the pipeline is to be rebuilt before the next step.
#[derive(Clone, Copy, Debug, PartialEq, Eq, Structural)]
pub enum RebuildRequest {
    /// Another number of kernels, same seed.
    ApplyKernelCount,
    /// The next seed.
    NewSeed,
    /// Another grid or number of channels.
    ApplyGridAndChannels,
}

/// A key, as far as the front end tells keys apart.
#[derive(Clone, Copy, Debug, PartialEq, Eq, Structural)]
pub enum Key {
    Space,
    Character(char),
    Other,
}

/// A key event.
#[derive(Clone, Copy, Debug, PartialEq, Eq, Structural)]
pub struct KeyEvent {
    pub key: Key,
    pub pressed: bool,
    pub repeat: bool,
}

/// What is left to do after a key event.
#[derive(Clone, Copy, Debug, PartialEq, Eq, Structural)]
pub enum KeyAction {
    Nothing,
    /// The simulation is to be reset.
    Reset,
    /// The program is to end.
    Exit,
}

/// What the panel shows after the user has had a turn: which buttons were
/// clicked and where the controls stand.
#[derive(Clone, Copy, Debug, PartialEq, Eq, Structural)]
pub struct PanelInput {
    pub pause_clicked: bool,
    pub reset_clicked: bool,
    pub screenshot_clicked: bool,
    pub apply_clicked: bool,
    pub new_seed_clicked: bool,
    pub apply_grid_clicked: bool,
    pub paper_strict: bool,
    pub border: BorderMode,
    pub dt: F32Bits,
    /// Whether `dt` differs noticeably from the one of the configuration.
    pub dt_differs: bool,
    pub dd: u32,
    pub grid: u32,
    pub channels: u32,
    pub num_kernels: u32,
}

/// The settings of the front end.
#[derive(Clone, Copy, Debug, PartialEq, Eq, Structural)]
pub struct Controls {
    pub running: bool,
    pub steps_per_frame: u32,
    pub frames_until_mass_readback: u32,
    pub mass_readback_in_flight: bool,
    pub cfg: FlowLeniaConfig,
    pub seed: u64,
    /// Staged until they are applied.
    pub pending_grid: u32,
    pub pending_channels: u32,
    pub pending_num_kernels: u32,
    pub pending_rebuild: Option<RebuildRequest>,
}

impl Controls {
    /// The settings at start.
    pub open spec fn initial() -> Controls {
        Controls {
            running: true,
            steps_per_frame: 1,
            frames_until_mass_readback: 1,
            mass_readback_in_flight: false,
            cfg: demo(),
            seed: SEED,
            pending_grid: demo().grid_width,
            pending_channels: demo().channels,
            pending_num_kernels: demo().num_kernels,
            pending_rebuild: None,
        }
    }

    /// Running or paused, the other way round.
    pub open spec fn toggled(self) -> Controls {
        Controls { running: !self.running, ..self }
    }

    /// After the pipeline was rebuilt: running, with a mass readback due.
    pub open spec fn rebuilt(self) -> Controls {
        Controls { running: true, frames_until_mass_readback: 1, ..self }
    }

    /// The configuration, the seed and the staged values as at start.
    pub open spec fn restored(self) -> Controls {
        Controls {
            seed: SEED,
            cfg: demo(),
            pending_grid: demo().grid_width,
            pending_channels: demo().channels,
            pending_num_kernels: demo().num_kernels,
            ..self
        }
    }

    /// After pause and reset were seen to.
    pub open spec fn after_buttons(self, panel: PanelInput) -> Controls {
        let paused = if panel.pause_clicked {
            self.toggled()
        } else {
            self
        };
        if panel.reset_clicked {
            paused.restored().rebuilt()
        } else {
            paused
        }
    }

    /// The panel moved one of the parameters that take effect at once.
    pub open spec fn parameters_moved(self, panel: PanelInput) -> bool {
        ||| panel.paper_strict != self.cfg.paper_strict
        ||| panel.border != self.cfg.border
        ||| panel.dt_differs
        ||| panel.dd != self.cfg.dd
    }

    /// With the parameters that take effect at once, and the staged values, of
    /// the panel.
    pub open spec fn with_parameters(self, panel: PanelInput) -> Controls {
        Controls {
            cfg: FlowLeniaConfig {
                paper_strict: panel.paper_strict,
                border: panel.border,
                dt: panel.dt,
                dd: panel.dd,
                ..self.cfg
            },
            pending_grid: panel.grid,
            pending_channels: panel.channels,
            pending_num_kernels: panel.num_kernels,
            ..self
        }
    }

    /// With the staged values that the panel shows applied and a rebuild asked
    /// for, as the buttons say. Of several buttons the grid comes first, then
    /// the kernel count, then the seed.
    pub open spec fn with_requests(self, panel: PanelInput) -> Controls {
        if panel.apply_grid_clicked {
            Controls {
                cfg: FlowLeniaConfig {
                    grid_width: panel.grid,
                    grid_height: panel.grid,
                    channels: panel.channels,
                    num_kernels: panel.num_kernels,
                    ..self.cfg
                },
                pending_grid: panel.grid,
                pending_channels: panel.channels,
                pending_num_kernels: panel.num_kernels,
                pending_rebuild: Some(RebuildRequest::ApplyGridAndChannels),
                ..self
            }
        } else if panel.apply_clicked {
            Controls {
                cfg: FlowLeniaConfig { num_kernels: panel.num_kernels, ..self.cfg },
                pending_num_kernels: panel.num_kernels,
                pending_rebuild: Some(RebuildRequest::ApplyKernelCount),
                ..self
            }
        } else if panel.new_seed_clicked {
            Controls { pending_rebuild: Some(RebuildRequest::NewSeed), ..self }
        } else {
            self
        }
    }

    /// After everything on the panel was seen to. A reset forgets what the panel
    /// showed before it; a request that was clicked along with it still stands.
    pub open spec fn after_panel(self, panel: PanelInput) -> Controls {
        if panel.reset_clicked {
            self.restored().rebuilt().with_requests(panel)
        } else {
            self.after_buttons(panel).with_parameters(panel).with_requests(panel)
        }
    }

    /// The seed that the next rebuild uses: the next one, around the end, where
    /// a new one was asked for.
    pub open spec fn rebuild_seed(self) -> u64 {
        if self.pending_rebuild == Some(RebuildRequest::NewSeed) {
            if self.seed == u64::MAX {
                0
            } else {
                (self.seed + 1) as u64
            }
        } else {
            self.seed
        }
    }

    /// After a rebuild request was taken: a new seed where that was asked for.
    pub open spec fn after_request(self) -> Controls {
        Controls { seed: self.rebuild_seed(), pending_rebuild: None, ..self }
    }

    /// A screenshot of the grid can be copied: the grid is not empty and the
    /// bytes of a row can be counted.
    pub open spec fn screenshot_fits(self) -> bool {
        let (w, h) = (self.cfg.grid_width as int, self.cfg.grid_height as int);
        0 < larger(w, h) && padded_row_bytes(w * screenshot_scale(w, h)) <= u32::MAX
    }

    /// The parameters of the draw of a screenshot.
    pub open spec fn screenshot_buffer(self) -> BufferSpec {
        visualize_buffer(
            VisualizeGlobals {
                h: self.cfg.grid_height,
                w: self.cfg.grid_width,
                c: self.cfg.channels,
                upscale: screenshot_scale(
                    self.cfg.grid_width as int,
                    self.cfg.grid_height as int,
                ) as u32,
            },
        )
    }

    /// Frames left until the next mass readback, after this one.
    pub open spec fn counted_down(self) -> u32 {
        if self.frames_until_mass_readback == 0 {
            0
        } else {
            (self.frames_until_mass_readback - 1) as u32
        }
    }

    /// A mass readback starts at the end of this frame.
    pub open spec fn mass_due(self) -> bool {
        self.running && self.counted_down() == 0 && !self.mass_readback_in_flight
    }

    /// After the end of a frame.
    pub open spec fn after_frame(self) -> Controls {
        if !self.running {
            self
        } else if self.mass_due() {
            Controls {
                frames_until_mass_readback: MASS_READBACK_INTERVAL,
                mass_readback_in_flight: true,
                ..self
            }
        } else {
            Controls { frames_until_mass_readback: self.counted_down(), ..self }
        }
    }
}

impl Controls {
    /// Whether a screenshot of the grid can be copied.
    pub fn can_screenshot(&self) -> (can: bool)
        ensures
            can == self.screenshot_fits(),
    {
        screenshot_possible(self.cfg.grid_width, self.cfg.grid_height)
    }

    /// Takes over the parameters that take effect at once, and the staged
    /// values; says whether one of the former moved.
    pub fn take_parameters(&mut self, panel: &PanelInput) -> (moved: bool)
        ensures
            moved == old(self).parameters_moved(*panel),
            *final(self) == old(self).with_parameters(*panel),
    {
        let moved: bool = panel.paper_strict != self.cfg.paper_strict || panel.border
            != self.cfg.border || panel.dt_differs || panel.dd != self.cfg.dd;
        self.cfg.paper_strict = panel.paper_strict;
        self.cfg.border = panel.border;
        self.cfg.dt = panel.dt;
        self.cfg.dd = panel.dd;
        self.pending_grid = panel.grid;
        self.pending_channels = panel.channels;
        self.pending_num_kernels = panel.num_kernels;
        moved
    }

    /// Applies the staged values that the panel shows and asks for a rebuild, as
    /// the buttons say.
    pub fn take_requests(&mut self, panel: &PanelInput)
        ensures
            *final(self) == old(self).with_requests(*panel),
    {
        if panel.apply_grid_clicked {
            self.cfg.grid_width = panel.grid;
            self.cfg.grid_height = panel.grid;
            self.cfg.channels = panel.channels;
            self.cfg.num_kernels = panel.num_kernels;
            self.pending_grid = panel.grid;
            self.pending_channels = panel.channels;
            self.pending_num_kernels = panel.num_kernels;
            self.pending_rebuild = Some(RebuildRequest::ApplyGridAndChannels);
        } else if panel.apply_clicked {
            self.cfg.num_kernels = panel.num_kernels;
            self.pending_num_kernels = panel.num_kernels;
            self.pending_rebuild = Some(RebuildRequest::ApplyKernelCount);
        } else if panel.new_seed_clicked {
            self.pending_rebuild = Some(RebuildRequest::NewSeed);
        }
    }
}

/// What only the simulator and the window can tell, for one run.
pub struct RunInputs {
    pub bank: KernelBank,
    pub initial_a: ActivationField,
    /// Twiddle factors for the side of the grid.
    pub twiddles: Vec<(F32Bits, F32Bits)>,
    /// The area beside the panel, in pixels.
    pub area_w: u32,
    pub area_h: u32,
}

impl RunInputs {
    /// A run of `cfg` can be built from the inputs.
    pub open spec fn accepted(self, cfg: FlowLeniaConfig) -> bool {
        &&& build_requires(cfg, self.bank, ConvolveMode::Auto, self.twiddles@)
        &&& pipeline_error(
            cfg,
            self.bank,
            self.initial_a,
            ConvolveMode::Auto,
            AffinityMode::Constant,
            None,
        ) is None
        &&& 0 < larger(cfg.grid_width as int, cfg.grid_height as int)
    }

    /// Pixels per cell.
    pub open spec fn scale(self, cfg: FlowLeniaConfig) -> int {
        layout_scale(
            cfg.grid_width as int,
            cfg.grid_height as int,
            self.area_w as int,
            self.area_h as int,
        )
    }

    /// The buffers of a run: those of its pipeline, and the parameters of the
    /// draw.
    pub open spec fn run_specs(self, cfg: FlowLeniaConfig) -> Seq<BufferSpec> {
        pipeline_specs(
            cfg,
            self.bank,
            self.initial_a,
            ConvolveMode::Auto,
            AffinityMode::Constant,
            self.twiddles@,
        ).push(
            visualize_buffer(
                VisualizeGlobals {
                    h: cfg.grid_height,
                    w: cfg.grid_width,
                    c: cfg.channels,
                    upscale: self.scale(cfg) as u32,
                },
            ),
        )
    }

    /// Whether a run of `cfg` can be built from the inputs.
    pub fn is_accepted(&self, cfg: &FlowLeniaConfig) -> (accepted: bool)
        ensures
            accepted == self.accepted(*cfg),
    {
        can_build(cfg, &self.bank, ConvolveMode::Auto, &self.twiddles) && self.check(cfg).is_none()
            && (cfg.grid_width > 0 || cfg.grid_height > 0)
    }

    /// Why no pipeline for `cfg` can be built from the inputs, if none can.
    pub fn check(&self, cfg: &FlowLeniaConfig) -> (error: Option<PipelineError>)
        requires
            build_requires(*cfg, self.bank, ConvolveMode::Auto, self.twiddles@),
        ensures
            error == pipeline_error(
                *cfg,
                self.bank,
                self.initial_a,
                ConvolveMode::Auto,
                AffinityMode::Constant,
                None,
            ),
    {
        match check_pipeline(
            cfg,
            &self.bank,
            &self.initial_a,
            ConvolveMode::Auto,
            AffinityMode::Constant,
            None,
        ) {
            Ok(_) => None,
            Err(e) => Some(e),
        }
    }
}

/// The run that is being shown.
#[derive(Debug)]
pub struct Run {
    pub pipeline: GpuStepPipeline,
    pub visualize: VisualizePass,
    pub visualize_globals: Buffer,
    /// The part of the canvas that the grid is drawn in.
    pub viewport: Viewport,
}

impl Run {
    /// The run of `cfg` as it is built, with buffers from `base` on.
    pub open spec fn is_built(self, base: int, cfg: FlowLeniaConfig, inputs: RunInputs) -> bool {
        &&& self.pipeline.wf()
        &&& self.pipeline.is_built(
            base,
            cfg,
            inputs.bank,
            ConvolveMode::Auto,
            AffinityMode::Constant,
        )
        &&& self.visualize == VisualizePass::of(inputs.scale(cfg) as u32)
        &&& self.visualize_globals.id == base + inputs.run_specs(cfg).len() - 1
        &&& self.viewport == square(
            (inputs.scale(cfg) * larger(cfg.grid_width as int, cfg.grid_height as int)) as u32,
        )
    }

    /// Builds the run of `cfg`: its pipeline and its draw.
    fn build(
        ctx: &mut GpuContext,
        encoder: &mut CommandEncoder,
        cfg: &FlowLeniaConfig,
        inputs: &RunInputs,
    ) -> (run: Run)
        requires
            inputs.accepted(*cfg),
        ensures
            run.is_built(old(ctx)@.len() as int, *cfg, *inputs),
            final(ctx)@ == old(ctx)@ + inputs.run_specs(*cfg),
            final(ctx).queue() == old(ctx).queue(),
            final(encoder)@ == old(encoder)@ + startup_commands(
                old(ctx)@.len() as int,
                *cfg,
                inputs.bank,
                ConvolveMode::Auto,
                AffinityMode::Constant,
            ),
    {
        let built = GpuStepPipeline::new(
            ctx,
            encoder,
            cfg,
            &inputs.bank,
            &inputs.initial_a,
            &inputs.twiddles,
        );
        let pipeline = built.unwrap();
        let ghost before = ctx@;
        let (upscale, side) = compute_visualize_layout(
            cfg.grid_width,
            cfg.grid_height,
            inputs.area_w,
            inputs.area_h,
        );
        let visualize = VisualizePass::new(upscale);
        let visualize_globals = visualize.upload_globals(
            ctx,
            cfg.grid_height,
            cfg.grid_width,
            cfg.channels,
        );
        proof {
            assert(ctx@ =~= old(ctx)@ + inputs.run_specs(*cfg));
            assert(ctx.queue() =~= old(ctx).queue());
        }
        let viewport = Viewport { x: 0, y: 0, width: side, height: side };
        Run { pipeline, visualize, visualize_globals, viewport }
    }
}

/// A cell sum of zero for every channel.
pub open spec fn no_mass(channels: u32) -> Seq<F32Bits> {
    Seq::new(channels as nat, |i: int| 0u32)
}

/// A zero for every channel.
fn zero_mass(channels: u32) -> (mass: Vec<F32Bits>)
    ensures
        mass@ == no_mass(channels),
{
    let mut mass: Vec<F32Bits> = Vec::new();
    for i in 0..channels
        invariant
            mass@.len() == i,
            forall|j: int| 0 <= j < i ==> mass@[j] == 0,
    {
        mass.push(0);
    }
    assert(mass@ =~= no_mass(channels));
    mass
}

/// A rebuild that was asked for: why, and what the new run is to be of.
#[derive(Clone, Copy, Debug, PartialEq, Eq, Structural)]
pub struct RebuildPlan {
    pub request: RebuildRequest,
    pub cfg: FlowLeniaConfig,
    pub seed: u64,
}

/// A screenshot to be taken: the step that names it, and its draw and copy.
#[derive(Clone, Copy, Debug, PartialEq, Eq, Structural)]
pub struct Screenshot {
    pub step: u64,
    pub plan: ScreenshotPlan,
}

/// The state of the front end.
#[derive(Debug)]
pub struct AppState {
    pub run: Run,
    pub controls: Controls,
    /// The mass of each channel, as last read back.
    pub cached_mass: Vec<F32Bits>,
}

impl AppState {
    /// The grid, the channels and the number of kernels of the configuration
    /// are those of the run.
    pub open spec fn in_shape(self) -> bool {
        let p = self.run.pipeline;
        &&& self.controls.cfg.grid_height == p.height
        &&& self.controls.cfg.grid_width == p.width
        &&& self.controls.cfg.channels == p.channels
        &&& self.controls.cfg.num_kernels == p.buffers.kernels.count
    }

    /// The pipeline is well formed, and the configuration has the shape of the
    /// run unless a rebuild has been asked for.
    pub open spec fn wf(self) -> bool {
        &&& self.run.pipeline.wf()
        &&& self.controls.pending_rebuild is None ==> self.in_shape()
    }

    /// The state at start: the demo configuration, running.
    pub fn new(ctx: &mut GpuContext, encoder: &mut CommandEncoder, inputs: &RunInputs) -> (state:
        AppState)
        requires
            inputs.accepted(demo()),
        ensures
            state.wf(),
            state.in_shape(),
            state.controls == Controls::initial(),
            state.cached_mass@ == no_mass(3),
            state.run.is_built(old(ctx)@.len() as int, demo(), *inputs),
            final(ctx)@ == old(ctx)@ + inputs.run_specs(demo()),
            final(ctx).queue() == old(ctx).queue(),
            final(encoder)@ == old(encoder)@ + startup_commands(
                old(ctx)@.len() as int,
                demo(),
                inputs.bank,
                ConvolveMode::Auto,
                AffinityMode::Constant,
            ),
    {
        let cfg = demo_cfg();
        let run = Run::build(ctx, encoder, &cfg, inputs);
        let controls = Controls {
            running: true,
            steps_per_frame: 1,
            frames_until_mass_readback: 1,
            mass_readback_in_flight: false,
            cfg,
            seed: SEED,
            pending_grid: cfg.grid_width,
            pending_channels: cfg.channels,
            pending_num_kernels: cfg.num_kernels,
            pending_rebuild: None,
        };
        AppState { run, controls, cached_mass: zero_mass(cfg.channels) }
    }

    /// Builds the run of the current configuration anew. The step count starts
    /// at zero again and the simulation runs.
    pub fn rebuild_pipeline(
        &mut self,
        ctx: &mut GpuContext,
        encoder: &mut CommandEncoder,
        inputs: &RunInputs,
    )
        requires
            inputs.accepted(old(self).controls.cfg),
        ensures
            final(self).wf(),
            final(self).in_shape(),
            final(self).controls == old(self).controls.rebuilt(),
            final(self).cached_mass@ == no_mass(old(self).controls.cfg.channels),
            final(self).run.is_built(
                old(ctx)@.len() as int,
                old(self).controls.cfg,
                *inputs,
            ),
            final(self).run.pipeline.step_count == 0,
            final(ctx)@ == old(ctx)@ + inputs.run_specs(old(self).controls.cfg),
            final(ctx).queue() == old(ctx).queue(),
            final(encoder)@ == old(encoder)@ + startup_commands(
                old(ctx)@.len() as int,
                old(self).controls.cfg,
                inputs.bank,
                ConvolveMode::Auto,
                AffinityMode::Constant,
            ),
    {
        let cfg = self.controls.cfg;
        self.run = Run::build(ctx, encoder, &cfg, inputs);
        self.cached_mass = zero_mass(cfg.channels);
        self.controls.running = true;
        self.controls.frames_until_mass_readback = 1;
    }

    /// Back to the demo configuration and its seed.
    pub fn reset_simulation(
        &mut self,
        ctx: &mut GpuContext,
        encoder: &mut CommandEncoder,
        inputs: &RunInputs,
    )
        requires
            inputs.accepted(demo()),
        ensures
            final(self).wf(),
            final(self).in_shape(),
            final(self).controls == old(self).controls.restored().rebuilt(),
            final(self).cached_mass@ == no_mass(3),
            final(self).run.is_built(old(ctx)@.len() as int, demo(), *inputs),
            final(self).run.pipeline.step_count == 0,
            final(ctx)@ == old(ctx)@ + inputs.run_specs(demo()),
            final(ctx).queue() == old(ctx).queue(),
            final(encoder)@ == old(encoder)@ + startup_commands(
                old(ctx)@.len() as int,
                demo(),
                inputs.bank,
                ConvolveMode::Auto,
                AffinityMode::Constant,
            ),
    {
        self.controls.seed = SEED;
        self.controls.cfg = demo_cfg();
        self.controls.pending_grid = self.controls.cfg.grid_width;
        self.controls.pending_channels = self.controls.cfg.channels;
        self.controls.pending_num_kernels = self.controls.cfg.num_kernels;
        self.rebuild_pipeline(ctx, encoder, inputs);
    }

    /// The rebuild that was asked for, if one was. A new seed is the next one,
    /// around the end.
    pub fn rebuild_request(&self) -> (plan: Option<RebuildPlan>)
        ensures
            plan == match self.controls.pending_rebuild {
                Some(request) => Some(
                    RebuildPlan {
                        request,
                        cfg: self.controls.cfg,
                        seed: self.controls.rebuild_seed(),
                    },
                ),
                None => None,
            },
    {
        match self.controls.pending_rebuild {
            Some(request) => {
                let seed: u64 = match request {
                    RebuildRequest::NewSeed => if self.controls.seed == u64::MAX {
                        0
                    } else {
                        self.controls.seed + 1
                    },
                    _ => self.controls.seed,
                };
                Some(RebuildPlan { request, cfg: self.controls.cfg, seed })
            },
            None => None,
        }
    }

    /// Takes the request to rebuild and serves it with inputs that were sampled
    /// for its plan; nothing happens where there is none. Afterwards the
    /// configuration has the shape of the run.
    pub fn serve_rebuild(
        &mut self,
        ctx: &mut GpuContext,
        encoder: &mut CommandEncoder,
        inputs: &RunInputs,
    )
        requires
            old(self).wf(),
            old(self).controls.pending_rebuild is Some ==> inputs.accepted(old(self).controls.cfg),
        ensures
            final(self).wf(),
            final(self).in_shape(),
            final(self).controls.pending_rebuild is None,
            final(ctx).queue() == old(ctx).queue(),
            old(self).controls.pending_rebuild is None ==> {
                &&& final(self).controls == old(self).controls
                &&& final(self).run == old(self).run
                &&& final(self).cached_mass@ == old(self).cached_mass@
                &&& final(ctx)@ == old(ctx)@
                &&& final(encoder)@ == old(encoder)@
            },
            old(self).controls.pending_rebuild is Some ==> {
                &&& final(self).controls == old(self).controls.after_request().rebuilt()
                &&& final(self).run.is_built(
                    old(ctx)@.len() as int,
                    old(self).controls.cfg,
                    *inputs,
                )
                &&& final(self).run.pipeline.step_count == 0
                &&& final(self).cached_mass@ == no_mass(old(self).controls.cfg.channels)
                &&& final(ctx)@ == old(ctx)@ + inputs.run_specs(old(self).controls.cfg)
                &&& final(encoder)@ == old(encoder)@ + startup_commands(
                    old(ctx)@.len() as int,
                    old(self).controls.cfg,
                    inputs.bank,
                    ConvolveMode::Auto,
                    AffinityMode::Constant,
                )
            },
    {
        if let Some(plan) = self.rebuild_request() {
            self.controls.seed = plan.seed;
            self.controls.pending_rebuild = None;
            self.rebuild_pipeline(ctx, encoder, inputs);
        }
    }

    /// The steps of a frame: as many as are set while running, none while
    /// paused.
    pub fn step_frame(&mut self, ctx: &mut GpuContext) -> (encoders: Vec<CommandEncoder>)
        requires
            old(self).wf(),
            old(self).run.pipeline.ready(),
            old(self).run.pipeline.step_count + old(self).controls.steps_per_frame <= u64::MAX,
        ensures
            final(self).wf(),
            old(self).in_shape() ==> final(self).in_shape(),
            final(self).run.pipeline.ready(),
            final(self).controls == old(self).controls,
            final(self).cached_mass@ == old(self).cached_mass@,
            final(ctx).queue() == old(ctx).queue(),
            final(self).run.visualize == old(self).run.visualize,
            final(self).run.visualize_globals == old(self).run.visualize_globals,
            final(self).run.viewport == old(self).run.viewport,
            encoders@.len() == old(self).controls.steps_due(),
            final(self).run.pipeline.step_count == old(self).run.pipeline.step_count + old(
                self,
            ).controls.steps_due(),
            !old(self).controls.running ==> {
                &&& encoders@.len() == 0
                &&& final(self).run.pipeline == old(self).run.pipeline
                &&& final(ctx)@ == old(ctx)@
            },
            old(self).controls.running ==> {
                let p = old(self).run.pipeline;
                let n = old(self).controls.steps_per_frame;
                &&& encoders@.len() == n
                &&& final(self).run.pipeline == p.at_step(n as int)
                &&& final(ctx)@ == old(ctx)@ + repeated(p.step_specs(), n as nat)
                &&& forall|i: int|
                    0 <= i < n ==> (#[trigger] encoders@[i])@ == p.at_step(i).step_commands(
                        old(ctx)@.len() + i * p.step_specs().len(),
                    )
            },
    {
        if self.controls.running {
            self.run.pipeline.run_steps(ctx, self.controls.steps_per_frame)
        } else {
            Vec::new()
        }
    }

    /// The draw of a frame: the current activation, inside the viewport.
    pub fn record_frame(&self, encoder: &mut CommandEncoder)
        ensures
            final(encoder)@ == old(encoder)@.push(
                self.run.visualize.command(
                    BindGroup::of2(
                        self.run.pipeline.current_a(),
                        self.run.visualize_globals,
                    ),
                    Some(self.run.viewport),
                ),
            ),
    {
        let bg = self.run.visualize.make_bind_group(
            self.run.pipeline.current_activation_buffer(),
            self.run.visualize_globals,
        );
        self.run.visualize.record(encoder, &bg, Some(self.run.viewport));
    }

    /// The end of a frame: counts down to the next mass readback and says
    /// whether it starts now.
    pub fn finish_frame(&mut self) -> (readback_due: bool)
        ensures
            old(self).wf() ==> final(self).wf(),
            readback_due == old(self).controls.mass_due(),
            final(self).controls == old(self).controls.after_frame(),
            final(self).run == old(self).run,
            final(self).cached_mass@ == old(self).cached_mass@,
    {
        if !self.controls.running {
            return false;
        }
        if self.controls.frames_until_mass_readback > 0 {
            self.controls.frames_until_mass_readback = self.controls.frames_until_mass_readback - 1;
        }
        if self.controls.frames_until_mass_readback == 0 && !self.controls.mass_readback_in_flight {
            self.controls.mass_readback_in_flight = true;
            self.controls.frames_until_mass_readback = MASS_READBACK_INTERVAL;
            true
        } else {
            false
        }
    }

    /// Records the readback of the whole of the current activation, for the mass
    /// of its channels.
    pub fn trigger_mass_readback(&self, ctx: &mut GpuContext, encoder: &mut CommandEncoder) -> (staging:
        Buffer)
        requires
            4 * (self.run.pipeline.height * self.run.pipeline.width * self.run.pipeline.channels)
                <= usize::MAX,
        ensures
            ({
                let p = self.run.pipeline;
                let bytes = 4 * (p.height * p.width * p.channels);
                &&& staging.id == old(ctx)@.len()
                &&& final(ctx)@ == old(ctx)@.push(zeroed(bytes, BufferUsages::of_readback()))
                &&& final(ctx).queue() == old(ctx).queue()
                &&& final(encoder)@ == old(encoder)@.push(
                    whole_copy(p.current_a(), staging, bytes),
                )
                &&& final(encoder)@ == old(encoder)@.push(
                    (Command::Copy {
                        src: p.current_a(),
                        src_offset: 0,
                        dst: staging,
                        dst_offset: 0,
                        size: bytes as u64,
                    }),
                )
            }),
    {
        self.run.pipeline.readback_activation(ctx, encoder)
    }

    /// Takes the mass of the channels; the readback is no longer under way.
    pub fn mass_readback_done(&mut self, mass: Vec<F32Bits>)
        ensures
            old(self).wf() ==> final(self).wf(),
            final(self).cached_mass@ == mass@,
            final(self).controls == (Controls {
                mass_readback_in_flight: false,
                ..old(self).controls
            }),
            final(self).run == old(self).run,
    {
        self.cached_mass = mass;
        self.controls.mass_readback_in_flight = false;
    }

    /// Plans a screenshot of the current activation.
    pub fn trigger_screenshot(&self, ctx: &mut GpuContext, encoder: &mut CommandEncoder) -> (plan:
        ScreenshotPlan)
        requires
            self.controls.screenshot_fits(),
        ensures
            plan.wf(),
            plan.globals.id == old(ctx)@.len(),
            plan == ScreenshotPlan::of(
                self.controls.cfg.grid_width,
                self.controls.cfg.grid_height,
                self.run.pipeline.current_a(),
                plan.globals,
            ),
            final(ctx)@ == old(ctx)@.push(self.controls.screenshot_buffer()),
            final(ctx).queue() == old(ctx).queue(),
            final(encoder)@ == old(encoder)@.push(plan.visualize.command(plan.bind_group, None)),
    {
        let cfg = &self.controls.cfg;
        plan_screenshot(
            ctx,
            encoder,
            cfg.grid_width,
            cfg.grid_height,
            cfg.channels,
            self.run.pipeline.current_activation_buffer(),
        )
    }

    /// A key event. Events that the panel took for itself, releases and repeats
    /// do nothing; the space bar pauses and resumes; `r` asks for a reset and
    /// `q` for the end.
    pub fn handle_key(&mut self, event: KeyEvent, consumed: bool) -> (action: KeyAction)
        ensures
            old(self).wf() ==> final(self).wf(),
            final(self).controls == old(self).controls.after_key(event, consumed),
            action == key_action(event, consumed),
            ({
                let live = event.pressed && !event.repeat && !consumed;
                &&& final(self).controls == if live && event.key == Key::Space {
                    old(self).controls.toggled()
                } else {
                    old(self).controls
                }
                &&& action == if live && (event.key == Key::Character('r') || event.key
                    == Key::Character('R')) {
                    KeyAction::Reset
                } else if live && (event.key == Key::Character('q') || event.key
                    == Key::Character('Q')) {
                    KeyAction::Exit
                } else {
                    KeyAction::Nothing
                }
                &&& final(self).run == old(self).run
                &&& final(self).cached_mass@ == old(self).cached_mass@
            }),
    {
        if consumed || !event.pressed || event.repeat {
            return KeyAction::Nothing;
        }
        match event.key {
            Key::Space => {
                self.controls.running = !self.controls.running;
                KeyAction::Nothing
            },
            Key::Character(c) => if c == 'r' || c == 'R' {
                KeyAction::Reset
            } else if c == 'q' || c == 'Q' {
                KeyAction::Exit
            } else {
                KeyAction::Nothing
            },
            Key::Other => KeyAction::Nothing,
        }
    }

    /// The buttons that act at once: pause, then reset. `reset` must hold the
    /// inputs of the demo configuration where a reset was clicked.
    fn press_buttons(
        &mut self,
        ctx: &mut GpuContext,
        encoder: &mut CommandEncoder,
        panel: &PanelInput,
        reset: Option<&RunInputs>,
    )
        requires
            old(self).wf(),
            panel.reset_clicked ==> reset is Some && reset->0.accepted(demo()),
        ensures
            final(self).wf(),
            final(self).controls == old(self).controls.after_buttons(*panel),
            final(ctx).queue() == old(ctx).queue(),
            !panel.reset_clicked ==> {
                &&& final(self).run == old(self).run
                &&& final(self).cached_mass@ == old(self).cached_mass@
                &&& final(ctx)@ == old(ctx)@
                &&& final(encoder)@ == old(encoder)@
            },
            panel.reset_clicked ==> {
                &&& final(self).in_shape()
                &&& final(self).run.pipeline.step_count == 0
                &&& final(self).run.is_built(old(ctx)@.len() as int, demo(), *reset->0)
                &&& final(self).cached_mass@ == no_mass(3)
                &&& final(ctx)@ == old(ctx)@ + reset->0.run_specs(demo())
                &&& final(encoder)@ == old(encoder)@ + startup_commands(
                    old(ctx)@.len() as int,
                    demo(),
                    reset->0.bank,
                    ConvolveMode::Auto,
                    AffinityMode::Constant,
                )
            },
    {
        if panel.pause_clicked {
            self.controls.running = !self.controls.running;
        }
        if panel.reset_clicked {
            if let Some(inputs) = reset {
                self.reset_simulation(ctx, encoder, inputs);
            }
        }
    }

    /// The parameters that take effect at once and the staged values, unless a
    /// reset was clicked, then the requests to rebuild.
    fn take_controls(&mut self, ctx: &mut GpuContext, panel: &PanelInput)
        requires
            old(self).run.pipeline.wf(),
        ensures
            final(self).run == old(self).run,
            final(self).cached_mass@ == old(self).cached_mass@,
            final(ctx)@ == old(ctx)@,
            panel.reset_clicked ==> {
                &&& final(self).controls == old(self).controls.with_requests(*panel)
                &&& final(ctx).queue() == old(ctx).queue()
            },
            !panel.reset_clicked ==> {
                let with = old(self).controls.with_parameters(*panel);
                &&& final(self).controls == with.with_requests(*panel)
                &&& final(ctx).queue() == if old(self).controls.parameters_moved(*panel) {
                    old(ctx).queue().push(parameter_write(old(self).run.pipeline, with.cfg))
                } else {
                    old(ctx).queue()
                }
            },
    {
        if !panel.reset_clicked {
            let moved: bool = self.controls.take_parameters(panel);
            if moved {
                self.run.pipeline.update_globals(ctx, &self.controls.cfg);
            }
        }
        self.controls.take_requests(panel);
    }

    /// Plans a screenshot of the current activation, to be named after the
    /// current step, where one was clicked.
    fn take_screenshot(
        &self,
        ctx: &mut GpuContext,
        draw: &mut CommandEncoder,
        clicked: bool,
    ) -> (screenshot: Option<Screenshot>)
        requires
            clicked ==> self.controls.screenshot_fits(),
        ensures
            screenshot is Some <==> clicked,
            final(ctx).queue() == old(ctx).queue(),
            match screenshot {
                Some(shot) => {
                    &&& shot.step == self.run.pipeline.step_count
                    &&& shot.plan.wf()
                    &&& shot.plan.globals.id == old(ctx)@.len()
                    &&& shot.plan == ScreenshotPlan::of(
                        self.controls.cfg.grid_width,
                        self.controls.cfg.grid_height,
                        self.run.pipeline.current_a(),
                        shot.plan.globals,
                    )
                    &&& final(ctx)@ == old(ctx)@.push(self.controls.screenshot_buffer())
                    &&& final(draw)@ == old(draw)@.push(
                        shot.plan.visualize.command(shot.plan.bind_group, None),
                    )
                },
                None => final(ctx)@ == old(ctx)@ && final(draw)@ == old(draw)@,
            },
    {
        if clicked {
            let plan = self.trigger_screenshot(ctx, draw);
            Some(Screenshot { step: self.run.pipeline.step_count(), plan })
        } else {
            None
        }
    }

    /// Sees to everything on the panel: pause, reset, screenshot, the
    /// parameters that take effect at once, the staged values and the requests
    /// to rebuild, in this order. A reset does what [`Self::reset_simulation`]
    /// does, and the parameters that the panel showed before it no longer count;
    /// a request that was clicked along with it still stands. `reset` must
    /// hold the inputs of the demo configuration where a reset was clicked; the
    /// startup commands of the new run are recorded in `startup`, the draw of a
    /// screenshot in `draw`.
    #[verifier::spinoff_prover]
    pub fn apply_panel(
        &mut self,
        ctx: &mut GpuContext,
        startup: &mut CommandEncoder,
        draw: &mut CommandEncoder,
        panel: &PanelInput,
        reset: Option<&RunInputs>,
    ) -> (screenshot: Option<Screenshot>)
        requires
            old(self).wf(),
            panel.reset_clicked ==> reset is Some && reset->0.accepted(demo()),
            panel.screenshot_clicked ==> old(self).controls.after_buttons(
                *panel,
            ).screenshot_fits(),
        ensures
            final(self).wf(),
            final(self).controls == old(self).controls.after_panel(*panel),
            !panel.reset_clicked ==> {
                &&& final(self).run == old(self).run
                &&& final(self).cached_mass@ == old(self).cached_mass@
                &&& final(startup)@ == old(startup)@
            },
            panel.reset_clicked ==> {
                &&& final(self).controls == old(self).controls.restored().rebuilt().with_requests(
                    *panel,
                )
                &&& !panel.apply_clicked && !panel.apply_grid_clicked ==> final(self).in_shape()
                &&& final(ctx).queue() == old(ctx).queue()
                &&& final(self).run.is_built(old(ctx)@.len() as int, demo(), *reset->0)
                &&& final(self).run.pipeline.step_count == 0
                &&& final(self).cached_mass@ == no_mass(3)
                &&& final(startup)@ == old(startup)@ + startup_commands(
                    old(ctx)@.len() as int,
                    demo(),
                    reset->0.bank,
                    ConvolveMode::Auto,
                    AffinityMode::Constant,
                )
            },
            ({
                let buttons = old(self).controls.after_buttons(*panel);
                let run_buffers = if panel.reset_clicked {
                    old(ctx)@ + reset->0.run_specs(demo())
                } else {
                    old(ctx)@
                };
                &&& final(ctx).queue() == if !panel.reset_clicked && buttons.parameters_moved(
                    *panel,
                ) {
                    old(ctx).queue().push(
                        parameter_write(
                            final(self).run.pipeline,
                            buttons.with_parameters(*panel).cfg,
                        ),
                    )
                } else {
                    old(ctx).queue()
                }
                &&& screenshot is Some <==> panel.screenshot_clicked
                &&& match screenshot {
                    Some(shot) => {
                        &&& shot.step == final(self).run.pipeline.step_count
                        &&& shot.plan.wf()
                        &&& shot.plan.globals.id == run_buffers.len()
                        &&& shot.plan == ScreenshotPlan::of(
                            buttons.cfg.grid_width,
                            buttons.cfg.grid_height,
                            final(self).run.pipeline.current_a(),
                            shot.plan.globals,
                        )
                        &&& final(ctx)@ == run_buffers.push(buttons.screenshot_buffer())
                        &&& final(draw)@ == old(draw)@.push(
                            shot.plan.visualize.command(shot.plan.bind_group, None),
                        )
                    },
                    None => final(ctx)@ == run_buffers && final(draw)@ == old(draw)@,
                }
            }),
    {
        self.press_buttons(ctx, startup, panel, reset);
        let screenshot = self.take_screenshot(ctx, draw, panel.screenshot_clicked);
        self.take_controls(ctx, panel);
        screenshot
    }
}

/// The host write that gives a running pipeline new parameters.
pub open spec fn parameter_write(p: GpuStepPipeline, cfg: FlowLeniaConfig) -> (Buffer, Seq<u8>) {
    (
        p.buffers.globals,
        word_bytes(
            GpuGlobals::for_config(
                p.height,
                p.width,
                p.channels,
                p.buffers.kernels.count,
                p.buffers.kernels.max_side,
                cfg,
            ).words(),
        ),
    )
}

/// Splits a channel-major activation into its channels.
pub fn split_channels(words: &[F32Bits], channels: usize, plane: usize) -> (planes: Vec<
    Vec<F32Bits>,
>)
    requires
        words@.len() >= channels * plane,
    ensures
        planes@.len() == channels,
        forall|c: int|
            0 <= c < channels ==> (#[trigger] planes@[c])@ == words@.subrange(
                c * plane,
                (c + 1) * plane,
            ),
{
    let total: usize = words.len();
    let mut planes: Vec<Vec<F32Bits>> = Vec::new();
    for c in 0..channels
        invariant
            total == words@.len() >= channels * plane,
            planes@.len() == c,
            forall|d: int|
                0 <= d < c ==> (#[trigger] planes@[d])@ == words@.subrange(
                    d * plane,
                    (d + 1) * plane,
                ),
    {
        proof {
            assert(0 <= c * plane && (c + 1) * plane == c * plane + plane && (c + 1) * plane
                <= channels * plane) by (nonlinear_arith)
                requires
                    0 <= c,
                    c + 1 <= channels,
                    0 <= plane,
            ;
        }
        let start: usize = c * plane;
        let mut one: Vec<F32Bits> = Vec::new();
        for i in 0..plane
            invariant
                start == c * plane,
                start + plane <= total,
                total == words@.len(),
                one@.len() == i,
                forall|j: int| 0 <= j < i ==> one@[j] == words@[start + j],
        {
            one.push(words[start + i]);
        }
        assert(one@ =~= words@.subrange(c * plane, (c + 1) * plane));
        planes.push(one);
    }
    planes
}

/// Pausing and resuming leaves everything as it was.
pub proof fn law_pause_twice(c: Controls)
    ensures
        c.toggled().toggled() == c,
        c.toggled().running != c.running,
{
}

/// A reset forgets the past: whatever the settings were, afterwards the
/// configuration, the seed, the staged values and the countdown are those at
/// start, and the simulation runs.
pub proof fn law_reset_is_deterministic(a: Controls, b: Controls)
    ensures
        ({
            let (x, y) = (a.restored().rebuilt(), b.restored().rebuilt());
            &&& x.cfg == y.cfg && y.cfg == Controls::initial().cfg
            &&& x.seed == y.seed == Controls::initial().seed
            &&& x.running && y.running
            &&& x.pending_grid == y.pending_grid == Controls::initial().pending_grid
            &&& x.pending_channels == y.pending_channels == Controls::initial().pending_channels
            &&& x.pending_num_kernels == y.pending_num_kernels
                == Controls::initial().pending_num_kernels
            &&& x.frames_until_mass_readback == y.frames_until_mass_readback
                == Controls::initial().frames_until_mass_readback
        }),
{
}

/// The reset button leaves the settings that [`AppState::reset_simulation`]
/// leaves, whatever the controls of the panel show; with
/// [`law_reset_is_deterministic`] they are those at start.
pub proof fn law_reset_button_is_reset(c: Controls, panel: PanelInput)
    requires
        panel.reset_clicked,
        !panel.apply_clicked && !panel.new_seed_clicked && !panel.apply_grid_clicked,
    ensures
        c.after_panel(panel) == c.restored().rebuilt(),
        c.after_panel(panel).cfg == demo(),
        c.after_panel(panel).seed == SEED,
        c.after_panel(panel).running,
        c.after_panel(panel).pending_grid == demo().grid_width,
        c.after_panel(panel).pending_channels == demo().channels,
        c.after_panel(panel).pending_num_kernels == demo().num_kernels,
{
}

/// A request that is clicked along with a reset is not lost: it is the one that
/// waits afterwards, it applies what the panel stages for it, and everything
/// else is as after a reset.
pub proof fn law_reset_keeps_requests(c: Controls, panel: PanelInput)
    requires
        panel.reset_clicked,
    ensures
        ({
            let reset = c.restored().rebuilt();
            let after = c.after_panel(panel);
            &&& panel.apply_grid_clicked ==> after == (Controls {
                cfg: FlowLeniaConfig {
                    grid_width: panel.grid,
                    grid_height: panel.grid,
                    channels: panel.channels,
                    num_kernels: panel.num_kernels,
                    ..demo()
                },
                pending_grid: panel.grid,
                pending_channels: panel.channels,
                pending_num_kernels: panel.num_kernels,
                pending_rebuild: Some(RebuildRequest::ApplyGridAndChannels),
                ..reset
            })
            &&& !panel.apply_grid_clicked && panel.apply_clicked ==> after == (Controls {
                cfg: FlowLeniaConfig { num_kernels: panel.num_kernels, ..demo() },
                pending_num_kernels: panel.num_kernels,
                pending_rebuild: Some(RebuildRequest::ApplyKernelCount),
                ..reset
            })
            &&& !panel.apply_grid_clicked && !panel.apply_clicked && panel.new_seed_clicked
                ==> after == (Controls {
                pending_rebuild: Some(RebuildRequest::NewSeed),
                ..reset
            })
        }),
{
}

/// A panel on which nothing was clicked and nothing moved changes nothing.
pub proof fn law_idle_panel(c: Controls, panel: PanelInput)
    requires
        !panel.pause_clicked && !panel.reset_clicked && !panel.apply_clicked,
        !panel.new_seed_clicked && !panel.apply_grid_clicked && !panel.dt_differs,
        panel.paper_strict == c.cfg.paper_strict,
        panel.border == c.cfg.border,
        panel.dt == c.cfg.dt,
        panel.dd == c.cfg.dd,
        panel.grid == c.pending_grid,
        panel.channels == c.pending_channels,
        panel.num_kernels == c.pending_num_kernels,
    ensures
        c.after_panel(panel) == c,
        !c.after_buttons(panel).parameters_moved(panel),
{
}

/// Whatever is staged does not touch the configuration of the grid, the
/// channels or the kernels until it is applied.
pub proof fn law_staged_values_wait(c: Controls, panel: PanelInput)
    requires
        !panel.reset_clicked && !panel.apply_clicked && !panel.apply_grid_clicked,
    ensures
        ({
            let after = c.after_panel(panel).cfg;
            &&& after.grid_width == c.cfg.grid_width
            &&& after.grid_height == c.cfg.grid_height
            &&& after.channels == c.cfg.channels
            &&& after.num_kernels == c.cfg.num_kernels
        }),
{
}

/// A grid that is applied is square.
pub proof fn law_applied_grid_is_square(c: Controls, panel: PanelInput)
    requires
        panel.apply_grid_clicked,
    ensures
        c.after_panel(panel).cfg.grid_width == c.after_panel(panel).cfg.grid_height,
        c.after_panel(panel).cfg.grid_width == panel.grid,
        c.after_panel(panel).pending_rebuild == Some(RebuildRequest::ApplyGridAndChannels),
{
}

/// What a frame steps, draws and reads back is the run of the configuration:
/// once the request of the frame before was served, the two have one shape, the
/// steps keep it, and so does a panel that asks for no rebuild. A panel that
/// changes the shape asks for a rebuild.
pub proof fn law_frame_sees_one_shape(state: AppState, n: int, panel: PanelInput)
    requires
        state.wf(),
        state.controls.pending_rebuild is None,
    ensures
        ({
            let stepped = AppState {
                run: Run { pipeline: state.run.pipeline.at_step(n), ..state.run },
                ..state
            };
            let after = AppState { controls: state.controls.after_panel(panel), ..stepped };
            &&& state.in_shape()
            &&& stepped.in_shape()
            &&& !panel.reset_clicked && !panel.apply_clicked && !panel.apply_grid_clicked
                ==> after.in_shape()
            &&& !panel.reset_clicked ==> after.in_shape() || after.controls.pending_rebuild is Some
        }),
{
}

/// A request to rebuild is taken once.
pub proof fn law_request_is_taken_once(c: Controls)
    ensures
        c.after_request().pending_rebuild is None,
        c.after_request().after_request() == c.after_request(),
{
}

/// The settings `i` frames later, with nothing else going on.
pub open spec fn frames_later(c: Controls, i: nat) -> Controls
    decreases i,
{
    if i == 0 {
        c
    } else {
        frames_later(c, (i - 1) as nat).after_frame()
    }
}

/// While the simulation runs and no readback is under way, the countdown
/// reaches zero after exactly the frames that it counts, and the readback
/// starts then and not before.
pub proof fn law_mass_readback_cadence(c: Controls, i: nat)
    requires
        c.running,
        !c.mass_readback_in_flight,
        i < c.frames_until_mass_readback,
    ensures
        frames_later(c, i) == (Controls {
            frames_until_mass_readback: (c.frames_until_mass_readback - i) as u32,
            ..c
        }),
        frames_later(c, i).mass_due() <==> i == c.frames_until_mass_readback - 1,
    decreases i,
{
    if i > 0 {
        law_mass_readback_cadence(c, (i - 1) as nat);
    }
}

/// There is never a second readback under way, and while paused none starts.
pub proof fn law_one_mass_readback(c: Controls)
    ensures
        c.mass_due() ==> !c.mass_readback_in_flight && c.after_frame().mass_readback_in_flight,
        c.mass_readback_in_flight ==> !c.mass_due() && !c.after_frame().mass_due(),
        !c.running ==> !c.mass_due() && c.after_frame() == c,
{
}

/// What a key event asks for.
pub open spec fn key_action(event: KeyEvent, consumed: bool) -> KeyAction {
    if consumed || !event.pressed || event.repeat {
        KeyAction::Nothing
    } else if event.key == Key::Character('r') || event.key == Key::Character('R') {
        KeyAction::Reset
    } else if event.key == Key::Character('q') || event.key == Key::Character('Q') {
        KeyAction::Exit
    } else {
        KeyAction::Nothing
    }
}

impl Controls {
    /// After a key event: the space bar pauses and resumes.
    pub open spec fn after_key(self, event: KeyEvent, consumed: bool) -> Controls {
        if !consumed && event.pressed && !event.repeat && event.key == Key::Space {
            self.toggled()
        } else {
            self
        }
    }
}

/// A fresh press of a key that the panel left alone does this: the space bar
/// pauses a running simulation and resumes a paused one, `r` resets, `q` ends,
/// in either case. Everything else, and every other event, does nothing.
pub proof fn law_keys(c: Controls, key: Key, pressed: bool, repeat: bool, consumed: bool)
    ensures
        ({
            let event = KeyEvent { key, pressed, repeat };
            let fresh = pressed && !repeat && !consumed;
            &&& key_action(event, consumed) == KeyAction::Reset <==> fresh && (key
                == Key::Character('r') || key == Key::Character('R'))
            &&& key_action(event, consumed) == KeyAction::Exit <==> fresh && (key
                == Key::Character('q') || key == Key::Character('Q'))
            &&& c.after_key(event, consumed).running != c.running <==> fresh && key == Key::Space
            &&& c.after_key(event, consumed) == (Controls {
                running: c.after_key(event, consumed).running,
                ..c
            })
        }),
{
}

/// The demo: a torus of 64 by 64 cells with three channels and ten kernels,
/// time step 0.2, half width 0.65, exponent and critical mass 2, reach 5.
pub proof fn law_demo()
    ensures
        demo().grid_width == 64 && demo().grid_height == 64,
        demo().channels == 3 && demo().num_kernels == 10,
        demo().dt == 0x3e4c_cccd && demo().sigma == 0x3f26_6666,
        demo().n == 0x4000_0000 && demo().beta_a == 0x4000_0000,
        demo().dd == 5 && !demo().paper_strict,
        demo().border == BorderMode::Torus,
        SEED == 1729,
{
}

/// At start the demo runs, one step per frame, with a mass readback due at the
/// end of the first frame and nothing staged or asked for.
pub proof fn law_initial_controls()
    ensures
        ({
            let c = Controls::initial();
            &&& c.running && c.steps_per_frame == 1
            &&& c.frames_until_mass_readback == 1 && !c.mass_readback_in_flight
            &&& c.mass_due()
            &&& c.cfg == demo() && c.seed == 1729
            &&& c.pending_grid == 64 && c.pending_channels == 3 && c.pending_num_kernels == 10
            &&& c.pending_rebuild is None
        }),
{
}

/// After a panel without a reset, the configuration has the flag, the border,
/// the time step and the reach that the panel shows, and the staged values are
/// those that the panel shows; the numbers that the panel does not show stay.
pub proof fn law_panel_parameters(c: Controls, panel: PanelInput)
    requires
        !panel.reset_clicked,
    ensures
        ({
            let after = c.after_panel(panel);
            &&& after.cfg.paper_strict == panel.paper_strict
            &&& after.cfg.border == panel.border
            &&& after.cfg.dt == panel.dt
            &&& after.cfg.dd == panel.dd
            &&& after.cfg.sigma == c.cfg.sigma
            &&& after.cfg.n == c.cfg.n
            &&& after.cfg.beta_a == c.cfg.beta_a
            &&& after.pending_grid == panel.grid
            &&& after.pending_channels == panel.channels
            &&& after.pending_num_kernels == panel.num_kernels
            &&& after.seed == c.seed
            &&& after.steps_per_frame == c.steps_per_frame
            &&& after.frames_until_mass_readback == c.frames_until_mass_readback
            &&& after.mass_readback_in_flight == c.mass_readback_in_flight
            &&& after.running == (c.running != panel.pause_clicked)
        }),
{
}

/// New parameters are queued exactly where the panel shows another flag, border
/// or reach, or a noticeably different time step; what is queued for the run is
/// what the panel shows.
pub proof fn law_panel_queues_parameters(c: Controls, panel: PanelInput, p: GpuStepPipeline)
    requires
        !panel.reset_clicked,
        p.wf(),
    ensures
        ({
            let buttons = c.after_buttons(panel);
            let words = crate::words::bytes_words(
                parameter_write(p, buttons.with_parameters(panel).cfg).1,
            );
            &&& buttons.parameters_moved(panel) <==> panel.paper_strict != c.cfg.paper_strict
                || panel.border != c.cfg.border || panel.dt_differs || panel.dd != c.cfg.dd
            &&& words.len() == 16
            &&& words[6] == if panel.border == BorderMode::Wall {
                1u32
            } else {
                0u32
            }
            &&& words[7] == if panel.paper_strict {
                1u32
            } else {
                0u32
            }
            &&& words[10] == panel.dd
            &&& words[12] == panel.dt
            &&& words[8] == c.cfg.beta_a && words[9] == c.cfg.n && words[11] == c.cfg.sigma
        }),
{
    let cfg = c.after_buttons(panel).with_parameters(panel).cfg;
    crate::contents::law_update_holds_config(p, cfg);
}

/// Each request button does its own: the grid button applies the staged side to
/// both axes, the staged channels and kernels; the kernel button the staged
/// kernels only; the seed button nothing but the request. The first of them
/// that was clicked counts, and without one no request is made.
pub proof fn law_requests(c: Controls, panel: PanelInput)
    requires
        !panel.reset_clicked,
    ensures
        ({
            let after = c.after_panel(panel);
            let (grid, kernels, seed) = (
                panel.apply_grid_clicked,
                panel.apply_clicked,
                panel.new_seed_clicked,
            );
            &&& grid ==> {
                &&& after.pending_rebuild == Some(RebuildRequest::ApplyGridAndChannels)
                &&& after.cfg.grid_width == panel.grid && after.cfg.grid_height == panel.grid
                &&& after.cfg.channels == panel.channels
                &&& after.cfg.num_kernels == panel.num_kernels
            }
            &&& !grid && kernels ==> {
                &&& after.pending_rebuild == Some(RebuildRequest::ApplyKernelCount)
                &&& after.cfg.num_kernels == panel.num_kernels
            }
            &&& !grid ==> {
                &&& after.cfg.grid_width == c.cfg.grid_width
                &&& after.cfg.grid_height == c.cfg.grid_height
                &&& after.cfg.channels == c.cfg.channels
            }
            &&& !grid && !kernels ==> after.cfg.num_kernels == c.cfg.num_kernels
            &&& !grid && !kernels && seed ==> after.pending_rebuild == Some(
                RebuildRequest::NewSeed,
            )
            &&& !grid && !kernels && !seed ==> after.pending_rebuild == c.pending_rebuild
        }),
{
}

/// Only a request for a new seed changes the seed, to the next one, around the
/// end; serving a request changes nothing else.
pub proof fn law_seeds(c: Controls)
    ensures
        c.pending_rebuild == Some(RebuildRequest::NewSeed) && c.seed < u64::MAX
            ==> c.after_request().seed == c.seed + 1,
        c.pending_rebuild == Some(RebuildRequest::NewSeed) && c.seed == u64::MAX
            ==> c.after_request().seed == 0,
        c.pending_rebuild != Some(RebuildRequest::NewSeed) ==> c.after_request().seed == c.seed,
        c.after_request() == (Controls {
            seed: c.after_request().seed,
            pending_rebuild: None,
            ..c
        }),
        c.rebuild_seed() == c.after_request().seed,
{
}

/// A rebuilt run runs, with a mass readback due at the end of the next frame;
/// configuration, seed and staged values stay.
pub proof fn law_rebuilt(c: Controls)
    ensures
        c.rebuilt().running,
        c.rebuilt().frames_until_mass_readback == 1,
        c.rebuilt() == (Controls { running: true, frames_until_mass_readback: 1, ..c }),
{
}

/// Thirty frames after a readback started, if it came back by then, the next
/// one starts, and none in between.
pub proof fn law_thirty_frames(c: Controls, i: nat)
    requires
        c.mass_due(),
        i < 30,
    ensures
        ({
            let started = c.after_frame();
            let back = Controls { mass_readback_in_flight: false, ..started };
            &&& started.mass_readback_in_flight && started.running
            &&& frames_later(back, i).mass_due() <==> i == 29
        }),
{
    let back = Controls { mass_readback_in_flight: false, ..c.after_frame() };
    law_mass_readback_cadence(back, i);
}

/// A frame draws the current activation of the run, with the parameters of the
/// draw, as one triangle inside the viewport; a cell is as many pixels as fit.
pub proof fn law_frame_draws_activation(run: Run, cfg: FlowLeniaConfig, inputs: RunInputs, start: int)
    requires
        run.is_built(start, cfg, inputs),
        inputs.scale(cfg) * larger(cfg.grid_width as int, cfg.grid_height as int) <= u32::MAX,
        0 < larger(cfg.grid_width as int, cfg.grid_height as int),
        inputs.scale(cfg) <= u32::MAX,
    ensures
        ({
            let g = BindGroup::of2(run.pipeline.current_a(), run.visualize_globals);
            match run.visualize.command(g, Some(run.viewport)) {
                Command::Draw { shader, layout, bind_group, vertices, viewport } => {
                    &&& shader == crate::device::Shader::Visualize
                    &&& layout.b0 == crate::device::BindingKind::StorageRead
                    &&& layout.b1 == crate::device::BindingKind::Uniform
                    &&& bind_group.b0 == run.pipeline.current_a()
                    &&& bind_group.b1 == run.visualize_globals
                    &&& vertices == 3
                    &&& viewport == Some(run.viewport)
                },
                _ => false,
            }
        }),
        run.viewport.width == run.visualize.scale * larger(
            cfg.grid_width as int,
            cfg.grid_height as int,
        ),
        run.viewport.height == run.viewport.width,
        run.visualize.scale == layout_scale(
            cfg.grid_width as int,
            cfg.grid_height as int,
            inputs.area_w as int,
            inputs.area_h as int,
        ),
{
    let g = larger(cfg.grid_width as int, cfg.grid_height as int);
    let u = inputs.scale(cfg);
    assert(0 <= u * g) by (nonlinear_arith)
        requires
            0 <= u,
            0 <= g,
    ;
}

/// There is one sum per channel, and all are zero before the first readback.
pub proof fn law_no_mass(channels: u32, i: int)
    requires
        0 <= i < channels,
    ensures
        no_mass(channels).len() == channels,
        no_mass(channels)[i] == 0,
{
}

impl Controls {
    /// Steps in a frame.
    pub open spec fn steps_due(self) -> u32 {
        if self.running {
            self.steps_per_frame
        } else {
            0
        }
    }
}

/// A running simulation takes as many steps per frame as are set; a paused one
/// takes none.
pub proof fn law_paused_frames_do_not_step(c: Controls)
    ensures
        !c.running ==> c.steps_due() == 0,
        c.running ==> c.steps_due() == c.steps_per_frame,
        c.running ==> c.toggled().steps_due() == 0,
{
}

} // verus!
