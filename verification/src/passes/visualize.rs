//! Drawing the activation.
//!
//! The fragment shader reads the activation buffer itself; each cell becomes a
//! square of `upscale` by `upscale` pixels.

use crate::device::{
    filled, BindGroup, BindGroupLayout, BindingKind, Buffer, BufferSpec, BufferUsages, Command,
    CommandEncoder, GpuContext, Shader, ShaderStage, Viewport,
};
use crate::words::{word_bytes, words_to_bytes};
use vstd::prelude::*;

verus! {

/// Uniform block of the draw.
#[derive(Clone, Copy, Debug, PartialEq, Eq, Structural)]
pub struct VisualizeGlobals {
    pub h: u32,
    pub w: u32,
    pub c: u32,
    pub upscale: u32,
}

impl VisualizeGlobals {
    /// The words of the block.
    pub open spec fn words(self) -> Seq<u32> {
        seq![self.h, self.w, self.c, self.upscale]
    }
}

/// Bindings of the draw: activation, parameters.
pub open spec fn visualize_layout() -> BindGroupLayout {
    BindGroupLayout {
        stage: ShaderStage::Fragment,
        b0: BindingKind::StorageRead,
        b1: BindingKind::Uniform,
        b2: None,
        b3: None,
        b4: None,
    }
}

/// The uniform buffer of a block.
pub open spec fn visualize_buffer(globals: VisualizeGlobals) -> BufferSpec {
    filled(word_bytes(globals.words()), BufferUsages::of_uniform())
}

/// The compiled draw.
#[derive(Clone, Copy, Debug, PartialEq, Eq, Structural)]
pub struct VisualizePass {
    pub layout: BindGroupLayout,
    /// Pixels per cell and axis; not zero.
    pub scale: u32,
}

impl VisualizePass {
    /// The compiled draw.
    pub open spec fn of(upscale: u32) -> VisualizePass {
        VisualizePass { layout: visualize_layout(), scale: upscale }
    }

    /// The draw: one triangle that covers the target, or the viewport.
    pub open spec fn command(self, bind_group: BindGroup, viewport: Option<Viewport>) -> Command {
        Command::Draw {
            shader: Shader::Visualize,
            layout: self.layout,
            bind_group,
            vertices: 3,
            viewport,
        }
    }

    /// Compiles the draw with `upscale` pixels per cell and axis.
    pub fn new(upscale: u32) -> (pass: VisualizePass)
        requires
            upscale > 0,
        ensures
            pass == VisualizePass::of(upscale),
    {
        let layout = BindGroupLayout {
            stage: ShaderStage::Fragment,
            b0: BindingKind::StorageRead,
            b1: BindingKind::Uniform,
            b2: None,
            b3: None,
            b4: None,
        };
        VisualizePass { layout, scale: upscale }
    }

    /// Pixels per cell and axis.
    pub fn upscale(&self) -> (upscale: u32)
        ensures
            upscale == self.scale,
    {
        self.scale
    }

    /// Asks for the uniform buffer of the draw.
    pub fn upload_globals(&self, ctx: &mut GpuContext, height: u32, width: u32, channels: u32) -> (buffer:
        Buffer)
        ensures
            buffer.id == old(ctx)@.len(),
            final(ctx)@ == old(ctx)@.push(
                visualize_buffer(
                    VisualizeGlobals { h: height, w: width, c: channels, upscale: self.scale },
                ),
            ),
            final(ctx).queue() == old(ctx).queue(),
    {
        let globals = VisualizeGlobals {
            h: height,
            w: width,
            c: channels,
            upscale: self.scale,
        };
        let words: [u32; 4] = [globals.h, globals.w, globals.c, globals.upscale];
        assert(words@ =~= globals.words());
        ctx.create_buffer_init(words_to_bytes(&words), BufferUsages::uniform())
    }

    /// Binds the buffers of the draw.
    pub fn make_bind_group(&self, a_in: Buffer, globals: Buffer) -> (g: BindGroup)
        ensures
            g == BindGroup::of2(a_in, globals),
    {
        BindGroup { b0: a_in, b1: globals, b2: None, b3: None, b4: None }
    }

    /// Appends the draw, inside `viewport` where one is given.
    pub fn record(
        &self,
        encoder: &mut CommandEncoder,
        bind_group: &BindGroup,
        viewport: Option<Viewport>,
    )
        ensures
            final(encoder)@ == old(encoder)@.push(self.command(*bind_group, viewport)),
    {
        encoder.push(
            Command::Draw {
                shader: Shader::Visualize,
                layout: self.layout,
                bind_group: *bind_group,
                vertices: 3,
                viewport,
            },
        );
    }
}

} // verus!
