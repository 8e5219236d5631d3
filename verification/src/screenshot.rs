//! Screenshots: the activation drawn off screen, read back and encoded as PNG.

use crate::device::{BindGroup, Buffer, CommandEncoder, GpuContext};
use crate::passes::visualize::{visualize_buffer, VisualizeGlobals, VisualizePass};
use crate::text::{decimal, push_decimal};
use crate::texture_readback::{
    law_aligned, padded_row_bytes, strip_row_padding, tight, TextureReadback,
};
use vstd::prelude::*;
use vstd::string::*;

verus! {

/// The longest side that a screenshot is scaled up to.
pub const PNG_MAX_DIM: u32 = 1024;

/// The seed that screenshots are named after.
pub const SEED: u64 = 1729;

/// The error type of the image encoder.
#[verifier::external_type_specification]
#[verifier::external_body]
pub struct ExImageError(image::ImageError);

/// The PNG file of an image of `width` by `height` pixels with four bytes each;
/// `None` where the encoder refuses it.
pub uninterp spec fn png_encoding(pixels: Seq<u8>, width: u32, height: u32) -> Option<Seq<u8>>;

/// Calls `image::codecs::png::PngEncoder::write_image` with eight-bit RGBA
/// pixels, into an empty `Vec`. It panics on a buffer whose length is not four
/// bytes per pixel, so that is left out. Claimed: whether it succeeds and what
/// it then writes depend on the pixels and the two sides alone.
#[verifier::external_body]
fn encode_png(pixels: &[u8], width: u32, height: u32) -> (png: Result<Vec<u8>, image::ImageError>)
    requires
        pixels@.len() == width * height * 4,
    ensures
        png is Ok <==> png_encoding(pixels@, width, height) is Some,
        png is Ok ==> png->Ok_0@ == png_encoding(pixels@, width, height)->0,
{
    let mut png: Vec<u8> = Vec::new();
    let encoder = image::codecs::png::PngEncoder::new(&mut png);
    image::ImageEncoder::write_image(encoder, pixels, width, height, image::ColorType::Rgba8)?;
    Ok(png)
}

/// The larger of two numbers.
pub open spec fn larger(a: int, b: int) -> int {
    if a >= b {
        a
    } else {
        b
    }
}

/// Pixels per cell of a screenshot: as many as fit, at least one.
pub open spec fn screenshot_scale(grid_w: int, grid_h: int) -> int {
    larger(PNG_MAX_DIM as int / larger(grid_w, grid_h), 1)
}

/// What a screenshot needs: the draw, the size of the image and of the copy.
#[derive(Clone, Copy, Debug, PartialEq, Eq, Structural)]
pub struct ScreenshotPlan {
    pub visualize: VisualizePass,
    pub globals: Buffer,
    pub bind_group: BindGroup,
    pub readback: TextureReadback,
}

impl ScreenshotPlan {
    /// The copy is that of its image, and its rows can be counted.
    pub open spec fn wf(self) -> bool {
        &&& padded_row_bytes(self.readback.width as int) <= u32::MAX
        &&& self.readback == TextureReadback::of(self.readback.width, self.readback.height)
    }

    /// The plan for a grid, reading the given activation.
    pub open spec fn of(grid_w: u32, grid_h: u32, activation: Buffer, globals: Buffer) -> ScreenshotPlan {
        let upscale = screenshot_scale(grid_w as int, grid_h as int);
        ScreenshotPlan {
            visualize: VisualizePass::of(upscale as u32),
            globals,
            bind_group: BindGroup::of2(activation, globals),
            readback: TextureReadback::of((grid_w * upscale) as u32, (grid_h * upscale) as u32),
        }
    }
}

/// The scale fills the longest side as far as whole pixels per cell allow, and
/// beyond it only where the grid itself is longer.
pub proof fn law_screenshot_scale(grid_w: int, grid_h: int)
    requires
        0 <= grid_w,
        0 <= grid_h,
        0 < larger(grid_w, grid_h),
    ensures
        ({
            let u = screenshot_scale(grid_w, grid_h);
            let g = larger(grid_w, grid_h);
            &&& 1 <= u
            &&& grid_w <= grid_w * u
            &&& grid_h <= grid_h * u
            &&& g * u <= larger(PNG_MAX_DIM as int, g)
            &&& g <= PNG_MAX_DIM ==> PNG_MAX_DIM < g * (u + 1)
            &&& grid_w * u <= larger(PNG_MAX_DIM as int, g)
            &&& grid_h * u <= larger(PNG_MAX_DIM as int, g)
        }),
{
    let u = screenshot_scale(grid_w, grid_h);
    let g = larger(grid_w, grid_h);
    let q = PNG_MAX_DIM as int / g;
    vstd::arithmetic::div_mod::lemma_fundamental_div_mod(PNG_MAX_DIM as int, g);
    assert(g * q <= PNG_MAX_DIM < g * q + g);
    assert(g * (u + 1) == g * u + g) by (nonlinear_arith);
    if q < 1 {
        assert(g * 1 == g) by (nonlinear_arith);
        assert(g > PNG_MAX_DIM) by (nonlinear_arith)
            requires
                PNG_MAX_DIM < g * q + g,
                q <= 0,
                0 < g,
        ;
    }
    assert(grid_w <= grid_w * u <= g * u && grid_h <= grid_h * u <= g * u) by (nonlinear_arith)
        requires
            0 <= grid_w <= g,
            0 <= grid_h <= g,
            1 <= u,
    ;
}

/// Whether [`plan_screenshot`] can be called for a grid: it is not empty and the
/// bytes of a row can be counted.
pub fn screenshot_possible(grid_w: u32, grid_h: u32) -> (possible: bool)
    ensures
        possible == {
            &&& 0 < larger(grid_w as int, grid_h as int)
            &&& padded_row_bytes(grid_w * screenshot_scale(grid_w as int, grid_h as int))
                <= u32::MAX
        },
{
    if grid_w == 0 && grid_h == 0 {
        return false;
    }
    let upscale: u32 = scale_of(grid_w, grid_h);
    proof {
        law_screenshot_scale(grid_w as int, grid_h as int);
        law_aligned(4 * (grid_w * upscale), 256, 0x1_0000_0000);
        law_aligned(4 * (grid_w * upscale), 256, 0xffff_ff00);
    }
    let row: u64 = 4 * (grid_w as u64 * upscale as u64);
    row <= 0xffff_ff00
}

/// Pixels per cell of a screenshot.
fn scale_of(grid_w: u32, grid_h: u32) -> (upscale: u32)
    requires
        0 < larger(grid_w as int, grid_h as int),
    ensures
        upscale == screenshot_scale(grid_w as int, grid_h as int),
{
    let longest: u32 = if grid_w >= grid_h {
        grid_w
    } else {
        grid_h
    };
    let fit: u32 = PNG_MAX_DIM / longest;
    if fit >= 1 {
        fit
    } else {
        1
    }
}

/// Plans a screenshot of a grid and records its draw.
pub fn plan_screenshot(
    ctx: &mut GpuContext,
    encoder: &mut CommandEncoder,
    grid_w: u32,
    grid_h: u32,
    channels: u32,
    activation: Buffer,
) -> (plan: ScreenshotPlan)
    requires
        0 < larger(grid_w as int, grid_h as int),
        padded_row_bytes(grid_w * screenshot_scale(grid_w as int, grid_h as int)) <= u32::MAX,
    ensures
        plan.wf(),
        plan.globals.id == old(ctx)@.len(),
        plan == ScreenshotPlan::of(grid_w, grid_h, activation, plan.globals),
        final(ctx)@ == old(ctx)@.push(
            visualize_buffer(
                VisualizeGlobals {
                    h: grid_h,
                    w: grid_w,
                    c: channels,
                    upscale: screenshot_scale(grid_w as int, grid_h as int) as u32,
                },
            ),
        ),
        final(ctx).queue() == old(ctx).queue(),
        final(encoder)@ == old(encoder)@.push(plan.visualize.command(plan.bind_group, None)),
{
    proof {
        law_screenshot_scale(grid_w as int, grid_h as int);
    }
    let upscale: u32 = scale_of(grid_w, grid_h);
    let png_w: u32 = grid_w * upscale;
    let png_h: u32 = grid_h * upscale;
    let visualize = VisualizePass::new(upscale);
    let globals = visualize.upload_globals(ctx, grid_h, grid_w, channels);
    let bind_group = visualize.make_bind_group(activation, globals);
    visualize.record(encoder, &bind_group, None);
    let readback = TextureReadback::new(png_w, png_h);
    ScreenshotPlan { visualize, globals, bind_group, readback }
}

/// The name of a screenshot file.
pub open spec fn file_name(step: u64) -> Seq<char> {
    "flow-lenia-step"@ + decimal(step as nat) + "-seed"@ + decimal(SEED as nat) + ".png"@
}

/// The name of a screenshot file.
pub fn screenshot_name(step: u64) -> (name: String)
    ensures
        name@ == file_name(step),
{
    let mut name = "flow-lenia-step".to_owned();
    push_decimal(&mut name, step);
    name.append("-seed");
    push_decimal(&mut name, SEED);
    name.append(".png");
    name
}

/// A file to hand to the user.
#[derive(Debug)]
pub struct Download {
    pub file_name: String,
    pub bytes: Vec<u8>,
}

/// Why there is no screenshot.
#[derive(Clone, Copy, Debug, PartialEq, Eq, Structural)]
pub enum ScreenshotError {
    /// The staging buffer is shorter than the image.
    ShortReadback,
    /// The encoder refused the image.
    Encode,
}

/// Names an encoded image; an error where there is none.
pub fn package_screenshot(step: u64, png: Option<Vec<u8>>) -> (result: Result<
    Download,
    ScreenshotError,
>)
    ensures
        match png {
            Some(bytes) => result is Ok && result->Ok_0.bytes@ == bytes@
                && result->Ok_0.file_name@ == file_name(step),
            None => result is Err && result->Err_0 == ScreenshotError::Encode,
        },
{
    match png {
        Some(bytes) => Ok(Download { file_name: screenshot_name(step), bytes }),
        None => Err(ScreenshotError::Encode),
    }
}

/// Trims what was read back, encodes it and names the file.
pub fn finish_screenshot(plan: &ScreenshotPlan, step: u64, mapped: &[u8]) -> (result: Result<
    Download,
    ScreenshotError,
>)
    requires
        plan.wf(),
    ensures
        ({
            let (w, h) = (plan.readback.width, plan.readback.height);
            if mapped@.len() < padded_row_bytes(w as int) * h {
                result is Err && result->Err_0 == ScreenshotError::ShortReadback
            } else {
                match png_encoding(tight(mapped@, w as int, h as int), w, h) {
                    Some(bytes) => result is Ok && result->Ok_0.bytes@ == bytes
                        && result->Ok_0.file_name@ == file_name(step),
                    None => result is Err && result->Err_0 == ScreenshotError::Encode,
                }
            }
        }),
{
    let width: u32 = plan.readback.width;
    let height: u32 = plan.readback.height;
    proof {
        law_aligned(4 * width, 256, 0);
        let p = padded_row_bytes(width as int);
        assert(0 <= p * height <= u64::MAX) by (nonlinear_arith)
            requires
                0 <= p <= u32::MAX,
                0 <= height <= u32::MAX,
        ;
    }
    if (mapped.len() as u64) < plan.readback.buffer_size {
        return Err(ScreenshotError::ShortReadback);
    }
    let image = strip_row_padding(mapped, width, height);
    proof {
        assert(4 * width * height == width * height * 4) by (nonlinear_arith);
        assert(0 <= 4 * width * height) by (nonlinear_arith);
    }
    let png = match encode_png(image.as_slice(), width, height) {
        Ok(bytes) => Some(bytes),
        Err(_) => None,
    };
    package_screenshot(step, png)
}

/// A screenshot of a grid is drawn at whole pixels per cell, up to 1024 pixels,
/// from the given activation, and copied whole.
pub proof fn law_screenshot_plan(grid_w: u32, grid_h: u32, activation: Buffer, globals: Buffer)
    requires
        0 < grid_w,
        0 < grid_h,
        grid_w <= 1024,
        grid_h <= 1024,
    ensures
        ({
            let plan = ScreenshotPlan::of(grid_w, grid_h, activation, globals);
            let u = plan.visualize.scale;
            &&& u >= 1
            &&& plan.readback.width == grid_w * u && plan.readback.height == grid_h * u
            &&& plan.readback.width <= 1024 && plan.readback.height <= 1024
            &&& grid_w * (u + 1) > 1024 || grid_h * (u + 1) > 1024
            &&& plan.bind_group.b0 == activation && plan.bind_group.b1 == globals
            &&& plan.globals == globals
        }),
{
    law_screenshot_scale(grid_w as int, grid_h as int);
    let u = screenshot_scale(grid_w as int, grid_h as int);
    assert(u <= 1024) by (nonlinear_arith)
        requires
            grid_w >= 1,
            grid_w * u <= 1024,
    ;
}

/// A screenshot is named after its step and the seed of the demo.
pub proof fn law_screenshot_name(step: u64)
    ensures
        file_name(step) == "flow-lenia-step"@ + decimal(step as nat) + "-seed"@ + decimal(1729)
            + ".png"@,
        PNG_MAX_DIM == 1024,
{
}

} // verus!
