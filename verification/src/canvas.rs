//! Sizes of the canvas and of what is drawn on it.

use crate::device::Viewport;
use crate::screenshot::larger;
use vstd::prelude::*;

verus! {

/// Width of the canvas, in logical pixels.
pub const CANVAS_W: u32 = 768;

/// Height of the canvas, in logical pixels.
pub const CANVAS_H: u32 = 512;

/// Width of the side panel, in logical pixels.
pub const SIDE_PANEL_W: u32 = 250;

/// The smaller of two numbers.
pub open spec fn smaller(a: int, b: int) -> int {
    if a <= b {
        a
    } else {
        b
    }
}

/// The larger of two numbers.
pub fn max_u32(a: u32, b: u32) -> (m: u32)
    ensures
        m == larger(a as int, b as int),
{
    if a >= b {
        a
    } else {
        b
    }
}

/// The smaller of two numbers.
pub fn min_u32(a: u32, b: u32) -> (m: u32)
    ensures
        m == smaller(a as int, b as int),
{
    if a <= b {
        a
    } else {
        b
    }
}

/// Pixels per cell: as many as fit the area beside the panel, at least one. The
/// area counts as no smaller than the grid.
pub open spec fn layout_scale(grid_w: int, grid_h: int, area_w: int, area_h: int) -> int {
    larger(
        smaller(larger(area_w, grid_w), larger(area_h, grid_h)) / larger(grid_w, grid_h),
        1,
    )
}

/// Pixels per cell, and the side of the square that the grid is drawn in, for
/// an area of `area_w` by `area_h` pixels beside the panel.
pub fn compute_visualize_layout(grid_w: u32, grid_h: u32, area_w: u32, area_h: u32) -> (layout: (
    u32,
    u32,
))
    requires
        0 < larger(grid_w as int, grid_h as int),
    ensures
        layout.0 == layout_scale(grid_w as int, grid_h as int, area_w as int, area_h as int),
        layout.1 == layout.0 * larger(grid_w as int, grid_h as int),
        layout.0 >= 1,
{
    let w: u32 = max_u32(area_w, grid_w);
    let h: u32 = max_u32(area_h, grid_h);
    let room: u32 = min_u32(w, h);
    let longest: u32 = max_u32(grid_w, grid_h);
    let fit: u32 = room / longest;
    let upscale: u32 = max_u32(fit, 1);
    proof {
        vstd::arithmetic::div_mod::lemma_fundamental_div_mod(room as int, longest as int);
        assert(upscale * longest <= u32::MAX) by (nonlinear_arith)
            requires
                room == longest * fit + room % longest,
                0 <= room % longest,
                upscale == fit || (upscale == 1 && fit < 1),
                room <= u32::MAX,
                longest <= u32::MAX,
        ;
        assert(0 <= upscale * longest) by (nonlinear_arith);
    }
    (upscale, upscale * longest)
}

/// The square fits the area wherever a single pixel per cell does, and one more
/// pixel per cell would not.
pub proof fn law_layout_fits(grid_w: int, grid_h: int, area_w: int, area_h: int)
    requires
        0 <= grid_w,
        0 <= grid_h,
        0 <= area_w,
        0 <= area_h,
        0 < larger(grid_w, grid_h) <= smaller(area_w, area_h),
    ensures
        ({
            let u = layout_scale(grid_w, grid_h, area_w, area_h);
            let g = larger(grid_w, grid_h);
            &&& u >= 1
            &&& u * g <= smaller(area_w, area_h)
            &&& smaller(area_w, area_h) < (u + 1) * g
        }),
{
    let g = larger(grid_w, grid_h);
    let room = smaller(area_w, area_h);
    let q = room / g;
    vstd::arithmetic::div_mod::lemma_fundamental_div_mod(room, g);
    assert(q >= 1) by (nonlinear_arith)
        requires
            room == g * q + room % g,
            room % g < g,
            g <= room,
            0 < g,
    ;
    assert(q * g == g * q && (q + 1) * g == g * q + g) by (nonlinear_arith);
}

/// The square viewport of the given side, at the top left.
pub open spec fn square(side: u32) -> Viewport {
    Viewport { x: 0, y: 0, width: side, height: side }
}

/// The size to give the surface. A window that reports a side of at most one
/// pixel has not been laid out yet; the size that it will have is taken
/// instead.
pub fn resolve_physical_canvas_size(raw_w: u32, raw_h: u32, expected_w: u32, expected_h: u32) -> (size:
    (u32, u32))
    ensures
        size == if raw_w <= 1 || raw_h <= 1 {
            (larger(expected_w as int, 1) as u32, larger(expected_h as int, 1) as u32)
        } else {
            (raw_w, raw_h)
        },
        size == canvas_size(raw_w, raw_h, expected_w, expected_h),
        size.0 >= 1,
        size.1 >= 1,
{
    if raw_w <= 1 || raw_h <= 1 {
        (max_u32(expected_w, 1), max_u32(expected_h, 1))
    } else {
        (raw_w, raw_h)
    }
}

/// A size for a surface: no side is zero.
pub fn clamp_surface_size(width: u32, height: u32) -> (size: (u32, u32))
    ensures
        size.0 == larger(width as int, 1),
        size.1 == larger(height as int, 1),
{
    (max_u32(width, 1), max_u32(height, 1))
}

/// The first surface format that encodes sRGB; the first one where none does.
pub fn choose_surface_format(is_srgb: &[bool]) -> (index: usize)
    requires
        is_srgb@.len() > 0,
    ensures
        index < is_srgb@.len(),
        is_srgb@[index as int] ==> forall|i: int| 0 <= i < index ==> !is_srgb@[i],
        !is_srgb@[index as int] ==> index == 0 && forall|i: int|
            0 <= i < is_srgb@.len() ==> !is_srgb@[i],
{
    for i in 0..is_srgb.len()
        invariant
            forall|j: int| 0 <= j < i ==> !is_srgb@[j],
    {
        if is_srgb[i] {
            return i;
        }
    }
    0
}

/// What asking the surface for its next texture came to.
#[derive(Clone, Copy, Debug, PartialEq, Eq, Structural)]
pub enum SurfaceStatus {
    Success,
    Suboptimal,
    Lost,
    Outdated,
    Timeout,
    Occluded,
    Validation,
}

/// What to do about it.
#[derive(Clone, Copy, Debug, PartialEq, Eq, Structural)]
pub struct FrameDecision {
    /// Configure the surface again.
    pub reconfigure: bool,
    /// Draw this frame.
    pub render: bool,
}

/// A usable texture is drawn to; a surface that no longer fits is configured
/// again.
pub fn decide_frame(status: SurfaceStatus) -> (decision: FrameDecision)
    ensures
        decision == frame_decision(status),
        decision.render <==> status == SurfaceStatus::Success || status
            == SurfaceStatus::Suboptimal,
        decision.reconfigure <==> status == SurfaceStatus::Suboptimal || status
            == SurfaceStatus::Lost || status == SurfaceStatus::Outdated,
{
    match status {
        SurfaceStatus::Success => FrameDecision { reconfigure: false, render: true },
        SurfaceStatus::Suboptimal => FrameDecision { reconfigure: true, render: true },
        SurfaceStatus::Lost | SurfaceStatus::Outdated => FrameDecision {
            reconfigure: true,
            render: false,
        },
        _ => FrameDecision { reconfigure: false, render: false },
    }
}

/// The canvas, the panel beside the drawing, and which of two numbers is the
/// larger and the smaller.
pub proof fn law_canvas(a: int, b: int)
    ensures
        CANVAS_W == 768 && CANVAS_H == 512 && SIDE_PANEL_W == 250,
        larger(a, b) >= a && larger(a, b) >= b,
        larger(a, b) == a || larger(a, b) == b,
        smaller(a, b) <= a && smaller(a, b) <= b,
        smaller(a, b) == a || smaller(a, b) == b,
{
}

/// Where the grid does not fit the area, a cell is one pixel.
pub proof fn law_layout_of_large_grid(grid_w: int, grid_h: int, area_w: int, area_h: int)
    requires
        0 <= area_w,
        0 <= area_h,
        0 <= grid_w,
        0 <= grid_h,
        smaller(area_w, area_h) < larger(grid_w, grid_h),
    ensures
        layout_scale(grid_w, grid_h, area_w, area_h) == 1,
{
    let room = smaller(larger(area_w, grid_w), larger(area_h, grid_h));
    let longest = larger(grid_w, grid_h);
    assert(0 <= room <= longest);
    if room == longest {
        vstd::arithmetic::div_mod::lemma_div_by_self(longest);
    } else {
        vstd::arithmetic::div_mod::lemma_basic_div(room, longest);
    }
}

/// A viewport starts at the top left and is as high as it is wide.
pub proof fn law_square(side: u32)
    ensures
        square(side).x == 0 && square(side).y == 0,
        square(side).width == side && square(side).height == side,
{
}

/// What is done about a surface.
pub open spec fn frame_decision(status: SurfaceStatus) -> FrameDecision {
    FrameDecision {
        reconfigure: status == SurfaceStatus::Suboptimal || status == SurfaceStatus::Lost || status
            == SurfaceStatus::Outdated,
        render: status == SurfaceStatus::Success || status == SurfaceStatus::Suboptimal,
    }
}

/// A frame is drawn exactly where there is a texture to draw to, and the
/// surface is configured again exactly where it no longer fits; where nothing
/// is wrong with it, it is left alone.
pub proof fn law_surface()
    ensures
        frame_decision(SurfaceStatus::Success).render,
        !frame_decision(SurfaceStatus::Success).reconfigure,
        frame_decision(SurfaceStatus::Suboptimal).render,
        frame_decision(SurfaceStatus::Suboptimal).reconfigure,
        !frame_decision(SurfaceStatus::Lost).render,
        frame_decision(SurfaceStatus::Lost).reconfigure,
        !frame_decision(SurfaceStatus::Outdated).render,
        frame_decision(SurfaceStatus::Outdated).reconfigure,
        !frame_decision(SurfaceStatus::Timeout).render,
        !frame_decision(SurfaceStatus::Timeout).reconfigure,
        !frame_decision(SurfaceStatus::Occluded).render,
        !frame_decision(SurfaceStatus::Occluded).reconfigure,
        !frame_decision(SurfaceStatus::Validation).render,
        !frame_decision(SurfaceStatus::Validation).reconfigure,
{
}

/// The size that a surface gets.
pub open spec fn canvas_size(raw_w: u32, raw_h: u32, expected_w: u32, expected_h: u32) -> (u32, u32) {
    if raw_w <= 1 || raw_h <= 1 {
        (larger(expected_w as int, 1) as u32, larger(expected_h as int, 1) as u32)
    } else {
        (raw_w, raw_h)
    }
}

/// A window that has been laid out gives its own size; one that has not, the
/// size that it will have. Neither side is ever zero.
pub proof fn law_canvas_size(raw_w: u32, raw_h: u32, expected_w: u32, expected_h: u32)
    ensures
        ({
            let (w, h) = canvas_size(raw_w, raw_h, expected_w, expected_h);
            &&& w >= 1 && h >= 1
            &&& raw_w > 1 && raw_h > 1 ==> w == raw_w && h == raw_h
            &&& (raw_w <= 1 || raw_h <= 1) && expected_w >= 1 ==> w == expected_w
            &&& (raw_w <= 1 || raw_h <= 1) && expected_h >= 1 ==> h == expected_h
        }),
{
}

} // verus!
