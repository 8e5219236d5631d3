//! Copying a rendered image back to the host.
//!
//! A copy from a texture into a buffer pads every row to a multiple of 256
//! bytes; what is read back is trimmed to four bytes per pixel again.

use crate::device::{div_ceil, groups};
use vstd::prelude::*;

verus! {

/// What every row of a texture copy is padded to a multiple of, in bytes.
pub const COPY_BYTES_PER_ROW_ALIGNMENT: u32 = 256;

/// The least multiple of `alignment` that is no less than `x`.
pub open spec fn aligned(x: int, alignment: int) -> int {
    groups(x, alignment) * alignment
}

/// The least multiple of `alignment` that is no less than `x`.
pub fn align_to(x: u32, alignment: u32) -> (r: u32)
    requires
        0 < alignment,
        aligned(x as int, alignment as int) <= u32::MAX,
    ensures
        r == aligned(x as int, alignment as int),
{
    let g: u32 = div_ceil(x, alignment);
    proof {
        assert(0 <= g * alignment) by (nonlinear_arith);
    }
    g * alignment
}

/// Aligning gives a multiple, no less than the number, and the first such.
pub proof fn law_aligned(x: int, alignment: int, m: int)
    requires
        0 <= x,
        0 < alignment,
    ensures
        aligned(x, alignment) % alignment == 0,
        x <= aligned(x, alignment) < x + alignment,
        m % alignment == 0 && x <= m ==> aligned(x, alignment) <= m,
{
    crate::device::law_groups_cover(x, alignment);
    let g = groups(x, alignment);
    vstd::arithmetic::div_mod::lemma_mod_multiples_basic(g, alignment);
    if m % alignment == 0 && x <= m {
        vstd::arithmetic::div_mod::lemma_fundamental_div_mod(m, alignment);
        let q = m / alignment;
        assert(g <= q) by (nonlinear_arith)
            requires
                m == alignment * q,
                x <= m,
                g * alignment < x + alignment,
                0 < alignment,
        ;
        assert(g * alignment <= m) by (nonlinear_arith)
            requires
                g <= q,
                m == alignment * q,
                0 < alignment,
        ;
    }
}

/// Pixel formats, as far as reading back tells them apart.
#[derive(Clone, Copy, Debug, PartialEq, Eq, Structural)]
pub enum TextureFormat {
    Rgba8Unorm,
    Rgba8UnormSrgb,
    /// Any other format.
    Other,
}

/// Bytes of a row of pixels.
pub open spec fn row_bytes(width: int) -> int {
    4 * width
}

/// Bytes of a row of pixels in a texture copy.
pub open spec fn padded_row_bytes(width: int) -> int {
    aligned(row_bytes(width), 256)
}

/// The sizes of a texture copy.
#[derive(Clone, Copy, Debug, PartialEq, Eq, Structural)]
pub struct TextureReadback {
    pub width: u32,
    pub height: u32,
    /// Bytes of a row as it is copied.
    pub bytes_per_row: u32,
    /// Bytes of the staging buffer.
    pub buffer_size: u64,
}

impl TextureReadback {
    /// The sizes of a copy of `width` by `height` pixels.
    pub open spec fn of(width: u32, height: u32) -> TextureReadback {
        TextureReadback {
            width,
            height,
            bytes_per_row: padded_row_bytes(width as int) as u32,
            buffer_size: (padded_row_bytes(width as int) * height) as u64,
        }
    }

    /// The sizes of a copy of `width` by `height` pixels.
    pub fn new(width: u32, height: u32) -> (plan: TextureReadback)
        requires
            padded_row_bytes(width as int) <= u32::MAX,
        ensures
            plan == TextureReadback::of(width, height),
            plan.buffer_size == plan.bytes_per_row * height,
            plan.bytes_per_row % 256 == 0,
    {
        proof {
            law_aligned(row_bytes(width as int), 256, 0);
        }
        let bytes_per_row: u32 = align_to(width * 4, COPY_BYTES_PER_ROW_ALIGNMENT);
        proof {
            crate::passes::tile::lemma_product3(bytes_per_row as int, height as int, 1);
        }
        TextureReadback {
            width,
            height,
            bytes_per_row,
            buffer_size: bytes_per_row as u64 * height as u64,
        }
    }
}

/// The sizes of the copy of a texture; `None` where the format does not hold
/// four bytes of red, green, blue and alpha per pixel.
pub fn readback_rgba8_texture(format: TextureFormat, width: u32, height: u32) -> (plan: Option<
    TextureReadback,
>)
    requires
        padded_row_bytes(width as int) <= u32::MAX,
    ensures
        plan is None <==> format == TextureFormat::Other,
        plan is Some ==> plan->0 == TextureReadback::of(width, height),
{
    match format {
        TextureFormat::Other => None,
        _ => Some(TextureReadback::new(width, height)),
    }
}

/// The image in a texture copy: the pixels of every row, without the padding.
pub open spec fn tight(bytes: Seq<u8>, width: int, height: int) -> Seq<u8> {
    let row = row_bytes(width);
    Seq::new(
        (row * height) as nat,
        |i: int| bytes[(i / row) * padded_row_bytes(width) + i % row],
    )
}

/// An image as a texture copy holds it: every row padded, with whatever bytes.
pub open spec fn is_padded(bytes: Seq<u8>, image: Seq<u8>, width: int, height: int) -> bool {
    let row = row_bytes(width);
    &&& image.len() == row * height
    &&& bytes.len() >= padded_row_bytes(width) * height
    &&& forall|y: int, x: int|
        0 <= y < height && 0 <= x < row ==> #[trigger] bytes[y * padded_row_bytes(width) + x]
            == image[y * row + x]
}

/// Trimming a padded image gives the image.
pub proof fn law_trim_undoes_padding(bytes: Seq<u8>, image: Seq<u8>, width: int, height: int)
    requires
        0 <= width,
        0 <= height,
        is_padded(bytes, image, width, height),
    ensures
        tight(bytes, width, height) == image,
{
    let row = row_bytes(width);
    assert forall|i: int| 0 <= i < image.len() implies tight(bytes, width, height)[i]
        == image[i] by {
        lemma_in_row(i, row, height);
        let (y, x) = (i / row, i % row);
        assert(bytes[y * padded_row_bytes(width) + x] == image[y * row + x]);
    }
    assert(tight(bytes, width, height) =~= image);
}

/// A byte of the image lies in some row.
proof fn lemma_in_row(i: int, row: int, height: int)
    requires
        0 <= row,
        0 <= height,
        0 <= i < row * height,
    ensures
        0 < row,
        0 <= i / row < height,
        0 <= i % row < row,
        i == (i / row) * row + i % row,
{
    if row == 0 {
        assert(row * height == 0) by (nonlinear_arith)
            requires
                row == 0,
        ;
    }
    vstd::arithmetic::div_mod::lemma_fundamental_div_mod(i, row);
    let q = i / row;
    assert(0 <= q < height && row * q == q * row) by (nonlinear_arith)
        requires
            i == row * q + i % row,
            0 <= i % row < row,
            0 <= i < row * height,
    ;
}

/// Trims a texture copy to the pixels of its rows.
pub fn strip_row_padding(bytes: &[u8], width: u32, height: u32) -> (image: Vec<u8>)
    requires
        padded_row_bytes(width as int) <= u32::MAX,
        bytes@.len() >= padded_row_bytes(width as int) * height,
    ensures
        image@ == tight(bytes@, width as int, height as int),
{
    let plan = TextureReadback::new(width, height);
    let ghost (gw, gh) = (width as int, height as int);
    let ghost row = row_bytes(gw);
    let ghost padded = padded_row_bytes(gw);
    let total: usize = bytes.len();
    proof {
        law_aligned(row, 256, 0);
        assert(row * 0 == 0) by (nonlinear_arith);
    }
    let row_len: usize = (width * 4) as usize;
    let stride: usize = plan.bytes_per_row as usize;
    let mut image: Vec<u8> = Vec::new();
    for y in 0..height
        invariant
            gw == width,
            gh == height,
            row == row_bytes(gw) == row_len,
            padded == padded_row_bytes(gw) == stride,
            row <= padded,
            total == bytes@.len() >= padded * gh,
            image@.len() == row * y,
            forall|i: int|
                0 <= i < image@.len() ==> #[trigger] image@[i] == tight(bytes@, gw, gh)[i],
    {
        proof {
            assert(0 <= y * padded && y * padded + padded <= padded * gh) by (nonlinear_arith)
                requires
                    0 <= y,
                    y + 1 <= gh,
                    0 <= padded,
            ;
        }
        let start: usize = y as usize * stride;
        for x in 0..row_len
            invariant
                gw == width,
                gh == height,
                y < height,
                row == row_bytes(gw) == row_len,
                padded == padded_row_bytes(gw) == stride,
                row <= padded,
                start == y * padded,
                start + padded <= total,
                total == bytes@.len(),
                image@.len() == row * y + x,
                forall|i: int|
                    0 <= i < image@.len() ==> #[trigger] image@[i] == tight(bytes@, gw, gh)[i],
        {
            proof {
                let i = row * y + x;
                assert(0 <= i < row * gh) by (nonlinear_arith)
                    requires
                        i == row * y + x,
                        0 <= x < row,
                        0 <= y,
                        y + 1 <= gh,
                ;
                assert(row * y == y * row) by (nonlinear_arith);
                vstd::arithmetic::div_mod::lemma_fundamental_div_mod_converse(
                    i,
                    row,
                    y as int,
                    x as int,
                );
            }
            image.push(bytes[start + x]);
        }
        proof {
            assert(row * y + row == row * (y + 1)) by (nonlinear_arith);
        }
    }
    assert(image@ =~= tight(bytes@, gw, gh));
    image
}

/// Byte `ch` of the pixel at row `y`, column `x` is byte
/// `(y * width + x) * 4 + ch` of the trimmed image, and stands in the copy at
/// `4 * x + ch` of row `y`; a row of the copy is the least multiple of 256 bytes
/// that four bytes per pixel fit in.
pub proof fn law_trimmed_pixels(bytes: Seq<u8>, width: int, height: int, y: int, x: int, ch: int)
    requires
        0 <= x < width,
        0 <= y < height,
        0 <= ch < 4,
    ensures
        ({
            let stride = padded_row_bytes(width);
            &&& stride % 256 == 0
            &&& 4 * width <= stride < 4 * width + 256
            &&& tight(bytes, width, height).len() == 4 * width * height
            &&& tight(bytes, width, height)[(y * width + x) * 4 + ch] == bytes[y * stride + 4 * x
                + ch]
        }),
{
    law_aligned(4 * width, 256, 0);
    let row = row_bytes(width);
    let i = (y * width + x) * 4 + ch;
    let rest = 4 * x + ch;
    assert(i == y * row + rest) by (nonlinear_arith)
        requires
            i == (y * width + x) * 4 + ch,
            row == 4 * width,
            rest == 4 * x + ch,
    ;
    assert(0 <= i < row * height) by (nonlinear_arith)
        requires
            i == y * row + rest,
            0 <= rest < row,
            0 <= y,
            y + 1 <= height,
    ;
    vstd::arithmetic::div_mod::lemma_fundamental_div_mod_converse(i, row, y, rest);
    assert(0 <= row * height) by (nonlinear_arith)
        requires
            0 <= row,
            0 <= height,
    ;
}

/// A copy has the size of its image: as many pixels per row, as many rows, and
/// a staging buffer of whole padded rows.
pub proof fn law_copy_sizes(width: u32, height: u32)
    requires
        padded_row_bytes(width as int) <= u32::MAX,
    ensures
        ({
            let copy = TextureReadback::of(width, height);
            &&& copy.width == width && copy.height == height
            &&& copy.bytes_per_row % 256 == 0
            &&& 4 * width <= copy.bytes_per_row < 4 * width + 256
            &&& copy.buffer_size == copy.bytes_per_row * height
        }),
{
    law_aligned(4 * width, 256, 0);
    let p = padded_row_bytes(width as int);
    assert(0 <= p * height <= u64::MAX) by (nonlinear_arith)
        requires
            0 <= p <= u32::MAX,
            0 <= height <= u32::MAX,
    ;
}

} // verus!
