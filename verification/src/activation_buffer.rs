//! The activation field in its device layout.
//!
//! On the device a field is flat and channel-major: the element at row `y`,
//! column `x`, channel `c` of an `H * W * C` field is word
//! `c * H * W + y * W + x`, so that a pass that walks one channel walks
//! contiguous memory.

use crate::device::{filled, Buffer, BufferUsages, GpuContext};
use crate::field::{
    field_cells, field_extents, in_extents3, nonzero, shape_fits3, ActivationField,
};
use crate::index::{idx3, lemma_idx3, lemma_idx3_onto, lemma_idx3_step};
use crate::readback::decode_readback;
use crate::words::{bytes_words, word_bytes, words_to_bytes, F32Bits};
use vstd::prelude::*;

verus! {

/// The device layout of a field.
pub open spec fn channel_major(f: ActivationField) -> Seq<u32> {
    Seq::new(
        (f.c() * f.h() * f.w()) as nat,
        |i: int| f.at(i / f.w() % f.h(), i % f.w(), i / f.w() / f.h()),
    )
}

/// A field holds one element at every index below its axis lengths and no
/// other, and its axis lengths are no negative numbers.
pub open spec fn valid_field(f: ActivationField) -> bool {
    &&& 0 <= f.h() && 0 <= f.w() && 0 <= f.c()
    &&& forall|i: (int, int, int)| #[trigger]
        field_cells(f).dom().contains(i) <==> in_extents3(i, field_extents(f))
}

/// The element at row `y`, column `x`, channel `c` is word
/// `c * H * W + y * W + x` of the device layout.
pub proof fn law_channel_major_index(f: ActivationField, y: int, x: int, c: int)
    requires
        in_extents3((y, x, c), field_extents(f)),
    ensures
        0 <= c * f.h() * f.w() + y * f.w() + x < channel_major(f).len(),
        channel_major(f)[c * f.h() * f.w() + y * f.w() + x] == f.at(y, x, c),
{
    lemma_idx3(c, y, x, f.c(), f.h(), f.w());
    crate::index::lemma_idx3_sum(c, y, x, f.h(), f.w());
}

/// Two fields of one shape with one device layout are the same field: a field
/// that was laid out and read back is the field.
pub proof fn law_layout_determines_field(f: ActivationField, g: ActivationField)
    requires
        valid_field(f),
        valid_field(g),
        field_extents(f) == field_extents(g),
        channel_major(f) == channel_major(g),
    ensures
        field_cells(f) == field_cells(g),
{
    assert forall|i: (int, int, int)| #[trigger] field_cells(f).dom().contains(i) implies
        field_cells(f)[i] == field_cells(g)[i] by {
        law_channel_major_index(f, i.0, i.1, i.2);
        law_channel_major_index(g, i.0, i.1, i.2);
    }
    assert(field_cells(f) =~= field_cells(g));
}

/// Where the axis lengths fit an array, all their products fit a `usize`.
pub proof fn lemma_products_fit(h: int, w: int, c: int)
    requires
        0 <= h,
        0 <= w,
        0 <= c,
        shape_fits3((h, w, c)),
    ensures
        0 <= c * h <= usize::MAX,
        0 <= h * w <= usize::MAX,
        0 <= c * h * w <= usize::MAX,
        h * w * c == c * h * w,
{
    let (a, b, d) = (nonzero(h), nonzero(w), nonzero(c));
    assert(c * h <= a * b * d && h * w <= a * b * d && c * h * w <= a * b * d) by (nonlinear_arith)
        requires
            0 <= h <= a,
            0 <= w <= b,
            0 <= c <= d,
            1 <= a,
            1 <= b,
            1 <= d,
    ;
    assert(0 <= c * h && 0 <= h * w && 0 <= c * h * w && h * w * c == c * h * w)
        by (nonlinear_arith)
        requires
            0 <= h,
            0 <= w,
            0 <= c,
    ;
}

/// Lays a field out for the device.
pub fn flatten_activation_channel_major(a: &ActivationField) -> (flat: Vec<F32Bits>)
    ensures
        flat@ == channel_major(*a),
{
    let (h, w, c) = a.dim();
    let ghost (gh, gw, gc) = (h as int, w as int, c as int);
    let mut flat: Vec<F32Bits> = Vec::new();
    proof {
        lemma_products_fit(gh, gw, gc);
        lemma_idx3_step(0, 0, gh, gw);
    }
    for ci in 0..c
        invariant
            field_extents(*a) == (gh, gw, gc),
            gh == h,
            gw == w,
            gc == c,
            flat@.len() == idx3(ci as int, 0, 0, gh, gw),
            forall|j: int| 0 <= j < flat@.len() ==> flat@[j] == channel_major(*a)[j],
    {
        for y in 0..h
            invariant
                ci < c,
                field_extents(*a) == (gh, gw, gc),
                gh == h,
                gw == w,
                gc == c,
                flat@.len() == idx3(ci as int, y as int, 0, gh, gw),
                forall|j: int| 0 <= j < flat@.len() ==> flat@[j] == channel_major(*a)[j],
        {
            for x in 0..w
                invariant
                    ci < c,
                    y < h,
                    field_extents(*a) == (gh, gw, gc),
                    gh == h,
                    gw == w,
                    gc == c,
                    flat@.len() == idx3(ci as int, y as int, x as int, gh, gw),
                    forall|j: int| 0 <= j < flat@.len() ==> flat@[j] == channel_major(*a)[j],
            {
                proof {
                    lemma_idx3(ci as int, y as int, x as int, gc, gh, gw);
                }
                flat.push(a.get(y, x, ci));
            }
            proof {
                lemma_idx3_step(ci as int, y as int, gh, gw);
            }
        }
        proof {
            lemma_idx3_step(ci as int, 0, gh, gw);
        }
    }
    proof {
        assert((gc * gh + 0) * gw + 0 == gc * gh * gw);
    }
    assert(flat@ =~= channel_major(*a));
    flat
}

/// Reads a field of the given shape from its device layout.
pub fn unflatten_activation_channel_major(flat: &[F32Bits], h: usize, w: usize, c: usize) -> (a:
    ActivationField)
    requires
        flat@.len() == h * w * c,
        shape_fits3((h as int, w as int, c as int)),
        4 * (h * w * c) <= isize::MAX,
    ensures
        field_extents(a) == (h as int, w as int, c as int),
        valid_field(a),
        channel_major(a) == flat@,
{
    let mut a = ActivationField::zeros(h, w, c);
    let ghost (gh, gw, gc) = (h as int, w as int, c as int);
    let ghost e = (gh, gw, gc);
    proof {
        lemma_products_fit(gh, gw, gc);
        lemma_idx3_step(0, 0, gh, gw);
    }
    let mut i: usize = 0;
    for ci in 0..c
        invariant
            gh == h,
            gw == w,
            gc == c,
            e == (gh, gw, gc),
            flat@.len() == gc * gh * gw,
            field_extents(a) == e,
            i == idx3(ci as int, 0, 0, gh, gw),
            forall|k: (int, int, int)| #[trigger]
                field_cells(a).dom().contains(k) <==> in_extents3(k, e),
            forall|yy: int, xx: int, cc: int|
                in_extents3((yy, xx, cc), e) && idx3(cc, yy, xx, gh, gw) < i ==> #[trigger] a.at(
                    yy,
                    xx,
                    cc,
                ) == flat@[idx3(cc, yy, xx, gh, gw)],
    {
        for y in 0..h
            invariant
                ci < c,
                gh == h,
                gw == w,
                gc == c,
                e == (gh, gw, gc),
                flat@.len() == gc * gh * gw,
                field_extents(a) == e,
                i == idx3(ci as int, y as int, 0, gh, gw),
                forall|k: (int, int, int)| #[trigger]
                    field_cells(a).dom().contains(k) <==> in_extents3(k, e),
                forall|yy: int, xx: int, cc: int|
                    in_extents3((yy, xx, cc), e) && idx3(cc, yy, xx, gh, gw) < i
                        ==> #[trigger] a.at(yy, xx, cc) == flat@[idx3(cc, yy, xx, gh, gw)],
        {
            for x in 0..w
                invariant
                    ci < c,
                    y < h,
                    gh == h,
                    gw == w,
                    gc == c,
                    e == (gh, gw, gc),
                    flat@.len() == gc * gh * gw,
                    field_extents(a) == e,
                    i == idx3(ci as int, y as int, x as int, gh, gw),
                    forall|k: (int, int, int)| #[trigger]
                        field_cells(a).dom().contains(k) <==> in_extents3(k, e),
                    forall|yy: int, xx: int, cc: int|
                        in_extents3((yy, xx, cc), e) && idx3(cc, yy, xx, gh, gw) < i
                            ==> #[trigger] a.at(yy, xx, cc) == flat@[idx3(cc, yy, xx, gh, gw)],
            {
                proof {
                    lemma_idx3(ci as int, y as int, x as int, gc, gh, gw);
                }
                let ghost before = a;
                a.set(y, x, ci, flat[i]);
                proof {
                    assert forall|yy: int, xx: int, cc: int|
                        in_extents3((yy, xx, cc), e) && idx3(cc, yy, xx, gh, gw) < i + 1 implies
                        #[trigger] a.at(yy, xx, cc) == flat@[idx3(cc, yy, xx, gh, gw)] by {
                        lemma_idx3(cc, yy, xx, gc, gh, gw);
                        if (yy, xx, cc) != (y as int, x as int, ci as int) {
                            assert(a.at(yy, xx, cc) == before.at(yy, xx, cc));
                        }
                    }
                }
                i = i + 1;
            }
            proof {
                lemma_idx3_step(ci as int, y as int, gh, gw);
            }
        }
        proof {
            lemma_idx3_step(ci as int, 0, gh, gw);
        }
    }
    proof {
        assert forall|j: int| 0 <= j < flat@.len() implies channel_major(a)[j] == flat@[j] by {
            lemma_idx3_onto(j, gc, gh, gw);
            assert(a.at(j / gw % gh, j % gw, j / gw / gh) == flat@[j]);
        }
        assert(channel_major(a) =~= flat@);
    }
    a
}

/// Usages of an activation buffer: storage, and both ends of copies.
pub open spec fn activation_usage() -> BufferUsages {
    BufferUsages::of_storage().and_copy_dst().and_copy_src()
}

/// Asks for a storage buffer that holds a field.
pub fn upload_activation(ctx: &mut GpuContext, a: &ActivationField) -> (buffer: Buffer)
    ensures
        buffer.id == old(ctx)@.len(),
        final(ctx)@ == old(ctx)@.push(filled(word_bytes(channel_major(*a)), activation_usage())),
        final(ctx).queue() == old(ctx).queue(),
{
    let flat = flatten_activation_channel_major(a);
    let usage = BufferUsages::storage().with_copy_dst().with_copy_src();
    ctx.create_buffer_init(words_to_bytes(flat.as_slice()), usage)
}

/// The field in the bytes of a read-back activation buffer; `None` where the
/// bytes are not those of a field of this shape.
pub fn readback_activation(bytes: &[u8], h: usize, w: usize, c: usize) -> (a: Option<
    ActivationField,
>)
    requires
        shape_fits3((h as int, w as int, c as int)),
        4 * (h * w * c) <= isize::MAX,
    ensures
        a is Some <==> bytes@.len() == 4 * (h * w * c),
        a is Some ==> valid_field(a->0) && field_extents(a->0) == (h as int, w as int, c as int)
            && channel_major(a->0) == bytes_words(bytes@),
{
    proof {
        lemma_products_fit(h as int, w as int, c as int);
    }
    match decode_readback(bytes, h * w * c) {
        None => None,
        Some(flat) => Some(unflatten_activation_channel_major(flat.as_slice(), h, w, c)),
    }
}

/// Uploading a field and reading the buffer back gives the field, bit for bit.
pub proof fn law_upload_readback(f: ActivationField, g: ActivationField)
    requires
        valid_field(f),
        valid_field(g),
        field_extents(f) == field_extents(g),
        channel_major(g) == bytes_words(word_bytes(channel_major(f))),
    ensures
        field_cells(f) == field_cells(g),
{
    crate::words::law_words_round_trip(channel_major(f));
    law_layout_determines_field(f, g);
}

} // verus!
