//! The kernel bank in its device layout.
//!
//! Kernels differ in size. Every kernel is centred in a square of the largest
//! side, zero elsewhere, and the squares are packed one after the other: the
//! element at row `y`, column `x` of kernel `k` is word
//! `k * side * side + y * side + x`. The channels and the growth function of
//! each kernel stand in a second buffer, four words per kernel.

use crate::config::{KernelEntry, KernelParams};
use crate::device::{
    filled, zeroed, Buffer, BufferSpec, BufferUsages, Command, CommandEncoder, GpuContext,
};
use crate::field::KernelImage;
use crate::index::{idx3, lemma_idx3, lemma_idx3_step};
use crate::readback::{decode_readback, readback_buffer};
use crate::words::{bytes_words, word_bytes, words_to_bytes, F32Bits};
use vstd::prelude::*;

verus! {

/// Per-kernel record on the device: four words, in this order.
#[derive(Clone, Copy, Debug, PartialEq, Eq, Structural)]
pub struct GpuKernelMeta {
    pub source_channel: u32,
    pub target_channel: u32,
    pub mu: F32Bits,
    pub sigma: F32Bits,
}

impl GpuKernelMeta {
    /// The words of the record.
    pub open spec fn words(self) -> Seq<u32> {
        seq![self.source_channel, self.target_channel, self.mu, self.sigma]
    }
}

/// The record of a kernel.
pub open spec fn meta_of(e: KernelEntry) -> GpuKernelMeta {
    GpuKernelMeta { source_channel: e.c0, target_channel: e.c1, mu: e.mu, sigma: e.sigma }
}

/// The records of a bank.
pub open spec fn bank_meta(es: Seq<KernelEntry>) -> Seq<GpuKernelMeta> {
    es.map_values(|e: KernelEntry| meta_of(e))
}

/// The words of a run of records.
pub open spec fn meta_words(ms: Seq<GpuKernelMeta>) -> Seq<u32> {
    Seq::new(4 * ms.len(), |i: int| ms[i / 4].words()[i % 4])
}

/// The records in a run of words.
pub open spec fn words_meta(ws: Seq<u32>) -> Seq<GpuKernelMeta> {
    Seq::new(
        ws.len() / 4,
        |i: int|
            GpuKernelMeta {
                source_channel: ws[4 * i],
                target_channel: ws[4 * i + 1],
                mu: ws[4 * i + 2],
                sigma: ws[4 * i + 3],
            },
    )
}

/// The largest number of rows in a bank; 0 for an empty one.
pub open spec fn max_rows(ks: Seq<KernelImage>) -> int
    decreases ks.len(),
{
    if ks.len() == 0 {
        0
    } else if max_rows(ks.drop_last()) >= ks.last().rows() {
        max_rows(ks.drop_last())
    } else {
        ks.last().rows()
    }
}

/// The largest radius of a bank; 0 for an empty one.
pub open spec fn max_radius(rs: Seq<u32>) -> int
    decreases rs.len(),
{
    if rs.len() == 0 {
        0
    } else if max_radius(rs.drop_last()) >= rs.last() {
        max_radius(rs.drop_last())
    } else {
        rs.last() as int
    }
}

/// The element at row `y`, column `x` of a kernel centred in a square.
pub open spec fn padded_at(k: KernelImage, side: int, y: int, x: int) -> u32 {
    let offset = (side - k.rows()) / 2;
    if offset <= y < offset + k.rows() && offset <= x < offset + k.rows() {
        k.at(y - offset, x - offset)
    } else {
        0
    }
}

/// A bank in its device layout.
pub open spec fn packed(ks: Seq<KernelImage>, side: int) -> Seq<u32> {
    Seq::new(
        (ks.len() * side * side) as nat,
        |i: int| padded_at(ks[i / side / side], side, i / side % side, i % side),
    )
}

/// The largest number of rows is that of some kernel, and none has more.
pub proof fn lemma_max_rows(ks: Seq<KernelImage>)
    ensures
        forall|i: int| 0 <= i < ks.len() ==> (#[trigger] ks[i]).rows() <= max_rows(ks),
        0 <= max_rows(ks),
    decreases ks.len(),
{
    if ks.len() > 0 {
        lemma_max_rows(ks.drop_last());
        assert forall|i: int| 0 <= i < ks.len() implies (#[trigger] ks[i]).rows() <= max_rows(
            ks,
        ) by {
            if i < ks.len() - 1 {
                assert(ks[i] == ks.drop_last()[i]);
            }
        }
    }
}

/// The largest number of rows grows with the bank.
proof fn lemma_max_rows_take(ks: Seq<KernelImage>, i: int)
    requires
        0 <= i < ks.len(),
    ensures
        max_rows(ks.take(i + 1)) == if max_rows(ks.take(i)) >= ks[i].rows() {
            max_rows(ks.take(i))
        } else {
            ks[i].rows()
        },
        0 <= max_rows(ks.take(i)) <= max_rows(ks.take(i + 1)) <= max_rows(ks),
    decreases ks.len() - i,
{
    assert(ks.take(i + 1).drop_last() =~= ks.take(i));
    lemma_max_rows(ks.take(i));
    if i + 1 < ks.len() {
        lemma_max_rows_take(ks, i + 1);
    } else {
        assert(ks.take(i + 1) =~= ks);
    }
}

/// The largest radius grows with the bank.
proof fn lemma_max_radius_take(rs: Seq<u32>, i: int)
    requires
        0 <= i < rs.len(),
    ensures
        max_radius(rs.take(i + 1)) == if max_radius(rs.take(i)) >= rs[i] {
            max_radius(rs.take(i))
        } else {
            rs[i] as int
        },
        max_radius(rs.take(i)) <= max_radius(rs.take(i + 1)) <= max_radius(rs),
    decreases rs.len() - i,
{
    assert(rs.take(i + 1).drop_last() =~= rs.take(i));
    if i + 1 < rs.len() {
        lemma_max_radius_take(rs, i + 1);
    } else {
        assert(rs.take(i + 1) =~= rs);
    }
}

/// Each kernel's elements stand where the layout says: the element at row `y`,
/// column `x` of kernel `k` is word `k * side * side` plus
/// `(y + offset) * side + (x + offset)`, where `offset` is half of what the
/// kernel falls short of the side.
pub proof fn law_packed_index(ks: Seq<KernelImage>, k: int, y: int, x: int)
    requires
        0 <= k < ks.len(),
        0 <= y < ks[k].rows(),
        0 <= x < ks[k].rows(),
    ensures
        ({
            let side = max_rows(ks);
            let offset = (side - ks[k].rows()) / 2;
            let i = k * side * side + (y + offset) * side + (x + offset);
            &&& 0 <= i < packed(ks, side).len()
            &&& packed(ks, side)[i] == ks[k].at(y, x)
        }),
{
    lemma_max_rows(ks);
    let side = max_rows(ks);
    let offset = (side - ks[k].rows()) / 2;
    lemma_idx3(k, y + offset, x + offset, ks.len() as int, side, side);
    crate::index::lemma_idx3_sum(k, y + offset, x + offset, side, side);
}

/// Whatever a kernel does not cover of its square is zero.
pub proof fn law_packed_padding(ks: Seq<KernelImage>, k: int, y: int, x: int)
    requires
        0 <= k < ks.len(),
        0 <= y < max_rows(ks),
        0 <= x < max_rows(ks),
        ({
            let offset = (max_rows(ks) - ks[k].rows()) / 2;
            !(offset <= y < offset + ks[k].rows() && offset <= x < offset + ks[k].rows())
        }),
    ensures
        packed(ks, max_rows(ks))[k * max_rows(ks) * max_rows(ks) + y * max_rows(ks) + x] == 0,
{
    let side = max_rows(ks);
    lemma_idx3(k, y, x, ks.len() as int, side, side);
    crate::index::lemma_idx3_sum(k, y, x, side, side);
}

/// A bank of kernels of one size has no padding: the layout is the kernels, one
/// after the other.
pub proof fn law_constant_radius_has_no_padding(ks: Seq<KernelImage>, rows: int, k: int, y: int, x: int)
    requires
        forall|i: int| 0 <= i < ks.len() ==> (#[trigger] ks[i]).rows() == rows,
        0 <= k < ks.len(),
        0 <= y < rows,
        0 <= x < rows,
    ensures
        max_rows(ks) == rows,
        packed(ks, rows)[k * rows * rows + y * rows + x] == ks[k].at(y, x),
{
    lemma_max_rows(ks);
    lemma_max_rows_constant(ks, rows);
    law_packed_index(ks, k, y, x);
}

proof fn lemma_max_rows_constant(ks: Seq<KernelImage>, rows: int)
    requires
        forall|i: int| 0 <= i < ks.len() ==> (#[trigger] ks[i]).rows() == rows,
        0 < ks.len(),
        0 <= rows,
    ensures
        max_rows(ks) == rows,
    decreases ks.len(),
{
    assert(ks.last().rows() == rows);
    if ks.len() > 1 {
        assert forall|i: int| 0 <= i < ks.drop_last().len() implies (
        #[trigger] ks.drop_last()[i]).rows() == rows by {
            assert(ks.drop_last()[i] == ks[i]);
        }
        lemma_max_rows_constant(ks.drop_last(), rows);
    } else {
        assert(max_rows(ks.drop_last()) == 0);
    }
}

/// Records that were written are the records that are read.
pub proof fn law_meta_round_trip(ms: Seq<GpuKernelMeta>)
    ensures
        words_meta(meta_words(ms)) == ms,
{
    assert(words_meta(meta_words(ms)) =~= ms);
}

/// The device buffers of a kernel bank.
#[derive(Clone, Copy, Debug, PartialEq, Eq, Structural)]
pub struct GpuKernelBuffers {
    /// The packed kernels.
    pub kernels: Buffer,
    /// The per-kernel records.
    pub meta: Buffer,
    /// Number of kernels.
    pub count: u32,
    /// Side that every kernel is padded to.
    pub max_side: u32,
}

impl GpuKernelBuffers {
    /// The sizes can be computed: one square fits 32 bits, the bank 64.
    pub open spec fn sizes_fit(self) -> bool {
        &&& self.max_side * self.max_side <= u32::MAX
        &&& self.count * (self.max_side * self.max_side) * 4 <= u64::MAX
    }

    /// Number of words of one padded kernel.
    pub fn padded_kernel_len(&self) -> (len: u32)
        requires
            self.max_side * self.max_side <= u32::MAX,
        ensures
            len == self.max_side * self.max_side,
    {
        proof {
            assert(0 <= self.max_side * self.max_side) by (nonlinear_arith);
        }
        self.max_side * self.max_side
    }

    /// Bytes of the packed kernels.
    pub fn kernels_bytes(&self) -> (bytes: u64)
        requires
            self.sizes_fit(),
        ensures
            bytes == self.count * (self.max_side * self.max_side) * 4,
    {
        let len: u64 = self.padded_kernel_len() as u64;
        proof {
            assert(0 <= self.count * len) by (nonlinear_arith);
        }
        self.count as u64 * len * 4
    }

    /// Bytes of the records.
    pub fn meta_bytes(&self) -> (bytes: u64)
        ensures
            bytes == self.count * 16,
    {
        self.count as u64 * 16
    }
}

/// Why a bank cannot be uploaded.
#[derive(Clone, Copy, Debug, PartialEq, Eq, Structural)]
pub enum KernelBankError {
    /// The bank has no kernel.
    Empty,
    /// The largest image does not have the side that the radii call for.
    SideMismatch { got: u32, expected: u32 },
}

/// A kernel bank with what its parameters describe: the image and the radius of
/// each kernel.
pub struct KernelBank {
    pub params: KernelParams,
    pub images: Vec<KernelImage>,
    pub radii: Vec<u32>,
}

impl KernelBank {
    /// One image and one radius per kernel, no image with more rows than
    /// columns, and sizes that machine words can hold.
    pub open spec fn fits(self) -> bool {
        &&& self.images@.len() == self.params.kernels@.len()
        &&& self.radii@.len() == self.params.kernels@.len()
        &&& self.params.kernels@.len() <= u32::MAX
        &&& forall|i: int|
            0 <= i < self.images@.len() ==> (#[trigger] self.images@[i]).rows()
                <= self.images@[i].cols()
        &&& max_rows(self.images@) * max_rows(self.images@) <= u32::MAX
        &&& 2 * max_radius(self.radii@) + 1 <= u32::MAX
    }

    /// The largest side.
    pub open spec fn side(self) -> int {
        max_rows(self.images@)
    }

    /// Whether [`check_bank`] and [`upload_kernels`] can be called.
    pub fn check_fits(&self) -> (fits: bool)
        ensures
            fits == self.fits(),
    {
        let count: usize = self.params.kernels.len();
        if self.images.len() != count || self.radii.len() != count || count as u64
            > u32::MAX as u64 {
            return false;
        }
        for i in 0..count
            invariant
                count == self.images@.len(),
                forall|j: int|
                    0 <= j < i ==> (#[trigger] self.images@[j]).rows() <= self.images@[j].cols(),
        {
            let (rows, cols) = self.images[i].dim();
            if rows > cols {
                assert(self.images@[i as int].rows() > self.images@[i as int].cols());
                return false;
            }
        }
        let rows: u128 = largest_rows(&self.images) as u128;
        let radius: u64 = largest_radius(&self.radii) as u64;
        proof {
            assert(0 <= rows * rows <= u64::MAX * u64::MAX) by (nonlinear_arith)
                requires
                    0 <= rows <= u64::MAX,
            ;
        }
        rows * rows <= u32::MAX as u128 && 2 * radius + 1 <= u32::MAX as u64
    }
}

/// The largest number of rows in a bank; 0 for an empty one.
fn largest_rows(images: &Vec<KernelImage>) -> (rows: usize)
    ensures
        rows == max_rows(images@),
{
    let mut most: usize = 0;
    let count: usize = images.len();
    assert(images@.take(0) =~= Seq::<KernelImage>::empty());
    for i in 0..count
        invariant
            count == images@.len(),
            most == max_rows(images@.take(i as int)),
    {
        proof {
            lemma_max_rows_take(images@, i as int);
        }
        let rows: usize = images[i].dim().0;
        if rows > most {
            most = rows;
        }
    }
    assert(images@.take(count as int) =~= images@);
    most
}

/// The largest radius of a bank; 0 for an empty one.
fn largest_radius(radii: &Vec<u32>) -> (radius: u32)
    ensures
        radius == max_radius(radii@),
{
    let mut most: u32 = 0;
    let count: usize = radii.len();
    assert(radii@.take(0) =~= Seq::<u32>::empty());
    for i in 0..count
        invariant
            count == radii@.len(),
            most == max_radius(radii@.take(i as int)),
    {
        proof {
            lemma_max_radius_take(radii@, i as int);
        }
        if radii[i] > most {
            most = radii[i];
        }
    }
    assert(radii@.take(count as int) =~= radii@);
    most
}

/// Usages of the packed kernels.
pub open spec fn kernels_usage() -> BufferUsages {
    BufferUsages::of_storage().and_copy_dst().and_copy_src()
}

/// Usages of the records: bound as a uniform block or as storage.
pub open spec fn meta_usage() -> BufferUsages {
    BufferUsages { storage: true, uniform: true, copy_src: true, copy_dst: true, map_read: false }
}

/// The two buffers of a bank.
pub open spec fn bank_buffers(bank: KernelBank) -> Seq<BufferSpec> {
    seq![
        filled(word_bytes(packed(bank.images@, bank.side())), kernels_usage()),
        filled(word_bytes(meta_words(bank_meta(bank.params.kernels@))), meta_usage()),
    ]
}

/// The error that a bank is refused with, if it is.
pub open spec fn bank_error(bank: KernelBank) -> Option<KernelBankError> {
    if bank.params.kernels@.len() == 0 {
        Some(KernelBankError::Empty)
    } else if bank.side() != 2 * max_radius(bank.radii@) + 1 {
        Some(
            KernelBankError::SideMismatch {
                got: bank.side() as u32,
                expected: (2 * max_radius(bank.radii@) + 1) as u32,
            },
        )
    } else {
        None
    }
}

/// The device buffers of a bank whose first buffer is `base`.
pub open spec fn uploaded_bank(bank: KernelBank, base: int) -> GpuKernelBuffers {
    GpuKernelBuffers {
        kernels: Buffer { id: base as usize },
        meta: Buffer { id: (base + 1) as usize },
        count: bank.params.kernels@.len() as u32,
        max_side: bank.side() as u32,
    }
}

/// Packs kernel images into their device layout.
pub fn pack_kernels(kernels: &Vec<KernelImage>, max_side: u32) -> (words: Vec<F32Bits>)
    requires
        max_side == max_rows(kernels@),
        forall|i: int|
            0 <= i < kernels@.len() ==> (#[trigger] kernels@[i]).rows() <= kernels@[i].cols(),
    ensures
        words@ == packed(kernels@, max_side as int),
{
    let side: usize = max_side as usize;
    let ghost s = side as int;
    let count: usize = kernels.len();
    let ghost n = count as int;
    let mut words: Vec<F32Bits> = Vec::new();
    proof {
        lemma_idx3_step(0, 0, s, s);
        lemma_max_rows(kernels@);
    }
    for k in 0..count
        invariant
            s == side == max_side,
            n == count == kernels@.len(),
            s == max_rows(kernels@),
            forall|i: int| 0 <= i < kernels@.len() ==> (#[trigger] kernels@[i]).rows() <= s,
            forall|i: int|
                0 <= i < kernels@.len() ==> (#[trigger] kernels@[i]).rows() <= kernels@[i].cols(),
            words@.len() == idx3(k as int, 0, 0, s, s),
            forall|j: int| 0 <= j < words@.len() ==> words@[j] == packed(kernels@, s)[j],
    {
        let image = &kernels[k];
        let rows: usize = image.dim().0;
        assert(kernels@[k as int].rows() <= s);
        let offset: usize = (side - rows) / 2;
        for y in 0..side
            invariant
                s == side == max_side,
                k < count,
                n == count == kernels@.len(),
                *image == kernels@[k as int],
                rows == image.rows(),
                rows <= image.cols(),
                rows <= side,
                offset == (s - rows) / 2,
                words@.len() == idx3(k as int, y as int, 0, s, s),
                forall|j: int| 0 <= j < words@.len() ==> words@[j] == packed(kernels@, s)[j],
        {
            for x in 0..side
                invariant
                    s == side == max_side,
                    k < count,
                    y < side,
                    n == count == kernels@.len(),
                    *image == kernels@[k as int],
                    rows == image.rows(),
                    rows <= image.cols(),
                    rows <= side,
                    offset == (s - rows) / 2,
                    words@.len() == idx3(k as int, y as int, x as int, s, s),
                    forall|j: int| 0 <= j < words@.len() ==> words@[j] == packed(kernels@, s)[j],
            {
                proof {
                    lemma_idx3(k as int, y as int, x as int, n, s, s);
                }
                if offset <= y && y - offset < rows && offset <= x && x - offset < rows {
                    words.push(image.get(y - offset, x - offset));
                } else {
                    words.push(0);
                }
            }
            proof {
                lemma_idx3_step(k as int, y as int, s, s);
            }
        }
        proof {
            lemma_idx3_step(k as int, 0, s, s);
        }
    }
    assert(words@ =~= packed(kernels@, s));
    words
}

/// The records of a bank, as words.
pub fn pack_meta(kernels: &Vec<KernelEntry>) -> (words: Vec<u32>)
    ensures
        words@ == meta_words(bank_meta(kernels@)),
{
    let mut words: Vec<u32> = Vec::new();
    let n: usize = kernels.len();
    for i in 0..n
        invariant
            n == kernels@.len(),
            words@ == meta_words(bank_meta(kernels@.take(i as int))),
    {
        let e: KernelEntry = kernels[i];
        words.push(e.c0);
        words.push(e.c1);
        words.push(e.mu);
        words.push(e.sigma);
        proof {
            let before = bank_meta(kernels@.take(i as int));
            let after = bank_meta(kernels@.take(i + 1));
            assert forall|j: int| 0 <= j < 4 * (i + 1) implies meta_words(after)[j] == words@[j] by {
                if j / 4 < i {
                    assert(after[j / 4] == before[j / 4]);
                } else {
                    assert(after[j / 4] == meta_of(e));
                }
            }
            assert(words@ =~= meta_words(after));
        }
    }
    assert(kernels@.take(n as int) =~= kernels@);
    words
}

/// The side that a bank is padded to, or why it cannot be uploaded: it must not
/// be empty, and the largest image must have the side `2 * radius + 1` of the
/// largest radius.
pub fn check_bank(bank: &KernelBank) -> (result: Result<u32, KernelBankError>)
    requires
        bank.fits(),
    ensures
        match bank_error(*bank) {
            Some(e) => result == Err::<u32, KernelBankError>(e),
            None => result == Ok::<u32, KernelBankError>(bank.side() as u32),
        },
        0 <= bank.side() <= u32::MAX,
{
    proof {
        lemma_max_rows(bank.images@);
        let m = max_rows(bank.images@);
        assert(m <= u32::MAX) by (nonlinear_arith)
            requires
                m * m <= u32::MAX,
        ;
    }
    if bank.params.kernels.len() == 0 {
        return Err(KernelBankError::Empty);
    }
    let max_side: u32 = largest_rows(&bank.images) as u32;
    let radius: u32 = largest_radius(&bank.radii);
    let expected: u32 = 2 * radius + 1;
    if max_side != expected {
        return Err(KernelBankError::SideMismatch { got: max_side, expected });
    }
    Ok(max_side)
}

/// Packs a bank that passes [`check_bank`] and asks for its two buffers.
pub fn place_bank(ctx: &mut GpuContext, bank: &KernelBank, max_side: u32) -> (buffers:
    GpuKernelBuffers)
    requires
        bank.fits(),
        max_side == bank.side(),
    ensures
        buffers == uploaded_bank(*bank, old(ctx)@.len() as int),
        final(ctx)@ == old(ctx)@ + bank_buffers(*bank),
        final(ctx).queue() == old(ctx).queue(),
        old(ctx)@.len() + 1 <= usize::MAX,
{
    let packed_words = pack_kernels(&bank.images, max_side);
    let meta_vec = pack_meta(&bank.params.kernels);
    let storage = BufferUsages::storage().with_copy_dst().with_copy_src();
    let kernels = ctx.create_buffer_init(words_to_bytes(packed_words.as_slice()), storage);
    let both = BufferUsages {
        storage: true,
        uniform: true,
        copy_src: true,
        copy_dst: true,
        map_read: false,
    };
    let meta = ctx.create_buffer_init(words_to_bytes(meta_vec.as_slice()), both);
    assert(ctx@ =~= old(ctx)@ + bank_buffers(*bank));
    GpuKernelBuffers { kernels, meta, count: bank.params.kernels.len() as u32, max_side }
}

/// Packs a bank and asks for its two buffers.
pub fn upload_kernels(ctx: &mut GpuContext, bank: &KernelBank) -> (result: Result<
    GpuKernelBuffers,
    KernelBankError,
>)
    requires
        bank.fits(),
    ensures
        match bank_error(*bank) {
            Some(e) => {
                &&& result == Err::<GpuKernelBuffers, KernelBankError>(e)
                &&& final(ctx)@ == old(ctx)@
            },
            None => {
                &&& result == Ok::<GpuKernelBuffers, KernelBankError>(
                    uploaded_bank(*bank, old(ctx)@.len() as int),
                )
                &&& final(ctx)@ == old(ctx)@ + bank_buffers(*bank)
                &&& old(ctx)@.len() + 1 <= usize::MAX
            },
        },
        final(ctx).queue() == old(ctx).queue(),
{
    match check_bank(bank) {
        Ok(max_side) => Ok(place_bank(ctx, bank, max_side)),
        Err(e) => Err(e),
    }
}

/// Records the readback of the packed kernels.
pub fn readback_kernels(
    ctx: &mut GpuContext,
    encoder: &mut CommandEncoder,
    buffers: &GpuKernelBuffers,
) -> (staging: Buffer)
    requires
        buffers.max_side * buffers.max_side <= u32::MAX,
        buffers.count * (buffers.max_side * buffers.max_side) <= u32::MAX,
        4 * (buffers.count * (buffers.max_side * buffers.max_side)) <= usize::MAX,
    ensures
        staging.id == old(ctx)@.len(),
        final(ctx)@ == old(ctx)@.push(
            zeroed(
                4 * (buffers.count * (buffers.max_side * buffers.max_side)),
                BufferUsages::of_readback(),
            ),
        ),
        final(ctx).queue() == old(ctx).queue(),
        final(encoder)@ == old(encoder)@.push(
            (Command::Copy {
                src: buffers.kernels,
                src_offset: 0,
                dst: staging,
                dst_offset: 0,
                size: (4 * (buffers.count * (buffers.max_side * buffers.max_side))) as u64,
            }),
        ),
{
    let len: u32 = buffers.padded_kernel_len();
    proof {
        assert(0 <= buffers.count * len) by (nonlinear_arith);
    }
    let elements: usize = (buffers.count * len) as usize;
    readback_buffer(ctx, encoder, buffers.kernels, elements, 1)
}

/// Records the readback of the records.
pub fn readback_meta(
    ctx: &mut GpuContext,
    encoder: &mut CommandEncoder,
    buffers: &GpuKernelBuffers,
) -> (staging: Buffer)
    requires
        16 * buffers.count <= usize::MAX,
    ensures
        staging.id == old(ctx)@.len(),
        final(ctx)@ == old(ctx)@.push(zeroed(16 * buffers.count, BufferUsages::of_readback())),
        final(ctx).queue() == old(ctx).queue(),
        final(encoder)@ == old(encoder)@.push(
            (Command::Copy {
                src: buffers.meta,
                src_offset: 0,
                dst: staging,
                dst_offset: 0,
                size: (16 * buffers.count) as u64,
            }),
        ),
{
    readback_buffer(ctx, encoder, buffers.meta, buffers.count as usize, 4)
}

/// The records in a mapped staging buffer; `None` where it does not hold
/// exactly `count` of them.
pub fn decode_meta(bytes: &[u8], count: u32) -> (meta: Option<Vec<GpuKernelMeta>>)
    requires
        4 * count <= usize::MAX,
    ensures
        meta is Some <==> bytes@.len() == 16 * count,
        meta is Some ==> meta->0@ == words_meta(bytes_words(bytes@)),
{
    let n: usize = count as usize;
    match decode_readback(bytes, 4 * n) {
        None => None,
        Some(words) => {
            let mut meta: Vec<GpuKernelMeta> = Vec::new();
            for i in 0..n
                invariant
                    words@.len() == 4 * n <= usize::MAX,
                    meta@.len() == i,
                    forall|j: int| 0 <= j < i ==> meta@[j] == words_meta(words@)[j],
            {
                meta.push(
                    GpuKernelMeta {
                        source_channel: words[4 * i],
                        target_channel: words[4 * i + 1],
                        mu: words[4 * i + 2],
                        sigma: words[4 * i + 3],
                    },
                );
            }
            assert(meta@ =~= words_meta(words@));
            Some(meta)
        },
    }
}

/// The side that a bank is padded to is the number of rows of some kernel, and
/// no kernel has more.
pub proof fn law_side_is_largest(bank: KernelBank)
    requires
        bank.side() > 0,
    ensures
        exists|i: int|
            0 <= i < bank.images@.len() && (#[trigger] bank.images@[i]).rows() == bank.side(),
        forall|i: int|
            0 <= i < bank.images@.len() ==> (#[trigger] bank.images@[i]).rows() <= bank.side(),
{
    lemma_max_rows(bank.images@);
    lemma_max_rows_attained(bank.images@);
}

proof fn lemma_max_rows_attained(ks: Seq<KernelImage>)
    requires
        max_rows(ks) > 0,
    ensures
        exists|i: int| 0 <= i < ks.len() && (#[trigger] ks[i]).rows() == max_rows(ks),
    decreases ks.len(),
{
    let rest = ks.drop_last();
    if max_rows(rest) >= ks.last().rows() {
        lemma_max_rows_attained(rest);
        let i = choose|i: int| 0 <= i < rest.len() && (#[trigger] rest[i]).rows() == max_rows(rest);
        assert(ks[i] == rest[i]);
    } else {
        assert(ks[ks.len() - 1] == ks.last());
    }
}

/// A bank is accepted exactly where it has a kernel and its largest image is as
/// large as its largest radius calls for: twice the radius and the centre.
pub proof fn law_bank_accepted(bank: KernelBank, r: u32)
    requires
        forall|i: int| 0 <= i < bank.radii@.len() ==> #[trigger] bank.radii@[i] <= r,
        exists|i: int| 0 <= i < bank.radii@.len() && #[trigger] bank.radii@[i] == r,
    ensures
        bank_error(bank) is None <==> bank.params.kernels@.len() > 0 && bank.side() == 2 * r + 1,
        bank_error(bank) == Some(KernelBankError::Empty) <==> bank.params.kernels@.len() == 0,
{
    lemma_max_radius(bank.radii@, r);
}

proof fn lemma_max_radius(rs: Seq<u32>, r: u32)
    requires
        forall|i: int| 0 <= i < rs.len() ==> #[trigger] rs[i] <= r,
    ensures
        max_radius(rs) <= r,
        (exists|i: int| 0 <= i < rs.len() && #[trigger] rs[i] == r) ==> max_radius(rs) == r,
    decreases rs.len(),
{
    if rs.len() > 0 {
        let rest = rs.drop_last();
        assert forall|i: int| 0 <= i < rest.len() implies #[trigger] rest[i] <= r by {
            assert(rest[i] == rs[i]);
        }
        lemma_max_radius(rest, r);
        assert(rs[rs.len() - 1] == rs.last());
        if exists|i: int| 0 <= i < rs.len() && #[trigger] rs[i] == r {
            let i = choose|i: int| 0 <= i < rs.len() && #[trigger] rs[i] == r;
            if i < rest.len() {
                assert(rest[i] == r);
            }
        }
    }
}

/// The record of a kernel: source channel, target channel, mean and width of
/// the growth function; and reading words gives the records back in that order.
pub proof fn law_record_fields(e: KernelEntry, ws: Seq<u32>, i: int)
    requires
        0 <= i < ws.len() / 4,
    ensures
        meta_of(e).words() == seq![e.c0, e.c1, e.mu, e.sigma],
        words_meta(ws)[i].source_channel == ws[4 * i],
        words_meta(ws)[i].target_channel == ws[4 * i + 1],
        words_meta(ws)[i].mu == ws[4 * i + 2],
        words_meta(ws)[i].sigma == ws[4 * i + 3],
{
}

} // verus!
