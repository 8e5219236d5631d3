//! Fourier transforms over `n * n` grids: one dispatch per axis.
//!
//! Powers of four use a radix-4 shader; twice a power of four needs one more
//! radix-2 stage and has a shader of its own. The shaders are specialised to
//! `n` through their workgroup size.

use crate::device::{
    filled, layout4, zeroed, BindGroup, BindGroupLayout, BindingKind, Buffer, BufferSpec,
    BufferUsages, Command, CommandEncoder, ComputePipeline, GpuContext, Shader,
};
use crate::readback::{decode_readback, readback_buffer};
use crate::words::{bytes_words, word_bytes, words_to_bytes, F32Bits};
use vstd::prelude::*;

verus! {

/// Grid sides of the radix-4 transform.
pub const SUPPORTED_N: [u32; 2] = [64, 256];

/// Grid sides of the mixed-radix transform.
pub const SUPPORTED_MIXED_N: [u32; 4] = [8, 32, 128, 512];

/// Direction of a transform.
#[derive(Clone, Copy, Debug, PartialEq, Eq, Structural)]
pub enum FftDirection {
    Forward,
    Inverse,
}

impl FftDirection {
    /// The number that shaders compare with.
    pub open spec fn as_u32(self) -> u32 {
        match self {
            FftDirection::Forward => 0,
            FftDirection::Inverse => 1,
        }
    }

    /// The number that shaders compare with.
    pub fn code(self) -> (code: u32)
        ensures
            code == self.as_u32(),
    {
        match self {
            FftDirection::Forward => 0,
            FftDirection::Inverse => 1,
        }
    }
}

/// Axis of a one-dimensional transform: along rows or along columns.
#[derive(Clone, Copy, Debug, PartialEq, Eq, Structural)]
pub enum FftAxis {
    H,
    V,
}

/// Uniform block of a one-dimensional transform.
#[derive(Clone, Copy, Debug, PartialEq, Eq, Structural)]
pub struct FftParams {
    pub n: u32,
    /// Number of rows; of columns along the other axis.
    pub num_rows: u32,
    pub direction: u32,
    pub _pad: u32,
}

impl FftParams {
    /// The block for `num_rows` transforms of length `n`.
    pub open spec fn of(n: u32, num_rows: u32, direction: FftDirection) -> FftParams {
        FftParams { n, num_rows, direction: direction.as_u32(), _pad: 0 }
    }

    /// The words of the block.
    pub open spec fn words(self) -> Seq<u32> {
        seq![self.n, self.num_rows, self.direction, self._pad]
    }

    /// The block for `num_rows` transforms of length `n`.
    pub fn new(n: u32, num_rows: u32, direction: FftDirection) -> (p: FftParams)
        ensures
            p == FftParams::of(n, num_rows, direction),
    {
        FftParams { n, num_rows, direction: direction.code(), _pad: 0 }
    }
}

/// The radix-4 transform handles side `n`.
pub open spec fn supported_n(n: u32) -> bool {
    n == 64 || n == 256
}

/// The mixed-radix transform handles side `n`.
pub open spec fn supported_mixed_n(n: u32) -> bool {
    n == 8 || n == 32 || n == 128 || n == 512
}

/// A step can convolve by transform on a grid of side `n`.
pub open spec fn fft_pipeline_grid(n: u32) -> bool {
    supported_n(n) || n == 512
}

/// Whether the radix-4 transform handles side `n`.
pub fn is_supported_n(n: u32) -> (r: bool)
    ensures
        r == supported_n(n),
{
    n == SUPPORTED_N[0] || n == SUPPORTED_N[1]
}

/// Whether the mixed-radix transform handles side `n`.
pub fn is_supported_mixed_n(n: u32) -> (r: bool)
    ensures
        r == supported_mixed_n(n),
{
    n == SUPPORTED_MIXED_N[0] || n == SUPPORTED_MIXED_N[1] || n == SUPPORTED_MIXED_N[2] || n
        == SUPPORTED_MIXED_N[3]
}

/// Whether a step can convolve by transform on a grid of side `n`.
pub fn is_fft_pipeline_grid(n: u32) -> (r: bool)
    ensures
        r == fft_pipeline_grid(n),
{
    is_supported_n(n) || n == 512
}

/// `n` is two to the power of `e`.
pub open spec fn is_pow2(n: u32, e: nat) -> bool {
    n == vstd::arithmetic::power2::pow2(e)
}

/// `n` is four to the power of `q`.
pub open spec fn is_pow4(n: u32, q: nat) -> bool {
    is_pow2(n, 2 * q)
}

/// `n` is twice four to the power of `q`.
pub open spec fn is_twice_pow4(n: u32, q: nat) -> bool {
    is_pow2(n, 2 * q + 1)
}

/// Radix-4 sides are powers of four, mixed-radix sides twice a power of four,
/// no side is both, and every side is a power of two from four on, as the
/// twiddle factors ask for.
pub proof fn law_supported_sides(n: u32)
    requires
        supported_n(n) || supported_mixed_n(n),
    ensures
        supported_n(n) ==> exists|q: nat| is_pow4(n, q),
        supported_mixed_n(n) ==> exists|q: nat| is_twice_pow4(n, q),
        !(supported_n(n) && supported_mixed_n(n)),
        exists|e: nat| is_pow2(n, e),
        n >= 4,
{
    vstd::arithmetic::power2::lemma2_to64();
    assert(is_pow4(64, 3) && is_pow4(256, 4));
    assert(is_twice_pow4(8, 1) && is_twice_pow4(32, 2) && is_twice_pow4(128, 3) && is_twice_pow4(
        512,
        4,
    ));
    assert(is_pow2(64, 6) && is_pow2(256, 8) && is_pow2(8, 3) && is_pow2(32, 5) && is_pow2(128, 7)
        && is_pow2(512, 9));
}

/// Every side that a step can convolve on by transform has a transform.
pub proof fn law_pipeline_grids_have_transforms(n: u32)
    requires
        fft_pipeline_grid(n),
    ensures
        supported_n(n) || supported_mixed_n(n),
{
}

/// Bindings of a transform: input, twiddle factors, output, parameters.
pub open spec fn fft_layout() -> BindGroupLayout {
    layout4(
        BindingKind::StorageRead,
        BindingKind::StorageRead,
        BindingKind::StorageReadWrite,
        BindingKind::Uniform,
    )
}

/// A compiled transform along one axis.
#[derive(Clone, Copy, Debug, PartialEq, Eq, Structural)]
pub struct FftPass {
    pub n: u32,
    pub pipeline: ComputePipeline,
}

impl FftPass {
    /// The transform of side `n` by the given shader.
    pub open spec fn of(n: u32, shader: Shader) -> FftPass {
        FftPass {
            n,
            pipeline: ComputePipeline { shader, workgroup_x: Some(n), layout: fft_layout() },
        }
    }

    /// The dispatch that transforms `rows` rows (or columns).
    pub open spec fn command(self, bind_group: BindGroup, rows: u32) -> Command {
        Command::Dispatch { pipeline: self.pipeline, bind_group, x: rows, y: 1, z: 1 }
    }

    /// The radix-4 transform along rows.
    pub fn new_h(n: u32) -> (pass: FftPass)
        requires
            supported_n(n),
        ensures
            pass == FftPass::of(n, Shader::FftRadix4H),
    {
        FftPass::compile(n, Shader::FftRadix4H)
    }

    /// The radix-4 transform along columns.
    pub fn new_v(n: u32) -> (pass: FftPass)
        requires
            supported_n(n),
        ensures
            pass == FftPass::of(n, Shader::FftRadix4V),
    {
        FftPass::compile(n, Shader::FftRadix4V)
    }

    /// The mixed-radix transform along rows.
    pub fn new_h_mixed(n: u32) -> (pass: FftPass)
        requires
            supported_mixed_n(n),
        ensures
            pass == FftPass::of(n, Shader::FftRadix2x4H),
    {
        FftPass::compile(n, Shader::FftRadix2x4H)
    }

    /// The mixed-radix transform along columns.
    pub fn new_v_mixed(n: u32) -> (pass: FftPass)
        requires
            supported_mixed_n(n),
        ensures
            pass == FftPass::of(n, Shader::FftRadix2x4V),
    {
        FftPass::compile(n, Shader::FftRadix2x4V)
    }

    /// Binds the shader and specialises its workgroup to `n`.
    fn compile(n: u32, shader: Shader) -> (pass: FftPass)
        ensures
            pass == FftPass::of(n, shader),
    {
        let layout = BindGroupLayout::compute4(
            BindingKind::StorageRead,
            BindingKind::StorageRead,
            BindingKind::StorageReadWrite,
            BindingKind::Uniform,
        );
        FftPass { n, pipeline: ComputePipeline { shader, workgroup_x: Some(n), layout } }
    }

    /// Binds the buffers of a transform.
    pub fn make_bind_group(
        &self,
        input: Buffer,
        twiddles: Buffer,
        output: Buffer,
        params: Buffer,
    ) -> (g: BindGroup)
        ensures
            g == BindGroup::of4(input, twiddles, output, params),
    {
        BindGroup::bind4(input, twiddles, output, params)
    }

    /// Appends the transform of `num_rows_or_cols` rows or columns.
    pub fn record(&self, encoder: &mut CommandEncoder, bind_group: &BindGroup, num_rows_or_cols: u32)
        ensures
            final(encoder)@ == old(encoder)@.push(self.command(*bind_group, num_rows_or_cols)),
    {
        encoder.dispatch(&self.pipeline, bind_group, num_rows_or_cols, 1);
    }

    /// Asks for the uniform buffer of a transform. The block must be for the
    /// length that the shader was specialised to, and for at least one row.
    pub fn upload_params(&self, ctx: &mut GpuContext, params: FftParams) -> (buffer: Buffer)
        requires
            params.n == self.n,
            params.num_rows >= 1,
        ensures
            buffer.id == old(ctx)@.len(),
            final(ctx)@ == old(ctx)@.push(params_buffer(params)),
            final(ctx).queue() == old(ctx).queue(),
    {
        let words: [u32; 4] = [params.n, params.num_rows, params.direction, params._pad];
        assert(words@ =~= params.words());
        ctx.create_buffer_init(words_to_bytes(&words), BufferUsages::uniform())
    }
}

/// The uniform buffer of a transform.
pub open spec fn params_buffer(params: FftParams) -> BufferSpec {
    filled(word_bytes(params.words()), BufferUsages::of_uniform())
}

/// A compiled two-dimensional transform.
#[derive(Clone, Copy, Debug, PartialEq, Eq, Structural)]
pub struct Fft2dPass {
    pub n: u32,
    /// Along rows.
    pub h: FftPass,
    /// Along columns.
    pub v: FftPass,
}

/// The uniform buffers of the two transforms of one direction.
pub open spec fn direction_buffers(n: u32, direction: FftDirection) -> Seq<BufferSpec> {
    seq![
        params_buffer(FftParams::of(n, n, direction)),
        params_buffer(FftParams::of(n, n, direction)),
    ]
}

/// The buffers of a transform that starts from host values: the values, two
/// complex work buffers, the parameters of both axes, and the staging buffer of
/// the result.
pub open spec fn forward_2d_buffers(n: u32, input: Seq<u32>) -> Seq<BufferSpec> {
    let work = zeroed(8 * (n * n), BufferUsages::of_storage().and_copy_dst().and_copy_src());
    seq![filled(word_bytes(input), copy_source()), work, work] + direction_buffers(
        n,
        FftDirection::Forward,
    ) + seq![zeroed(8 * (n * n), BufferUsages::of_readback())]
}

/// A source of copies and nothing else.
pub open spec fn copy_source() -> BufferUsages {
    BufferUsages { storage: false, uniform: false, copy_src: true, copy_dst: false, map_read: false }
}

impl Fft2dPass {
    /// The transform of side `n`.
    pub open spec fn of(n: u32) -> Fft2dPass {
        if supported_n(n) {
            Fft2dPass {
                n,
                h: FftPass::of(n, Shader::FftRadix4H),
                v: FftPass::of(n, Shader::FftRadix4V),
            }
        } else {
            Fft2dPass {
                n,
                h: FftPass::of(n, Shader::FftRadix2x4H),
                v: FftPass::of(n, Shader::FftRadix2x4V),
            }
        }
    }

    /// Both axes are compiled for the side of the grid, which is not empty.
    pub open spec fn wf(self) -> bool {
        self.h.n == self.n && self.v.n == self.n && self.n >= 1
    }

    /// Forward: rows first, into the scratch buffer, then columns. `base` is
    /// the first of the two parameter buffers.
    pub open spec fn forward_commands(
        self,
        base: int,
        twiddles: Buffer,
        input: Buffer,
        scratch: Buffer,
        output: Buffer,
    ) -> Seq<Command> {
        seq![
            self.h.command(
                BindGroup::of4(input, twiddles, scratch, Buffer { id: base as usize }),
                self.n,
            ),
            self.v.command(
                BindGroup::of4(scratch, twiddles, output, Buffer { id: (base + 1) as usize }),
                self.n,
            ),
        ]
    }

    /// Inverse: the mirror image, columns first. `base` is the first of the two
    /// parameter buffers.
    pub open spec fn inverse_commands(
        self,
        base: int,
        twiddles: Buffer,
        input: Buffer,
        scratch: Buffer,
        output: Buffer,
    ) -> Seq<Command> {
        seq![
            self.v.command(
                BindGroup::of4(input, twiddles, scratch, Buffer { id: base as usize }),
                self.n,
            ),
            self.h.command(
                BindGroup::of4(scratch, twiddles, output, Buffer { id: (base + 1) as usize }),
                self.n,
            ),
        ]
    }

    /// The commands of a transform that starts from host values. `base` is the
    /// first of the buffers of [`forward_2d_buffers`].
    pub open spec fn forward_2d_commands(self, base: int, twiddles: Buffer) -> Seq<Command> {
        let a = Buffer { id: (base + 1) as usize };
        let b = Buffer { id: (base + 2) as usize };
        seq![
            (Command::Copy {
                src: Buffer { id: base as usize },
                src_offset: 0,
                dst: a,
                dst_offset: 0,
                size: (4 * (self.n * self.n)) as u64,
            }),
        ] + self.forward_commands(base + 3, twiddles, a, b, a) + seq![
            (Command::Copy {
                src: a,
                src_offset: 0,
                dst: Buffer { id: (base + 5) as usize },
                dst_offset: 0,
                size: (8 * (self.n * self.n)) as u64,
            }),
        ]
    }

    /// The transform of side `n`: radix-4 where that handles the side, else
    /// mixed-radix.
    pub fn new(n: u32) -> (pass: Fft2dPass)
        requires
            supported_n(n) || supported_mixed_n(n),
        ensures
            pass == Fft2dPass::of(n),
            pass.wf(),
    {
        if is_supported_n(n) {
            Fft2dPass { n, h: FftPass::new_h(n), v: FftPass::new_v(n) }
        } else {
            Fft2dPass { n, h: FftPass::new_h_mixed(n), v: FftPass::new_v_mixed(n) }
        }
    }

    /// The transform along one axis.
    pub fn axis(&self, axis: FftAxis) -> (pass: &FftPass)
        ensures
            *pass == match axis {
                FftAxis::H => self.h,
                FftAxis::V => self.v,
            },
    {
        match axis {
            FftAxis::H => &self.h,
            FftAxis::V => &self.v,
        }
    }

    /// Appends a forward transform that goes through a scratch buffer.
    pub fn forward_2d_with_scratch(
        &self,
        ctx: &mut GpuContext,
        encoder: &mut CommandEncoder,
        twiddles: Buffer,
        input_complex: Buffer,
        scratch_complex: Buffer,
        output_complex: Buffer,
    )
        requires
            self.wf(),
        ensures
            final(ctx)@ == old(ctx)@ + direction_buffers(self.n, FftDirection::Forward),
            final(ctx).queue() == old(ctx).queue(),
            final(encoder)@ == old(encoder)@ + self.forward_commands(
                old(ctx)@.len() as int,
                twiddles,
                input_complex,
                scratch_complex,
                output_complex,
            ),
    {
        let n: u32 = self.n;
        let params_h = self.h.upload_params(ctx, FftParams::new(n, n, FftDirection::Forward));
        let params_v = self.v.upload_params(ctx, FftParams::new(n, n, FftDirection::Forward));
        let bg_h = self.h.make_bind_group(input_complex, twiddles, scratch_complex, params_h);
        let bg_v = self.v.make_bind_group(scratch_complex, twiddles, output_complex, params_v);
        self.h.record(encoder, &bg_h, n);
        self.v.record(encoder, &bg_v, n);
        assert(ctx@ =~= old(ctx)@ + direction_buffers(n, FftDirection::Forward));
        assert(encoder@ =~= old(encoder)@ + self.forward_commands(
            old(ctx)@.len() as int,
            twiddles,
            input_complex,
            scratch_complex,
            output_complex,
        ));
    }

    /// Appends an inverse transform that goes through a scratch buffer.
    pub fn inverse_2d_with_scratch(
        &self,
        ctx: &mut GpuContext,
        encoder: &mut CommandEncoder,
        twiddles: Buffer,
        input_complex: Buffer,
        scratch_complex: Buffer,
        output_complex: Buffer,
    )
        requires
            self.wf(),
        ensures
            final(ctx)@ == old(ctx)@ + direction_buffers(self.n, FftDirection::Inverse),
            final(ctx).queue() == old(ctx).queue(),
            final(encoder)@ == old(encoder)@ + self.inverse_commands(
                old(ctx)@.len() as int,
                twiddles,
                input_complex,
                scratch_complex,
                output_complex,
            ),
    {
        let n: u32 = self.n;
        let params_v = self.v.upload_params(ctx, FftParams::new(n, n, FftDirection::Inverse));
        let params_h = self.h.upload_params(ctx, FftParams::new(n, n, FftDirection::Inverse));
        let bg_v = self.v.make_bind_group(input_complex, twiddles, scratch_complex, params_v);
        let bg_h = self.h.make_bind_group(scratch_complex, twiddles, output_complex, params_h);
        self.v.record(encoder, &bg_v, n);
        self.h.record(encoder, &bg_h, n);
        assert(ctx@ =~= old(ctx)@ + direction_buffers(n, FftDirection::Inverse));
        assert(encoder@ =~= old(encoder)@ + self.inverse_commands(
            old(ctx)@.len() as int,
            twiddles,
            input_complex,
            scratch_complex,
            output_complex,
        ));
    }

    /// Appends the forward transform of `n * n` host values and the readback of
    /// its result; [`decode_spectrum`] reads the returned staging buffer.
    pub fn forward_2d(
        &self,
        ctx: &mut GpuContext,
        encoder: &mut CommandEncoder,
        twiddles: Buffer,
        input_real: &[F32Bits],
    ) -> (staging: Buffer)
        requires
            self.wf(),
            input_real@.len() == self.n * self.n,
            self.n * self.n <= u32::MAX,
            8 * (self.n * self.n) <= usize::MAX,
        ensures
            staging.id == old(ctx)@.len() + 5,
            final(ctx)@ == old(ctx)@ + forward_2d_buffers(self.n, input_real@),
            final(ctx).queue() == old(ctx).queue(),
            final(encoder)@ == old(encoder)@ + self.forward_2d_commands(
                old(ctx)@.len() as int,
                twiddles,
            ),
    {
        let n: u32 = self.n;
        proof {
            assert(0 <= n * n) by (nonlinear_arith);
        }
        let cells: usize = (n * n) as usize;
        let source = BufferUsages {
            storage: false,
            uniform: false,
            copy_src: true,
            copy_dst: false,
            map_read: false,
        };
        let work = BufferUsages::storage().with_copy_dst().with_copy_src();
        let host = ctx.create_buffer_init(words_to_bytes(input_real), source);
        let buf_a = ctx.create_buffer((cells * 2 * 4) as u64, work);
        let buf_b = ctx.create_buffer((cells * 2 * 4) as u64, work);
        encoder.copy_buffer_to_buffer(host, 0, buf_a, 0, (cells * 4) as u64);
        self.forward_2d_with_scratch(ctx, encoder, twiddles, buf_a, buf_b, buf_a);
        let staging = readback_buffer(ctx, encoder, buf_a, cells, 2);
        assert(ctx@ =~= old(ctx)@ + forward_2d_buffers(n, input_real@));
        assert(encoder@ =~= old(encoder)@ + self.forward_2d_commands(
            old(ctx)@.len() as int,
            twiddles,
        ));
        staging
    }
}

/// Consecutive pairs of a run of words: real and imaginary parts.
pub open spec fn pairs(ws: Seq<u32>) -> Seq<(F32Bits, F32Bits)> {
    Seq::new(ws.len() / 2, |i: int| (ws[2 * i], ws[2 * i + 1]))
}

/// The complex numbers in a mapped staging buffer; `None` where it does not
/// hold exactly `n * n` of them.
pub fn decode_spectrum(bytes: &[u8], n: u32) -> (spectrum: Option<Vec<(F32Bits, F32Bits)>>)
    requires
        n * n <= u32::MAX,
        8 * (n * n) <= usize::MAX,
    ensures
        spectrum is Some <==> bytes@.len() == 8 * (n * n),
        spectrum is Some ==> spectrum->0@ == pairs(bytes_words(bytes@)),
{
    proof {
        assert(0 <= n * n) by (nonlinear_arith);
    }
    let cells: usize = (n * n) as usize;
    match decode_readback(bytes, 2 * cells) {
        None => None,
        Some(words) => {
            let mut spectrum: Vec<(F32Bits, F32Bits)> = Vec::new();
            for i in 0..cells
                invariant
                    words@.len() == 2 * cells <= usize::MAX,
                    spectrum@.len() == i,
                    forall|j: int| 0 <= j < i ==> spectrum@[j] == pairs(words@)[j],
            {
                spectrum.push((words[2 * i], words[2 * i + 1]));
            }
            assert(spectrum@ =~= pairs(words@));
            Some(spectrum)
        },
    }
}

/// The words of a run of complex numbers, real part first.
pub open spec fn pair_words(ps: Seq<(F32Bits, F32Bits)>) -> Seq<u32> {
    Seq::new(2 * ps.len(), |i: int| if i % 2 == 0 { ps[i / 2].0 } else { ps[i / 2].1 })
}

/// Complex numbers that were written are the complex numbers that are read.
pub proof fn law_pairs_round_trip(ps: Seq<(F32Bits, F32Bits)>)
    ensures
        pairs(pair_words(ps)) == ps,
{
    assert(pairs(pair_words(ps)) =~= ps);
}

/// Asks for the buffer of the twiddle factors of length `n`: the complex
/// numbers `exp(-2 pi i k / n)` for `k` below `n`, given in `table`.
pub fn precompute_twiddles_1d(ctx: &mut GpuContext, n: u32, table: &Vec<(F32Bits, F32Bits)>) -> (buffer:
    Buffer)
    requires
        exists|e: nat| is_pow2(n, e),
        n >= 4,
        table@.len() == n,
    ensures
        buffer.id == old(ctx)@.len(),
        final(ctx)@ == old(ctx)@.push(twiddle_buffer(table@)),
        final(ctx).queue() == old(ctx).queue(),
{
    let mut data: Vec<u32> = Vec::new();
    for k in 0..table.len()
        invariant
            data@ == pair_words(table@.take(k as int)),
    {
        data.push(table[k].0);
        data.push(table[k].1);
        assert(data@ =~= pair_words(table@.take(k + 1)));
    }
    assert(table@.take(table@.len() as int) =~= table@);
    ctx.create_buffer_init(words_to_bytes(data.as_slice()), BufferUsages::storage().with_copy_dst())
}

/// The buffer of a table of twiddle factors.
pub open spec fn twiddle_buffer(table: Seq<(F32Bits, F32Bits)>) -> BufferSpec {
    filled(word_bytes(pair_words(table)), BufferUsages::of_storage().and_copy_dst())
}

/// The sides that have a transform are exactly these; a step convolves by
/// transform on 64, 256 and 512 only.
pub proof fn law_transform_sides(n: u32)
    ensures
        supported_n(n) <==> n == 64 || n == 256,
        supported_mixed_n(n) <==> n == 8 || n == 32 || n == 128 || n == 512,
        fft_pipeline_grid(n) <==> n == 64 || n == 256 || n == 512,
{
}

/// The block of a transform: length, number of rows, 0 forward and 1 inverse.
pub proof fn law_transform_block(n: u32, rows: u32, direction: FftDirection)
    ensures
        ({
            let words = FftParams::of(n, rows, direction).words();
            &&& words.len() == 4
            &&& words[0] == n && words[1] == rows && words[3] == 0
            &&& words[2] == 0 <==> direction == FftDirection::Forward
            &&& words[2] == 1 <==> direction == FftDirection::Inverse
        }),
{
}

/// Complex number `i` is words `2 * i` and `2 * i + 1`, real part first, both
/// ways.
pub proof fn law_pairs_in_order(ps: Seq<(F32Bits, F32Bits)>, ws: Seq<u32>, i: int)
    ensures
        0 <= i < ps.len() ==> pair_words(ps)[2 * i] == ps[i].0 && pair_words(ps)[2 * i + 1]
            == ps[i].1,
        0 <= i < ws.len() / 2 ==> pairs(ws)[i] == (ws[2 * i], ws[2 * i + 1]),
        pair_words(ps).len() == 2 * ps.len(),
{
    assert((2 * i) % 2 == 0 && (2 * i) / 2 == i && (2 * i + 1) % 2 == 1 && (2 * i + 1) / 2 == i);
}

} // verus!
