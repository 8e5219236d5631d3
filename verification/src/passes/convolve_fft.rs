//! Convolution by transform: a drop-in for the direct convolution on grids
//! that have a transform.
//!
//! One transform of a channel serves every kernel that reads it. For each
//! channel in turn: transform it, multiply its spectrum with the spectra of all
//! kernels, and for each kernel whose source is this channel transform its
//! product back into the kernel's slice of a common buffer. A last pass
//! rearranges the slices, kernel after kernel, into the cell-major layout of
//! the direct convolution.

use crate::config::KernelParams;
use crate::device::{
    filled, layout3, zeroed, BindGroup, BindGroupLayout, BindingKind, Buffer, BufferSpec,
    BufferUsages, Command, CommandEncoder, ComputePipeline, GpuContext, Shader,
};
use crate::passes::fft::{
    direction_buffers, precompute_twiddles_1d, supported_mixed_n, supported_n, twiddle_buffer,
    Fft2dPass, FftDirection,
};
use crate::passes::spectral_multiply::{
    linear_command, record_linear, sm_params_buffer, SpectralMultiplyParams, SpectralMultiplyPass,
};
use crate::words::{word_bytes, words_to_bytes, F32Bits};
use vstd::prelude::*;

verus! {

/// Uniform block of the rearrangement.
#[derive(Clone, Copy, Debug, PartialEq, Eq, Structural)]
pub struct PreGParams {
    pub n: u32,
    pub k: u32,
    pub _pad0: u32,
    pub _pad1: u32,
}

impl PreGParams {
    /// The words of the block.
    pub open spec fn words(self) -> Seq<u32> {
        seq![self.n, self.k, self._pad0, self._pad1]
    }

    /// The block for `k` kernels on a grid of side `n`.
    pub fn new(n: u32, k: u32) -> (p: PreGParams)
        ensures
            p == (PreGParams { n, k, _pad0: 0, _pad1: 0 }),
    {
        PreGParams { n, k, _pad0: 0, _pad1: 0 }
    }
}

/// The uniform buffer of a block.
pub open spec fn pre_g_params_buffer(params: PreGParams) -> BufferSpec {
    filled(word_bytes(params.words()), BufferUsages::of_uniform())
}

/// Bindings of the rearrangement: slices, cell-major result, parameters.
pub open spec fn pre_g_layout() -> BindGroupLayout {
    layout3(BindingKind::StorageRead, BindingKind::StorageReadWrite, BindingKind::Uniform)
}

/// The rearrangement of kernel-major complex numbers into cell-major reals.
#[derive(Clone, Copy, Debug, PartialEq, Eq, Structural)]
pub struct FftToPreGPass {
    pub pipeline: ComputePipeline,
}

impl FftToPreGPass {
    /// The compiled pass.
    pub open spec fn of() -> FftToPreGPass {
        FftToPreGPass { pipeline: ComputePipeline::of(Shader::FftToPreG, pre_g_layout()) }
    }

    /// Compiles the pass.
    pub fn new() -> (pass: FftToPreGPass)
        ensures
            pass == FftToPreGPass::of(),
    {
        let layout = BindGroupLayout::compute3(
            BindingKind::StorageRead,
            BindingKind::StorageReadWrite,
            BindingKind::Uniform,
        );
        FftToPreGPass { pipeline: ComputePipeline::new(Shader::FftToPreG, layout) }
    }

    /// Appends the rearrangement of `k` slices of a grid of side `n`.
    pub fn record(&self, encoder: &mut CommandEncoder, bind_group: &BindGroup, n: u32, k: u32)
        requires
            n * n * k <= u32::MAX,
            n * n <= u32::MAX,
        ensures
            final(encoder)@ == old(encoder)@.push(
                linear_command(self.pipeline, *bind_group, n, k),
            ),
    {
        record_linear(&self.pipeline, encoder, bind_group, n, k);
    }
}

/// The source channels of a bank.
pub open spec fn routing_of(params: KernelParams) -> Seq<u32> {
    params.kernels@.map_values(|e: crate::config::KernelEntry| e.c0)
}

/// The number of kernels among the first `m` that read channel `c`.
pub open spec fn routed(routing: Seq<u32>, c: int, m: int) -> int
    decreases m,
{
    if m <= 0 {
        0
    } else if routing[m - 1] == c {
        routed(routing, c, m - 1) + 1
    } else {
        routed(routing, c, m - 1)
    }
}

/// The number of kernels that read one of the first `c` channels.
pub open spec fn routed_below(routing: Seq<u32>, c: int) -> int
    decreases c,
{
    if c <= 0 {
        0
    } else {
        routed_below(routing, c - 1) + routed(routing, c - 1, routing.len() as int)
    }
}

/// `count` times the parameter buffers of an inverse transform.
pub open spec fn inverse_buffers(n: u32, count: int) -> Seq<BufferSpec>
    decreases count,
{
    if count <= 0 {
        seq![]
    } else {
        inverse_buffers(n, count - 1) + direction_buffers(n, FftDirection::Inverse)
    }
}

/// The source channels of a bank, one per kernel.
pub fn kernel_routing(params: &KernelParams) -> (routing: Vec<u32>)
    ensures
        routing@ == routing_of(*params),
{
    let mut routing: Vec<u32> = Vec::new();
    for i in 0..params.kernels.len()
        invariant
            routing@.len() == i,
            forall|j: int| 0 <= j < i ==> routing@[j] == routing_of(*params)[j],
    {
        routing.push(params.kernels[i].c0);
    }
    assert(routing@ =~= routing_of(*params));
    routing
}

/// Convolution by transform, with its working buffers.
#[derive(Debug)]
pub struct ConvolveFftPass {
    /// Side of the grid.
    pub n: u32,
    /// Number of kernels.
    pub k: u32,
    /// Number of channels.
    pub channels: u32,
    /// Source channel of each kernel.
    pub routing: Vec<u32>,
    pub fft2d: Fft2dPass,
    pub sm_pass: SpectralMultiplyPass,
    pub layout_pass: FftToPreGPass,
    pub twiddles: Buffer,
    /// Between the two axes of a transform.
    pub scratch_complex: Buffer,
    /// Spectrum of a channel; later the result of an inverse transform.
    pub spectrum_a: Buffer,
    /// Products with all kernel spectra.
    pub k_spectra: Buffer,
    /// Product of one kernel, on its way back.
    pub inv_in: Buffer,
    /// Slices of all kernels.
    pub k_complex_out: Buffer,
    pub sm_params_buf: Buffer,
    pub layout_params_buf: Buffer,
    /// One channel beyond the first, where there is more than one.
    pub channel_in: Option<Buffer>,
}

/// The buffers of the pass, in order.
pub open spec fn convolve_fft_buffers(
    n: u32,
    k: u32,
    channels: u32,
    table: Seq<(F32Bits, F32Bits)>,
) -> Seq<BufferSpec> {
    let cells = n * n;
    let storage = BufferUsages::of_storage();
    seq![
        twiddle_buffer(table),
        zeroed(cells * 8, storage),
        zeroed(cells * 8, storage.and_copy_src()),
        zeroed(cells * k * 8, storage.and_copy_src()),
        zeroed(cells * 8, storage.and_copy_dst()),
        zeroed(cells * k * 8, storage.and_copy_dst()),
        sm_params_buffer(SpectralMultiplyParams { n, k, _pad0: 0, _pad1: 0 }),
        pre_g_params_buffer(PreGParams { n, k, _pad0: 0, _pad1: 0 }),
    ] + if channels > 1 {
        seq![zeroed(cells * 4, storage.and_copy_dst())]
    } else {
        seq![]
    }
}

impl ConvolveFftPass {
    /// The pass whose buffers start at `base`.
    pub open spec fn is_built(
        self,
        base: int,
        n: u32,
        channels: u32,
        routing: Seq<u32>,
    ) -> bool {
        &&& self.n == n
        &&& self.k == routing.len()
        &&& self.channels == channels
        &&& self.routing@ == routing
        &&& self.fft2d == Fft2dPass::of(n)
        &&& self.sm_pass == SpectralMultiplyPass::of()
        &&& self.layout_pass == FftToPreGPass::of()
        &&& self.twiddles.id == base
        &&& self.scratch_complex.id == base + 1
        &&& self.spectrum_a.id == base + 2
        &&& self.k_spectra.id == base + 3
        &&& self.inv_in.id == base + 4
        &&& self.k_complex_out.id == base + 5
        &&& self.sm_params_buf.id == base + 6
        &&& self.layout_params_buf.id == base + 7
        &&& self.channel_in is Some <==> channels > 1
        &&& channels > 1 ==> self.channel_in->0.id == base + 8
    }

    /// The side has a transform, every kernel reads a channel that exists, and
    /// the numbers of items fit the words that count them.
    pub open spec fn wf(self) -> bool {
        &&& supported_n(self.n) || supported_mixed_n(self.n)
        &&& self.fft2d.wf() && self.fft2d.n == self.n
        &&& self.k >= 1 && self.channels >= 1
        &&& self.routing@.len() == self.k
        &&& forall|i: int| 0 <= i < self.routing@.len() ==> #[trigger] self.routing@[i]
            < self.channels
        &&& self.channels > 1 ==> self.channel_in is Some
        &&& self.n * self.n * self.k <= u32::MAX
    }

    /// The bytes from one kernel's slice to the next.
    pub open spec fn slice_bytes(self) -> int {
        self.n * self.n * 8
    }

    /// The way back of kernel `ki`: its product out of the products, the
    /// inverse transform, the result into its slice.
    pub open spec fn kernel_round(self, base: int, ki: int) -> Seq<Command> {
        seq![
            (Command::Copy {
                src: self.k_spectra,
                src_offset: (ki * self.slice_bytes()) as u64,
                dst: self.inv_in,
                dst_offset: 0,
                size: self.slice_bytes() as u64,
            }),
        ] + self.fft2d.inverse_commands(
            base,
            self.twiddles,
            self.inv_in,
            self.scratch_complex,
            self.spectrum_a,
        ) + seq![
            (Command::Copy {
                src: self.spectrum_a,
                src_offset: 0,
                dst: self.k_complex_out,
                dst_offset: (ki * self.slice_bytes()) as u64,
                size: self.slice_bytes() as u64,
            }),
        ]
    }

    /// The ways back of those of the first `m` kernels that read channel `c`.
    pub open spec fn kernel_rounds(self, base: int, c: int, m: int) -> Seq<Command>
        decreases m,
    {
        if m <= 0 {
            seq![]
        } else if self.routing@[m - 1] == c {
            self.kernel_rounds(base, c, m - 1) + self.kernel_round(
                base + 2 * routed(self.routing@, c, m - 1),
                m - 1,
            )
        } else {
            self.kernel_rounds(base, c, m - 1)
        }
    }

    /// The buffer that the transform of channel `c` reads.
    pub open spec fn channel_input(self, input_a: Buffer, c: int) -> Buffer {
        if c == 0 {
            input_a
        } else {
            self.channel_in->0
        }
    }

    /// All that is recorded for channel `c`.
    pub open spec fn channel_round(
        self,
        base: int,
        c: int,
        input_a: Buffer,
        kernel_fft: Buffer,
    ) -> Seq<Command> {
        (if c == 0 {
            seq![]
        } else {
            seq![
                (Command::Copy {
                    src: input_a,
                    src_offset: (c * (self.n * self.n * 4)) as u64,
                    dst: self.channel_input(input_a, c),
                    dst_offset: 0,
                    size: (self.n * self.n * 4) as u64,
                }),
            ]
        }) + self.fft2d.forward_commands(
            base,
            self.twiddles,
            self.channel_input(input_a, c),
            self.scratch_complex,
            self.spectrum_a,
        ) + seq![
            linear_command(
                self.sm_pass.pipeline,
                BindGroup::of4(self.spectrum_a, kernel_fft, self.k_spectra, self.sm_params_buf),
                self.n,
                self.k,
            ),
        ] + self.kernel_rounds(base + 2, c, self.k as int)
    }

    /// Parameter buffers that the first `c` channels use.
    pub open spec fn used(self, c: int) -> int {
        2 * c + 2 * routed_below(self.routing@, c)
    }

    /// All that is recorded for the first `c` channels.
    pub open spec fn channel_rounds(
        self,
        base: int,
        c: int,
        input_a: Buffer,
        kernel_fft: Buffer,
    ) -> Seq<Command>
        decreases c,
    {
        if c <= 0 {
            seq![]
        } else {
            self.channel_rounds(base, c - 1, input_a, kernel_fft) + self.channel_round(
                base + self.used(c - 1),
                c - 1,
                input_a,
                kernel_fft,
            )
        }
    }

    /// The parameter buffers of the first `c` channels.
    pub open spec fn step_buffers(self, c: int) -> Seq<BufferSpec>
        decreases c,
    {
        if c <= 0 {
            seq![]
        } else {
            self.step_buffers(c - 1) + direction_buffers(self.n, FftDirection::Forward)
                + inverse_buffers(self.n, routed(self.routing@, c - 1, self.k as int))
        }
    }

    /// The whole convolution. `base` is the first of its parameter buffers.
    pub open spec fn commands(
        self,
        base: int,
        input_a: Buffer,
        kernel_fft: Buffer,
        pre_g_out: Buffer,
    ) -> Seq<Command> {
        self.channel_rounds(base, self.channels as int, input_a, kernel_fft).push(
            linear_command(
                self.layout_pass.pipeline,
                BindGroup::of3(self.k_complex_out, pre_g_out, self.layout_params_buf),
                self.n,
                self.k,
            ),
        )
    }

    /// Compiles the pass for a grid of side `n` and asks for its buffers.
    /// `table` holds the twiddle factors of length `n`.
    pub fn new(
        ctx: &mut GpuContext,
        n: u32,
        channels: u32,
        params: &KernelParams,
        table: &Vec<(F32Bits, F32Bits)>,
    ) -> (pass: ConvolveFftPass)
        requires
            supported_n(n) || supported_mixed_n(n),
            channels >= 1,
            params.kernels@.len() >= 1,
            forall|i: int|
                0 <= i < params.kernels@.len() ==> (#[trigger] params.kernels@[i]).c0 < channels,
            n * n * params.kernels@.len() <= u32::MAX,
            n * n * params.kernels@.len() * 8 <= usize::MAX,
            table@.len() == n,
        ensures
            pass.wf(),
            pass.is_built(old(ctx)@.len() as int, n, channels, routing_of(*params)),
            final(ctx)@ == old(ctx)@ + convolve_fft_buffers(
                n,
                params.kernels@.len() as u32,
                channels,
                table@,
            ),
            final(ctx).queue() == old(ctx).queue(),
    {
        let ghost kk = params.kernels@.len() as int;
        proof {
            assert(n * n <= 512 * 512) by (nonlinear_arith)
                requires
                    n <= 512,
            ;
            assert(n * n >= 64) by (nonlinear_arith)
                requires
                    n >= 8,
            ;
            assert(kk <= n * n * kk) by (nonlinear_arith)
                requires
                    n * n >= 64,
                    kk >= 0,
            ;
        }
        let cells: usize = (n * n) as usize;
        let k: u32 = params.kernels.len() as u32;
        let routing = kernel_routing(params);
        let fft2d = Fft2dPass::new(n);
        let sm_pass = SpectralMultiplyPass::new();
        let layout_pass = FftToPreGPass::new();
        proof {
            crate::passes::fft::law_supported_sides(n);
        }
        let twiddles = precompute_twiddles_1d(ctx, n, table);
        let scratch_complex = ctx.create_buffer((cells * 2 * 4) as u64, BufferUsages::storage());
        let spectrum_a = ctx.create_buffer(
            (cells * 2 * 4) as u64,
            BufferUsages::storage().with_copy_src(),
        );
        let k_spectra = ctx.create_buffer(
            (cells * k as usize * 2 * 4) as u64,
            BufferUsages::storage().with_copy_src(),
        );
        let inv_in = ctx.create_buffer(
            (cells * 2 * 4) as u64,
            BufferUsages::storage().with_copy_dst(),
        );
        let k_complex_out = ctx.create_buffer(
            (cells * k as usize * 2 * 4) as u64,
            BufferUsages::storage().with_copy_dst(),
        );
        let sm_params_buf = SpectralMultiplyPass::upload_params(
            ctx,
            SpectralMultiplyParams::new(n, k),
        );
        let pre_g = PreGParams::new(n, k);
        let words: [u32; 4] = [pre_g.n, pre_g.k, pre_g._pad0, pre_g._pad1];
        assert(words@ =~= pre_g.words());
        let layout_params_buf = ctx.create_buffer_init(
            words_to_bytes(&words),
            BufferUsages::uniform(),
        );
        let channel_in = if channels > 1 {
            Some(ctx.create_buffer((cells * 4) as u64, BufferUsages::storage().with_copy_dst()))
        } else {
            None
        };
        proof {
            assert(ctx@ =~= old(ctx)@ + convolve_fft_buffers(n, k, channels, table@));
            assert forall|i: int| 0 <= i < routing@.len() implies #[trigger] routing@[i]
                < channels by {
                assert(params.kernels@[i].c0 < channels);
            }
        }
        ConvolveFftPass {
            n,
            k,
            channels,
            routing,
            fft2d,
            sm_pass,
            layout_pass,
            twiddles,
            scratch_complex,
            spectrum_a,
            k_spectra,
            inv_in,
            k_complex_out,
            sm_params_buf,
            layout_params_buf,
            channel_in,
        }
    }

    /// Appends the ways back of the kernels that read channel `c`.
    fn record_kernels(&self, ctx: &mut GpuContext, encoder: &mut CommandEncoder, c: u32)
        requires
            self.wf(),
        ensures
            final(ctx)@ == old(ctx)@ + inverse_buffers(
                self.n,
                routed(self.routing@, c as int, self.k as int),
            ),
            final(ctx).queue() == old(ctx).queue(),
            final(encoder)@ == old(encoder)@ + self.kernel_rounds(
                old(ctx)@.len() as int,
                c as int,
                self.k as int,
            ),
    {
        let ghost base = old(ctx)@.len() as int;
        let n: u32 = self.n;
        proof {
            assert(n * n <= 512 * 512) by (nonlinear_arith)
                requires
                    n <= 512,
            ;
            assert(0 <= n * n) by (nonlinear_arith);
            assert(ctx@ =~= old(ctx)@ + inverse_buffers(n, routed(self.routing@, c as int, 0)));
            assert(encoder@ =~= old(encoder)@ + self.kernel_rounds(base, c as int, 0));
        }
        let slice: u64 = (n * n) as u64 * 8;
        for ki in 0..self.k
            invariant
                self.wf(),
                n == self.n,
                slice == self.slice_bytes(),
                slice <= 512 * 512 * 8,
                base == old(ctx)@.len(),
                ctx@ == old(ctx)@ + inverse_buffers(
                    self.n,
                    routed(self.routing@, c as int, ki as int),
                ),
                ctx.queue() == old(ctx).queue(),
                encoder@ == old(encoder)@ + self.kernel_rounds(base, c as int, ki as int),
        {
            if self.routing[ki as usize] == c {
                let ghost before_c = ctx@;
                let ghost before_e = encoder@;
                proof {
                    assert(0 <= ki * slice <= u32::MAX * (512 * 512 * 8)) by (nonlinear_arith)
                        requires
                            0 <= ki <= u32::MAX,
                            0 <= slice <= 512 * 512 * 8,
                    ;
                    lemma_routed_bounds(self.routing@, c as int, ki as int);
                    lemma_inverse_buffers_len(n, routed(self.routing@, c as int, ki as int));
                }
                let slice_offset: u64 = ki as u64 * slice;
                encoder.copy_buffer_to_buffer(self.k_spectra, slice_offset, self.inv_in, 0, slice);
                self.fft2d.inverse_2d_with_scratch(
                    ctx,
                    encoder,
                    self.twiddles,
                    self.inv_in,
                    self.scratch_complex,
                    self.spectrum_a,
                );
                encoder.copy_buffer_to_buffer(
                    self.spectrum_a,
                    0,
                    self.k_complex_out,
                    slice_offset,
                    slice,
                );
                proof {
                    assert(encoder@ =~= before_e + self.kernel_round(
                        before_c.len() as int,
                        ki as int,
                    ));
                    assert(encoder@ =~= old(encoder)@ + self.kernel_rounds(
                        base,
                        c as int,
                        ki + 1,
                    ));
                    assert(ctx@ =~= old(ctx)@ + inverse_buffers(
                        n,
                        routed(self.routing@, c as int, ki + 1),
                    ));
                }
            }
        }
    }

    /// Appends all that channel `c` needs.
    fn record_channel(
        &self,
        ctx: &mut GpuContext,
        encoder: &mut CommandEncoder,
        c: u32,
        input_a: Buffer,
        kernel_fft: Buffer,
    )
        requires
            self.wf(),
            c < self.channels,
        ensures
            final(ctx)@ == old(ctx)@ + direction_buffers(self.n, FftDirection::Forward)
                + inverse_buffers(self.n, routed(self.routing@, c as int, self.k as int)),
            final(ctx).queue() == old(ctx).queue(),
            final(encoder)@ == old(encoder)@ + self.channel_round(
                old(ctx)@.len() as int,
                c as int,
                input_a,
                kernel_fft,
            ),
    {
        let n: u32 = self.n;
        proof {
            assert(0 <= n * n <= 512 * 512) by (nonlinear_arith)
                requires
                    0 <= n <= 512,
            ;
        }
        let plane: u64 = (n * n) as u64 * 4;
        proof {
            assert(0 <= c * plane <= u32::MAX * (512 * 512 * 4)) by (nonlinear_arith)
                requires
                    0 <= c <= u32::MAX,
                    0 <= plane <= 512 * 512 * 4,
            ;
        }
        let input = match self.channel_in {
            Some(b) => if c == 0 {
                input_a
            } else {
                b
            },
            None => input_a,
        };
        if c > 0 {
            encoder.copy_buffer_to_buffer(input_a, c as u64 * plane, input, 0, plane);
        }
        self.fft2d.forward_2d_with_scratch(
            ctx,
            encoder,
            self.twiddles,
            input,
            self.scratch_complex,
            self.spectrum_a,
        );
        let bg_sm = self.sm_pass.make_bind_group(
            self.spectrum_a,
            kernel_fft,
            self.k_spectra,
            self.sm_params_buf,
        );
        self.sm_pass.record(encoder, &bg_sm, n, self.k);
        self.record_kernels(ctx, encoder, c);
        assert(encoder@ =~= old(encoder)@ + self.channel_round(
            old(ctx)@.len() as int,
            c as int,
            input_a,
            kernel_fft,
        ));
    }

    /// Appends the convolution of `input_a` with all kernels into `pre_g_out`.
    ///
    /// `input_a` holds the activation, `kernel_fft` the kernel spectra;
    /// `pre_g_out` gets the layout of the direct convolution.
    pub fn record(
        &self,
        ctx: &mut GpuContext,
        encoder: &mut CommandEncoder,
        input_a: Buffer,
        kernel_fft: Buffer,
        pre_g_out: Buffer,
    )
        requires
            self.wf(),
        ensures
            final(ctx)@ == old(ctx)@ + self.step_buffers(self.channels as int),
            final(ctx).queue() == old(ctx).queue(),
            final(encoder)@ == old(encoder)@ + self.commands(
                old(ctx)@.len() as int,
                input_a,
                kernel_fft,
                pre_g_out,
            ),
    {
        let ghost base = old(ctx)@.len() as int;
        proof {
            assert(ctx@ =~= old(ctx)@ + self.step_buffers(0));
            assert(encoder@ =~= old(encoder)@ + self.channel_rounds(base, 0, input_a, kernel_fft));
        }
        for c in 0..self.channels
            invariant
                self.wf(),
                base == old(ctx)@.len(),
                ctx@ == old(ctx)@ + self.step_buffers(c as int),
                ctx.queue() == old(ctx).queue(),
                encoder@ == old(encoder)@ + self.channel_rounds(base, c as int, input_a, kernel_fft),
        {
            proof {
                lemma_step_buffers_len(*self, c as int);
            }
            self.record_channel(ctx, encoder, c, input_a, kernel_fft);
            proof {
                assert(encoder@ =~= old(encoder)@ + self.channel_rounds(
                    base,
                    c + 1,
                    input_a,
                    kernel_fft,
                ));
                assert(ctx@ =~= old(ctx)@ + self.step_buffers(c + 1));
            }
        }
        let bg_layout = BindGroup::bind3(self.k_complex_out, pre_g_out, self.layout_params_buf);
        proof {
            assert(self.n * self.n <= 512 * 512) by (nonlinear_arith)
                requires
                    self.n <= 512,
            ;
        }
        self.layout_pass.record(encoder, &bg_layout, self.n, self.k);
        assert(encoder@ =~= old(encoder)@ + self.commands(base, input_a, kernel_fft, pre_g_out));
    }
}

/// An inverse transform uses two parameter buffers.
proof fn lemma_inverse_buffers_len(n: u32, count: int)
    requires
        0 <= count,
    ensures
        inverse_buffers(n, count).len() == 2 * count,
    decreases count,
{
    if count > 0 {
        lemma_inverse_buffers_len(n, count - 1);
    }
}

/// No more kernels read a channel than there are.
pub proof fn lemma_routed_bounds(routing: Seq<u32>, c: int, m: int)
    requires
        0 <= m,
    ensures
        0 <= routed(routing, c, m) <= m,
    decreases m,
{
    if m > 0 {
        lemma_routed_bounds(routing, c, m - 1);
    }
}

/// The first channels use two parameter buffers each, and two for each of their
/// kernels.
proof fn lemma_step_buffers_len(pass: ConvolveFftPass, c: int)
    requires
        0 <= c,
        pass.routing@.len() == pass.k,
    ensures
        pass.step_buffers(c).len() == pass.used(c),
    decreases c,
{
    if c > 0 {
        lemma_step_buffers_len(pass, c - 1);
        lemma_routed_bounds(pass.routing@, c - 1, pass.k as int);
        lemma_inverse_buffers_len(pass.n, routed(pass.routing@, c - 1, pass.k as int));
    }
}

/// The first channels use no more parameter buffers than all of them.
pub proof fn lemma_used_bounds(pass: ConvolveFftPass, c: int)
    requires
        pass.wf(),
        0 <= c <= pass.channels,
    ensures
        0 <= pass.used(c) <= 2 * c + 2 * pass.k,
{
    lemma_routed_below_same(pass.routing@, c);
    lemma_routed_below_bounds(pass.routing@, c, pass.k as int);
}

proof fn lemma_routed_below_bounds(routing: Seq<u32>, c: int, m: int)
    requires
        0 <= m <= routing.len(),
        0 <= c,
    ensures
        0 <= routed_below_of(routing, c, m) <= m,
    decreases m,
{
    if m == 0 {
        lemma_routed_below_zero(routing, c);
    } else {
        lemma_routed_below_of(routing, c, m);
        lemma_routed_below_bounds(routing, c, m - 1);
    }
}

/// Kernel counts of the first `c` channels, over the first `m` kernels.
spec fn routed_below_of(routing: Seq<u32>, c: int, m: int) -> int
    decreases c,
{
    if c <= 0 {
        0
    } else {
        routed_below_of(routing, c - 1, m) + routed(routing, c - 1, m)
    }
}

proof fn lemma_routed_below_of(routing: Seq<u32>, c: int, m: int)
    requires
        0 <= c,
        0 < m <= routing.len(),
    ensures
        routed_below_of(routing, c, m) == routed_below_of(routing, c, m - 1) + if routing[m - 1]
            < c {
            1int
        } else {
            0
        },
    decreases c,
{
    if c > 0 {
        lemma_routed_below_of(routing, c - 1, m);
    }
}

proof fn lemma_routed_below_zero(routing: Seq<u32>, c: int)
    requires
        0 <= c,
    ensures
        routed_below_of(routing, c, 0) == 0,
    decreases c,
{
    if c > 0 {
        lemma_routed_below_zero(routing, c - 1);
    }
}

proof fn lemma_routed_below_all(routing: Seq<u32>, c: int, m: int)
    requires
        0 <= m <= routing.len(),
        0 <= c,
        forall|i: int| 0 <= i < routing.len() ==> #[trigger] routing[i] < c,
    ensures
        routed_below_of(routing, c, m) == m,
    decreases m,
{
    if m == 0 {
        lemma_routed_below_zero(routing, c);
    } else {
        assert(routing[m - 1] < c);
        lemma_routed_below_of(routing, c, m);
        lemma_routed_below_all(routing, c, m - 1);
    }
}

proof fn lemma_routed_below_same(routing: Seq<u32>, c: int)
    requires
        0 <= c,
    ensures
        routed_below(routing, c) == routed_below_of(routing, c, routing.len() as int),
    decreases c,
{
    if c > 0 {
        lemma_routed_below_same(routing, c - 1);
    }
}

/// Every kernel is transformed back exactly once: over all channels there are
/// as many ways back as kernels.
pub proof fn law_every_kernel_once(pass: ConvolveFftPass)
    requires
        pass.wf(),
    ensures
        routed_below(pass.routing@, pass.channels as int) == pass.k,
        pass.used(pass.channels as int) == 2 * pass.channels + 2 * pass.k,
{
    lemma_routed_below_same(pass.routing@, pass.channels as int);
    lemma_routed_below_all(pass.routing@, pass.channels as int, pass.k as int);
}

/// The slices of the kernels lie inside the common buffer, next to each other
/// and apart, and each starts where a storage binding may start.
pub proof fn law_slices(pass: ConvolveFftPass, ki: int, kj: int)
    requires
        pass.wf(),
        0 <= ki < kj < pass.k,
    ensures
        0 <= ki * pass.slice_bytes(),
        ki * pass.slice_bytes() + pass.slice_bytes() <= kj * pass.slice_bytes(),
        kj * pass.slice_bytes() + pass.slice_bytes() <= pass.n * pass.n * pass.k * 8,
        (ki * pass.slice_bytes()) % 256 == 0,
        (pass.k - 1) * pass.slice_bytes() + pass.slice_bytes() == pass.n * pass.n * pass.k * 8,
{
    let s = pass.slice_bytes();
    let cells = pass.n * pass.n;
    assert(s >= 0) by (nonlinear_arith)
        requires
            s == cells * 8,
            cells == pass.n * pass.n,
    ;
    assert(0 <= ki * s && ki * s + s <= kj * s && kj * s + s <= pass.k * s) by (nonlinear_arith)
        requires
            0 <= ki,
            ki + 1 <= kj,
            kj + 1 <= pass.k,
            0 <= s,
    ;
    assert((pass.k - 1) * s + s == pass.k * s) by (nonlinear_arith);
    assert(pass.k * s == cells * pass.k * 8) by (nonlinear_arith)
        requires
            s == cells * 8,
    ;
    let q = s / 256;
    assert(s == 256 * q) by {
        assert(8 * 8 == 64int && 32 * 32 == 1024int && 64 * 64 == 4096int && 128 * 128 == 16384int
            && 256 * 256 == 65536int && 512 * 512 == 262144int);
    }
    assert(ki * s == 256 * (ki * q)) by (nonlinear_arith)
        requires
            s == 256 * q,
    ;
}

/// The command puts a result into the slice of kernel `ki`.
pub open spec fn fills_slice(f: ConvolveFftPass, c: Command, ki: int) -> bool {
    match c {
        Command::Copy { dst, dst_offset, .. } => dst == f.k_complex_out && dst_offset == ki
            * f.slice_bytes(),
        _ => false,
    }
}

/// How many of the commands put a result into the slice of kernel `ki`.
pub open spec fn slice_fills(f: ConvolveFftPass, cmds: Seq<Command>, ki: int) -> int
    decreases cmds.len(),
{
    if cmds.len() == 0 {
        0
    } else {
        slice_fills(f, cmds.drop_last(), ki) + if fills_slice(f, cmds.last(), ki) {
            1int
        } else {
            0
        }
    }
}

proof fn lemma_slice_fills_concat(f: ConvolveFftPass, a: Seq<Command>, b: Seq<Command>, ki: int)
    ensures
        slice_fills(f, a + b, ki) == slice_fills(f, a, ki) + slice_fills(f, b, ki),
    decreases b.len(),
{
    if b.len() == 0 {
        assert(a + b =~= a);
    } else {
        assert((a + b).drop_last() =~= a + b.drop_last());
        lemma_slice_fills_concat(f, a, b.drop_last(), ki);
    }
}

proof fn lemma_slice_fills_none(f: ConvolveFftPass, cmds: Seq<Command>, ki: int)
    requires
        forall|i: int| 0 <= i < cmds.len() ==> !fills_slice(f, #[trigger] cmds[i], ki),
    ensures
        slice_fills(f, cmds, ki) == 0,
    decreases cmds.len(),
{
    if cmds.len() > 0 {
        assert(!fills_slice(f, cmds[cmds.len() - 1], ki));
        assert forall|i: int| 0 <= i < cmds.drop_last().len() implies !fills_slice(
            f,
            #[trigger] cmds.drop_last()[i],
            ki,
        ) by {
            assert(cmds.drop_last()[i] == cmds[i]);
        }
        lemma_slice_fills_none(f, cmds.drop_last(), ki);
    }
}

proof fn lemma_round_fills(f: ConvolveFftPass, at: int, kj: int, ki: int)
    requires
        f.wf(),
        0 <= ki < f.k,
        0 <= kj < f.k,
        f.inv_in != f.k_complex_out,
    ensures
        slice_fills(f, f.kernel_round(at, kj), ki) == if ki == kj {
            1int
        } else {
            0
        },
{
    let cmds = f.kernel_round(at, kj);
    let s = f.slice_bytes();
    assert(64 <= f.n * f.n <= 512 * 512) by (nonlinear_arith)
        requires
            8 <= f.n <= 512,
    ;
    assert(0 <= kj * s <= u32::MAX * (512 * 512 * 8)) by (nonlinear_arith)
        requires
            0 <= kj <= u32::MAX,
            0 <= s <= 512 * 512 * 8,
    ;
    if ki != kj {
        assert(ki * s != kj * s) by (nonlinear_arith)
            requires
                ki != kj,
                s > 0,
        ;
    }
    let head = cmds.drop_last();
    assert(cmds.len() == 4);
    assert(!fills_slice(f, head[0], ki) && !fills_slice(f, head[1], ki) && !fills_slice(
        f,
        head[2],
        ki,
    ));
    lemma_slice_fills_none(f, head, ki);
}

proof fn lemma_rounds_fill(f: ConvolveFftPass, at: int, c: int, m: int, ki: int)
    requires
        f.wf(),
        0 <= ki < f.k,
        0 <= m <= f.k,
        f.inv_in != f.k_complex_out,
    ensures
        slice_fills(f, f.kernel_rounds(at, c, m), ki) == if ki < m && f.routing@[ki] == c {
            1int
        } else {
            0
        },
    decreases m,
{
    if m > 0 {
        lemma_rounds_fill(f, at, c, m - 1, ki);
        if f.routing@[m - 1] == c {
            let here = at + 2 * routed(f.routing@, c, m - 1);
            lemma_round_fills(f, here, m - 1, ki);
            lemma_slice_fills_concat(
                f,
                f.kernel_rounds(at, c, m - 1),
                f.kernel_round(here, m - 1),
                ki,
            );
        }
    }
}

proof fn lemma_channels_fill(
    f: ConvolveFftPass,
    base: int,
    c: int,
    input_a: Buffer,
    kernel_fft: Buffer,
    ki: int,
)
    requires
        f.wf(),
        0 <= ki < f.k,
        0 <= c <= f.channels,
        f.inv_in != f.k_complex_out,
        f.channel_in is Some ==> f.channel_in->0 != f.k_complex_out,
    ensures
        slice_fills(f, f.channel_rounds(base, c, input_a, kernel_fft), ki) == if f.routing@[ki]
            < c {
            1int
        } else {
            0
        },
    decreases c,
{
    if c > 0 {
        lemma_channels_fill(f, base, c - 1, input_a, kernel_fft, ki);
        let at = base + f.used(c - 1);
        let round = f.channel_round(at, c - 1, input_a, kernel_fft);
        let rounds = f.kernel_rounds(at + 2, c - 1, f.k as int);
        let head = round.take(round.len() - rounds.len());
        assert(round =~= head + rounds);
        assert forall|i: int| 0 <= i < head.len() implies !fills_slice(
            f,
            #[trigger] head[i],
            ki,
        ) by {}
        lemma_slice_fills_none(f, head, ki);
        lemma_rounds_fill(f, at + 2, c - 1, f.k as int, ki);
        lemma_slice_fills_concat(f, head, rounds, ki);
        lemma_slice_fills_concat(
            f,
            f.channel_rounds(base, c - 1, input_a, kernel_fft),
            round,
            ki,
        );
    }
}

/// A convolution puts exactly one result into the slice of every kernel.
pub proof fn law_every_slice_filled_once(
    f: ConvolveFftPass,
    fft_start: int,
    base: int,
    input_a: Buffer,
    kernel_fft: Buffer,
    pre_g_out: Buffer,
    ki: int,
)
    requires
        f.wf(),
        f.is_built(fft_start, f.n, f.channels, f.routing@),
        0 <= ki < f.k,
    ensures
        slice_fills(f, f.commands(base, input_a, kernel_fft, pre_g_out), ki) == 1,
{
    let c = f.channels as int;
    assert(f.routing@[ki] < f.channels);
    lemma_channels_fill(f, base, c, input_a, kernel_fft, ki);
    let cmds = f.commands(base, input_a, kernel_fft, pre_g_out);
    assert(cmds.drop_last() =~= f.channel_rounds(base, c, input_a, kernel_fft));
}

} // verus!
