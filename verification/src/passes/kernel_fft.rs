//! Spectra of the kernels.
//!
//! The kernels do not change while a simulation runs, so their transforms are
//! made once. Each kernel is first laid out on the grid with its centre at the
//! origin and what lies above or left of the centre wrapped to the far edges,
//! which makes the product of transforms the transform of the circular
//! convolution.

use crate::device::{filled, Buffer, BufferSpec, BufferUsages, Command, CommandEncoder, GpuContext};
use crate::field::KernelImage;
use crate::index::{idx3, lemma_idx3, lemma_idx3_step};
use crate::passes::fft::{forward_2d_buffers, Fft2dPass};
use crate::words::{word_bytes, words_to_bytes, F32Bits};
use vstd::prelude::*;

verus! {

/// The buffer of all kernel spectra: `k` spectra of `n * n` complex numbers,
/// one after the other.
#[derive(Clone, Copy, Debug, PartialEq, Eq, Structural)]
pub struct KernelFftBuffers {
    /// Side of the grid.
    pub n: u32,
    /// Number of kernels.
    pub k: u32,
    pub buffer: Buffer,
}

impl KernelFftBuffers {
    /// Bytes of one spectrum.
    pub fn bytes_per_kernel(&self) -> (bytes: u64)
        requires
            self.n * self.n * 8 <= u64::MAX,
        ensures
            bytes == self.n * self.n * 8,
    {
        proof {
            crate::passes::tile::lemma_product3(self.n as int, self.n as int, 1);
        }
        self.n as u64 * self.n as u64 * 8
    }

    /// Bytes of all spectra.
    pub fn total_bytes(&self) -> (bytes: u64)
        requires
            self.n * self.n * 8 <= u64::MAX,
            self.n * self.n * 8 * self.k <= u64::MAX,
        ensures
            bytes == self.n * self.n * 8 * self.k,
    {
        let each: u64 = self.bytes_per_kernel();
        proof {
            assert(0 <= each * self.k) by (nonlinear_arith);
        }
        each * self.k as u64
    }
}

/// The kernel element that row `y`, column `x` of the grid holds: the one that
/// lies as far from the kernel's centre as the cell lies from the origin,
/// counted around the grid; zero where there is none.
pub open spec fn wrapped_at(kernel: KernelImage, n: int, y: int, x: int) -> u32 {
    let ky = (y + kernel.rows() / 2) % n;
    let kx = (x + kernel.cols() / 2) % n;
    if ky < kernel.rows() && kx < kernel.cols() {
        kernel.at(ky, kx)
    } else {
        0
    }
}

/// A kernel laid out on the grid, row by row.
pub open spec fn padded_kernel(kernel: KernelImage, n: int) -> Seq<u32> {
    Seq::new((n * n) as nat, |i: int| wrapped_at(kernel, n, i / n, i % n))
}

/// Row or column of the grid that lies `d` from the origin.
pub open spec fn wrap(d: int, n: int) -> int {
    d % n
}

/// The kernel element `(dy, dx)` from the centre stands at the cell `(dy, dx)`
/// from the origin, counted around the grid.
pub proof fn law_padded_kernel_offsets(kernel: KernelImage, n: int, dy: int, dx: int)
    requires
        0 < n,
        kernel.rows() <= n,
        kernel.cols() <= n,
        0 <= dy + kernel.rows() / 2 < kernel.rows(),
        0 <= dx + kernel.cols() / 2 < kernel.cols(),
    ensures
        0 <= wrap(dy, n) * n + wrap(dx, n) < padded_kernel(kernel, n).len(),
        padded_kernel(kernel, n)[wrap(dy, n) * n + wrap(dx, n)] == kernel.at(
            dy + kernel.rows() / 2,
            dx + kernel.cols() / 2,
        ),
{
    let (y, x) = (wrap(dy, n), wrap(dx, n));
    lemma_idx3(0, y, x, 1, n, n);
    assert(idx3(0, y, x, n, n) == y * n + x) by {
        assert((0 * n + y) * n + x == y * n + x) by (nonlinear_arith);
    }
    assert(1 * n * n == n * n) by (nonlinear_arith);
    lemma_wrap_back(dy, kernel.rows() / 2, n);
    lemma_wrap_back(dx, kernel.cols() / 2, n);
}

/// The centre of the kernel stands at the origin.
pub proof fn law_centre_at_origin(kernel: KernelImage, n: int)
    requires
        0 < kernel.rows() <= n,
        0 < kernel.cols() <= n,
    ensures
        padded_kernel(kernel, n)[0] == kernel.at(kernel.rows() / 2, kernel.cols() / 2),
{
    law_padded_kernel_offsets(kernel, n, 0, 0);
    assert(wrap(0, n) == 0) by {
        vstd::arithmetic::div_mod::lemma_small_mod(0, n as nat);
    }
    assert(0 * n + 0 == 0);
}

/// A cell that no kernel element is as far from the centre as it from the
/// origin is zero.
pub proof fn law_padded_kernel_zero(kernel: KernelImage, n: int, y: int, x: int)
    requires
        0 <= y < n,
        0 <= x < n,
        0 <= kernel.rows() <= n,
        0 <= kernel.cols() <= n,
        forall|dy: int, dx: int|
            0 <= dy + kernel.rows() / 2 < kernel.rows() && 0 <= dx + kernel.cols() / 2
                < kernel.cols() ==> !(#[trigger] wrap(dy, n) == y && #[trigger] wrap(dx, n) == x),
    ensures
        padded_kernel(kernel, n)[y * n + x] == 0,
{
    lemma_idx3(0, y, x, 1, n, n);
    assert((0 * n + y) * n + x == y * n + x) by (nonlinear_arith);
    assert(1 * n * n == n * n) by (nonlinear_arith);
    let ky = (y + kernel.rows() / 2) % n;
    let kx = (x + kernel.cols() / 2) % n;
    if ky < kernel.rows() && kx < kernel.cols() {
        let dy = ky - kernel.rows() / 2;
        let dx = kx - kernel.cols() / 2;
        lemma_wrap_forth(y, kernel.rows() / 2, n);
        lemma_wrap_forth(x, kernel.cols() / 2, n);
        assert(wrap(dy, n) == y);
        assert(wrap(dx, n) == x);
    }
}

/// The kernel looks the same turned by half a turn.
pub open spec fn centro_symmetric(kernel: KernelImage) -> bool {
    forall|y: int, x: int|
        0 <= y < kernel.rows() && 0 <= x < kernel.cols() ==> #[trigger] kernel.at(y, x)
            == kernel.at(kernel.rows() - 1 - y, kernel.cols() - 1 - x)
}

/// On the grid, a kernel of odd sides that looks the same turned by half a turn
/// is even: the cells at `(y, x)` and at `(-y, -x)` from the origin hold the
/// same. For such kernels, convolving and correlating around the grid are one.
pub proof fn law_symmetric_kernel_is_even(kernel: KernelImage, n: int, y: int, x: int)
    requires
        0 < n,
        0 <= kernel.rows() <= n,
        0 <= kernel.cols() <= n,
        kernel.rows() % 2 == 1,
        kernel.cols() % 2 == 1,
        centro_symmetric(kernel),
        0 <= y < n,
        0 <= x < n,
    ensures
        0 <= y * n + x < padded_kernel(kernel, n).len(),
        0 <= wrap(-y, n) * n + wrap(-x, n) < padded_kernel(kernel, n).len(),
        padded_kernel(kernel, n)[y * n + x] == padded_kernel(kernel, n)[wrap(-y, n) * n + wrap(
            -x,
            n,
        )],
{
    let (my, mx) = (wrap(-y, n), wrap(-x, n));
    lemma_idx3(0, y, x, 1, n, n);
    lemma_idx3(0, my, mx, 1, n, n);
    assert((0 * n + y) * n + x == y * n + x && (0 * n + my) * n + mx == my * n + mx && 1 * n * n
        == n * n) by (nonlinear_arith);
    lemma_mirror(y, kernel.rows(), n);
    lemma_mirror(x, kernel.cols(), n);
    let ky = (y + kernel.rows() / 2) % n;
    let kx = (x + kernel.cols() / 2) % n;
    if ky < kernel.rows() && kx < kernel.cols() {
        assert(kernel.at(ky, kx) == kernel.at(kernel.rows() - 1 - ky, kernel.cols() - 1 - kx));
    }
}

/// Along one axis, the mirrored cell belongs to the mirrored element.
proof fn lemma_mirror(y: int, side: int, n: int)
    requires
        0 <= y < n,
        0 < side <= n,
        side % 2 == 1,
    ensures
        ({
            let k = (y + side / 2) % n;
            let m = (wrap(-y, n) + side / 2) % n;
            &&& k < side ==> m == side - 1 - k
            &&& k >= side ==> m >= side
        }),
{
    let h = side / 2;
    let k = (y + h) % n;
    let m = (wrap(-y, n) + h) % n;
    lemma_wrap_forth(y, h, n);
    vstd::arithmetic::div_mod::lemma_add_mod_noop(-y, h, n);
    vstd::arithmetic::div_mod::lemma_add_mod_noop((-y) % n, h, n);
    vstd::arithmetic::div_mod::lemma_mod_twice(-y, n);
    assert(m == (h - y) % n);
    if y + h < n {
        vstd::arithmetic::div_mod::lemma_small_mod((y + h) as nat, n as nat);
    } else {
        vstd::arithmetic::div_mod::lemma_mod_sub_multiples_vanish(y + h, n);
        vstd::arithmetic::div_mod::lemma_small_mod((y + h - n) as nat, n as nat);
    }
    if y <= h {
        vstd::arithmetic::div_mod::lemma_small_mod((h - y) as nat, n as nat);
    } else {
        vstd::arithmetic::div_mod::lemma_mod_add_multiples_vanish(h - y, n);
        vstd::arithmetic::div_mod::lemma_small_mod((h - y + n) as nat, n as nat);
    }
}

/// Wrapping an offset and stepping back to the centre undoes the wrap.
proof fn lemma_wrap_back(d: int, centre: int, n: int)
    requires
        0 < n,
        0 <= d + centre < n,
    ensures
        (d % n + centre) % n == d + centre,
{
    vstd::arithmetic::div_mod::lemma_add_mod_noop(d, centre, n);
    vstd::arithmetic::div_mod::lemma_small_mod((d + centre) as nat, n as nat);
    vstd::arithmetic::div_mod::lemma_add_mod_noop(d % n, centre, n);
    vstd::arithmetic::div_mod::lemma_mod_twice(d, n);
}

/// Stepping to the centre and back again around the grid comes out at the cell.
proof fn lemma_wrap_forth(y: int, centre: int, n: int)
    requires
        0 <= y < n,
    ensures
        ((y + centre) % n - centre) % n == y,
{
    vstd::arithmetic::div_mod::lemma_sub_mod_noop(y + centre, centre, n);
    vstd::arithmetic::div_mod::lemma_sub_mod_noop((y + centre) % n, centre, n);
    vstd::arithmetic::div_mod::lemma_mod_twice(y + centre, n);
    vstd::arithmetic::div_mod::lemma_small_mod(y as nat, n as nat);
}

/// Lays a kernel out on an `n * n` grid with its centre at the origin.
pub fn build_padded_kernel(kernel: &KernelImage, n: u32) -> (padded: Vec<F32Bits>)
    requires
        kernel.rows() <= n,
        kernel.cols() <= n,
    ensures
        padded@ == padded_kernel(*kernel, n as int),
{
    let (k_h, k_w) = kernel.dim();
    let ghost gn = n as int;
    let side: u64 = n as u64;
    let centre_h: u64 = (k_h / 2) as u64;
    let centre_w: u64 = (k_w / 2) as u64;
    let mut padded: Vec<F32Bits> = Vec::new();
    proof {
        lemma_idx3_step(0, 0, gn, gn);
    }
    for y in 0..n
        invariant
            gn == n == side,
            k_h == kernel.rows() <= n,
            k_w == kernel.cols() <= n,
            centre_h == k_h / 2,
            centre_w == k_w / 2,
            padded@.len() == idx3(0, y as int, 0, gn, gn),
            forall|j: int|
                0 <= j < padded@.len() ==> #[trigger] padded@[j] == padded_kernel(*kernel, gn)[j],
    {
        for x in 0..n
            invariant
                gn == n == side,
                y < n,
                k_h == kernel.rows() <= n,
                k_w == kernel.cols() <= n,
                centre_h == k_h / 2,
                centre_w == k_w / 2,
                padded@.len() == idx3(0, y as int, x as int, gn, gn),
                forall|j: int|
                    0 <= j < padded@.len() ==> #[trigger] padded@[j] == padded_kernel(*kernel, gn)[j],
        {
            proof {
                lemma_idx3(0, y as int, x as int, 1, gn, gn);
                assert(1 * gn * gn == gn * gn) by (nonlinear_arith);
                assert((0 * gn + y) == y) by (nonlinear_arith);
            }
            let ky: u64 = (y as u64 + centre_h) % side;
            let kx: u64 = (x as u64 + centre_w) % side;
            if ky < k_h as u64 && kx < k_w as u64 {
                padded.push(kernel.get(ky as usize, kx as usize));
            } else {
                padded.push(0);
            }
        }
        proof {
            lemma_idx3_step(0, y as int, gn, gn);
        }
    }
    proof {
        assert((0 * gn + gn) * gn + 0 == gn * gn) by (nonlinear_arith);
    }
    assert(padded@ =~= padded_kernel(*kernel, gn));
    padded
}

/// The buffers of the transforms of a bank, one kernel after the other.
pub open spec fn bank_fft_buffers(ks: Seq<KernelImage>, n: u32) -> Seq<BufferSpec>
    decreases ks.len(),
{
    if ks.len() == 0 {
        seq![]
    } else {
        bank_fft_buffers(ks.drop_last(), n) + forward_2d_buffers(
            n,
            padded_kernel(ks.last(), n as int),
        )
    }
}

/// The commands of the transforms of a bank of `count` kernels; every kernel
/// uses six buffers.
pub open spec fn bank_fft_commands(fft2d: Fft2dPass, base: int, twiddles: Buffer, count: nat) -> Seq<
    Command,
>
    decreases count,
{
    if count == 0 {
        seq![]
    } else {
        bank_fft_commands(fft2d, base, twiddles, (count - 1) as nat) + fft2d.forward_2d_commands(
            base + 6 * (count - 1),
            twiddles,
        )
    }
}

/// Every kernel uses six buffers.
proof fn lemma_bank_fft_buffers_len(ks: Seq<KernelImage>, n: u32)
    ensures
        bank_fft_buffers(ks, n).len() == 6 * ks.len(),
    decreases ks.len(),
{
    if ks.len() > 0 {
        lemma_bank_fft_buffers_len(ks.drop_last(), n);
    }
}

/// Appends the transform of every kernel and its readback. The staging buffers
/// of the spectra are returned in the order of the kernels;
/// [`pack_kernel_ffts`] takes what they hold.
pub fn precompute_kernel_ffts(
    ctx: &mut GpuContext,
    encoder: &mut CommandEncoder,
    kernels: &Vec<KernelImage>,
    n: u32,
    fft2d: &Fft2dPass,
    twiddles: Buffer,
) -> (staging: Vec<Buffer>)
    requires
        fft2d.wf(),
        fft2d.n == n,
        kernels@.len() >= 1,
        n * n <= u32::MAX,
        8 * (n * n) <= usize::MAX,
        forall|i: int|
            0 <= i < kernels@.len() ==> (#[trigger] kernels@[i]).rows() <= n && kernels@[i].cols()
                <= n,
    ensures
        final(ctx)@ == old(ctx)@ + bank_fft_buffers(kernels@, n),
        final(ctx).queue() == old(ctx).queue(),
        final(encoder)@ == old(encoder)@ + bank_fft_commands(
            *fft2d,
            old(ctx)@.len() as int,
            twiddles,
            kernels@.len(),
        ),
        staging@.len() == kernels@.len(),
        forall|i: int|
            0 <= i < staging@.len() ==> (#[trigger] staging@[i]).id == old(ctx)@.len() + 6 * i + 5,
{
    let ghost base = old(ctx)@.len() as int;
    let count: usize = kernels.len();
    let mut staging: Vec<Buffer> = Vec::new();
    proof {
        assert(kernels@.take(0) =~= Seq::<KernelImage>::empty());
        assert(ctx@ =~= old(ctx)@ + bank_fft_buffers(kernels@.take(0), n));
        assert(encoder@ =~= old(encoder)@ + bank_fft_commands(*fft2d, base, twiddles, 0));
    }
    for i in 0..count
        invariant
            count == kernels@.len(),
            base == old(ctx)@.len(),
            fft2d.wf(),
            fft2d.n == n,
            n * n <= u32::MAX,
            8 * (n * n) <= usize::MAX,
            forall|j: int|
                0 <= j < kernels@.len() ==> (#[trigger] kernels@[j]).rows() <= n
                    && kernels@[j].cols() <= n,
            ctx@ == old(ctx)@ + bank_fft_buffers(kernels@.take(i as int), n),
            ctx.queue() == old(ctx).queue(),
            encoder@ == old(encoder)@ + bank_fft_commands(*fft2d, base, twiddles, i as nat),
            staging@.len() == i,
            forall|j: int|
                0 <= j < staging@.len() ==> (#[trigger] staging@[j]).id == base + 6 * j + 5,
    {
        let padded = build_padded_kernel(&kernels[i], n);
        proof {
            lemma_bank_fft_buffers_len(kernels@.take(i as int), n);
            assert(kernels@.take(i + 1).drop_last() =~= kernels@.take(i as int));
        }
        let ghost before_c = ctx@;
        let ghost before_e = encoder@;
        let s = fft2d.forward_2d(ctx, encoder, twiddles, padded.as_slice());
        staging.push(s);
        proof {
            assert(ctx@ =~= old(ctx)@ + bank_fft_buffers(kernels@.take(i + 1), n));
            assert(encoder@ =~= old(encoder)@ + bank_fft_commands(
                *fft2d,
                base,
                twiddles,
                (i + 1) as nat,
            ));
        }
    }
    assert(kernels@.take(count as int) =~= kernels@);
    staging
}

/// The words of a bank of spectra: one spectrum after the other, the real part
/// of each number first.
pub open spec fn spectra_words(spectra: Seq<Vec<(F32Bits, F32Bits)>>, cells: int) -> Seq<u32> {
    Seq::new(
        (spectra.len() * cells * 2) as nat,
        |i: int|
            {
                let number = spectra[i / 2 / cells]@[i / 2 % cells];
                if i % 2 == 0 {
                    number.0
                } else {
                    number.1
                }
            },
    )
}

/// Asks for the buffer of all kernel spectra.
pub fn pack_kernel_ffts(ctx: &mut GpuContext, n: u32, spectra: &Vec<Vec<(F32Bits, F32Bits)>>) -> (buffers:
    KernelFftBuffers)
    requires
        1 <= spectra@.len() <= u32::MAX,
        n * n <= u32::MAX,
        forall|i: int| 0 <= i < spectra@.len() ==> (#[trigger] spectra@[i])@.len() == n * n,
    ensures
        buffers == (KernelFftBuffers {
            n,
            k: spectra@.len() as u32,
            buffer: Buffer { id: old(ctx)@.len() as usize },
        }),
        old(ctx)@.len() <= usize::MAX,
        final(ctx)@ == old(ctx)@.push(kernel_fft_buffer(spectra@, n)),
        final(ctx).queue() == old(ctx).queue(),
{
    proof {
        assert(0 <= n * n) by (nonlinear_arith);
    }
    let cells: usize = (n * n) as usize;
    let ghost gc = cells as int;
    let count: usize = spectra.len();
    let mut words: Vec<u32> = Vec::new();
    proof {
        lemma_idx3_step(0, 0, gc, 2);
    }
    for s in 0..count
        invariant
            count == spectra@.len(),
            gc == cells == n * n,
            forall|i: int| 0 <= i < spectra@.len() ==> (#[trigger] spectra@[i])@.len() == n * n,
            words@.len() == idx3(s as int, 0, 0, gc, 2),
            forall|j: int|
                0 <= j < words@.len() ==> #[trigger] words@[j] == spectra_words(spectra@, gc)[j],
    {
        let spectrum = &spectra[s];
        for c in 0..cells
            invariant
                s < count,
                count == spectra@.len(),
                gc == cells == n * n,
                *spectrum == spectra@[s as int],
                spectrum@.len() == cells,
                words@.len() == idx3(s as int, c as int, 0, gc, 2),
                forall|j: int|
                    0 <= j < words@.len() ==> #[trigger] words@[j] == spectra_words(spectra@, gc)[j],
        {
            proof {
                lemma_idx3(s as int, c as int, 0, count as int, gc, 2);
                lemma_idx3(s as int, c as int, 1, count as int, gc, 2);
            }
            words.push(spectrum[c].0);
            words.push(spectrum[c].1);
            proof {
                lemma_idx3_step(s as int, c as int, gc, 2);
            }
        }
        proof {
            lemma_idx3_step(s as int, 0, gc, 2);
        }
    }
    assert(words@ =~= spectra_words(spectra@, gc));
    let usage = BufferUsages::storage().with_copy_dst();
    let buffer = ctx.create_buffer_init(words_to_bytes(words.as_slice()), usage);
    KernelFftBuffers { n, k: count as u32, buffer }
}

/// The buffer of all kernel spectra.
pub open spec fn kernel_fft_buffer(spectra: Seq<Vec<(F32Bits, F32Bits)>>, n: u32) -> BufferSpec {
    filled(
        word_bytes(spectra_words(spectra, n * n)),
        BufferUsages::of_storage().and_copy_dst(),
    )
}

/// The spectrum of kernel `ki` at row `r`, column `c` is complex number
/// `(ki * n + r) * n + c` of the buffer.
pub proof fn law_spectra_index(
    spectra: Seq<Vec<(F32Bits, F32Bits)>>,
    n: int,
    ki: int,
    r: int,
    c: int,
)
    requires
        0 <= ki < spectra.len(),
        0 <= r < n,
        0 <= c < n,
    ensures
        ({
            let at = (ki * n + r) * n + c;
            &&& 0 <= 2 * at + 1 < spectra_words(spectra, n * n).len()
            &&& spectra_words(spectra, n * n)[2 * at] == spectra[ki]@[r * n + c].0
            &&& spectra_words(spectra, n * n)[2 * at + 1] == spectra[ki]@[r * n + c].1
        }),
{
    let at = (ki * n + r) * n + c;
    let inner = r * n + c;
    lemma_idx3(ki, r, c, spectra.len() as int, n, n);
    lemma_idx3(0, r, c, 1, n, n);
    assert((0 * n + r) * n + c == inner && 1 * n * n == n * n) by (nonlinear_arith)
        requires
            inner == r * n + c,
    ;
    assert(at == ki * (n * n) + inner) by (nonlinear_arith)
        requires
            at == (ki * n + r) * n + c,
            inner == r * n + c,
    ;
    lemma_idx3(ki, inner, 0, spectra.len() as int, n * n, 2);
    lemma_idx3(ki, inner, 1, spectra.len() as int, n * n, 2);
}

} // verus!
