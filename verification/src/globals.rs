//! The uniform block that every pass of a step reads.

use crate::config::{BorderMode, FlowLeniaConfig};
use crate::config_border::{border_code, BorderCode};
use crate::words::{word_bytes, words_to_bytes, F32Bits};
use vstd::prelude::*;

verus! {

/// Grid and kernel-bank dimensions, border policy and physical parameters.
///
/// On the device the block is 64 bytes, sixteen words in this order: `h`, `w`,
/// `c`, `k`, `max_side`, `half_side`, `border`, `paper_strict`, `beta_a`, `n`,
/// `dd`, `sigma`, `dt`, and three words of padding.
#[derive(Clone, Copy, Debug, PartialEq, Eq, Structural)]
pub struct GpuGlobals {
    pub h: u32,
    pub w: u32,
    pub c: u32,
    pub k: u32,
    /// Side that every kernel is padded to; odd.
    pub max_side: u32,
    /// `(max_side - 1) / 2`.
    pub half_side: u32,
    /// 0 for a torus, 1 for walls.
    pub border: u32,
    /// 1 where the flow limiter follows the published formula, else 0.
    pub paper_strict: u32,
    pub beta_a: F32Bits,
    pub n: F32Bits,
    pub dd: u32,
    pub sigma: F32Bits,
    pub dt: F32Bits,
}

impl GpuGlobals {
    /// The block for the given dimensions, with the flag and the physical
    /// parameters at zero.
    pub open spec fn plain(
        h: u32,
        w: u32,
        c: u32,
        k: u32,
        max_side: u32,
        border: BorderMode,
    ) -> GpuGlobals {
        GpuGlobals {
            h,
            w,
            c,
            k,
            max_side,
            half_side: ((max_side - 1) / 2) as u32,
            border: border_code(border).as_u32(),
            paper_strict: 0,
            beta_a: 0,
            n: 0,
            dd: 0,
            sigma: 0,
            dt: 0,
        }
    }

    /// The block for a run of `cfg` on the given dimensions.
    pub open spec fn for_config(
        h: u32,
        w: u32,
        c: u32,
        k: u32,
        max_side: u32,
        cfg: FlowLeniaConfig,
    ) -> GpuGlobals {
        GpuGlobals {
            paper_strict: if cfg.paper_strict {
                1
            } else {
                0
            },
            beta_a: cfg.beta_a,
            n: cfg.n,
            dd: cfg.dd,
            sigma: cfg.sigma,
            dt: cfg.dt,
            ..GpuGlobals::plain(h, w, c, k, max_side, cfg.border)
        }
    }

    /// The words of the block, in device order.
    pub open spec fn words(self) -> Seq<u32> {
        seq![
            self.h,
            self.w,
            self.c,
            self.k,
            self.max_side,
            self.half_side,
            self.border,
            self.paper_strict,
            self.beta_a,
            self.n,
            self.dd,
            self.sigma,
            self.dt,
            0,
            0,
            0,
        ]
    }

    /// The block for the given dimensions; [`Self::with_paper_strict`] and its
    /// siblings set the rest.
    pub fn new(h: u32, w: u32, c: u32, k: u32, max_side: u32, border: BorderMode) -> (g: GpuGlobals)
        requires
            max_side % 2 == 1,
        ensures
            g == GpuGlobals::plain(h, w, c, k, max_side, border),
    {
        GpuGlobals {
            h,
            w,
            c,
            k,
            max_side,
            half_side: (max_side - 1) / 2,
            border: BorderCode::from(border).code(),
            paper_strict: 0,
            beta_a: 0,
            n: 0,
            dd: 0,
            sigma: 0,
            dt: 0,
        }
    }

    /// Sets the flag of the published flow limiter.
    pub fn with_paper_strict(self, on: bool) -> (g: GpuGlobals)
        ensures
            g == (GpuGlobals { paper_strict: if on { 1 } else { 0 }, ..self }),
    {
        let mut g = self;
        g.paper_strict = if on { 1 } else { 0 };
        g
    }

    /// Sets the critical mass.
    pub fn with_beta_a(self, beta_a: F32Bits) -> (g: GpuGlobals)
        ensures
            g == (GpuGlobals { beta_a, ..self }),
    {
        let mut g = self;
        g.beta_a = beta_a;
        g
    }

    /// Sets the limiter's exponent.
    pub fn with_n(self, n: F32Bits) -> (g: GpuGlobals)
        ensures
            g == (GpuGlobals { n, ..self }),
    {
        let mut g = self;
        g.n = n;
        g
    }

    /// Sets the reach of the reintegration.
    pub fn with_dd(self, dd: u32) -> (g: GpuGlobals)
        ensures
            g == (GpuGlobals { dd, ..self }),
    {
        let mut g = self;
        g.dd = dd;
        g
    }

    /// Sets the half width of the mass square.
    pub fn with_sigma(self, sigma: F32Bits) -> (g: GpuGlobals)
        ensures
            g == (GpuGlobals { sigma, ..self }),
    {
        let mut g = self;
        g.sigma = sigma;
        g
    }

    /// Sets the time step.
    pub fn with_dt(self, dt: F32Bits) -> (g: GpuGlobals)
        ensures
            g == (GpuGlobals { dt, ..self }),
    {
        let mut g = self;
        g.dt = dt;
        g
    }

    /// The block for a run of `cfg` on the given dimensions, through the
    /// builder methods.
    pub fn from_config(
        h: u32,
        w: u32,
        c: u32,
        k: u32,
        max_side: u32,
        cfg: &FlowLeniaConfig,
    ) -> (g: GpuGlobals)
        requires
            max_side % 2 == 1,
        ensures
            g == GpuGlobals::for_config(h, w, c, k, max_side, *cfg),
    {
        GpuGlobals::new(h, w, c, k, max_side, cfg.border)
            .with_paper_strict(cfg.paper_strict)
            .with_beta_a(cfg.beta_a)
            .with_n(cfg.n)
            .with_dd(cfg.dd)
            .with_sigma(cfg.sigma)
            .with_dt(cfg.dt)
    }

    /// The bytes of the block.
    pub fn to_bytes(&self) -> (bytes: Vec<u8>)
        ensures
            bytes@ == word_bytes(self.words()),
            bytes@.len() == 64,
    {
        let words: [u32; 16] = [
            self.h,
            self.w,
            self.c,
            self.k,
            self.max_side,
            self.half_side,
            self.border,
            self.paper_strict,
            self.beta_a,
            self.n,
            self.dd,
            self.sigma,
            self.dt,
            0,
            0,
            0,
        ];
        assert(words@ =~= self.words());
        words_to_bytes(&words)
    }
}

/// The padded side and the half side of a block agree: a kernel reaches
/// `half_side` cells to either side of its centre.
pub proof fn law_half_side(h: u32, w: u32, c: u32, k: u32, max_side: u32, border: BorderMode)
    requires
        max_side % 2 == 1,
    ensures
        GpuGlobals::plain(h, w, c, k, max_side, border).max_side == 2 * GpuGlobals::plain(
            h,
            w,
            c,
            k,
            max_side,
            border,
        ).half_side + 1,
{
}

/// Every parameter of a configuration stands at its own word of the block: the
/// grid first, then the bank, the border, the flow limiter, the reach, the
/// width and the time step.
pub proof fn law_block_words(
    h: u32,
    w: u32,
    c: u32,
    k: u32,
    max_side: u32,
    cfg: FlowLeniaConfig,
)
    requires
        max_side % 2 == 1,
    ensures
        ({
            let words = GpuGlobals::for_config(h, w, c, k, max_side, cfg).words();
            &&& words.len() == 16
            &&& words[0] == h && words[1] == w && words[2] == c && words[3] == k
            &&& words[4] == max_side && max_side == 2 * words[5] + 1
            &&& words[6] == 0 <==> cfg.border == BorderMode::Torus
            &&& words[6] == 1 <==> cfg.border == BorderMode::Wall
            &&& words[7] == 1 <==> cfg.paper_strict
            &&& words[7] == 0 <==> !cfg.paper_strict
            &&& words[8] == cfg.beta_a
            &&& words[9] == cfg.n
            &&& words[10] == cfg.dd
            &&& words[11] == cfg.sigma
            &&& words[12] == cfg.dt
            &&& words[13] == 0 && words[14] == 0 && words[15] == 0
        }),
{
}

/// A block that was made from dimensions alone has them in place and zero for
/// everything that a configuration sets.
pub proof fn law_plain_block_words(h: u32, w: u32, c: u32, k: u32, max_side: u32, border: BorderMode)
    requires
        max_side % 2 == 1,
    ensures
        ({
            let words = GpuGlobals::plain(h, w, c, k, max_side, border).words();
            &&& words[0] == h && words[1] == w && words[2] == c && words[3] == k
            &&& words[4] == max_side && max_side == 2 * words[5] + 1
            &&& words[6] == 0 <==> border == BorderMode::Torus
            &&& words[6] == 1 <==> border == BorderMode::Wall
            &&& forall|i: int| 7 <= i < 16 ==> words[i] == 0
        }),
{
}

} // verus!
