//! Simulation parameters.

use crate::words::F32Bits;
use vstd::prelude::*;

verus! {

/// What lies beyond the edge of the grid.
#[derive(Clone, Copy, Debug, PartialEq, Eq, Structural)]
pub enum BorderMode {
    /// The opposite edge.
    Torus,
    /// A wall.
    Wall,
}

/// The parameters of a run that the device side reads.
#[derive(Clone, Copy, Debug, PartialEq, Eq, Structural)]
pub struct FlowLeniaConfig {
    pub grid_width: u32,
    pub grid_height: u32,
    pub channels: u32,
    /// Time step.
    pub dt: F32Bits,
    /// Half width of the square over which a cell's mass is spread.
    pub sigma: F32Bits,
    /// Exponent of the flow limiter.
    pub n: F32Bits,
    /// Critical mass of the flow limiter.
    pub beta_a: F32Bits,
    /// Reach of the reintegration, in cells.
    pub dd: u32,
    pub num_kernels: u32,
    /// Whether the flow limiter follows the published formula to the letter.
    pub paper_strict: bool,
    pub border: BorderMode,
}

/// One kernel of the bank: the channels that it links and its growth function.
#[derive(Clone, Copy, Debug, PartialEq, Eq, Structural)]
pub struct KernelEntry {
    /// Source channel.
    pub c0: u32,
    /// Target channel.
    pub c1: u32,
    /// Weight of the kernel in the affinity sum.
    pub h: F32Bits,
    /// Mean of the growth function.
    pub mu: F32Bits,
    /// Width of the growth function.
    pub sigma: F32Bits,
}

/// The kernel bank.
#[derive(Debug)]
pub struct KernelParams {
    pub kernels: Vec<KernelEntry>,
}

} // verus!
