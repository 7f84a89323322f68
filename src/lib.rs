//! Batch kernels for a 2D flocking simulation over interleaved coordinate
//! buffers (`[x0, y0, x1, y1, ...]`).
//!
//! The library fixes which elements each kernel reads and writes, the
//! bounds policy for ragged buffers, and the branch rules of the speed clamp
//! and the world-edge policies. The per-agent arithmetic is handed in as a
//! closure, so the same kernels serve any element type.
use vstd::prelude::*;

pub mod kernels;
pub mod layout;
pub mod rules;

pub use kernels::{bounce_components, integrate_agents, nearest_per_agent, update_agents, update_each};
pub use layout::{read_or, write_if_present, Axis};
pub use rules::{edge_side, speed_adjustment, EdgeSide, SpeedAdjust};

verus! {

/// Tells the host that the module loaded. It makes no feature detection: a
/// build that loads is one whose target the host chose.
pub fn simd_supported() -> (r: bool)
    ensures
        r,
{
    true
}

} // verus!
