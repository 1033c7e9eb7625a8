//! GPIO interrupt bookkeeping.  The interrupt banks pack four condition
//! bits per pin, eight pins per register; the engines' callers use the
//! mask computed here to enable, clear and test the latch, clock and
//! SELECT edges the engines react to.

use vstd::prelude::*;

verus! {

/// The condition a GPIO interrupt fires on.
#[derive(Debug, PartialEq, Eq, Structural, Copy, Clone)]
pub enum Edge {
    /// While the line is low.
    LevelLow,
    /// While the line is high.
    LevelHigh,
    /// On a falling edge.
    EdgeLow,
    /// On a rising edge.
    EdgeHigh,
}

/// The bit position of a condition within a pin's four-bit group.
pub open spec fn spec_edge_offset(edge: Edge) -> nat {
    match edge {
        Edge::LevelLow => 0,
        Edge::LevelHigh => 1,
        Edge::EdgeLow => 2,
        Edge::EdgeHigh => 3,
    }
}

/// The register bit for one pin and condition: pins are packed eight to
/// a register, four condition bits each.
pub open spec fn spec_gpio_mask(gpio: nat, edge: Edge) -> u32 {
    1u32 << (((gpio % 8) * 4 + spec_edge_offset(edge)) as u32)
}

/// Compute the interrupt-register bit for a pin and condition.
pub fn gpio_mask(gpio: usize, edge: Edge) -> (r: u32)
    ensures
        r == spec_gpio_mask(gpio as nat, edge),
{
    let offset: usize = match edge {
        Edge::LevelLow => 0,
        Edge::LevelHigh => 1,
        Edge::EdgeLow => 2,
        Edge::EdgeHigh => 3,
    };
    1u32 << ((gpio % 8 * 4 + offset) as u32)
}

} // verus!
