use vstd::prelude::*;

verus! {

/// Everything that can go wrong while drawing or while driving the panel.
#[derive(Clone, Copy, Debug, PartialEq, Eq, Structural)]
pub enum Error {
    /// The coordinates lie outside the screen, or a scanline is too long.
    OutOfBounds,
    /// The colour does not fit the framebuffer's depth.
    InvalidColor,
    /// The data bus is not available (an earlier transfer lost it).
    Unknown,
    /// The DMA buffer could not be set up.
    DmaBuffer,
    /// The i8080 bus rejected its configuration.
    I8080Config,
    /// A DMA transfer failed.
    Dma,
    /// The pulse generator failed.
    Rmt,
}

} // verus!
