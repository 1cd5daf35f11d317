//! The values that callers choose from, and the panel's dimensions.

use vstd::prelude::*;

verus! {

/// Bytes of a 4-bpp row.
pub const LINE_BYTES_4BPP: usize = 480;

/// Bytes of a packed 2-bpp scanline.
pub const BYTES_PER_LINE: usize = 240;

/// Bytes of the 4-bpp framebuffer.
pub const FRAMEBUFFER_SIZE: usize = 259200;

/// Bytes of a 2-bpp (4-gray) framebuffer: level 0 is black, 1 dark, 2 light, 3 white.
pub const FB2_SIZE: usize = 129600;

/// Sub-frames of a bit-plane draw.
pub const DRAW_IMAGE_FRAME_COUNT: usize = 15;

/// Row dwell per sub-frame when darkening, or when lightening an already white panel.
pub const CONTRAST_CYCLES_4BPP: [u16; 15] = [
    30,
    30,
    20,
    20,
    30,
    30,
    30,
    40,
    40,
    50,
    50,
    50,
    100,
    200,
    300,
];

/// Row dwell per sub-frame when lightening a black panel.
pub const CONTRAST_CYCLES_4BPP_WHITE: [u16; 15] = [
    10,
    10,
    8,
    8,
    8,
    8,
    8,
    10,
    10,
    15,
    15,
    20,
    20,
    100,
    300,
];

/// Display rotation, only 90° increments supported.
#[derive(Clone, Copy, Debug, PartialEq, Eq, Structural)]
pub enum DisplayRotation {
    /// No rotation
    Rotate0,
    /// Rotate by 90 degrees clockwise
    Rotate90,
    /// Rotate by 180 degrees clockwise
    Rotate180,
    /// Rotate 270 degrees clockwise
    Rotate270,
}

impl Default for DisplayRotation {
    fn default() -> (r: Self)
        ensures
            r == DisplayRotation::Rotate0,
    {
        DisplayRotation::Rotate0
    }
}

/// What the framebuffer holds, relative to what the panel shows.
#[derive(Clone, Copy, Debug, PartialEq, Eq, Structural)]
pub enum DrawMode {
    BlackOnWhite,
    WhiteOnWhite,
    WhiteOnBlack,
}

/// An area of the panel, in raw (unrotated) coordinates.
#[derive(Clone, Copy, Debug, PartialEq, Eq, Structural)]
pub struct Rectangle {
    pub x: u16,
    pub y: u16,
    pub width: u16,
    pub height: u16,
}

impl Rectangle {
    /// Areas that can be pushed: no column beyond the right edge is touched, and the row
    /// below the area is a 16-bit number. (An area may reach below the panel; the rows
    /// that do not exist are left out.)
    pub open spec fn pushable(self) -> bool {
        &&& self.width == 0 || self.x + self.width <= 960
        &&& self.y + self.height <= 65535
    }
}

impl DrawMode {
    /// The code that a pixel gets while it is still being driven: `0b01` darkens,
    /// `0b10` lightens.
    pub open spec fn push_code(self) -> u8 {
        match self {
            DrawMode::BlackOnWhite => 1,
            _ => 2,
        }
    }

    /// The row dwells of the sub-frames.
    pub open spec fn dwells(self) -> Seq<u16> {
        match self {
            DrawMode::WhiteOnBlack => CONTRAST_CYCLES_4BPP_WHITE@,
            _ => CONTRAST_CYCLES_4BPP@,
        }
    }

    /// Whether a pixel of gray level `gray` is no longer driven in sub-frame `k`. Towards
    /// black, the darker a pixel the longer it is driven; towards white from black, the
    /// lighter the longer.
    pub open spec fn spent(self, k: int, gray: int) -> bool {
        match self {
            DrawMode::WhiteOnBlack => gray <= k,
            _ => gray >= 15 - k,
        }
    }

    /// The code that a pixel of gray level `gray` gets in sub-frame `k`.
    pub open spec fn draw_code(self, k: int, gray: int) -> u8 {
        if self.spent(k, gray) {
            0
        } else {
            self.push_code()
        }
    }

    /// A table byte that drives all four of its pixels.
    pub fn lut_default(&self) -> (b: u8)
        ensures
            b == crate::pixels::pack(
                self.push_code(),
                self.push_code(),
                self.push_code(),
                self.push_code(),
            ),
            *self == DrawMode::BlackOnWhite ==> b == 0x55,
            *self != DrawMode::BlackOnWhite ==> b == 0xAA,
    {
        match self {
            DrawMode::BlackOnWhite => 0x55,
            DrawMode::WhiteOnBlack | DrawMode::WhiteOnWhite => 0xAA,
        }
    }

    /// The row dwells of the sub-frames of a draw.
    pub fn contrast_cycles(&self) -> (cycles: [u16; 15])
        ensures
            cycles@ == self.dwells(),
    {
        match self {
            DrawMode::WhiteOnBlack => CONTRAST_CYCLES_4BPP_WHITE,
            DrawMode::BlackOnWhite | DrawMode::WhiteOnWhite => CONTRAST_CYCLES_4BPP,
        }
    }
}

} // verus!
