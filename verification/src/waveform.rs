//! Push-code sources: the calibrated grayscale waveform, the 8-pass matrix and the 4-gray
//! tables.

use vstd::prelude::*;

use crate::pixels;

verus! {

/// One phase of a waveform: for each target gray, 16 source grays packed 2 bits each into
/// 4 bytes.
pub type Phase = [[u8; 4]; 16];

/// The phases of a grayscale waveform, one sequence per temperature bucket (0 is cold).
pub struct Mode5Waveform {
    pub buckets: Vec<Vec<Phase>>,
}

impl Mode5Waveform {
    /// The phases for temperature bucket `range_idx`.
    pub fn mode5_bucket(&self, range_idx: usize) -> (phases: &Vec<Phase>)
        requires
            range_idx < self.buckets@.len(),
        ensures
            *phases == self.buckets@[range_idx as int],
    {
        &self.buckets[range_idx]
    }
}

/// 8-pass grayscale matrix, one row per gray level (row 0 is black, row 15 white), one
/// column per pass: `1` pushes towards black, `2` towards white.
pub const M5_MATRIX: [[u8; 8]; 16] = [
    [1, 1, 1, 1, 1, 1, 1, 1],
    [2, 2, 1, 1, 2, 1, 1, 1],
    [2, 2, 1, 1, 1, 1, 2, 1],
    [2, 2, 1, 1, 2, 2, 1, 1],
    [2, 2, 2, 2, 1, 1, 2, 1],
    [2, 2, 1, 1, 1, 2, 2, 1],
    [2, 2, 1, 1, 2, 1, 1, 2],
    [2, 2, 2, 1, 2, 1, 1, 2],
    [2, 2, 2, 2, 2, 1, 2, 1],
    [1, 1, 1, 1, 1, 1, 2, 2],
    [2, 2, 1, 1, 1, 1, 2, 2],
    [1, 1, 1, 1, 2, 1, 2, 2],
    [2, 2, 1, 1, 2, 1, 2, 2],
    [2, 1, 1, 2, 2, 1, 2, 2],
    [2, 2, 1, 2, 2, 1, 2, 2],
    [2, 2, 2, 2, 2, 2, 2, 2],
];

/// Passes of the matrix.
pub const MATRIX_PASSES: u8 = 8;

/// Row dwell of the matrix and 4-gray passes: short enough that the DMA transfer alone
/// sets the row time.
pub const MATRIX_DWELL: u16 = 30;

/// Row dwell of the waveform phases, which are calibrated for 15.5 µs per row.
pub const WF_DWELL: u16 = 155;

/// Settle time after each matrix or 4-gray pass, in microseconds.
pub const SETTLE_MICROS: u32 = 230;

/// First phase of a 4-gray partial update, indexed by `4 * new + old`: `0b01` pushes
/// black, `0b10` white, `0b11` does nothing.
pub const GRAY2_BW16: [u8; 16] = [3, 1, 1, 1, 3, 3, 3, 1, 2, 3, 3, 3, 2, 2, 2, 3];

/// Final gray-split phase of a 4-gray partial update, indexed by `4 * new + old`.
pub const GRAY2_GRAY16: [u8; 16] = [3, 3, 3, 3, 2, 3, 1, 2, 1, 2, 3, 1, 3, 3, 2, 3];

/// First phase of a full 4-gray repaint of a white panel, by level.
pub const GRAY2_FULL_BW: [u8; 4] = [1, 1, 3, 3];

/// Final gray-split phase of a full 4-gray repaint, by level.
pub const GRAY2_FULL_GRAY: [u8; 4] = [1, 2, 1, 2];

/// The waveform operation for source gray `from`, in one target gray's 4-byte pack: the
/// source grays stand 4 to a byte, the first in the most significant bits.
pub open spec fn packed_op(quad: Seq<u8>, from: int) -> u8 {
    pixels::slot(quad[from / 4], 3 - from % 4)
}

/// The panel's push code for a waveform or matrix operation: 1 darkens (`0b01`), 2
/// lightens (`0b10`), anything else leaves the pixel alone (`0b11`).
pub open spec fn panel_code(op: u8) -> u8 {
    if op == 1 || op == 2 {
        op
    } else {
        3
    }
}

/// The push codes of a waveform phase that starts from white, by target gray.
pub open spec fn phase_codes(phase: Phase) -> Seq<u8> {
    Seq::new(16, |g: int| panel_code(packed_op(phase@[g]@, 15)))
}

/// The push codes of matrix pass `pass`, by gray level.
pub open spec fn matrix_codes(pass: int) -> Seq<u8> {
    Seq::new(16, |g: int| panel_code(M5_MATRIX@[g]@[pass]))
}

/// Decodes the 2-bit operation for source gray `from`: 0 is no-op, 1 darken, 2 lighten.
pub fn epdiy_op(quad: &[u8; 4], from: usize) -> (op: u8)
    requires
        from < 16,
    ensures
        op == packed_op(quad@, from as int),
        op < 4,
{
    let byte: u8 = quad[from / 4];
    let shift: usize = (3 - (from % 4)) * 2;
    proof {
        pixels::lemma_slot_bits(byte);
        pixels::lemma_pack_of_slots(byte);
        assert(byte >> 0usize == byte) by (bit_vector);
    }
    (byte >> shift) & 0b11
}

fn code_for(op: u8) -> (code: u8)
    ensures
        code == panel_code(op),
{
    match op {
        1 => 0b01,
        2 => 0b10,
        _ => 0b11,
    }
}

/// The push codes of a waveform phase that starts from white, by target gray.
pub fn phase_ops(phase: &Phase) -> (op: [u8; 16])
    ensures
        op@ == phase_codes(*phase),
{
    let mut op: [u8; 16] = [0u8; 16];
    let mut g: usize = 0;
    while g < 16
        invariant
            g <= 16,
            forall|i: int| 0 <= i < g ==> #[trigger] op@[i] == phase_codes(*phase)[i],
        decreases 16 - g,
    {
        op[g] = code_for(epdiy_op(&phase[g], 0x0F));
        g = g + 1;
    }
    assert(op@ =~= phase_codes(*phase));
    op
}

/// The push codes of matrix pass `pass`, by gray level.
pub fn matrix_ops(pass: u8) -> (op: [u8; 16])
    requires
        pass < 8,
    ensures
        op@ == matrix_codes(pass as int),
{
    let mut op: [u8; 16] = [0u8; 16];
    let mut g: usize = 0;
    while g < 16
        invariant
            g <= 16,
            pass < 8,
            forall|i: int| 0 <= i < g ==> #[trigger] op@[i] == matrix_codes(pass as int)[i],
        decreases 16 - g,
    {
        op[g] = code_for(M5_MATRIX[g][pass as usize]);
        g = g + 1;
    }
    assert(op@ =~= matrix_codes(pass as int));
    op
}

} // verus!
