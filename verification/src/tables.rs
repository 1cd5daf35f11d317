//! What the conversion tables and the packed lines mean, bit by bit.

use vstd::prelude::*;

use crate::ed047tc1;
use crate::hardware::PinConfig;
use crate::lut;
use crate::pixels;
use crate::shown;
use crate::types::DrawMode;
use crate::waveform;

verus! {

/// The gray of pixel `j` in a table index of four grays, the leftmost in the lowest bits.
pub open spec fn index_gray(i: int, j: int) -> int {
    (i / (if j == 0 {
        1int
    } else if j == 1 {
        16
    } else if j == 2 {
        256
    } else {
        4096
    })) % 16
}

proof fn lemma_index_gray(i: int, j: int)
    requires
        0 <= i < 65536,
        0 <= j < 4,
    ensures
        pixels::index_nibble(i, j) == index_gray(i, j),
        0 <= index_gray(i, j) < 16,
{
    reveal(pixels::index_nibble);
}

/// Four codes are packed with the first in the lowest bits.
pub proof fn law_packing(a: u8, b: u8, c: u8, d: u8)
    requires
        a < 4,
        b < 4,
        c < 4,
        d < 4,
    ensures
        pixels::pack(a, b, c, d) == a + 4 * b + 16 * c + 64 * d,
{
}

/// A byte's four codes are its pairs of bits, the first the lowest one; its two grays are its
/// halves, the first the lower one.
pub proof fn law_unpacking(byte: u8, j: int)
    requires
        0 <= j < 4,
    ensures
        pixels::slot(byte, j) == shown::two_bits(byte, j),
        pixels::nibble(byte, 0) == byte as int % 16,
        pixels::nibble(byte, 1) == byte as int / 16,
{
}

proof fn lemma_pack_fields(a: u8, b: u8, c: u8, d: u8)
    requires
        a < 4,
        b < 4,
        c < 4,
        d < 4,
    ensures
        shown::two_bits(pixels::pack(a, b, c, d), 0) == a,
        shown::two_bits(pixels::pack(a, b, c, d), 1) == b,
        shown::two_bits(pixels::pack(a, b, c, d), 2) == c,
        shown::two_bits(pixels::pack(a, b, c, d), 3) == d,
{
}

/// A table of four pixels at a time gives each of them the code of its own gray, at its own
/// place.
pub proof fn law_table_converts_each_pixel(table: Seq<u8>, codes: Seq<u8>, i: int, j: int)
    requires
        lut::is_lut4(table, codes),
        forall|g: int| 0 <= g < 16 ==> #[trigger] codes[g] < 4,
        0 <= i < 65536,
        0 <= j < 4,
    ensures
        table.len() == 65536,
        shown::two_bits(table[i], j) == codes[index_gray(i, j)],
{
    lemma_index_gray(i, 0);
    lemma_index_gray(i, 1);
    lemma_index_gray(i, 2);
    lemma_index_gray(i, 3);
    lemma_pack_fields(
        codes[index_gray(i, 0)],
        codes[index_gray(i, 1)],
        codes[index_gray(i, 2)],
        codes[index_gray(i, 3)],
    );
}

/// Converting 4-bpp data with such a table gives pixel `x` of the output the code of the
/// gray of pixel `x` of the data: of the lower half of its byte if it is the left one of its
/// pair, of the upper half otherwise.
pub proof fn law_conversion_keeps_pixels_in_place(
    table: Seq<u8>,
    codes: Seq<u8>,
    data: Seq<u8>,
    x: int,
)
    requires
        lut::is_lut4(table, codes),
        forall|g: int| 0 <= g < 16 ==> #[trigger] codes[g] < 4,
        0 <= x,
        x / 4 * 2 + 1 < data.len(),
    ensures
        shown::two_bits(table[lut::lut_index(data, x / 4)], x) == codes[if x % 2 == 0 {
            data[x / 2] as int % 16
        } else {
            data[x / 2] as int / 16
        }],
{
    let b = x / 4;
    let i = lut::lut_index(data, b);
    let j = x % 4;
    assert(i == data[2 * b] + 256 * data[2 * b + 1]);
    law_table_converts_each_pixel(table, codes, i, j);
    assert(shown::two_bits(table[i], x) == shown::two_bits(table[i], j));
    assert(x / 2 == 2 * b + j / 2);
    assert(index_gray(i, 0) == data[2 * b] as int % 16);
    assert(index_gray(i, 1) == data[2 * b] as int / 16);
    assert(index_gray(i, 2) == data[2 * b + 1] as int % 16);
    assert(index_gray(i, 3) == data[2 * b + 1] as int / 16);
}

/// A sub-frame takes exactly one gray out of a draw's table: `15 - k` when drawing on white,
/// `k` when drawing on black. Pixels of that gray get no code any more; all others keep
/// theirs.
pub proof fn law_sub_frame_takes_one_gray_out(
    mode: DrawMode,
    k: int,
    byte: u8,
    i: int,
    j: int,
)
    requires
        0 <= k <= 15,
        0 <= i < 65536,
        0 <= j < 4,
    ensures
        shown::two_bits(lut::without_level(byte, i, lut::spent_level(mode, k)), j) == (if index_gray(
            i,
            j,
        ) == (if mode == DrawMode::WhiteOnBlack {
            k
        } else {
            15 - k
        }) {
            0
        } else {
            shown::two_bits(byte, j)
        }),
{
    let level = if mode == DrawMode::WhiteOnBlack {
        k
    } else {
        15 - k
    };
    lemma_index_gray(i, 0);
    lemma_index_gray(i, 1);
    lemma_index_gray(i, 2);
    lemma_index_gray(i, 3);
    lemma_pack_fields(
        if index_gray(i, 0) == level { 0 } else { pixels::slot(byte, 0) },
        if index_gray(i, 1) == level { 0 } else { pixels::slot(byte, 1) },
        if index_gray(i, 2) == level { 0 } else { pixels::slot(byte, 2) },
        if index_gray(i, 3) == level { 0 } else { pixels::slot(byte, 3) },
    );
}

/// Before the first sub-frame, a draw's table drives every gray.
pub proof fn law_draw_starts_with_every_gray(mode: DrawMode, gray: int)
    requires
        0 <= gray < 16,
    ensures
        lut::draw_codes(mode, -1)[gray] == (if mode == DrawMode::BlackOnWhite {
            1int
        } else {
            2
        }),
{
}

/// In a transition every pixel gets the code for its own new level and its own old level,
/// whatever its neighbours do.
pub proof fn law_transition_looks_at_each_pixel_alone(table: Seq<u8>, new: u8, old_byte: u8, j: int)
    requires
        table.len() == 16,
        forall|i: int| 0 <= i < 16 ==> #[trigger] table[i] < 4,
        0 <= j < 4,
    ensures
        shown::two_bits(lut::transition_byte(table, new, old_byte), j) == table[4
            * shown::two_bits(new, j) + shown::two_bits(old_byte, j)],
{
    lemma_pack_fields(
        table[4 * shown::two_bits(new, 0) + shown::two_bits(old_byte, 0)],
        table[4 * shown::two_bits(new, 1) + shown::two_bits(old_byte, 1)],
        table[4 * shown::two_bits(new, 2) + shown::two_bits(old_byte, 2)],
        table[4 * shown::two_bits(new, 3) + shown::two_bits(old_byte, 3)],
    );
}

/// Reordering swaps the two halves of every complete group of four bytes, group by group,
/// and leaves an incomplete last group alone.
pub proof fn law_reordering_swaps_halves(data: Seq<u8>, g: int)
    ensures
        lut::reordered_line(data).len() == data.len(),
        0 <= g && 4 * g + 4 <= data.len() ==> lut::reordered_line(data).subrange(4 * g, 4 * g + 4)
            == seq![data[4 * g + 2], data[4 * g + 3], data[4 * g], data[4 * g + 1]],
        forall|i: int|
            data.len() - data.len() % 4 <= i < data.len() ==> #[trigger] lut::reordered_line(data)[i]
                == data[i],
{
    if 0 <= g && 4 * g + 4 <= data.len() {
        assert(lut::reordered_line(data).subrange(4 * g, 4 * g + 4) =~= seq![
            data[4 * g + 2],
            data[4 * g + 3],
            data[4 * g],
            data[4 * g + 1],
        ]);
    }
}

/// The operation for source gray `from` of a waveform's target: four sources to a byte, the
/// first in the highest bits.
pub proof fn law_packed_operations(quad: Seq<u8>, from: int)
    requires
        quad.len() == 4,
        0 <= from < 16,
    ensures
        waveform::packed_op(quad, from) == (quad[from / 4] as int / (if from % 4 == 3 {
            1int
        } else if from % 4 == 2 {
            4
        } else if from % 4 == 1 {
            16
        } else {
            64
        })) % 4,
{
}

/// A line as a board wants it: 240 bytes as they are on the LilyGo; 248 bytes with the four
/// pixels of each in the opposite order on the M5PaperS3; zero beyond the data.
pub proof fn law_boards_scanline(pins: PinConfig, data: Seq<u8>, b: int, j: int)
    requires
        data.len() <= 240,
        0 <= b,
        0 <= j < 4,
    ensures
        pins is LilyGoT5V23 ==> ed047tc1::scanline(pins, data).len() == 240,
        pins is M5PaperS3 ==> ed047tc1::scanline(pins, data).len() == 248,
        b < data.len() && pins is LilyGoT5V23 ==> ed047tc1::scanline(pins, data)[b] == data[b],
        b < data.len() && pins is M5PaperS3 ==> shown::two_bits(
            ed047tc1::scanline(pins, data)[b],
            j,
        ) == shown::two_bits(data[b], 3 - j),
        data.len() <= b < ed047tc1::scanline(pins, data).len() ==> ed047tc1::scanline(pins, data)[b]
            == 0,
{
    if b < data.len() {
        law_swizzle_reverses_pixels(data[b], j);
    }
}

/// Swizzling a byte reverses the order of its four pixels.
pub proof fn law_swizzle_reverses_pixels(byte: u8, j: int)
    requires
        0 <= j < 4,
    ensures
        shown::two_bits(ed047tc1::swizzled(byte), j) == shown::two_bits(byte, 3 - j),
{
    pixels::lemma_pack_of_slots(byte);
    lemma_pack_fields(
        pixels::slot(byte, 3),
        pixels::slot(byte, 2),
        pixels::slot(byte, 1),
        pixels::slot(byte, 0),
    );
}

} // verus!
