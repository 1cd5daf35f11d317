//! The lookup tables that turn gray levels into push codes, and the scanlines built with
//! them.

use vstd::prelude::*;

use crate::pixels;
use crate::types::{DrawMode, BYTES_PER_LINE, DRAW_IMAGE_FRAME_COUNT};

verus! {

/// `lut` maps four 4-bit gray levels (a 16-bit index) to four packed push codes, each
/// taken from `codes`.
pub open spec fn is_lut4(lut: Seq<u8>, codes: Seq<u8>) -> bool {
    &&& lut.len() == 65536
    &&& codes.len() == 16
    &&& forall|i: int|
        0 <= i < 65536 ==> #[trigger] lut[i] == pixels::pack(
            codes[pixels::index_nibble(i, 0)],
            codes[pixels::index_nibble(i, 1)],
            codes[pixels::index_nibble(i, 2)],
            codes[pixels::index_nibble(i, 3)],
        )
}

/// The push codes of sub-frame `k` of a bit-plane draw, by gray level.
pub open spec fn draw_codes(mode: DrawMode, k: int) -> Seq<u8> {
    Seq::new(16, |g: int| mode.draw_code(k, g))
}

/// A byte with its `j`-th 2-bit field set to zero.
#[verifier::opaque]
spec fn without_slot(b: u8, j: int) -> u8 {
    pixels::pack(
        if j == 0 { 0 } else { pixels::slot(b, 0) },
        if j == 1 { 0 } else { pixels::slot(b, 1) },
        if j == 2 { 0 } else { pixels::slot(b, 2) },
        if j == 3 { 0 } else { pixels::slot(b, 3) },
    )
}

/// [`without_slot`], where `drop` says so.
spec fn drop_slot(b: u8, j: int, drop: bool) -> u8 {
    if drop {
        without_slot(b, j)
    } else {
        b
    }
}

/// The table entry `b` at index `i` after gray level `level` has been taken out.
pub open spec fn without_level(b: u8, i: int, level: int) -> u8 {
    pixels::pack(
        if pixels::index_nibble(i, 0) == level { 0 } else { pixels::slot(b, 0) },
        if pixels::index_nibble(i, 1) == level { 0 } else { pixels::slot(b, 1) },
        if pixels::index_nibble(i, 2) == level { 0 } else { pixels::slot(b, 2) },
        if pixels::index_nibble(i, 3) == level { 0 } else { pixels::slot(b, 3) },
    )
}

/// The gray level that sub-frame `k` takes out of the table.
pub open spec fn spent_level(mode: DrawMode, k: int) -> int {
    match mode {
        DrawMode::WhiteOnBlack => k,
        _ => 15 - k,
    }
}

proof fn lemma_mask_slots(b: u8)
    ensures
        b & 0xFC == without_slot(b, 0),
        b & 0xF3 == without_slot(b, 1),
        b & 0xCF == without_slot(b, 2),
        b & 0x3F == without_slot(b, 3),
{
    reveal(without_slot);
    assert(b & 0xFC == b - b % 4) by (bit_vector);
    assert(b & 0xF3 == b - 4 * ((b / 4) % 4)) by (bit_vector);
    assert(b & 0xCF == b - 16 * ((b / 16) % 4)) by (bit_vector);
    assert(b & 0x3F == b - 64 * (b / 64)) by (bit_vector);
}

/// In a run of 16 indices that starts at `level`, only the first has that lowest nibble.
proof fn lemma_run0(l: int, level: int)
    requires
        0 <= level < 16,
        0 <= l,
        l % 16 == level,
    ensures
        forall|i: int|
            l <= i < l + 16 ==> (#[trigger] pixels::index_nibble(i, 0) == level <==> i < l + 1),
{
    reveal(pixels::index_nibble);
}

proof fn lemma_run1(l: int, level: int)
    requires
        0 <= level < 16,
        0 <= l,
        l % 256 == level * 16,
    ensures
        forall|i: int|
            l <= i < l + 256 ==> (#[trigger] pixels::index_nibble(i, 1) == level <==> i < l + 16),
{
    reveal(pixels::index_nibble);
}

proof fn lemma_run2(l: int, level: int)
    requires
        0 <= level < 16,
        0 <= l,
        l % 4096 == level * 256,
    ensures
        forall|i: int|
            l <= i < l + 4096 ==> (#[trigger] pixels::index_nibble(i, 2) == level <==> i < l + 256),
{
    reveal(pixels::index_nibble);
}

/// No index in front of the first run has the level.
proof fn lemma_before_runs(level: int)
    requires
        0 <= level < 16,
    ensures
        forall|i: int| 0 <= i < level ==> #[trigger] pixels::index_nibble(i, 0) != level,
        forall|i: int| 0 <= i < level * 16 ==> #[trigger] pixels::index_nibble(i, 1) != level,
        forall|i: int| 0 <= i < level * 256 ==> #[trigger] pixels::index_nibble(i, 2) != level,
        forall|i: int|
            0 <= i < 65536 ==> (#[trigger] pixels::index_nibble(i, 3) == level <==> level * 4096
                <= i < (level + 1) * 4096),
{
    reveal(pixels::index_nibble);
}

/// Zeroes the lowest field of every entry whose lowest index nibble is `level`.
fn drop_slot0(lut: &mut Vec<u8>, level: usize)
    requires
        old(lut)@.len() >= 65536,
        level < 16,
    ensures
        final(lut)@.len() == old(lut)@.len(),
        forall|i: int|
            0 <= i < old(lut)@.len() ==> #[trigger] final(lut)@[i] == drop_slot(
                old(lut)@[i],
                0,
                i < 65536 && pixels::index_nibble(i, 0) == level,
            ),
{
    proof {
        lemma_before_runs(level as int);
    }
    let mut l: usize = level;
    while l < 65536
        invariant
            65536 <= lut@.len() == old(lut)@.len(),
            level < 16,
            level <= l < 65536 + 16,
            l % 16 == level,
            forall|i: int|
                0 <= i < lut@.len() ==> #[trigger] lut@[i] == drop_slot(
                    old(lut)@[i],
                    0,
                    i < 65536 && i < l && pixels::index_nibble(i, 0) == level,
                ),
        decreases 65536 + 16 - l,
    {
        let b: u8 = lut[l];
        proof {
            lemma_mask_slots(b);
            lemma_run0(l as int, level as int);
        }
        lut[l] = b & 0xFC;
        l = l + 16;
    }
}

/// Zeroes the second field of every entry whose second index nibble is `level`.
fn drop_slot1(lut: &mut Vec<u8>, level: usize)
    requires
        old(lut)@.len() >= 65536,
        level < 16,
    ensures
        final(lut)@.len() == old(lut)@.len(),
        forall|i: int|
            0 <= i < old(lut)@.len() ==> #[trigger] final(lut)@[i] == drop_slot(
                old(lut)@[i],
                1,
                i < 65536 && pixels::index_nibble(i, 1) == level,
            ),
{
    proof {
        lemma_before_runs(level as int);
    }
    let mut l: usize = level * 16;
    while l < 65536
        invariant
            65536 <= lut@.len() == old(lut)@.len(),
            level < 16,
            level * 16 <= l < 65536 + 256,
            l % 256 == level * 16,
            forall|i: int|
                0 <= i < lut@.len() ==> #[trigger] lut@[i] == drop_slot(
                    old(lut)@[i],
                    1,
                    i < 65536 && i < l && pixels::index_nibble(i, 1) == level,
                ),
        decreases 65536 + 256 - l,
    {
        let mut p: usize = 0;
        while p < 16
            invariant
                65536 <= lut@.len() == old(lut)@.len(),
                level < 16,
                p <= 16,
                l < 65536,
                l % 256 == level * 16,
                forall|i: int|
                    0 <= i < lut@.len() ==> #[trigger] lut@[i] == drop_slot(
                        old(lut)@[i],
                        1,
                        i < 65536 && i < l + p && pixels::index_nibble(i, 1) == level,
                    ),
            decreases 16 - p,
        {
            let b: u8 = lut[l + p];
            proof {
                lemma_mask_slots(b);
                lemma_run1(l as int, level as int);
            }
            lut[l + p] = b & 0xF3;
            p = p + 1;
        }
        proof {
            lemma_run1(l as int, level as int);
        }
        l = l + 256;
    }
}

/// Zeroes the third field of every entry whose third index nibble is `level`.
fn drop_slot2(lut: &mut Vec<u8>, level: usize)
    requires
        old(lut)@.len() >= 65536,
        level < 16,
    ensures
        final(lut)@.len() == old(lut)@.len(),
        forall|i: int|
            0 <= i < old(lut)@.len() ==> #[trigger] final(lut)@[i] == drop_slot(
                old(lut)@[i],
                2,
                i < 65536 && pixels::index_nibble(i, 2) == level,
            ),
{
    proof {
        lemma_before_runs(level as int);
    }
    let mut l: usize = level * 256;
    while l < 65536
        invariant
            65536 <= lut@.len() == old(lut)@.len(),
            level < 16,
            level * 256 <= l < 65536 + 4096,
            l % 4096 == level * 256,
            forall|i: int|
                0 <= i < lut@.len() ==> #[trigger] lut@[i] == drop_slot(
                    old(lut)@[i],
                    2,
                    i < 65536 && i < l && pixels::index_nibble(i, 2) == level,
                ),
        decreases 65536 + 4096 - l,
    {
        let mut p: usize = 0;
        while p < 256
            invariant
                65536 <= lut@.len() == old(lut)@.len(),
                level < 16,
                p <= 256,
                l < 65536,
                l % 4096 == level * 256,
                forall|i: int|
                    0 <= i < lut@.len() ==> #[trigger] lut@[i] == drop_slot(
                        old(lut)@[i],
                        2,
                        i < 65536 && i < l + p && pixels::index_nibble(i, 2) == level,
                    ),
            decreases 256 - p,
        {
            let b: u8 = lut[l + p];
            proof {
                lemma_mask_slots(b);
                lemma_run2(l as int, level as int);
            }
            lut[l + p] = b & 0xCF;
            p = p + 1;
        }
        proof {
            lemma_run2(l as int, level as int);
        }
        l = l + 4096;
    }
}

/// Zeroes the highest field of every entry whose highest index nibble is `level`.
fn drop_slot3(lut: &mut Vec<u8>, level: usize)
    requires
        old(lut)@.len() >= 65536,
        level < 16,
    ensures
        final(lut)@.len() == old(lut)@.len(),
        forall|i: int|
            0 <= i < old(lut)@.len() ==> #[trigger] final(lut)@[i] == drop_slot(
                old(lut)@[i],
                3,
                i < 65536 && pixels::index_nibble(i, 3) == level,
            ),
{
    proof {
        lemma_before_runs(level as int);
    }
    let mut l: usize = level * 4096;
    while l < (level + 1) * 4096
        invariant
            65536 <= lut@.len() == old(lut)@.len(),
            level < 16,
            level * 4096 <= l <= (level + 1) * 4096,
            forall|i: int|
                0 <= i < lut@.len() ==> #[trigger] lut@[i] == drop_slot(
                    old(lut)@[i],
                    3,
                    i < 65536 && i < l && pixels::index_nibble(i, 3) == level,
                ),
        decreases (level + 1) * 4096 - l,
    {
        let b: u8 = lut[l];
        proof {
            lemma_mask_slots(b);
            lemma_before_runs(level as int);
        }
        lut[l] = b & 0x3F;
        l = l + 1;
    }
}

proof fn lemma_drop_slot(b: u8, j: int, drop: bool)
    requires
        0 <= j < 4,
    ensures
        forall|m: int|
            0 <= m < 4 ==> #[trigger] pixels::slot(drop_slot(b, j, drop), m) == (if drop && j == m {
                0
            } else {
                pixels::slot(b, m)
            }),
        drop_slot(b, j, drop) == pixels::pack(
            if drop && j == 0 { 0 } else { pixels::slot(b, 0) },
            if drop && j == 1 { 0 } else { pixels::slot(b, 1) },
            if drop && j == 2 { 0 } else { pixels::slot(b, 2) },
            if drop && j == 3 { 0 } else { pixels::slot(b, 3) },
        ),
{
    reveal(without_slot);
    pixels::lemma_pack_of_slots(b);
    pixels::lemma_slot_of_pack(
        if drop && j == 0 { 0 } else { pixels::slot(b, 0) },
        if drop && j == 1 { 0 } else { pixels::slot(b, 1) },
        if drop && j == 2 { 0 } else { pixels::slot(b, 2) },
        if drop && j == 3 { 0 } else { pixels::slot(b, 3) },
    );
}

proof fn lemma_drop_all(b: u8, i: int, level: int)
    ensures
        ({
            let b0 = drop_slot(b, 0, pixels::index_nibble(i, 0) == level);
            let b1 = drop_slot(b0, 1, pixels::index_nibble(i, 1) == level);
            let b2 = drop_slot(b1, 2, pixels::index_nibble(i, 2) == level);
            drop_slot(b2, 3, pixels::index_nibble(i, 3) == level) == without_level(b, i, level)
        }),
{
    let b0 = drop_slot(b, 0, pixels::index_nibble(i, 0) == level);
    let b1 = drop_slot(b0, 1, pixels::index_nibble(i, 1) == level);
    let b2 = drop_slot(b1, 2, pixels::index_nibble(i, 2) == level);
    lemma_drop_slot(b, 0, pixels::index_nibble(i, 0) == level);
    lemma_drop_slot(b0, 1, pixels::index_nibble(i, 1) == level);
    lemma_drop_slot(b1, 2, pixels::index_nibble(i, 2) == level);
    lemma_drop_slot(b2, 3, pixels::index_nibble(i, 3) == level);
}

/// Takes the gray level that sub-frame `k` no longer drives out of the table.
pub fn update_lut(conversion_lut: &mut Vec<u8>, k: usize, mode: DrawMode)
    requires
        old(conversion_lut)@.len() >= 65536,
        k <= 15,
    ensures
        final(conversion_lut)@.len() == old(conversion_lut)@.len(),
        forall|i: int|
            65536 <= i < old(conversion_lut)@.len() ==> #[trigger] final(conversion_lut)@[i] == old(
                conversion_lut,
            )@[i],
        forall|i: int|
            0 <= i < 65536 ==> #[trigger] final(conversion_lut)@[i] == without_level(
                old(conversion_lut)@[i],
                i,
                spent_level(mode, k as int),
            ),
{
    let level: usize = match mode {
        DrawMode::BlackOnWhite | DrawMode::WhiteOnWhite => DRAW_IMAGE_FRAME_COUNT - k,
        DrawMode::WhiteOnBlack => k,
    };
    drop_slot0(conversion_lut, level);
    drop_slot1(conversion_lut, level);
    drop_slot2(conversion_lut, level);
    drop_slot3(conversion_lut, level);
    proof {
        assert forall|i: int| 0 <= i < 65536 implies #[trigger] conversion_lut@[i] == without_level(
            old(conversion_lut)@[i],
            i,
            level as int,
        ) by {
            lemma_drop_all(old(conversion_lut)@[i], i, level as int);
        }
    }
}

/// Taking sub-frame `k`'s level out of the table of sub-frame `k - 1` gives the table of
/// sub-frame `k`. (The codes of "sub-frame -1" drive every level.)
pub proof fn lemma_update_lut(before: Seq<u8>, after: Seq<u8>, mode: DrawMode, k: int)
    requires
        0 <= k <= 15,
        is_lut4(before, draw_codes(mode, k - 1)),
        after.len() == 65536,
        forall|i: int|
            0 <= i < 65536 ==> #[trigger] after[i] == without_level(
                before[i],
                i,
                spent_level(mode, k),
            ),
    ensures
        is_lut4(after, draw_codes(mode, k)),
{
    broadcast use pixels::lemma_index_nibble_range;

    let old_codes = draw_codes(mode, k - 1);
    let codes = draw_codes(mode, k);
    let level = spent_level(mode, k);
    assert forall|i: int| 0 <= i < 65536 implies #[trigger] after[i] == pixels::pack(
        codes[pixels::index_nibble(i, 0)],
        codes[pixels::index_nibble(i, 1)],
        codes[pixels::index_nibble(i, 2)],
        codes[pixels::index_nibble(i, 3)],
    ) by {
        assert(after[i] == without_level(before[i], i, level));
        pixels::lemma_slot_of_pack(
            old_codes[pixels::index_nibble(i, 0)],
            old_codes[pixels::index_nibble(i, 1)],
            old_codes[pixels::index_nibble(i, 2)],
            old_codes[pixels::index_nibble(i, 3)],
        );
    }
}

/// A fresh draw table: every level is driven.
pub fn initial_lut(mode: DrawMode) -> (lut: Vec<u8>)
    ensures
        is_lut4(lut@, draw_codes(mode, -1)),
{
    broadcast use pixels::lemma_index_nibble_range;

    vec![mode.lut_default(); 65536]
}

/// Expands 16 push codes, one per gray level, into the table for four pixels at a time.
pub fn expand_gray4_lut(op: &[u8; 16]) -> (lut: Vec<u8>)
    requires
        forall|g: int| 0 <= g < 16 ==> #[trigger] op[g] < 4,
    ensures
        is_lut4(lut@, op@),
{
    let mut lut: Vec<u8> = vec![0u8; 65536];
    let mut idx: usize = 0;
    while idx < 65536
        invariant
            idx <= 65536,
            lut@.len() == 65536,
            forall|g: int| 0 <= g < 16 ==> #[trigger] op[g] < 4,
            forall|i: int|
                0 <= i < idx ==> #[trigger] lut@[i] == pixels::pack(
                    op@[pixels::index_nibble(i, 0)],
                    op@[pixels::index_nibble(i, 1)],
                    op@[pixels::index_nibble(i, 2)],
                    op@[pixels::index_nibble(i, 3)],
                ),
        decreases 65536 - idx,
    {
        let a: u8 = op[idx % 16];
        let b: u8 = op[(idx / 16) % 16];
        let c: u8 = op[(idx / 256) % 16];
        let d: u8 = op[(idx / 4096) % 16];
        proof {
            reveal(pixels::index_nibble);
            pixels::lemma_pack_bits(a, b, c, d);
        }
        lut[idx] = a | (b << 2) | (c << 4) | (d << 6);
        idx = idx + 1;
    }
    lut
}

/// The table index of four pixels: two bytes, the first in the low half.
pub open spec fn lut_index(data: Seq<u8>, b: int) -> int {
    data[2 * b] + 256 * data[2 * b + 1]
}

/// Converts 4-bpp bytes to packed push codes, in whole chunks of 8 bytes (16 pixels):
/// each output byte is the table entry for two input bytes, the first in the low half of
/// the index.
pub fn prepare_dma_buffer(
    line_data: &[u8],
    conversion_lut: &[u8],
    out: &mut [u8; BYTES_PER_LINE],
)
    requires
        line_data@.len() < 488,
        forall|b: int|
            0 <= b < line_data@.len() / 8 * 4 ==> #[trigger] lut_index(line_data@, b)
                < conversion_lut@.len(),
    ensures
        forall|b: int|
            0 <= b < 240 ==> #[trigger] final(out)@[b] == (if b < line_data@.len() / 8 * 4 {
                conversion_lut@[lut_index(line_data@, b)]
            } else {
                old(out)@[b]
            }),
        forall|b: int|
            0 <= b < line_data@.len() / 8 * 4 ==> #[trigger] final(out)@[b]
                == conversion_lut@[line_data@[2 * b] + 256 * line_data@[2 * b + 1]],
{
    let n: usize = line_data.len() / 8 * 4;
    let mut b: usize = 0;
    while b < n
        invariant
            n == line_data@.len() / 8 * 4,
            line_data@.len() < 488,
            forall|i: int|
                0 <= i < line_data@.len() / 8 * 4 ==> #[trigger] lut_index(line_data@, i)
                    < conversion_lut@.len(),
            b <= n <= 240,
            forall|i: int|
                0 <= i < 240 ==> #[trigger] out@[i] == (if i < b {
                    conversion_lut@[lut_index(line_data@, i)]
                } else {
                    old(out)@[i]
                }),
        decreases n - b,
    {
        assert(lut_index(line_data@, b as int) < conversion_lut@.len());
        let lo: usize = line_data[2 * b] as usize;
        let hi: usize = line_data[2 * b + 1] as usize;
        out[b] = conversion_lut[lo + 256 * hi];
        b = b + 1;
    }
}

/// Expands a per-level push-code table into a table for whole 2-bpp bytes; every pixel
/// keeps its place in the byte.
pub fn expand_gray2_lut(code: &[u8; 4]) -> (t: [u8; 256])
    requires
        forall|g: int| 0 <= g < 4 ==> #[trigger] code[g] < 4,
    ensures
        forall|b: u8|
            #[trigger] t@[b as int] == pixels::pack(
                code@[pixels::slot(b, 0) as int],
                code@[pixels::slot(b, 1) as int],
                code@[pixels::slot(b, 2) as int],
                code@[pixels::slot(b, 3) as int],
            ),
{
    let mut t: [u8; 256] = [0u8; 256];
    let mut i: usize = 0;
    while i < 256
        invariant
            i <= 256,
            forall|g: int| 0 <= g < 4 ==> #[trigger] code[g] < 4,
            forall|b: u8|
                b < i ==> #[trigger] t@[b as int] == pixels::pack(
                    code@[pixels::slot(b, 0) as int],
                    code@[pixels::slot(b, 1) as int],
                    code@[pixels::slot(b, 2) as int],
                    code@[pixels::slot(b, 3) as int],
                ),
        decreases 256 - i,
    {
        let c0: u8 = code[i % 4];
        let c1: u8 = code[(i / 4) % 4];
        let c2: u8 = code[(i / 16) % 4];
        let c3: u8 = code[i / 64];
        proof {
            pixels::lemma_pack_bits(c0, c1, c2, c3);
        }
        t[i] = c0 | (c1 << 2) | (c2 << 4) | (c3 << 6);
        i = i + 1;
    }
    t
}

/// The push codes for one byte of new and old 2-bpp levels.
pub open spec fn transition_byte(table: Seq<u8>, new: u8, old_byte: u8) -> u8 {
    pixels::pack(
        table[4 * pixels::slot(new, 0) + pixels::slot(old_byte, 0)],
        table[4 * pixels::slot(new, 1) + pixels::slot(old_byte, 1)],
        table[4 * pixels::slot(new, 2) + pixels::slot(old_byte, 2)],
        table[4 * pixels::slot(new, 3) + pixels::slot(old_byte, 3)],
    )
}

/// Builds one packed push line from the new and the previous 2-bpp row with a 16-entry
/// transition table, indexed by `4 * new + old`. Bytes beyond either row keep their value.
pub fn build_gray2_transition(
    new_row: &[u8],
    old_row: &[u8],
    table: &[u8; 16],
    out: &mut [u8; BYTES_PER_LINE],
)
    requires
        forall|g: int| 0 <= g < 16 ==> #[trigger] table[g] < 4,
    ensures
        forall|b: int|
            0 <= b < 240 ==> #[trigger] final(out)@[b] == (if b < new_row@.len() && b
                < old_row@.len() {
                transition_byte(table@, new_row@[b], old_row@[b])
            } else {
                old(out)@[b]
            }),
{
    let mut b: usize = 0;
    while b < 240 && b < new_row.len() && b < old_row.len()
        invariant
            b <= 240,
            b <= new_row@.len(),
            b <= old_row@.len(),
            forall|g: int| 0 <= g < 16 ==> #[trigger] table[g] < 4,
            forall|i: int|
                0 <= i < 240 ==> #[trigger] out@[i] == (if i < b {
                    transition_byte(table@, new_row@[i], old_row@[i])
                } else {
                    old(out)@[i]
                }),
        decreases 240 - b,
    {
        let nb: u8 = new_row[b];
        let ob: u8 = old_row[b];
        proof {
            pixels::lemma_slot_bits(nb);
            pixels::lemma_slot_bits(ob);
            pixels::lemma_pack_of_slots(nb);
            pixels::lemma_pack_of_slots(ob);
        }
        let c0: u8 = table[((nb & 3) * 4 + (ob & 3)) as usize];
        let c1: u8 = table[(((nb >> 2) & 3) * 4 + ((ob >> 2) & 3)) as usize];
        let c2: u8 = table[(((nb >> 4) & 3) * 4 + ((ob >> 4) & 3)) as usize];
        let c3: u8 = table[(((nb >> 6) & 3) * 4 + ((ob >> 6) & 3)) as usize];
        proof {
            pixels::lemma_pack_bits(c0, c1, c2, c3);
        }
        out[b] = c0 | (c1 << 2) | (c2 << 4) | (c3 << 6);
        b = b + 1;
    }
}

/// Where byte `i` of a reordered line comes from: the two halves of every 4-byte group
/// trade places.
pub open spec fn reordered(i: int) -> int {
    if i % 4 < 2 {
        i + 2
    } else {
        i - 2
    }
}

/// A line with the halves of every complete 4-byte group swapped.
pub open spec fn reordered_line(data: Seq<u8>) -> Seq<u8> {
    Seq::new(
        data.len(),
        |i: int|
            if i < data.len() / 4 * 4 {
                data[reordered(i)]
            } else {
                data[i]
            },
    )
}

/// Swaps the two 16-bit halves of every complete 4-byte group.
pub fn line_buffer_reorder(data: &mut [u8])
    ensures
        final(data)@ == reordered_line(old(data)@),
{
    let n: usize = data.len() / 4 * 4;
    let mut j: usize = 0;
    while j < n
        invariant
            j <= n,
            j % 4 == 0,
            n == old(data)@.len() / 4 * 4,
            data@.len() == old(data)@.len(),
            forall|i: int|
                0 <= i < old(data)@.len() ==> #[trigger] data@[i] == (if i < j {
                    old(data)@[reordered(i)]
                } else {
                    old(data)@[i]
                }),
        decreases n - j,
    {
        let a: u8 = data[j];
        let b: u8 = data[j + 1];
        let c: u8 = data[j + 2];
        let d: u8 = data[j + 3];
        data[j] = c;
        data[j + 1] = d;
        data[j + 2] = a;
        data[j + 3] = b;
        j = j + 4;
    }
    assert(data@ =~= reordered_line(old(data)@));
}

} // verus!
