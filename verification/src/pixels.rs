//! How gray levels and push codes are packed into bytes.
//!
//! Everything is stated with quotients and remainders; the lemmas at the end connect
//! that to the shifts and masks of the executable code.

use vstd::prelude::*;

verus! {

/// The `j`-th 2-bit field of a byte, counted from the least significant end.
pub open spec fn slot(b: u8, j: int) -> u8 {
    if j == 0 {
        b % 4
    } else if j == 1 {
        (b / 4) % 4
    } else if j == 2 {
        (b / 16) % 4
    } else {
        b / 64
    }
}

/// The byte whose 2-bit fields are `a`, `b`, `c`, `d`, least significant first.
pub open spec fn pack(a: u8, b: u8, c: u8, d: u8) -> u8
    recommends
        a < 4,
        b < 4,
        c < 4,
        d < 4,
{
    (a + 4 * b + 16 * c + 64 * d) as u8
}

/// The `j`-th nibble of a byte, counted from the least significant end.
pub open spec fn nibble(b: u8, j: int) -> u8 {
    if j == 0 {
        b % 16
    } else {
        b / 16
    }
}

/// The `j`-th nibble of a 16-bit table index.
#[verifier::opaque]
pub open spec fn index_nibble(i: int, j: int) -> int {
    if j == 0 {
        i % 16
    } else if j == 1 {
        (i / 16) % 16
    } else if j == 2 {
        (i / 256) % 16
    } else {
        (i / 4096) % 16
    }
}

/// Gray level of pixel `(x, y)` in a 4-bpp frame (two pixels per byte, the even one in
/// the low nibble, 480 bytes per row).
pub open spec fn gray4(frame: Seq<u8>, x: int, y: int) -> u8 {
    nibble(frame[y * 480 + x / 2], x % 2)
}

/// Gray level of pixel `(x, y)` in a 2-bpp frame (four pixels per byte, the leftmost in
/// the lowest field, 240 bytes per row).
pub open spec fn gray2(frame: Seq<u8>, x: int, y: int) -> u8 {
    slot(frame[y * 240 + x / 4], x % 4)
}

/// Packing and then reading a field gives the value back.
pub proof fn lemma_slot_of_pack(a: u8, b: u8, c: u8, d: u8)
    requires
        a < 4,
        b < 4,
        c < 4,
        d < 4,
    ensures
        slot(pack(a, b, c, d), 0) == a,
        slot(pack(a, b, c, d), 1) == b,
        slot(pack(a, b, c, d), 2) == c,
        slot(pack(a, b, c, d), 3) == d,
{
}

/// A byte is the packing of its own fields.
pub proof fn lemma_pack_of_slots(b: u8)
    ensures
        pack(slot(b, 0), slot(b, 1), slot(b, 2), slot(b, 3)) == b,
        slot(b, 0) < 4,
        slot(b, 1) < 4,
        slot(b, 2) < 4,
        slot(b, 3) < 4,
{
}

/// Or-ing shifted 2-bit codes packs them.
pub proof fn lemma_pack_bits(a: u8, b: u8, c: u8, d: u8)
    requires
        a < 4,
        b < 4,
        c < 4,
        d < 4,
    ensures
        a | (b << 2) | (c << 4) | (d << 6) == pack(a, b, c, d),
{
    assert(a | (b << 2) | (c << 4) | (d << 6) == a + 4 * b + 16 * c + 64 * d) by (bit_vector)
        requires
            a < 4,
            b < 4,
            c < 4,
            d < 4,
    ;
}

/// Shifting and masking a byte reads its 2-bit fields.
pub proof fn lemma_slot_bits(b: u8)
    ensures
        b & 3 == slot(b, 0),
        (b >> 2) & 3 == slot(b, 1),
        (b >> 4) & 3 == slot(b, 2),
        (b >> 6) & 3 == slot(b, 3),
{
    assert(b & 3 == b % 4 && (b >> 2) & 3 == (b / 4) % 4 && (b >> 4) & 3 == (b / 16) % 4 && (b
        >> 6) & 3 == b / 64) by (bit_vector);
}

/// Index nibbles are 4-bit numbers.
pub broadcast proof fn lemma_index_nibble_range(i: int, j: int)
    ensures
        0 <= #[trigger] index_nibble(i, j) < 16,
{
    reveal(index_nibble);
}

/// Writing one nibble leaves the other alone.
pub proof fn lemma_set_nibble(value: u8, color: u8)
    requires
        color < 16,
    ensures
        nibble((value & 0x0F) | ((color << 4) & 0xF0), 0) == nibble(value, 0),
        nibble((value & 0x0F) | ((color << 4) & 0xF0), 1) == color,
        nibble((value & 0xF0) | (color & 0x0F), 0) == color,
        nibble((value & 0xF0) | (color & 0x0F), 1) == nibble(value, 1),
{
    assert({
        let a = (value & 0x0F) | ((color << 4) & 0xF0);
        let b = (value & 0xF0) | (color & 0x0F);
        a % 16 == value % 16 && a / 16 == color && b % 16 == color && b / 16 == value / 16
    }) by (bit_vector)
        requires
            color < 16,
    ;
}

/// A byte of two equal nibbles.
pub proof fn lemma_double_nibble(color: u8)
    requires
        color < 16,
    ensures
        nibble(color << 4 | color, 0) == color,
        nibble(color << 4 | color, 1) == color,
        color << 4 | color == 17 * color,
{
    assert((color << 4 | color) % 16 == color && (color << 4 | color) / 16 == color && (color << 4
        | color) == 17 * color) by (bit_vector)
        requires
            color < 16,
    ;
}

/// Writing one 2-bit field leaves the others alone.
pub proof fn lemma_set_field(value: u8, level: u8, shift: usize)
    requires
        level < 4,
        shift == 0 || shift == 2 || shift == 4 || shift == 6,
    ensures
        forall|j: int|
            0 <= j < 4 ==> #[trigger] slot((value & !(3u8 << shift)) | (level << shift), j) == (if 2
                * j == shift {
                level
            } else {
                slot(value, j)
            }),
{
    assert({
        let r = (value & !(3u8 << shift)) | (level << shift);
        &&& r % 4 == (if shift == 0 { level } else { value % 4 })
        &&& (r / 4) % 4 == (if shift == 2 { level } else { (value / 4) % 4 })
        &&& (r / 16) % 4 == (if shift == 4 { level } else { (value / 16) % 4 })
        &&& r / 64 == (if shift == 6 { level } else { value / 64 })
    }) by (bit_vector)
        requires
            level < 4,
            shift == 0 || shift == 2 || shift == 4 || shift == 6,
    ;
}

/// Quantising the four nibbles of two bytes packs their upper halves.
pub proof fn lemma_quantise_bits(lo: u8, hi: u8)
    ensures
        ((lo & 0x0F) >> 2) | (((lo >> 4) >> 2) << 2) | (((hi & 0x0F) >> 2) << 4) | (((hi >> 4) >> 2)
            << 6) == pack(
            nibble(lo, 0) / 4,
            nibble(lo, 1) / 4,
            nibble(hi, 0) / 4,
            nibble(hi, 1) / 4,
        ),
{
    assert(((lo & 0x0F) >> 2) | (((lo >> 4) >> 2) << 2) | (((hi & 0x0F) >> 2) << 4) | (((hi >> 4)
        >> 2) << 6) == (lo % 16) / 4 + 4 * ((lo / 16) / 4) + 16 * ((hi % 16) / 4) + 64 * ((hi / 16)
        / 4)) by (bit_vector);
}

} // verus!
