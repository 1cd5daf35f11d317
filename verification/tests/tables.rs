use lilygo_epd47::ed047tc1::swizzle_papers3_byte;
use lilygo_epd47::lut::{
    build_gray2_transition, expand_gray2_lut, expand_gray4_lut, initial_lut, line_buffer_reorder,
    prepare_dma_buffer, update_lut,
};
use lilygo_epd47::tasks::build_push_line;
use lilygo_epd47::types::{DrawMode, Rectangle};
use lilygo_epd47::waveform::{
    epdiy_op, matrix_ops, phase_ops, Mode5Waveform, GRAY2_BW16, GRAY2_GRAY16, M5_MATRIX,
};

#[test]
fn lut_defaults_and_dwells() {
    assert_eq!(DrawMode::BlackOnWhite.lut_default(), 0x55);
    assert_eq!(DrawMode::WhiteOnWhite.lut_default(), 0xAA);
    assert_eq!(DrawMode::WhiteOnBlack.lut_default(), 0xAA);
    assert_eq!(
        DrawMode::BlackOnWhite.contrast_cycles(),
        [30, 30, 20, 20, 30, 30, 30, 40, 40, 50, 50, 50, 100, 200, 300]
    );
    assert_eq!(
        DrawMode::WhiteOnWhite.contrast_cycles(),
        DrawMode::BlackOnWhite.contrast_cycles()
    );
    assert_eq!(
        DrawMode::WhiteOnBlack.contrast_cycles(),
        [10, 10, 8, 8, 8, 8, 8, 10, 10, 15, 15, 20, 20, 100, 300]
    );
}

/// Takes a level out of a table the straightforward way.
fn reference_update(lut: &mut [u8], level: usize) {
    for i in 0..lut.len() {
        for slot in 0..4 {
            if (i >> (4 * slot)) & 0xF == level {
                lut[i] &= !(0b11 << (2 * slot));
            }
        }
    }
}

#[test]
fn update_lut_takes_one_level_out() {
    for (mode, k, level) in [
        (DrawMode::BlackOnWhite, 0usize, 15usize),
        (DrawMode::BlackOnWhite, 14, 1),
        (DrawMode::BlackOnWhite, 15, 0),
        (DrawMode::WhiteOnWhite, 3, 12),
        (DrawMode::WhiteOnBlack, 0, 0),
        (DrawMode::WhiteOnBlack, 9, 9),
        (DrawMode::WhiteOnBlack, 15, 15),
    ] {
        let mut lut = vec![0xE7u8; 65536];
        let mut expected = lut.clone();
        update_lut(&mut lut, k, mode);
        reference_update(&mut expected, level);
        assert!(lut == expected);
    }
}

#[test]
fn draw_tables_drive_a_level_for_the_right_number_of_sub_frames() {
    for (mode, push) in [
        (DrawMode::BlackOnWhite, 0b01u8),
        (DrawMode::WhiteOnWhite, 0b10),
        (DrawMode::WhiteOnBlack, 0b10),
    ] {
        let mut lut = initial_lut(mode);
        let mut driven = [0usize; 16];
        for k in 0..15 {
            update_lut(&mut lut, k, mode);
            for gray in 0..16usize {
                let code = lut[gray * 0x1111];
                assert!(code == 0 || code == push * 0x55);
                if code != 0 {
                    driven[gray] += 1;
                }
            }
        }
        for gray in 0..16usize {
            let expected = match mode {
                DrawMode::WhiteOnBlack => gray,
                _ => 15 - gray,
            };
            assert_eq!(driven[gray], expected);
        }
    }
}

#[test]
fn gray4_table_packs_four_codes() {
    let op = [1u8, 2, 3, 0, 1, 2, 3, 0, 1, 2, 3, 0, 1, 2, 3, 0];
    let lut = expand_gray4_lut(&op);
    assert_eq!(lut.len(), 65536);
    assert_eq!(lut[0x0000], 0b01_01_01_01);
    assert_eq!(lut[0x3210], 0b00_11_10_01);
    assert_eq!(lut[0xF012], 0b00_01_10_11);
}

#[test]
fn prepare_converts_pixel_pairs() {
    let op = [0u8, 1, 2, 3, 0, 1, 2, 3, 0, 1, 2, 3, 0, 1, 2, 3];
    let lut = expand_gray4_lut(&op);
    let mut line = [0u8; 480];
    line[0] = 0x21; // pixels 1, 2
    line[1] = 0x03; // pixels 3, 0
    line[478] = 0x00;
    line[479] = 0x30; // pixels 0, 3
    let mut out = [0xEEu8; 240];
    prepare_dma_buffer(&line, &lut, &mut out);
    assert_eq!(out[0], 0b00_11_10_01);
    assert_eq!(out[1], 0);
    assert_eq!(out[239], 0b11_00_00_00);
}

#[test]
fn prepare_converts_whole_chunks_only() {
    let lut = vec![0x5Au8; 65536];
    let mut out = [0xEEu8; 240];
    prepare_dma_buffer(&[0u8; 15], &lut, &mut out);
    assert_eq!(&out[..6], &[0x5A, 0x5A, 0x5A, 0x5A, 0xEE, 0xEE]);
}

#[test]
fn gray2_table_keeps_positions() {
    let t = expand_gray2_lut(&[0b01, 0b01, 0b11, 0b11]);
    assert_eq!(t[0b11_10_01_00], 0b11_11_01_01);
    assert_eq!(t[0x00], 0x55);
    assert_eq!(t[0xFF], 0xFF);
    let t = expand_gray2_lut(&[0b01, 0b10, 0b01, 0b10]);
    assert_eq!(t[0b11_10_01_00], 0b10_01_10_01);
}

#[test]
fn transitions_follow_the_table() {
    // new levels 3, 2, 1, 0 over old levels 0, 1, 2, 3
    let mut out = [0u8; 240];
    build_gray2_transition(&[0b00_01_10_11], &[0b11_10_01_00], &GRAY2_BW16, &mut out);
    assert_eq!(out[0], 0b01_11_11_10);
    build_gray2_transition(&[0b00_01_10_11], &[0b11_10_01_00], &GRAY2_GRAY16, &mut out);
    assert_eq!(out[0], 0b11_01_10_11);
    // bytes without a new or an old level keep their value
    assert_eq!(out[1], 0);
}

#[test]
fn unchanged_levels_do_nothing() {
    for level in 0..4usize {
        assert_eq!(GRAY2_BW16[5 * level], 0b11);
        assert_eq!(GRAY2_GRAY16[5 * level], 0b11);
    }
}

#[test]
fn no_table_holds_the_neutral_code() {
    assert!(GRAY2_BW16.iter().all(|c| *c >= 1 && *c <= 3));
    assert!(GRAY2_GRAY16.iter().all(|c| *c >= 1 && *c <= 3));
    assert!(M5_MATRIX.iter().all(|row| row.iter().all(|c| *c == 1 || *c == 2)));
}

#[test]
fn reorder_swaps_halves_and_undoes_itself() {
    let mut data = [1u8, 2, 3, 4, 5, 6, 7, 8, 9, 10];
    line_buffer_reorder(&mut data);
    assert_eq!(data, [3, 4, 1, 2, 7, 8, 5, 6, 9, 10]);
    line_buffer_reorder(&mut data);
    assert_eq!(data, [1, 2, 3, 4, 5, 6, 7, 8, 9, 10]);
}

#[test]
fn swizzle_reverses_pixels() {
    assert_eq!(swizzle_papers3_byte(0b11_10_01_00), 0b00_01_10_11);
    assert_eq!(swizzle_papers3_byte(0b01_00_00_00), 0b00_00_00_01);
    for b in 0..=255u8 {
        assert_eq!(swizzle_papers3_byte(swizzle_papers3_byte(b)), b);
    }
}

#[test]
fn waveform_operations_are_packed_msb_first() {
    let quad = [0b00_01_10_11, 0b11_00_00_00, 0b00_00_00_10, 0b01_10_00_01];
    assert_eq!(epdiy_op(&quad, 0), 0);
    assert_eq!(epdiy_op(&quad, 1), 1);
    assert_eq!(epdiy_op(&quad, 2), 2);
    assert_eq!(epdiy_op(&quad, 3), 3);
    assert_eq!(epdiy_op(&quad, 4), 3);
    assert_eq!(epdiy_op(&quad, 11), 2);
    assert_eq!(epdiy_op(&quad, 12), 1);
    assert_eq!(epdiy_op(&quad, 15), 1);
}

#[test]
fn waveform_phase_codes_come_from_the_white_source() {
    let mut phase = [[0u8; 4]; 16];
    phase[0][3] = 0b00_00_00_01;
    phase[7][3] = 0b11_11_11_10;
    phase[9][3] = 0b01_01_01_00;
    phase[10][3] = 0b00_00_00_11;
    let op = phase_ops(&phase);
    assert_eq!(op[0], 0b01);
    assert_eq!(op[7], 0b10);
    assert_eq!(op[9], 0b11);
    assert_eq!(op[10], 0b11);
    assert_eq!(op[15], 0b11);
}

#[test]
fn waveform_buckets() {
    let w = Mode5Waveform { buckets: vec![vec![], vec![[[1u8; 4]; 16], [[2u8; 4]; 16]]] };
    assert_eq!(w.mode5_bucket(0).len(), 0);
    assert_eq!(w.mode5_bucket(1)[1][3], [2, 2, 2, 2]);
}

#[test]
fn matrix_pass_codes() {
    assert_eq!(matrix_ops(0), [1, 2, 2, 2, 2, 2, 2, 2, 2, 1, 2, 1, 2, 2, 2, 2]);
    assert_eq!(matrix_ops(7), [1, 1, 1, 1, 1, 1, 2, 2, 1, 2, 2, 2, 2, 2, 2, 2]);
}

#[test]
fn push_line_covers_its_columns() {
    let area = Rectangle { x: 3, y: 0, width: 6, height: 1 };
    let black = build_push_line(area, 0);
    // columns 3..9: bytes 0, 1 and 2, with the halves of the group swapped
    assert_eq!(&black[..4], &[0b00_00_00_01, 0, 0b01_00_00_00, 0b01_01_01_01]);
    assert!(black[4..].iter().all(|b| *b == 0));
    let white = build_push_line(area, 1);
    assert_eq!(&white[..4], &[0b00_00_00_10, 0, 0b10_00_00_00, 0b10_10_10_10]);
    let all = build_push_line(Rectangle { x: 0, y: 0, width: 960, height: 540 }, 1);
    assert!(all.iter().all(|b| *b == 0xAA));
    let none = build_push_line(Rectangle { x: 2000, y: 0, width: 0, height: 540 }, 0);
    assert!(none.iter().all(|b| *b == 0));
}
