use lilygo_epd47::waveform::{GRAY2_BW16, GRAY2_GRAY16};
use lilygo_epd47::{
    Action, Display, DisplayRotation, DrawMode, Error, Event, Level, LilyGoT5V23Pins,
    M5PaperS3Pins, Mode5Waveform, PinConfig, Rectangle, Signal, Step,
};

/// A row as it reaches the panel: its scanline and its dwell in ticks.
type Row = (Vec<u8>, u32);

/// What an operation did: the rows of each frame, the pauses, and how it ended.
struct Outcome {
    frames: Vec<Vec<Row>>,
    pauses: Vec<Action>,
    end: Step,
}

/// Hardware of a LilyGo or a PaperS3 whose cycle counter stands still. The `fail_at`-th
/// transfer fails.
fn run(display: &mut Display, fail_at: Option<usize>) -> Outcome {
    let mut frames: Vec<Vec<Row>> = Vec::new();
    let mut pauses = Vec::new();
    let mut loaded: Vec<u8> = Vec::new();
    let mut transfers = 0usize;
    let mut event = Event::Done { cycles: 0 };
    loop {
        let actions = match display.step(event) {
            Step::Perform(actions) => actions,
            end => return Outcome { frames, pauses, end },
        };
        event = Event::Done { cycles: 0 };
        for action in &actions {
            match action {
                // a frame begins with the start pulse
                Action::SetPin(Signal::Spv, Level::Low) => frames.push(Vec::new()),
                Action::Pulse { high: 100, low: 100, .. } => frames.push(Vec::new()),
                Action::LoadLine => loaded = display.line_buffer().to_vec(),
                Action::Pulse { high, low: 50, wait: false } => {
                    frames.last_mut().unwrap().push((Vec::new(), *high as u32))
                }
                Action::StartTransfer { command } => {
                    if transfers == fail_at.unwrap_or(usize::MAX) {
                        event = Event::Failed;
                    }
                    transfers += 1;
                    if command.is_some() {
                        frames.last_mut().unwrap().last_mut().unwrap().0 = loaded.clone();
                    } else {
                        frames.last_mut().unwrap().push((loaded.clone(), 0));
                    }
                }
                Action::DelayMicros(_) | Action::DelayMillis(_) => pauses.push(*action),
                _ => {}
            }
        }
        // the end of a PaperS3 row, with the rest of its dwell
        if let [Action::Delay(d), Action::SetPin(Signal::Ckv, Level::Low), Action::SetPin(Signal::Le, Level::High)] =
            actions[..]
        {
            frames.last_mut().unwrap().last_mut().unwrap().1 = d / 24;
        }
    }
}

fn papers3() -> Display {
    let mut display = Display::new(PinConfig::M5PaperS3(M5PaperS3Pins {
        data0: 6,
        data1: 14,
        data2: 7,
        data3: 12,
        data4: 9,
        data5: 11,
        data6: 8,
        data7: 10,
        sph: 13,
        cl: 16,
        ckv: 18,
        spv: 17,
        le: 15,
        oe: 45,
        pwr: 46,
    }));
    assert!(!display.is_idle());
    assert_eq!(run(&mut display, None).end, Step::Completed);
    assert!(display.is_idle());
    display
}

fn lilygo() -> Display {
    let mut display = Display::new(PinConfig::LilyGoT5V23(LilyGoT5V23Pins::new()));
    assert_eq!(run(&mut display, None).end, Step::Completed);
    display
}

/// The push code of pixel `x` in a PaperS3 scanline.
fn code(row: &Row, x: usize) -> u8 {
    (row.0[x / 4] >> (6 - 2 * (x % 4))) & 0b11
}

#[test]
fn rotation_is_kept() {
    let mut display = papers3();
    assert_eq!(display.rotation(), DisplayRotation::Rotate0);
    assert_eq!(DisplayRotation::default(), DisplayRotation::Rotate0);
    for r in [DisplayRotation::Rotate90, DisplayRotation::Rotate180, DisplayRotation::Rotate270] {
        display.set_rotation(r);
        assert_eq!(display.rotation(), r);
    }
}

#[test]
fn dimensions() {
    assert_eq!((Display::WIDTH, Display::HEIGHT), (960, 540));
    let all = Rectangle { x: 0, y: 0, width: 960, height: 540 };
    assert_eq!(Display::bounding_box(), all);
}

#[test]
fn pixel_errors() {
    let mut display = papers3();
    assert_eq!(display.set_pixel(960, 0, 0), Err(Error::OutOfBounds));
    assert_eq!(display.set_pixel(0, 540, 0), Err(Error::OutOfBounds));
    assert_eq!(display.set_pixel(960, 0, 16), Err(Error::OutOfBounds));
    assert_eq!(display.set_pixel(959, 539, 16), Err(Error::InvalidColor));
    assert_eq!(display.set_pixel(959, 539, 15), Ok(()));
    assert_eq!(display.fill(16), Err(Error::InvalidColor));
    assert_eq!(display.fill(15), Ok(()));
    assert_eq!(display.set_pixel_gray2(960, 0, 0), Err(Error::OutOfBounds));
    assert_eq!(display.set_pixel_gray2(0, 540, 4), Err(Error::OutOfBounds));
    assert_eq!(display.set_pixel_gray2(0, 0, 4), Err(Error::InvalidColor));
    assert_eq!(display.fill_gray2(4), Err(Error::InvalidColor));
    assert_eq!(display.fill_gray2(3), Ok(()));
}

#[test]
fn power_cycle() {
    for mut display in [lilygo(), papers3()] {
        display.power_on();
        assert!(!display.is_idle());
        assert_eq!(run(&mut display, None).end, Step::Completed);
        display.power_off();
        assert_eq!(run(&mut display, None).end, Step::Completed);
        assert!(display.is_idle());
    }
}

#[test]
fn bring_up_failure_is_reported() {
    let mut display = Display::new(PinConfig::LilyGoT5V23(LilyGoT5V23Pins::new()));
    display.step(Event::Done { cycles: 0 });
    assert_eq!(display.step(Event::Failed), Step::Failed(Error::DmaBuffer));
    assert!(display.is_idle());
    // without a bus, drawing is refused
    display.flush_matrix();
    assert_eq!(run(&mut display, None).end, Step::Failed(Error::Unknown));
}

#[test]
fn flush_draws_pixels_and_wipes() {
    let mut display = papers3();
    display.set_pixel(0, 0, 0).unwrap();
    display.set_pixel(1, 0, 14).unwrap();
    display.set_pixel(958, 539, 5).unwrap();
    display.set_pixel(959, 539, 10).unwrap();
    display.flush(DrawMode::BlackOnWhite);
    let out = run(&mut display, None);
    assert_eq!(out.end, Step::Completed);
    assert_eq!(out.frames.len(), 15);
    assert!(out.pauses.is_empty());
    let dwells: [u32; 15] = [30, 30, 20, 20, 30, 30, 30, 40, 40, 50, 50, 50, 100, 200, 300];
    for (k, frame) in out.frames.iter().enumerate() {
        assert_eq!(frame.len(), 540);
        assert!(frame.iter().all(|row| row.0.len() == 248 && row.1 == dwells[k]));
        // driven for 15 - gray sub-frames
        assert_eq!(code(&frame[0], 0), 0b01);
        assert_eq!(code(&frame[0], 1), if k < 1 { 0b01 } else { 0 });
        assert_eq!(code(&frame[539], 958), if k < 10 { 0b01 } else { 0 });
        assert_eq!(code(&frame[539], 959), if k < 5 { 0b01 } else { 0 });
        // white is left alone
        assert_eq!(code(&frame[0], 2), 0);
        assert!(frame[1..539].iter().all(|row| row.0.iter().all(|b| *b == 0)));
    }
    // the framebuffer is white afterwards
    display.flush(DrawMode::BlackOnWhite);
    let out = run(&mut display, None);
    assert!(out.frames.iter().all(|f| f.iter().all(|row| row.0.iter().all(|b| *b == 0))));
}

#[test]
fn flush_white_on_black() {
    let mut display = papers3();
    display.fill(0).unwrap();
    display.set_pixel(4, 7, 3).unwrap();
    display.flush(DrawMode::WhiteOnBlack);
    let out = run(&mut display, None);
    for (k, frame) in out.frames.iter().enumerate() {
        assert_eq!(code(&frame[7], 4), if k < 3 { 0b10 } else { 0 });
        assert_eq!(code(&frame[7], 5), 0);
    }
    assert_eq!(out.frames[14][0].1, 300);
    assert_eq!(out.frames[13][0].1, 100);
}

#[test]
fn a_failed_flush_keeps_the_framebuffer() {
    let mut display = papers3();
    display.fill(0).unwrap();
    display.flush(DrawMode::BlackOnWhite);
    let out = run(&mut display, Some(600));
    assert_eq!(out.end, Step::Failed(Error::Dma));
    assert_eq!(out.frames.len(), 2);
    assert_eq!(out.frames[1].len(), 61);
    assert!(display.is_idle());
    // the transfer could not be started, so the bus is still there
    display.flush(DrawMode::BlackOnWhite);
    let out = run(&mut display, None);
    assert_eq!(out.end, Step::Completed);
    assert!(out.frames[14].iter().all(|row| row.0[..240].iter().all(|b| *b == 0x55)));
}

#[test]
fn a_lost_bus_ends_operations() {
    let mut display = papers3();
    display.clear();
    let mut event = Event::Done { cycles: 0 };
    loop {
        match display.step(event) {
            Step::Perform(actions) => {
                event = if actions.contains(&Action::FinishTransfer) {
                    Event::Failed
                } else {
                    Event::Done { cycles: 0 }
                };
            }
            end => {
                assert_eq!(end, Step::Failed(Error::Dma));
                break;
            }
        }
    }
    display.clear();
    assert_eq!(run(&mut display, None).end, Step::Failed(Error::Unknown));
}

#[test]
fn clear_flashes_the_whole_panel() {
    let mut display = papers3();
    display.clear();
    let out = run(&mut display, None);
    assert_eq!(out.end, Step::Completed);
    assert_eq!(out.frames.len(), 32);
    for (i, frame) in out.frames.iter().enumerate() {
        let byte = if i % 8 < 4 { 0x55 } else { 0xAA };
        assert_eq!(frame.len(), 540);
        assert!(frame.iter().all(|r| r.0[..240].iter().all(|b| *b == byte) && r.1 == 50));
    }
}

#[test]
fn clear_area_leaves_the_rest_alone() {
    let mut display = lilygo();
    display.clear_area(Rectangle { x: 4, y: 3, width: 2, height: 2 });
    let out = run(&mut display, None);
    assert_eq!(out.frames.len(), 32);
    let frame = &out.frames[0];
    assert_eq!(frame.len(), 5);
    for row in &frame[..3] {
        assert_eq!(*row, (vec![0xFF; 240], 1));
    }
    for row in &frame[3..] {
        assert_eq!(&row.0[..4], &[0, 0, 0, 0b00_00_01_01]);
        assert_eq!(row.1, 50);
    }
    assert_eq!(&out.frames[4][3].0[..4], &[0, 0, 0, 0b00_00_10_10]);
}

#[test]
fn skipped_rows_load_their_line_once() {
    let mut display = papers3();
    display.clear_area(Rectangle { x: 0, y: 7, width: 8, height: 2 });
    let mut loads = Vec::new();
    let mut transfers = 0usize;
    let mut event = Event::Done { cycles: 0 };
    while let Step::Perform(actions) = display.step(event) {
        for action in &actions {
            match action {
                Action::LoadLine => loads.push((transfers, display.line_buffer()[0])),
                Action::StartTransfer { .. } => transfers += 1,
                _ => {}
            }
        }
        event = Event::Done { cycles: 0 };
    }
    // in each of the frames: once above the area, and once for the area
    assert_eq!(transfers, 32 * 9);
    assert_eq!(loads.len(), 32 * 2);
    for frame in 0..32 {
        assert_eq!(loads[2 * frame], (9 * frame, 0xFF));
        assert_eq!(loads[2 * frame + 1], (9 * frame + 7, 0x00));
    }
}

#[test]
fn clear_area_below_the_panel() {
    let mut display = papers3();
    display.clear_area(Rectangle { x: 0, y: 600, width: 8, height: 8 });
    let out = run(&mut display, None);
    assert!(out.frames.iter().all(|f| f.len() == 540));
    assert!(out.frames.iter().all(|f| f.iter().all(|r| r.0[..240].iter().all(|b| *b == 0xFF))));
    // an area that reaches below is cut off
    display.clear_area(Rectangle { x: 0, y: 530, width: 8, height: 100 });
    let out = run(&mut display, None);
    assert_eq!(out.frames[0].len(), 540);
    assert_eq!(code(&out.frames[0][539], 8), 0b01);
    // an empty area at the top touches nothing
    display.clear_area(Rectangle { x: 0, y: 0, width: 8, height: 0 });
    let out = run(&mut display, None);
    assert!(out.frames.len() == 32 && out.frames.iter().all(|f| f.is_empty()));
}

#[test]
fn repair_routine() {
    let mut display = papers3();
    display.repair();
    let out = run(&mut display, None);
    assert_eq!(out.end, Step::Completed);
    assert_eq!(out.frames.len(), 32 + 20 + 32 + 40 + 32);
    assert_eq!(out.pauses, vec![Action::DelayMillis(500); 60]);
    assert!(out.frames[32..52].iter().all(|f| f[0].0[0] == 0x55));
    assert!(out.frames[84..124].iter().all(|f| f[0].0[0] == 0xAA));
}

#[test]
fn matrix_flush() {
    let mut display = papers3();
    display.fill(7).unwrap();
    display.set_pixel(3, 2, 0).unwrap();
    display.flush_matrix();
    let out = run(&mut display, None);
    assert_eq!(out.end, Step::Completed);
    assert_eq!(out.frames.len(), 8);
    assert_eq!(out.pauses, vec![Action::DelayMicros(230); 8]);
    let row7 = [2u8, 2, 2, 1, 2, 1, 1, 2];
    for (pass, frame) in out.frames.iter().enumerate() {
        assert!(frame.len() == 540 && frame.iter().all(|r| r.1 == 30));
        assert_eq!(code(&frame[2], 3), 1);
        assert_eq!(code(&frame[2], 4), row7[pass]);
    }
    display.flush_matrix();
    let out = run(&mut display, None);
    assert!(out.frames.iter().all(|f| f.iter().all(|r| r.0[..240].iter().all(|b| *b == 0xAA))));
}

#[test]
fn waveform_flush() {
    let mut first = [[0u8; 4]; 16];
    first[5][3] = 0b01;
    let mut second = [[0u8; 4]; 16];
    second[5][3] = 0b10;
    let waveform = Mode5Waveform { buckets: vec![vec![second], vec![first, second]] };
    let mut display = papers3();
    display.set_pixel(100, 50, 5).unwrap();
    display.flush_waveform(&waveform, 1);
    let out = run(&mut display, None);
    assert_eq!(out.end, Step::Completed);
    assert_eq!(out.frames.len(), 2);
    assert!(out.frames.iter().all(|f| f.len() == 540 && f.iter().all(|r| r.1 == 155)));
    assert_eq!(code(&out.frames[0][50], 100), 0b01);
    assert_eq!(code(&out.frames[1][50], 100), 0b10);
    assert_eq!(code(&out.frames[1][50], 101), 0b11);
    display.flush_waveform(&waveform, 0);
    let out = run(&mut display, None);
    assert_eq!(out.frames.len(), 1);
    assert!(out.frames[0].iter().all(|r| r.0[..240].iter().all(|b| *b == 0xFF)));
}

#[test]
fn gray2_full_repaint() {
    let mut display = papers3();
    display.fill_gray2(3).unwrap();
    for level in 0..4u8 {
        display.set_pixel_gray2(8 + level as u16, 100, level).unwrap();
    }
    display.flush_gray2();
    let out = run(&mut display, None);
    assert_eq!(out.end, Step::Completed);
    assert_eq!(out.frames.len(), 38);
    assert_eq!(out.pauses, vec![Action::DelayMicros(230); 6]);
    for frame in &out.frames[32..37] {
        let codes: Vec<u8> = (8..12).map(|x| code(&frame[100], x)).collect();
        assert_eq!(codes, vec![0b01, 0b01, 0b11, 0b11]);
        assert_eq!(code(&frame[100], 0), 0b11);
    }
    let codes: Vec<u8> = (8..12).map(|x| code(&out.frames[37][100], x)).collect();
    assert_eq!(codes, vec![0b01, 0b10, 0b01, 0b10]);
    // nothing has changed since
    display.partial_gray2();
    let out = run(&mut display, None);
    assert_eq!(out.frames.len(), 6);
    assert!(out.frames.iter().all(|f| f.iter().all(|r| r.0[..240].iter().all(|b| *b == 0xFF))));
}

#[test]
fn gray2_partial_pushes_changes_only() {
    let mut display = papers3();
    // the panel is taken to be white at first
    for old in 0..4u8 {
        for new in 0..4u8 {
            display.set_pixel_gray2(old as u16 * 4 + new as u16, 9, old).unwrap();
        }
    }
    display.partial_gray2();
    assert_eq!(run(&mut display, None).end, Step::Completed);
    for old in 0..4u8 {
        for new in 0..4u8 {
            display.set_pixel_gray2(old as u16 * 4 + new as u16, 9, new).unwrap();
        }
    }
    display.partial_gray2();
    let out = run(&mut display, None);
    assert_eq!(out.frames.len(), 6);
    assert_eq!(out.pauses.len(), 6);
    for (i, frame) in out.frames.iter().enumerate() {
        let table = if i < 5 { &GRAY2_BW16 } else { &GRAY2_GRAY16 };
        for old in 0..4usize {
            for new in 0..4usize {
                assert_eq!(code(&frame[9], old * 4 + new), table[4 * new + old]);
            }
        }
        assert!(frame[8].0[..240].iter().all(|b| *b == 0xFF));
    }
}

#[test]
fn a_failed_partial_update_is_not_noted() {
    let mut display = papers3();
    display.set_pixel_gray2(0, 0, 0).unwrap();
    display.partial_gray2();
    assert_eq!(run(&mut display, Some(10)).end, Step::Failed(Error::Dma));
    display.partial_gray2();
    let out = run(&mut display, None);
    assert_eq!(code(&out.frames[0][0], 0), 0b01);
}

#[test]
fn sync_quantises_and_anchors() {
    let mut display = papers3();
    for gray in 0..16u8 {
        display.set_pixel(gray as u16, 3, gray).unwrap();
    }
    display.sync_gray2_from_framebuffer();
    display.partial_gray2();
    let out = run(&mut display, None);
    assert!(out.frames.iter().all(|f| f.iter().all(|r| r.0[..240].iter().all(|b| *b == 0xFF))));
    // the levels are the grays divided by four
    display.flush_gray2();
    let out = run(&mut display, None);
    let codes: Vec<u8> = (0..16).map(|x| code(&out.frames[37][3], x)).collect();
    assert_eq!(codes, vec![1, 1, 1, 1, 2, 2, 2, 2, 1, 1, 1, 1, 2, 2, 2, 2]);
    let codes: Vec<u8> = (0..16).map(|x| code(&out.frames[36][3], x)).collect();
    assert_eq!(codes, vec![1, 1, 1, 1, 1, 1, 1, 1, 3, 3, 3, 3, 3, 3, 3, 3]);
}

#[test]
fn sync_leaves_the_framebuffer_alone() {
    let mut display = papers3();
    display.fill(0).unwrap();
    display.sync_gray2_from_framebuffer();
    display.flush(DrawMode::BlackOnWhite);
    let out = run(&mut display, None);
    assert!(out.frames[0][0].0[..240].iter().all(|b| *b == 0x55));
}

#[test]
fn gray2_canvas_borrows_the_display() {
    let mut display = papers3();
    {
        let canvas = display.gray2();
        canvas.0.set_pixel_gray2(1, 0, 0).unwrap();
    }
    display.partial_gray2();
    let out = run(&mut display, None);
    assert_eq!(code(&out.frames[0][0], 1), 0b01);
    assert_eq!(code(&out.frames[0][0], 0), 0b11);
}

#[test]
fn lilygo_lines_are_not_swizzled() {
    let mut display = lilygo();
    display.set_pixel(0, 0, 0).unwrap();
    display.flush(DrawMode::BlackOnWhite);
    let out = run(&mut display, None);
    assert_eq!(out.end, Step::Completed);
    assert_eq!(out.frames.len(), 15);
    assert_eq!(out.frames[0].len(), 540);
    assert_eq!(out.frames[0][0].0.len(), 240);
    assert_eq!(out.frames[0][0].0[0], 0b00_00_00_01);
    assert_eq!(out.frames[12][0].1, 100);
}

#[test]
fn lilygo_pulse_fault_ends_an_operation() {
    let mut display = lilygo();
    display.clear();
    assert!(matches!(display.step(Event::Done { cycles: 0 }), Step::Perform(_)));
    assert_eq!(display.step(Event::Failed), Step::Failed(Error::Rmt));
    assert!(display.is_idle());
    display.clear();
    assert_eq!(run(&mut display, None).end, Step::Completed);
}

#[test]
fn stepping_an_idle_display_completes() {
    let mut display = papers3();
    assert_eq!(display.step(Event::Done { cycles: 3 }), Step::Completed);
    assert!(display.is_idle());
}
