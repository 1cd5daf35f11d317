use lilygo_epd47::ed047tc1::{ConfigRegister, M5PaperS3Control};
use lilygo_epd47::{
    Action, CdEdges, Error, Event, Level, LilyGoT5V23Pins, M5PaperS3Pins, PinConfig, Signal, Step,
    ED047TC1,
};

fn lilygo() -> ED047TC1 {
    ED047TC1::new(PinConfig::LilyGoT5V23(LilyGoT5V23Pins::new()))
}

fn papers3_pins() -> M5PaperS3Pins {
    M5PaperS3Pins {
        data0: 6,
        data1: 14,
        data2: 7,
        data3: 12,
        data4: 9,
        data5: 11,
        data6: 8,
        data7: 10,
        sph: 13,
        cl: 16,
        ckv: 18,
        spv: 17,
        le: 15,
        oe: 45,
        pwr: 46,
    }
}

fn papers3() -> ED047TC1 {
    ED047TC1::new(PinConfig::M5PaperS3(papers3_pins()))
}

fn done(cycles: u32) -> Event {
    Event::Done { cycles }
}

fn bring_up(epd: &mut ED047TC1) {
    assert_eq!(epd.bring_up(), Step::Perform(vec![Action::AllocateLine(248)]));
    assert!(!epd.has_bus());
    epd.resume(done(0));
    epd.resume(done(0));
    assert_eq!(epd.resume(done(0)), Step::Completed);
    assert!(epd.has_bus());
    assert!(epd.is_ready());
}

fn batch(step: Step) -> Vec<Action> {
    match step {
        Step::Perform(actions) => actions,
        other => panic!("{:?}", other),
    }
}

fn low(signal: Signal) -> Action {
    Action::SetPin(signal, Level::Low)
}

fn high(signal: Signal) -> Action {
    Action::SetPin(signal, Level::High)
}

/// The values that are shifted into the config register, as the eight bits in order.
fn shifted(actions: &[Action]) -> Vec<[bool; 8]> {
    let mut words = Vec::new();
    let mut bits = Vec::new();
    let mut data = false;
    for action in actions {
        match action {
            Action::SetPin(Signal::CfgStr, Level::Low) => bits.clear(),
            Action::SetPin(Signal::CfgData, level) => data = *level == Level::High,
            Action::SetPin(Signal::CfgClk, Level::High) => bits.push(data),
            Action::SetPin(Signal::CfgStr, Level::High) => {
                let mut word = [false; 8];
                word.copy_from_slice(&bits);
                words.push(word);
            }
            _ => {}
        }
    }
    words
}

#[test]
fn config_register_after_reset() {
    let c = ConfigRegister::default();
    assert!(c.power_disable && c.stv);
    assert!(!c.latch_enable && !c.power_enable && !c.mode && !c.output_enable);
    assert!(!c.pos_power_enable && !c.neg_power_enable);
    let mut out = vec![Action::LoadLine];
    c.write(&mut out);
    assert_eq!(out.len(), 27);
    assert_eq!(out[0], Action::LoadLine);
    assert_eq!(out[1], low(Signal::CfgStr));
    assert_eq!(out[2], low(Signal::CfgClk));
    assert_eq!(out[26], high(Signal::CfgStr));
    assert_eq!(shifted(&out), vec![[false, false, false, true, false, false, true, false]]);
}

#[test]
fn lilygo_bring_up() {
    let mut epd = lilygo();
    assert_eq!(epd.bring_up(), Step::Perform(vec![Action::AllocateLine(248)]));
    let open = batch(epd.resume(done(0)));
    assert_eq!(open.len(), 1);
    match open[0] {
        Action::OpenBus(setup) => {
            assert_eq!(setup.frequency_mhz, 10);
            let edges = CdEdges { idle: false, cmd: true, dummy: false, data: false };
            assert_eq!(setup.cd_edges, Some(edges));
            assert_eq!((setup.dc, setup.cs, setup.wrx), (Some(40), None, 41));
            assert_eq!((setup.data0, setup.data1, setup.data2, setup.data3), (6, 7, 4, 5));
            assert_eq!((setup.data4, setup.data5, setup.data6, setup.data7), (2, 3, 8, 1));
        }
        other => panic!("{:?}", other),
    }
    let pins = batch(epd.resume(done(0)));
    assert_eq!(pins.len(), 30);
    assert_eq!(
        pins[0],
        Action::OpenPin { signal: Signal::CfgData, gpio: 13, level: Level::High }
    );
    assert_eq!(pins[1], Action::OpenPin { signal: Signal::CfgClk, gpio: 12, level: Level::High });
    assert_eq!(pins[2], Action::OpenPin { signal: Signal::CfgStr, gpio: 0, level: Level::Low });
    assert_eq!(pins[29], Action::OpenPulse { gpio: 38 });
    assert_eq!(epd.resume(done(0)), Step::Completed);
}

#[test]
fn papers3_bring_up() {
    let mut epd = papers3();
    epd.bring_up();
    let open = batch(epd.resume(done(0)));
    match open[0] {
        Action::OpenBus(setup) => {
            assert_eq!(setup.frequency_mhz, 20);
            assert_eq!(setup.cd_edges, None);
            assert_eq!((setup.dc, setup.cs, setup.wrx), (None, Some(13), 16));
            assert_eq!((setup.data0, setup.data1, setup.data2, setup.data3), (6, 14, 7, 12));
            assert_eq!((setup.data4, setup.data5, setup.data6, setup.data7), (9, 11, 8, 10));
        }
        other => panic!("{:?}", other),
    }
    assert_eq!(
        batch(epd.resume(done(0))),
        vec![
            Action::OpenPin { signal: Signal::Pwr, gpio: 46, level: Level::Low },
            Action::OpenPin { signal: Signal::Spv, gpio: 17, level: Level::Low },
            Action::OpenPin { signal: Signal::Oe, gpio: 45, level: Level::Low },
            Action::OpenPin { signal: Signal::Le, gpio: 15, level: Level::High },
            Action::OpenPin { signal: Signal::Ckv, gpio: 18, level: Level::High },
        ]
    );
    assert_eq!(epd.resume(done(0)), Step::Completed);
}

#[test]
fn bring_up_errors() {
    let mut epd = lilygo();
    epd.bring_up();
    assert_eq!(epd.resume(Event::Failed), Step::Failed(Error::DmaBuffer));
    let mut epd = papers3();
    epd.bring_up();
    epd.resume(done(0));
    assert_eq!(epd.resume(Event::Failed), Step::Failed(Error::I8080Config));
    assert!(!epd.has_bus());
}

#[test]
fn lilygo_power_sequences() {
    let mut epd = lilygo();
    bring_up(&mut epd);
    let on = batch(epd.power_on());
    assert_eq!(
        shifted(&on),
        vec![
            [false, false, true, true, false, false, false, false],
            [false, false, true, true, true, false, false, false],
            [false, false, true, true, true, true, false, false],
            [false, false, true, true, true, true, false, false],
        ]
    );
    let delays: Vec<Action> =
        on.iter().filter(|a| matches!(a, Action::Delay(_))).cloned().collect();
    assert_eq!(delays, vec![Action::Delay(24000), Action::Delay(120000), Action::Delay(24000)]);
    assert_eq!(epd.resume(done(0)), Step::Completed);
    let off = batch(epd.power_off());
    assert_eq!(
        shifted(&off),
        vec![
            [false, false, true, true, true, false, false, false],
            [false, false, true, true, false, false, false, false],
            [false, false, true, true, false, false, true, false],
            [false, false, true, false, false, false, true, false],
        ]
    );
    let delays: Vec<Action> =
        off.iter().filter(|a| matches!(a, Action::Delay(_))).cloned().collect();
    assert_eq!(delays, vec![Action::Delay(2400), Action::Delay(24000)]);
    assert_eq!(epd.resume(done(0)), Step::Completed);
}

#[test]
fn papers3_power_sequences() {
    let mut epd = papers3();
    assert_eq!(
        batch(epd.power_on()),
        vec![
            high(Signal::Oe),
            Action::Delay(24000),
            high(Signal::Pwr),
            Action::Delay(24000),
            high(Signal::Spv),
            Action::Delay(240000),
        ]
    );
    assert_eq!(epd.resume(done(0)), Step::Completed);
    assert_eq!(
        batch(epd.power_off()),
        vec![
            Action::Delay(240000),
            low(Signal::Pwr),
            Action::Delay(2400),
            low(Signal::Oe),
            Action::Delay(24000),
            low(Signal::Spv),
        ]
    );
    assert_eq!(epd.resume(Event::Failed), Step::Failed(Error::Unknown));
}

#[test]
fn lilygo_frame() {
    let mut epd = lilygo();
    bring_up(&mut epd);
    let wait = Action::Pulse { high: 10, low: 10, wait: true };
    let start = batch(epd.frame_start());
    assert_eq!(shifted(&start), vec![[false, true, false, true, false, false, true, false]]);
    assert_eq!(start.last(), Some(&wait));
    let stv = batch(epd.resume(done(0)));
    assert_eq!(shifted(&stv), vec![[false, true, false, false, false, false, true, false]]);
    assert_eq!(stv[26], Action::Delay(240));
    assert_eq!(stv[27], Action::Pulse { high: 100, low: 100, wait: false });
    let reclaim = batch(epd.resume(done(0)));
    assert_eq!(shifted(&reclaim), vec![[false, true, false, true, false, false, true, false]]);
    assert_eq!(reclaim.last(), Some(&Action::ReclaimPulse));
    assert_eq!(
        batch(epd.resume(done(0))),
        vec![Action::Pulse { high: 100, low: 0, wait: true }]
    );
    let output = batch(epd.resume(done(0)));
    assert_eq!(shifted(&output), vec![[true, true, false, true, false, false, true, false]]);
    assert_eq!(output.last(), Some(&wait));
    assert_eq!(epd.resume(done(0)), Step::Completed);

    let end = batch(epd.frame_end());
    assert_eq!(
        shifted(&end),
        vec![
            [false, true, false, true, false, false, true, false],
            [false, false, false, true, false, false, true, false],
        ]
    );
    assert_eq!(end.last(), Some(&wait));
    assert_eq!(batch(epd.resume(done(0))), vec![wait]);
    assert_eq!(epd.resume(done(0)), Step::Completed);
}

#[test]
fn a_frame_ends_clean_whatever_came_before() {
    let mut epd = lilygo();
    bring_up(&mut epd);
    // leaves the start pulse low
    epd.power_off();
    assert_eq!(epd.resume(done(0)), Step::Completed);
    // leaves the mode on
    epd.frame_start();
    epd.resume(done(0));
    assert_eq!(epd.resume(Event::Failed), Step::Failed(Error::Rmt));

    epd.frame_start();
    for _ in 0..4 {
        batch(epd.resume(done(0)));
    }
    assert_eq!(epd.resume(done(0)), Step::Completed);
    for _ in 0..2 {
        epd.output_row(30);
        for _ in 0..3 {
            batch(epd.resume(done(0)));
        }
        assert_eq!(epd.resume(done(0)), Step::Completed);
    }
    let end = batch(epd.frame_end());
    assert_eq!(
        shifted(&end),
        vec![
            [false, true, false, true, false, false, true, false],
            [false, false, false, true, false, false, true, false],
        ]
    );
    batch(epd.resume(done(0)));
    assert_eq!(epd.resume(done(0)), Step::Completed);
}

#[test]
fn lilygo_pulse_errors() {
    let mut epd = lilygo();
    bring_up(&mut epd);
    for good in 0..5 {
        epd.frame_start();
        for _ in 0..good {
            epd.resume(done(0));
        }
        assert_eq!(epd.resume(Event::Failed), Step::Failed(Error::Rmt));
        assert!(epd.is_ready());
    }
    epd.frame_end();
    assert_eq!(epd.resume(Event::Failed), Step::Failed(Error::Rmt));
    epd.output_row(30);
    assert_eq!(epd.resume(Event::Failed), Step::Failed(Error::Rmt));
    epd.skip();
    assert_eq!(epd.resume(Event::Failed), Step::Failed(Error::Rmt));
    assert!(epd.has_bus());
}

#[test]
fn papers3_frame() {
    let mut epd = papers3();
    let clock = vec![
        Action::Delay(720),
        low(Signal::Ckv),
        Action::Delay(720),
        high(Signal::Ckv),
    ];
    let mut expected = vec![
        low(Signal::Le),
        low(Signal::Spv),
        Action::Delay(240),
        low(Signal::Ckv),
        Action::Delay(720),
        high(Signal::Ckv),
        Action::Delay(240),
        high(Signal::Spv),
    ];
    for _ in 0..3 {
        expected.extend(clock.iter().cloned());
    }
    assert_eq!(batch(epd.frame_start()), expected);
    assert_eq!(epd.resume(done(7)), Step::Completed);
    assert_eq!(batch(epd.frame_end()), vec![low(Signal::Le), high(Signal::Ckv)]);
    assert_eq!(epd.resume(done(7)), Step::Completed);
}

#[test]
fn skipping_a_row() {
    let mut epd = lilygo();
    assert_eq!(batch(epd.skip()), vec![Action::Pulse { high: 45, low: 5, wait: false }]);
    assert_eq!(epd.resume(done(0)), Step::Completed);
    let mut epd = papers3();
    assert_eq!(
        batch(epd.skip()),
        vec![
            low(Signal::Le),
            high(Signal::Ckv),
            Action::Delay(1080),
            low(Signal::Ckv),
            high(Signal::Le),
        ]
    );
    assert_eq!(epd.resume(done(0)), Step::Completed);
}

#[test]
fn lilygo_row() {
    let mut epd = lilygo();
    bring_up(&mut epd);
    let begin = batch(epd.output_row(30));
    assert_eq!(
        shifted(&begin),
        vec![
            [false, false, false, true, false, false, true, true],
            [false, false, false, true, false, false, true, false],
        ]
    );
    assert_eq!(begin.last(), Some(&Action::Pulse { high: 30, low: 50, wait: false }));
    assert_eq!(
        batch(epd.resume(done(0))),
        vec![Action::StartTransfer { command: Some(0) }]
    );
    assert!(epd.has_bus());
    assert_eq!(batch(epd.resume(done(0))), vec![Action::FinishTransfer]);
    assert!(epd.in_flight() && !epd.has_bus());
    assert_eq!(batch(epd.resume(done(0))), vec![Action::ReclaimPulse]);
    assert_eq!(epd.resume(done(0)), Step::Completed);
    assert!(epd.has_bus());
    // a row without a high part
    let begin = batch(epd.output_row(0));
    assert_eq!(begin.last(), Some(&Action::Pulse { high: 50, low: 0, wait: false }));
}

#[test]
fn papers3_row_holds_the_clock() {
    let mut epd = papers3();
    bring_up(&mut epd);
    assert_eq!(batch(epd.output_row(155)), vec![low(Signal::Le), high(Signal::Ckv)]);
    assert_eq!(
        batch(epd.resume(done(1000))),
        vec![Action::StartTransfer { command: None }]
    );
    assert_eq!(batch(epd.resume(done(1100))), vec![Action::FinishTransfer]);
    assert_eq!(
        batch(epd.resume(done(4000))),
        vec![Action::Delay(155 * 24 - 3000), low(Signal::Ckv), high(Signal::Le)]
    );
    assert!(epd.has_bus());
    assert_eq!(epd.resume(done(0)), Step::Completed);
}

#[test]
fn the_hold_survives_a_counter_overflow() {
    assert_eq!(
        M5PaperS3Control::scanline_end(10, u32::MAX - 99, 100),
        vec![Action::Delay(40), low(Signal::Ckv), high(Signal::Le)]
    );
    assert_eq!(
        M5PaperS3Control::scanline_end(10, 0, 240),
        vec![low(Signal::Ckv), high(Signal::Le)]
    );
    assert_eq!(
        M5PaperS3Control::scanline_end(65535, 5, 5),
        vec![Action::Delay(65535 * 24), low(Signal::Ckv), high(Signal::Le)]
    );
}

#[test]
fn loading_a_line() {
    let mut epd = lilygo();
    assert_eq!(epd.set_buffer(&[1]), Step::Failed(Error::Unknown));
    bring_up(&mut epd);
    assert_eq!(epd.set_buffer(&[0u8; 241]), Step::Failed(Error::OutOfBounds));
    assert_eq!(epd.line_buffer().len(), 0);
    assert_eq!(batch(epd.set_buffer(&[0b11_10_01_00, 0x55])), vec![Action::LoadLine]);
    assert_eq!(epd.line_buffer().len(), 240);
    assert_eq!(&epd.line_buffer()[..3], &[0b11_10_01_00, 0x55, 0]);
    assert_eq!(epd.resume(done(0)), Step::Completed);

    let mut epd = papers3();
    bring_up(&mut epd);
    epd.set_buffer(&[0b11_10_01_00; 240]);
    assert_eq!(epd.line_buffer().len(), 248);
    assert!(epd.line_buffer()[..240].iter().all(|b| *b == 0b00_01_10_11));
    assert!(epd.line_buffer()[240..].iter().all(|b| *b == 0));
}

#[test]
fn a_transfer_that_cannot_start_keeps_the_bus() {
    for mut epd in [lilygo(), papers3()] {
        bring_up(&mut epd);
        epd.output_row(30);
        epd.resume(done(0));
        assert_eq!(epd.resume(Event::Failed), Step::Failed(Error::Dma));
        assert!(epd.has_bus());
    }
}

#[test]
fn a_failed_transfer_loses_the_bus() {
    let mut epd = papers3();
    bring_up(&mut epd);
    epd.output_row(30);
    epd.resume(done(0));
    epd.resume(done(0));
    assert_eq!(epd.resume(Event::Failed), Step::Failed(Error::Dma));
    assert!(!epd.has_bus());
    assert_eq!(epd.set_buffer(&[1]), Step::Failed(Error::Unknown));
    epd.output_row(30);
    assert_eq!(epd.resume(done(0)), Step::Failed(Error::Unknown));

    let mut epd = lilygo();
    bring_up(&mut epd);
    epd.output_row(30);
    epd.resume(done(0));
    epd.resume(done(0));
    assert_eq!(batch(epd.resume(Event::Failed)), vec![Action::ReclaimPulse]);
    assert_eq!(epd.resume(done(0)), Step::Failed(Error::Dma));
    assert!(!epd.has_bus());

    let mut epd = lilygo();
    bring_up(&mut epd);
    epd.output_row(30);
    epd.resume(done(0));
    epd.resume(done(0));
    epd.resume(done(0));
    assert_eq!(epd.resume(Event::Failed), Step::Failed(Error::Rmt));
    assert!(!epd.has_bus());
}

#[test]
fn pauses_are_single_actions() {
    let mut epd = papers3();
    assert_eq!(
        batch(epd.perform(Action::DelayMicros(230))),
        vec![Action::DelayMicros(230)]
    );
    assert_eq!(epd.resume(done(0)), Step::Completed);
    assert_eq!(epd.resume(done(0)), Step::Completed);
}
