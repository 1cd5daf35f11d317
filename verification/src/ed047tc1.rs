//! The ED047TC1 panel controller, as a machine that decides what the hardware does next.
//!
//! Every operation of the panel starts with a batch of hardware [`Action`]s. Whoever
//! drives the hardware performs the batch in order and reports back with an [`Event`];
//! [`ED047TC1::resume`] then either asks for another batch or ends the operation. Only
//! the last action of a batch can fail.

use vstd::prelude::*;

use crate::error::Error;
use crate::hardware::{
    Action, Event, Level, PinConfig, Reply, Signal, Step, DMA_BUFFER_SIZE, LINE_BYTES,
};
use crate::pixels;

verus! {

/// Control bits of the LilyGo config shift register.
#[derive(Clone, Copy, Debug, PartialEq, Eq)]
pub struct ConfigRegister {
    pub latch_enable: bool,
    pub power_disable: bool,
    pub pos_power_enable: bool,
    pub neg_power_enable: bool,
    pub stv: bool,
    pub power_enable: bool,
    pub mode: bool,
    pub output_enable: bool,
}

impl ConfigRegister {
    /// The register after reset.
    pub open spec fn reset() -> Self {
        ConfigRegister {
            latch_enable: false,
            power_disable: true,
            pos_power_enable: false,
            neg_power_enable: false,
            stv: true,
            power_enable: false,
            mode: false,
            output_enable: false,
        }
    }

    /// Shifting the register out: with the strobe low, the eight bits follow each other;
    /// then the strobe rises.
    #[verifier::opaque]
    pub open spec fn shift_out(self) -> Seq<Action> {
        seq![Action::SetPin(Signal::CfgStr, Level::Low)]
            + bit_out(self.output_enable)
            + bit_out(self.mode)
            + bit_out(self.power_enable)
            + bit_out(self.stv)
            + bit_out(self.neg_power_enable)
            + bit_out(self.pos_power_enable)
            + bit_out(self.power_disable)
            + bit_out(self.latch_enable)
            + seq![Action::SetPin(Signal::CfgStr, Level::High)]
    }

    /// Appends the actions that shift the register out.
    pub fn write(&self, out: &mut Vec<Action>)
        ensures
            final(out)@ == old(out)@ + self.shift_out(),
    {
        reveal(ConfigRegister::shift_out);
        let ghost o = out@;
        let ghost s0 = seq![Action::SetPin(Signal::CfgStr, Level::Low)];
        let ghost s1 = s0 + bit_out(self.output_enable);
        let ghost s2 = s1 + bit_out(self.mode);
        let ghost s3 = s2 + bit_out(self.power_enable);
        let ghost s4 = s3 + bit_out(self.stv);
        let ghost s5 = s4 + bit_out(self.neg_power_enable);
        let ghost s6 = s5 + bit_out(self.pos_power_enable);
        let ghost s7 = s6 + bit_out(self.power_disable);
        let ghost s8 = s7 + bit_out(self.latch_enable);
        out.push(Action::SetPin(Signal::CfgStr, Level::Low));
        assert(out@ =~= o + s0);
        write_bool(self.output_enable, out);
        write_bool(self.mode, out);
        write_bool(self.power_enable, out);
        write_bool(self.stv, out);
        write_bool(self.neg_power_enable, out);
        write_bool(self.pos_power_enable, out);
        write_bool(self.power_disable, out);
        write_bool(self.latch_enable, out);
        proof {
            lemma_concat(o, s0, bit_out(self.output_enable));
            lemma_concat(o, s1, bit_out(self.mode));
            lemma_concat(o, s2, bit_out(self.power_enable));
            lemma_concat(o, s3, bit_out(self.stv));
            lemma_concat(o, s4, bit_out(self.neg_power_enable));
            lemma_concat(o, s5, bit_out(self.pos_power_enable));
            lemma_concat(o, s6, bit_out(self.power_disable));
            lemma_concat(o, s7, bit_out(self.latch_enable));
        }
        assert(out@ == o + s8);
        out.push(Action::SetPin(Signal::CfgStr, Level::High));
        assert(out@ =~= (o + s8) + seq![Action::SetPin(Signal::CfgStr, Level::High)]);
        proof {
            lemma_concat(o, s8, seq![Action::SetPin(Signal::CfgStr, Level::High)]);
        }
    }
}

proof fn lemma_concat(a: Seq<Action>, b: Seq<Action>, c: Seq<Action>)
    ensures
        (a + b) + c == a + (b + c),
{
    assert((a + b) + c =~= a + (b + c));
}

impl Default for ConfigRegister {
    fn default() -> (c: Self)
        ensures
            c == ConfigRegister::reset(),
    {
        ConfigRegister {
            latch_enable: false,
            power_disable: true,
            pos_power_enable: false,
            neg_power_enable: false,
            stv: true,
            power_enable: false,
            mode: false,
            output_enable: false,
        }
    }
}

/// The pin level for a bit.
pub open spec fn level(v: bool) -> Level {
    if v {
        Level::High
    } else {
        Level::Low
    }
}

/// Shifting one bit out: it is put on the data line while the clock is low and taken over
/// when the clock rises.
#[verifier::opaque]
pub open spec fn bit_out(v: bool) -> Seq<Action> {
    seq![
        Action::SetPin(Signal::CfgClk, Level::Low),
        Action::SetPin(Signal::CfgData, level(v)),
        Action::SetPin(Signal::CfgClk, Level::High),
    ]
}

fn write_bool(v: bool, out: &mut Vec<Action>)
    ensures
        final(out)@ == old(out)@ + bit_out(v),
{
    reveal(bit_out);
    out.push(Action::SetPin(Signal::CfgClk, Level::Low));
    out.push(
        Action::SetPin(
            Signal::CfgData,
            match v {
                true => Level::High,
                false => Level::Low,
            },
        ),
    );
    out.push(Action::SetPin(Signal::CfgClk, Level::High));
    assert(out@ =~= old(out)@ + bit_out(v));
}

/// Where in an operation the panel is.
#[derive(Clone, Copy, Debug, PartialEq, Eq)]
pub enum Stage {
    /// No operation is running.
    Ready,
    /// The operation's only or last batch, which cannot fail, is being performed.
    Plain,
    /// The operation's only or last batch, which ends with a pulse, is being performed.
    LastPulse,
    /// The DMA buffer is being set up.
    OpeningBuffer,
    /// The data bus is being configured.
    OpeningBus,
    /// Frame start: the pulse in front of the start pulse.
    FrameMode,
    /// Frame start: the pulse during which the start pulse begins.
    FrameStv,
    /// Frame start: waiting for that pulse.
    FrameReclaim,
    /// Frame start: the gap behind it.
    FrameGap,
    /// Frame end: the first of two pulses.
    FrameEnd,
    /// Row output: the row's dwell has begun.
    RowBegin { output_time: u16 },
    /// Row output: the transfer is being started; `start` is the cycle counter at the
    /// beginning of the dwell.
    RowSend { output_time: u16, start: u32 },
    /// Row output: the transfer is running.
    RowWait { output_time: u16, start: u32 },
    /// Row output: waiting for the dwell pulse; `sent` tells whether the transfer was good.
    RowReclaim { sent: bool },
}

/// What the panel controller knows between two batches.
#[derive(Clone, Copy, Debug)]
pub struct PanelState {
    /// The board and its pins.
    pub pins: PinConfig,
    /// What the config shift register holds (LilyGo only).
    pub config: ConfigRegister,
    /// Whether the data bus and its DMA buffer are at hand. They are away during a
    /// transfer, and for good if it fails.
    pub bus: bool,
    /// The operation in progress.
    pub stage: Stage,
}

/// A pulse of `high` ticks followed by `low` ticks; without a high part, the level is held
/// high for `low` ticks.
pub open spec fn pulse_action(high: u16, low: u16, wait: bool) -> Action {
    if high > 0 {
        Action::Pulse { high, low, wait }
    } else {
        Action::Pulse { high: low, low: 0, wait }
    }
}

fn pulse(high: u16, low: u16, wait: bool) -> (a: Action)
    ensures
        a == pulse_action(high, low, wait),
{
    if high > 0 {
        Action::Pulse { high, low, wait }
    } else {
        Action::Pulse { high: low, low: 0, wait }
    }
}

/// The CPU cycles for which CKV still has to stay asserted: a row dwells `output_time`
/// ticks of 24 cycles each, measured by a 32-bit counter that wraps around.
pub open spec fn hold_cycles(output_time: u16, start: u32, now: u32) -> int {
    let elapsed = if now >= start {
        now - start
    } else {
        now - start + 0x1_0000_0000
    };
    if elapsed < output_time * 24 {
        output_time * 24 - elapsed
    } else {
        0
    }
}

/// The data as it is put into the line buffer: in the board's pixel order, padded with
/// zeros to a whole scanline. The PaperS3 wants the four pixels of a byte in the opposite
/// order.
pub open spec fn scanline(pins: PinConfig, data: Seq<u8>) -> Seq<u8> {
    Seq::new(
        pins.bytes_per_scanline(),
        |i: int|
            if i >= data.len() {
                0
            } else if pins is M5PaperS3 {
                swizzled(data[i])
            } else {
                data[i]
            },
    )
}

/// The byte with its four 2-bit fields in the opposite order.
pub open spec fn swizzled(b: u8) -> u8 {
    pixels::pack(pixels::slot(b, 3), pixels::slot(b, 2), pixels::slot(b, 1), pixels::slot(b, 0))
}

/// Reverses the order of the 2-bit pairs inside a byte.
pub fn swizzle_papers3_byte(b: u8) -> (r: u8)
    ensures
        r == swizzled(b),
{
    proof {
        assert(((b & 0x03) << 6) | ((b & 0x0C) << 2) | ((b & 0x30) >> 2) | ((b & 0xC0) >> 6) == (b
            / 64) + 4 * ((b / 16) % 4) + 16 * ((b / 4) % 4) + 64 * (b % 4)) by (bit_vector);
    }
    ((b & 0x03) << 6) | ((b & 0x0C) << 2) | ((b & 0x30) >> 2) | ((b & 0xC0) >> 6)
}

/// M5PaperS3 panel control: the timing pins PWR, SPV, OE, LE and CKV are GPIOs.
///
/// PWR and OE are active high; SPV is low and pulsed at the start of a frame; LE is high
/// between scanlines and low during a transfer; CKV is toggled around each transfer.
pub struct M5PaperS3Control;

impl M5PaperS3Control {
    /// Switching the power: on, it is outputs, supply, start pulse line; off, it is supply,
    /// outputs, start pulse line.
    pub open spec fn powering(on: bool) -> Seq<Action> {
        if on {
            seq![
                Action::SetPin(Signal::Oe, Level::High),
                Action::Delay(24_000),
                Action::SetPin(Signal::Pwr, Level::High),
                Action::Delay(24_000),
                Action::SetPin(Signal::Spv, Level::High),
                Action::Delay(240_000),
            ]
        } else {
            seq![
                Action::Delay(240_000),
                Action::SetPin(Signal::Pwr, Level::Low),
                Action::Delay(2_400),
                Action::SetPin(Signal::Oe, Level::Low),
                Action::Delay(24_000),
                Action::SetPin(Signal::Spv, Level::Low),
            ]
        }
    }

    /// One clock pulse in front of the first row.
    pub open spec fn leading_clock() -> Seq<Action> {
        seq![
            Action::Delay(720),
            Action::SetPin(Signal::Ckv, Level::Low),
            Action::Delay(720),
            Action::SetPin(Signal::Ckv, Level::High),
        ]
    }

    /// Beginning a frame: a start pulse around one clock pulse, then three more clock
    /// pulses.
    pub open spec fn beginning() -> Seq<Action> {
        seq![
            Action::SetPin(Signal::Le, Level::Low),
            Action::SetPin(Signal::Spv, Level::Low),
            Action::Delay(240),
            Action::SetPin(Signal::Ckv, Level::Low),
            Action::Delay(720),
            Action::SetPin(Signal::Ckv, Level::High),
            Action::Delay(240),
            Action::SetPin(Signal::Spv, Level::High),
        ] + Self::leading_clock() + Self::leading_clock() + Self::leading_clock()
    }

    /// Ending a frame.
    pub open spec fn ending() -> Seq<Action> {
        seq![Action::SetPin(Signal::Le, Level::Low), Action::SetPin(Signal::Ckv, Level::High)]
    }

    /// Beginning a row.
    pub open spec fn row_beginning() -> Seq<Action> {
        seq![Action::SetPin(Signal::Le, Level::Low), Action::SetPin(Signal::Ckv, Level::High)]
    }

    /// Ending a row: CKV is held for the rest of the dwell.
    pub open spec fn row_ending(output_time: u16, start: u32, now: u32) -> Seq<Action> {
        (if hold_cycles(output_time, start, now) > 0 {
            seq![Action::Delay(hold_cycles(output_time, start, now) as u32)]
        } else {
            seq![]
        }) + seq![
            Action::SetPin(Signal::Ckv, Level::Low),
            Action::SetPin(Signal::Le, Level::High),
        ]
    }

    /// A row without data.
    pub open spec fn row_skip() -> Seq<Action> {
        seq![
            Action::SetPin(Signal::Le, Level::Low),
            Action::SetPin(Signal::Ckv, Level::High),
            Action::Delay(1_080),
            Action::SetPin(Signal::Ckv, Level::Low),
            Action::SetPin(Signal::Le, Level::High),
        ]
    }

    /// Switches the power.
    pub fn power_control(on: bool) -> (batch: Vec<Action>)
        ensures
            batch@ == Self::powering(on),
    {
        let mut batch: Vec<Action> = Vec::new();
        if on {
            batch.push(Action::SetPin(Signal::Oe, Level::High));
            batch.push(Action::Delay(100 * 240));
            batch.push(Action::SetPin(Signal::Pwr, Level::High));
            batch.push(Action::Delay(100 * 240));
            batch.push(Action::SetPin(Signal::Spv, Level::High));
            batch.push(Action::Delay(1_000 * 240));
        } else {
            batch.push(Action::Delay(1_000 * 240));
            batch.push(Action::SetPin(Signal::Pwr, Level::Low));
            batch.push(Action::Delay(10 * 240));
            batch.push(Action::SetPin(Signal::Oe, Level::Low));
            batch.push(Action::Delay(100 * 240));
            batch.push(Action::SetPin(Signal::Spv, Level::Low));
        }
        assert(batch@ =~= Self::powering(on));
        batch
    }

    /// Begins a frame.
    pub fn begin_transaction() -> (batch: Vec<Action>)
        ensures
            batch@ == Self::beginning(),
    {
        let mut batch: Vec<Action> = Vec::new();
        batch.push(Action::SetPin(Signal::Le, Level::Low));
        batch.push(Action::SetPin(Signal::Spv, Level::Low));
        batch.push(Action::Delay(240));
        batch.push(Action::SetPin(Signal::Ckv, Level::Low));
        batch.push(Action::Delay(3 * 240));
        batch.push(Action::SetPin(Signal::Ckv, Level::High));
        batch.push(Action::Delay(240));
        batch.push(Action::SetPin(Signal::Spv, Level::High));
        let ghost head = batch@;
        let mut i: u8 = 0;
        while i < 3
            invariant
                i <= 3,
                i == 0 ==> batch@ == head,
                i == 1 ==> batch@ == head + Self::leading_clock(),
                i == 2 ==> batch@ == head + Self::leading_clock() + Self::leading_clock(),
                i == 3 ==> batch@ == head + Self::leading_clock() + Self::leading_clock()
                    + Self::leading_clock(),
            decreases 3 - i,
        {
            let ghost before = batch@;
            batch.push(Action::Delay(3 * 240));
            batch.push(Action::SetPin(Signal::Ckv, Level::Low));
            batch.push(Action::Delay(3 * 240));
            batch.push(Action::SetPin(Signal::Ckv, Level::High));
            assert(batch@ =~= before + Self::leading_clock());
            i = i + 1;
        }
        assert(head =~= seq![
            Action::SetPin(Signal::Le, Level::Low),
            Action::SetPin(Signal::Spv, Level::Low),
            Action::Delay(240),
            Action::SetPin(Signal::Ckv, Level::Low),
            Action::Delay(720),
            Action::SetPin(Signal::Ckv, Level::High),
            Action::Delay(240),
            Action::SetPin(Signal::Spv, Level::High),
        ]);
        batch
    }

    /// Ends a frame.
    pub fn end_transaction() -> (batch: Vec<Action>)
        ensures
            batch@ == Self::ending(),
    {
        let mut batch: Vec<Action> = Vec::new();
        batch.push(Action::SetPin(Signal::Le, Level::Low));
        batch.push(Action::SetPin(Signal::Ckv, Level::High));
        assert(batch@ =~= Self::ending());
        batch
    }

    /// Begins a row.
    pub fn scanline_begin() -> (batch: Vec<Action>)
        ensures
            batch@ == Self::row_beginning(),
    {
        let mut batch: Vec<Action> = Vec::new();
        batch.push(Action::SetPin(Signal::Le, Level::Low));
        batch.push(Action::SetPin(Signal::Ckv, Level::High));
        assert(batch@ =~= Self::row_beginning());
        batch
    }

    /// Ends a row that began when the cycle counter read `start_cycles`; it reads `now`.
    pub fn scanline_end(output_time: u16, start_cycles: u32, now: u32) -> (batch: Vec<Action>)
        ensures
            batch@ == Self::row_ending(output_time, start_cycles, now),
    {
        let mut batch: Vec<Action> = Vec::new();
        let desired_cycles: u32 = output_time as u32 * 24;
        let elapsed: u32 = now.wrapping_sub(start_cycles);
        if elapsed < desired_cycles {
            batch.push(Action::Delay(desired_cycles - elapsed));
        }
        batch.push(Action::SetPin(Signal::Ckv, Level::Low));
        batch.push(Action::SetPin(Signal::Le, Level::High));
        assert(batch@ =~= Self::row_ending(output_time, start_cycles, now));
        batch
    }

    /// Clocks a row without data.
    pub fn skip_line() -> (batch: Vec<Action>)
        ensures
            batch@ == Self::row_skip(),
    {
        let mut batch: Vec<Action> = Vec::new();
        batch.push(Action::SetPin(Signal::Le, Level::Low));
        batch.push(Action::SetPin(Signal::Ckv, Level::High));
        batch.push(Action::Delay(45 * 24));
        batch.push(Action::SetPin(Signal::Ckv, Level::Low));
        batch.push(Action::SetPin(Signal::Le, Level::High));
        assert(batch@ =~= Self::row_skip());
        batch
    }
}

impl PanelState {
    /// The state with another config register.
    pub open spec fn with_config(self, config: ConfigRegister) -> Self {
        PanelState { config, ..self }
    }

    /// The state at another stage.
    pub open spec fn at(self, stage: Stage) -> Self {
        PanelState { stage, ..self }
    }

    /// The state with the bus at hand or away.
    pub open spec fn with_bus(self, bus: bool) -> Self {
        PanelState { bus, ..self }
    }

    /// The control pins' initial levels, and the first write of the config register.
    pub open spec fn pin_setup(self) -> Seq<Action> {
        match self.pins {
            PinConfig::LilyGoT5V23(pins) => (seq![
                Action::OpenPin {
                    signal: Signal::CfgData,
                    gpio: pins.cfg_data,
                    level: Level::High,
                },
                Action::OpenPin { signal: Signal::CfgClk, gpio: pins.cfg_clk, level: Level::High },
                Action::OpenPin { signal: Signal::CfgStr, gpio: pins.cfg_str, level: Level::Low },
            ] + self.config.shift_out()).push(Action::OpenPulse { gpio: pins.rmt }),
            PinConfig::M5PaperS3(pins) => seq![
                Action::OpenPin { signal: Signal::Pwr, gpio: pins.pwr, level: Level::Low },
                Action::OpenPin { signal: Signal::Spv, gpio: pins.spv, level: Level::Low },
                Action::OpenPin { signal: Signal::Oe, gpio: pins.oe, level: Level::Low },
                Action::OpenPin { signal: Signal::Le, gpio: pins.le, level: Level::High },
                Action::OpenPin { signal: Signal::Ckv, gpio: pins.ckv, level: Level::High },
            ],
        }
    }

    /// Bringing the hardware up begins with the DMA buffer.
    pub open spec fn bringing_up(self) -> (Self, Reply) {
        (
            self.at(Stage::OpeningBuffer),
            Reply::Perform(seq![Action::AllocateLine(DMA_BUFFER_SIZE)]),
        )
    }

    /// Power-on sequence: on the LilyGo the negative rail comes before the positive one.
    pub open spec fn powering_on(self) -> (Self, Reply) {
        match self.pins {
            PinConfig::LilyGoT5V23(_) => {
                let c1 = ConfigRegister { power_enable: true, power_disable: false, ..self.config };
                let c2 = ConfigRegister { neg_power_enable: true, ..c1 };
                let c3 = ConfigRegister { pos_power_enable: true, ..c2 };
                let c4 = ConfigRegister { stv: true, ..c3 };
                (
                    self.with_config(c4).at(Stage::Plain),
                    Reply::Perform(
                        ((c1.shift_out().push(Action::Delay(24_000)) + c2.shift_out()).push(
                            Action::Delay(120_000),
                        ) + c3.shift_out()).push(Action::Delay(24_000)) + c4.shift_out(),
                    ),
                )
            },
            PinConfig::M5PaperS3(_) => (
                self.at(Stage::Plain),
                Reply::Perform(M5PaperS3Control::powering(true)),
            ),
        }
    }

    /// Power-off sequence: on the LilyGo the positive rail goes before the negative one.
    pub open spec fn powering_off(self) -> (Self, Reply) {
        match self.pins {
            PinConfig::LilyGoT5V23(_) => {
                let c1 = ConfigRegister { pos_power_enable: false, ..self.config };
                let c2 = ConfigRegister { neg_power_enable: false, ..c1 };
                let c3 = ConfigRegister { power_disable: true, ..c2 };
                let c4 = ConfigRegister { stv: false, ..c3 };
                (
                    self.with_config(c4).at(Stage::Plain),
                    Reply::Perform(
                        (c1.shift_out().push(Action::Delay(2_400)) + c2.shift_out()).push(
                            Action::Delay(24_000),
                        ) + c3.shift_out() + c4.shift_out(),
                    ),
                )
            },
            PinConfig::M5PaperS3(_) => (
                self.at(Stage::Plain),
                Reply::Perform(M5PaperS3Control::powering(false)),
            ),
        }
    }

    /// A frame begins by homing the row driver: the vertical start pulse with clock pulses
    /// around it.
    pub open spec fn starting_frame(self) -> (Self, Reply) {
        match self.pins {
            PinConfig::LilyGoT5V23(_) => {
                let c = ConfigRegister { mode: true, ..self.config };
                (
                    self.with_config(c).at(Stage::FrameMode),
                    Reply::Perform(c.shift_out().push(pulse_action(10, 10, true))),
                )
            },
            PinConfig::M5PaperS3(_) => (
                self.at(Stage::Plain),
                Reply::Perform(M5PaperS3Control::beginning()),
            ),
        }
    }

    /// A frame ends with its outputs disabled.
    pub open spec fn ending_frame(self) -> (Self, Reply) {
        match self.pins {
            PinConfig::LilyGoT5V23(_) => {
                let c1 = ConfigRegister { output_enable: false, ..self.config };
                let c2 = ConfigRegister { mode: false, ..c1 };
                (
                    self.with_config(c2).at(Stage::FrameEnd),
                    Reply::Perform(
                        (c1.shift_out() + c2.shift_out()).push(pulse_action(10, 10, true)),
                    ),
                )
            },
            PinConfig::M5PaperS3(_) => (
                self.at(Stage::Plain),
                Reply::Perform(M5PaperS3Control::ending()),
            ),
        }
    }

    /// A bare clock pulse that advances the row driver by a row.
    pub open spec fn skipping(self) -> (Self, Reply) {
        match self.pins {
            PinConfig::LilyGoT5V23(_) => (
                self.at(Stage::LastPulse),
                Reply::Perform(seq![pulse_action(45, 5, false)]),
            ),
            PinConfig::M5PaperS3(_) => (
                self.at(Stage::Plain),
                Reply::Perform(M5PaperS3Control::row_skip()),
            ),
        }
    }

    /// A row begins by latching the row before it and starting the dwell.
    pub open spec fn starting_row(self, output_time: u16) -> (Self, Reply) {
        match self.pins {
            PinConfig::LilyGoT5V23(_) => {
                let c1 = ConfigRegister { latch_enable: true, ..self.config };
                let c2 = ConfigRegister { latch_enable: false, ..c1 };
                (
                    self.with_config(c2).at(Stage::RowBegin { output_time }),
                    Reply::Perform(
                        (c1.shift_out() + c2.shift_out()).push(
                            pulse_action(output_time, 50, false),
                        ),
                    ),
                )
            },
            PinConfig::M5PaperS3(_) => (
                self.at(Stage::RowBegin { output_time }),
                Reply::Perform(M5PaperS3Control::row_beginning()),
            ),
        }
    }

    /// Loading `data` into the line buffer: refused if it is longer than a scanline, or if
    /// the bus has been lost.
    pub open spec fn loading(self, data: Seq<u8>) -> (Self, Reply) {
        if data.len() > 240 {
            (self, Reply::Failed(Error::OutOfBounds))
        } else if !self.bus {
            (self, Reply::Failed(Error::Unknown))
        } else {
            (self.at(Stage::Plain), Reply::Perform(seq![Action::LoadLine]))
        }
    }

    /// Doing one thing that cannot fail.
    pub open spec fn doing(self, action: Action) -> (Self, Reply) {
        (self.at(Stage::Plain), Reply::Perform(seq![action]))
    }

    /// The operation is over.
    pub open spec fn ended(self, reply: Reply) -> (Self, Reply) {
        (self.at(Stage::Ready), reply)
    }

    /// What follows a batch that was performed, with the cycle counter at `cycles`.
    pub open spec fn after_done(self, cycles: u32) -> (Self, Reply) {
        match self.stage {
            Stage::Ready | Stage::Plain | Stage::LastPulse => self.ended(Reply::Completed),
            Stage::OpeningBuffer => (
                self.at(Stage::OpeningBus),
                Reply::Perform(seq![Action::OpenBus(self.pins.bus_setup())]),
            ),
            Stage::OpeningBus => (
                self.with_bus(true).at(Stage::Plain),
                Reply::Perform(self.pin_setup()),
            ),
            Stage::FrameMode => {
                let c = ConfigRegister { stv: false, ..self.config };
                (
                    self.with_config(c).at(Stage::FrameStv),
                    Reply::Perform(
                        c.shift_out().push(Action::Delay(240)).push(pulse_action(100, 100, false)),
                    ),
                )
            },
            Stage::FrameStv => {
                let c = ConfigRegister { stv: true, ..self.config };
                (
                    self.with_config(c).at(Stage::FrameReclaim),
                    Reply::Perform(c.shift_out().push(Action::ReclaimPulse)),
                )
            },
            Stage::FrameReclaim => (
                self.at(Stage::FrameGap),
                Reply::Perform(seq![pulse_action(0, 100, true)]),
            ),
            Stage::FrameGap => {
                let c = ConfigRegister { output_enable: true, ..self.config };
                (
                    self.with_config(c).at(Stage::LastPulse),
                    Reply::Perform(c.shift_out().push(pulse_action(10, 10, true))),
                )
            },
            Stage::FrameEnd => (
                self.at(Stage::LastPulse),
                Reply::Perform(seq![pulse_action(10, 10, true)]),
            ),
            Stage::RowBegin { output_time } => if !self.bus {
                self.ended(Reply::Failed(Error::Unknown))
            } else {
                (
                    self.at(Stage::RowSend { output_time, start: cycles }),
                    Reply::Perform(
                        seq![
                            Action::StartTransfer {
                                command: if self.pins is LilyGoT5V23 { Some(0) } else { None },
                            },
                        ],
                    ),
                )
            },
            Stage::RowSend { output_time, start } => (
                self.with_bus(false).at(Stage::RowWait { output_time, start }),
                Reply::Perform(seq![Action::FinishTransfer]),
            ),
            Stage::RowWait { output_time, start } => match self.pins {
                PinConfig::LilyGoT5V23(_) => (
                    self.at(Stage::RowReclaim { sent: true }),
                    Reply::Perform(seq![Action::ReclaimPulse]),
                ),
                PinConfig::M5PaperS3(_) => (
                    self.with_bus(true).at(Stage::Plain),
                    Reply::Perform(M5PaperS3Control::row_ending(output_time, start, cycles)),
                ),
            },
            Stage::RowReclaim { sent } => if sent {
                self.with_bus(true).ended(Reply::Completed)
            } else {
                self.ended(Reply::Failed(Error::Dma))
            },
        }
    }

    /// What follows a batch whose last action failed. A failed transfer loses the bus; one
    /// that could not be started does not.
    pub open spec fn after_failure(self) -> (Self, Reply) {
        match self.stage {
            Stage::Ready | Stage::Plain => self.ended(Reply::Failed(Error::Unknown)),
            Stage::OpeningBuffer => self.ended(Reply::Failed(Error::DmaBuffer)),
            Stage::OpeningBus => self.ended(Reply::Failed(Error::I8080Config)),
            Stage::LastPulse
            | Stage::FrameMode
            | Stage::FrameStv
            | Stage::FrameReclaim
            | Stage::FrameGap
            | Stage::FrameEnd
            | Stage::RowReclaim { .. } => self.ended(Reply::Failed(Error::Rmt)),
            Stage::RowBegin { .. } => if self.pins is LilyGoT5V23 {
                self.ended(Reply::Failed(Error::Rmt))
            } else {
                self.ended(Reply::Failed(Error::Unknown))
            },
            Stage::RowSend { .. } => self.ended(Reply::Failed(Error::Dma)),
            Stage::RowWait { .. } => match self.pins {
                PinConfig::LilyGoT5V23(_) => (
                    self.at(Stage::RowReclaim { sent: false }),
                    Reply::Perform(seq![Action::ReclaimPulse]),
                ),
                PinConfig::M5PaperS3(_) => self.ended(Reply::Failed(Error::Dma)),
            },
        }
    }

    /// What follows an event.
    pub open spec fn resumed(self, event: Event) -> (Self, Reply) {
        match event {
            Event::Done { cycles } => self.after_done(cycles),
            Event::Failed => self.after_failure(),
        }
    }
}

/// Whatever follows an event: at the end of a call the controller is ready, and the latch
/// is not enabled.
pub proof fn lemma_resumed(p: PanelState, event: Event)
    ensures
        !(p.resumed(event).1 is Perform) ==> p.resumed(event).0.stage == Stage::Ready,
        !p.config.latch_enable ==> !p.resumed(event).0.config.latch_enable,
{
}

/// The panel controller.
pub struct ED047TC1 {
    state: PanelState,
    line: Vec<u8>,
}

impl ED047TC1 {
    /// What the controller knows.
    pub closed spec fn state(&self) -> PanelState {
        self.state
    }

    /// The line buffer: the scanline that is loaded next, or was loaded last.
    pub closed spec fn line(&self) -> Seq<u8> {
        self.line@
    }

    /// A controller for a board whose hardware has not been brought up yet.
    pub fn new(pins: PinConfig) -> (epd: Self)
        ensures
            epd.state() == (PanelState {
                pins,
                config: ConfigRegister::reset(),
                bus: false,
                stage: Stage::Ready,
            }),
            epd.line() == Seq::<u8>::empty(),
    {
        ED047TC1 {
            state: PanelState {
                pins,
                config: ConfigRegister::default(),
                bus: false,
                stage: Stage::Ready,
            },
            line: Vec::new(),
        }
    }

    /// The line buffer.
    pub fn line_buffer(&self) -> (line: &[u8])
        ensures
            line@ == self.line(),
    {
        self.line.as_slice()
    }

    /// Whether the data bus is at hand.
    pub fn has_bus(&self) -> (b: bool)
        ensures
            b == self.state().bus,
    {
        self.state.bus
    }

    /// Whether no operation is running.
    pub fn is_ready(&self) -> (b: bool)
        ensures
            b == (self.state().stage == Stage::Ready),
    {
        match self.state.stage {
            Stage::Ready => true,
            _ => false,
        }
    }

    /// Whether a transfer is running.
    pub fn in_flight(&self) -> (b: bool)
        ensures
            b == (self.state().stage is RowWait),
    {
        match self.state.stage {
            Stage::RowWait { .. } => true,
            _ => false,
        }
    }

    /// Brings the hardware up: DMA buffer, data bus, control pins.
    pub fn bring_up(&mut self) -> (step: Step)
        ensures
            (final(self).state(), step@) == old(self).state().bringing_up(),
            final(self).line() == old(self).line(),
    {
        self.state.stage = Stage::OpeningBuffer;
        let batch: Vec<Action> = vec![Action::AllocateLine(DMA_BUFFER_SIZE)];
        assert(batch@ =~= seq![Action::AllocateLine(DMA_BUFFER_SIZE)]);
        Step::Perform(batch)
    }

    /// Turns the panel's power on.
    pub fn power_on(&mut self) -> (step: Step)
        ensures
            (final(self).state(), step@) == old(self).state().powering_on(),
            final(self).line() == old(self).line(),
    {
        let mut batch: Vec<Action> = Vec::new();
        match self.state.pins {
            PinConfig::LilyGoT5V23(_) => {
                self.state.config.power_enable = true;
                self.state.config.power_disable = false;
                self.state.config.write(&mut batch);
                assert(batch@ =~= self.state.config.shift_out());
                batch.push(Action::Delay(100 * 240));
                self.state.config.neg_power_enable = true;
                self.state.config.write(&mut batch);
                batch.push(Action::Delay(500 * 240));
                self.state.config.pos_power_enable = true;
                self.state.config.write(&mut batch);
                batch.push(Action::Delay(100 * 240));
                self.state.config.stv = true;
                self.state.config.write(&mut batch);
            },
            PinConfig::M5PaperS3(_) => {
                batch = M5PaperS3Control::power_control(true);
            },
        }
        self.state.stage = Stage::Plain;
        Step::Perform(batch)
    }

    /// Turns the panel's power off.
    pub fn power_off(&mut self) -> (step: Step)
        ensures
            (final(self).state(), step@) == old(self).state().powering_off(),
            final(self).line() == old(self).line(),
    {
        let mut batch: Vec<Action> = Vec::new();
        match self.state.pins {
            PinConfig::LilyGoT5V23(_) => {
                self.state.config.pos_power_enable = false;
                self.state.config.write(&mut batch);
                assert(batch@ =~= self.state.config.shift_out());
                batch.push(Action::Delay(10 * 240));
                self.state.config.neg_power_enable = false;
                self.state.config.write(&mut batch);
                batch.push(Action::Delay(100 * 240));
                self.state.config.power_disable = true;
                self.state.config.write(&mut batch);
                self.state.config.stv = false;
                self.state.config.write(&mut batch);
            },
            PinConfig::M5PaperS3(_) => {
                batch = M5PaperS3Control::power_control(false);
            },
        }
        self.state.stage = Stage::Plain;
        Step::Perform(batch)
    }

    /// Begins a frame.
    pub fn frame_start(&mut self) -> (step: Step)
        ensures
            (final(self).state(), step@) == old(self).state().starting_frame(),
            final(self).line() == old(self).line(),
    {
        let mut batch: Vec<Action> = Vec::new();
        match self.state.pins {
            PinConfig::LilyGoT5V23(_) => {
                self.state.config.mode = true;
                self.state.config.write(&mut batch);
                assert(batch@ =~= self.state.config.shift_out());
                batch.push(pulse(10, 10, true));
                self.state.stage = Stage::FrameMode;
            },
            PinConfig::M5PaperS3(_) => {
                batch = M5PaperS3Control::begin_transaction();
                self.state.stage = Stage::Plain;
            },
        }
        Step::Perform(batch)
    }

    /// Ends a frame.
    pub fn frame_end(&mut self) -> (step: Step)
        ensures
            (final(self).state(), step@) == old(self).state().ending_frame(),
            final(self).line() == old(self).line(),
    {
        let mut batch: Vec<Action> = Vec::new();
        match self.state.pins {
            PinConfig::LilyGoT5V23(_) => {
                self.state.config.output_enable = false;
                self.state.config.write(&mut batch);
                assert(batch@ =~= self.state.config.shift_out());
                self.state.config.mode = false;
                self.state.config.write(&mut batch);
                batch.push(pulse(10, 10, true));
                self.state.stage = Stage::FrameEnd;
            },
            PinConfig::M5PaperS3(_) => {
                batch = M5PaperS3Control::end_transaction();
                self.state.stage = Stage::Plain;
            },
        }
        Step::Perform(batch)
    }

    /// Advances the row driver by a row without data. On the M5PaperS3 this drives the stale
    /// latch onto the row that is skipped: clock a row of inert data instead.
    pub fn skip(&mut self) -> (step: Step)
        ensures
            (final(self).state(), step@) == old(self).state().skipping(),
            final(self).line() == old(self).line(),
    {
        let mut batch: Vec<Action> = Vec::new();
        match self.state.pins {
            PinConfig::LilyGoT5V23(_) => {
                batch.push(pulse(45, 5, false));
                self.state.stage = Stage::LastPulse;
            },
            PinConfig::M5PaperS3(_) => {
                batch = M5PaperS3Control::skip_line();
                self.state.stage = Stage::Plain;
            },
        }
        assert(batch@ =~= old(self).state().skipping().1->Perform_0);
        Step::Perform(batch)
    }

    /// Sends the loaded scanline to the panel and lets the row dwell for `output_time`
    /// ticks of 0.1 µs. The LilyGo's pulse generator counts at most 15 bits.
    pub fn output_row(&mut self, output_time: u16) -> (step: Step)
        requires
            old(self).state().pins is LilyGoT5V23 ==> output_time <= 0x7FFF,
        ensures
            (final(self).state(), step@) == old(self).state().starting_row(output_time),
            final(self).line() == old(self).line(),
    {
        let mut batch: Vec<Action> = Vec::new();
        match self.state.pins {
            PinConfig::LilyGoT5V23(_) => {
                self.state.config.latch_enable = true;
                self.state.config.write(&mut batch);
                assert(batch@ =~= self.state.config.shift_out());
                self.state.config.latch_enable = false;
                self.state.config.write(&mut batch);
                batch.push(pulse(output_time, 50, false));
            },
            PinConfig::M5PaperS3(_) => {
                batch = M5PaperS3Control::scanline_begin();
            },
        }
        self.state.stage = Stage::RowBegin { output_time };
        Step::Perform(batch)
    }

    /// Loads a scanline of at most [`LINE_BYTES`] bytes, padded with zeros.
    pub fn set_buffer(&mut self, data: &[u8]) -> (step: Step)
        ensures
            (final(self).state(), step@) == old(self).state().loading(data@),
            step@ is Perform ==> final(self).line() == scanline(old(self).state().pins, data@),
            !(step@ is Perform) ==> final(self).line() == old(self).line(),
    {
        if data.len() > LINE_BYTES {
            return Step::Failed(Error::OutOfBounds);
        }
        if !self.state.bus {
            return Step::Failed(Error::Unknown);
        }
        let n: usize = self.state.pins.line_bytes();
        let mut line: Vec<u8> = vec![0u8; n];
        let mut i: usize = 0;
        while i < data.len()
            invariant
                i <= data@.len() <= 240,
                n == self.state.pins.bytes_per_scanline(),
                line@.len() == n,
                forall|j: int|
                    0 <= j < n ==> #[trigger] line@[j] == (if j < i {
                        scanline(self.state.pins, data@)[j]
                    } else {
                        0
                    }),
            decreases data@.len() - i,
        {
            match self.state.pins {
                PinConfig::M5PaperS3(_) => {
                    line[i] = swizzle_papers3_byte(data[i]);
                },
                PinConfig::LilyGoT5V23(_) => {
                    line[i] = data[i];
                },
            }
            i = i + 1;
        }
        assert(line@ =~= scanline(self.state.pins, data@));
        self.line = line;
        self.state.stage = Stage::Plain;
        let batch: Vec<Action> = vec![Action::LoadLine];
        assert(batch@ =~= seq![Action::LoadLine]);
        Step::Perform(batch)
    }

    /// Does one thing that cannot fail, such as waiting for the panel to settle.
    pub fn perform(&mut self, action: Action) -> (step: Step)
        ensures
            (final(self).state(), step@) == old(self).state().doing(action),
            final(self).line() == old(self).line(),
    {
        self.state.stage = Stage::Plain;
        let batch: Vec<Action> = vec![action];
        assert(batch@ =~= seq![action]);
        Step::Perform(batch)
    }

    /// Goes on after a batch of actions.
    pub fn resume(&mut self, event: Event) -> (step: Step)
        ensures
            (final(self).state(), step@) == old(self).state().resumed(event),
            final(self).line() == old(self).line(),
    {
        match event {
            Event::Done { cycles } => self.resume_done(cycles),
            Event::Failed => self.resume_failed(),
        }
    }

    fn resume_done(&mut self, cycles: u32) -> (step: Step)
        ensures
            (final(self).state(), step@) == old(self).state().after_done(cycles),
            final(self).line() == old(self).line(),
    {
        match self.state.stage {
            Stage::Ready | Stage::Plain | Stage::LastPulse => {
                self.state.stage = Stage::Ready;
                Step::Completed
            },
            Stage::OpeningBuffer | Stage::OpeningBus => self.resume_opening(cycles),
            Stage::FrameMode
            | Stage::FrameStv
            | Stage::FrameReclaim
            | Stage::FrameGap
            | Stage::FrameEnd => self.resume_frame(cycles),
            Stage::RowBegin { .. } | Stage::RowSend { .. } => self.resume_sending(cycles),
            Stage::RowWait { .. } | Stage::RowReclaim { .. } => self.resume_sent(cycles),
        }
    }

    /// Goes on with bringing the hardware up.
    fn resume_opening(&mut self, cycles: u32) -> (step: Step)
        requires
            old(self).state().stage is OpeningBuffer || old(self).state().stage is OpeningBus,
        ensures
            (final(self).state(), step@) == old(self).state().after_done(cycles),
            final(self).line() == old(self).line(),
    {
        let mut batch: Vec<Action> = Vec::new();
        match self.state.stage {
            Stage::OpeningBuffer => {
                batch.push(Action::OpenBus(self.state.pins.setup()));
                self.state.stage = Stage::OpeningBus;
            },
            _ => {
                self.state.bus = true;
                self.pin_setup(&mut batch);
                self.state.stage = Stage::Plain;
            },
        }
        assert(batch@ =~= old(self).state().after_done(cycles).1->Perform_0);
        Step::Perform(batch)
    }

    /// Goes on with starting or ending a frame.
    fn resume_frame(&mut self, cycles: u32) -> (step: Step)
        requires
            old(self).state().stage is FrameMode || old(self).state().stage is FrameStv || old(
                self,
            ).state().stage is FrameReclaim || old(self).state().stage is FrameGap || old(
                self,
            ).state().stage is FrameEnd,
        ensures
            (final(self).state(), step@) == old(self).state().after_done(cycles),
            final(self).line() == old(self).line(),
    {
        let mut batch: Vec<Action> = Vec::new();
        match self.state.stage {
            Stage::FrameMode => {
                self.state.config.stv = false;
                self.state.config.write(&mut batch);
                assert(batch@ =~= self.state.config.shift_out());
                batch.push(Action::Delay(240));
                batch.push(pulse(100, 100, false));
                self.state.stage = Stage::FrameStv;
            },
            Stage::FrameStv => {
                self.state.config.stv = true;
                self.state.config.write(&mut batch);
                assert(batch@ =~= self.state.config.shift_out());
                batch.push(Action::ReclaimPulse);
                self.state.stage = Stage::FrameReclaim;
            },
            Stage::FrameReclaim => {
                batch.push(pulse(0, 100, true));
                self.state.stage = Stage::FrameGap;
            },
            Stage::FrameGap => {
                self.state.config.output_enable = true;
                self.state.config.write(&mut batch);
                assert(batch@ =~= self.state.config.shift_out());
                batch.push(pulse(10, 10, true));
                self.state.stage = Stage::LastPulse;
            },
            _ => {
                batch.push(pulse(10, 10, true));
                self.state.stage = Stage::LastPulse;
            },
        }
        assert(batch@ =~= old(self).state().after_done(cycles).1->Perform_0);
        Step::Perform(batch)
    }

    /// Goes on with a row up to its transfer.
    fn resume_sending(&mut self, cycles: u32) -> (step: Step)
        requires
            old(self).state().stage is RowBegin || old(self).state().stage is RowSend,
        ensures
            (final(self).state(), step@) == old(self).state().after_done(cycles),
            final(self).line() == old(self).line(),
    {
        let mut batch: Vec<Action> = Vec::new();
        match self.state.stage {
            Stage::RowBegin { output_time } => {
                if !self.state.bus {
                    self.state.stage = Stage::Ready;
                    return Step::Failed(Error::Unknown);
                }
                let command: Option<u8> = match self.state.pins {
                    PinConfig::LilyGoT5V23(_) => Some(0),
                    PinConfig::M5PaperS3(_) => None,
                };
                batch.push(Action::StartTransfer { command });
                self.state.stage = Stage::RowSend { output_time, start: cycles };
            },
            Stage::RowSend { output_time, start } => {
                self.state.bus = false;
                batch.push(Action::FinishTransfer);
                self.state.stage = Stage::RowWait { output_time, start };
            },
            _ => {},
        }
        assert(batch@ =~= old(self).state().after_done(cycles).1->Perform_0);
        Step::Perform(batch)
    }

    /// Goes on with a row after its transfer.
    fn resume_sent(&mut self, cycles: u32) -> (step: Step)
        requires
            old(self).state().stage is RowWait || old(self).state().stage is RowReclaim,
        ensures
            (final(self).state(), step@) == old(self).state().after_done(cycles),
            final(self).line() == old(self).line(),
    {
        let mut batch: Vec<Action> = Vec::new();
        match self.state.stage {
            Stage::RowWait { output_time, start } => {
                match self.state.pins {
                    PinConfig::LilyGoT5V23(_) => {
                        batch.push(Action::ReclaimPulse);
                        self.state.stage = Stage::RowReclaim { sent: true };
                    },
                    PinConfig::M5PaperS3(_) => {
                        self.state.bus = true;
                        batch = M5PaperS3Control::scanline_end(output_time, start, cycles);
                        self.state.stage = Stage::Plain;
                    },
                }
            },
            Stage::RowReclaim { sent } => {
                self.state.stage = Stage::Ready;
                if sent {
                    self.state.bus = true;
                    return Step::Completed;
                }
                return Step::Failed(Error::Dma);
            },
            _ => {},
        }
        assert(batch@ =~= old(self).state().after_done(cycles).1->Perform_0);
        Step::Perform(batch)
    }

    fn resume_failed(&mut self) -> (step: Step)
        ensures
            (final(self).state(), step@) == old(self).state().after_failure(),
            final(self).line() == old(self).line(),
    {
        let error: Error = match self.state.stage {
            Stage::Ready | Stage::Plain => Error::Unknown,
            Stage::OpeningBuffer => Error::DmaBuffer,
            Stage::OpeningBus => Error::I8080Config,
            Stage::LastPulse
            | Stage::FrameMode
            | Stage::FrameStv
            | Stage::FrameReclaim
            | Stage::FrameGap
            | Stage::FrameEnd
            | Stage::RowReclaim { .. } => Error::Rmt,
            Stage::RowBegin { .. } => match self.state.pins {
                PinConfig::LilyGoT5V23(_) => Error::Rmt,
                PinConfig::M5PaperS3(_) => Error::Unknown,
            },
            Stage::RowSend { .. } => Error::Dma,
            Stage::RowWait { .. } => {
                if let PinConfig::LilyGoT5V23(_) = self.state.pins {
                    self.state.stage = Stage::RowReclaim { sent: false };
                    let batch: Vec<Action> = vec![Action::ReclaimPulse];
                    assert(batch@ =~= seq![Action::ReclaimPulse]);
                    return Step::Perform(batch);
                }
                Error::Dma
            },
        };
        self.state.stage = Stage::Ready;
        Step::Failed(error)
    }

    fn pin_setup(&self, batch: &mut Vec<Action>)
        requires
            old(batch)@.len() == 0,
        ensures
            final(batch)@ == self.state().pin_setup(),
    {
        match self.state.pins {
            PinConfig::LilyGoT5V23(pins) => {
                batch.push(
                    Action::OpenPin {
                        signal: Signal::CfgData,
                        gpio: pins.cfg_data,
                        level: Level::High,
                    },
                );
                batch.push(
                    Action::OpenPin {
                        signal: Signal::CfgClk,
                        gpio: pins.cfg_clk,
                        level: Level::High,
                    },
                );
                batch.push(
                    Action::OpenPin {
                        signal: Signal::CfgStr,
                        gpio: pins.cfg_str,
                        level: Level::Low,
                    },
                );
                assert(batch@ =~= seq![
                    Action::OpenPin {
                        signal: Signal::CfgData,
                        gpio: pins.cfg_data,
                        level: Level::High,
                    },
                    Action::OpenPin {
                        signal: Signal::CfgClk,
                        gpio: pins.cfg_clk,
                        level: Level::High,
                    },
                    Action::OpenPin {
                        signal: Signal::CfgStr,
                        gpio: pins.cfg_str,
                        level: Level::Low,
                    },
                ]);
                self.state.config.write(batch);
                batch.push(Action::OpenPulse { gpio: pins.rmt });
            },
            PinConfig::M5PaperS3(pins) => {
                batch.push(
                    Action::OpenPin { signal: Signal::Pwr, gpio: pins.pwr, level: Level::Low },
                );
                batch.push(
                    Action::OpenPin { signal: Signal::Spv, gpio: pins.spv, level: Level::Low },
                );
                batch.push(
                    Action::OpenPin { signal: Signal::Oe, gpio: pins.oe, level: Level::Low },
                );
                batch.push(
                    Action::OpenPin { signal: Signal::Le, gpio: pins.le, level: Level::High },
                );
                batch.push(
                    Action::OpenPin { signal: Signal::Ckv, gpio: pins.ckv, level: Level::High },
                );
                assert(batch@ =~= self.state().pin_setup());
            },
        }
    }
}

} // verus!
