//! The words in which the library talks to the hardware: the boards and their pins, what
//! the hardware is asked to do, and what it reports back.

use vstd::prelude::*;

use crate::error::Error;

verus! {

/// Bytes of pixel data per scanline (960px @ 2bpp).
pub const LINE_BYTES: usize = 240;

/// Dummy bytes that the M5PaperS3 clocks after each scanline, plus the scanline.
pub const PAPER_S3_LINE_BYTES: usize = 248;

/// The DMA buffer must fit the largest scanline of any supported board.
pub const DMA_BUFFER_SIZE: usize = 248;

/// LilyGo T5 4.7" V2.3 pin assignment, as GPIO numbers.
#[derive(Clone, Copy, Debug, PartialEq, Eq)]
pub struct LilyGoT5V23Pins {
    pub data0: u8,
    pub data1: u8,
    pub data2: u8,
    pub data3: u8,
    pub data4: u8,
    pub data5: u8,
    pub data6: u8,
    pub data7: u8,
    pub cfg_data: u8,
    pub cfg_clk: u8,
    pub cfg_str: u8,
    pub lcd_dc: u8,
    pub lcd_wrx: u8,
    pub rmt: u8,
}

/// M5Stack PaperS3 pin assignment, as GPIO numbers chosen by the caller.
#[derive(Clone, Copy, Debug, PartialEq, Eq)]
pub struct M5PaperS3Pins {
    pub data0: u8,
    pub data1: u8,
    pub data2: u8,
    pub data3: u8,
    pub data4: u8,
    pub data5: u8,
    pub data6: u8,
    pub data7: u8,
    /// SPH (start pulse horizontal) - the bus's `CS` pin.
    pub sph: u8,
    /// CL (pixel clock) - the bus's `WRX` pin.
    pub cl: u8,
    /// CKV (vertical clock).
    pub ckv: u8,
    /// SPV / STV (start pulse vertical).
    pub spv: u8,
    /// LE (latch enable).
    pub le: u8,
    /// OE (output enable).
    pub oe: u8,
    /// EPD power enable.
    pub pwr: u8,
}

/// Pin configuration for supported boards.
#[derive(Clone, Copy, Debug, PartialEq, Eq)]
pub enum PinConfig {
    LilyGoT5V23(LilyGoT5V23Pins),
    M5PaperS3(M5PaperS3Pins),
}

impl LilyGoT5V23Pins {
    /// The fixed wiring of the LilyGo T5 4.7" V2.3.
    pub fn new() -> (pins: Self)
        ensures
            pins == (LilyGoT5V23Pins {
                data0: 8,
                data1: 1,
                data2: 2,
                data3: 3,
                data4: 4,
                data5: 5,
                data6: 6,
                data7: 7,
                cfg_data: 13,
                cfg_clk: 12,
                cfg_str: 0,
                lcd_dc: 40,
                lcd_wrx: 41,
                rmt: 38,
            }),
    {
        LilyGoT5V23Pins {
            data0: 8,
            data1: 1,
            data2: 2,
            data3: 3,
            data4: 4,
            data5: 5,
            data6: 6,
            data7: 7,
            cfg_data: 13,
            cfg_clk: 12,
            cfg_str: 0,
            lcd_dc: 40,
            lcd_wrx: 41,
            rmt: 38,
        }
    }
}

/// Level of an output pin.
#[derive(Clone, Copy, Debug, PartialEq, Eq)]
pub enum Level {
    Low,
    High,
}

/// The control lines that are driven directly.
#[derive(Clone, Copy, Debug, PartialEq, Eq)]
pub enum Signal {
    /// Data line of the LilyGo config shift register.
    CfgData,
    /// Clock line of the LilyGo config shift register.
    CfgClk,
    /// Strobe line of the LilyGo config shift register.
    CfgStr,
    /// M5PaperS3 panel power.
    Pwr,
    /// M5PaperS3 vertical start pulse.
    Spv,
    /// M5PaperS3 output enable.
    Oe,
    /// M5PaperS3 latch enable.
    Le,
    /// M5PaperS3 vertical clock.
    Ckv,
}

/// The levels of the bus's command/data line in its four phases.
#[derive(Clone, Copy, Debug, PartialEq, Eq)]
pub struct CdEdges {
    pub idle: bool,
    pub cmd: bool,
    pub dummy: bool,
    pub data: bool,
}

/// How the parallel data bus is configured and which GPIO each of its lines uses.
#[derive(Clone, Copy, Debug, PartialEq, Eq)]
pub struct BusSetup {
    pub frequency_mhz: u32,
    /// `None` leaves the bus's own defaults.
    pub cd_edges: Option<CdEdges>,
    pub dc: Option<u8>,
    pub cs: Option<u8>,
    pub wrx: u8,
    pub data0: u8,
    pub data1: u8,
    pub data2: u8,
    pub data3: u8,
    pub data4: u8,
    pub data5: u8,
    pub data6: u8,
    pub data7: u8,
}

/// One thing for the hardware to do.
#[derive(Clone, Copy, Debug, PartialEq, Eq)]
pub enum Action {
    /// Set up a DMA buffer of that many bytes. Can fail.
    AllocateLine(usize),
    /// Configure the parallel bus. Can fail.
    OpenBus(BusSetup),
    /// Turn a GPIO into an output for a control line.
    OpenPin { signal: Signal, gpio: u8, level: Level },
    /// Claim the pulse generator for the vertical clock on that GPIO.
    OpenPulse { gpio: u8 },
    /// Drive a control line.
    SetPin(Signal, Level),
    /// Busy-wait for that many CPU cycles.
    Delay(u32),
    /// Wait for that many microseconds.
    DelayMicros(u32),
    /// Wait for that many milliseconds.
    DelayMillis(u32),
    /// Emit one pulse: high, then low, for that many ticks; then, if `wait`, wait for its
    /// end. Can fail.
    Pulse { high: u16, low: u16, wait: bool },
    /// If a pulse is still being emitted, wait for its end. Can fail.
    ReclaimPulse,
    /// Copy the line buffer into the DMA buffer.
    LoadLine,
    /// Start sending the DMA buffer, behind a command byte if there is one. Can fail.
    StartTransfer { command: Option<u8> },
    /// Wait for the end of the transfer. Can fail.
    FinishTransfer,
}

/// What became of a batch of actions.
#[derive(Clone, Copy, Debug, PartialEq, Eq)]
pub enum Event {
    /// All actions were performed; the CPU cycle counter now reads `cycles`.
    Done { cycles: u32 },
    /// The last action failed.
    Failed,
}

/// What is to be done next.
#[derive(Debug, PartialEq, Eq)]
pub enum Step {
    /// Perform these actions, in order, and report back.
    Perform(Vec<Action>),
    /// The operation is finished.
    Completed,
    /// The operation was given up.
    Failed(Error),
}

/// The mathematical content of a [`Step`].
pub enum Reply {
    Perform(Seq<Action>),
    Completed,
    Failed(Error),
}

impl View for Step {
    type V = Reply;

    open spec fn view(&self) -> Reply {
        match *self {
            Step::Perform(actions) => Reply::Perform(actions@),
            Step::Completed => Reply::Completed,
            Step::Failed(e) => Reply::Failed(e),
        }
    }
}

impl PinConfig {
    /// The bus configuration of a board. The LilyGo's data lines are physically swizzled;
    /// the PaperS3 has SPH on the chip select line and no data/command line.
    pub open spec fn bus_setup(self) -> BusSetup {
        match self {
            PinConfig::LilyGoT5V23(pins) => BusSetup {
                frequency_mhz: 10,
                cd_edges: Some(CdEdges { idle: false, cmd: true, dummy: false, data: false }),
                dc: Some(pins.lcd_dc),
                cs: None,
                wrx: pins.lcd_wrx,
                data0: pins.data6,
                data1: pins.data7,
                data2: pins.data4,
                data3: pins.data5,
                data4: pins.data2,
                data5: pins.data3,
                data6: pins.data0,
                data7: pins.data1,
            },
            PinConfig::M5PaperS3(pins) => BusSetup {
                frequency_mhz: 20,
                cd_edges: None,
                dc: None,
                cs: Some(pins.sph),
                wrx: pins.cl,
                data0: pins.data0,
                data1: pins.data1,
                data2: pins.data2,
                data3: pins.data3,
                data4: pins.data4,
                data5: pins.data5,
                data6: pins.data6,
                data7: pins.data7,
            },
        }
    }

    /// Bytes sent per scanline.
    pub open spec fn bytes_per_scanline(self) -> nat {
        match self {
            PinConfig::LilyGoT5V23(_) => 240,
            PinConfig::M5PaperS3(_) => 248,
        }
    }

    /// The bus configuration of a board.
    pub fn setup(&self) -> (setup: BusSetup)
        ensures
            setup == self.bus_setup(),
    {
        match *self {
            PinConfig::LilyGoT5V23(pins) => BusSetup {
                frequency_mhz: 10,
                cd_edges: Some(CdEdges { idle: false, cmd: true, dummy: false, data: false }),
                dc: Some(pins.lcd_dc),
                cs: None,
                wrx: pins.lcd_wrx,
                data0: pins.data6,
                data1: pins.data7,
                data2: pins.data4,
                data3: pins.data5,
                data4: pins.data2,
                data5: pins.data3,
                data6: pins.data0,
                data7: pins.data1,
            },
            PinConfig::M5PaperS3(pins) => BusSetup {
                frequency_mhz: 20,
                cd_edges: None,
                dc: None,
                cs: Some(pins.sph),
                wrx: pins.cl,
                data0: pins.data0,
                data1: pins.data1,
                data2: pins.data2,
                data3: pins.data3,
                data4: pins.data4,
                data5: pins.data5,
                data6: pins.data6,
                data7: pins.data7,
            },
        }
    }

    /// Bytes sent per scanline.
    pub fn line_bytes(&self) -> (n: usize)
        ensures
            n == self.bytes_per_scanline(),
    {
        match *self {
            PinConfig::LilyGoT5V23(_) => LINE_BYTES,
            PinConfig::M5PaperS3(_) => PAPER_S3_LINE_BYTES,
        }
    }
}

} // verus!
