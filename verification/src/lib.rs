//! Driver logic for the LilyGo T5 4.7" (V2.3) and M5Stack PaperS3 e-paper displays.
//!
//! The library holds the framebuffers and decides, step by step, what the hardware has to
//! do: it turns drawing operations into panel calls ([`tasks`]), and panel calls into
//! batches of hardware actions ([`ed047tc1`]). Whoever owns the hardware performs each batch
//! and reports what became of it, with [`Display::step`], until the operation has ended.

pub mod display;
pub mod ed047tc1;
pub mod error;
pub mod hardware;
pub mod history;
pub mod laws;
pub mod lut;
pub mod pixels;
pub mod shown;
pub mod tables;
pub mod tasks;
pub mod types;
pub mod waveform;
pub mod wiring;

pub use crate::display::{Display, Gray2Canvas};
pub use crate::ed047tc1::ED047TC1;
pub use crate::error::Error;
pub use crate::hardware::{
    Action, BusSetup, CdEdges, Event, Level, LilyGoT5V23Pins, M5PaperS3Pins, PinConfig, Signal,
    Step,
};
pub use crate::types::{DisplayRotation, DrawMode, Rectangle};
pub use crate::waveform::{Mode5Waveform, Phase};
