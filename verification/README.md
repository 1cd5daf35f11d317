# lilygo-epd47

Verified driver logic for the LilyGo T5 4.7" (V2.3) and M5Stack PaperS3 e-paper displays, both
960 x 540 pixels on an ESP32-S3.

The library in `src/` never touches hardware. It keeps the framebuffers (16 grays, and an optional
pair of 4-gray frames for flicker-free partial updates) and decides what the hardware has to do:

- `display`: the framebuffers and the operations on them. Operations that involve the panel are
  carried out by `Display::step`, which hands out batches of hardware actions and is told what
  became of them.
- `tasks`: what each operation consists of, as frames, rows and scanlines.
- `ed047tc1`: what each panel call does to the pins, the pulse generator and the data bus of the
  two boards, and how faults are handled.
- `hardware`: boards, pins, actions and events.
- `lut`, `waveform`, `pixels`: the tables that turn gray levels into push codes, and the packing of
  pixels into bytes.
- `history`: what can happen to a display in its lifetime, and what holds in all of it.
- `laws`: what else holds of the library as a whole.

The phases of a calibrated grayscale waveform are data of the panel; they are handed to
`Display::flush_waveform`.

`app/` performs the actions with `esp-hal`, and offers the operations as plain calls.

```rust
let mut display = Display::new(pins, peripherals.DMA_CH0, peripherals.LCD_CAM, peripherals.RMT)?;
display.power_on();
display.clear()?;
display.set_pixel(10, 20, 0x0)?;
display.flush(DrawMode::BlackOnWhite)?;
display.power_off();
```
