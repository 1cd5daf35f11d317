//! What holds of the library as a whole.

use vstd::prelude::*;

use crate::display;
use crate::display::{After, DisplayModel};
use crate::ed047tc1;
use crate::ed047tc1::{ConfigRegister, PanelState, Stage};
use crate::error::Error;
use crate::hardware::{Action, Event, PinConfig, Reply};
use crate::lut;
use crate::pixels;
use crate::tasks;
use crate::tasks::{Call, Images, Place, Task};
use crate::types::{DrawMode, Rectangle};
use crate::waveform;

verus! {

/// Frames of 4-bpp pixels that agree in every pixel are the same frame.
pub proof fn law_pixels_determine_frame4(a: Seq<u8>, b: Seq<u8>)
    requires
        a.len() == 259200,
        b.len() == 259200,
        forall|x: int, y: int|
            0 <= x < 960 && 0 <= y < 540 ==> #[trigger] pixels::gray4(a, x, y) == pixels::gray4(
                b,
                x,
                y,
            ),
    ensures
        a == b,
{
    assert forall|i: int| 0 <= i < 259200 implies a[i] == b[i] by {
        let y = i / 480;
        let x = 2 * (i % 480);
        assert(pixels::gray4(a, x, y) == pixels::gray4(b, x, y));
        assert(pixels::gray4(a, x + 1, y) == pixels::gray4(b, x + 1, y));
        assert(x / 2 == i % 480 && (x + 1) / 2 == i % 480);
        assert(y * 480 + i % 480 == i);
    }
    assert(a =~= b);
}

/// Frames of 2-bpp pixels that agree in every pixel are the same frame.
pub proof fn law_pixels_determine_frame2(a: Seq<u8>, b: Seq<u8>)
    requires
        a.len() == 129600,
        b.len() == 129600,
        forall|x: int, y: int|
            0 <= x < 960 && 0 <= y < 540 ==> #[trigger] pixels::gray2(a, x, y) == pixels::gray2(
                b,
                x,
                y,
            ),
    ensures
        a == b,
{
    assert forall|i: int| 0 <= i < 129600 implies a[i] == b[i] by {
        let y = i / 240;
        let x = 4 * (i % 240);
        assert(pixels::gray2(a, x, y) == pixels::gray2(b, x, y));
        assert(pixels::gray2(a, x + 1, y) == pixels::gray2(b, x + 1, y));
        assert(pixels::gray2(a, x + 2, y) == pixels::gray2(b, x + 2, y));
        assert(pixels::gray2(a, x + 3, y) == pixels::gray2(b, x + 3, y));
        assert(y * 240 + i % 240 == i);
        pixels::lemma_pack_of_slots(a[i]);
        pixels::lemma_pack_of_slots(b[i]);
    }
    assert(a =~= b);
}

/// Re-anchoring gives every pixel a quarter of its gray.
pub proof fn law_quantised_pixel(frame: Seq<u8>, x: int, y: int)
    requires
        frame.len() == 259200,
        0 <= x < 960,
        0 <= y < 540,
    ensures
        pixels::gray2(display::quantised(frame), x, y) == pixels::gray4(frame, x, y) / 4,
{
    let b = y * 240 + x / 4;
    assert(0 <= b < 129600);
    pixels::lemma_slot_of_pack(
        pixels::nibble(frame[2 * b], 0) / 4,
        pixels::nibble(frame[2 * b], 1) / 4,
        pixels::nibble(frame[2 * b + 1], 0) / 4,
        pixels::nibble(frame[2 * b + 1], 1) / 4,
    );
    assert(y * 480 + x / 2 == 2 * b + (x % 4) / 2);
}

/// A partial update leaves a pixel alone whose level has not changed.
pub proof fn law_partial_leaves_unchanged_pixels(images: Images, gray: bool, x: int, y: int)
    requires
        pixels::gray2(images.fb2, x, y) == pixels::gray2(images.prev2, x, y),
    ensures
        (Task::Gray2Partial { gray }).pixel_code(images, x, y) == 0b11,
{
    let v = pixels::gray2(images.fb2, x, y);
    assert(v < 4);
}

/// Every 4-gray, matrix or waveform frame gives every pixel a true push code or the inert
/// code `0b11`, never `0b00` (which darkens).
pub proof fn law_no_neutral_code(task: Task, images: Images, x: int, y: int)
    requires
        task.drives_every_row(),
        !(task is Draw),
        task matches Task::Matrix { pass } ==> pass < 8,
    ensures
        1 <= task.pixel_code(images, x, y) <= 3,
{
    assert(pixels::gray2(images.fb2, x, y) < 4);
    assert(pixels::gray2(images.prev2, x, y) < 4);
    assert(pixels::gray4(images.framebuffer, x, y) < 16);
}

/// Every matrix pass drives every pixel.
pub proof fn law_matrix_drives_every_pixel(pass: u8, images: Images, x: int, y: int)
    requires
        pass < 8,
    ensures
        ({
            let code = (Task::Matrix { pass }).pixel_code(images, x, y);
            code == 1 || code == 2
        }),
{
    assert(pixels::gray4(images.framebuffer, x, y) < 16);
}

/// A draw drives a pixel in one direction only, and for as many sub-frames as its gray is
/// away from the level that is not driven at all: 15 - gray towards black or on white, gray
/// towards white on black. In particular the white of a black-on-white draw is untouched.
pub proof fn law_draw_time(mode: DrawMode, k: usize, images: Images, x: int, y: int)
    requires
        k < 15,
    ensures
        ({
            let gray = pixels::gray4(images.framebuffer, x, y) as int;
            let driven = match mode {
                DrawMode::WhiteOnBlack => gray,
                _ => 15 - gray,
            };
            (Task::Draw { mode, k }).pixel_code(images, x, y) == (if k < driven {
                mode.push_code()
            } else {
                0
            })
        }),
{
    assert(pixels::gray4(images.framebuffer, x, y) < 16);
}

/// Reversing the pixels of a byte twice gives the byte back.
pub proof fn law_swizzle_involution(b: u8)
    ensures
        ed047tc1::swizzled(ed047tc1::swizzled(b)) == b,
{
    pixels::lemma_pack_of_slots(b);
    pixels::lemma_slot_of_pack(
        pixels::slot(b, 3),
        pixels::slot(b, 2),
        pixels::slot(b, 1),
        pixels::slot(b, 0),
    );
}

/// On the M5PaperS3 a scanline has the pixels of each byte in the opposite order; on the
/// LilyGo it is the data; what is beyond the data is zero.
pub proof fn law_scanline_order(pins: PinConfig, data: Seq<u8>, b: int, j: int)
    requires
        data.len() <= 240,
        0 <= b < pins.bytes_per_scanline(),
        0 <= j < 4,
    ensures
        pixels::slot(ed047tc1::scanline(pins, data)[b], j) == (if b >= data.len() {
            0
        } else if pins is M5PaperS3 {
            pixels::slot(data[b], 3 - j)
        } else {
            pixels::slot(data[b], j)
        }),
{
    if b < data.len() {
        pixels::lemma_pack_of_slots(data[b]);
        pixels::lemma_slot_of_pack(
            pixels::slot(data[b], 3),
            pixels::slot(data[b], 2),
            pixels::slot(data[b], 1),
            pixels::slot(data[b], 0),
        );
    }
}

/// Reordering a line twice gives the line back.
pub proof fn law_reorder_involution(data: Seq<u8>)
    ensures
        lut::reordered_line(lut::reordered_line(data)) == data,
{
    assert(lut::reordered_line(lut::reordered_line(data)) =~= data);
}

/// A flashing clear is balanced: every push to black is followed, four pushes later, by a
/// push of the same area to white for the same time, and there are no other pushes.
pub proof fn law_clear_is_balanced(area: Rectangle, cycles: nat, time: u16, i: int)
    requires
        0 <= i < 4 * cycles,
    ensures
        ({
            let black = 8 * (i / 4) + i % 4;
            let all = tasks::clear_tasks(area, cycles, time);
            &&& all.len() == 8 * cycles
            &&& all[black] == Task::Push { area, time, color: 0, pause: false }
            &&& all[black + 4] == Task::Push { area, time, color: 1, pause: false }
        }),
{
}

/// The rows that a sequence of calls puts on the panel, from the first row of a frame on:
/// each with its scanline and its dwell. `loaded` is the scanline loaded before.
pub open spec fn rows_shown(calls: Seq<Call>, loaded: Seq<u8>) -> Seq<(Seq<u8>, u16)>
    decreases calls.len(),
{
    if calls.len() == 0 {
        seq![]
    } else {
        match calls[0] {
            Call::SetBuffer(line) => rows_shown(calls.skip(1), line),
            Call::OutputRow(time) => seq![(loaded, time)] + rows_shown(calls.skip(1), loaded),
            _ => rows_shown(calls.skip(1), loaded),
        }
    }
}

proof fn lemma_rows_shown_tail(calls: Seq<Call>, n: int, loaded: Seq<u8>)
    requires
        0 <= n <= calls.len(),
        forall|i: int|
            n <= i < calls.len() ==> !(#[trigger] calls[i] is SetBuffer) && !(
            calls[i] is OutputRow),
    ensures
        rows_shown(calls.skip(n), loaded) == Seq::<(Seq<u8>, u16)>::empty(),
    decreases calls.len() - n,
{
    if n < calls.len() {
        assert(calls.skip(n).skip(1) =~= calls.skip(n + 1));
        assert(calls.skip(n)[0] == calls[n]);
        lemma_rows_shown_tail(calls, n + 1, loaded);
    }
}

proof fn lemma_driven_rows(task: Task, images: Images, y: int, loaded: Seq<u8>)
    requires
        task.drives_every_row(),
        0 <= y <= 540,
    ensures
        rows_shown(task.calls(images).skip(1 + 2 * y), loaded) == Seq::new(
            (540 - y) as nat,
            |i: int| (task.line(images, y + i), task.dwell()),
        ),
    decreases 540 - y,
{
    let calls = task.calls(images);
    let rest = Seq::new((540 - y) as nat, |i: int| (task.line(images, y + i), task.dwell()));
    tasks::lemma_frame_calls(task, images);
    if y == 540 {
        assert forall|i: int| 1081 <= i < calls.len() implies !(#[trigger] calls[i] is SetBuffer)
            && !(calls[i] is OutputRow) by {
            if i > 1081 {
                assert(i == 1082);
            }
        }
        lemma_rows_shown_tail(calls, 1081, loaded);
        assert(rest =~= seq![]);
    } else {
        let line = task.line(images, y);
        assert(calls[2 * y + 1] == task.rows(images)[2 * y]);
        assert(calls[(2 * y + 1) + 1] == task.rows(images)[2 * y + 1]);
        let a = calls.skip(1 + 2 * y);
        let b = calls.skip(2 + 2 * y);
        assert(a[0] == Call::SetBuffer(line));
        assert(b[0] == Call::OutputRow(task.dwell()));
        assert(a.skip(1) =~= b);
        assert(b.skip(1) =~= calls.skip(1 + 2 * (y + 1)));
        lemma_driven_rows(task, images, y + 1, line);
        let tail = Seq::new(
            (540 - (y + 1)) as nat,
            |i: int| (task.line(images, y + 1 + i), task.dwell()),
        );
        let c = calls.skip(1 + 2 * (y + 1));
        assert(rows_shown(c, line) =~= tail);
        assert(rows_shown(b, line) == seq![(line, task.dwell())] + rows_shown(c, line));
        assert(rows_shown(a, loaded) == rows_shown(b, line));
        assert(rest =~= seq![(line, task.dwell())] + tail);
    }
}

/// Every frame but a push puts, whatever was loaded before, each of the 540 rows on the
/// panel exactly once and in order, each with its own scanline.
pub proof fn law_every_row_is_driven(task: Task, images: Images, loaded: Seq<u8>)
    requires
        task.drives_every_row(),
    ensures
        rows_shown(task.calls(images), loaded) == Seq::new(
            540,
            |y: int| (task.line(images, y), task.dwell()),
        ),
{
    let calls = task.calls(images);
    tasks::lemma_frame_calls(task, images);
    lemma_driven_rows(task, images, 0, loaded);
    assert(Seq::new(540, |y: int| (task.line(images, y), task.dwell())) =~= Seq::new(
        540,
        |i: int| (task.line(images, 0 + i), task.dwell()),
    ));
}

/// What row `y` of a push shows.
pub open spec fn pushed_row(area: Rectangle, time: u16, color: u16, y: int) -> (Seq<u8>, u16) {
    if y < area.y {
        (tasks::inert_line(), 1)
    } else {
        (tasks::push_line(area, color), time)
    }
}

proof fn lemma_pushed_rows(task: Task, images: Images, row: u16, loaded: Seq<u8>)
    requires
        task is Push,
        row <= tasks::push_end(task->area),
        row < tasks::push_end(task->area) && row != 0 && row != task->area.y ==> loaded
            == pushed_row(task->area, task->time, task->color, row as int).0,
    ensures
        rows_shown(
            task.calls(images).skip(
                tasks::calls_before(task, images, Place::Row { row, loaded: false }),
            ),
            loaded,
        ) == Seq::new(
            (tasks::push_end(task->area) - row) as nat,
            |i: int| pushed_row(task->area, task->time, task->color, row + i),
        ),
    decreases tasks::push_end(task->area) - row,
{
    let area = task->area;
    let time = task->time;
    let color = task->color;
    let calls = task.calls(images);
    let n = tasks::calls_before(task, images, Place::Row { row, loaded: false });
    let end = tasks::push_end(area);
    let rest = Seq::new((end - row) as nat, |i: int| pushed_row(area, time, color, row + i));
    tasks::lemma_frame_calls(task, images);
    tasks::lemma_push_rows(task, images, row, false);
    if row == end {
        assert forall|i: int| n <= i < calls.len() implies !(#[trigger] calls[i] is SetBuffer)
            && !(calls[i] is OutputRow) by {
            if i > n {
                assert(i == n + 1);
            }
        }
        lemma_rows_shown_tail(calls, n, loaded);
        assert(rest =~= seq![]);
    } else {
        let next_row = (row + 1) as u16;
        let this = pushed_row(area, time, color, row as int);
        let tail = Seq::new(
            (end - next_row) as nat,
            |i: int| pushed_row(area, time, color, next_row + i),
        );
        assert(rest =~= seq![this] + tail);
        assert(calls[(n - 1) + 1] == task.rows(images)[n - 1]);
        if row != 0 && row != area.y {
            lemma_pushed_rows(task, images, next_row, loaded);
            assert(calls.skip(n)[0] == calls[n]);
            assert(calls.skip(n).skip(1) =~= calls.skip(n + 1));
            assert(rows_shown(calls.skip(n + 1), loaded) =~= tail);
            assert(rows_shown(calls.skip(n), loaded) == seq![this] + rows_shown(
                calls.skip(n + 1),
                loaded,
            ));
        } else {
            tasks::lemma_push_rows(task, images, row, true);
            assert(calls[n + 1] == task.rows(images)[n]);
            lemma_pushed_rows(task, images, next_row, this.0);
            assert(calls.skip(n)[0] == calls[n]);
            assert(calls.skip(n).skip(1) =~= calls.skip(n + 1));
            assert(calls.skip(n + 1)[0] == calls[n + 1]);
            assert(calls.skip(n + 1).skip(1) =~= calls.skip(n + 2));
            assert(rows_shown(calls.skip(n + 2), this.0) =~= tail);
            assert(rows_shown(calls.skip(n + 1), this.0) == seq![this] + rows_shown(
                calls.skip(n + 2),
                this.0,
            ));
            assert(rows_shown(calls.skip(n), loaded) == rows_shown(calls.skip(n + 1), this.0));
        }
    }
}

/// Pushing an area clocks the rows above it with inert data, its own rows with its
/// scanline, and no row below it.
pub proof fn law_push_rows(task: Task, images: Images, loaded: Seq<u8>)
    requires
        task is Push,
    ensures
        rows_shown(task.calls(images), loaded) == Seq::new(
            tasks::push_end(task->area) as nat,
            |y: int| pushed_row(task->area, task->time, task->color, y),
        ),
{
    let calls = task.calls(images);
    tasks::lemma_frame_calls(task, images);
    lemma_pushed_rows(task, images, 0, loaded);
    assert(calls.skip(1) == calls.skip(
        tasks::calls_before(task, images, Place::Row { row: 0, loaded: false }),
    ));
    assert(Seq::new(
        tasks::push_end(task->area) as nat,
        |i: int| pushed_row(task->area, task->time, task->color, 0 + i),
    ) =~= Seq::new(
        tasks::push_end(task->area) as nat,
        |y: int| pushed_row(task->area, task->time, task->color, y),
    ));
}

/// A whole operation: steps are taken as long as there is something to perform, one per
/// event. The result is where it stands and the last reply.
pub open spec fn run(m: DisplayModel, events: Seq<Event>) -> (DisplayModel, Reply)
    decreases events.len(),
{
    if events.len() == 0 {
        (m, Reply::Perform(seq![]))
    } else {
        let (next, reply) = m.stepped(events[0]);
        if reply is Perform {
            run(next, events.skip(1))
        } else {
            (next, reply)
        }
    }
}

/// The panel calls that are made in the course of an operation.
pub open spec fn calls_made(m: DisplayModel, events: Seq<Event>) -> Seq<Call>
    decreases events.len(),
{
    if events.len() == 0 {
        seq![]
    } else {
        let (next, reply) = m.stepped(events[0]);
        let made = if m.panel.resumed(events[0]).1 is Completed && m.pending.len() > 0 {
            seq![m.pending[0]]
        } else {
            seq![]
        };
        if reply is Perform {
            made + calls_made(next, events.skip(1))
        } else {
            made
        }
    }
}

/// The frames and the rotation of two models are the same.
pub open spec fn same_frames(a: DisplayModel, b: DisplayModel) -> bool {
    &&& a.framebuffer == b.framebuffer
    &&& a.fb2 == b.fb2
    &&& a.prev2 == b.prev2
    &&& a.rotation == b.rotation
}

/// How an operation ends, whatever the hardware reports. As long as it goes on, the frames
/// stay as they are. If it fails, they stay, too. If it is completed, its after-effect has
/// taken place. Either way, the display is idle afterwards.
pub proof fn law_operation_outcome(m: DisplayModel, events: Seq<Event>)
    ensures
        ({
            let (end, reply) = run(m, events);
            &&& reply is Perform ==> same_frames(m, end) && end.after == m.after
            &&& reply is Completed ==> end.idle() && same_frames(m.finished(), end)
            &&& reply is Failed ==> end.idle() && same_frames(m, end)
        }),
    decreases events.len(),
{
    if events.len() > 0 {
        let (next, reply) = m.stepped(events[0]);
        if reply is Perform {
            law_operation_outcome(next, events.skip(1));
        }
    }
}

/// An operation makes its pending calls in order. When it is completed, it has made them
/// all.
pub proof fn law_operation_makes_its_calls(m: DisplayModel, events: Seq<Event>)
    ensures
        ({
            let (end, reply) = run(m, events);
            let made = calls_made(m, events);
            &&& made.len() <= m.pending.len()
            &&& made == m.pending.take(made.len() as int)
            &&& reply is Perform ==> end.pending == m.pending.skip(made.len() as int)
            &&& reply is Completed ==> made == m.pending
        }),
    decreases events.len(),
{
    let made = calls_made(m, events);
    if events.len() == 0 {
        assert(made =~= m.pending.take(0));
        assert(m.pending =~= m.pending.skip(0));
    } else {
        let (next, reply) = m.stepped(events[0]);
        let completed = m.panel.resumed(events[0]).1 is Completed;
        if reply is Perform {
            law_operation_makes_its_calls(next, events.skip(1));
            let later = calls_made(next, events.skip(1));
            if completed {
                assert(next.pending == m.pending.skip(1));
                assert(made =~= seq![m.pending[0]] + later);
                assert(made =~= m.pending.take(made.len() as int));
                assert(next.pending.skip(later.len() as int) =~= m.pending.skip(
                    made.len() as int,
                ));
            } else {
                assert(next.pending == m.pending);
                assert(made =~= later);
            }
        } else {
            assert(made =~= m.pending.take(made.len() as int));
        }
    }
}

/// How many more batches the panel controller can ask for within a call.
pub open spec fn batches_left(stage: Stage) -> nat {
    match stage {
        Stage::Ready => 0,
        Stage::Plain | Stage::LastPulse | Stage::RowReclaim { .. } => 1,
        Stage::OpeningBus | Stage::FrameGap | Stage::FrameEnd | Stage::RowWait { .. } => 2,
        Stage::OpeningBuffer | Stage::FrameReclaim | Stage::RowSend { .. } => 3,
        Stage::FrameStv | Stage::RowBegin { .. } => 4,
        Stage::FrameMode => 5,
    }
}

/// A bound for the number of batches that an operation still asks for.
pub open spec fn work_left(m: DisplayModel) -> nat {
    6 * m.pending.len() + batches_left(m.panel.stage)
}

/// Every operation ends, whatever the hardware reports: after more events than there is
/// work left, it is completed or has failed.
pub proof fn law_every_operation_ends(m: DisplayModel, events: Seq<Event>)
    requires
        events.len() > work_left(m),
    ensures
        !(run(m, events).1 is Perform),
    decreases events.len(),
{
    let (next, reply) = m.stepped(events[0]);
    if reply is Perform {
        assert(work_left(next) < work_left(m));
        law_every_operation_ends(next, events.skip(1));
    }
}

/// The scanlines that are going to be loaded have the right length.
pub open spec fn lines_fit(calls: Seq<Call>) -> bool {
    forall|i: int|
        0 <= i < calls.len() ==> (#[trigger] calls[i] matches Call::SetBuffer(line) ==> line.len()
            <= 240)
}

/// The data bus is where it belongs at this stage: at hand, to be opened, or in a transfer
/// that has not failed.
pub open spec fn bus_kept(p: PanelState) -> bool {
    match p.stage {
        Stage::OpeningBuffer | Stage::OpeningBus | Stage::RowWait { .. } => true,
        Stage::RowReclaim { sent } => sent,
        _ => p.bus,
    }
}

/// The data bus is where it belongs at this point of the operation.
pub open spec fn bus_sound(m: DisplayModel) -> bool {
    bus_kept(m.panel) || (m.panel.stage == Stage::Ready && m.pending.len() > 0 && m.pending[0]
        == Call::BringUp)
}

/// A call of a ready controller that has its bus, or is to get it, is not refused.
proof fn lemma_faultless_call(p: PanelState, call: Call)
    requires
        p.stage == Stage::Ready,
        p.bus || call == Call::BringUp,
        call matches Call::SetBuffer(line) ==> line.len() <= 240,
    ensures
        ({
            let (next, reply) = call.answered_by(p);
            &&& reply is Perform
            &&& bus_kept(next)
            &&& next.stage != Stage::Ready
            &&& batches_left(next.stage) < 6
        }),
{
}

/// A batch that is performed brings the call closer to its end.
proof fn lemma_faultless_batch(p: PanelState, cycles: u32)
    requires
        p.stage != Stage::Ready,
        bus_kept(p),
    ensures
        ({
            let (next, reply) = p.after_done(cycles);
            &&& reply is Perform || reply is Completed
            &&& bus_kept(next)
            &&& reply is Completed ==> next.stage == Stage::Ready
            &&& reply is Perform ==> next.stage != Stage::Ready && batches_left(next.stage)
                < batches_left(p.stage)
        }),
{
}

/// A step that the hardware has not disturbed is another batch or the end, with the bus
/// where it belongs.
proof fn lemma_faultless_step(m: DisplayModel, event: Event)
    requires
        event is Done,
        bus_sound(m),
        m.pending.len() > 0 ==> (m.pending[0] matches Call::SetBuffer(line) ==> line.len() <= 240),
    ensures
        ({
            let (next, reply) = m.stepped(event);
            &&& reply is Perform || reply is Completed
            &&& bus_sound(next)
            &&& reply is Perform ==> next.pending == m.pending || (m.pending.len() > 0
                && next.pending == m.pending.skip(1))
            &&& reply is Perform ==> work_left(next) < work_left(m)
            &&& reply is Completed ==> next.panel.bus
        }),
{
    let panel = m.panel.resumed(event).0;
    if m.panel.stage != Stage::Ready {
        lemma_faultless_batch(m.panel, event->cycles);
    }
    if m.panel.resumed(event).1 is Completed && m.pending.len() > 0 {
        lemma_faultless_call(panel, m.pending[0]);
    }
}

/// An operation that the hardware carries out without a fault is completed, and leaves the
/// data bus at hand for the next one.
pub proof fn law_faultless_operation_completes(m: DisplayModel, events: Seq<Event>)
    requires
        lines_fit(m.pending),
        bus_sound(m),
        forall|i: int| 0 <= i < events.len() ==> #[trigger] events[i] is Done,
        events.len() > work_left(m),
    ensures
        run(m, events).1 is Completed,
        run(m, events).0.panel.bus,
    decreases events.len(),
{
    assert(events[0] is Done);
    let (next, reply) = m.stepped(events[0]);
    lemma_faultless_step(m, events[0]);
    if reply is Perform {
        assert(lines_fit(next.pending)) by {
            assert forall|i: int| 0 <= i < next.pending.len() implies (
            #[trigger] next.pending[i] matches Call::SetBuffer(line) ==> line.len() <= 240) by {
                if next.pending != m.pending {
                    assert(next.pending[i] == m.pending[i + 1]);
                }
            }
        }
        assert forall|i: int|
            0 <= i < events.skip(1).len() implies #[trigger] events.skip(1)[i] is Done by {
            assert(events.skip(1)[i] == events[i + 1]);
        }
        law_faultless_operation_completes(next, events.skip(1));
    }
}

/// A new display whose hardware comes up without a fault is idle and has its bus.
pub proof fn law_bring_up_gives_bus(m: DisplayModel, events: Seq<Event>)
    requires
        m.pending == seq![Call::BringUp],
        m.panel.stage == Stage::Ready,
        m.after == After::Nothing,
        forall|i: int| 0 <= i < events.len() ==> #[trigger] events[i] is Done,
        events.len() > work_left(m),
    ensures
        ({
            let (end, reply) = run(m, events);
            &&& reply is Completed
            &&& end.idle()
            &&& end.panel.bus
            &&& same_frames(m, end)
        }),
{
    law_faultless_operation_completes(m, events);
    law_operation_outcome(m, events);
}

/// Every call of several tasks is a call of one of them.
proof fn lemma_call_of_task(todo: Seq<Task>, images: Images, i: int) -> (place: (int, int))
    requires
        0 <= i < tasks::all_calls(todo, images).len(),
    ensures
        0 <= place.0 < todo.len(),
        0 <= place.1 < todo[place.0].calls(images).len(),
        tasks::all_calls(todo, images)[i] == todo[place.0].calls(images)[place.1],
    decreases todo.len(),
{
    if todo.len() == 0 {
        assert(Seq::new(0, |j: int| todo[j].calls(images)) =~= seq![]);
        (0, 0)
    } else {
        tasks::lemma_all_calls_first(todo, images);
        let first = todo[0].calls(images);
        if i < first.len() {
            (0, i)
        } else {
            let (t, j) = lemma_call_of_task(todo.skip(1), images, i - first.len());
            (t + 1, j)
        }
    }
}

/// A call of a frame is its start, its end, a pause or a call for a row.
proof fn lemma_frame_call(task: Task, images: Images, j: int)
    requires
        task is Push || task.drives_every_row(),
        0 <= j < task.calls(images).len(),
        task.calls(images)[j] is SetBuffer,
    ensures
        0 <= j - 1 < task.rows(images).len(),
        task.calls(images)[j] == task.rows(images)[j - 1],
{
    tasks::lemma_frame_calls(task, images);
    if 0 <= j - 1 < task.rows(images).len() {
        assert(task.calls(images)[(j - 1) + 1] == task.rows(images)[j - 1]);
    }
}

/// All scanlines of all tasks fit.
proof fn lemma_lines_fit(todo: Seq<Task>, images: Images)
    ensures
        lines_fit(tasks::all_calls(todo, images)),
{
    let calls = tasks::all_calls(todo, images);
    assert forall|i: int| 0 <= i < calls.len() implies (#[trigger] calls[i] matches Call::SetBuffer(
        line,
    ) ==> line.len() <= 240) by {
        if calls[i] is SetBuffer {
            let (t, j) = lemma_call_of_task(todo, images, i);
            lemma_frame_call(todo[t], images, j);
        }
    }
}

/// An operation that is started on an idle display with its bus at hand, and that the
/// hardware carries out without a fault, makes all calls of its tasks, is completed, takes
/// its after-effect and leaves the display idle, with its bus at hand.
pub proof fn law_started_operation_completes(
    m: DisplayModel,
    todo: Seq<Task>,
    phases: Seq<waveform::Phase>,
    after: After,
    events: Seq<Event>,
)
    requires
        m.idle(),
        m.panel.bus,
        forall|i: int| 0 <= i < events.len() ==> #[trigger] events[i] is Done,
        events.len() > work_left(m.started(todo, phases, after)),
    ensures
        ({
            let start = m.started(todo, phases, after);
            let (end, reply) = run(start, events);
            &&& reply is Completed
            &&& end.idle()
            &&& end.panel.bus
            &&& same_frames(start.finished(), end)
            &&& calls_made(start, events) == tasks::all_calls(todo, m.images(phases))
        }),
{
    let start = m.started(todo, phases, after);
    lemma_lines_fit(todo, m.images(phases));
    law_faultless_operation_completes(start, events);
    law_operation_outcome(start, events);
    law_operation_makes_its_calls(start, events);
}

/// A completed flush, whichever it is, leaves a white framebuffer.
pub proof fn law_flush_wipes_framebuffer(m: DisplayModel, events: Seq<Event>)
    requires
        m.after == After::WipeFramebuffer,
        run(m, events).1 is Completed,
    ensures
        run(m, events).0.framebuffer == display::white4(),
{
    law_operation_outcome(m, events);
}

/// A partial update of a panel that shows the 2-bpp framebuffer loads nothing but inert
/// scanlines.
pub proof fn law_partial_of_shown_image_is_inert(m: DisplayModel, i: int)
    requires
        m.fb2 is Some,
        m.prev2 == m.fb2,
        m.fb2->0.len() == 129600,
        ({
            let pending = m.with_gray2().started(
                tasks::gray2_partial_tasks(),
                seq![],
                After::SnapshotGray2,
            ).pending;
            0 <= i < pending.len() && pending[i] is SetBuffer
        }),
    ensures
        m.with_gray2().started(
            tasks::gray2_partial_tasks(),
            seq![],
            After::SnapshotGray2,
        ).pending[i] == Call::SetBuffer(tasks::inert_line()),
{
    let todo = tasks::gray2_partial_tasks();
    let images = m.with_gray2().images(seq![]);
    let (t, j) = lemma_call_of_task(todo, images, i);
    let task = todo[t];
    lemma_frame_call(task, images, j);
    let y = (j - 1) / 2;
    let line = task.line(images, y);
    assert forall|b: int| 0 <= b < 240 implies #[trigger] line[b] == 0xFF by {
        let gray = task->Gray2Partial_gray;
        law_partial_leaves_unchanged_pixels(images, gray, 4 * b, y);
        law_partial_leaves_unchanged_pixels(images, gray, 4 * b + 1, y);
        law_partial_leaves_unchanged_pixels(images, gray, 4 * b + 2, y);
        law_partial_leaves_unchanged_pixels(images, gray, 4 * b + 3, y);
    }
    assert(line =~= tasks::inert_line());
}

/// A partial update after re-anchoring from the framebuffer leaves the 16-gray image
/// untouched: it loads nothing but inert scanlines.
pub proof fn law_synced_image_is_left_alone(m: DisplayModel, i: int)
    requires
        ({
            let synced = DisplayModel {
                fb2: Some(display::quantised(m.framebuffer)),
                prev2: Some(display::quantised(m.framebuffer)),
                ..m
            };
            let pending = synced.with_gray2().started(
                tasks::gray2_partial_tasks(),
                seq![],
                After::SnapshotGray2,
            ).pending;
            0 <= i < pending.len() && pending[i] is SetBuffer
        }),
    ensures
        ({
            let synced = DisplayModel {
                fb2: Some(display::quantised(m.framebuffer)),
                prev2: Some(display::quantised(m.framebuffer)),
                ..m
            };
            synced.with_gray2().started(
                tasks::gray2_partial_tasks(),
                seq![],
                After::SnapshotGray2,
            ).pending[i] == Call::SetBuffer(tasks::inert_line())
        }),
{
    let synced = DisplayModel {
        fb2: Some(display::quantised(m.framebuffer)),
        prev2: Some(display::quantised(m.framebuffer)),
        ..m
    };
    law_partial_of_shown_image_is_inert(synced, i);
}

/// A completed 4-gray update, full or partial, leaves the 2-bpp framebuffer noted as what
/// the panel shows, so that a further partial update without new drawing is inert.
pub proof fn law_gray2_update_anchors(m: DisplayModel, events: Seq<Event>)
    requires
        m.after == After::SnapshotGray2,
        m.fb2 is Some,
        m.prev2 is Some,
        run(m, events).1 is Completed,
    ensures
        run(m, events).0.fb2 == m.fb2,
        run(m, events).0.prev2 == m.fb2,
{
    law_operation_outcome(m, events);
}

/// A panel call carried out without a fault: batches are performed until there are none.
/// `cycles` are the readings of the cycle counter.
pub open spec fn panel_run(p: PanelState, cycles: Seq<u32>) -> (PanelState, Reply)
    decreases cycles.len(),
{
    if cycles.len() == 0 {
        (p, Reply::Perform(seq![]))
    } else {
        let (next, reply) = p.after_done(cycles[0]);
        if reply is Perform {
            panel_run(next, cycles.skip(1))
        } else {
            (next, reply)
        }
    }
}

/// A row that is output without a fault leaves the panel controller as it was.
pub proof fn law_row_output_is_neutral(p: PanelState, output_time: u16, cycles: Seq<u32>)
    requires
        p.stage == Stage::Ready,
        p.bus,
        !p.config.latch_enable,
        cycles.len() >= 4,
    ensures
        panel_run(p.starting_row(output_time).0, cycles) == (p, Reply::Completed),
{
    reveal_with_fuel(panel_run, 5);
}

/// Panel calls carried out one after the other without a fault, up to one that is refused.
/// `cycles[i]` are the readings of the cycle counter during call `i`.
pub open spec fn calls_run(p: PanelState, calls: Seq<Call>, cycles: Seq<Seq<u32>>) -> (
    PanelState,
    Reply,
)
    decreases calls.len(),
{
    if calls.len() == 0 {
        (p, Reply::Completed)
    } else {
        let (begun, answer) = calls[0].answered_by(p);
        let (next, reply) = panel_run(begun, cycles[0]);
        if answer is Failed {
            (begun, answer)
        } else if reply is Completed {
            calls_run(next, calls.skip(1), cycles.skip(1))
        } else {
            (next, reply)
        }
    }
}

/// The calls put rows on the panel: they load scanlines that fit, and output them.
pub open spec fn row_calls(calls: Seq<Call>) -> bool {
    forall|i: int|
        0 <= i < calls.len() ==> match #[trigger] calls[i] {
            Call::SetBuffer(line) => line.len() <= 240,
            Call::OutputRow(_) => true,
            _ => false,
        }
}

/// One of the calls outputs a row.
pub open spec fn outputs_row(calls: Seq<Call>) -> bool {
    exists|i: int| 0 <= i < calls.len() && #[trigger] calls[i] is OutputRow
}

/// There are readings of the cycle counter for every batch of every one of `n` calls.
pub open spec fn enough_cycles(cycles: Seq<Seq<u32>>, n: nat) -> bool {
    &&& cycles.len() == n
    &&& forall|i: int| 0 <= i < n ==> (#[trigger] cycles[i]).len() >= 5
}

/// The config register after the calls for some rows: on the LilyGo, outputting a row
/// releases the latch.
pub open spec fn after_rows(p: PanelState, rows: Seq<Call>) -> PanelState {
    if p.pins is LilyGoT5V23 && outputs_row(rows) {
        p.with_config(ConfigRegister { latch_enable: false, ..p.config })
    } else {
        p
    }
}

/// One call for a row.
proof fn lemma_row_call(p: PanelState, call: Call, cycles: Seq<u32>)
    requires
        p.stage == Stage::Ready,
        p.bus,
        call matches Call::SetBuffer(line) ==> line.len() <= 240,
        call is SetBuffer || call is OutputRow,
        cycles.len() >= 5,
    ensures
        call.answered_by(p).1 is Perform,
        panel_run(call.answered_by(p).0, cycles) == (after_rows(p, seq![call]), Reply::Completed),
{
    reveal_with_fuel(panel_run, 5);
    if call is OutputRow {
        assert(seq![call][0] is OutputRow);
    }
}

/// Calls for rows that are followed by other calls.
proof fn lemma_rows_first(p: PanelState, rows: Seq<Call>, rest: Seq<Call>, cycles: Seq<Seq<u32>>)
    requires
        p.stage == Stage::Ready,
        rows.len() > 0 ==> p.bus,
        row_calls(rows),
        enough_cycles(cycles, rows.len() + rest.len()),
    ensures
        calls_run(p, rows + rest, cycles) == calls_run(
            after_rows(p, rows),
            rest,
            cycles.skip(rows.len() as int),
        ),
    decreases rows.len(),
{
    let calls = rows + rest;
    if rows.len() == 0 {
        assert(calls =~= rest);
        assert(cycles.skip(0) =~= cycles);
    } else {
        let later = rows.skip(1);
        assert(calls[0] == rows[0]);
        lemma_row_call(p, rows[0], cycles[0]);
        let next = after_rows(p, seq![rows[0]]);
        assert(calls.skip(1) =~= later + rest);
        assert(cycles.skip(1).skip(later.len() as int) =~= cycles.skip(rows.len() as int));
        assert forall|i: int| 0 <= i < later.len() implies match #[trigger] later[i] {
            Call::SetBuffer(line) => line.len() <= 240,
            Call::OutputRow(_) => true,
            _ => false,
        } by {
            assert(later[i] == rows[i + 1]);
        }
        lemma_rows_first(next, later, rest, cycles.skip(1));
        if outputs_row(rows) {
            let i = choose|i: int| 0 <= i < rows.len() && #[trigger] rows[i] is OutputRow;
            if i == 0 {
                assert(seq![rows[0]][0] is OutputRow);
            } else {
                assert(later[i - 1] is OutputRow);
            }
        } else {
            assert(!outputs_row(later)) by {
                if outputs_row(later) {
                    let i = choose|i: int| 0 <= i < later.len() && #[trigger] later[i] is OutputRow;
                    assert(rows[i + 1] is OutputRow);
                }
            }
        }
        assert(after_rows(next, later) == after_rows(p, rows));
    }
}

/// Ending a frame undoes what starting it did, whatever the config register held before and
/// whatever rows were output in between. On the LilyGo the outputs are disabled, the mode is
/// off and the start pulse is at rest afterwards, and the rows have released the latch; all
/// else, and the M5PaperS3, is as before.
pub proof fn law_frame_end_undoes_frame_start(
    p: PanelState,
    rows: Seq<Call>,
    cycles: Seq<Seq<u32>>,
)
    requires
        p.stage == Stage::Ready,
        rows.len() > 0 ==> p.bus,
        row_calls(rows),
        enough_cycles(cycles, rows.len() + 2),
    ensures
        p.pins is LilyGoT5V23 ==> {
            &&& panel_run(p.starting_frame().0, cycles[0]) == (
                p.with_config(
                    ConfigRegister { mode: true, output_enable: true, stv: true, ..p.config },
                ),
                Reply::Completed,
            )
            &&& calls_run(p, seq![Call::FrameStart] + rows + seq![Call::FrameEnd], cycles) == (
                p.with_config(
                    ConfigRegister {
                        mode: false,
                        output_enable: false,
                        stv: true,
                        latch_enable: p.config.latch_enable && !outputs_row(rows),
                        ..p.config
                    },
                ),
                Reply::Completed,
            )
        },
        p.pins is M5PaperS3 ==> calls_run(
            p,
            seq![Call::FrameStart] + rows + seq![Call::FrameEnd],
            cycles,
        ) == (p, Reply::Completed),
{
    let end = seq![Call::FrameEnd];
    let calls = seq![Call::FrameStart] + rows + end;
    let (started, reply) = panel_run(p.starting_frame().0, cycles[0]);
    lemma_frame_start(p, cycles[0]);
    assert(calls.skip(1) =~= rows + end);
    assert(calls_run(p, calls, cycles) == calls_run(started, rows + end, cycles.skip(1)));
    lemma_rows_first(started, rows, end, cycles.skip(1));
    let shown = after_rows(started, rows);
    let last = cycles.skip(1).skip(rows.len() as int);
    assert(last[0] == cycles[rows.len() as int + 1]);
    lemma_frame_end(shown, last[0]);
    let ended = panel_run(shown.ending_frame().0, last[0]).0;
    assert(end.skip(1) =~= seq![]);
    assert(calls_run(ended, end.skip(1), last.skip(1)) == (ended, Reply::Completed));
    assert(calls_run(shown, end, last) == (ended, Reply::Completed));
}

/// Starting a frame.
proof fn lemma_frame_start(p: PanelState, cycles: Seq<u32>)
    requires
        p.stage == Stage::Ready,
        cycles.len() >= 5,
    ensures
        panel_run(p.starting_frame().0, cycles) == (
            if p.pins is LilyGoT5V23 {
                p.with_config(
                    ConfigRegister { mode: true, output_enable: true, stv: true, ..p.config },
                )
            } else {
                p
            },
            Reply::Completed,
        ),
{
    reveal_with_fuel(panel_run, 6);
}

/// Ending a frame.
proof fn lemma_frame_end(p: PanelState, cycles: Seq<u32>)
    requires
        p.stage == Stage::Ready,
        cycles.len() >= 5,
    ensures
        panel_run(p.ending_frame().0, cycles) == (
            if p.pins is LilyGoT5V23 {
                p.with_config(ConfigRegister { mode: false, output_enable: false, ..p.config })
            } else {
                p
            },
            Reply::Completed,
        ),
{
    reveal_with_fuel(panel_run, 3);
}

/// A run of inert rows loads its scanline exactly once, with its first call, outputs exactly
/// as many rows as it stands for, and does nothing else. Without a fault, all of its calls
/// succeed and leave the panel controller as it was.
pub proof fn law_inert_run_loads_once(p: PanelState, n: nat, cycles: Seq<Seq<u32>>)
    requires
        n >= 1,
        p.stage == Stage::Ready,
        p.bus,
        !p.config.latch_enable,
        enough_cycles(cycles, n + 1),
    ensures
        tasks::inert_run(n).len() == n + 1,
        tasks::inert_run(n)[0] == Call::SetBuffer(tasks::inert_line()),
        forall|i: int| 1 <= i <= n ==> #[trigger] tasks::inert_run(n)[i] == Call::OutputRow(1),
        calls_run(p, tasks::inert_run(n), cycles) == (p, Reply::Completed),
{
    let calls = tasks::inert_run(n);
    lemma_rows_first(p, calls, seq![], cycles);
    assert(calls + seq![] =~= calls);
}

/// A push clocks the rows above its area in a single run of inert rows, right after the
/// start of its frame.
pub proof fn law_push_skips_in_one_run(task: Task, images: Images)
    requires
        task is Push,
    ensures
        ({
            let run = tasks::inert_run(tasks::push_skipped(task->area) as nat);
            task.calls(images).take((run.len() + 1) as int) == seq![Call::FrameStart] + run
        }),
{
    let run = tasks::inert_run(tasks::push_skipped(task->area) as nat);
    assert(task.calls(images).take((run.len() + 1) as int) =~= seq![Call::FrameStart] + run);
}

/// A transfer that fails loses the bus, and the row fails; one that cannot be started fails
/// the row and keeps the bus.
pub proof fn law_failed_transfer(p: PanelState, event: Event)
    ensures
        p.stage is RowSend ==> p.after_failure() == (
            p.at(Stage::Ready),
            Reply::Failed(Error::Dma),
        ),
        p.stage is RowWait && !p.bus ==> ({
            let (next, reply) = p.after_failure();
            &&& !next.bus
            &&& p.pins is M5PaperS3 ==> next.stage == Stage::Ready && reply == Reply::Failed(
                Error::Dma,
            )
            &&& p.pins is LilyGoT5V23 ==> reply == Reply::Perform(seq![Action::ReclaimPulse])
                && next.resumed(event).1 is Failed && !next.resumed(event).0.bus
                && next.resumed(event).0.stage == Stage::Ready
        }),
{
}

/// Without the bus nothing can be loaded and no row can be sent.
pub proof fn law_lost_bus_is_reported(p: PanelState, data: Seq<u8>, output_time: u16, cycles: u32)
    requires
        p.stage == Stage::Ready,
        !p.bus,
        data.len() <= 240,
    ensures
        p.loading(data) == (p, Reply::Failed(Error::Unknown)),
        p.starting_row(output_time).0.after_done(cycles).1 == Reply::Failed(Error::Unknown),
        !p.starting_row(output_time).0.after_done(cycles).0.bus,
{
}

/// Where the power sequences leave the config register of the LilyGo: after power-on both
/// rails are enabled, after power-off none is.
pub proof fn law_power_sequences(p: PanelState)
    requires
        p.pins is LilyGoT5V23,
    ensures
        ({
            let on = p.powering_on().0.config;
            &&& on.power_enable
            &&& !on.power_disable
            &&& on.neg_power_enable
            &&& on.pos_power_enable
            &&& on.stv
        }),
        ({
            let off = p.powering_off().0.config;
            &&& off.power_disable
            &&& !off.neg_power_enable
            &&& !off.pos_power_enable
            &&& !off.stv
        }),
{
}

/// CKV stays asserted for at least `output_time` ticks of 24 cycles, and not longer than
/// that unless the transfer itself took longer.
pub proof fn law_row_dwell(output_time: u16, start: u32, elapsed: u32)
    ensures
        ({
            let now = ((start + elapsed) % 0x1_0000_0000) as u32;
            let hold = ed047tc1::hold_cycles(output_time, start, now);
            &&& 0 <= hold <= u32::MAX
            &&& elapsed + hold == (if elapsed < output_time * 24 {
                output_time * 24
            } else {
                elapsed as int
            })
        }),
{
}

/// The data that a board sends per row fits the DMA buffer.
pub proof fn law_scanline_fits_dma_buffer(pins: PinConfig, data: Seq<u8>)
    ensures
        ed047tc1::scanline(pins, data).len() <= crate::hardware::DMA_BUFFER_SIZE,
{
}

} // verus!
