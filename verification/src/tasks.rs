//! What the display asks of the panel: tasks, and the panel calls that each of them
//! stands for.
//!
//! All drawing is a sequence of frames. A frame starts, puts scanlines on the panel row by
//! row, ends, and may be followed by a pause.

use vstd::prelude::*;

use crate::ed047tc1::{PanelState, Stage};
use crate::hardware::{Action, Reply};
use crate::lut;
use crate::pixels;
use crate::types::{DrawMode, Rectangle, BYTES_PER_LINE};
use crate::waveform;
use crate::waveform::{Phase, MATRIX_DWELL, SETTLE_MICROS, WF_DWELL};

verus! {

/// One call of the panel controller.
pub enum Call {
    BringUp,
    PowerOn,
    PowerOff,
    FrameStart,
    FrameEnd,
    /// Load a scanline.
    SetBuffer(Seq<u8>),
    /// Send the loaded scanline and dwell.
    OutputRow(u16),
    DelayMicros(u32),
    DelayMillis(u32),
}

impl Call {
    /// How the panel controller answers to the call.
    pub open spec fn answered_by(self, panel: PanelState) -> (PanelState, Reply) {
        match self {
            Call::BringUp => panel.bringing_up(),
            Call::PowerOn => panel.powering_on(),
            Call::PowerOff => panel.powering_off(),
            Call::FrameStart => panel.starting_frame(),
            Call::FrameEnd => panel.ending_frame(),
            Call::SetBuffer(data) => panel.loading(data),
            Call::OutputRow(time) => panel.starting_row(time),
            Call::DelayMicros(us) => panel.doing(Action::DelayMicros(us)),
            Call::DelayMillis(ms) => panel.doing(Action::DelayMillis(ms)),
        }
    }
}

/// A call is begun or refused. Only a refusal leaves the controller ready, and no call
/// begins with a transfer or leaves the latch enabled.
pub proof fn lemma_answered(call: Call, panel: PanelState)
    requires
        panel.stage == Stage::Ready,
    ensures
        call.answered_by(panel).1 is Perform || call.answered_by(panel).1 is Failed,
        call.answered_by(panel).1 is Failed ==> call.answered_by(panel).0 == panel,
        !(call.answered_by(panel).0.stage is RowWait),
        !panel.config.latch_enable ==> !call.answered_by(panel).0.config.latch_enable,
{
}

/// The images that frames are made of.
pub struct Images {
    /// 4-bpp framebuffer.
    pub framebuffer: Seq<u8>,
    /// 2-bpp framebuffer.
    pub fb2: Seq<u8>,
    /// 2-bpp image that the panel shows.
    pub prev2: Seq<u8>,
    /// Phases of the waveform being replayed.
    pub phases: Seq<Phase>,
}

/// One thing that the display has yet to do.
#[derive(Clone, Copy, Debug)]
pub enum Task {
    /// Bring the hardware up.
    BringUp,
    /// Turn the panel on.
    PowerOn,
    /// Turn the panel off.
    PowerOff,
    /// Push all pixels of an area towards black (`color` 0) or white (`color` 1); pause
    /// half a second if `pause`.
    Push { area: Rectangle, time: u16, color: u16, pause: bool },
    /// Sub-frame `k` of a bit-plane draw of the framebuffer.
    Draw { mode: DrawMode, k: usize },
    /// A waveform phase, over the framebuffer.
    Waveform { phase: usize },
    /// A matrix pass, over the framebuffer.
    Matrix { pass: u8 },
    /// A pass of a full 4-gray repaint: black/white, or the gray split.
    Gray2Full { gray: bool },
    /// A pass of a 4-gray partial update: black/white, or the gray split.
    Gray2Partial { gray: bool },
}

impl Task {
    /// Whether the task is a frame that drives every row of the panel with its own
    /// scanline.
    pub open spec fn drives_every_row(self) -> bool {
        match self {
            Task::BringUp | Task::PowerOn | Task::PowerOff | Task::Push { .. } => false,
            _ => true,
        }
    }

    /// Whether the scanlines come from the 4-bpp framebuffer.
    pub open spec fn shows_framebuffer(self) -> bool {
        match self {
            Task::Draw { .. } | Task::Waveform { .. } | Task::Matrix { .. } => true,
            _ => false,
        }
    }

    /// The push codes by gray level, for the tasks that show the 4-bpp framebuffer.
    pub open spec fn codes4(self, phases: Seq<Phase>) -> Seq<u8> {
        match self {
            Task::Draw { mode, k } => lut::draw_codes(mode, k as int),
            Task::Waveform { phase } => waveform::phase_codes(phases[phase as int]),
            Task::Matrix { pass } => waveform::matrix_codes(pass as int),
            _ => seq![],
        }
    }

    /// The push codes of a 4-gray pass: by level for a full repaint, by `4 * new + old`
    /// for a partial update.
    pub open spec fn codes2(self) -> Seq<u8> {
        match self {
            Task::Gray2Full { gray } => if gray {
                waveform::GRAY2_FULL_GRAY@
            } else {
                waveform::GRAY2_FULL_BW@
            },
            Task::Gray2Partial { gray } => if gray {
                waveform::GRAY2_GRAY16@
            } else {
                waveform::GRAY2_BW16@
            },
            _ => seq![],
        }
    }

    /// The push code that pixel `(x, y)` gets.
    pub open spec fn pixel_code(self, images: Images, x: int, y: int) -> u8 {
        match self {
            Task::Gray2Full { .. } => self.codes2()[pixels::gray2(images.fb2, x, y) as int],
            Task::Gray2Partial { .. } => self.codes2()[4 * pixels::gray2(images.fb2, x, y)
                + pixels::gray2(images.prev2, x, y)],
            _ => self.codes4(images.phases)[pixels::gray4(images.framebuffer, x, y) as int],
        }
    }

    /// The scanline of row `y`.
    pub open spec fn line(self, images: Images, y: int) -> Seq<u8> {
        Seq::new(
            240,
            |b: int|
                pixels::pack(
                    self.pixel_code(images, 4 * b, y),
                    self.pixel_code(images, 4 * b + 1, y),
                    self.pixel_code(images, 4 * b + 2, y),
                    self.pixel_code(images, 4 * b + 3, y),
                ),
        )
    }

    /// How long each row dwells.
    pub open spec fn dwell(self) -> u16 {
        match self {
            Task::Draw { mode, k } => mode.dwells()[k as int],
            Task::Waveform { .. } => WF_DWELL,
            _ => MATRIX_DWELL,
        }
    }

    /// The calls between the start and the end of the frame.
    pub open spec fn rows(self, images: Images) -> Seq<Call> {
        match self {
            Task::Push { area, time, color, .. } => push_rows(area, time, color),
            _ => Seq::new(
                1080,
                |i: int|
                    if i % 2 == 0 {
                        Call::SetBuffer(self.line(images, i / 2))
                    } else {
                        Call::OutputRow(self.dwell())
                    },
            ),
        }
    }

    /// The pause after the frame.
    pub open spec fn pause(self) -> Seq<Call> {
        match self {
            Task::Push { pause, .. } => if pause {
                seq![Call::DelayMillis(500)]
            } else {
                seq![]
            },
            Task::Matrix { .. } | Task::Gray2Full { .. } | Task::Gray2Partial { .. } => seq![
                Call::DelayMicros(SETTLE_MICROS),
            ],
            _ => seq![],
        }
    }

    /// The panel calls that the task stands for.
    pub open spec fn calls(self, images: Images) -> Seq<Call> {
        match self {
            Task::BringUp => seq![Call::BringUp],
            Task::PowerOn => seq![Call::PowerOn],
            Task::PowerOff => seq![Call::PowerOff],
            _ => seq![Call::FrameStart] + self.rows(images) + seq![Call::FrameEnd] + self.pause(),
        }
    }
}

/// The calls of several tasks, one after the other.
pub open spec fn all_calls(tasks: Seq<Task>, images: Images) -> Seq<Call> {
    Seq::new(tasks.len(), |i: int| tasks[i].calls(images)).flatten()
}

/// A bit-plane draw: 15 sub-frames.
pub open spec fn draw_tasks(mode: DrawMode) -> Seq<Task> {
    Seq::new(15, |k: int| Task::Draw { mode, k: k as usize })
}

/// A waveform replay: one frame per phase.
pub open spec fn waveform_tasks(phases: nat) -> Seq<Task> {
    Seq::new(phases, |i: int| Task::Waveform { phase: i as usize })
}

/// A matrix draw: one frame per pass.
pub open spec fn matrix_tasks() -> Seq<Task> {
    Seq::new(8, |i: int| Task::Matrix { pass: i as u8 })
}

/// A flashing clear: per cycle four pushes to black, then four to white.
pub open spec fn clear_tasks(area: Rectangle, cycles: nat, time: u16) -> Seq<Task> {
    Seq::new(
        8 * cycles,
        |i: int| Task::Push { area, time, color: if i % 8 < 4 { 0 } else { 1 }, pause: false },
    )
}

/// Repeated pushes of one colour, with pauses.
pub open spec fn push_tasks(area: Rectangle, color: u16, count: nat) -> Seq<Task> {
    Seq::new(count, |i: int| Task::Push { area, time: 50, color, pause: true })
}

/// The screen repair routine: clear, 20 slow pushes to black, clear, 40 to white, clear.
pub open spec fn repair_tasks(area: Rectangle) -> Seq<Task> {
    clear_tasks(area, 4, 50) + push_tasks(area, 0, 20) + clear_tasks(area, 4, 50) + push_tasks(
        area,
        1,
        40,
    ) + clear_tasks(area, 4, 50)
}

/// A full 4-gray repaint: clear, then five black/white passes and a gray split.
pub open spec fn gray2_full_tasks(area: Rectangle) -> Seq<Task> {
    clear_tasks(area, 4, 50) + Seq::new(6, |i: int| Task::Gray2Full { gray: i == 5 })
}

/// A 4-gray partial update: five black/white passes and a gray split.
pub open spec fn gray2_partial_tasks() -> Seq<Task> {
    Seq::new(6, |i: int| Task::Gray2Partial { gray: i == 5 })
}

/// The row below the last one that a push touches.
pub open spec fn push_end(area: Rectangle) -> int {
    if area.y + area.height < 540 {
        area.y + area.height
    } else {
        540
    }
}

/// The number of rows above a pushed area.
pub open spec fn push_skipped(area: Rectangle) -> int {
    if area.y < push_end(area) {
        area.y as int
    } else {
        push_end(area)
    }
}

/// A run of `n` inert rows: the scanline is loaded once, by the first of them.
pub open spec fn inert_run(n: nat) -> Seq<Call> {
    if n > 0 {
        seq![Call::SetBuffer(inert_line())] + Seq::new(n, |i: int| Call::OutputRow(1))
    } else {
        seq![]
    }
}

/// Pushing an area clocks inert rows down to its top, then its own scanline for each of
/// its rows. The rows below it are not touched.
pub open spec fn push_rows(area: Rectangle, time: u16, color: u16) -> Seq<Call> {
    inert_run(push_skipped(area) as nat) + (if push_end(area) > area.y {
        seq![Call::SetBuffer(push_line(area, color))] + Seq::new(
            (push_end(area) - area.y) as nat,
            |i: int| Call::OutputRow(time),
        )
    } else {
        seq![]
    })
}

/// A scanline that leaves every pixel alone.
pub open spec fn inert_line() -> Seq<u8> {
    Seq::new(240, |b: int| 0xFFu8)
}

/// The push code that pixel `x` of a pushed row gets: black or white inside the area,
/// nothing outside.
pub open spec fn push_pixel(area: Rectangle, color: u16, x: int) -> u8 {
    if area.x <= x < area.x + area.width {
        if color == 1 {
            2
        } else {
            1
        }
    } else {
        0
    }
}

/// Four pixels of a pushed row.
pub open spec fn push_byte(area: Rectangle, color: u16, b: int) -> u8 {
    pixels::pack(
        push_pixel(area, color, 4 * b),
        push_pixel(area, color, 4 * b + 1),
        push_pixel(area, color, 4 * b + 2),
        push_pixel(area, color, 4 * b + 3),
    )
}

/// The scanline of a pushed area, with the halves of each 4-byte group swapped.
pub open spec fn push_line(area: Rectangle, color: u16) -> Seq<u8> {
    Seq::new(240, |b: int| push_byte(area, color, lut::reordered(b)))
}

proof fn lemma_set_slot(p: u8, c: u8, j: u16)
    requires
        j < 4,
        c == 1 || c == 2,
        pixels::slot(p, j as int) == 0,
    ensures
        ({
            let pattern: u8 = if c == 2 { 0b10101010 } else { 0b01010101 };
            p | (pattern & (3u8 << (2 * j) as u16)) == pixels::pack(
                if j == 0 { c } else { pixels::slot(p, 0) },
                if j == 1 { c } else { pixels::slot(p, 1) },
                if j == 2 { c } else { pixels::slot(p, 2) },
                if j == 3 { c } else { pixels::slot(p, 3) },
            )
        }),
{
    let pattern: u8 = if c == 2 { 0b10101010 } else { 0b01010101 };
    pixels::lemma_pack_of_slots(p);
    if j == 0 {
        assert(p | (pattern & (3u8 << 0u16)) == p + c) by (bit_vector)
            requires
                p % 4 == 0,
                (c == 2 && pattern == 0xAA) || (c == 1 && pattern == 0x55),
        ;
    } else if j == 1 {
        assert(p | (pattern & (3u8 << 2u16)) == p + 4 * c) by (bit_vector)
            requires
                (p / 4) % 4 == 0,
                (c == 2 && pattern == 0xAA) || (c == 1 && pattern == 0x55),
        ;
    } else if j == 2 {
        assert(p | (pattern & (3u8 << 4u16)) == p + 16 * c) by (bit_vector)
            requires
                (p / 16) % 4 == 0,
                (c == 2 && pattern == 0xAA) || (c == 1 && pattern == 0x55),
        ;
    } else {
        assert(p | (pattern & (3u8 << 6u16)) == p + 64 * c) by (bit_vector)
            requires
                p / 64 == 0,
                (c == 2 && pattern == 0xAA) || (c == 1 && pattern == 0x55),
        ;
    }
}

/// Builds the scanline of a pushed area.
pub fn build_push_line(area: Rectangle, color: u16) -> (row: [u8; BYTES_PER_LINE])
    requires
        area.pushable(),
    ensures
        row@ == push_line(area, color),
{
    let mut row: [u8; BYTES_PER_LINE] = [0u8; 240];
    let pattern: u8 = match color {
        1 => 0b10101010,
        _ => 0b01010101,
    };
    let mut i: u16 = 0;
    while i < area.width
        invariant
            i <= area.width,
            area.pushable(),
            pattern == (if color == 1 {
                0b10101010u8
            } else {
                0b01010101u8
            }),
            forall|b: int|
                0 <= b < 240 ==> #[trigger] row@[b] == push_byte(
                    Rectangle { width: i, ..area },
                    color,
                    b,
                ),
        decreases area.width - i,
    {
        let pos: u16 = i + area.x % 4;
        let at: usize = (area.x / 4 + pos / 4) as usize;
        let ghost x = area.x + i;
        let ghost c: u8 = if color == 1 { 2 } else { 1 };
        let ghost before = Rectangle { width: i, ..area };
        let ghost after = Rectangle { width: (i + 1) as u16, ..area };
        assert(at == x / 4 && pos % 4 == x % 4 && at < 240);
        let p: u8 = row[at];
        proof {
            pixels::lemma_slot_of_pack(
                push_pixel(before, color, 4 * (at as int)),
                push_pixel(before, color, 4 * at + 1),
                push_pixel(before, color, 4 * at + 2),
                push_pixel(before, color, 4 * at + 3),
            );
            lemma_set_slot(p, c, pos % 4);
        }
        row[at] = p | (pattern & (0b00000011 << (2 * (pos % 4))));
        i = i + 1;
    }
    lut::line_buffer_reorder(&mut row);
    assert(row@ =~= push_line(area, color));
    row
}

/// Converting a framebuffer row with the task's table gives the task's scanline.
pub proof fn lemma_line4(task: Task, images: Images, y: int, table: Seq<u8>, out: Seq<u8>)
    requires
        task.shows_framebuffer(),
        images.framebuffer.len() == 259200,
        0 <= y < 540,
        lut::is_lut4(table, task.codes4(images.phases)),
        out.len() == 240,
        forall|b: int|
            0 <= b < 240 ==> #[trigger] out[b] == table[lut::lut_index(
                images.framebuffer.subrange(480 * y, 480 * y + 480),
                b,
            )],
    ensures
        out == task.line(images, y),
{
    assert forall|b: int| 0 <= b < 240 implies out[b] == task.line(images, y)[b] by {
        let lo = images.framebuffer[480 * y + 2 * b];
        let hi = images.framebuffer[480 * y + 2 * b + 1];
        let i = lo + 256 * hi;
        reveal(pixels::index_nibble);
        assert(pixels::index_nibble(i, 0) == lo % 16);
        assert(pixels::index_nibble(i, 1) == lo / 16);
        assert(pixels::index_nibble(i, 2) == hi % 16);
        assert(pixels::index_nibble(i, 3) == hi / 16);
        assert(pixels::gray4(images.framebuffer, 4 * b, y) == lo % 16);
        assert(pixels::gray4(images.framebuffer, 4 * b + 1, y) == lo / 16);
        assert(pixels::gray4(images.framebuffer, 4 * b + 2, y) == hi % 16);
        assert(pixels::gray4(images.framebuffer, 4 * b + 3, y) == hi / 16);
    }
    assert(out =~= task.line(images, y));
}

/// Converting a 2-bpp row byte by byte gives the task's scanline.
pub proof fn lemma_line2(task: Task, images: Images, y: int, out: Seq<u8>)
    requires
        task is Gray2Full || task is Gray2Partial,
        images.fb2.len() == 129600,
        images.prev2.len() == 129600,
        0 <= y < 540,
        out.len() == 240,
        task is Gray2Full ==> forall|b: int|
            0 <= b < 240 ==> #[trigger] out[b] == pixels::pack(
                task.codes2()[pixels::slot(images.fb2[240 * y + b], 0) as int],
                task.codes2()[pixels::slot(images.fb2[240 * y + b], 1) as int],
                task.codes2()[pixels::slot(images.fb2[240 * y + b], 2) as int],
                task.codes2()[pixels::slot(images.fb2[240 * y + b], 3) as int],
            ),
        task is Gray2Partial ==> forall|b: int|
            0 <= b < 240 ==> #[trigger] out[b] == lut::transition_byte(
                task.codes2(),
                images.fb2[240 * y + b],
                images.prev2[240 * y + b],
            ),
    ensures
        out == task.line(images, y),
{
    assert forall|b: int| 0 <= b < 240 implies out[b] == task.line(images, y)[b] by {
        let new = images.fb2[240 * y + b];
        let prev = images.prev2[240 * y + b];
        assert(pixels::gray2(images.fb2, 4 * b, y) == pixels::slot(new, 0));
        assert(pixels::gray2(images.fb2, 4 * b + 1, y) == pixels::slot(new, 1));
        assert(pixels::gray2(images.fb2, 4 * b + 2, y) == pixels::slot(new, 2));
        assert(pixels::gray2(images.fb2, 4 * b + 3, y) == pixels::slot(new, 3));
        assert(pixels::gray2(images.prev2, 4 * b, y) == pixels::slot(prev, 0));
        assert(pixels::gray2(images.prev2, 4 * b + 1, y) == pixels::slot(prev, 1));
        assert(pixels::gray2(images.prev2, 4 * b + 2, y) == pixels::slot(prev, 2));
        assert(pixels::gray2(images.prev2, 4 * b + 3, y) == pixels::slot(prev, 3));
    }
    assert(out =~= task.line(images, y));
}

/// How far into a task the display is.
#[derive(Clone, Copy, Debug)]
pub enum Place {
    /// In front of the first call.
    Begin,
    /// In front of row `row`, or behind the loading of its scanline.
    Row { row: u16, loaded: bool },
    /// Behind the frame, in front of the pause.
    Pause,
}

/// The number of calls of a task in front of a place.
pub open spec fn calls_before(task: Task, images: Images, place: Place) -> int {
    match place {
        Place::Begin => 0,
        Place::Row { row, loaded } => 1 + (if loaded {
            1int
        } else {
            0
        }) + (match task {
            Task::Push { area, .. } => row + (if row > 0 && push_skipped(area) > 0 {
                1int
            } else {
                0
            }) + (if row > area.y {
                1int
            } else {
                0
            }),
            _ => 2 * row,
        }),
        Place::Pause => task.rows(images).len() as int + 2,
    }
}

/// The calls that are left of a sequence of tasks from a place in task `at` on.
pub open spec fn calls_from(tasks: Seq<Task>, at: int, place: Place, images: Images) -> Seq<Call> {
    if at < tasks.len() {
        tasks[at].calls(images).skip(calls_before(tasks[at], images, place)) + all_calls(
            tasks.skip(at + 1),
            images,
        )
    } else {
        seq![]
    }
}

/// The first task's calls come first.
pub proof fn lemma_all_calls_first(tasks: Seq<Task>, images: Images)
    requires
        tasks.len() > 0,
    ensures
        all_calls(tasks, images) == tasks[0].calls(images) + all_calls(tasks.skip(1), images),
{
    let each = Seq::new(tasks.len(), |i: int| tasks[i].calls(images));
    let rest = tasks.skip(1);
    assert(each.drop_first() =~= Seq::new(rest.len(), |i: int| rest[i].calls(images)));
}

/// A single task's calls are all there is.
pub proof fn lemma_all_calls_single(task: Task, images: Images)
    ensures
        all_calls(seq![task], images) == task.calls(images),
{
    lemma_all_calls_first(seq![task], images);
    let rest = seq![task].skip(1);
    assert(Seq::new(rest.len(), |i: int| rest[i].calls(images)) =~= seq![]);
    assert(task.calls(images) + seq![] =~= task.calls(images));
}

/// From the beginning on, all calls are left.
pub proof fn lemma_calls_from_begin(tasks: Seq<Task>, at: int, images: Images)
    requires
        0 <= at <= tasks.len(),
    ensures
        calls_from(tasks, at, Place::Begin, images) == all_calls(tasks.skip(at), images),
{
    if at < tasks.len() {
        lemma_all_calls_first(tasks.skip(at), images);
        assert(tasks.skip(at).skip(1) =~= tasks.skip(at + 1));
        assert(tasks[at].calls(images).skip(0) =~= tasks[at].calls(images));
    } else {
        assert(tasks.skip(at) =~= seq![]);
        assert(Seq::new(0, |i: int| tasks.skip(at)[i].calls(images)) =~= seq![]);
    }
}

/// Making one call leaves all but the first of the calls that were left.
pub proof fn lemma_next_call(
    tasks: Seq<Task>,
    at: int,
    place: Place,
    images: Images,
    next_at: int,
    next_place: Place,
)
    requires
        0 <= at < tasks.len(),
        0 <= calls_before(tasks[at], images, place) < tasks[at].calls(images).len(),
        next_at == at ==> calls_before(tasks[at], images, next_place) == calls_before(
            tasks[at],
            images,
            place,
        ) + 1,
        next_at != at ==> next_at == at + 1 && next_place == Place::Begin && calls_before(
            tasks[at],
            images,
            place,
        ) + 1 == tasks[at].calls(images).len(),
    ensures
        calls_from(tasks, at, place, images).len() > 0,
        calls_from(tasks, at, place, images)[0] == tasks[at].calls(images)[calls_before(
            tasks[at],
            images,
            place,
        )],
        calls_from(tasks, at, place, images).skip(1) == calls_from(
            tasks,
            next_at,
            next_place,
            images,
        ),
{
    let calls = tasks[at].calls(images);
    let n = calls_before(tasks[at], images, place);
    let rest = all_calls(tasks.skip(at + 1), images);
    assert((calls.skip(n) + rest).skip(1) =~= calls.skip(n + 1) + rest);
    if next_at != at {
        lemma_calls_from_begin(tasks, at + 1, images);
        assert(calls.skip(n + 1) + rest =~= rest);
    }
}

/// Where the calls of a frame stand.
pub proof fn lemma_frame_calls(task: Task, images: Images)
    requires
        task is Push || task.drives_every_row(),
    ensures
        task.calls(images).len() == task.rows(images).len() + 2 + task.pause().len(),
        task.calls(images)[0] == Call::FrameStart,
        forall|i: int|
            0 <= i < task.rows(images).len() ==> #[trigger] task.calls(images)[i + 1] == task.rows(
                images,
            )[i],
        task.calls(images)[task.rows(images).len() as int + 1] == Call::FrameEnd,
        task.pause().len() <= 1,
        task.pause().len() == 1 ==> task.calls(images)[task.rows(images).len() as int + 2]
            == task.pause()[0],
{
}

/// Where the calls of a pushed row stand.
pub proof fn lemma_push_rows(task: Task, images: Images, row: u16, loaded: bool)
    requires
        task is Push,
        row <= push_end(task->area),
        loaded ==> row < push_end(task->area) && (row == 0 || row == task->area.y),
    ensures
        ({
            let area = task->area;
            let rows = task.rows(images);
            let n = calls_before(task, images, Place::Row { row, loaded }) - 1;
            &&& row == push_end(area) ==> n == rows.len()
            &&& row < push_end(area) ==> 0 <= n < rows.len() && rows[n] == (if loaded || (row != 0
                && row != area.y) {
                Call::OutputRow(if row < area.y { 1 } else { task->time })
            } else if row < area.y {
                Call::SetBuffer(inert_line())
            } else {
                Call::SetBuffer(push_line(area, task->color))
            })
            &&& row < push_end(area) && (loaded || (row != 0 && row != area.y)) ==> calls_before(
                task,
                images,
                Place::Row { row: (row + 1) as u16, loaded: false },
            ) - 1 == n + 1
            &&& row < push_end(area) && !loaded ==> calls_before(
                task,
                images,
                Place::Row { row, loaded: true },
            ) - 1 == n + 1
        }),
{
}

} // verus!
