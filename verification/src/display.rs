//! The display: framebuffers, and the tasks that bring them onto the panel.
//!
//! Operations that involve the panel only line up tasks. They are carried out step by
//! step: [`Display::step`] tells what the hardware has to do next, and is told what became
//! of it, until the operation is completed or has failed.

use vstd::prelude::*;
use vstd::slice::slice_subrange;

use crate::ed047tc1;
use crate::ed047tc1::{PanelState, Stage, ED047TC1};
use crate::error::Error;
use crate::hardware::{Action, Event, PinConfig, Reply, Step};
use crate::history;
use crate::history::Request;
use crate::lut;
use crate::pixels;
use crate::tasks;
use crate::tasks::{Call, Images, Place, Task};
use crate::types::{
    DisplayRotation, DrawMode, Rectangle, BYTES_PER_LINE, DRAW_IMAGE_FRAME_COUNT, FB2_SIZE,
    FRAMEBUFFER_SIZE, LINE_BYTES_4BPP,
};
use crate::waveform;
use crate::waveform::{Mode5Waveform, Phase, MATRIX_DWELL, SETTLE_MICROS, WF_DWELL};

verus! {

/// What is done when all panel calls of an operation have succeeded.
#[derive(Clone, Copy, Debug)]
pub enum After {
    /// Nothing.
    Nothing,
    /// The 4-bpp framebuffer is set to white.
    WipeFramebuffer,
    /// The 2-bpp framebuffer is noted as what the panel shows.
    SnapshotGray2,
}

/// The mathematical content of a [`Display`].
pub struct DisplayModel {
    /// The panel controller's state.
    pub panel: PanelState,
    /// The panel controller's line buffer.
    pub line: Seq<u8>,
    /// The 4-bpp framebuffer.
    pub framebuffer: Seq<u8>,
    /// The rotation that drawing targets apply.
    pub rotation: DisplayRotation,
    /// The 2-bpp framebuffer, once it is used.
    pub fb2: Option<Seq<u8>>,
    /// The 2-bpp image that the panel shows, once it is used.
    pub prev2: Option<Seq<u8>>,
    /// The panel calls that the operation in progress has yet to make.
    pub pending: Seq<Call>,
    /// What follows them.
    pub after: After,
}

/// The contents of an optional frame.
pub open spec fn frame_or_empty(frame: Option<Seq<u8>>) -> Seq<u8> {
    match frame {
        Some(f) => f,
        None => seq![],
    }
}

impl DisplayModel {
    /// A new display: white, without 2-bpp frames, and about to bring its hardware up.
    pub open spec fn initial(pins: PinConfig) -> Self {
        DisplayModel {
            panel: PanelState {
                pins,
                config: ed047tc1::ConfigRegister::reset(),
                bus: false,
                stage: Stage::Ready,
            },
            line: seq![],
            framebuffer: white4(),
            rotation: DisplayRotation::Rotate0,
            fb2: None,
            prev2: None,
            pending: seq![Call::BringUp],
            after: After::Nothing,
        }
    }

    /// No operation is in progress.
    pub open spec fn idle(self) -> bool {
        &&& self.pending.len() == 0
        &&& self.panel.stage == Stage::Ready
        &&& self.after == After::Nothing
    }

    /// The images that frames are made of.
    pub open spec fn images(self, phases: Seq<Phase>) -> Images {
        Images {
            framebuffer: self.framebuffer,
            fb2: frame_or_empty(self.fb2),
            prev2: frame_or_empty(self.prev2),
            phases,
        }
    }

    /// The operation in progress is given up.
    pub open spec fn abandoned(self) -> Self {
        DisplayModel { pending: seq![], after: After::Nothing, ..self }
    }

    /// All panel calls have been made.
    pub open spec fn finished(self) -> Self {
        let done = DisplayModel { after: After::Nothing, ..self };
        match self.after {
            After::Nothing => done,
            After::WipeFramebuffer => DisplayModel { framebuffer: white4(), ..done },
            After::SnapshotGray2 => if self.fb2 is Some && self.prev2 is Some {
                DisplayModel { prev2: self.fb2, ..done }
            } else {
                done
            },
        }
    }

    /// How the panel controller answers to a call.
    pub open spec fn answered(self, call: Call) -> (PanelState, Reply) {
        call.answered_by(self.panel)
    }

    /// The first pending call is made.
    pub open spec fn called(self) -> (Self, Reply)
        recommends
            self.pending.len() > 0,
    {
        let (panel, reply) = self.answered(self.pending[0]);
        let line = match self.pending[0] {
            Call::SetBuffer(data) => if reply is Perform {
                ed047tc1::scanline(self.panel.pins, data)
            } else {
                self.line
            },
            _ => self.line,
        };
        (DisplayModel { panel, line, pending: self.pending.skip(1), ..self }, reply)
    }

    /// The panel controller has completed a call: the next one is made; after the last
    /// one, the operation is completed. A call that is refused ends the operation.
    pub open spec fn proceeded(self) -> (Self, Reply) {
        if self.pending.len() == 0 {
            (self.finished(), Reply::Completed)
        } else {
            let (next, reply) = self.called();
            if reply is Failed {
                (next.abandoned(), reply)
            } else {
                (next, reply)
            }
        }
    }

    /// What follows an event.
    pub open spec fn stepped(self, event: Event) -> (Self, Reply) {
        let (panel, reply) = self.panel.resumed(event);
        let next = DisplayModel { panel, ..self };
        match reply {
            Reply::Perform(_) => (next, reply),
            Reply::Completed => next.proceeded(),
            Reply::Failed(_) => (next.abandoned(), reply),
        }
    }
}

/// A white 4-bpp frame.
pub open spec fn white4() -> Seq<u8> {
    Seq::new(259200, |i: int| 0xFFu8)
}

/// A white 2-bpp frame.
pub open spec fn white2() -> Seq<u8> {
    Seq::new(129600, |i: int| 0xFFu8)
}

/// The whole panel.
pub open spec fn whole_panel() -> Rectangle {
    Rectangle { x: 0, y: 0, width: 960, height: 540 }
}

/// A panel of 960 by 540 pixels.
pub struct Display {
    epd: ED047TC1,
    /// Inert rows output since the last driven one.
    skipping: u16,
    framebuffer: Vec<u8>,
    rotation: DisplayRotation,
    /// 2-bpp current and previous frames, allocated on first 2-bpp use.
    fb2: Option<Vec<u8>>,
    prev2: Option<Vec<u8>>,
    /// The operation in progress: its tasks, and how far it has come.
    tasks: Vec<Task>,
    at: usize,
    place: Place,
    after: After,
    /// The table for four 4-bpp pixels at a time.
    lut: Vec<u8>,
    /// The table for a byte of 2-bpp pixels.
    lut2: [u8; 256],
    /// The waveform being replayed.
    phases: Vec<Phase>,
    /// The next scanline, built while the one before it is being sent.
    staged: Option<[u8; BYTES_PER_LINE]>,
}

/// The content of an optional frame.
pub open spec fn frame_view(frame: Option<Vec<u8>>) -> Option<Seq<u8>> {
    match frame {
        Some(f) => Some(f@),
        None => None,
    }
}

impl View for Display {
    type V = DisplayModel;

    closed spec fn view(&self) -> DisplayModel {
        DisplayModel {
            panel: self.epd.state(),
            line: self.epd.line(),
            framebuffer: self.framebuffer@,
            rotation: self.rotation,
            fb2: frame_view(self.fb2),
            prev2: frame_view(self.prev2),
            pending: tasks::calls_from(self.tasks@, self.at as int, self.place, self.images()),
            after: self.after,
        }
    }
}

impl Display {
    /// Width of the screen.
    pub const WIDTH: u16 = 960;

    /// Height of the screen.
    pub const HEIGHT: u16 = 540;

    /// The images that frames are made of.
    spec fn images(&self) -> Images {
        Images {
            framebuffer: self.framebuffer@,
            fb2: frame_or_empty(frame_view(self.fb2)),
            prev2: frame_or_empty(frame_view(self.prev2)),
            phases: self.phases@,
        }
    }

    /// The frames have their proper sizes. The 2-bpp frames come in a pair.
    spec fn frames_wf(&self) -> bool {
        &&& self.framebuffer@.len() == 259200
        &&& self.fb2 is Some == self.prev2 is Some
        &&& self.fb2 is Some ==> self.fb2->0@.len() == 129600
        &&& self.prev2 is Some ==> self.prev2->0@.len() == 129600
    }

    /// Task `i` of `tasks` can be carried out, given the number of waveform phases and
    /// whether the 2-bpp frames exist. Draw sub-frames build on the one before.
    spec fn task_ok(tasks: Seq<Task>, i: int, phases: nat, gray2: bool) -> bool {
        match tasks[i] {
            Task::BringUp | Task::PowerOn | Task::PowerOff => true,
            Task::Push { area, time, .. } => area.pushable() && time <= 0x7FFF,
            Task::Draw { mode, k } => {
                &&& k < 15
                &&& k > 0 ==> i > 0 && tasks[i - 1] == Task::Draw { mode, k: (k - 1) as usize }
            },
            Task::Waveform { phase } => phase < phases,
            Task::Matrix { pass } => pass < 8,
            Task::Gray2Full { .. } | Task::Gray2Partial { .. } => gray2,
        }
    }

    /// All tasks can be carried out.
    spec fn tasks_ok(tasks: Seq<Task>, phases: nat, gray2: bool) -> bool {
        forall|i: int|
            0 <= i < tasks.len() ==> #[trigger] Self::task_ok(tasks, i, phases, gray2)
    }

    /// Task `i` can be carried out.
    spec fn task_wf(&self, i: int) -> bool {
        Self::task_ok(self.tasks@, i, self.phases@.len(), self.fb2 is Some && self.prev2 is Some)
    }

    /// The tables are those of the task in progress.
    spec fn tables_wf(&self) -> bool {
        let task = self.tasks@[self.at as int];
        match self.place {
            Place::Begin => task matches Task::Draw { mode, k } ==> k > 0 ==> lut::is_lut4(
                self.lut@,
                lut::draw_codes(mode, k - 1),
            ),
            Place::Row { .. } => {
                &&& task.shows_framebuffer() ==> lut::is_lut4(self.lut@, task.codes4(self.phases@))
                &&& task is Gray2Full ==> forall|b: u8|
                    #[trigger] self.lut2@[b as int] == pixels::pack(
                        task.codes2()[pixels::slot(b, 0) as int],
                        task.codes2()[pixels::slot(b, 1) as int],
                        task.codes2()[pixels::slot(b, 2) as int],
                        task.codes2()[pixels::slot(b, 3) as int],
                    )
            },
            Place::Pause => true,
        }
    }

    /// The place fits the task in progress.
    spec fn place_wf(&self) -> bool {
        let task = self.tasks@[self.at as int];
        match self.place {
            Place::Begin => true,
            Place::Row { row, loaded } => match task {
                Task::BringUp | Task::PowerOn | Task::PowerOff => false,
                Task::Push { area, .. } => {
                    &&& row <= tasks::push_end(area)
                    &&& loaded ==> row < tasks::push_end(area) && (row == 0 || row == area.y)
                    &&& self.skipping == (if row <= area.y {
                        row
                    } else {
                        0
                    })
                },
                _ => row <= 540 && (loaded ==> row < 540),
            },
            Place::Pause => task.pause().len() > 0,
        }
    }

    /// The scanline that the next call loads, if it is one of a frame that drives every row.
    spec fn next_line(&self) -> Option<Seq<u8>> {
        let task = self.tasks@[self.at as int];
        match self.place {
            Place::Row { row, loaded } => if self.at < self.tasks@.len()
                && task.drives_every_row() && row < 540 && !loaded {
                Some(task.line(self.images(), row as int))
            } else {
                None
            },
            _ => None,
        }
    }

    /// The tasks of the operation in progress that are not done yet. The first of them is
    /// the one whose calls are being made.
    pub closed spec fn todo(&self) -> Seq<Task> {
        self.tasks@.skip(self.at as int)
    }

    /// The scanline that has been built ahead.
    pub closed spec fn staged_line(&self) -> Option<Seq<u8>> {
        match self.staged {
            Some(line) => Some(line@),
            None => None,
        }
    }

    /// A scanline that was built ahead is the next one to be loaded.
    spec fn staged_wf(&self) -> bool {
        self.staged matches Some(line) ==> self.next_line() == Some(line@)
    }

    /// The display is in a state that its operations leave behind.
    pub closed spec fn wf(&self) -> bool {
        &&& self.staged_wf()
        &&& self.frames_wf()
        &&& self.at <= self.tasks@.len()
        &&& forall|i: int| 0 <= i < self.tasks@.len() ==> #[trigger] self.task_wf(i)
        &&& self.at < self.tasks@.len() ==> self.place_wf() && self.tables_wf()
    }

    /// One pending call has been made, and nothing else has changed.
    spec fn issued(pre: Display, post: Display, reply: Reply) -> bool {
        &&& post.wf()
        &&& pre@.pending.len() > 0
        &&& (post@, reply) == pre@.called()
        &&& post.tasks == pre.tasks
        &&& post.at == pre.at || post.at == pre.at + 1
    }
}

impl Display {
    /// Computes the tables for the task that is about to begin.
    fn prepare(&mut self, task: Task)
        requires
            old(self).wf(),
            old(self).at < old(self).tasks@.len(),
            old(self).place == Place::Begin,
            task == old(self).tasks@[old(self).at as int],
        ensures
            *final(self) == (Display {
                lut: final(self).lut,
                lut2: final(self).lut2,
                ..*old(self)
            }),
            task.shows_framebuffer() ==> lut::is_lut4(
                final(self).lut@,
                task.codes4(old(self).phases@),
            ),
            task is Gray2Full ==> forall|b: u8|
                #[trigger] final(self).lut2@[b as int] == pixels::pack(
                    task.codes2()[pixels::slot(b, 0) as int],
                    task.codes2()[pixels::slot(b, 1) as int],
                    task.codes2()[pixels::slot(b, 2) as int],
                    task.codes2()[pixels::slot(b, 3) as int],
                ),
    {
        assert(self.task_wf(self.at as int));
        match task {
            Task::Draw { mode, k } => {
                if k == 0 {
                    self.lut = lut::initial_lut(mode);
                }
                let ghost before = self.lut@;
                lut::update_lut(&mut self.lut, k, mode);
                proof {
                    lut::lemma_update_lut(before, self.lut@, mode, k as int);
                }
            },
            Task::Waveform { phase } => {
                let op: [u8; 16] = waveform::phase_ops(&self.phases[phase]);
                self.lut = lut::expand_gray4_lut(&op);
            },
            Task::Matrix { pass } => {
                let op: [u8; 16] = waveform::matrix_ops(pass);
                self.lut = lut::expand_gray4_lut(&op);
            },
            Task::Gray2Full { gray } => {
                if gray {
                    self.lut2 = lut::expand_gray2_lut(&waveform::GRAY2_FULL_GRAY);
                } else {
                    self.lut2 = lut::expand_gray2_lut(&waveform::GRAY2_FULL_BW);
                }
            },
            _ => {},
        }
    }
}

impl Display {
    /// Builds the scanline of row `row` for the task in progress.
    fn drive_line(&self, task: Task, row: u16) -> (line: [u8; BYTES_PER_LINE])
        requires
            self.wf(),
            self.at < self.tasks@.len(),
            self.place is Row,
            task == self.tasks@[self.at as int],
            task.drives_every_row(),
            row < 540,
        ensures
            line@ == task.line(self.images(), row as int),
    {
        assert(self.task_wf(self.at as int));
        let mut line: [u8; BYTES_PER_LINE] = [0u8; 240];
        match task {
            Task::Gray2Full { .. } => {
                if let Some(fb2) = &self.fb2 {
                    let off: usize = row as usize * BYTES_PER_LINE;
                    let mut b: usize = 0;
                    while b < BYTES_PER_LINE
                        invariant
                            b <= 240,
                            off == 240 * row,
                            row < 540,
                            fb2@.len() == 129600,
                            task is Gray2Full,
                            forall|c: u8|
                                #[trigger] self.lut2@[c as int] == pixels::pack(
                                    task.codes2()[pixels::slot(c, 0) as int],
                                    task.codes2()[pixels::slot(c, 1) as int],
                                    task.codes2()[pixels::slot(c, 2) as int],
                                    task.codes2()[pixels::slot(c, 3) as int],
                                ),
                            forall|i: int|
                                0 <= i < b ==> #[trigger] line@[i] == pixels::pack(
                                    task.codes2()[pixels::slot(fb2@[240 * row + i], 0) as int],
                                    task.codes2()[pixels::slot(fb2@[240 * row + i], 1) as int],
                                    task.codes2()[pixels::slot(fb2@[240 * row + i], 2) as int],
                                    task.codes2()[pixels::slot(fb2@[240 * row + i], 3) as int],
                                ),
                        decreases 240 - b,
                    {
                        line[b] = self.lut2[fb2[off + b] as usize];
                        b = b + 1;
                    }
                    proof {
                        tasks::lemma_line2(task, self.images(), row as int, line@);
                    }
                }
            },
            Task::Gray2Partial { gray } => {
                if let Some(fb2) = &self.fb2 {
                    if let Some(prev2) = &self.prev2 {
                        let off: usize = row as usize * BYTES_PER_LINE;
                        let new_row: &[u8] = slice_subrange(
                            fb2.as_slice(),
                            off,
                            off + BYTES_PER_LINE,
                        );
                        let old_row: &[u8] = slice_subrange(
                            prev2.as_slice(),
                            off,
                            off + BYTES_PER_LINE,
                        );
                        if gray {
                            lut::build_gray2_transition(
                                new_row,
                                old_row,
                                &waveform::GRAY2_GRAY16,
                                &mut line,
                            );
                        } else {
                            lut::build_gray2_transition(
                                new_row,
                                old_row,
                                &waveform::GRAY2_BW16,
                                &mut line,
                            );
                        }
                        proof {
                            tasks::lemma_line2(task, self.images(), row as int, line@);
                        }
                    }
                }
            },
            _ => {
                let start: usize = row as usize * LINE_BYTES_4BPP;
                let line_data: &[u8] = slice_subrange(
                    self.framebuffer.as_slice(),
                    start,
                    start + LINE_BYTES_4BPP,
                );
                lut::prepare_dma_buffer(line_data, self.lut.as_slice(), &mut line);
                proof {
                    tasks::lemma_line4(task, self.images(), row as int, self.lut@, line@);
                }
            },
        }
        line
    }
}

impl Display {
    /// Tasks that can be carried out still can if nothing that they need has changed.
    proof fn lemma_tasks_kept(pre: Display, post: Display)
        requires
            pre.wf(),
            post.tasks == pre.tasks,
            post.phases == pre.phases,
            pre.fb2 is Some ==> post.fb2 is Some,
            pre.prev2 is Some ==> post.prev2 is Some,
        ensures
            forall|i: int| 0 <= i < post.tasks@.len() ==> #[trigger] post.task_wf(i),
    {
        assert forall|i: int| 0 <= i < post.tasks@.len() implies #[trigger] post.task_wf(i) by {
            assert(pre.task_wf(i));
        }
    }

    /// Moving the place on by one call takes the first of the pending calls away.
    proof fn lemma_moved(pre: Display, post: Display, call: Call)
        requires
            pre.wf(),
            pre.at < pre.tasks@.len(),
            post.tasks == pre.tasks,
            post.images() == pre.images(),
            ({
                let task = pre.tasks@[pre.at as int];
                let n = tasks::calls_before(task, pre.images(), pre.place);
                &&& 0 <= n < task.calls(pre.images()).len()
                &&& task.calls(pre.images())[n] == call
                &&& post.at == pre.at ==> tasks::calls_before(task, pre.images(), post.place) == n
                    + 1
                &&& post.at != pre.at ==> post.at == pre.at + 1 && post.place == Place::Begin && n
                    + 1 == task.calls(pre.images()).len()
            }),
        ensures
            pre@.pending.len() > 0,
            pre@.pending[0] == call,
            post@.pending == pre@.pending.skip(1),
    {
        tasks::lemma_next_call(
            pre.tasks@,
            pre.at as int,
            pre.place,
            pre.images(),
            post.at as int,
            post.place,
        );
    }

    /// Goes to the next task.
    fn next_task(&mut self)
        requires
            old(self).at < old(self).tasks@.len(),
        ensures
            final(self).at == old(self).at + 1,
            *final(self) == (Display {
                at: final(self).at,
                place: Place::Begin,
                ..*old(self)
            }),
    {
        assert(self.at < self.tasks.len());
        self.at = self.at + 1;
        self.place = Place::Begin;
    }

    /// Begins the frame of the task in progress.
    fn begin_frame(&mut self, task: Task) -> (step: Step)
        requires
            old(self).wf(),
            old(self).at < old(self).tasks@.len(),
            old(self).place == Place::Begin,
            task == old(self).tasks@[old(self).at as int],
            task is Push || task.drives_every_row(),
        ensures
            Self::issued(*old(self), *final(self), step@),
    {
        let ghost pre = *self;
        self.prepare(task);
        self.skipping = 0;
        self.place = Place::Row { row: 0, loaded: false };
        let step: Step = self.epd.frame_start();
        proof {
            tasks::lemma_frame_calls(task, pre.images());
            Self::lemma_moved(pre, *self, Call::FrameStart);
            Self::lemma_tasks_kept(pre, *self);
        }
        step
    }

    /// Ends the frame of the task in progress.
    fn end_frame(&mut self, task: Task) -> (step: Step)
        requires
            old(self).wf(),
            old(self).at < old(self).tasks@.len(),
            task == old(self).tasks@[old(self).at as int],
            task is Push || task.drives_every_row(),
            old(self).place is Row,
            tasks::calls_before(task, old(self).images(), old(self).place) == task.rows(
                old(self).images(),
            ).len() + 1,
        ensures
            Self::issued(*old(self), *final(self), step@),
    {
        let ghost pre = *self;
        let pauses: bool = match task {
            Task::Push { pause, .. } => pause,
            Task::Matrix { .. } | Task::Gray2Full { .. } | Task::Gray2Partial { .. } => true,
            _ => false,
        };
        if pauses {
            self.place = Place::Pause;
        } else {
            self.next_task();
        }
        let step: Step = self.epd.frame_end();
        proof {
            tasks::lemma_frame_calls(task, pre.images());
            Self::lemma_moved(pre, *self, Call::FrameEnd);
            Self::lemma_tasks_kept(pre, *self);
            if self.at < self.tasks@.len() {
                assert(self.task_wf(self.at as int));
            }
        }
        step
    }

    /// The pause after a frame.
    fn pause(&mut self, task: Task) -> (step: Step)
        requires
            old(self).wf(),
            old(self).at < old(self).tasks@.len(),
            task == old(self).tasks@[old(self).at as int],
            old(self).place is Pause,
        ensures
            Self::issued(*old(self), *final(self), step@),
    {
        let ghost pre = *self;
        let action: Action = match task {
            Task::Push { .. } => Action::DelayMillis(500),
            _ => Action::DelayMicros(SETTLE_MICROS),
        };
        self.next_task();
        let step: Step = self.epd.perform(action);
        proof {
            tasks::lemma_frame_calls(task, pre.images());
            Self::lemma_moved(pre, *self, task.pause()[0]);
            Self::lemma_tasks_kept(pre, *self);
            if self.at < self.tasks@.len() {
                assert(self.task_wf(self.at as int));
            }
        }
        step
    }
}

impl Display {
    /// A row above the pushed area, clocked with inert data. A clock pulse without data
    /// would desynchronise the row driver. The data is loaded once per run of such rows.
    fn row_skip(&mut self, task: Task, row: u16, loaded: bool) -> (step: Step)
        requires
            old(self).wf(),
            old(self).at < old(self).tasks@.len(),
            task == old(self).tasks@[old(self).at as int],
            task is Push,
            old(self).place == (Place::Row { row, loaded }),
            row < task->area.y,
            row < tasks::push_end(task->area),
        ensures
            Self::issued(*old(self), *final(self), step@),
            !loaded && old(self).skipping == 0 ==> {
                &&& old(self)@.pending[0] == Call::SetBuffer(tasks::inert_line())
                &&& final(self).place == (Place::Row { row, loaded: true })
                &&& final(self).skipping == 0
            },
            loaded || old(self).skipping > 0 ==> {
                &&& old(self)@.pending[0] == Call::OutputRow(1)
                &&& final(self).place == (Place::Row { row: (row + 1) as u16, loaded: false })
                &&& final(self).skipping == old(self).skipping + 1
            },
    {
        let ghost pre = *self;
        proof {
            tasks::lemma_frame_calls(task, pre.images());
            tasks::lemma_push_rows(task, pre.images(), row, loaded);
        }
        let ghost mut call = Call::OutputRow(1);
        let step: Step;
        if !loaded && self.skipping == 0 {
            self.place = Place::Row { row, loaded: true };
            let inert: [u8; BYTES_PER_LINE] = [0xFFu8; 240];
            step = self.epd.set_buffer(&inert);
            assert(inert@ =~= tasks::inert_line());
            proof {
                call = Call::SetBuffer(tasks::inert_line());
            }
        } else {
            self.skipping = self.skipping + 1;
            self.place = Place::Row { row: row + 1, loaded: false };
            step = self.epd.output_row(1);
        }
        proof {
            Self::lemma_moved(pre, *self, call);
            Self::lemma_tasks_kept(pre, *self);
        }
        step
    }

    /// Outputs a row of the pushed area.
    fn row_write(&mut self, task: Task, row: u16, output_time: u16) -> (step: Step)
        requires
            old(self).wf(),
            old(self).at < old(self).tasks@.len(),
            task == old(self).tasks@[old(self).at as int],
            task is Push,
            output_time == task->time,
            old(self).place == (Place::Row { row, loaded: row == task->area.y }),
            task->area.y <= row < tasks::push_end(task->area),
        ensures
            Self::issued(*old(self), *final(self), step@),
    {
        let ghost pre = *self;
        proof {
            tasks::lemma_frame_calls(task, pre.images());
            tasks::lemma_push_rows(task, pre.images(), row, row == task->area.y);
            assert(self.task_wf(self.at as int));
        }
        self.skipping = 0;
        self.place = Place::Row { row: row + 1, loaded: false };
        let step: Step = self.epd.output_row(output_time);
        proof {
            Self::lemma_moved(pre, *self, Call::OutputRow(output_time));
            Self::lemma_tasks_kept(pre, *self);
        }
        step
    }

    /// The next call of a push, within its rows. The frame ends at the bottom of the area:
    /// the rows below keep their image.
    fn push_pixels(&mut self, task: Task, row: u16, loaded: bool) -> (step: Step)
        requires
            old(self).wf(),
            old(self).at < old(self).tasks@.len(),
            task == old(self).tasks@[old(self).at as int],
            task is Push,
            old(self).place == (Place::Row { row, loaded }),
        ensures
            Self::issued(*old(self), *final(self), step@),
    {
        let ghost pre = *self;
        proof {
            tasks::lemma_frame_calls(task, pre.images());
            tasks::lemma_push_rows(task, pre.images(), row, loaded);
            assert(self.task_wf(self.at as int));
        }
        if let Task::Push { area, time, color, .. } = task {
            let bottom: u16 = area.y + area.height;
            let last: u16 = if bottom < Self::HEIGHT {
                bottom
            } else {
                Self::HEIGHT
            };
            if row >= last {
                self.end_frame(task)
            } else if row < area.y {
                self.row_skip(task, row, loaded)
            } else if row == area.y && !loaded {
                self.place = Place::Row { row, loaded: true };
                let line: [u8; BYTES_PER_LINE] = tasks::build_push_line(area, color);
                let step: Step = self.epd.set_buffer(&line);
                proof {
                    Self::lemma_moved(pre, *self, Call::SetBuffer(tasks::push_line(area, color)));
                    Self::lemma_tasks_kept(pre, *self);
                }
                step
            } else {
                self.row_write(task, row, time)
            }
        } else {
            Step::Completed
        }
    }

    /// The row dwell of a frame that drives every row.
    fn dwell(task: Task) -> (time: u16)
        requires
            task.drives_every_row(),
            task matches Task::Draw { k, .. } ==> k < 15,
        ensures
            time == task.dwell(),
            time <= 300,
    {
        match task {
            Task::Draw { mode, k } => mode.contrast_cycles()[k],
            Task::Waveform { .. } => WF_DWELL,
            _ => MATRIX_DWELL,
        }
    }

    /// The next call of a frame that drives every row, within its rows.
    fn output_frame(&mut self, task: Task, row: u16, loaded: bool) -> (step: Step)
        requires
            old(self).wf(),
            old(self).at < old(self).tasks@.len(),
            task == old(self).tasks@[old(self).at as int],
            task.drives_every_row(),
            old(self).place == (Place::Row { row, loaded }),
        ensures
            Self::issued(*old(self), *final(self), step@),
    {
        let ghost pre = *self;
        proof {
            tasks::lemma_frame_calls(task, pre.images());
            assert(self.task_wf(self.at as int));
        }
        if row >= Self::HEIGHT {
            return self.end_frame(task);
        }
        let ghost n: int = 2 * row + (if loaded {
            1int
        } else {
            0
        });
        assert(task.calls(pre.images())[n + 1] == task.rows(pre.images())[n]);
        let ghost mut call = Call::OutputRow(task.dwell());
        let step: Step;
        if !loaded {
            let line: [u8; BYTES_PER_LINE] = match self.staged {
                Some(line) => line,
                None => self.drive_line(task, row),
            };
            self.staged = None;
            self.place = Place::Row { row, loaded: true };
            step = self.epd.set_buffer(&line);
            proof {
                call = Call::SetBuffer(task.line(pre.images(), row as int));
            }
        } else {
            self.place = Place::Row { row: row + 1, loaded: false };
            step = self.epd.output_row(Self::dwell(task));
        }
        proof {
            Self::lemma_moved(pre, *self, call);
            Self::lemma_tasks_kept(pre, *self);
        }
        step
    }

    /// A task that is a single call.
    fn single_call(&mut self, task: Task) -> (step: Step)
        requires
            old(self).wf(),
            old(self).at < old(self).tasks@.len(),
            task == old(self).tasks@[old(self).at as int],
            !(task is Push || task.drives_every_row()),
        ensures
            Self::issued(*old(self), *final(self), step@),
    {
        let ghost pre = *self;
        self.next_task();
        let step: Step = match task {
            Task::BringUp => self.epd.bring_up(),
            Task::PowerOn => self.epd.power_on(),
            _ => self.epd.power_off(),
        };
        proof {
            Self::lemma_moved(pre, *self, task.calls(pre.images())[0]);
            Self::lemma_tasks_kept(pre, *self);
            if self.at < self.tasks@.len() {
                assert(self.task_wf(self.at as int));
            }
        }
        step
    }

    /// Makes the next pending call.
    fn issue(&mut self) -> (step: Step)
        requires
            old(self).wf(),
            old(self).at < old(self).tasks@.len(),
        ensures
            Self::issued(*old(self), *final(self), step@),
    {
        let task: Task = self.tasks[self.at];
        match task {
            Task::BringUp | Task::PowerOn | Task::PowerOff => self.single_call(task),
            _ => match self.place {
                Place::Begin => self.begin_frame(task),
                Place::Row { row, loaded } => match task {
                    Task::Push { .. } => self.push_pixels(task, row, loaded),
                    _ => self.output_frame(task, row, loaded),
                },
                Place::Pause => self.pause(task),
            },
        }
    }
}

/// Sets every byte of a frame.
fn fill_bytes(frame: &mut Vec<u8>, value: u8)
    ensures
        final(frame)@ == Seq::new(old(frame)@.len(), |i: int| value),
{
    let n: usize = frame.len();
    let mut i: usize = 0;
    while i < n
        invariant
            i <= n,
            n == old(frame)@.len(),
            frame@.len() == n,
            forall|j: int| 0 <= j < i ==> #[trigger] frame@[j] == value,
        decreases n - i,
    {
        frame[i] = value;
        i = i + 1;
    }
    assert(frame@ =~= Seq::new(old(frame)@.len(), |i: int| value));
}

/// Copies a frame.
fn copy_bytes(to: &mut Vec<u8>, from: &Vec<u8>)
    requires
        old(to)@.len() == from@.len(),
    ensures
        final(to)@ == from@,
{
    let n: usize = from.len();
    let mut i: usize = 0;
    while i < n
        invariant
            i <= n,
            n == from@.len(),
            to@.len() == n,
            forall|j: int| 0 <= j < i ==> #[trigger] to@[j] == from@[j],
        decreases n - i,
    {
        to[i] = from[i];
        i = i + 1;
    }
    assert(to@ =~= from@);
}

impl Display {
    /// The frames always cover the whole panel, and the 2-bpp frames exist both or not at
    /// all.
    pub proof fn law_frame_sizes(&self)
        requires
            self.wf(),
        ensures
            self@.framebuffer.len() == 259200,
            self@.fb2 matches Some(frame) ==> frame.len() == 129600,
            self@.prev2 matches Some(frame) ==> frame.len() == 129600,
            self@.fb2 is Some == self@.prev2 is Some,
    {
    }

    /// Calls are pending as long as there are tasks to do. A scanline that has been built
    /// ahead is the one that the next call loads.
    pub proof fn law_staged_line(&self)
        requires
            self.wf(),
        ensures
            self@.pending.len() == 0 <==> self.todo().len() == 0,
            self.staged_line() matches Some(line) ==> self@.pending.len() > 0
                && self@.pending[0] == Call::SetBuffer(line),
    {
        self.lemma_pending();
        self.lemma_next_line();
    }

    /// The next scanline of a frame that drives every row is what the first pending call
    /// loads, if it loads one.
    proof fn lemma_next_line(&self)
        requires
            self.wf(),
        ensures
            self.next_line() matches Some(line) ==> self@.pending.len() > 0
                && self@.pending[0] == Call::SetBuffer(line),
            self.at < self.tasks@.len() && self.tasks@[self.at as int].drives_every_row()
                && self@.pending[0] is SetBuffer ==> self.next_line() is Some,
    {
        if self.at < self.tasks@.len() {
            let task = self.tasks@[self.at as int];
            let images = self.images();
            if task.drives_every_row() {
                tasks::lemma_frame_calls(task, images);
                let n = tasks::calls_before(task, images, self.place);
                assert(self@.pending[0] == task.calls(images)[n]);
                if let Place::Row { row, loaded } = self.place {
                    if row < 540 {
                        assert(task.calls(images)[(n - 1) + 1] == task.rows(images)[n - 1]);
                    }
                }
            }
        }
    }

    /// As long as tasks are left, calls are pending.
    proof fn lemma_pending(&self)
        requires
            self.wf(),
        ensures
            self@.pending.len() == 0 <==> self.at == self.tasks@.len(),
    {
        if self.at < self.tasks@.len() {
            let task = self.tasks@[self.at as int];
            assert(self.task_wf(self.at as int));
            if task is Push || task.drives_every_row() {
                tasks::lemma_frame_calls(task, self.images());
                if let Place::Row { row, loaded } = self.place {
                    if task is Push {
                        tasks::lemma_push_rows(task, self.images(), row, loaded);
                    }
                }
            }
        }
    }

    /// Gives the operation in progress up.
    fn abandon(&mut self)
        requires
            old(self).wf(),
        ensures
            final(self).wf(),
            final(self)@ == old(self)@.abandoned(),
            final(self).todo() == Seq::<Task>::empty(),
    {
        self.tasks = Vec::new();
        self.at = 0;
        self.place = Place::Begin;
        self.after = After::Nothing;
        self.staged = None;
    }

    /// Notes the 2-bpp framebuffer as what the panel shows.
    fn snapshot_gray2(&mut self)
        requires
            old(self).wf(),
            old(self)@.pending.len() == 0,
        ensures
            final(self).wf(),
            final(self)@ == (if old(self)@.fb2 is Some && old(self)@.prev2 is Some {
                DisplayModel { prev2: old(self)@.fb2, ..old(self)@ }
            } else {
                old(self)@
            }),
    {
        proof {
            self.lemma_pending();
        }
        let ghost pre = *self;
        if let Some(cur) = &self.fb2 {
            if let Some(prev) = &mut self.prev2 {
                copy_bytes(prev, cur);
            }
        }
        proof {
            Self::lemma_tasks_kept(pre, *self);
        }
    }

    /// Ends an operation whose calls have all been made.
    fn finish(&mut self)
        requires
            old(self).wf(),
            old(self)@.pending.len() == 0,
        ensures
            final(self).wf(),
            final(self)@ == old(self)@.finished(),
            final(self).todo() == Seq::<Task>::empty(),
    {
        match self.after {
            After::Nothing => {},
            After::WipeFramebuffer => {
                fill_bytes(&mut self.framebuffer, 0xFF);
            },
            After::SnapshotGray2 => {
                self.snapshot_gray2();
            },
        }
        self.after = After::Nothing;
        self.tasks = Vec::new();
        self.at = 0;
        self.place = Place::Begin;
    }

    /// Builds the next scanline ahead, if there is one.
    fn stage_line(&mut self)
        requires
            old(self).wf(),
        ensures
            final(self).wf(),
            final(self)@ == old(self)@,
            *final(self) == (Display { staged: final(self).staged, ..*old(self) }),
            match old(self).next_line() {
                Some(line) => final(self).staged matches Some(built) && built@ == line,
                None => final(self).staged is None,
            },
    {
        let ghost pre = *self;
        if self.at < self.tasks.len() {
            let task: Task = self.tasks[self.at];
            if let Place::Row { row, loaded } = self.place {
                let drives: bool = match task {
                    Task::BringUp | Task::PowerOn | Task::PowerOff | Task::Push { .. } => false,
                    _ => true,
                };
                if drives && row < Self::HEIGHT && !loaded {
                    let line: [u8; BYTES_PER_LINE] = self.drive_line(task, row);
                    self.staged = Some(line);
                }
            }
        }
        proof {
            Self::lemma_tasks_kept(pre, *self);
        }
    }

    /// Goes on after a call that was completed: makes the next one, or ends the operation.
    fn proceed(&mut self) -> (step: Step)
        requires
            old(self).wf(),
            old(self)@.panel.stage == Stage::Ready,
        ensures
            final(self).wf(),
            (final(self)@, step@) == old(self)@.proceeded(),
            !(final(self)@.panel.stage is RowWait),
            step@ is Perform ==> final(self).todo() == old(self).todo() || final(self).todo()
                == old(self).todo().skip(1),
            !(step@ is Perform) ==> final(self).todo() == Seq::<Task>::empty(),
    {
        let ghost pre = *self;
        proof {
            self.lemma_pending();
            if pre@.pending.len() > 0 {
                tasks::lemma_answered(pre@.pending[0], pre@.panel);
            }
        }
        if self.at < self.tasks.len() {
            let step: Step = self.issue();
            assert(pre.tasks@.skip(pre.at + 1) =~= pre.tasks@.skip(pre.at as int).skip(1));
            match step {
                Step::Failed(e) => {
                    self.abandon();
                    Step::Failed(e)
                },
                _ => step,
            }
        } else {
            self.finish();
            Step::Completed
        }
    }

    /// Goes on with the operation in progress, after a batch of actions (or, at first,
    /// without one): tells what the hardware has to do next, or how the operation ended.
    pub fn step(&mut self, event: Event) -> (step: Step)
        requires
            old(self).wf(),
        ensures
            final(self).wf(),
            (final(self)@, step@) == old(self)@.stepped(event),
            history::served(old(self)@, Request::Step(event), final(self)@),
            step@ is Perform ==> final(self).todo() == old(self).todo() || final(self).todo()
                == old(self).todo().skip(1),
            !(step@ is Perform) ==> final(self).todo() == Seq::<Task>::empty(),
            // While a scanline of a frame that drives every row is being sent, the next one
            // has been built.
            final(self)@.panel.stage is RowWait && final(self).todo().len() > 0
                && final(self).todo()[0].drives_every_row() ==> (
            final(self)@.pending[0] matches Call::SetBuffer(line) ==> final(self).staged_line()
                == Some(line)),
    {
        let ghost pre = *self;
        let step: Step = self.epd.resume(event);
        proof {
            Self::lemma_tasks_kept(pre, *self);
            ed047tc1::lemma_resumed(pre@.panel, event);
        }
        match step {
            Step::Perform(batch) => {
                // While a scanline is being sent, the next one is built.
                if self.epd.in_flight() {
                    self.stage_line();
                    proof {
                        self.lemma_next_line();
                    }
                }
                Step::Perform(batch)
            },
            Step::Failed(e) => {
                self.abandon();
                Step::Failed(e)
            },
            Step::Completed => self.proceed(),
        }
    }
}

impl DisplayModel {
    /// The model with its 2-bpp frames in existence: those that were not are white.
    pub open spec fn with_gray2(self) -> Self {
        DisplayModel {
            fb2: Some(
                match self.fb2 {
                    Some(f) => f,
                    None => white2(),
                },
            ),
            prev2: Some(
                match self.prev2 {
                    Some(f) => f,
                    None => white2(),
                },
            ),
            ..self
        }
    }

    /// The model at the start of an operation.
    pub open spec fn started(self, todo: Seq<Task>, phases: Seq<Phase>, after: After) -> Self {
        DisplayModel { pending: tasks::all_calls(todo, self.images(phases)), after, ..self }
    }
}

/// Appends the tasks of a flashing clear: the area is driven hard to black, then to white,
/// again and again.
fn clear_cycles(todo: &mut Vec<Task>, area: Rectangle, cycles: u16, cycle_time: u16)
    ensures
        final(todo)@ == old(todo)@ + tasks::clear_tasks(area, cycles as nat, cycle_time),
{
    let n: u32 = 8 * cycles as u32;
    let mut i: u32 = 0;
    while i < n
        invariant
            i <= n,
            n == 8 * cycles,
            todo@ == old(todo)@ + tasks::clear_tasks(area, cycles as nat, cycle_time).take(
                i as int,
            ),
        decreases n - i,
    {
        let color: u16 = if i % 8 < 4 {
            0
        } else {
            1
        };
        todo.push(Task::Push { area, time: cycle_time, color, pause: false });
        i = i + 1;
        assert(todo@ =~= old(todo)@ + tasks::clear_tasks(area, cycles as nat, cycle_time).take(
            i as int,
        ));
    }
    assert(todo@ =~= old(todo)@ + tasks::clear_tasks(area, cycles as nat, cycle_time));
}

/// Appends slow pushes of one colour.
fn slow_pushes(todo: &mut Vec<Task>, area: Rectangle, color: u16, count: u16)
    ensures
        final(todo)@ == old(todo)@ + tasks::push_tasks(area, color, count as nat),
{
    let mut i: u16 = 0;
    while i < count
        invariant
            i <= count,
            todo@ == old(todo)@ + tasks::push_tasks(area, color, i as nat),
        decreases count - i,
    {
        todo.push(Task::Push { area, time: 50, color, pause: true });
        i = i + 1;
        assert(todo@ =~= old(todo)@ + tasks::push_tasks(area, color, i as nat));
    }
    assert(todo@ =~= old(todo)@ + tasks::push_tasks(area, color, count as nat));
}

impl Display {
    /// The whole panel.
    pub fn bounding_box() -> (area: Rectangle)
        ensures
            area == whole_panel(),
    {
        Rectangle { x: 0, y: 0, width: Self::WIDTH, height: Self::HEIGHT }
    }

    /// A white display. Bringing up its hardware is its first operation.
    pub fn new(pins: PinConfig) -> (display: Self)
        ensures
            display.wf(),
            display@ == DisplayModel::initial(pins),
            display.todo() == seq![Task::BringUp],
    {
        let todo: Vec<Task> = vec![Task::BringUp];
        let display = Display {
            epd: ED047TC1::new(pins),
            skipping: 0,
            framebuffer: vec![0xFFu8; FRAMEBUFFER_SIZE],
            rotation: DisplayRotation::default(),
            fb2: None,
            prev2: None,
            tasks: todo,
            at: 0,
            place: Place::Begin,
            after: After::Nothing,
            lut: Vec::new(),
            lut2: [0u8; 256],
            phases: Vec::new(),
            staged: None,
        };
        proof {
            assert(display.framebuffer@ =~= white4());
            assert(display.tasks@ =~= seq![Task::BringUp]);
            tasks::lemma_calls_from_begin(display.tasks@, 0, display.images());
            assert(display.tasks@.skip(0) =~= seq![Task::BringUp]);
            tasks::lemma_all_calls_single(Task::BringUp, display.images());
        }
        display
    }

    /// Starts an operation.
    fn start(&mut self, todo: Vec<Task>, phases: Vec<Phase>, after: After)
        requires
            old(self).wf(),
            old(self)@.idle(),
            Self::tasks_ok(
                todo@,
                phases@.len(),
                old(self)@.fb2 is Some && old(self)@.prev2 is Some,
            ),
        ensures
            final(self).wf(),
            final(self)@ == old(self)@.started(todo@, phases@, after),
            final(self).todo() == todo@,
    {
        self.tasks = todo;
        self.at = 0;
        self.place = Place::Begin;
        self.after = after;
        self.phases = phases;
        proof {
            tasks::lemma_calls_from_begin(self.tasks@, 0, self.images());
            assert(self.tasks@.skip(0) =~= self.tasks@);
            if self.tasks@.len() > 0 {
                assert(self.task_wf(0));
            }
        }
    }

    /// Whether no operation is in progress.
    pub fn is_idle(&self) -> (b: bool)
        requires
            self.wf(),
        ensures
            b == self@.idle(),
    {
        proof {
            self.lemma_pending();
        }
        let nothing: bool = match self.after {
            After::Nothing => true,
            _ => false,
        };
        self.at == self.tasks.len() && self.epd.is_ready() && nothing
    }

    /// The scanline to be loaded into the DMA buffer.
    pub fn line_buffer(&self) -> (line: &[u8])
        ensures
            line@ == self@.line,
    {
        self.epd.line_buffer()
    }

    /// Set the rotation
    pub fn set_rotation(&mut self, rotation: DisplayRotation)
        requires
            old(self).wf(),
        ensures
            final(self).wf(),
            final(self)@ == (DisplayModel { rotation, ..old(self)@ }),
            history::served(old(self)@, Request::SetRotation(rotation), final(self)@),
            final(self).todo() == old(self).todo(),
    {
        let ghost pre = *self;
        self.rotation = rotation;
        proof {
            Self::lemma_tasks_kept(pre, *self);
        }
    }

    /// Get rotation
    pub fn rotation(&self) -> (rotation: DisplayRotation)
        ensures
            rotation == self@.rotation,
    {
        self.rotation
    }

    /// Turn the display on.
    pub fn power_on(&mut self)
        requires
            old(self).wf(),
            old(self)@.idle(),
        ensures
            final(self).wf(),
            final(self)@ == (DisplayModel { pending: seq![Call::PowerOn], ..old(self)@ }),
            history::served(old(self)@, Request::PowerOn, final(self)@),
            final(self).todo() == seq![Task::PowerOn],
    {
        let todo: Vec<Task> = vec![Task::PowerOn];
        proof {
            assert(todo@ =~= seq![Task::PowerOn]);
            tasks::lemma_all_calls_single(Task::PowerOn, self@.images(seq![]));
        }
        self.start(todo, Vec::new(), After::Nothing);
    }

    /// Turn the display off.
    pub fn power_off(&mut self)
        requires
            old(self).wf(),
            old(self)@.idle(),
        ensures
            final(self).wf(),
            final(self)@ == (DisplayModel { pending: seq![Call::PowerOff], ..old(self)@ }),
            history::served(old(self)@, Request::PowerOff, final(self)@),
            final(self).todo() == seq![Task::PowerOff],
    {
        let todo: Vec<Task> = vec![Task::PowerOff];
        proof {
            assert(todo@ =~= seq![Task::PowerOff]);
            tasks::lemma_all_calls_single(Task::PowerOff, self@.images(seq![]));
        }
        self.start(todo, Vec::new(), After::Nothing);
    }

    /// Flush updates the display with the contents of the framebuffer, and then clears the
    /// framebuffer. The provided mode should match the contents of your framebuffer.
    pub fn flush(&mut self, mode: DrawMode)
        requires
            old(self).wf(),
            old(self)@.idle(),
        ensures
            final(self).wf(),
            final(self)@ == old(self)@.started(
                tasks::draw_tasks(mode),
                seq![],
                After::WipeFramebuffer,
            ),
            history::served(old(self)@, Request::Flush(mode), final(self)@),
            final(self).todo() == tasks::draw_tasks(mode),
    {
        let mut todo: Vec<Task> = Vec::new();
        let mut k: usize = 0;
        while k < DRAW_IMAGE_FRAME_COUNT
            invariant
                k <= 15,
                todo@ == tasks::draw_tasks(mode).take(k as int),
            decreases 15 - k,
        {
            todo.push(Task::Draw { mode, k });
            k = k + 1;
            assert(todo@ =~= tasks::draw_tasks(mode).take(k as int));
        }
        assert(todo@ =~= tasks::draw_tasks(mode));
        self.start(todo, Vec::new(), After::WipeFramebuffer);
    }

    /// Calibrated grayscale flush: replays a waveform for the given temperature bucket from
    /// a white panel (clear it first), and then clears the framebuffer.
    pub fn flush_waveform(&mut self, mode5: &Mode5Waveform, range_idx: usize)
        requires
            old(self).wf(),
            old(self)@.idle(),
            range_idx < mode5.buckets@.len(),
        ensures
            final(self).wf(),
            final(self)@ == old(self)@.started(
                tasks::waveform_tasks(mode5.buckets@[range_idx as int]@.len()),
                mode5.buckets@[range_idx as int]@,
                After::WipeFramebuffer,
            ),
            history::served(
                old(self)@,
                Request::FlushWaveform(mode5.buckets@[range_idx as int]@),
                final(self)@,
            ),
            final(self).todo() == tasks::waveform_tasks(
                mode5.buckets@[range_idx as int]@.len(),
            ),
    {
        let bucket: &Vec<Phase> = mode5.mode5_bucket(range_idx);
        let n: usize = bucket.len();
        let mut todo: Vec<Task> = Vec::new();
        let mut phases: Vec<Phase> = Vec::new();
        let mut i: usize = 0;
        while i < n
            invariant
                i <= n,
                n == bucket@.len(),
                phases@ == bucket@.take(i as int),
                todo@ == tasks::waveform_tasks(bucket@.len()).take(i as int),
            decreases n - i,
        {
            phases.push(bucket[i]);
            todo.push(Task::Waveform { phase: i });
            i = i + 1;
            assert(phases@ =~= bucket@.take(i as int));
            assert(todo@ =~= tasks::waveform_tasks(bucket@.len()).take(i as int));
        }
        assert(phases@ =~= bucket@);
        assert(todo@ =~= tasks::waveform_tasks(bucket@.len()));
        self.start(todo, phases, After::WipeFramebuffer);
    }

    /// Fast grayscale flush with the 8-pass matrix, from a white panel (clear it first);
    /// then clears the framebuffer.
    pub fn flush_matrix(&mut self)
        requires
            old(self).wf(),
            old(self)@.idle(),
        ensures
            final(self).wf(),
            final(self)@ == old(self)@.started(
                tasks::matrix_tasks(),
                seq![],
                After::WipeFramebuffer,
            ),
            history::served(old(self)@, Request::FlushMatrix, final(self)@),
            final(self).todo() == tasks::matrix_tasks(),
    {
        let mut todo: Vec<Task> = Vec::new();
        let mut pass: u8 = 0;
        while pass < waveform::MATRIX_PASSES
            invariant
                pass <= 8,
                todo@ == tasks::matrix_tasks().take(pass as int),
            decreases 8 - pass,
        {
            todo.push(Task::Matrix { pass });
            pass = pass + 1;
            assert(todo@ =~= tasks::matrix_tasks().take(pass as int));
        }
        assert(todo@ =~= tasks::matrix_tasks());
        self.start(todo, Vec::new(), After::WipeFramebuffer);
    }

    /// Clears the screen.
    pub fn clear(&mut self)
        requires
            old(self).wf(),
            old(self)@.idle(),
        ensures
            final(self).wf(),
            final(self)@ == old(self)@.started(
                tasks::clear_tasks(whole_panel(), 4, 50),
                seq![],
                After::Nothing,
            ),
            history::served(old(self)@, Request::Clear, final(self)@),
            final(self).todo() == tasks::clear_tasks(whole_panel(), 4, 50),
    {
        self.clear_area(Self::bounding_box());
    }

    /// Clears an area of the screen.
    pub fn clear_area(&mut self, area: Rectangle)
        requires
            old(self).wf(),
            old(self)@.idle(),
            area.pushable(),
        ensures
            final(self).wf(),
            final(self)@ == old(self)@.started(
                tasks::clear_tasks(area, 4, 50),
                seq![],
                After::Nothing,
            ),
            history::served(old(self)@, Request::ClearArea(area), final(self)@),
            final(self).todo() == tasks::clear_tasks(area, 4, 50),
    {
        let mut todo: Vec<Task> = Vec::new();
        clear_cycles(&mut todo, area, 4, 50);
        assert(todo@ =~= tasks::clear_tasks(area, 4, 50));
        self.start(todo, Vec::new(), After::Nothing);
    }

    /// Performs the screen repair routine.
    pub fn repair(&mut self)
        requires
            old(self).wf(),
            old(self)@.idle(),
        ensures
            final(self).wf(),
            final(self)@ == old(self)@.started(
                tasks::repair_tasks(whole_panel()),
                seq![],
                After::Nothing,
            ),
            history::served(old(self)@, Request::Repair, final(self)@),
            final(self).todo() == tasks::repair_tasks(whole_panel()),
    {
        let area: Rectangle = Self::bounding_box();
        let mut todo: Vec<Task> = Vec::new();
        clear_cycles(&mut todo, area, 4, 50);
        assert(todo@ =~= tasks::clear_tasks(area, 4, 50));
        slow_pushes(&mut todo, area, 0, 20);
        clear_cycles(&mut todo, area, 4, 50);
        slow_pushes(&mut todo, area, 1, 40);
        clear_cycles(&mut todo, area, 4, 50);
        self.start(todo, Vec::new(), After::Nothing);
    }
}

/// `after` is the 4-bpp frame `before` with pixel `(x, y)` set to `color`.
pub open spec fn pixel4_set(before: Seq<u8>, after: Seq<u8>, x: int, y: int, color: u8) -> bool {
    &&& after.len() == before.len()
    &&& forall|px: int, py: int|
        0 <= px < 960 && 0 <= py < 540 ==> #[trigger] pixels::gray4(after, px, py) == (if px == x
            && py == y {
            color
        } else {
            pixels::gray4(before, px, py)
        })
}

/// `after` is the 2-bpp frame `before` with pixel `(x, y)` set to `level`.
pub open spec fn pixel2_set(before: Seq<u8>, after: Seq<u8>, x: int, y: int, level: u8) -> bool {
    &&& after.len() == before.len()
    &&& forall|px: int, py: int|
        0 <= px < 960 && 0 <= py < 540 ==> #[trigger] pixels::gray2(after, px, py) == (if px == x
            && py == y {
            level
        } else {
            pixels::gray2(before, px, py)
        })
}

/// The 2-bpp frame that shows a 4-bpp frame: every gray level divided by four.
pub open spec fn quantised(frame: Seq<u8>) -> Seq<u8> {
    Seq::new(
        129600,
        |b: int|
            pixels::pack(
                pixels::nibble(frame[2 * b], 0) / 4,
                pixels::nibble(frame[2 * b], 1) / 4,
                pixels::nibble(frame[2 * b + 1], 0) / 4,
                pixels::nibble(frame[2 * b + 1], 1) / 4,
            ),
    )
}

proof fn lemma_pixel4_set(before: Seq<u8>, after: Seq<u8>, x: int, y: int, color: u8)
    requires
        before.len() == 259200,
        0 <= x < 960,
        0 <= y < 540,
        ({
            let index = x / 2 + y * 480;
            &&& after.len() == before.len()
            &&& forall|i: int|
                0 <= i < 259200 && i != index ==> #[trigger] after[i] == before[i]
            &&& pixels::nibble(after[index], x % 2) == color
            &&& pixels::nibble(after[index], 1 - x % 2) == pixels::nibble(before[index], 1 - x % 2)
        }),
    ensures
        pixel4_set(before, after, x, y, color),
{
    assert forall|px: int, py: int| 0 <= px < 960 && 0 <= py < 540 implies #[trigger] pixels::gray4(
        after,
        px,
        py,
    ) == (if px == x && py == y {
        color
    } else {
        pixels::gray4(before, px, py)
    }) by {
        let index = x / 2 + y * 480;
        let i = py * 480 + px / 2;
        assert(0 <= i < 259200);
        if i == index {
            assert(py == y && px / 2 == x / 2);
        } else {
            assert(after[i] == before[i]);
        }
    }
}

proof fn lemma_pixel2_set(before: Seq<u8>, after: Seq<u8>, x: int, y: int, level: u8)
    requires
        before.len() == 129600,
        0 <= x < 960,
        0 <= y < 540,
        ({
            let index = x / 4 + y * 240;
            &&& after.len() == before.len()
            &&& forall|i: int|
                0 <= i < 129600 && i != index ==> #[trigger] after[i] == before[i]
            &&& forall|j: int|
                0 <= j < 4 ==> #[trigger] pixels::slot(after[index], j) == (if j == x % 4 {
                    level
                } else {
                    pixels::slot(before[index], j)
                })
        }),
    ensures
        pixel2_set(before, after, x, y, level),
{
    assert forall|px: int, py: int| 0 <= px < 960 && 0 <= py < 540 implies #[trigger] pixels::gray2(
        after,
        px,
        py,
    ) == (if px == x && py == y {
        level
    } else {
        pixels::gray2(before, px, py)
    }) by {
        let index = x / 4 + y * 240;
        let i = py * 240 + px / 4;
        assert(0 <= i < 129600);
        if i == index {
            assert(py == y && px / 4 == x / 4);
        } else {
            assert(after[i] == before[i]);
        }
    }
}

impl Display {
    /// Sets a single pixel in the framebuffer without updating the display.
    ///
    /// If the provided coordinates are outside the screen, this method returns
    /// [`Error::OutOfBounds`]. If the provided color is greater than 0x0F, this method
    /// returns [`Error::InvalidColor`].
    pub fn set_pixel(&mut self, x: u16, y: u16, color: u8) -> (result: Result<(), Error>)
        requires
            old(self).wf(),
            old(self)@.idle(),
        ensures
            final(self).wf(),
            result == (if x >= 960 || y >= 540 {
                Err(Error::OutOfBounds)
            } else if color > 0x0F {
                Err(Error::InvalidColor)
            } else {
                Ok(())
            }),
            result is Err ==> final(self)@ == old(self)@,
            result is Ok ==> final(self)@ == (DisplayModel {
                framebuffer: final(self)@.framebuffer,
                ..old(self)@
            }) && pixel4_set(
                old(self)@.framebuffer,
                final(self)@.framebuffer,
                x as int,
                y as int,
                color,
            ),
            history::served(old(self)@, (Request::SetPixel { x, y, color }), final(self)@),
    {
        if x >= Self::WIDTH || y >= Self::HEIGHT {
            return Err(Error::OutOfBounds);
        }
        if color > 0x0F {
            return Err(Error::InvalidColor);
        }
        let ghost pre = *self;
        proof {
            self.lemma_pending();
        }
        let index: usize = x as usize / 2 + y as usize * LINE_BYTES_4BPP;
        let value: u8 = self.framebuffer[index];
        proof {
            pixels::lemma_set_nibble(value, color);
        }
        if x % 2 == 1 {
            self.framebuffer[index] = (value & 0x0F) | ((color << 4) & 0xF0);
        } else {
            self.framebuffer[index] = (value & 0xF0) | (color & 0x0F);
        }
        proof {
            lemma_pixel4_set(
                pre.framebuffer@,
                self.framebuffer@,
                x as int,
                y as int,
                color,
            );
            Self::lemma_tasks_kept(pre, *self);
        }
        Ok(())
    }

    /// Fill the whole framebuffer with the same color.
    pub fn fill(&mut self, color: u8) -> (result: Result<(), Error>)
        requires
            old(self).wf(),
            old(self)@.idle(),
        ensures
            final(self).wf(),
            result == (if color > 0x0F {
                Err(Error::InvalidColor)
            } else {
                Ok(())
            }),
            result is Err ==> final(self)@ == old(self)@,
            result is Ok ==> final(self)@ == (DisplayModel {
                framebuffer: Seq::new(259200, |i: int| (17 * color) as u8),
                ..old(self)@
            }),
            result is Ok ==> forall|x: int, y: int|
                0 <= x < 960 && 0 <= y < 540 ==> #[trigger] pixels::gray4(
                    final(self)@.framebuffer,
                    x,
                    y,
                ) == color,
            history::served(old(self)@, (Request::Fill { color }), final(self)@),
    {
        if color > 0x0F {
            return Err(Error::InvalidColor);
        }
        let ghost pre = *self;
        proof {
            self.lemma_pending();
            pixels::lemma_double_nibble(color);
        }
        fill_bytes(&mut self.framebuffer, color << 4 | color);
        proof {
            assert(self.framebuffer@ =~= Seq::new(259200, |i: int| (17 * color) as u8));
            Self::lemma_tasks_kept(pre, *self);
        }
        Ok(())
    }

    /// Allocate the 2-bpp frames (white) on first 2-bpp use.
    fn ensure_gray2(&mut self)
        requires
            old(self).wf(),
            old(self)@.idle(),
        ensures
            final(self).wf(),
            final(self)@ == old(self)@.with_gray2(),
    {
        let ghost pre = *self;
        proof {
            self.lemma_pending();
        }
        if self.fb2.is_none() {
            self.fb2 = Some(vec![0xFFu8; FB2_SIZE]);
            assert(self.fb2->0@ =~= white2());
        }
        if self.prev2.is_none() {
            self.prev2 = Some(vec![0xFFu8; FB2_SIZE]);
            assert(self.prev2->0@ =~= white2());
        }
        proof {
            Self::lemma_tasks_kept(pre, *self);
        }
    }

    /// Re-anchor the 2-bpp world from the 16-gray framebuffer: every pixel's level is a
    /// quarter of its gray, both in the 2-bpp framebuffer and in the image that the panel
    /// is taken to show. Call this after rendering a 16-gray frame and before flushing it;
    /// the next partial update then leaves it untouched.
    pub fn sync_gray2_from_framebuffer(&mut self)
        requires
            old(self).wf(),
            old(self)@.idle(),
        ensures
            final(self).wf(),
            final(self)@ == (DisplayModel {
                fb2: Some(quantised(old(self)@.framebuffer)),
                prev2: Some(quantised(old(self)@.framebuffer)),
                ..old(self)@
            }),
            history::served(old(self)@, Request::SyncGray2, final(self)@),
    {
        self.ensure_gray2();
        let ghost pre = *self;
        proof {
            self.lemma_pending();
        }
        let ghost goal = quantised(self.framebuffer@);
        if let Some(fb2) = &mut self.fb2 {
            let mut b: usize = 0;
            while b < FB2_SIZE
                invariant
                    b <= 129600,
                    fb2@.len() == 129600,
                    self.framebuffer@.len() == 259200,
                    goal == quantised(self.framebuffer@),
                    forall|i: int| 0 <= i < b ==> #[trigger] fb2@[i] == goal[i],
                decreases 129600 - b,
            {
                let lo: u8 = self.framebuffer[b * 2];
                let hi: u8 = self.framebuffer[b * 2 + 1];
                proof {
                    pixels::lemma_quantise_bits(lo, hi);
                }
                fb2[b] = ((lo & 0x0F) >> 2) | (((lo >> 4) >> 2) << 2) | (((hi & 0x0F) >> 2) << 4)
                    | (((hi >> 4) >> 2) << 6);
                b = b + 1;
            }
            assert(fb2@ =~= goal);
        }
        proof {
            Self::lemma_tasks_kept(pre, *self);
        }
        self.snapshot_gray2();
    }
}

/// A drawing target for the 2-bpp framebuffer, in the display's rotation.
pub struct Gray2Canvas<'a>(pub &'a mut Display);

impl Display {
    /// Set one pixel in the 2-bpp (4-gray) framebuffer: `level` 0=black, 1=dark, 2=light,
    /// 3=white. Raw coordinates (no rotation).
    ///
    /// Returns [`Error::OutOfBounds`] outside the screen, and [`Error::InvalidColor`] for a
    /// level above 3.
    pub fn set_pixel_gray2(&mut self, x: u16, y: u16, level: u8) -> (result: Result<(), Error>)
        requires
            old(self).wf(),
            old(self)@.idle(),
        ensures
            final(self).wf(),
            result == (if x >= 960 || y >= 540 {
                Err(Error::OutOfBounds)
            } else if level > 3 {
                Err(Error::InvalidColor)
            } else {
                Ok(())
            }),
            result is Err ==> final(self)@ == old(self)@,
            result is Ok ==> final(self)@ == (DisplayModel {
                fb2: final(self)@.fb2,
                ..old(self)@.with_gray2()
            }) && final(self)@.fb2 is Some && pixel2_set(
                old(self)@.with_gray2().fb2->0,
                final(self)@.fb2->0,
                x as int,
                y as int,
                level,
            ),
            history::served(old(self)@, (Request::SetPixelGray2 { x, y, level }), final(self)@),
    {
        if x >= Self::WIDTH || y >= Self::HEIGHT {
            return Err(Error::OutOfBounds);
        }
        if level > 3 {
            return Err(Error::InvalidColor);
        }
        self.ensure_gray2();
        let ghost pre = *self;
        proof {
            self.lemma_pending();
        }
        if let Some(fb) = &mut self.fb2 {
            let idx: usize = x as usize / 4 + y as usize * BYTES_PER_LINE;
            let shift: usize = (x % 4) as usize * 2;
            let value: u8 = fb[idx];
            proof {
                pixels::lemma_set_field(value, level, shift);
            }
            fb[idx] = (value & !(0b11 << shift)) | (level << shift);
        }
        proof {
            lemma_pixel2_set(pre.fb2->0@, self.fb2->0@, x as int, y as int, level);
            Self::lemma_tasks_kept(pre, *self);
        }
        Ok(())
    }

    /// Fill the whole 2-bpp framebuffer with one gray level (0..=3).
    pub fn fill_gray2(&mut self, level: u8) -> (result: Result<(), Error>)
        requires
            old(self).wf(),
            old(self)@.idle(),
        ensures
            final(self).wf(),
            result == (if level > 3 {
                Err(Error::InvalidColor)
            } else {
                Ok(())
            }),
            result is Err ==> final(self)@ == old(self)@,
            result is Ok ==> final(self)@ == (DisplayModel {
                fb2: Some(Seq::new(129600, |i: int| pixels::pack(level, level, level, level))),
                ..old(self)@.with_gray2()
            }),
            result is Ok ==> forall|x: int, y: int|
                0 <= x < 960 && 0 <= y < 540 ==> #[trigger] pixels::gray2(
                    final(self)@.fb2->0,
                    x,
                    y,
                ) == level,
            history::served(old(self)@, (Request::FillGray2 { level }), final(self)@),
    {
        if level > 3 {
            return Err(Error::InvalidColor);
        }
        self.ensure_gray2();
        let ghost pre = *self;
        proof {
            self.lemma_pending();
            pixels::lemma_pack_bits(level, level, level, level);
            pixels::lemma_slot_of_pack(level, level, level, level);
        }
        let byte: u8 = level | level << 2 | level << 4 | level << 6;
        if let Some(fb) = &mut self.fb2 {
            fill_bytes(fb, byte);
        }
        proof {
            assert(self.fb2->0@ =~= Seq::new(
                129600,
                |i: int| pixels::pack(level, level, level, level),
            ));
            Self::lemma_tasks_kept(pre, *self);
        }
        Ok(())
    }

    /// Full 4-gray repaint: clear to white, then 5 black/white passes and 1 gray pass. In
    /// the end the 2-bpp framebuffer is noted as what the panel shows, so that
    /// [`Display::partial_gray2`] can tell what has changed.
    pub fn flush_gray2(&mut self)
        requires
            old(self).wf(),
            old(self)@.idle(),
        ensures
            final(self).wf(),
            final(self)@ == old(self)@.with_gray2().started(
                tasks::gray2_full_tasks(whole_panel()),
                seq![],
                After::SnapshotGray2,
            ),
            history::served(old(self)@, Request::FlushGray2, final(self)@),
            final(self).todo() == tasks::gray2_full_tasks(whole_panel()),
    {
        self.ensure_gray2();
        let mut todo: Vec<Task> = Vec::new();
        clear_cycles(&mut todo, Self::bounding_box(), 4, 50);
        let ghost cleared = todo@;
        assert(cleared =~= tasks::clear_tasks(whole_panel(), 4, 50));
        let mut i: u8 = 0;
        while i < 6
            invariant
                i <= 6,
                cleared == tasks::clear_tasks(whole_panel(), 4, 50),
                todo@ == cleared + Seq::new(i as nat, |i: int| Task::Gray2Full { gray: i == 5 }),
            decreases 6 - i,
        {
            todo.push(Task::Gray2Full { gray: i == 5 });
            i = i + 1;
            assert(todo@ =~= cleared + Seq::new(
                i as nat,
                |i: int| Task::Gray2Full { gray: i == 5 },
            ));
        }
        assert(todo@ =~= tasks::gray2_full_tasks(whole_panel()));
        self.start(todo, Vec::new(), After::SnapshotGray2);
    }

    /// Flicker-free 4-gray partial update: pushes only the pixels of the 2-bpp framebuffer
    /// that differ from the image that the panel shows (5 black/white passes and 1 gray
    /// pass), then notes it as shown. Needs a prior [`Display::flush_gray2`].
    pub fn partial_gray2(&mut self)
        requires
            old(self).wf(),
            old(self)@.idle(),
        ensures
            final(self).wf(),
            final(self)@ == old(self)@.with_gray2().started(
                tasks::gray2_partial_tasks(),
                seq![],
                After::SnapshotGray2,
            ),
            history::served(old(self)@, Request::PartialGray2, final(self)@),
            final(self).todo() == tasks::gray2_partial_tasks(),
    {
        self.ensure_gray2();
        let mut todo: Vec<Task> = Vec::new();
        let mut i: u8 = 0;
        while i < 6
            invariant
                i <= 6,
                todo@ == Seq::new(i as nat, |i: int| Task::Gray2Partial { gray: i == 5 }),
            decreases 6 - i,
        {
            todo.push(Task::Gray2Partial { gray: i == 5 });
            i = i + 1;
            assert(todo@ =~= Seq::new(i as nat, |i: int| Task::Gray2Partial { gray: i == 5 }));
        }
        assert(todo@ =~= tasks::gray2_partial_tasks());
        self.start(todo, Vec::new(), After::SnapshotGray2);
    }

    /// Borrow the display as a 2-bpp (4-gray) drawing target. Draw into it, then call
    /// [`Display::flush_gray2`] (first paint) or [`Display::partial_gray2`] (subsequent
    /// updates).
    pub fn gray2(&mut self) -> (canvas: Gray2Canvas<'_>)
        ensures
            *canvas.0 == *old(self),
            *final(self) == *final(canvas.0),
    {
        Gray2Canvas(self)
    }
}

} // verus!
