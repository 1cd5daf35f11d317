//! What can happen to a display in its lifetime, and what holds in all of it.

use vstd::prelude::*;

use crate::display;
use crate::display::{After, DisplayModel};
use crate::ed047tc1;
use crate::hardware::{Event, PinConfig};
use crate::tasks;
use crate::tasks::Call;
use crate::types::{DisplayRotation, DrawMode, Rectangle};
use crate::waveform::Phase;

verus! {

/// A use of one of the methods that can change a display.
pub enum Request {
    /// [`crate::Display::step`].
    Step(Event),
    /// [`crate::Display::set_rotation`].
    SetRotation(DisplayRotation),
    /// [`crate::Display::power_on`].
    PowerOn,
    /// [`crate::Display::power_off`].
    PowerOff,
    /// [`crate::Display::flush`].
    Flush(DrawMode),
    /// [`crate::Display::flush_waveform`], with the phases of its bucket.
    FlushWaveform(Seq<Phase>),
    /// [`crate::Display::flush_matrix`].
    FlushMatrix,
    /// [`crate::Display::clear`].
    Clear,
    /// [`crate::Display::clear_area`].
    ClearArea(Rectangle),
    /// [`crate::Display::repair`].
    Repair,
    /// [`crate::Display::set_pixel`].
    SetPixel { x: u16, y: u16, color: u8 },
    /// [`crate::Display::fill`].
    Fill { color: u8 },
    /// [`crate::Display::sync_gray2_from_framebuffer`].
    SyncGray2,
    /// [`crate::Display::set_pixel_gray2`].
    SetPixelGray2 { x: u16, y: u16, level: u8 },
    /// [`crate::Display::fill_gray2`].
    FillGray2 { level: u8 },
    /// [`crate::Display::flush_gray2`].
    FlushGray2,
    /// [`crate::Display::partial_gray2`].
    PartialGray2,
}

impl Request {
    /// Whether the request works on the 2-bpp frames: all 2-bpp requests but those that are
    /// answered with an error.
    pub open spec fn uses_gray2(self) -> bool {
        match self {
            Request::SyncGray2 | Request::FlushGray2 | Request::PartialGray2 => true,
            Request::SetPixelGray2 { x, y, level } => x < 960 && y < 540 && level <= 3,
            Request::FillGray2 { level } => level <= 3,
            _ => false,
        }
    }

    /// Whether the request can be made while an operation is in progress.
    pub open spec fn any_time(self) -> bool {
        self is Step || self is SetRotation
    }
}

/// The request takes a display from one state to another.
pub open spec fn served(before: DisplayModel, request: Request, after: DisplayModel) -> bool {
    &&& request.any_time() || before.idle()
    &&& match request {
        Request::Step(event) => after == before.stepped(event).0,
        Request::SetRotation(rotation) => after == (DisplayModel { rotation, ..before }),
        Request::PowerOn => after == (DisplayModel { pending: seq![Call::PowerOn], ..before }),
        Request::PowerOff => after == (DisplayModel { pending: seq![Call::PowerOff], ..before }),
        Request::Flush(mode) => after == before.started(
            tasks::draw_tasks(mode),
            seq![],
            After::WipeFramebuffer,
        ),
        Request::FlushWaveform(phases) => after == before.started(
            tasks::waveform_tasks(phases.len()),
            phases,
            After::WipeFramebuffer,
        ),
        Request::FlushMatrix => after == before.started(
            tasks::matrix_tasks(),
            seq![],
            After::WipeFramebuffer,
        ),
        Request::Clear => after == before.started(
            tasks::clear_tasks(display::whole_panel(), 4, 50),
            seq![],
            After::Nothing,
        ),
        Request::ClearArea(area) => after == before.started(
            tasks::clear_tasks(area, 4, 50),
            seq![],
            After::Nothing,
        ),
        Request::Repair => after == before.started(
            tasks::repair_tasks(display::whole_panel()),
            seq![],
            After::Nothing,
        ),
        Request::SetPixel { x, y, color } => if x < 960 && y < 540 && color <= 0x0F {
            &&& after == (DisplayModel { framebuffer: after.framebuffer, ..before })
            &&& display::pixel4_set(
                before.framebuffer,
                after.framebuffer,
                x as int,
                y as int,
                color,
            )
        } else {
            after == before
        },
        Request::Fill { color } => after == (if color <= 0x0F {
            DisplayModel { framebuffer: Seq::new(259200, |i: int| (17 * color) as u8), ..before }
        } else {
            before
        }),
        Request::SyncGray2 => after == (DisplayModel {
            fb2: Some(display::quantised(before.framebuffer)),
            prev2: Some(display::quantised(before.framebuffer)),
            ..before
        }),
        Request::SetPixelGray2 { x, y, level } => if request.uses_gray2() {
            &&& after == (DisplayModel { fb2: after.fb2, ..before.with_gray2() })
            &&& after.fb2 is Some
            &&& display::pixel2_set(
                before.with_gray2().fb2->0,
                after.fb2->0,
                x as int,
                y as int,
                level,
            )
        } else {
            after == before
        },
        Request::FillGray2 { level } => after == (if request.uses_gray2() {
            DisplayModel {
                fb2: Some(
                    Seq::new(
                        129600,
                        |i: int| crate::pixels::pack(level, level, level, level),
                    ),
                ),
                ..before.with_gray2()
            }
        } else {
            before
        }),
        Request::FlushGray2 => after == before.with_gray2().started(
            tasks::gray2_full_tasks(display::whole_panel()),
            seq![],
            After::SnapshotGray2,
        ),
        Request::PartialGray2 => after == before.with_gray2().started(
            tasks::gray2_partial_tasks(),
            seq![],
            After::SnapshotGray2,
        ),
    }
}

/// Request `i` takes the display from state `i` to the next one.
pub open spec fn served_at(states: Seq<DisplayModel>, requests: Seq<Request>, i: int) -> bool {
    served(states[i], requests[i], states[i + 1])
}

/// The states of a display since it is new, and the requests that led from each of them to
/// the next.
pub open spec fn history(
    pins: PinConfig,
    states: Seq<DisplayModel>,
    requests: Seq<Request>,
) -> bool {
    &&& states.len() == requests.len() + 1
    &&& states[0] == DisplayModel::initial(pins)
    &&& forall|i: int| 0 <= i < requests.len() ==> #[trigger] served_at(states, requests, i)
}

/// A history without its last request.
proof fn lemma_earlier(pins: PinConfig, states: Seq<DisplayModel>, requests: Seq<Request>)
    requires
        history(pins, states, requests),
        requests.len() > 0,
    ensures
        history(pins, states.drop_last(), requests.drop_last()),
        served(states.drop_last().last(), requests.last(), states.last()),
{
    let earlier = states.drop_last();
    let before = requests.drop_last();
    assert forall|i: int| 0 <= i < before.len() implies #[trigger] served_at(
        earlier,
        before,
        i,
    ) by {
        assert(served_at(states, requests, i));
    }
    assert(served_at(states, requests, requests.len() - 1));
}

/// The 2-bpp frames come into existence together, and exactly with the first request that
/// works on them: who draws in 16 grays only never pays for them.
pub proof fn law_gray2_frames_exist_since_first_use(
    pins: PinConfig,
    states: Seq<DisplayModel>,
    requests: Seq<Request>,
)
    requires
        history(pins, states, requests),
    ensures
        states.last().fb2 is Some == states.last().prev2 is Some,
        states.last().fb2 is Some <==> exists|i: int|
            0 <= i < requests.len() && (#[trigger] requests[i]).uses_gray2(),
    decreases requests.len(),
{
    if requests.len() > 0 {
        let earlier = states.drop_last();
        let before = requests.drop_last();
        lemma_earlier(pins, states, requests);
        law_gray2_frames_exist_since_first_use(pins, earlier, before);
        if earlier.last().fb2 is Some {
            let i = choose|i: int| 0 <= i < before.len() && (#[trigger] before[i]).uses_gray2();
            assert(requests[i] == before[i]);
        } else {
            assert forall|i: int| 0 <= i < before.len() implies !(
            #[trigger] requests[i]).uses_gray2() by {
                assert(requests[i] == before[i]);
            }
        }
        assert(requests.last() == requests[requests.len() - 1]);
    }
}

/// A step does not leave the latch enabled.
proof fn lemma_latch(m: DisplayModel, event: Event)
    requires
        !m.panel.config.latch_enable,
    ensures
        !m.stepped(event).0.panel.config.latch_enable,
{
    let panel = m.panel.resumed(event).0;
    ed047tc1::lemma_resumed(m.panel, event);
    if m.panel.resumed(event).1 is Completed && m.pending.len() > 0 {
        tasks::lemma_answered(m.pending[0], panel);
    }
}

/// The config register never rests with the latch enabled.
pub proof fn law_latch_is_released(
    pins: PinConfig,
    states: Seq<DisplayModel>,
    requests: Seq<Request>,
)
    requires
        history(pins, states, requests),
    ensures
        !states.last().panel.config.latch_enable,
    decreases requests.len(),
{
    if requests.len() > 0 {
        lemma_earlier(pins, states, requests);
        law_latch_is_released(pins, states.drop_last(), requests.drop_last());
        if let Request::Step(event) = requests.last() {
            lemma_latch(states.drop_last().last(), event);
        }
    }
}

} // verus!
