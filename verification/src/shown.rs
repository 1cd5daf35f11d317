//! What the panel is made to show: for every request, the frames that it puts on the panel,
//! row by row and pixel by pixel, in terms of the bytes of the framebuffers before and the
//! bytes of the scanlines that are sent.

use vstd::prelude::*;

use crate::display;
use crate::display::DisplayModel;
use crate::hardware::{Event, PinConfig};
use crate::history;
use crate::history::Request;
use crate::laws;
use crate::pixels;
use crate::tasks;
use crate::tasks::{Call, Images, Task};
use crate::types::{DisplayRotation, DrawMode, Rectangle};
use crate::waveform::Phase;
use crate::wiring;

verus! {

/// The two bits of a byte at pixel `x` of the four that it holds, the leftmost in the
/// lowest bits.
pub open spec fn two_bits(byte: u8, x: int) -> int {
    (byte as int / (if x % 4 == 0 {
        1int
    } else if x % 4 == 1 {
        4
    } else if x % 4 == 2 {
        16
    } else {
        64
    })) % 4
}

/// The two bits of pixel `x` in a packed row of four pixels per byte.
pub open spec fn bits_at(row: Seq<u8>, x: int) -> int {
    two_bits(row[x / 4], x)
}

/// The gray of pixel `(x, y)` in a frame of 960 by 540 pixels with two pixels per byte, the
/// left one in the lower half.
pub open spec fn gray_at(frame: Seq<u8>, x: int, y: int) -> int {
    if x % 2 == 0 {
        frame[480 * y + x / 2] as int % 16
    } else {
        frame[480 * y + x / 2] as int / 16
    }
}

/// The level of pixel `(x, y)` in a 2-bpp frame of 960 by 540 pixels; a frame that does not
/// exist yet is white.
pub open spec fn level_at(frame: Option<Seq<u8>>, x: int, y: int) -> int {
    match frame {
        Some(f) => two_bits(f[240 * y + x / 4], x),
        None => 3,
    }
}

/// A row of a frame: its scanline gives every pixel its code, and it dwells that long.
pub open spec fn row_shows(
    calls: Seq<Call>,
    at: int,
    y: int,
    codes: spec_fn(int, int) -> int,
    dwell: int,
) -> bool {
    &&& calls[at + 1 + 2 * y] matches Call::SetBuffer(line) && line.len() == 240 && forall|x: int|
        0 <= x < 960 ==> #[trigger] bits_at(line, x) == codes(x, y)
    &&& calls[at + 2 + 2 * y] matches Call::OutputRow(time) && time == dwell
}

/// From call `at` on there is a frame that gives pixel `(x, y)` the code `codes(x, y)`, with
/// every row dwelling that long.
pub open spec fn frame_shows(
    calls: Seq<Call>,
    at: int,
    codes: spec_fn(int, int) -> int,
    dwell: int,
) -> bool {
    &&& 0 <= at
    &&& at + 1082 <= calls.len()
    &&& calls[at] == Call::FrameStart
    &&& calls[at + 1081] == Call::FrameEnd
    &&& forall|y: int| 0 <= y < 540 ==> #[trigger] row_shows(calls, at, y, codes, dwell)
}

/// The frames of a display have the panel's size.
pub open spec fn sized(m: DisplayModel) -> bool {
    &&& m.framebuffer.len() == 259200
    &&& m.fb2 matches Some(f) ==> f.len() == 129600
    &&& m.prev2 matches Some(f) ==> f.len() == 129600
}

/// The length of the calls of tasks that all have the same number of calls.
proof fn lemma_uniform_len(todo: Seq<Task>, images: Images, n: int)
    requires
        forall|i: int| 0 <= i < todo.len() ==> (#[trigger] todo[i]).calls(images).len() == n,
    ensures
        tasks::all_calls(todo, images).len() == todo.len() * n,
    decreases todo.len(),
{
    if todo.len() == 0 {
        assert(Seq::new(0, |j: int| todo[j].calls(images)) =~= seq![]);
        assert(todo.len() * n == 0) by (nonlinear_arith)
            requires
                todo.len() == 0,
        ;
    } else {
        tasks::lemma_all_calls_first(todo, images);
        assert forall|i: int| 0 <= i < todo.skip(1).len() implies (#[trigger] todo.skip(
            1,
        )[i]).calls(images).len() == n by {
            assert(todo.skip(1)[i] == todo[i + 1]);
        }
        lemma_uniform_len(todo.skip(1), images, n);
        assert(todo.len() * n == n + (todo.len() - 1) * n) by (nonlinear_arith);
    }
}

/// Where the calls of one of several tasks stand that all have the same number of calls.
proof fn lemma_uniform_at(todo: Seq<Task>, images: Images, n: int, i: int, j: int)
    requires
        forall|i: int| 0 <= i < todo.len() ==> (#[trigger] todo[i]).calls(images).len() == n,
        0 <= i < todo.len(),
        0 <= j < n,
    ensures
        0 <= n * i + j < tasks::all_calls(todo, images).len(),
        tasks::all_calls(todo, images)[n * i + j] == todo[i].calls(images)[j],
    decreases i,
{
    tasks::lemma_all_calls_first(todo, images);
    let rest = todo.skip(1);
    if i == 0 {
        assert(n * 0 + j == j) by (nonlinear_arith);
        assert(todo[0].calls(images).len() == n);
    } else {
        assert forall|i: int| 0 <= i < rest.len() implies (#[trigger] rest[i]).calls(images).len()
            == n by {
            assert(rest[i] == todo[i + 1]);
        }
        lemma_uniform_at(rest, images, n, i - 1, j);
        assert(n * i + j == n + (n * (i - 1) + j)) by (nonlinear_arith);
        assert(todo[0].calls(images).len() == n);
        assert(rest[i - 1] == todo[i]);
    }
}

/// The calls of two sequences of tasks follow each other.
proof fn lemma_joined(a: Seq<Task>, b: Seq<Task>, images: Images)
    ensures
        tasks::all_calls(a + b, images) == tasks::all_calls(a, images) + tasks::all_calls(
            b,
            images,
        ),
    decreases a.len(),
{
    if a.len() == 0 {
        assert(a + b =~= b);
        assert(Seq::new(0, |j: int| a[j].calls(images)) =~= seq![]);
        assert(tasks::all_calls(a, images) + tasks::all_calls(b, images) =~= tasks::all_calls(
            b,
            images,
        ));
    } else {
        tasks::lemma_all_calls_first(a + b, images);
        tasks::lemma_all_calls_first(a, images);
        assert((a + b).skip(1) =~= a.skip(1) + b);
        lemma_joined(a.skip(1), b, images);
        assert(tasks::all_calls(a + b, images) =~= tasks::all_calls(a, images) + tasks::all_calls(
            b,
            images,
        ));
    }
}

/// A packed byte holds its codes.
proof fn lemma_packed(a: u8, b: u8, c: u8, d: u8, x: int)
    requires
        a < 4,
        b < 4,
        c < 4,
        d < 4,
        0 <= x,
    ensures
        two_bits(pixels::pack(a, b, c, d), x) == (if x % 4 == 0 {
            a
        } else if x % 4 == 1 {
            b
        } else if x % 4 == 2 {
            c
        } else {
            d
        }),
{
}

/// A scanline of a frame that drives every row holds the pixels' codes.
proof fn lemma_line(task: Task, images: Images, x: int, y: int)
    requires
        0 <= x < 960,
        forall|px: int| 0 <= px < 960 ==> #[trigger] task.pixel_code(images, px, y) < 4,
    ensures
        task.line(images, y).len() == 240,
        bits_at(task.line(images, y), x) == task.pixel_code(images, x, y),
{
    let b = x / 4;
    lemma_packed(
        task.pixel_code(images, 4 * b, y),
        task.pixel_code(images, 4 * b + 1, y),
        task.pixel_code(images, 4 * b + 2, y),
        task.pixel_code(images, 4 * b + 3, y),
        x,
    );
    assert(x == 4 * b + x % 4);
}

/// A task that drives every row is a frame that shows its codes.
proof fn lemma_task_shows(
    todo: Seq<Task>,
    images: Images,
    n: int,
    i: int,
    codes: spec_fn(int, int) -> int,
)
    requires
        forall|i: int| 0 <= i < todo.len() ==> (#[trigger] todo[i]).calls(images).len() == n,
        0 <= i < todo.len(),
        todo[i].drives_every_row(),
        forall|x: int, y: int|
            0 <= x < 960 && 0 <= y < 540 ==> #[trigger] todo[i].pixel_code(images, x, y)
                == codes(x, y) && codes(x, y) < 4,
    ensures
        frame_shows(tasks::all_calls(todo, images), n * i, codes, todo[i].dwell() as int),
{
    let task = todo[i];
    let calls = tasks::all_calls(todo, images);
    tasks::lemma_frame_calls(task, images);
    assert(task.calls(images).len() == n);
    lemma_uniform_at(todo, images, n, i, 0);
    lemma_uniform_at(todo, images, n, i, 1081);
    assert forall|y: int| 0 <= y < 540 implies #[trigger] row_shows(
        calls,
        n * i,
        y,
        codes,
        task.dwell() as int,
    ) by {
        lemma_uniform_at(todo, images, n, i, 1 + 2 * y);
        lemma_uniform_at(todo, images, n, i, 2 + 2 * y);
        assert(n * i + 1 + 2 * y == n * i + (1 + 2 * y));
        assert(n * i + 2 + 2 * y == n * i + (2 + 2 * y));
        assert(task.calls(images)[2 * y + 1] == task.rows(images)[2 * y]);
        assert(task.calls(images)[(2 * y + 1) + 1] == task.rows(images)[2 * y + 1]);
        let line = task.line(images, y);
        assert forall|px: int| 0 <= px < 960 implies #[trigger] task.pixel_code(images, px, y)
            < 4 by {}
        assert forall|x: int| 0 <= x < 960 implies #[trigger] bits_at(line, x) == codes(x, y) by {
            lemma_line(task, images, x, y);
        }
        assert(line.len() == 240);
    }
}

/// The two ways of reading a gray level agree.
proof fn lemma_gray(frame: Seq<u8>, x: int, y: int)
    requires
        0 <= x < 960,
        0 <= y < 540,
    ensures
        pixels::gray4(frame, x, y) == gray_at(frame, x, y),
        0 <= gray_at(frame, x, y) < 16,
{
}

/// The two ways of reading a 2-bpp level agree.
proof fn lemma_level(frame: Seq<u8>, x: int, y: int)
    requires
        0 <= x < 960,
        0 <= y < 540,
    ensures
        pixels::gray2(frame, x, y) == level_at(Some(frame), x, y),
        0 <= level_at(Some(frame), x, y) < 4,
{
}

/// The row dwell of sub-frame `k` of a draw, in ticks.
pub open spec fn draw_dwell(mode: DrawMode, k: int) -> int {
    match mode {
        DrawMode::WhiteOnBlack => seq![
            10int, 10, 8, 8, 8, 8, 8, 10, 10, 15, 15, 20, 20, 100, 300,
        ][k],
        _ => seq![30int, 30, 20, 20, 30, 30, 30, 40, 40, 50, 50, 50, 100, 200, 300][k],
    }
}

/// A flush puts fifteen frames on the panel. Every pixel is driven in the mode's direction
/// in as many of them, from the first on, as its gray is steps away from the panel's ground:
/// from white (15) when drawing on white, from black (0) when drawing on black. In the rest
/// of them it is not driven.
#[verifier::spinoff_prover]
pub proof fn law_flush_draws_every_pixel(
    before: DisplayModel,
    mode: DrawMode,
    after: DisplayModel,
    k: int,
)
    requires
        history::served(before, Request::Flush(mode), after),
        sized(before),
        0 <= k < 15,
    ensures
        after.pending.len() == 15 * 1082,
        frame_shows(
            after.pending,
            1082 * k,
            |x: int, y: int|
                {
                    let gray = gray_at(before.framebuffer, x, y);
                    let steps = if mode == DrawMode::WhiteOnBlack { gray } else { 15 - gray };
                    if k >= steps {
                        0
                    } else if mode == DrawMode::BlackOnWhite {
                        1
                    } else {
                        2
                    }
                },
            draw_dwell(mode, k),
        ),
{
    let todo = tasks::draw_tasks(mode);
    let images = before.images(seq![]);
    let codes = |x: int, y: int|
        {
            let gray = gray_at(before.framebuffer, x, y);
            let steps = if mode == DrawMode::WhiteOnBlack { gray } else { 15 - gray };
            if k >= steps {
                0
            } else if mode == DrawMode::BlackOnWhite {
                1
            } else {
                2int
            }
        };
    lemma_uniform_len(todo, images, 1082);
    assert forall|x: int, y: int| 0 <= x < 960 && 0 <= y < 540 implies #[trigger] todo[k].pixel_code(
        images,
        x,
        y,
    ) == codes(x, y) && codes(x, y) < 4 by {
        lemma_gray(before.framebuffer, x, y);
    }
    lemma_task_shows(todo, images, 1082, k, codes);
    assert(todo[k].dwell() == draw_dwell(mode, k));
}

/// The panel's code for a waveform operation: 1 darkens, 2 lightens, all else does nothing.
pub open spec fn driven_code(op: int) -> int {
    if op == 1 || op == 2 {
        op
    } else {
        3
    }
}

/// A waveform flush puts exactly one frame per phase on the panel, in order. In frame `i`
/// every pixel gets the operation of phase `i` for its gray as the target and white (the
/// last of the 16 sources, in the lowest bits of the last of the target's four bytes) as the
/// source.
#[verifier::spinoff_prover]
pub proof fn law_waveform_replays_every_phase(
    before: DisplayModel,
    phases: Seq<Phase>,
    after: DisplayModel,
    i: int,
)
    requires
        history::served(before, Request::FlushWaveform(phases), after),
        sized(before),
        phases.len() <= usize::MAX,
    ensures
        after.pending.len() == 1082 * phases.len(),
        0 <= i < phases.len() ==> frame_shows(
            after.pending,
            1082 * i,
            |x: int, y: int|
                driven_code(
                    phases[i]@[gray_at(before.framebuffer, x, y)]@[3] as int % 4,
                ),
            155,
        ),
{
    let todo = tasks::waveform_tasks(phases.len());
    let images = before.images(phases);
    lemma_uniform_len(todo, images, 1082);
    if 0 <= i < phases.len() {
        let codes = |x: int, y: int|
            driven_code(phases[i]@[gray_at(before.framebuffer, x, y)]@[3] as int % 4);
        assert forall|x: int, y: int|
            0 <= x < 960 && 0 <= y < 540 implies #[trigger] todo[i].pixel_code(images, x, y)
            == codes(x, y) && codes(x, y) < 4 by {
            lemma_gray(before.framebuffer, x, y);
        }
        lemma_task_shows(todo, images, 1082, i, codes);
    }
}

/// The operations of the grayscale matrix: for each gray level, those of the eight passes.
pub open spec fn matrix_op(gray: int, pass: int) -> int {
    seq![
        seq![1int, 1, 1, 1, 1, 1, 1, 1],
        seq![2int, 2, 1, 1, 2, 1, 1, 1],
        seq![2int, 2, 1, 1, 1, 1, 2, 1],
        seq![2int, 2, 1, 1, 2, 2, 1, 1],
        seq![2int, 2, 2, 2, 1, 1, 2, 1],
        seq![2int, 2, 1, 1, 1, 2, 2, 1],
        seq![2int, 2, 1, 1, 2, 1, 1, 2],
        seq![2int, 2, 2, 1, 2, 1, 1, 2],
        seq![2int, 2, 2, 2, 2, 1, 2, 1],
        seq![1int, 1, 1, 1, 1, 1, 2, 2],
        seq![2int, 2, 1, 1, 1, 1, 2, 2],
        seq![1int, 1, 1, 1, 2, 1, 2, 2],
        seq![2int, 2, 1, 1, 2, 1, 2, 2],
        seq![2int, 1, 1, 2, 2, 1, 2, 2],
        seq![2int, 2, 1, 2, 2, 1, 2, 2],
        seq![2int, 2, 2, 2, 2, 2, 2, 2],
    ][gray][pass]
}

proof fn lemma_matrix(gray: int, pass: int)
    requires
        0 <= gray < 16,
        0 <= pass < 8,
    ensures
        crate::waveform::matrix_codes(pass)[gray] == matrix_op(gray, pass),
        1 <= matrix_op(gray, pass) <= 2,
{
}

/// A matrix flush puts eight frames on the panel, each followed by a pause of 230 µs. In
/// frame `pass` every pixel gets its gray's operation of that pass.
#[verifier::spinoff_prover]
pub proof fn law_matrix_draws_every_pixel(before: DisplayModel, after: DisplayModel, pass: int)
    requires
        history::served(before, Request::FlushMatrix, after),
        sized(before),
        0 <= pass < 8,
    ensures
        after.pending.len() == 8 * 1083,
        frame_shows(
            after.pending,
            1083 * pass,
            |x: int, y: int| matrix_op(gray_at(before.framebuffer, x, y), pass),
            30,
        ),
        after.pending[1083 * pass + 1082] == Call::DelayMicros(230),
{
    let todo = tasks::matrix_tasks();
    let images = before.images(seq![]);
    let codes = |x: int, y: int| matrix_op(gray_at(before.framebuffer, x, y), pass);
    lemma_uniform_len(todo, images, 1083);
    assert forall|x: int, y: int|
        0 <= x < 960 && 0 <= y < 540 implies #[trigger] todo[pass].pixel_code(images, x, y)
        == codes(x, y) && codes(x, y) < 4 by {
        lemma_gray(before.framebuffer, x, y);
        lemma_matrix(gray_at(before.framebuffer, x, y), pass);
    }
    lemma_task_shows(todo, images, 1083, pass, codes);
    lemma_uniform_at(todo, images, 1083, pass, 1082);
}

/// The codes of a partial 4-gray update, by four times the new level plus the old one: five
/// passes towards black or white, then one that splits the grays.
pub open spec fn partial_code(pass: int, new: int, old_level: int) -> int {
    if pass < 5 {
        seq![3int, 1, 1, 1, 3, 3, 3, 1, 2, 3, 3, 3, 2, 2, 2, 3][4 * new + old_level]
    } else {
        seq![3int, 3, 3, 3, 2, 3, 1, 2, 1, 2, 3, 1, 3, 3, 2, 3][4 * new + old_level]
    }
}

proof fn lemma_partial_code(pass: int, new: int, old_level: int)
    requires
        0 <= pass < 6,
        0 <= new < 4,
        0 <= old_level < 4,
    ensures
        (Task::Gray2Partial { gray: pass == 5 }).codes2()[4 * new + old_level] == partial_code(
            pass,
            new,
            old_level,
        ),
        1 <= partial_code(pass, new, old_level) <= 3,
{
}

/// A partial 4-gray update puts six frames on the panel, each followed by a pause of 230 µs.
/// The code of a pixel depends on the level that it is to have and on the level that the
/// same pixel has, and on nothing else; a pixel that keeps its level is left alone, and one
/// that is to become black or white is pushed there.
#[verifier::spinoff_prover]
pub proof fn law_partial_pushes_the_change_of_every_pixel(
    before: DisplayModel,
    after: DisplayModel,
    pass: int,
)
    requires
        history::served(before, Request::PartialGray2, after),
        sized(before),
        0 <= pass < 6,
    ensures
        after.pending.len() == 6 * 1083,
        frame_shows(
            after.pending,
            1083 * pass,
            |x: int, y: int|
                partial_code(pass, level_at(before.fb2, x, y), level_at(before.prev2, x, y)),
            30,
        ),
        after.pending[1083 * pass + 1082] == Call::DelayMicros(230),
        forall|level: int| 0 <= level < 4 ==> #[trigger] partial_code(pass, level, level) == 3,
        forall|level: int|
            0 < level < 4 && pass < 5 ==> #[trigger] partial_code(pass, 0, level) == 1,
        forall|level: int|
            0 <= level < 3 && pass < 5 ==> #[trigger] partial_code(pass, 3, level) == 2,
{
    let todo = tasks::gray2_partial_tasks();
    let m = before.with_gray2();
    let images = m.images(seq![]);
    let codes = |x: int, y: int|
        partial_code(pass, level_at(before.fb2, x, y), level_at(before.prev2, x, y));
    lemma_uniform_len(todo, images, 1083);
    assert forall|x: int, y: int|
        0 <= x < 960 && 0 <= y < 540 implies #[trigger] todo[pass].pixel_code(images, x, y)
        == codes(x, y) && codes(x, y) < 4 by {
        lemma_level(images.fb2, x, y);
        lemma_level(images.prev2, x, y);
        assert(240 * y + x / 4 < 129600);
        lemma_partial_code(pass, level_at(before.fb2, x, y), level_at(before.prev2, x, y));
    }
    lemma_task_shows(todo, images, 1083, pass, codes);
    lemma_uniform_at(todo, images, 1083, pass, 1082);
}

/// The row below the last one that a push of the area touches: the panel ends at 540.
pub open spec fn bottom(area: Rectangle) -> int {
    if area.y + area.height <= 540 {
        area.y + area.height
    } else {
        540
    }
}

/// The rows above the area, as far as a push goes.
pub open spec fn above(area: Rectangle) -> int {
    if area.y <= bottom(area) {
        area.y as int
    } else {
        bottom(area)
    }
}

/// The calls of a push: the frame's start and end; a load and a row each for the rows above,
/// and for the area's own rows.
pub open spec fn push_len(area: Rectangle) -> int {
    let own = bottom(area) - above(area);
    2 + (if above(area) > 0 {
        1 + above(area)
    } else {
        0
    }) + (if own > 0 {
        1 + own
    } else {
        0
    })
}

/// The code of column `x` in a pushed scanline, where the halves of every 16 pixels are
/// swapped.
pub open spec fn column_code(line: Seq<u8>, x: int) -> int {
    bits_at(
        line,
        if x % 16 < 8 {
            x + 8
        } else {
            x - 8
        },
    )
}

/// A pushed scanline: the columns of the area get the code, and no others get any.
pub open spec fn pushes_columns(line: Seq<u8>, area: Rectangle, code: int) -> bool {
    &&& line.len() == 240
    &&& forall|x: int|
        0 <= x < 960 ==> #[trigger] column_code(line, x) == (if area.x <= x < area.x + area.width {
            code
        } else {
            0
        })
}

/// A scanline that does nothing to any pixel.
pub open spec fn inert(line: Seq<u8>) -> bool {
    &&& line.len() == 240
    &&& forall|x: int| 0 <= x < 960 ==> #[trigger] bits_at(line, x) == 3
}

/// From call `at` on, an area is pushed: rows above it get inert data, its own rows get
/// `code` in every one of its columns and nothing in all others, and there are no rows below.
pub open spec fn push_shows(
    calls: Seq<Call>,
    at: int,
    area: Rectangle,
    code: int,
    dwell: int,
) -> bool {
    let own = if above(area) > 0 {
        at + 2 + above(area)
    } else {
        at + 1
    };
    &&& 0 <= at
    &&& at + push_len(area) <= calls.len()
    &&& calls[at] == Call::FrameStart
    &&& calls[at + push_len(area) - 1] == Call::FrameEnd
    &&& above(area) > 0 ==> {
        &&& calls[at + 1] matches Call::SetBuffer(line) && inert(line)
        &&& forall|i: int|
            at + 2 <= i < at + 2 + above(area) ==> #[trigger] calls[i] == Call::OutputRow(1)
    }
    &&& bottom(area) > area.y ==> {
        &&& calls[own] matches Call::SetBuffer(line) && pushes_columns(line, area, code)
        &&& forall|i: int|
            own + 1 <= i < own + 1 + bottom(area) - area.y ==> (
            #[trigger] calls[i] matches Call::OutputRow(time) && time == dwell)
    }
}

/// The scanline of a pushed area gives every column of the area its code, black (1) or white
/// (2), and no other column any.
#[verifier::spinoff_prover]
pub proof fn law_push_line_covers_its_columns(area: Rectangle, color: u16)
    ensures
        pushes_columns(
            tasks::push_line(area, color),
            area,
            if color == 1 {
                2
            } else {
                1
            },
        ),
{
    let line = tasks::push_line(area, color);
    assert forall|x: int| 0 <= x < 960 implies #[trigger] column_code(line, x) == (if area.x <= x
        < area.x + area.width {
        if color == 1 {
            2int
        } else {
            1
        }
    } else {
        0
    }) by {
        let b = x / 4;
        let at = if b % 4 < 2 {
            b + 2
        } else {
            b - 2
        };
        assert(crate::lut::reordered(at) == b);
        assert(x == 4 * b + x % 4);
        lemma_packed(
            tasks::push_pixel(area, color, 4 * b),
            tasks::push_pixel(area, color, 4 * b + 1),
            tasks::push_pixel(area, color, 4 * b + 2),
            tasks::push_pixel(area, color, 4 * b + 3),
            x,
        );
        assert(line[at] == tasks::push_byte(area, color, b));
        assert(column_code(line, x) == two_bits(line[at], x));
    }
}

/// The calls of a push.
proof fn lemma_push_calls(task: Task, images: Images)
    requires
        task is Push,
    ensures
        task.calls(images).len() == push_len(task->area) + task.pause().len(),
        push_shows(
            task.calls(images),
            0,
            task->area,
            if task->color == 1 {
                2
            } else {
                1
            },
            task->time as int,
        ),
{
    let area = task->area;
    let calls = task.calls(images);
    tasks::lemma_frame_calls(task, images);
    assert(bottom(area) == tasks::push_end(area));
    assert(above(area) == tasks::push_skipped(area));
    assert(inert(tasks::inert_line())) by {
        assert forall|x: int| 0 <= x < 960 implies #[trigger] bits_at(tasks::inert_line(), x)
            == 3 by {
            assert(tasks::inert_line()[x / 4] == 0xFF);
        }
    }
    law_push_line_covers_its_columns(area, task->color);
}

/// What is pushed in a part of the calls is pushed in all of them.
proof fn lemma_push_moved(
    part: Seq<Call>,
    all: Seq<Call>,
    by: int,
    at: int,
    area: Rectangle,
    code: int,
    dwell: int,
)
    requires
        push_shows(part, at, area, code, dwell),
        0 <= by,
        by + at + push_len(area) <= all.len(),
        forall|i: int|
            at <= i < at + push_len(area) ==> #[trigger] part[i] == all[by + i],
    ensures
        push_shows(all, by + at, area, code, dwell),
{
    let own = if above(area) > 0 {
        at + 2 + above(area)
    } else {
        at + 1
    };
    assert(part[at] == all[by + at]);
    assert(part[at + push_len(area) - 1] == all[by + (at + push_len(area) - 1)]);
    if above(area) > 0 {
        assert(part[at + 1] == all[by + (at + 1)]);
        assert forall|i: int|
            by + at + 2 <= i < by + at + 2 + above(area) implies #[trigger] all[i]
            == Call::OutputRow(1) by {
            assert(part[i - by] == all[by + (i - by)]);
        }
    }
    if bottom(area) > area.y {
        assert(part[own] == all[by + own]);
        assert forall|i: int|
            by + own + 1 <= i < by + own + 1 + bottom(area) - area.y implies (
        #[trigger] all[i] matches Call::OutputRow(time) && time == dwell) by {
            assert(part[i - by] == all[by + (i - by)]);
        }
    }
}

/// A push among tasks that all have the same number of calls.
proof fn lemma_push_at(todo: Seq<Task>, images: Images, n: int, i: int)
    requires
        forall|i: int| 0 <= i < todo.len() ==> (#[trigger] todo[i]).calls(images).len() == n,
        0 <= i < todo.len(),
        todo[i] is Push,
    ensures
        push_shows(
            tasks::all_calls(todo, images),
            n * i,
            todo[i]->area,
            if todo[i]->color == 1 {
                2
            } else {
                1
            },
            todo[i]->time as int,
        ),
        n == push_len(todo[i]->area) + todo[i].pause().len(),
{
    let calls = tasks::all_calls(todo, images);
    let part = todo[i].calls(images);
    lemma_push_calls(todo[i], images);
    assert(part.len() == n);
    assert forall|j: int| 0 <= j < push_len(todo[i]->area) implies #[trigger] part[j] == calls[n * i
        + j] by {
        lemma_uniform_at(todo, images, n, i, j);
    }
    lemma_uniform_at(todo, images, n, i, n - 1);
    assert(0 <= n * i) by (nonlinear_arith)
        requires
            0 <= n,
            0 <= i,
    ;
    lemma_push_moved(
        part,
        calls,
        n * i,
        0,
        todo[i]->area,
        if todo[i]->color == 1 {
            2
        } else {
            1
        },
        todo[i]->time as int,
    );
}

/// Clearing an area pushes it 32 times for 50 ticks: four times to black, four times to
/// white, and so on. Only its own columns of its own rows are pushed.
#[verifier::spinoff_prover]
pub proof fn law_clear_area_pushes_the_area(
    before: DisplayModel,
    area: Rectangle,
    after: DisplayModel,
    i: int,
)
    requires
        history::served(before, Request::ClearArea(area), after),
        0 <= i < 32,
    ensures
        after.pending.len() == 32 * push_len(area),
        push_shows(
            after.pending,
            push_len(area) * i,
            area,
            if i % 8 < 4 {
                1
            } else {
                2
            },
            50,
        ),
{
    let todo = tasks::clear_tasks(area, 4, 50);
    let images = before.images(seq![]);
    assert forall|i: int| 0 <= i < todo.len() implies (#[trigger] todo[i]).calls(images).len()
        == push_len(area) by {
        lemma_push_calls(todo[i], images);
    }
    lemma_uniform_len(todo, images, push_len(area));
    lemma_push_at(todo, images, push_len(area), i);
}

/// Clearing the screen is clearing the area of all of its 960 columns and 540 rows.
#[verifier::spinoff_prover]
pub proof fn law_clear_clears_the_whole_panel(before: DisplayModel, after: DisplayModel)
    requires
        history::served(before, Request::Clear, after),
    ensures
        history::served(
            before,
            Request::ClearArea(Rectangle { x: 0, y: 0, width: 960, height: 540 }),
            after,
        ),
        push_len(Rectangle { x: 0, y: 0, width: 960, height: 540 }) == 543,
{
}

/// The codes of a full 4-gray repaint, by level: five passes that push the dark levels to
/// black, then one that splits the grays.
pub open spec fn full_code(pass: int, level: int) -> int {
    if pass < 5 {
        if level < 2 {
            1
        } else {
            3
        }
    } else if level % 2 == 0 {
        1
    } else {
        2
    }
}

/// A full 4-gray repaint begins with all that clearing the screen does. Six frames follow,
/// each followed by a pause of 230 µs, in which every pixel gets the code of its own level.
#[verifier::spinoff_prover]
pub proof fn law_full_repaint_clears_then_shows_every_pixel(
    before: DisplayModel,
    cleared: DisplayModel,
    after: DisplayModel,
    pass: int,
)
    requires
        history::served(before, Request::Clear, cleared),
        history::served(before, Request::FlushGray2, after),
        sized(before),
        0 <= pass < 6,
    ensures
        cleared.pending.len() == 17376,
        after.pending.len() == 17376 + 6 * 1083,
        after.pending.take(17376) == cleared.pending,
        frame_shows(
            after.pending,
            17376 + 1083 * pass,
            |x: int, y: int| full_code(pass, level_at(before.fb2, x, y)),
            30,
        ),
        after.pending[17376 + 1083 * pass + 1082] == Call::DelayMicros(230),
{
    let whole = Rectangle { x: 0, y: 0, width: 960, height: 540 };
    let first = tasks::clear_tasks(whole, 4, 50);
    let then = Seq::new(6, |i: int| Task::Gray2Full { gray: i == 5 });
    let images = before.with_gray2().images(seq![]);
    let codes = |x: int, y: int| full_code(pass, level_at(before.fb2, x, y));
    law_clear_area_pushes_the_area(before, whole, cleared, 0);
    lemma_joined(first, then, images);
    lemma_same_pushes(first, images, before.images(seq![]));
    let head = tasks::all_calls(first, images);
    let tail = tasks::all_calls(then, images);
    lemma_uniform_len(then, images, 1083);
    assert forall|x: int, y: int|
        0 <= x < 960 && 0 <= y < 540 implies #[trigger] then[pass].pixel_code(images, x, y)
        == codes(x, y) && codes(x, y) < 4 by {
        lemma_level(images.fb2, x, y);
        assert(240 * y + x / 4 < 129600);
    }
    lemma_task_shows(then, images, 1083, pass, codes);
    lemma_uniform_at(then, images, 1083, pass, 1082);
    assert(after.pending =~= head + tail);
    assert(after.pending.take(17376) =~= head);
    lemma_frame_moved(tail, after.pending, 17376, 1083 * pass, codes, 30);
}

/// Pushes do not depend on the images.
proof fn lemma_same_pushes(todo: Seq<Task>, a: Images, b: Images)
    requires
        forall|i: int| 0 <= i < todo.len() ==> #[trigger] todo[i] is Push,
    ensures
        tasks::all_calls(todo, a) == tasks::all_calls(todo, b),
{
    assert(Seq::new(todo.len(), |i: int| todo[i].calls(a)) =~= Seq::new(
        todo.len(),
        |i: int| todo[i].calls(b),
    )) by {
        assert forall|i: int| 0 <= i < todo.len() implies (#[trigger] todo[i]).calls(a)
            == todo[i].calls(b) by {}
    }
}

/// A frame in the last part of the calls is a frame in all of them.
proof fn lemma_frame_moved(
    part: Seq<Call>,
    all: Seq<Call>,
    by: int,
    at: int,
    codes: spec_fn(int, int) -> int,
    dwell: int,
)
    requires
        frame_shows(part, at, codes, dwell),
        0 <= by,
        all.len() == by + part.len(),
        forall|i: int| 0 <= i < part.len() ==> #[trigger] part[i] == all[by + i],
    ensures
        frame_shows(all, by + at, codes, dwell),
{
    assert(part[at] == all[by + at]);
    assert(part[at + 1081] == all[by + (at + 1081)]);
    assert forall|y: int| 0 <= y < 540 implies #[trigger] row_shows(
        all,
        by + at,
        y,
        codes,
        dwell,
    ) by {
        assert(row_shows(part, at, y, codes, dwell));
        assert(part[at + 1 + 2 * y] == all[by + (at + 1 + 2 * y)]);
        assert(part[at + 2 + 2 * y] == all[by + (at + 2 + 2 * y)]);
    }
}

/// The repair routine: clear, 20 slow pushes of the whole panel to black, clear, 40 to white,
/// clear. A slow push is followed by a pause of half a second.
#[verifier::spinoff_prover]
pub proof fn law_repair_clears_and_pushes(
    before: DisplayModel,
    cleared: DisplayModel,
    after: DisplayModel,
    i: int,
)
    requires
        history::served(before, Request::Clear, cleared),
        history::served(before, Request::Repair, after),
    ensures
        after.pending.len() == 84768,
        after.pending.subrange(0, 17376) == cleared.pending,
        after.pending.subrange(28256, 45632) == cleared.pending,
        after.pending.subrange(67392, 84768) == cleared.pending,
        ({
            let whole = Rectangle { x: 0, y: 0, width: 960, height: 540 };
            &&& 0 <= i < 20 ==> push_shows(after.pending, 17376 + 544 * i, whole, 1, 50)
                && after.pending[17376 + 544 * i + 543] == Call::DelayMillis(500)
            &&& 0 <= i < 40 ==> push_shows(after.pending, 45632 + 544 * i, whole, 2, 50)
                && after.pending[45632 + 544 * i + 543] == Call::DelayMillis(500)
        }),
{
    let whole = Rectangle { x: 0, y: 0, width: 960, height: 540 };
    let images = before.images(seq![]);
    let clear = tasks::clear_tasks(whole, 4, 50);
    let black = tasks::push_tasks(whole, 0, 20);
    let white = tasks::push_tasks(whole, 1, 40);
    let c = tasks::all_calls(clear, images);
    let b = tasks::all_calls(black, images);
    let w = tasks::all_calls(white, images);
    law_clear_area_pushes_the_area(before, whole, cleared, 0);
    lemma_slow_pushes(black, images, whole);
    lemma_slow_pushes(white, images, whole);
    lemma_joined(clear, black, images);
    lemma_joined(clear + black, clear, images);
    lemma_joined(clear + black + clear, white, images);
    lemma_joined(clear + black + clear + white, clear, images);
    assert(after.pending == c + b + c + w + c);
    assert(after.pending.subrange(0, 17376) =~= c);
    assert(after.pending.subrange(28256, 45632) =~= c);
    assert(after.pending.subrange(67392, 84768) =~= c);
    if 0 <= i < 20 {
        lemma_push_at(black, images, 544, i);
        lemma_uniform_at(black, images, 544, i, 543);
        lemma_push_calls(black[i], images);
        lemma_push_moved(b, after.pending, 17376, 544 * i, whole, 1, 50);
    }
    if 0 <= i < 40 {
        lemma_push_at(white, images, 544, i);
        lemma_uniform_at(white, images, 544, i, 543);
        lemma_push_calls(white[i], images);
        lemma_push_moved(w, after.pending, 45632, 544 * i, whole, 2, 50);
    }
}

/// Slow pushes of the whole panel.
proof fn lemma_slow_pushes(todo: Seq<Task>, images: Images, whole: Rectangle)
    requires
        whole == (Rectangle { x: 0, y: 0, width: 960, height: 540 }),
        forall|i: int|
            0 <= i < todo.len() ==> (#[trigger] todo[i] matches Task::Push { area, pause, .. }
                && area == whole && pause),
    ensures
        forall|i: int| 0 <= i < todo.len() ==> (#[trigger] todo[i]).calls(images).len() == 544,
        tasks::all_calls(todo, images).len() == 544 * todo.len(),
{
    assert forall|i: int| 0 <= i < todo.len() implies (#[trigger] todo[i]).calls(images).len()
        == 544 by {
        lemma_push_calls(todo[i], images);
    }
    lemma_uniform_len(todo, images, 544);
}

/// Whether the request is carried out on the panel.
pub open spec fn on_panel(request: Request) -> bool {
    match request {
        Request::PowerOn
        | Request::PowerOff
        | Request::Flush(_)
        | Request::FlushWaveform(_)
        | Request::FlushMatrix
        | Request::Clear
        | Request::ClearArea(_)
        | Request::Repair
        | Request::FlushGray2
        | Request::PartialGray2 => true,
        _ => false,
    }
}

/// Two 2-bpp frames show the same levels; one that does not exist yet is white.
pub open spec fn same_levels(a: Option<Seq<u8>>, b: Option<Seq<u8>>) -> bool {
    forall|x: int, y: int|
        0 <= x < 960 && 0 <= y < 540 ==> #[trigger] level_at(a, x, y) == level_at(b, x, y)
}

/// How a request that is carried out on the panel begins and ends. It begins with every
/// frame as it was. If it fails, they still are. If a 16-gray flush is completed, the
/// framebuffer is white; if a 4-gray update is completed, the image that the panel shows is
/// the 2-bpp framebuffer; all else leaves all frames as they were.
#[verifier::spinoff_prover]
pub proof fn law_frames_after_panel_requests(
    before: DisplayModel,
    request: Request,
    start: DisplayModel,
    events: Seq<Event>,
)
    requires
        history::served(before, request, start),
        on_panel(request),
        sized(before),
    ensures
        start.panel == before.panel,
        start.line == before.line,
        start.framebuffer == before.framebuffer,
        same_levels(start.fb2, before.fb2),
        same_levels(start.prev2, before.prev2),
        ({
            let (end, reply) = laws::run(start, events);
            let flush = request is Flush || request is FlushWaveform || request is FlushMatrix;
            let gray2 = request is FlushGray2 || request is PartialGray2;
            &&& end.rotation == before.rotation
            &&& same_levels(end.fb2, before.fb2)
            &&& reply is Completed && flush ==> end.framebuffer.len() == 259200 && forall|i: int|
                0 <= i < 259200 ==> #[trigger] end.framebuffer[i] == 0xFF
            &&& !(reply is Completed && flush) ==> end.framebuffer == before.framebuffer
            &&& reply is Completed && gray2 ==> same_levels(end.prev2, before.fb2)
            &&& !(reply is Completed && gray2) ==> same_levels(end.prev2, before.prev2)
        }),
{
    laws::law_operation_outcome(start, events);
    lemma_white2();
}

/// A white 2-bpp frame.
proof fn lemma_white2()
    ensures
        same_levels(Some(display::white2()), None),
{
    assert forall|x: int, y: int| 0 <= x < 960 && 0 <= y < 540 implies #[trigger] level_at(
        Some(display::white2()),
        x,
        y,
    ) == level_at(None, x, y) by {
        assert(0 <= 240 * y + x / 4 < 129600);
        assert(display::white2()[240 * y + x / 4] == 0xFF);
    }
}

/// Setting a pixel gives it its color and leaves all other pixels, and all else, alone. What
/// is no pixel or no color changes nothing.
#[verifier::spinoff_prover]
pub proof fn law_set_pixel_sets_one_pixel(
    before: DisplayModel,
    x: u16,
    y: u16,
    color: u8,
    after: DisplayModel,
    px: int,
    py: int,
)
    requires
        history::served(before, (Request::SetPixel { x, y, color }), after),
        sized(before),
        0 <= px < 960,
        0 <= py < 540,
    ensures
        after == (DisplayModel { framebuffer: after.framebuffer, ..before }),
        after.framebuffer.len() == 259200,
        gray_at(after.framebuffer, px, py) == (if px == x && py == y && color < 16 {
            color as int
        } else {
            gray_at(before.framebuffer, px, py)
        }),
        x >= 960 || y >= 540 || color >= 16 ==> after == before,
{
    lemma_gray(before.framebuffer, px, py);
    lemma_gray(after.framebuffer, px, py);
}

/// Filling gives every pixel the color, and changes nothing else.
#[verifier::spinoff_prover]
pub proof fn law_fill_sets_every_pixel(
    before: DisplayModel,
    color: u8,
    after: DisplayModel,
    px: int,
    py: int,
)
    requires
        history::served(before, (Request::Fill { color }), after),
        sized(before),
        0 <= px < 960,
        0 <= py < 540,
    ensures
        after == (DisplayModel { framebuffer: after.framebuffer, ..before }),
        after.framebuffer.len() == 259200,
        gray_at(after.framebuffer, px, py) == (if color < 16 {
            color as int
        } else {
            gray_at(before.framebuffer, px, py)
        }),
{
    assert(0 <= 480 * py + px / 2 < 259200);
}

/// Setting a pixel in the 2-bpp framebuffer gives it its level and leaves all other pixels,
/// and all else, alone.
#[verifier::spinoff_prover]
pub proof fn law_set_pixel_gray2_sets_one_pixel(
    before: DisplayModel,
    x: u16,
    y: u16,
    level: u8,
    after: DisplayModel,
    px: int,
    py: int,
)
    requires
        history::served(before, (Request::SetPixelGray2 { x, y, level }), after),
        sized(before),
        0 <= px < 960,
        0 <= py < 540,
    ensures
        after == (DisplayModel { fb2: after.fb2, prev2: after.prev2, ..before }),
        sized(after),
        level_at(after.fb2, px, py) == (if px == x && py == y && level < 4 {
            level as int
        } else {
            level_at(before.fb2, px, py)
        }),
        level_at(after.prev2, px, py) == level_at(before.prev2, px, py),
        x >= 960 || y >= 540 || level >= 4 ==> after == before,
{
    lemma_white2();
    assert(same_levels(before.with_gray2().fb2, before.fb2));
    assert(same_levels(before.with_gray2().prev2, before.prev2));
    assert(level_at(before.with_gray2().fb2, px, py) == level_at(before.fb2, px, py));
    assert(level_at(before.with_gray2().prev2, px, py) == level_at(before.prev2, px, py));
    lemma_level(before.with_gray2().fb2->0, px, py);
    if after.fb2 is Some {
        lemma_level(after.fb2->0, px, py);
    }
}

/// Filling the 2-bpp framebuffer gives every pixel the level, and changes nothing else.
#[verifier::spinoff_prover]
pub proof fn law_fill_gray2_sets_every_pixel(
    before: DisplayModel,
    level: u8,
    after: DisplayModel,
    px: int,
    py: int,
)
    requires
        history::served(before, (Request::FillGray2 { level }), after),
        sized(before),
        0 <= px < 960,
        0 <= py < 540,
    ensures
        after == (DisplayModel { fb2: after.fb2, prev2: after.prev2, ..before }),
        sized(after),
        level_at(after.fb2, px, py) == (if level < 4 {
            level as int
        } else {
            level_at(before.fb2, px, py)
        }),
        level_at(after.prev2, px, py) == level_at(before.prev2, px, py),
{
    lemma_white2();
    assert(level_at(before.with_gray2().prev2, px, py) == level_at(before.prev2, px, py));
    assert(0 <= 240 * py + px / 4 < 129600);
    if level < 4 {
        lemma_packed(level, level, level, level, px);
    }
}

/// Re-anchoring takes a quarter of every pixel's gray as its level, both in the 2-bpp
/// framebuffer and in the image that the panel is taken to show, and changes nothing else.
#[verifier::spinoff_prover]
pub proof fn law_sync_takes_a_quarter(
    before: DisplayModel,
    after: DisplayModel,
    px: int,
    py: int,
)
    requires
        history::served(before, Request::SyncGray2, after),
        sized(before),
        0 <= px < 960,
        0 <= py < 540,
    ensures
        after == (DisplayModel { fb2: after.fb2, prev2: after.prev2, ..before }),
        sized(after),
        level_at(after.fb2, px, py) == gray_at(before.framebuffer, px, py) / 4,
        level_at(after.prev2, px, py) == gray_at(before.framebuffer, px, py) / 4,
{
    laws::law_quantised_pixel(before.framebuffer, px, py);
    lemma_gray(before.framebuffer, px, py);
    lemma_level(display::quantised(before.framebuffer), px, py);
}

/// A new display is white, has no 2-bpp frames, is not rotated, and is about to bring its
/// hardware up; the config register has the supply disabled and the start pulse at rest.
#[verifier::spinoff_prover]
pub proof fn law_new_display_is_white(pins: PinConfig, px: int, py: int)
    requires
        0 <= px < 960,
        0 <= py < 540,
    ensures
        ({
            let m = DisplayModel::initial(pins);
            &&& sized(m)
            &&& gray_at(m.framebuffer, px, py) == 15
            &&& m.fb2 is None
            &&& m.prev2 is None
            &&& m.rotation == DisplayRotation::Rotate0
            &&& m.pending == seq![Call::BringUp]
            &&& m.panel.pins == pins
            &&& !m.panel.bus
            &&& wiring::word(m.panel.config) == seq![
                false,
                false,
                false,
                true,
                false,
                false,
                true,
                false,
            ]
        }),
{
    assert(0 <= 480 * py + px / 2 < 259200);
}

} // verus!
