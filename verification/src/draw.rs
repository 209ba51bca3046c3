//! What the badge does for a drawing command, as a plan of display steps,
//! and the schedule of drawing a line into a framebuffer.
//!
//! Line rasterization is embedded-graphics' own; the badge takes the pixel
//! positions of a stroked line from it and writes them one by one.
use vstd::prelude::*;
use embedded_graphics::primitives::Primitive;
use crate::color::{TriColor, BinaryColor, tri_of, tri_from, mono_pixel_bit};
use crate::protocol::{DrawCommand, Point, Color};
use crate::ssd1683::{WIDTH, HEIGHT};

verus! {

/// One step of drawing on the panel.
#[derive(Debug, PartialEq, Eq, Structural)]
pub enum DrawStep<C> {
    /// Fill the framebuffer with one color.
    Clear(C),
    /// Draw a line from `(x0, y0)` to `(x1, y1)`, `width` pixels wide.
    Line { x0: i32, y0: i32, x1: i32, y1: i32, color: C, width: u32 },
    /// Stream the framebuffer into the controller's RAM.
    FlushToPanel,
    /// Run a full refresh of the panel.
    Refresh,
    /// Put the controller into deep sleep.
    Sleep,
}

/// A step and whether a failure of it skips the steps after it (a failure
/// is otherwise logged and the next step runs).
#[derive(Debug, PartialEq, Eq, Structural)]
pub struct PlannedStep<C> {
    pub step: DrawStep<C>,
    pub stop_on_failure: bool,
}

impl<C> PlannedStep<C> {
    /// Whether the steps after this one run, given whether this one succeeded.
    pub fn continue_after(&self, succeeded: bool) -> (r: bool)
        ensures
            r == (succeeded || !self.stop_on_failure),
    {
        succeeded || !self.stop_on_failure
    }
}

pub open spec fn planned<C>(step: DrawStep<C>, stop_on_failure: bool) -> PlannedStep<C> {
    PlannedStep { step, stop_on_failure }
}

pub open spec fn line_of(start: Point, end: Point, color: TriColor, width: u32) -> DrawStep<TriColor> {
    DrawStep::Line { x0: start.x as i32, y0: start.y as i32, x1: end.x as i32, y1: end.y as i32, color, width }
}

/// Showing the framebuffer: stream it, then refresh; a failed stream skips the refresh.
pub open spec fn show_plan<C>() -> Seq<PlannedStep<C>> {
    seq![planned(DrawStep::FlushToPanel, true), planned(DrawStep::Refresh, false)]
}

/// The badge's test pattern: clear to white (a failure abandons the
/// pattern), a black diagonal corner to corner, a red three-pixel stripe
/// across the middle, then show it.
pub open spec fn debug_pattern_plan() -> Seq<PlannedStep<TriColor>> {
    seq![
        planned(DrawStep::Clear(TriColor::White), true),
        planned(DrawStep::Line { x0: 0, y0: 0, x1: (WIDTH - 1) as i32, y1: (HEIGHT - 1) as i32, color: TriColor::Black, width: 1 }, false),
        planned(DrawStep::Line { x0: 0, y0: (HEIGHT / 2) as i32, x1: (WIDTH - 1) as i32, y1: (HEIGHT / 2) as i32, color: TriColor::Red, width: 3 }, false),
    ] + show_plan()
}

/// Whether embedded-graphics strokes a one-pixel line between two protocol
/// points without overflowing (exact for width 1, see [`stroke_within_limits`]).
pub open spec fn point_line_within_limits(start: Point, end: Point) -> bool {
    stroke_within_limits(start.x as i32, start.y as i32, end.x as i32, end.y as i32, 1)
}

/// The steps of a drawing command. A line that embedded-graphics cannot
/// stroke without overflowing its `i32` arithmetic (for a one-pixel line
/// [`stroke_within_limits`] is exactly that condition) has no steps.
pub open spec fn command_plan(cmd: DrawCommand) -> Seq<PlannedStep<TriColor>> {
    match cmd {
        DrawCommand::Line { start, end, color } => if point_line_within_limits(start, end) {
            seq![planned(line_of(start, end, tri_of(color), 1), false)]
        } else {
            Seq::empty()
        },
        DrawCommand::Clear { color } => seq![planned(DrawStep::Clear(tri_of(color)), true)],
        DrawCommand::Debug => debug_pattern_plan(),
        DrawCommand::Flush => show_plan(),
    }
}

/// The monochrome self test: clear to paper, ink a diagonal corner to
/// corner, stream, refresh and sleep; every failure is logged and the
/// next step still runs.
pub open spec fn mono_self_test_plan() -> Seq<PlannedStep<BinaryColor>> {
    seq![
        planned(DrawStep::Clear(BinaryColor::Off), false),
        planned(DrawStep::Line { x0: 0, y0: 0, x1: (WIDTH - 1) as i32, y1: (HEIGHT - 1) as i32, color: BinaryColor::On, width: 1 }, false),
        planned(DrawStep::FlushToPanel, false),
        planned(DrawStep::Refresh, false),
        planned(DrawStep::Sleep, false),
    ]
}

fn push_show<C>(steps: &mut Vec<PlannedStep<C>>)
    ensures
        final(steps)@ == old(steps)@ + show_plan::<C>(),
{
    steps.push(PlannedStep { step: DrawStep::FlushToPanel, stop_on_failure: true });
    steps.push(PlannedStep { step: DrawStep::Refresh, stop_on_failure: false });
    assert(steps@ =~= old(steps)@ + show_plan::<C>());
}

/// The steps the badge takes for a drawing command.
pub fn plan_command(cmd: DrawCommand) -> (steps: Vec<PlannedStep<TriColor>>)
    ensures
        steps@ == command_plan(cmd),
{
    let mut steps: Vec<PlannedStep<TriColor>> = Vec::new();
    assert(steps@ =~= Seq::<PlannedStep<TriColor>>::empty());
    match cmd {
        DrawCommand::Line { start, end, color } => {
            if !stroke_fits(start.x as i32, start.y as i32, end.x as i32, end.y as i32, 1) {
                return steps;
            }
            steps.push(PlannedStep {
                step: DrawStep::Line {
                    x0: start.x as i32, y0: start.y as i32, x1: end.x as i32, y1: end.y as i32,
                    color: tri_from(color), width: 1,
                },
                stop_on_failure: false,
            });
        },
        DrawCommand::Clear { color } => {
            steps.push(PlannedStep { step: DrawStep::Clear(tri_from(color)), stop_on_failure: true });
        },
        DrawCommand::Debug => {
            steps.push(PlannedStep { step: DrawStep::Clear(TriColor::White), stop_on_failure: true });
            steps.push(PlannedStep {
                step: DrawStep::Line { x0: 0, y0: 0, x1: (WIDTH - 1) as i32, y1: (HEIGHT - 1) as i32, color: TriColor::Black, width: 1 },
                stop_on_failure: false,
            });
            steps.push(PlannedStep {
                step: DrawStep::Line { x0: 0, y0: (HEIGHT / 2) as i32, x1: (WIDTH - 1) as i32, y1: (HEIGHT / 2) as i32, color: TriColor::Red, width: 3 },
                stop_on_failure: false,
            });
            push_show(&mut steps);
        },
        DrawCommand::Flush => {
            push_show(&mut steps);
        },
    }
    assert(steps@ =~= command_plan(cmd));
    steps
}

/// The steps of the monochrome self test.
pub fn mono_self_test() -> (steps: Vec<PlannedStep<BinaryColor>>)
    ensures
        steps@ == mono_self_test_plan(),
{
    let mut steps: Vec<PlannedStep<BinaryColor>> = Vec::new();
    steps.push(PlannedStep { step: DrawStep::Clear(BinaryColor::Off), stop_on_failure: false });
    steps.push(PlannedStep {
        step: DrawStep::Line { x0: 0, y0: 0, x1: (WIDTH - 1) as i32, y1: (HEIGHT - 1) as i32, color: BinaryColor::On, width: 1 },
        stop_on_failure: false,
    });
    steps.push(PlannedStep { step: DrawStep::FlushToPanel, stop_on_failure: false });
    steps.push(PlannedStep { step: DrawStep::Refresh, stop_on_failure: false });
    steps.push(PlannedStep { step: DrawStep::Sleep, stop_on_failure: false });
    assert(steps@ =~= mono_self_test_plan());
    steps
}

/// The squared length of a line as embedded-graphics' stroke takes it
/// (`Line::delta().length_squared()`): a line whose ends coincide is
/// measured as the line from `(0, 0)` to `(1, 0)`.
pub open spec fn stroke_extent(x0: i32, y0: i32, x1: i32, y1: i32) -> int {
    if x0 == x1 && y0 == y1 {
        1
    } else {
        (x1 - x0) * (x1 - x0) + (y1 - y0) * (y1 - y0)
    }
}

pub open spec fn abs_int(v: int) -> int {
    if v < 0 { -v } else { v }
}

/// The larger of `|dx|` and `|dy|` (the Bresenham major delta); `1` for a
/// line whose ends coincide.
pub open spec fn stroke_major(x0: i32, y0: i32, x1: i32, y1: i32) -> int {
    if x0 == x1 && y0 == y1 {
        1
    } else if abs_int(x1 - x0) >= abs_int(y1 - y0) {
        abs_int(x1 - x0)
    } else {
        abs_int(y1 - y0)
    }
}

/// The smaller of `|dx|` and `|dy|` (the Bresenham minor delta); `0` for a
/// line whose ends coincide.
pub open spec fn stroke_minor(x0: i32, y0: i32, x1: i32, y1: i32) -> int {
    if x0 == x1 && y0 == y1 {
        0
    } else if abs_int(x1 - x0) >= abs_int(y1 - y0) {
        abs_int(y1 - y0)
    } else {
        abs_int(x1 - x0)
    }
}

/// The largest value whose square fits in `i32`.
pub open spec fn i32_sqrt_max() -> int {
    46340
}

/// The lines this crate strokes with embedded-graphics (ends in `i16`
/// range, the range of the BLE protocol's points), as far as its `i32`
/// arithmetic goes. With `M`/`m` the major/minor delta and `E` the extent:
/// `Point::length_squared` needs `E <= i32::MAX`; the thickness threshold is
/// `(2 * width)^2 * E`; the thickness accumulator starts at `M + m`, grows by
/// `2M` for a normal parallel and `2m` for an extra one, and is squared each
/// time until its square passes the threshold.
/// - Width 0: nothing is iterated; only `E` is computed.
/// - Width 1: the accumulator takes the values `M + m` and `3M + m` (the
///   first parallel is always a normal one) and then stops, so the
///   condition is exact: `4E` and `(3M + m)^2` fit in `i32`.
/// - Wider strokes: every squared value is at most `2 * width * sqrt(E) + 2M`;
///   this asks that bound to stay at most 46340 (`46340^2 <= i32::MAX`). It
///   is a sufficient bound, not the exact one: which kind of parallel
///   crosses the threshold depends on the stroke's walk.
pub open spec fn stroke_within_limits(x0: i32, y0: i32, x1: i32, y1: i32, width: u32) -> bool {
    let e = stroke_extent(x0, y0, x1, y1);
    let big = stroke_major(x0, y0, x1, y1);
    let small = stroke_minor(x0, y0, x1, y1);
    &&& i16::MIN <= x0 <= i16::MAX
    &&& i16::MIN <= y0 <= i16::MAX
    &&& i16::MIN <= x1 <= i16::MAX
    &&& i16::MIN <= y1 <= i16::MAX
    &&& e <= i32::MAX
    &&& width == 1 ==> 4 * e <= i32::MAX && (3 * big + small) * (3 * big + small) <= i32::MAX
    &&& width >= 2 ==> 2 * big <= i32_sqrt_max()
        && 4 * width * width * e <= (i32_sqrt_max() - 2 * big) * (i32_sqrt_max() - 2 * big)
}

fn in_i16_range(v: i32) -> (r: bool)
    ensures
        r == (i16::MIN <= v <= i16::MAX),
{
    -32768 <= v && v <= 32767
}

/// Whether [`stroke_within_limits`] holds.
pub fn stroke_fits(x0: i32, y0: i32, x1: i32, y1: i32, width: u32) -> (r: bool)
    ensures
        r == stroke_within_limits(x0, y0, x1, y1, width),
{
    if !(in_i16_range(x0) && in_i16_range(y0) && in_i16_range(x1) && in_i16_range(y1)) {
        return false;
    }
    let dx: i64 = x1 as i64 - x0 as i64;
    let dy: i64 = y1 as i64 - y0 as i64;
    let adx: i64 = if dx < 0 { -dx } else { dx };
    let ady: i64 = if dy < 0 { -dy } else { dy };
    assert(0 <= adx * adx <= 65535 * 65535) by (nonlinear_arith)
        requires
            0 <= adx <= 65535,
    ;
    assert(0 <= ady * ady <= 65535 * 65535) by (nonlinear_arith)
        requires
            0 <= ady <= 65535,
    ;
    assert(adx * adx == dx * dx && ady * ady == dy * dy) by (nonlinear_arith)
        requires
            adx == dx || adx == -dx,
            ady == dy || ady == -dy,
    ;
    let degenerate = dx == 0 && dy == 0;
    let extent: i64 = if degenerate { 1 } else { adx * adx + ady * ady };
    let big: i64 = if degenerate { 1 } else if adx >= ady { adx } else { ady };
    let small: i64 = if degenerate { 0 } else if adx >= ady { ady } else { adx };
    assert(extent == stroke_extent(x0, y0, x1, y1));
    assert(big == stroke_major(x0, y0, x1, y1));
    assert(small == stroke_minor(x0, y0, x1, y1));
    if extent > 0x7fff_ffff {
        return false;
    }
    if width == 0 {
        return true;
    }
    if width == 1 {
        let reach: i64 = 3 * big + small;
        assert(0 <= reach * reach <= 262140 * 262140) by (nonlinear_arith)
            requires
                0 <= reach <= 262140,
        ;
        let reach_sq: i64 = reach * reach;
        return 4 * extent <= 0x7fff_ffff && reach_sq <= 0x7fff_ffff;
    }
    if 2 * big > 46340 {
        return false;
    }
    let w: u128 = width as u128;
    let e: u128 = extent as u128;
    assert(w * w <= 0x1_0000_0000u128 * 0x1_0000_0000u128) by (nonlinear_arith)
        requires
            w < 0x1_0000_0000u128,
    ;
    let ww: u128 = w * w;
    let w4: u128 = 4 * ww;
    assert(w4 * e <= 4 * (0x1_0000_0000u128 * 0x1_0000_0000u128) * 0x8000_0000u128) by (nonlinear_arith)
        requires
            w4 <= 4 * (0x1_0000_0000u128 * 0x1_0000_0000u128),
            e <= 0x8000_0000u128,
    ;
    let threshold: u128 = w4 * e;
    assert(threshold == 4 * width * width * stroke_extent(x0, y0, x1, y1)) by (nonlinear_arith)
        requires
            threshold == w4 * e,
            w4 == 4 * ww,
            ww == w * w,
            w == width,
            e == stroke_extent(x0, y0, x1, y1),
    ;
    let room: u128 = (46340 - 2 * big) as u128;
    assert(room * room <= 46340 * 46340) by (nonlinear_arith)
        requires
            room <= 46340,
    ;
    threshold <= room * room
}

/// The pixel positions of a line from `(x0, y0)` to `(x1, y1)` stroked
/// `width` pixels wide, in embedded-graphics' drawing order.
pub uninterp spec fn stroke_pixels(x0: i32, y0: i32, x1: i32, y1: i32, width: u32) -> Seq<(i32, i32)>;

/// Calls embedded-graphics: `Line::new(..).into_styled(PrimitiveStyle::with_stroke(_, width)).pixels()`
/// and keeps each pixel's position. Claimed: the result is [`stroke_pixels`]
/// of the arguments, a function of them alone; nothing is claimed about
/// which positions those are. The stroke computes its squared length,
/// thickness threshold and thickness accumulator in `i32`; `requires` keeps
/// to [`stroke_within_limits`], under which none of them overflows.
#[verifier::external_body]
fn line_stroke_pixels(x0: i32, y0: i32, x1: i32, y1: i32, width: u32) -> (p: Vec<(i32, i32)>)
    requires
        stroke_within_limits(x0, y0, x1, y1, width),
    ensures
        p@ == stroke_pixels(x0, y0, x1, y1, width),
{
    embedded_graphics::primitives::Line::new(
        embedded_graphics::geometry::Point::new(x0, y0),
        embedded_graphics::geometry::Point::new(x1, y1),
    )
        .into_styled(embedded_graphics::primitives::PrimitiveStyle::with_stroke(
            embedded_graphics::pixelcolor::BinaryColor::On,
            width,
        ))
        .pixels()
        .map(|embedded_graphics::Pixel(p, _)| (p.x, p.y))
        .collect()
}

/// What the schedule of a line draw asks for next.
#[derive(Debug, Clone, Copy, PartialEq, Eq, Structural)]
pub enum LineStep {
    /// Write this pixel (its traffic, then its `_done`).
    Pixel(i32, i32),
    /// Flush the framebuffer caches.
    FlushCaches,
    /// Over: `true` if every step went through.
    Finished(bool),
}

/// The schedule of drawing a sequence of pixels into a framebuffer: each
/// pixel in order, then a cache flush; the first failure ends it.
pub struct LineDraw {
    pixels: Vec<(i32, i32)>,
    next: usize,
    flushed: bool,
    failed: bool,
}

impl LineDraw {
    /// The pixels to draw, in order.
    pub closed spec fn pixels(self) -> Seq<(i32, i32)> {
        self.pixels@
    }

    /// How many pixels went through.
    pub closed spec fn drawn(self) -> nat {
        self.next as nat
    }

    pub closed spec fn is_flushed(self) -> bool {
        self.flushed
    }

    pub closed spec fn has_failed(self) -> bool {
        self.failed
    }

    pub closed spec fn wf(self) -> bool {
        &&& self.next <= self.pixels@.len()
        &&& self.flushed ==> self.next == self.pixels@.len()
    }

    /// The next step of the schedule.
    pub open spec fn current_spec(self) -> LineStep {
        if self.has_failed() {
            LineStep::Finished(false)
        } else if self.drawn() < self.pixels().len() {
            LineStep::Pixel(self.pixels()[self.drawn() as int].0, self.pixels()[self.drawn() as int].1)
        } else if !self.is_flushed() {
            LineStep::FlushCaches
        } else {
            LineStep::Finished(true)
        }
    }

    /// A schedule over `pixels`.
    pub fn new(pixels: Vec<(i32, i32)>) -> (d: Self)
        ensures
            d.pixels() == pixels@,
            d.drawn() == 0,
            !d.is_flushed(),
            !d.has_failed(),
            d.wf(),
    {
        LineDraw { pixels, next: 0, flushed: false, failed: false }
    }

    /// A schedule over the pixels of a stroked line.
    pub fn stroke(x0: i32, y0: i32, x1: i32, y1: i32, width: u32) -> (d: Self)
        requires
            stroke_within_limits(x0, y0, x1, y1, width),
        ensures
            d.pixels() == stroke_pixels(x0, y0, x1, y1, width),
            d.drawn() == 0,
            !d.is_flushed(),
            !d.has_failed(),
            d.wf(),
    {
        Self::new(line_stroke_pixels(x0, y0, x1, y1, width))
    }

    /// A schedule over the pixels of a stroked line, or `None` for a line
    /// outside [`stroke_within_limits`].
    pub fn try_stroke(x0: i32, y0: i32, x1: i32, y1: i32, width: u32) -> (d: Option<Self>)
        ensures
            d is None <==> !stroke_within_limits(x0, y0, x1, y1, width),
            d matches Some(d) ==> {
                &&& d.pixels() == stroke_pixels(x0, y0, x1, y1, width)
                &&& d.drawn() == 0
                &&& !d.is_flushed()
                &&& !d.has_failed()
                &&& d.wf()
            },
    {
        if stroke_fits(x0, y0, x1, y1, width) {
            Some(Self::stroke(x0, y0, x1, y1, width))
        } else {
            None
        }
    }

    /// The next step.
    pub fn current(&self) -> (s: LineStep)
        requires
            self.wf(),
        ensures
            s == self.current_spec(),
    {
        if self.failed {
            LineStep::Finished(false)
        } else if self.next < self.pixels.len() {
            let (x, y) = self.pixels[self.next];
            LineStep::Pixel(x, y)
        } else if !self.flushed {
            LineStep::FlushCaches
        } else {
            LineStep::Finished(true)
        }
    }

    /// Records whether the current step went through.
    pub fn advance(&mut self, succeeded: bool)
        requires
            old(self).wf(),
        ensures
            final(self).wf(),
            final(self).pixels() == old(self).pixels(),
            match old(self).current_spec() {
                LineStep::Finished(_) => *final(self) == *old(self),
                LineStep::Pixel(_, _) => if succeeded {
                    final(self).drawn() == old(self).drawn() + 1 && !final(self).has_failed()
                        && !final(self).is_flushed()
                } else {
                    final(self).has_failed() && final(self).drawn() == old(self).drawn()
                },
                LineStep::FlushCaches => final(self).drawn() == old(self).drawn() && if succeeded {
                    final(self).is_flushed() && !final(self).has_failed()
                } else {
                    final(self).has_failed() && !final(self).is_flushed()
                },
            },
    {
        if self.failed {
            return;
        }
        if self.next < self.pixels.len() {
            if succeeded {
                self.next = self.next + 1;
            } else {
                self.failed = true;
            }
        } else if !self.flushed {
            if succeeded {
                self.flushed = true;
            } else {
                self.failed = true;
            }
        }
    }
}

/// What each drawing command plans: a clear fills with the color of the
/// same name and a failure of it abandons the command; a line on the panel
/// is one one-pixel-wide stroke between its two points in the color of the
/// same name, whose failure does not stop anything; the test pattern clears
/// to white, draws a black corner-to-corner diagonal and a red three-pixel
/// stripe along row 150, then streams and refreshes; a flush streams and
/// refreshes, skipping the refresh when the stream fails.
pub proof fn lemma_command_plans(c: Color, start: Point, end: Point)
    ensures
        command_plan(DrawCommand::Clear { color: Color::White })
            == seq![PlannedStep { step: DrawStep::Clear(TriColor::White), stop_on_failure: true }],
        command_plan(DrawCommand::Clear { color: Color::Black })
            == seq![PlannedStep { step: DrawStep::Clear(TriColor::Black), stop_on_failure: true }],
        command_plan(DrawCommand::Clear { color: Color::Red })
            == seq![PlannedStep { step: DrawStep::Clear(TriColor::Red), stop_on_failure: true }],
        0 <= start.x < 400 && 0 <= start.y < 300 && 0 <= end.x < 400 && 0 <= end.y < 300 ==> command_plan(DrawCommand::Line { start, end, color: c })
            == seq![PlannedStep {
                step: DrawStep::Line {
                    x0: start.x as i32, y0: start.y as i32, x1: end.x as i32, y1: end.y as i32,
                    color: match c {
                        Color::White => TriColor::White,
                        Color::Black => TriColor::Black,
                        Color::Red => TriColor::Red,
                    },
                    width: 1,
                },
                stop_on_failure: false,
            }],
        command_plan(DrawCommand::Debug) == seq![
            PlannedStep { step: DrawStep::Clear(TriColor::White), stop_on_failure: true },
            PlannedStep { step: DrawStep::Line { x0: 0, y0: 0, x1: 399, y1: 299, color: TriColor::Black, width: 1 }, stop_on_failure: false },
            PlannedStep { step: DrawStep::Line { x0: 0, y0: 150, x1: 399, y1: 150, color: TriColor::Red, width: 3 }, stop_on_failure: false },
            PlannedStep { step: DrawStep::FlushToPanel, stop_on_failure: true },
            PlannedStep { step: DrawStep::Refresh, stop_on_failure: false },
        ],
        command_plan(DrawCommand::Flush) == seq![
            PlannedStep { step: DrawStep::<TriColor>::FlushToPanel, stop_on_failure: true },
            PlannedStep { step: DrawStep::<TriColor>::Refresh, stop_on_failure: false },
        ],
{
    if 0 <= start.x < 400 && 0 <= start.y < 300 && 0 <= end.x < 400 && 0 <= end.y < 300 {
        lemma_panel_lines_fit(start.x as i32, start.y as i32, end.x as i32, end.y as i32);
    }
    assert(debug_pattern_plan() =~= seq![
        PlannedStep { step: DrawStep::Clear(TriColor::White), stop_on_failure: true },
        PlannedStep { step: DrawStep::Line { x0: 0, y0: 0, x1: 399, y1: 299, color: TriColor::Black, width: 1 }, stop_on_failure: false },
        PlannedStep { step: DrawStep::Line { x0: 0, y0: 150, x1: 399, y1: 150, color: TriColor::Red, width: 3 }, stop_on_failure: false },
        PlannedStep { step: DrawStep::FlushToPanel, stop_on_failure: true },
        PlannedStep { step: DrawStep::Refresh, stop_on_failure: false },
    ]);
}

/// Whether a line can be stroked does not depend on its direction.
pub proof fn lemma_stroke_limits_symmetric(x0: i32, y0: i32, x1: i32, y1: i32, width: u32)
    ensures
        stroke_within_limits(x0, y0, x1, y1, width) == stroke_within_limits(x1, y1, x0, y0, width),
{
    assert((x0 - x1) * (x0 - x1) == (x1 - x0) * (x1 - x0)) by (nonlinear_arith);
    assert((y0 - y1) * (y0 - y1) == (y1 - y0) * (y1 - y0)) by (nonlinear_arith);
    assert(stroke_extent(x0, y0, x1, y1) == stroke_extent(x1, y1, x0, y0));
    assert(stroke_major(x0, y0, x1, y1) == stroke_major(x1, y1, x0, y0));
    assert(stroke_minor(x0, y0, x1, y1) == stroke_minor(x1, y1, x0, y0));
}

/// Whether a line can be stroked depends only on its shape, not on where
/// it lies: moving both ends by the same offset (keeping them in `i16`
/// range) keeps the answer.
pub proof fn lemma_stroke_limits_translate(x0: i32, y0: i32, x1: i32, y1: i32, tx: i32, ty: i32, width: u32)
    requires
        i16::MIN <= x0 <= i16::MAX,
        i16::MIN <= y0 <= i16::MAX,
        i16::MIN <= x1 <= i16::MAX,
        i16::MIN <= y1 <= i16::MAX,
        i16::MIN <= x0 + tx <= i16::MAX,
        i16::MIN <= y0 + ty <= i16::MAX,
        i16::MIN <= x1 + tx <= i16::MAX,
        i16::MIN <= y1 + ty <= i16::MAX,
    ensures
        stroke_within_limits(x0, y0, x1, y1, width)
            == stroke_within_limits((x0 + tx) as i32, (y0 + ty) as i32, (x1 + tx) as i32, (y1 + ty) as i32, width),
{
    let (a0, b0, a1, b1) = ((x0 + tx) as i32, (y0 + ty) as i32, (x1 + tx) as i32, (y1 + ty) as i32);
    assert(a1 - a0 == x1 - x0 && b1 - b0 == y1 - y0);
    assert(stroke_extent(x0, y0, x1, y1) == stroke_extent(a0, b0, a1, b1));
    assert(stroke_major(x0, y0, x1, y1) == stroke_major(a0, b0, a1, b1));
    assert(stroke_minor(x0, y0, x1, y1) == stroke_minor(a0, b0, a1, b1));
}

/// Every one-pixel line with both ends on the 400x300 panel can be
/// stroked, in either direction.
pub proof fn lemma_panel_lines_fit(x0: i32, y0: i32, x1: i32, y1: i32)
    requires
        0 <= x0 < 400,
        0 <= x1 < 400,
        0 <= y0 < 300,
        0 <= y1 < 300,
    ensures
        stroke_within_limits(x0, y0, x1, y1, 1),
        stroke_within_limits(x1, y1, x0, y0, 1),
{
    let dx = x1 - x0;
    let dy = y1 - y0;
    assert(dx * dx <= 399 * 399) by (nonlinear_arith)
        requires
            -399 <= dx <= 399,
    ;
    assert(dy * dy <= 299 * 299) by (nonlinear_arith)
        requires
            -299 <= dy <= 299,
    ;
    assert(0 <= dx * dx && 0 <= dy * dy) by (nonlinear_arith);
    let big = stroke_major(x0, y0, x1, y1);
    let small = stroke_minor(x0, y0, x1, y1);
    assert(0 <= big <= 399 && 0 <= small <= 399);
    assert((3 * big + small) * (3 * big + small) <= 1596 * 1596) by (nonlinear_arith)
        requires
            0 <= 3 * big + small <= 1596,
    ;
    lemma_stroke_limits_symmetric(x0, y0, x1, y1, 1);
}

/// The monochrome self test inks on paper: it clears to `Off` (the paper
/// bit), strokes a one-pixel line from corner (0, 0) to corner (399, 299)
/// in `On` (the ink bit), then streams, refreshes and sleeps; no failure
/// stops it.
pub proof fn lemma_mono_self_test_inks()
    ensures
        mono_self_test_plan().len() == 5,
        forall|i: int| 0 <= i < 5 ==> !(#[trigger] mono_self_test_plan()[i]).stop_on_failure,
        mono_self_test_plan()[0].step == DrawStep::Clear(BinaryColor::Off),
        mono_pixel_bit(BinaryColor::Off),
        mono_self_test_plan()[1].step
            == (DrawStep::Line { x0: 0, y0: 0, x1: 399, y1: 299, color: BinaryColor::On, width: 1 }),
        !mono_pixel_bit(BinaryColor::On),
        mono_self_test_plan()[2].step == DrawStep::<BinaryColor>::FlushToPanel,
        mono_self_test_plan()[3].step == DrawStep::<BinaryColor>::Refresh,
        mono_self_test_plan()[4].step == DrawStep::<BinaryColor>::Sleep,
{
}

} // verus!
