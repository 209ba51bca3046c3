use badge::color::{BinaryColor, TriColor};
use badge::draw::{mono_self_test, plan_command, stroke_fits, DrawStep, LineDraw, LineStep, PlannedStep};
use badge::protocol::{Color, DrawCommand, Point};

fn step<C>(step: DrawStep<C>, stop_on_failure: bool) -> PlannedStep<C> {
    PlannedStep { step, stop_on_failure }
}

#[test]
fn line_command() {
    let plan = plan_command(DrawCommand::Line {
        start: Point { x: 20, y: 20 },
        end: Point { x: 380, y: 280 },
        color: Color::Red,
    });
    assert_eq!(
        plan,
        vec![step(DrawStep::Line { x0: 20, y0: 20, x1: 380, y1: 280, color: TriColor::Red, width: 1 }, false)]
    );
}

#[test]
fn clear_and_flush_commands() {
    assert_eq!(plan_command(DrawCommand::Clear { color: Color::Black }), vec![step(DrawStep::Clear(TriColor::Black), true)]);
    assert_eq!(
        plan_command(DrawCommand::Flush),
        vec![step(DrawStep::FlushToPanel, true), step(DrawStep::Refresh, false)]
    );
}

#[test]
fn debug_pattern() {
    assert_eq!(
        plan_command(DrawCommand::Debug),
        vec![
            step(DrawStep::Clear(TriColor::White), true),
            step(DrawStep::Line { x0: 0, y0: 0, x1: 399, y1: 299, color: TriColor::Black, width: 1 }, false),
            step(DrawStep::Line { x0: 0, y0: 150, x1: 399, y1: 150, color: TriColor::Red, width: 3 }, false),
            step(DrawStep::FlushToPanel, true),
            step(DrawStep::Refresh, false),
        ]
    );
}

#[test]
fn mono_self_test_steps() {
    let plan = mono_self_test();
    assert_eq!(plan.len(), 5);
    assert!(plan.iter().all(|s| !s.stop_on_failure));
    assert_eq!(plan[0].step, DrawStep::Clear(BinaryColor::Off));
    assert_eq!(plan[4].step, DrawStep::Sleep);
}

#[test]
fn failure_policy() {
    let s = step(DrawStep::<TriColor>::FlushToPanel, true);
    assert!(s.continue_after(true));
    assert!(!s.continue_after(false));
    let s = step(DrawStep::<TriColor>::Refresh, false);
    assert!(s.continue_after(false));
}

#[test]
fn stroked_horizontal_line_pixels() {
    let mut d = LineDraw::stroke(2, 5, 5, 5, 1);
    let mut got = Vec::new();
    loop {
        match d.current() {
            LineStep::Pixel(x, y) => {
                got.push((x, y));
                d.advance(true);
            }
            LineStep::FlushCaches => d.advance(true),
            LineStep::Finished(ok) => {
                assert!(ok);
                break;
            }
        }
    }
    assert_eq!(got, vec![(2, 5), (3, 5), (4, 5), (5, 5)]);
}

#[test]
fn thick_line_covers_three_rows() {
    let mut d = LineDraw::stroke(0, 150, 9, 150, 3);
    let mut rows = std::collections::BTreeSet::new();
    let mut n = 0;
    while let LineStep::Pixel(_, y) = d.current() {
        rows.insert(y);
        n += 1;
        d.advance(true);
    }
    assert_eq!(n, 30);
    assert_eq!(rows.into_iter().collect::<Vec<_>>(), vec![149, 150, 151]);
}

#[test]
fn schedule_flushes_after_the_pixels_and_stops_at_a_failure() {
    let mut d = LineDraw::new(vec![(1, 1), (2, 2)]);
    assert_eq!(d.current(), LineStep::Pixel(1, 1));
    d.advance(true);
    assert_eq!(d.current(), LineStep::Pixel(2, 2));
    d.advance(true);
    assert_eq!(d.current(), LineStep::FlushCaches);
    d.advance(true);
    assert_eq!(d.current(), LineStep::Finished(true));
    let mut d = LineDraw::new(vec![(1, 1), (2, 2)]);
    d.advance(false);
    assert_eq!(d.current(), LineStep::Finished(false));
    d.advance(true);
    assert_eq!(d.current(), LineStep::Finished(false));
    let mut d = LineDraw::new(vec![]);
    assert_eq!(d.current(), LineStep::FlushCaches);
    d.advance(false);
    assert_eq!(d.current(), LineStep::Finished(false));
}

#[test]
fn line_too_long_to_stroke_has_no_steps() {
    let plan = plan_command(DrawCommand::Line {
        start: Point { x: -30000, y: 0 },
        end: Point { x: 30000, y: 0 },
        color: Color::Black,
    });
    assert!(plan.is_empty());
    let plan = plan_command(DrawCommand::Line {
        start: Point { x: -6000, y: 150 },
        end: Point { x: 6000, y: 150 },
        color: Color::Black,
    });
    assert_eq!(
        plan,
        vec![step(DrawStep::Line { x0: -6000, y0: 150, x1: 6000, y1: 150, color: TriColor::Black, width: 1 }, false)]
    );
    let plan = plan_command(DrawCommand::Line {
        start: Point { x: 0, y: 0 },
        end: Point { x: 15446, y: 0 },
        color: Color::Black,
    });
    assert_eq!(plan.len(), 1);
}

#[test]
fn stroke_limits() {
    // one pixel wide: 3 * major + minor must square within i32
    assert!(stroke_fits(0, 0, 15446, 0, 1));
    assert!(!stroke_fits(0, 0, 15447, 0, 1));
    assert!(stroke_fits(0, 0, 11585, 11585, 1));
    assert!(!stroke_fits(0, 0, 11586, 11586, 1));
    assert!(stroke_fits(-6000, 150, 6000, 150, 1));
    // wider strokes
    assert!(stroke_fits(0, 0, 5792, 0, 3));
    assert!(!stroke_fits(0, 0, 5793, 0, 3));
    assert!(stroke_fits(5, 5, 5, 5, 23169));
    assert!(!stroke_fits(5, 5, 5, 5, 23170));
    assert!(stroke_fits(5, 5, 5, 5, 1));
    // width 0 only needs the squared length
    assert!(stroke_fits(-20000, 0, 20000, 10, 0));
    assert!(!stroke_fits(-20000, 0, 20000, 10, 1));
    assert!(!stroke_fits(-32768, -32768, 32767, 32767, 0));
    assert!(!stroke_fits(40000, 0, 40001, 0, 1));
    assert!(!stroke_fits(0, 0, 1, 0, u32::MAX));
    assert!(!stroke_fits(i32::MIN, 0, i32::MAX, 0, 1));
    assert!(stroke_fits(0, 0, 399, 299, 1));
    assert!(stroke_fits(0, 150, 399, 150, 3));
}

#[test]
fn try_stroke_refuses_what_overflows() {
    assert!(LineDraw::try_stroke(0, 0, 50000, 0, 1).is_none());
    assert!(LineDraw::try_stroke(i32::MIN, 0, i32::MAX, 0, u32::MAX).is_none());
    let mut d = LineDraw::try_stroke(0, 0, 2, 0, 1).unwrap();
    assert_eq!(d.current(), LineStep::Pixel(0, 0));
    d.advance(true);
    assert_eq!(d.current(), LineStep::Pixel(1, 0));
}

fn pixel_count(mut d: LineDraw) -> usize {
    let mut n = 0;
    while let LineStep::Pixel(_, _) = d.current() {
        n += 1;
        d.advance(true);
    }
    n
}

#[test]
fn lines_at_the_limits_are_stroked() {
    assert_eq!(pixel_count(LineDraw::try_stroke(0, 0, 15446, 0, 1).unwrap()), 15447);
    assert_eq!(pixel_count(LineDraw::try_stroke(-6000, 150, 6000, 150, 1).unwrap()), 12001);
    assert_eq!(pixel_count(LineDraw::try_stroke(0, 0, 11585, 11585, 1).unwrap()), 11586);
    assert!(pixel_count(LineDraw::try_stroke(0, 0, 5792, 0, 3).unwrap()) >= 3 * 5793);
    assert!(pixel_count(LineDraw::try_stroke(5, 5, 5, 5, 23169).unwrap()) >= 23169);
    assert_eq!(pixel_count(LineDraw::try_stroke(-20000, 0, 20000, 10, 0).unwrap()), 0);
}
