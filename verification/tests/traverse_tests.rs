//! Traversal logic: path walking, shape lowering, layer boundaries, and
//! viewport resolution.
use svg2gcode::{
    lower_rect, plan_layer_boundaries, resolve_viewport, walk_path, AffineTransform, GCodeTurtle,
    Instr, Length, LengthUnit, Machine, PathCommand, PolygonArcConfig, SupportedFunctionality,
    SCALE,
};

const U: i64 = 1_000_000;

fn turtle() -> GCodeTurtle {
    GCodeTurtle::new(
        Machine::new(
            SupportedFunctionality { circular_interpolation: false },
            Some("M3".to_string()),
            Some("M5".to_string()),
            None,
            None,
            None,
        ),
        2000,
        300 * U,
        100,
        PolygonArcConfig { enabled: false, min_points: 4, tolerance: 2000 },
    )
}

#[test]
fn walk_path_tracks_relative_moves_and_close() {
    let cmds = vec![
        PathCommand::MoveTo { abs: true, x: U, y: U },
        PathCommand::LineTo { abs: false, x: 2 * U, y: 0 },
        PathCommand::VerticalTo { abs: false, y: 3 * U },
        PathCommand::Close,
        PathCommand::HorizontalTo { abs: true, x: 7 * U },
    ];
    let mut t = turtle();
    let id = AffineTransform::identity();
    let end = walk_path(&cmds, &id, &mut t);
    // after the close the current point is back at the subpath start, and
    // the horizontal move leaves y there
    assert_eq!(end.cur.x, 7 * U);
    assert_eq!(end.cur.y, U);
    assert_eq!(end.start.x, U);
    assert_eq!(end.start.y, U);
    // one travel, then draws
    assert_eq!(t.program[0], Instr::RapidMove { x: U, y: U });
    assert!(t.program.iter().any(|e| *e == Instr::LinearMove { x: 3 * U, y: U, f: 300 * U }));
    // the close draws back to the start
    assert!(t.program.iter().any(|e| *e == Instr::LinearMove { x: U, y: U, f: 300 * U }));
}

#[test]
fn lower_rect_emits_travel_activation_and_four_edges() {
    let mut t = turtle();
    let id = AffineTransform::identity();
    lower_rect(U, U, 2 * U, 3 * U, &id, &mut t);
    let expected = vec![
        Instr::RapidMove { x: U, y: U },
        Instr::Snippet("M3".to_string()),
        Instr::LinearMove { x: 3 * U, y: U, f: 300 * U },
        Instr::LinearMove { x: 3 * U, y: 4 * U, f: 300 * U },
        Instr::LinearMove { x: U, y: 4 * U, f: 300 * U },
        Instr::LinearMove { x: U, y: U, f: 300 * U },
    ];
    assert_eq!(t.program, expected);
}

#[test]
fn layer_boundaries_fall_once_per_adjacent_pair() {
    // children: group, shape, group, group
    let kinds = vec![true, false, true, true];
    let marks = plan_layer_boundaries(&kinds);
    assert_eq!(marks, vec![false, false, true, true]);
    // a single group never gets a boundary
    assert_eq!(plan_layer_boundaries(&vec![false, true, false]), vec![false, false, false]);
}

#[test]
fn viewport_resolution_prefers_overrides() {
    // a dimensionless document with a viewBox, overridden to ten millimeters
    let over = Length { number: 10 * U, unit: LengthUnit::Mm };
    let r = resolve_viewport(
        None,
        None,
        Some((0, 0, 10 * U, 10 * U)),
        &[Some(over), Some(over)],
        96 * U,
    )
    .unwrap();
    // ten millimeters at 96 dpi in user units, truncating
    assert_eq!(r.width, 37_795_275);
    assert_eq!(r.height, 37_795_275);
    let map = r.map.unwrap();
    // the viewBox maps onto the overridden viewport
    assert_eq!(map.a, 3_779_527);
    assert_eq!(map.d, 3_779_527);
}

#[test]
fn viewport_resolution_derives_the_missing_dimension() {
    let r = resolve_viewport(Some(20 * U), None, Some((0, 0, 10 * U, 5 * U)), &[None, None], 96 * U)
        .unwrap();
    assert_eq!(r.width, 20 * U);
    assert_eq!(r.height, 10 * U);
    let r2 = resolve_viewport(None, None, Some((0, 0, 10 * U, 5 * U)), &[None, None], 96 * U)
        .unwrap();
    assert_eq!(r2.width, 10 * U);
    assert_eq!(r2.height, 5 * U);
    assert!(resolve_viewport(None, None, None, &[None, None], 96 * U).is_none());
}

#[test]
fn detection_flush_ends_at_the_last_buffered_point() {
    // the detection branch must cover the run to its final point
    let mut t = GCodeTurtle::new(
        Machine::new(
            SupportedFunctionality { circular_interpolation: true },
            None,
            None,
            None,
            None,
            None,
        ),
        2000,
        300 * U,
        100,
        PolygonArcConfig { enabled: true, min_points: 4, tolerance: 10_000 },
    );
    t.begin();
    t.move_to(svg2gcode::Point { x: 5 * U, y: 0 });
    t.line_to(svg2gcode::Point { x: 4 * U, y: 3 * U });
    t.line_to(svg2gcode::Point { x: 3 * U, y: 4 * U });
    t.line_to(svg2gcode::Point { x: 0, y: 5 * U });
    t.line_to(svg2gcode::Point { x: -3 * U, y: 4 * U });
    t.end();
    let last_draw = t
        .program
        .iter()
        .rev()
        .find(|e| {
            matches!(
                e,
                Instr::LinearMove { .. }
                    | Instr::ClockwiseArc { .. }
                    | Instr::CounterclockwiseArc { .. }
            )
        })
        .unwrap();
    let target = match last_draw {
        Instr::LinearMove { x, y, .. } => (*x, *y),
        Instr::ClockwiseArc { x, y, .. } => (*x, *y),
        Instr::CounterclockwiseArc { x, y, .. } => (*x, *y),
        _ => unreachable!(),
    };
    assert_eq!(target, (-3 * U, 4 * U));
}
