//! The emission engine: program lifecycle, tool transitions, deferred
//! between-layers sequences, and buffered arc re-detection.
use svg2gcode::{
    GCodeTurtle, Instr, Machine, Point, PolygonArcConfig, SupportedFunctionality,
};

const U: i64 = 1_000_000;

fn machine(circular: bool) -> Machine {
    Machine::new(
        SupportedFunctionality { circular_interpolation: circular },
        Some("M3".to_string()),
        Some("M5".to_string()),
        None,
        Some("END".to_string()),
        Some("M0".to_string()),
    )
}

fn turtle(circular: bool, detect: bool) -> GCodeTurtle {
    GCodeTurtle::new(
        machine(circular),
        2000,
        300 * U,
        100,
        PolygonArcConfig { enabled: detect, min_points: 4, tolerance: 2000 },
    )
}

fn pt(x: i64, y: i64) -> Point {
    Point { x, y }
}

#[test]
fn program_lifecycle_emits_directives_sequences_and_moves() {
    let mut t = turtle(false, false);
    t.begin();
    t.move_to(pt(U, U));
    t.line_to(pt(2 * U, 2 * U));
    t.end();
    let expected = vec![
        Instr::UnitsMillimeters,
        Instr::AbsoluteMode,
        Instr::RapidMove { x: U, y: U },
        Instr::Snippet("M3".to_string()),
        Instr::LinearMove { x: 2 * U, y: 2 * U, f: 300 * U },
        Instr::Snippet("M5".to_string()),
        Instr::Snippet("END".to_string()),
    ];
    assert_eq!(t.program, expected);
}

#[test]
fn between_layers_sequence_is_deferred_to_the_next_activation() {
    let mut t = turtle(false, false);
    t.begin();
    t.move_to(pt(0, 0));
    t.line_to(pt(U, 0));
    // a layer boundary, then a travel move, then the next draw
    t.between_layers();
    t.move_to(pt(0, U));
    t.line_to(pt(U, U));
    t.end();
    let boundary_positions: Vec<usize> = t
        .program
        .iter()
        .enumerate()
        .filter(|(_, e)| matches!(e, Instr::Snippet(s) if s == "M0"))
        .map(|(i, _)| i)
        .collect();
    // exactly one boundary, realized after the travel move,
    // immediately before the tool-on sequence and the next draw
    assert_eq!(boundary_positions.len(), 1);
    let k = boundary_positions[0];
    assert_eq!(t.program[k - 1], Instr::Blank);
    assert!(matches!(&t.program[k - 2], Instr::RapidMove { .. }));
    assert_eq!(t.program[k + 1], Instr::Snippet("M3".to_string()));
    assert!(matches!(&t.program[k + 2], Instr::LinearMove { .. }));
}

#[test]
fn between_layers_alone_emits_nothing() {
    let mut t = turtle(false, false);
    t.begin();
    let before = t.program.len();
    t.between_layers();
    assert_eq!(t.program.len(), before);
    assert!(t.pending_between_layers);
}

#[test]
fn circular_interpolation_emits_center_offsets() {
    let mut t = turtle(true, false);
    t.begin();
    t.move_to(pt(5 * U, 0));
    let arc = svg2gcode::SvgArc {
        from: pt(5 * U, 0),
        to: pt(3 * U, 4 * U),
        rx: 5 * U,
        ry: 5 * U,
        x_rotation: svg2gcode::arcs::Rotation { cos: svg2gcode::SCALE, sin: 0 },
        flags: svg2gcode::ArcFlags { large_arc: false, sweep: true },
    };
    t.arc(&arc);
    let found = t.program.iter().any(|e| {
        *e == Instr::CounterclockwiseArc { x: 3 * U, y: 4 * U, i: -5 * U, j: 0, f: 300 * U }
    });
    assert!(found, "{:?}", t.program);
}

#[test]
fn small_arcs_degrade_to_straight_moves() {
    let mut t = turtle(true, false);
    t.begin();
    t.move_to(pt(0, 0));
    // a radius far below the configured floor of one hundred micro-units
    let arc = svg2gcode::SvgArc {
        from: pt(0, 0),
        to: pt(40, 30),
        rx: 25,
        ry: 25,
        x_rotation: svg2gcode::arcs::Rotation { cos: svg2gcode::SCALE, sin: 0 },
        flags: svg2gcode::ArcFlags { large_arc: false, sweep: true },
    };
    t.arc(&arc);
    assert!(t.program.iter().all(|e| !matches!(
        e,
        Instr::ClockwiseArc { .. } | Instr::CounterclockwiseArc { .. }
    )));
    assert!(t.program.iter().any(|e| matches!(e, Instr::LinearMove { .. })));
}

#[test]
fn buffered_collinear_run_flushes_to_straight_moves() {
    let mut t = turtle(true, true);
    t.begin();
    t.move_to(pt(0, 0));
    for i in 1..6i64 {
        t.line_to(pt(i * U, i * U));
    }
    t.end();
    // re-detection found no arc in a straight run
    assert!(t.program.iter().all(|e| !matches!(
        e,
        Instr::ClockwiseArc { .. } | Instr::CounterclockwiseArc { .. }
    )));
    let lines = t
        .program
        .iter()
        .filter(|e| matches!(e, Instr::LinearMove { .. }))
        .count();
    assert_eq!(lines, 5);
}

#[test]
fn buffered_circular_run_flushes_to_an_arc() {
    let mut t = turtle(true, true);
    t.begin();
    t.move_to(pt(5 * U, 0));
    t.line_to(pt(4 * U, 3 * U));
    t.line_to(pt(3 * U, 4 * U));
    t.line_to(pt(0, 5 * U));
    t.end();
    let arcs = t
        .program
        .iter()
        .filter(|e| matches!(
            e,
            Instr::ClockwiseArc { .. } | Instr::CounterclockwiseArc { .. }
        ))
        .count();
    assert!(arcs >= 1, "{:?}", t.program);
}

#[test]
fn quadratic_degree_elevation_is_exact() {
    let q = svg2gcode::QuadraticBezierSegment {
        from: pt(0, 0),
        ctrl: pt(3 * U, 0),
        to: pt(3 * U, 3 * U),
    };
    let c = q.to_cubic();
    assert_eq!(c.from, q.from);
    assert_eq!(c.to, q.to);
    assert_eq!(c.ctrl1, pt(2 * U, 0));
    assert_eq!(c.ctrl2, pt(3 * U, U));
}

#[test]
fn line_buffer_flushes_past_the_cap() {
    let mut t = turtle(true, true);
    t.begin();
    t.move_to(pt(0, 0));
    for i in 1..1200i64 {
        t.line_to(pt(i * 1000, 0));
    }
    t.end();
    // every buffered point after the first becomes a move, across the
    // forced flush at the cap
    let moves = t
        .program
        .iter()
        .filter(|e| matches!(e, Instr::LinearMove { .. }))
        .count();
    assert_eq!(moves, 1199);
}
