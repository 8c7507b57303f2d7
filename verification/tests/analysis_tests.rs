//! Document and program text analysis.
use svg2gcode::{analyze_gcode, count_arc_indicators};

#[test]
fn count_arc_indicators_counts_shapes_and_commands() {
    let svg = "<svg><circle r='1'/><ellipse rx='2'/><path d='M0 0 C 1 1 2 2 3 3 A 1 1 0 0 1 4 4'/><path d='M0 0 L1 1'/></svg>";
    let r = count_arc_indicators(svg);
    assert_eq!(r.circles, 1);
    assert_eq!(r.ellipses, 1);
    assert_eq!(r.path_elements, 2);
    assert_eq!(r.arc_commands, 1);
    assert_eq!(r.curves, 1);
}

#[test]
fn count_arc_indicators_on_empty_input() {
    let r = count_arc_indicators("");
    assert_eq!(r.circles, 0);
    assert_eq!(r.ellipses, 0);
    assert_eq!(r.path_elements, 0);
    assert_eq!(r.arc_commands, 0);
    assert_eq!(r.curves, 0);
}

#[test]
fn analyze_gcode_counts_moves_and_lines() {
    let gcode = "G21\nG1 X5 Y5 F300\nG2 X1 Y1 I0 J1\n  G3 X0 Y0 I1 J0\nG01 X2\nM2";
    let r = analyze_gcode(gcode);
    assert_eq!(r.g1_count, 2);
    assert_eq!(r.g2_count, 1);
    assert_eq!(r.g3_count, 1);
    assert_eq!(r.total_lines, 6);
}

#[test]
fn analyze_gcode_ignores_mid_line_words() {
    let gcode = "X1 G1 X2\nG1X3";
    let r = analyze_gcode(gcode);
    // neither line starts with a spaced move word
    assert_eq!(r.g1_count, 0);
    assert_eq!(r.total_lines, 2);
}

#[test]
fn analyze_svg_content_counts_shapes_and_commands() {
    let svg = "<svg><rect width='1'/><polyline points='0,0 1,1'/><polygon points='0,0 1,0 0,1'/><line x1='0'/><path d='M0 0 L 1 1 L 2 0 Z'/></svg>";
    let r = svg2gcode::analysis::analyze_svg_content(svg);
    assert_eq!(r.rects, 1);
    assert_eq!(r.polygons, 1);
    assert_eq!(r.polylines, 1);
    // only the standalone line element counts: the polyline opening does
    // not contain the line-element bytes
    assert_eq!(r.lines, 1);
    assert_eq!(r.line_commands, 2);
    assert_eq!(r.close_commands, 1);
}

#[test]
fn sample_path_data_extracts_the_first_path_values() {
    let svg = "<svg><path d=\"M0 0 L10 0\"/><path d=\"M1 1 C 2 2 3 3 4 4\"/><rect/></svg>";
    let samples = svg2gcode::analysis::sample_path_data(svg);
    assert_eq!(samples.len(), 2);
    assert_eq!(samples[0], "M0 0 L10 0");
    assert_eq!(samples[1], "M1 1 C 2 2 3 3 4 4");
}

#[test]
fn sample_path_data_stops_at_three_samples() {
    let svg = "<path d=\"a\"/><path d=\"b\"/><path d=\"c\"/><path d=\"d\"/>";
    let samples = svg2gcode::analysis::sample_path_data(svg);
    assert_eq!(samples.len(), 3);
    assert_eq!(samples[0], "a");
    assert_eq!(samples[1], "b");
    assert_eq!(samples[2], "c");
}
