//! Placement scenarios: trim, alignment and origin resolution.
use svg2gcode::align::{mm_to_uu, uu_to_mm};
use svg2gcode::{
    svg2program_transform, BoundingBox, ConversionConfig, ConversionOptions, HorizontalAlign,
    Length, LengthUnit, Point, VerticalAlign,
};

/// One unit (or millimeter) in micro-units.
const U: i64 = 1_000_000;

fn mm(v: i64) -> Option<Length> {
    Some(Length { number: v * U, unit: LengthUnit::Mm })
}

/// Apply the placement transform to the corners of a box of user-unit
/// geometry and report the millimeter extents of the result.
fn extents_mm(
    config: &ConversionConfig,
    options: &ConversionOptions,
    bbox_mm: &BoundingBox,
    corners_uu: &[(i64, i64)],
) -> (i64, i64, i64, i64) {
    let t = svg2program_transform(config, options, bbox_mm, (10 * U, 10 * U));
    let mut min_x = i64::MAX;
    let mut max_x = i64::MIN;
    let mut min_y = i64::MAX;
    let mut max_y = i64::MIN;
    for &(x, y) in corners_uu {
        let p = t.transform_point(Point { x, y });
        let xm = uu_to_mm(p.x, config.dpi);
        let ym = uu_to_mm(p.y, config.dpi);
        min_x = min_x.min(xm);
        max_x = max_x.max(xm);
        min_y = min_y.min(ym);
        max_y = max_y.max(ym);
    }
    (min_x, max_x, min_y, max_y)
}

/// Truncation in the fixed-point pipeline may lose a few micro-units.
fn approx(actual: i64, expected_mm: i64) -> bool {
    (actual - expected_mm * U).abs() <= 5
}

/// A 10 mm square in user units, and its pass-one bounding box (mm).
fn square10() -> (BoundingBox, Vec<(i64, i64)>) {
    let bbox = BoundingBox { min_x: 0, min_y: 0, max_x: 10 * U, max_y: 10 * U };
    // geometry in user units: 10 mm at 96 dpi is 10 / 25.4 * 96 user units
    let side = mm_to_uu(10 * U, ConversionConfig::default().dpi);
    (bbox, vec![(0, 0), (side, 0), (side, side), (0, side)])
}

#[test]
fn trim_center_top_alignment() {
    let config = ConversionConfig::default();
    let options = ConversionOptions {
        dimensions: [mm(100), mm(50)],
        h_align: HorizontalAlign::Center,
        v_align: VerticalAlign::Top,
        trim: true,
    };
    let (bbox, corners) = square10();
    let (min_x, max_x, min_y, max_y) = extents_mm(&config, &options, &bbox, &corners);
    assert!(approx(min_x, 25), "min_x={min_x}");
    assert!(approx(max_x, 75), "max_x={max_x}");
    assert!(approx(min_y, 0), "min_y={min_y}");
    assert!(approx(max_y, 50), "max_y={max_y}");
}

#[test]
fn trim_right_bottom_alignment() {
    let config = ConversionConfig::default();
    let options = ConversionOptions {
        dimensions: [mm(100), mm(50)],
        h_align: HorizontalAlign::Right,
        v_align: VerticalAlign::Bottom,
        trim: true,
    };
    let (bbox, corners) = square10();
    let (min_x, max_x, min_y, max_y) = extents_mm(&config, &options, &bbox, &corners);
    assert!(approx(min_x, 50), "min_x={min_x}");
    assert!(approx(max_x, 100), "max_x={max_x}");
    assert!(approx(min_y, 0), "min_y={min_y}");
    assert!(approx(max_y, 50), "max_y={max_y}");
}

#[test]
fn trim_only_width() {
    let config = ConversionConfig::default();
    let options = ConversionOptions {
        dimensions: [mm(80), None],
        h_align: HorizontalAlign::Left,
        v_align: VerticalAlign::Top,
        trim: true,
    };
    let (bbox, corners) = square10();
    let (min_x, max_x, min_y, max_y) = extents_mm(&config, &options, &bbox, &corners);
    assert!(approx(min_x, 0), "min_x={min_x}");
    assert!(approx(max_x, 80), "max_x={max_x}");
    assert!(approx(min_y, 0), "min_y={min_y}");
    assert!(approx(max_y, 80), "max_y={max_y}");
}

#[test]
fn rect_taller_center_trim() {
    // a 10x20 rectangle fit into 120x60: uniform scale 3, centered
    let config = ConversionConfig::default();
    let options = ConversionOptions {
        dimensions: [mm(120), mm(60)],
        h_align: HorizontalAlign::Center,
        v_align: VerticalAlign::Top,
        trim: true,
    };
    let bbox = BoundingBox { min_x: 0, min_y: 0, max_x: 10 * U, max_y: 20 * U };
    let w = mm_to_uu(10 * U, config.dpi);
    let h = mm_to_uu(20 * U, config.dpi);
    let corners = vec![(0, 0), (w, 0), (w, h), (0, h)];
    let (min_x, max_x, min_y, max_y) = extents_mm(&config, &options, &bbox, &corners);
    assert!(approx(min_x, 45), "min_x={min_x}");
    assert!(approx(max_x, 75), "max_x={max_x}");
    assert!(approx(min_y, 0), "min_y={min_y}");
    assert!(approx(max_y, 60), "max_y={max_y}");
}

#[test]
fn dimensions_no_trim_center_alignment_should_not_scale_bbox() {
    // dimensions given without trim: the drawing must keep its size
    let config = ConversionConfig::default();
    let options = ConversionOptions {
        dimensions: [mm(100), mm(50)],
        h_align: HorizontalAlign::Center,
        v_align: VerticalAlign::Center,
        trim: false,
    };
    let (bbox, corners) = square10();
    let (min_x, max_x, min_y, max_y) = extents_mm(&config, &options, &bbox, &corners);
    let width = max_x - min_x;
    let height = max_y - min_y;
    assert!((width - 10 * U).abs() <= 5, "unexpected width {width}");
    assert!((height - 10 * U).abs() <= 5, "unexpected height {height}");
}

#[test]
fn origin_translation_without_alignment() {
    // no alignment or trim: the origin pins the box minimum to the offset
    let config = ConversionConfig::default();
    let options = ConversionOptions::default();
    let bbox = BoundingBox { min_x: 5 * U, min_y: 5 * U, max_x: 15 * U, max_y: 15 * U };
    let t = svg2program_transform(&config, &options, &bbox, (10 * U, 10 * U));
    assert_eq!(t.a, svg2gcode::SCALE);
    assert_eq!(t.d, svg2gcode::SCALE);
    // -5 mm in user units at 96 dpi, truncating
    assert_eq!(t.tx, -18_897_637);
    assert_eq!(t.ty, -18_897_637);
}

#[test]
fn transform_stack_balances_pushes_and_pops() {
    let mut stack = svg2gcode::TransformStack::new();
    let base = stack.top();
    let local = svg2gcode::AffineTransform::translation(3 * U, 4 * U);
    stack.push_transform(&local);
    let inner = stack.top();
    // the scope's composition starts from the parent entry
    assert_eq!(inner.tx, 3 * U);
    assert_eq!(inner.ty, 4 * U);
    stack.pop_transform();
    assert_eq!(stack.top(), base);
}
