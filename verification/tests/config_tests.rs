//! Configuration defaults, settings versioning, and unit resolution.
use svg2gcode::units::length_to_user_units;
use svg2gcode::{
    ConversionConfig, ConversionOptions, DimensionHint, HorizontalAlign, Length, LengthUnit,
    MachineConfig, Settings, Version, VerticalAlign,
};

const U: i64 = 1_000_000;

#[test]
fn conversion_config_default_values() {
    let c = ConversionConfig::default();
    assert_eq!(c.tolerance, 2000);
    assert_eq!(c.feedrate, 300 * U);
    assert_eq!(c.dpi, 96 * U);
    assert_eq!(c.origin, [Some(0), Some(0)]);
    assert_eq!(c.min_arc_radius, None);
    assert!(!c.detect_polygon_arcs);
    assert_eq!(c.min_polygon_arc_points, 5);
}

#[test]
fn alignment_defaults_are_left_and_top() {
    assert_eq!(HorizontalAlign::default(), HorizontalAlign::Left);
    assert_eq!(VerticalAlign::default(), VerticalAlign::Top);
    let o = ConversionOptions::default();
    assert_eq!(o.dimensions, [None, None]);
    assert!(!o.trim);
}

#[test]
fn min_arc_radius_defaults_to_a_twentieth_of_tolerance() {
    let c = ConversionConfig::default();
    assert_eq!(c.effective_min_arc_radius(), 100);
    let c2 = ConversionConfig { min_arc_radius: Some(7), ..ConversionConfig::default() };
    assert_eq!(c2.effective_min_arc_radius(), 7);
}

#[test]
fn version_latest_and_unknown() {
    assert_eq!(Version::latest(), Version::V5);
    assert_eq!(Version::unknown(), Version::V0);
    assert_eq!(Version::default(), Version::V5);
    assert_eq!(Version::V0.label(), "V0");
    assert_eq!(Version::V5.label(), "V5");
    assert_eq!(Version::Unknown("V9".to_string()).label(), "V9");
}

#[test]
fn try_upgrade_appends_the_legacy_end_word() {
    let mut s = Settings::default();
    s.version = Version::V0;
    s.machine = MachineConfig { end_sequence: Some("G0 X0".to_string()), ..MachineConfig::default() };
    assert!(s.try_upgrade().is_ok());
    assert_eq!(s.version, Version::V5);
    assert_eq!(s.machine.end_sequence, Some("G0 X0 M2".to_string()));
}

#[test]
fn try_upgrade_of_latest_changes_nothing() {
    let mut s = Settings::default();
    let before = s.clone();
    assert!(s.try_upgrade().is_ok());
    assert_eq!(s, before);
}

#[test]
fn try_upgrade_rejects_unknown_versions() {
    let mut s = Settings::default();
    s.version = Version::Unknown("V9".to_string());
    assert_eq!(s.try_upgrade(), Err("cannot upgrade unknown version"));
    assert_eq!(s.version, Version::Unknown("V9".to_string()));
}

#[test]
fn absolute_units_convert_through_the_dpi() {
    let dpi = 96 * U;
    let mm = |n| Length { number: n, unit: LengthUnit::Mm };
    // ten millimeters at 96 dpi: 10 / 25.4 * 96 user units, truncating
    assert_eq!(length_to_user_units(mm(10 * U), DimensionHint::Horizontal, dpi, None), 37_795_275);
    let inch = Length { number: U, unit: LengthUnit::In };
    assert_eq!(length_to_user_units(inch, DimensionHint::Horizontal, dpi, None), 96 * U);
    let px = Length { number: 7 * U, unit: LengthUnit::Px };
    assert_eq!(length_to_user_units(px, DimensionHint::Horizontal, dpi, None), 7 * U);
    let em = Length { number: 2 * U, unit: LengthUnit::Em };
    assert_eq!(length_to_user_units(em, DimensionHint::Horizontal, dpi, None), 32 * U);
}

#[test]
fn percentages_resolve_against_the_viewport() {
    let dpi = 96 * U;
    let pct = |n| Length { number: n, unit: LengthUnit::Percent };
    let vp = Some((200 * U, 100 * U));
    assert_eq!(length_to_user_units(pct(50 * U), DimensionHint::Horizontal, dpi, vp), 100 * U);
    assert_eq!(length_to_user_units(pct(50 * U), DimensionHint::Vertical, dpi, vp), 50 * U);
    // the diagonal hint of a square viewport is the side itself
    let sq = Some((100 * U, 100 * U));
    let d = length_to_user_units(pct(100 * U), DimensionHint::Other, dpi, sq);
    assert!((d - 100 * U).abs() <= 1, "diagonal {d}");
    // no established viewport: the raw number passes through
    assert_eq!(length_to_user_units(pct(40 * U), DimensionHint::Horizontal, dpi, None), 40 * U);
}

#[test]
fn point_and_pica_units_convert_exactly() {
    let dpi = 96 * U;
    let pt = Length { number: 72 * U, unit: LengthUnit::Pt };
    // seventy-two points are one inch
    assert_eq!(length_to_user_units(pt, DimensionHint::Horizontal, dpi, None), 96 * U);
    let pc = Length { number: 6 * U, unit: LengthUnit::Pc };
    // six picas are one inch
    assert_eq!(length_to_user_units(pc, DimensionHint::Horizontal, dpi, None), 96 * U);
}
