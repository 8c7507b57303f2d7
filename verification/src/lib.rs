//! Conversion core for turning vector-graphics geometry into machine
//! instructions: exact fixed-point geometry, tolerance-bounded curve
//! approximation, placement resolution, and a verified emission engine.

/// Placement: origin, trim, and alignment resolution over the pre-pass box.
pub mod align;
/// Text analysis of documents and rendered programs.
pub mod analysis;
/// Circular-arc primitives and polyline arc detection.
pub mod arcs;
/// Configuration types and settings versioning.
pub mod config;
/// The instruction emission engine.
pub mod emit;
/// Fixed-point scalar arithmetic.
pub mod fixed;
/// Curve and arc flattening.
pub mod flatten;
/// Points, bounding boxes, and affine transforms.
pub mod geom;
/// Document-traversal logic: shape lowering, path walking, layers,
/// viewports.
pub mod traverse;
/// Length resolution to user units.
pub mod units;

pub use align::{svg2program_transform, PreprocessTurtle, TransformStack};
pub use analysis::{analyze_gcode, count_arc_indicators, ArcIndicators, GCodeStats};
pub use arcs::{detect_polygon_arcs, ArcFlags, ArcOrLineSegment, LineSegment, SvgArc};
pub use config::{
    ConversionConfig, ConversionOptions, HorizontalAlign, MachineConfig, PostprocessConfig,
    Settings, SupportedFunctionality, Version, VerticalAlign,
};
pub use emit::{GCodeTurtle, Instr, Machine, PolygonArcConfig, QuadraticBezierSegment};
pub use fixed::SCALE;
pub use flatten::CubicBezierSegment;
pub use geom::{AffineTransform, BoundingBox, Point};
pub use traverse::{
    lower_ellipse, lower_line, lower_polyline, lower_rect, plan_layer_boundaries,
    resolve_viewport, walk_path, PathCommand, PathState, ViewportResolution,
};
pub use units::{DimensionHint, Length, LengthUnit};
