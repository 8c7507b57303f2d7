//! Configuration surface: conversion parameters, per-run options, machine
//! capabilities and sequences, output post-processing switches, and settings
//! versioning.
use vstd::prelude::*;
use crate::units::Length;

verus! {

/// What the target machine can do natively.
#[derive(Clone, Debug, PartialEq)]
pub struct SupportedFunctionality {
    /// Whether the machine accepts true circular-arc moves.
    pub circular_interpolation: bool,
}

/// High-level output configuration. All physical quantities are fixed-point
/// micro-units: tolerance and origin in millimeters, feedrate in
/// millimeters per minute, DPI in dots per inch.
#[derive(Clone, Debug, PartialEq)]
pub struct ConversionConfig {
    /// Curve interpolation tolerance in millimeters; must be positive.
    pub tolerance: i64,
    /// Feedrate in millimeters per minute.
    pub feedrate: i64,
    /// Dots per inch for pixels, picas, points, etc.
    pub dpi: i64,
    /// Optional per-axis origin offsets in millimeters.
    pub origin: [Option<i64>; 2],
    /// Floor below which circular moves degrade to straight lines; defaults
    /// to one twentieth of the tolerance when absent.
    pub min_arc_radius: Option<i64>,
    /// Extra attribute echoed into traversal comments.
    pub extra_attribute_name: Option<String>,
    /// Whether line runs are scanned for circular arcs.
    pub detect_polygon_arcs: bool,
    /// Fewest points a detected polygon arc may span.
    pub min_polygon_arc_points: usize,
    /// Tolerance for polygon arc detection; defaults to the interpolation
    /// tolerance when absent.
    pub polygon_arc_tolerance: Option<i64>,
}

impl ConversionConfig {
    /// Tolerance positive and every quantity within the coordinate range.
    pub open spec fn wf(self) -> bool {
        &&& 0 < self.tolerance <= crate::geom::COORD_MAX
        &&& 0 < self.dpi <= 1_000_000_000_000
        &&& 0 <= self.feedrate <= crate::geom::COORD_MAX
        &&& self.origin[0] is Some ==> crate::fixed::sabs(self.origin[0]->0 as int) <= crate::geom::COORD_MAX as int
        &&& self.origin[1] is Some ==> crate::fixed::sabs(self.origin[1]->0 as int) <= crate::geom::COORD_MAX as int
        &&& self.min_arc_radius is Some ==> 0 <= self.min_arc_radius->0 <= crate::geom::COORD_MAX
        &&& self.polygon_arc_tolerance is Some ==> 0 < self.polygon_arc_tolerance->0 <= crate::geom::COORD_MAX
        &&& 3 <= self.min_polygon_arc_points <= 100000
    }

    /// The effective arc-radius floor: the configured value, or one
    /// twentieth of the tolerance.
    pub fn effective_min_arc_radius(&self) -> (r: i64)
        ensures
            self.min_arc_radius is Some ==> r == self.min_arc_radius->0,
            self.min_arc_radius is None && self.tolerance >= 0 ==> r == self.tolerance / 20,
            self.min_arc_radius is None && self.tolerance < 0 ==> r == 0,
            self.wf() ==> 0 <= r <= crate::geom::COORD_MAX,
    {
        match self.min_arc_radius {
            Option::Some(r) => r,
            Option::None => {
                if self.tolerance >= 0 {
                    self.tolerance / 20
                } else {
                    0
                }
            },
        }
    }
}

impl Default for ConversionConfig {
    /// A two-micron tolerance, 300 mm/min feedrate, 96 DPI, and the origin
    /// pinned to (0, 0).
    fn default() -> (r: Self)
        ensures
            r.tolerance == 2_000,
            r.feedrate == 300_000_000,
            r.dpi == 96_000_000,
            r.origin[0] == Some(0i64) && r.origin[1] == Some(0i64),
            r.min_arc_radius is None,
            r.extra_attribute_name is None,
            !r.detect_polygon_arcs,
            r.min_polygon_arc_points == 5,
            r.polygon_arc_tolerance is None,
            r.wf(),
    {
        ConversionConfig {
            tolerance: 2_000,
            feedrate: 300_000_000,
            dpi: 96_000_000,
            origin: [Some(0), Some(0)],
            min_arc_radius: None,
            extra_attribute_name: None,
            detect_polygon_arcs: false,
            min_polygon_arc_points: 5,
            polygon_arc_tolerance: None,
        }
    }
}

/// Horizontal placement of the drawing within its container.
#[derive(Clone, Copy, Debug, PartialEq, Eq, Structural)]
pub enum HorizontalAlign {
    Left,
    Center,
    Right,
}

impl Default for HorizontalAlign {
    fn default() -> (r: Self)
        ensures
            r == HorizontalAlign::Left,
    {
        HorizontalAlign::Left
    }
}

/// Vertical placement of the drawing within its container.
#[derive(Clone, Copy, Debug, PartialEq, Eq, Structural)]
pub enum VerticalAlign {
    Bottom,
    Center,
    Top,
}

impl Default for VerticalAlign {
    fn default() -> (r: Self)
        ensures
            r == VerticalAlign::Top,
    {
        VerticalAlign::Top
    }
}

/// Options specific to one conversion run.
#[derive(Clone, Copy, Debug, PartialEq)]
pub struct ConversionOptions {
    /// Width and height override.
    pub dimensions: [Option<Length>; 2],
    /// Horizontal alignment within the viewport or target dimensions.
    pub h_align: HorizontalAlign,
    /// Vertical alignment within the viewport or target dimensions.
    pub v_align: VerticalAlign,
    /// Scale the tight bounding box to the provided dimensions,
    /// aspect-ratio preserved, instead of treating them as viewport size.
    pub trim: bool,
}

impl Default for ConversionOptions {
    fn default() -> (r: Self)
        ensures
            r.dimensions[0] is None && r.dimensions[1] is None,
            r.h_align == HorizontalAlign::Left,
            r.v_align == VerticalAlign::Top,
            !r.trim,
    {
        ConversionOptions {
            dimensions: [None, None],
            h_align: HorizontalAlign::Left,
            v_align: VerticalAlign::Top,
            trim: false,
        }
    }
}

/// Machine capabilities and the user-supplied instruction sequences, kept as
/// raw text and parsed externally.
#[derive(Clone, Debug, PartialEq)]
pub struct MachineConfig {
    pub supported_functionality: SupportedFunctionality,
    pub tool_on_sequence: Option<String>,
    pub tool_off_sequence: Option<String>,
    pub begin_sequence: Option<String>,
    pub end_sequence: Option<String>,
    pub between_layers_sequence: Option<String>,
}

impl Default for MachineConfig {
    fn default() -> (r: Self)
        ensures
            !r.supported_functionality.circular_interpolation,
            r.tool_on_sequence is None,
            r.tool_off_sequence is None,
            r.begin_sequence is None,
            r.end_sequence is None,
            r.between_layers_sequence is None,
    {
        MachineConfig {
            supported_functionality: SupportedFunctionality { circular_interpolation: false },
            tool_on_sequence: None,
            tool_off_sequence: None,
            begin_sequence: None,
            end_sequence: None,
            between_layers_sequence: None,
        }
    }
}

/// Switches for the external line-oriented renderer.
#[derive(Clone, Debug, PartialEq)]
pub struct PostprocessConfig {
    pub checksums: bool,
    pub line_numbers: bool,
    pub newline_before_comment: bool,
}

impl Default for PostprocessConfig {
    fn default() -> (r: Self)
        ensures
            !r.checksums && !r.line_numbers && !r.newline_before_comment,
    {
        PostprocessConfig { checksums: false, line_numbers: false, newline_before_comment: false }
    }
}

/// Breaking-change marker for externally stored settings.
#[derive(Clone, Debug, PartialEq, Eq, PartialOrd, Ord)]
pub enum Version {
    /// Implicitly versioned settings from before this marker existed.
    V0,
    /// An end-of-program word is no longer appended by default.
    V5,
    Unknown(String),
}

impl Version {
    /// The most recent version.
    pub fn latest() -> (r: Self)
        ensures
            r == Version::V5,
    {
        Version::V5
    }

    /// The version assumed for settings stored before versioning existed.
    pub fn unknown() -> (r: Self)
        ensures
            r == Version::V0,
    {
        Version::V0
    }

    /// Human-readable form of the version marker.
    pub fn label(&self) -> (r: String)
        ensures
            self is V0 ==> r@ == "V0"@,
            self is V5 ==> r@ == "V5"@,
            self matches Version::Unknown(s) ==> r@ == s@,
    {
        match self {
            Version::V0 => "V0".to_owned(),
            Version::V5 => "V5".to_owned(),
            Version::Unknown(u) => u.as_str().to_owned(),
        }
    }
}

impl Default for Version {
    fn default() -> (r: Self)
        ensures
            r == Version::V5,
    {
        Version::V5
    }
}

/// Every configuration type in one store.
#[derive(Clone, Debug, PartialEq)]
pub struct Settings {
    pub conversion: ConversionConfig,
    pub machine: MachineConfig,
    pub postprocess: PostprocessConfig,
    pub version: Version,
}

impl Default for Settings {
    fn default() -> (r: Self)
        ensures
            r.version == Version::V5,
            r.conversion.wf(),
            r.conversion.tolerance == 2_000,
            !r.machine.supported_functionality.circular_interpolation,
            r.machine.end_sequence is None,
            !r.postprocess.checksums && !r.postprocess.line_numbers
                && !r.postprocess.newline_before_comment,
    {
        Settings {
            conversion: ConversionConfig::default(),
            machine: MachineConfig::default(),
            postprocess: PostprocessConfig::default(),
            version: Version::V5,
        }
    }
}

impl Settings {
    /// Upgrade stored settings to the latest version.
    ///
    /// Settings from before versioning get the legacy end-of-program word
    /// appended to their end sequence; an unknown version is rejected and
    /// nothing changes.
    pub fn try_upgrade(&mut self) -> (r: Result<(), &'static str>)
        ensures
            old(self).version is V0 ==> {
                &&& r is Ok
                &&& final(self).version == Version::V5
                &&& final(self).machine.end_sequence matches Some(s2) && s2@
                    == (if old(self).machine.end_sequence is Some {
                        old(self).machine.end_sequence->0@
                    } else {
                        Seq::<char>::empty()
                    }) + " M2"@
                &&& final(self).conversion == old(self).conversion
                &&& final(self).postprocess == old(self).postprocess
            },
            old(self).version is V5 ==> r is Ok && *final(self) == *old(self),
            old(self).version is Unknown ==> r is Err && *final(self) == *old(self),
    {
        match &self.version {
            Version::V0 => {
                let mut seq: String = match self.machine.end_sequence.take() {
                    Option::Some(s) => s,
                    Option::None => String::new(),
                };
                seq.append(" M2");
                self.machine.end_sequence = Some(seq);
                self.version = Version::V5;
                Ok(())
            },
            Version::V5 => Ok(()),
            Version::Unknown(_) => Err("cannot upgrade unknown version"),
        }
    }
}

} // verus!
