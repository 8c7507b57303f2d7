//! The instruction emission engine: a stateful drawing sink that lowers
//! geometry into an ordered stream of machine instructions, manages tool
//! on/off transitions, defers between-layer sequences, and optionally
//! re-detects circular arcs across buffered line runs.
use vstd::prelude::*;
use crate::arcs::{chain_ok, elem_to, ArcOrLineSegment, LineSegment, SvgArc};
use crate::config::SupportedFunctionality;
use crate::fixed::{abs_i64, div_i128, mul_i128, sabs, sub_i64, SCALE};
use crate::geom::{clamp_coord, dist, Point, COORD_MAX};

verus! {

/// One machine instruction token group.
#[derive(Clone, Debug, PartialEq, Eq)]
pub enum Instr {
    /// Interpret coordinates as millimeters.
    UnitsMillimeters,
    /// Interpret coordinates as absolute positions.
    AbsoluteMode,
    /// Travel without drawing.
    RapidMove { x: i64, y: i64 },
    /// Draw a straight segment at the given feedrate.
    LinearMove { x: i64, y: i64, f: i64 },
    /// Draw a clockwise circular arc with center offsets `i`, `j`.
    ClockwiseArc { x: i64, y: i64, i: i64, j: i64, f: i64 },
    /// Draw a counterclockwise circular arc with center offsets `i`, `j`.
    CounterclockwiseArc { x: i64, y: i64, i: i64, j: i64, f: i64 },
    /// A free-text comment.
    Comment(String),
    /// A blank separator line.
    Blank,
    /// A user-configured instruction sequence, spliced verbatim and parsed
    /// by the external formatter.
    Snippet(String),
}

/// A straight drawing move.
pub open spec fn is_linear_move(e: Instr) -> bool {
    e matches Instr::LinearMove { x, y, f }
}

/// A drawing instruction (never a travel or a directive).
pub open spec fn is_draw_move(e: Instr, feed: int) -> bool {
    ||| e matches Instr::LinearMove { x, y, f } && f == feed
    ||| e matches Instr::ClockwiseArc { x, y, i, j, f } && f == feed
    ||| e matches Instr::CounterclockwiseArc { x, y, i, j, f } && f == feed
}

/// The target coordinates of a draw move.
pub open spec fn move_target(e: Instr) -> (int, int) {
    match e {
        Instr::LinearMove { x, y, f } => (x as int, y as int),
        Instr::ClockwiseArc { x, y, i, j, f } => (x as int, y as int),
        Instr::CounterclockwiseArc { x, y, i, j, f } => (x as int, y as int),
        Instr::RapidMove { x, y } => (x as int, y as int),
        _ => (0, 0),
    }
}

/// The machine's capabilities and configured instruction sequences.
#[derive(Clone, Debug, PartialEq)]
pub struct Machine {
    pub supported_functionality: SupportedFunctionality,
    pub tool_on_sequence: Option<String>,
    pub tool_off_sequence: Option<String>,
    pub begin_sequence: Option<String>,
    pub end_sequence: Option<String>,
    pub between_layers_sequence: Option<String>,
}

/// The instructions a configured sequence splices in: one snippet, or
/// nothing when the sequence is absent.
pub open spec fn snippet_seq(o: Option<String>) -> Seq<Instr> {
    match o {
        Option::Some(s) => seq![Instr::Snippet(s)],
        Option::None => Seq::<Instr>::empty(),
    }
}

impl Machine {
    /// Bundle machine capabilities with the user-supplied sequences.
    pub fn new(
        supported_functionality: SupportedFunctionality,
        tool_on_sequence: Option<String>,
        tool_off_sequence: Option<String>,
        begin_sequence: Option<String>,
        end_sequence: Option<String>,
        between_layers_sequence: Option<String>,
    ) -> (r: Machine)
        ensures
            r.supported_functionality == supported_functionality,
            r.tool_on_sequence == tool_on_sequence,
            r.tool_off_sequence == tool_off_sequence,
            r.begin_sequence == begin_sequence,
            r.end_sequence == end_sequence,
            r.between_layers_sequence == between_layers_sequence,
    {
        Machine {
            supported_functionality,
            tool_on_sequence,
            tool_off_sequence,
            begin_sequence,
            end_sequence,
            between_layers_sequence,
        }
    }

}

/// Append the instructions of one configured sequence.
fn push_snippet(which: &Option<String>, program: &mut Vec<Instr>)
    ensures
        final(program)@ == old(program)@ + snippet_seq(*which),
{
    match which {
        Option::Some(s) => {
            program.push(Instr::Snippet(s.clone()));
            proof {
                assert(program@ =~= old(program)@ + snippet_seq(*which));
            }
        },
        Option::None => {
            proof {
                assert(program@ =~= old(program)@ + snippet_seq(*which));
            }
        },
    }
}

/// The instructions emitted when the tool transitions from off to on:
/// a pending between-layers boundary is realized first — a blank separator
/// and the between-layers sequence — immediately followed by the tool-on
/// sequence.
pub open spec fn activation_emission(m: Machine, pending: bool) -> Seq<Instr> {
    (if pending {
        seq![Instr::Blank] + snippet_seq(m.between_layers_sequence)
    } else {
        Seq::<Instr>::empty()
    }) + snippet_seq(m.tool_on_sequence)
}

/// A between-layers boundary is realized lazily and adjacently: whatever
/// the machine, the emission at a tool activation with a pending boundary
/// is exactly one blank separator, the between-layers sequence, and then —
/// immediately, with nothing in between — the tool-on sequence; with no
/// pending boundary it is the tool-on sequence alone.
pub proof fn between_layers_immediately_precedes_activation(m: Machine)
    ensures
        activation_emission(m, true) == seq![Instr::Blank] + snippet_seq(
            m.between_layers_sequence,
        ) + snippet_seq(m.tool_on_sequence),
        activation_emission(m, false) == snippet_seq(m.tool_on_sequence),
{
    assert(activation_emission(m, true) =~= seq![Instr::Blank] + snippet_seq(
        m.between_layers_sequence,
    ) + snippet_seq(m.tool_on_sequence));
    assert(activation_emission(m, false) =~= snippet_seq(m.tool_on_sequence));
}

/// The center of a circular arc in endpoint parameterization, with the
/// truncations the executable code performs: the chord midpoint offset
/// along the chord's normal by `sqrt(r^2 - (chord/2)^2)`, on the side
/// selected by the sweep and large-arc flags; `None` for an empty chord.
pub open spec fn spec_arc_center(arc: SvgArc) -> Option<Point> {
    let chord = crate::arcs::spec_dist(arc.to, arc.from);
    if chord == 0 {
        Option::None
    } else {
        let mx = crate::fixed::div_t(arc.from.x + arc.to.x, 2);
        let my = crate::fixed::div_t(arc.from.y + arc.to.y, 2);
        let dx = arc.to.x - arc.from.x;
        let dy = arc.to.y - arc.from.y;
        let half2 = (chord * chord) / 4;
        let r2 = (arc.rx as int) * (arc.rx as int);
        let h2 = if r2 > half2 {
            r2 - half2
        } else {
            0
        };
        let h = crate::fixed::sqrtf(h2);
        let ox = crate::fixed::div_tz(-(dy * h), chord);
        let oy = crate::fixed::div_tz(dx * h, chord);
        let positive_side = arc.flags.sweep != arc.flags.large_arc;
        let cx = if positive_side {
            mx + ox
        } else {
            mx - ox
        };
        let cy = if positive_side {
            my + oy
        } else {
            my - oy
        };
        Option::Some(
            Point {
                x: crate::geom::clampc(crate::fixed::clamp_i64(cx)) as i64,
                y: crate::geom::clampc(crate::fixed::clamp_i64(cy)) as i64,
            },
        )
    }
}

/// The center of a circular arc in endpoint parameterization: the point at
/// the radius' distance from both endpoints, on the side selected by the
/// sweep and large-arc flags. `None` for an empty chord.
fn arc_center(arc: &SvgArc) -> (r: Option<Point>)
    requires
        arc.wf(),
        arc.rx == arc.ry,
    ensures
        r == spec_arc_center(*arc),
        r matches Some(c) ==> c.wf(),
{
    let from = arc.from;
    let to = arc.to;
    let chord = dist(to, from);
    if chord == 0 {
        return None;
    }
    let mx = div_i128((from.x as i128) + (to.x as i128), 2);
    let my = div_i128((from.y as i128) + (to.y as i128), 2);
    let dx = sub_i64(to.x, from.x);
    let dy = sub_i64(to.y, from.y);
    // squared half-chord and the center's offset from the chord midpoint
    let half2: i128 = (mul_i128(chord, chord)) / 4;
    let r2: i128 = mul_i128(arc.rx, arc.rx);
    let h2: i128 = if r2 > half2 {
        r2 - half2
    } else {
        0
    };
    proof {
        crate::geom::lemma_sq_bound(arc.rx as int, 3 * COORD_MAX as int);
        assert((3 * COORD_MAX as int) * (3 * COORD_MAX as int) == 0x771d2fa45345aa9000000)
            by (nonlinear_arith);
    }
    let h: i64 = crate::fixed::isqrt_u128(h2 as u128) as i64;
    proof {
        crate::fixed::lemma_sqrtf(h2 as int, h as int);
    }
    // left normal of the chord, scaled by h / chord
    proof {
        crate::fixed::lemma_mul_bound(
            dy as int,
            h as int,
            2 * COORD_MAX as int,
            0x1000000000000000,
        );
        crate::fixed::lemma_mul_bound(
            dx as int,
            h as int,
            2 * COORD_MAX as int,
            0x1000000000000000,
        );
        assert((2 * COORD_MAX as int) * 0x1000000000000000int
            < 0x40000000000000000000000000000000int) by (nonlinear_arith);
    }
    let ox = div_i128(-mul_i128(dy, h), chord as i128);
    let oy = div_i128(mul_i128(dx, h), chord as i128);
    let positive_side = arc.flags.sweep != arc.flags.large_arc;
    let cx: i128 = if positive_side {
        mx + ox
    } else {
        mx - ox
    };
    let cy: i128 = if positive_side {
        my + oy
    } else {
        my - oy
    };
    Some(
        Point {
            x: clamp_coord(clamp_i128_to_i64(cx)),
            y: clamp_coord(clamp_i128_to_i64(cy)),
        },
    )
}

/// Saturate a 128-bit value into `i64` (symmetric, like `clamp_i64`).
fn clamp_i128_to_i64(v: i128) -> (r: i64)
    ensures
        r as int == crate::fixed::clamp_i64(v as int),
        sabs(r as int) <= i64::MAX as int,
{
    if v > i64::MAX as i128 {
        i64::MAX
    } else if v < -(i64::MAX as i128) {
        -i64::MAX
    } else {
        v as i64
    }
}

/// The geometric midpoint a circular arc splits at, with the truncations
/// the executable code performs: the point at the radius' distance from
/// the center, towards the chord midpoint for a minor arc, away from it
/// for a large one, and along the chord's normal for an exact semicircle.
pub open spec fn spec_arc_split_mid(arc: SvgArc, center: Point) -> Point {
    let chord = crate::arcs::spec_dist(arc.to, arc.from);
    let mc = Point {
        x: crate::geom::clampc(
            crate::fixed::clamp_i64(crate::fixed::div_t(arc.from.x + arc.to.x, 2)),
        ) as i64,
        y: crate::geom::clampc(
            crate::fixed::clamp_i64(crate::fixed::div_t(arc.from.y + arc.to.y, 2)),
        ) as i64,
    };
    let d = crate::arcs::spec_dist(mc, center);
    if d == 0 {
        let dx = arc.to.x - arc.from.x;
        let dy = arc.to.y - arc.from.y;
        let ux = crate::fixed::div_tz(dy * arc.rx, chord);
        let uy = crate::fixed::div_tz(dx * arc.rx, chord);
        if arc.flags.sweep {
            Point {
                x: crate::geom::clampc(crate::fixed::clamp_i64(center.x + ux)) as i64,
                y: crate::geom::clampc(crate::fixed::clamp_i64(center.y - uy)) as i64,
            }
        } else {
            Point {
                x: crate::geom::clampc(crate::fixed::clamp_i64(center.x - ux)) as i64,
                y: crate::geom::clampc(crate::fixed::clamp_i64(center.y + uy)) as i64,
            }
        }
    } else {
        let vx = mc.x - center.x;
        let vy = mc.y - center.y;
        let sx = crate::fixed::div_tz(vx * arc.rx, d);
        let sy = crate::fixed::div_tz(vy * arc.rx, d);
        if arc.flags.large_arc {
            Point {
                x: crate::geom::clampc(crate::fixed::clamp_i64(center.x - sx)) as i64,
                y: crate::geom::clampc(crate::fixed::clamp_i64(center.y - sy)) as i64,
            }
        } else {
            Point {
                x: crate::geom::clampc(crate::fixed::clamp_i64(center.x + sx)) as i64,
                y: crate::geom::clampc(crate::fixed::clamp_i64(center.y + sy)) as i64,
            }
        }
    }
}

/// The two non-large halves a circular arc splits into at its geometric
/// midpoint; `None` for an empty chord or an undefined center.
pub open spec fn spec_arc_split(arc: SvgArc) -> Option<(SvgArc, SvgArc)> {
    let chord = crate::arcs::spec_dist(arc.to, arc.from);
    if chord == 0 {
        Option::None
    } else {
        match spec_arc_center(arc) {
            Option::Some(center) => {
                let mid = spec_arc_split_mid(arc, center);
                let half_flags = crate::arcs::ArcFlags {
                    large_arc: false,
                    sweep: arc.flags.sweep,
                };
                Option::Some(
                    (
                        SvgArc {
                            from: arc.from,
                            to: mid,
                            rx: arc.rx,
                            ry: arc.ry,
                            x_rotation: arc.x_rotation,
                            flags: half_flags,
                        },
                        SvgArc {
                            from: mid,
                            to: arc.to,
                            rx: arc.rx,
                            ry: arc.ry,
                            x_rotation: arc.x_rotation,
                            flags: half_flags,
                        },
                    ),
                )
            },
            Option::None => Option::None,
        }
    }
}

/// Split a circular arc at its geometric midpoint into two non-large
/// halves sharing it, with the winding direction kept.
pub fn arc_split_points(arc: &SvgArc) -> (r: Option<(SvgArc, SvgArc)>)
    requires
        arc.wf(),
        arc.rx == arc.ry,
    ensures
        r == spec_arc_split(*arc),
        r matches Some((a1, a2)) ==> a1.wf() && a2.wf() && a1.rx == a1.ry && a2.rx == a2.ry
            && a1.rx == arc.rx && a2.rx == arc.rx,
{
    arc_split(arc)
}

/// Split a circular arc at its geometric midpoint into two non-large
/// halves sharing it, with the winding direction kept.
fn arc_split(arc: &SvgArc) -> (r: Option<(SvgArc, SvgArc)>)
    requires
        arc.wf(),
        arc.rx == arc.ry,
    ensures
        r == spec_arc_split(*arc),
        r matches Some((a1, a2)) ==> {
            &&& a1.wf() && a2.wf()
            &&& a1.rx == arc.rx && a1.ry == arc.ry
            &&& a2.rx == arc.rx && a2.ry == arc.ry
            &&& a1.from == arc.from
            &&& a1.to == a2.from
            &&& a2.to == arc.to
            &&& !a1.flags.large_arc && !a2.flags.large_arc
            &&& a1.flags.sweep == arc.flags.sweep && a2.flags.sweep == arc.flags.sweep
            &&& a1.x_rotation == arc.x_rotation && a2.x_rotation == arc.x_rotation
        },
{
    let from = arc.from;
    let to = arc.to;
    let chord = dist(to, from);
    if chord == 0 {
        return None;
    }
    let center = match arc_center(arc) {
        Option::Some(c) => c,
        Option::None => {
            return None;
        },
    };
    let mx = div_i128((from.x as i128) + (to.x as i128), 2);
    let my = div_i128((from.y as i128) + (to.y as i128), 2);
    let mcx = clamp_coord(clamp_i128_to_i64(mx));
    let mcy = clamp_coord(clamp_i128_to_i64(my));
    let mc = Point { x: mcx, y: mcy };
    let d = dist(mc, center);
    let mid: Point = if d == 0 {
        // a semicircle: the midpoint lies on the chord's normal
        let dx = sub_i64(to.x, from.x);
        let dy = sub_i64(to.y, from.y);
        proof {
            crate::fixed::lemma_mul_bound(
                dy as int,
                arc.rx as int,
                2 * COORD_MAX as int,
                3 * COORD_MAX as int,
            );
            crate::fixed::lemma_mul_bound(
                dx as int,
                arc.rx as int,
                2 * COORD_MAX as int,
                3 * COORD_MAX as int,
            );
            assert((2 * COORD_MAX as int) * (3 * COORD_MAX as int)
                < 0x40000000000000000000000000000000int) by (nonlinear_arith);
        }
        let ux = div_i128(mul_i128(dy, arc.rx), chord as i128);
        let uy = div_i128(mul_i128(dx, arc.rx), chord as i128);
        if arc.flags.sweep {
            Point {
                x: clamp_coord(clamp_i128_to_i64((center.x as i128) + ux)),
                y: clamp_coord(clamp_i128_to_i64((center.y as i128) - uy)),
            }
        } else {
            Point {
                x: clamp_coord(clamp_i128_to_i64((center.x as i128) - ux)),
                y: clamp_coord(clamp_i128_to_i64((center.y as i128) + uy)),
            }
        }
    } else {
        let vx = sub_i64(mc.x, center.x);
        let vy = sub_i64(mc.y, center.y);
        proof {
            crate::fixed::lemma_mul_bound(
                vx as int,
                arc.rx as int,
                2 * COORD_MAX as int,
                3 * COORD_MAX as int,
            );
            crate::fixed::lemma_mul_bound(
                vy as int,
                arc.rx as int,
                2 * COORD_MAX as int,
                3 * COORD_MAX as int,
            );
            assert((2 * COORD_MAX as int) * (3 * COORD_MAX as int)
                < 0x40000000000000000000000000000000int) by (nonlinear_arith);
        }
        let sx = div_i128(mul_i128(vx, arc.rx), d as i128);
        let sy = div_i128(mul_i128(vy, arc.rx), d as i128);
        if arc.flags.large_arc {
            Point {
                x: clamp_coord(clamp_i128_to_i64((center.x as i128) - sx)),
                y: clamp_coord(clamp_i128_to_i64((center.y as i128) - sy)),
            }
        } else {
            Point {
                x: clamp_coord(clamp_i128_to_i64((center.x as i128) + sx)),
                y: clamp_coord(clamp_i128_to_i64((center.y as i128) + sy)),
            }
        }
    };
    let half_flags = crate::arcs::ArcFlags { large_arc: false, sweep: arc.flags.sweep };
    Some(
        (
            SvgArc {
                from: arc.from,
                to: mid,
                rx: arc.rx,
                ry: arc.ry,
                x_rotation: arc.x_rotation,
                flags: half_flags,
            },
            SvgArc {
                from: mid,
                to: arc.to,
                rx: arc.rx,
                ry: arc.ry,
                x_rotation: arc.x_rotation,
                flags: half_flags,
            },
        ),
    )
}

/// The exact instruction sequence the circular lowering emits, mirroring
/// its three cases: degrade to one straight move when the radius, the
/// chord, or the sweep falls below the floors (or the depth is exhausted);
/// bisect a large or near-semicircular arc and concatenate the halves'
/// emissions; otherwise one circular move with center offsets measured
/// from the start point, wound by the sweep flag.
pub open spec fn spec_circular_interpolation(
    feed: i64,
    min_r: i64,
    arc: SvgArc,
    depth: int,
) -> Seq<Instr>
    decreases depth,
{
    let chord = crate::arcs::spec_dist(arc.to, arc.from);
    let line = seq![Instr::LinearMove { x: arc.to.x, y: arc.to.y, f: feed }];
    if depth <= 0 || arc.rx < min_r || chord < min_r || chord * (SCALE as int) < arc.rx {
        line
    } else {
        let gap = crate::fixed::sabs(chord - (arc.rx + arc.rx));
        let near_semi = gap * 100_000 < arc.rx + arc.rx;
        if arc.flags.large_arc || near_semi {
            match spec_arc_split(arc) {
                Option::Some((a1, a2)) => spec_circular_interpolation(feed, min_r, a1, depth - 1)
                    + spec_circular_interpolation(feed, min_r, a2, depth - 1),
                Option::None => line,
            }
        } else {
            match spec_arc_center(arc) {
                Option::Some(c) => {
                    let i = crate::fixed::clamp_i64(c.x - arc.from.x) as i64;
                    let j = crate::fixed::clamp_i64(c.y - arc.from.y) as i64;
                    if arc.flags.sweep {
                        seq![
                            Instr::CounterclockwiseArc { x: arc.to.x, y: arc.to.y, i, j, f: feed },
                        ]
                    } else {
                        seq![Instr::ClockwiseArc { x: arc.to.x, y: arc.to.y, i, j, f: feed }]
                    }
                },
                Option::None => line,
            }
        }
    }
}

/// Polygon arc re-detection configuration.
#[derive(Clone, Debug, PartialEq)]
pub struct PolygonArcConfig {
    pub enabled: bool,
    pub min_points: usize,
    pub tolerance: i64,
}

/// Hard cap on the line buffer before a forced flush.
pub const MAX_LINE_BUFFER: usize = 1000;

/// Maps drawing operations into machine instructions.
#[derive(Debug)]
pub struct GCodeTurtle {
    pub machine: Machine,
    pub tolerance: i64,
    pub feedrate: i64,
    pub min_arc_radius: i64,
    pub polygon_arc_config: PolygonArcConfig,
    pub program: Vec<Instr>,
    pub tool_state: bool,
    pub pending_between_layers: bool,
    pub line_buffer: Vec<Point>,
}

impl GCodeTurtle {
    /// Configuration within range and buffered points in range.
    pub open spec fn wf(self) -> bool {
        &&& 0 < self.tolerance <= COORD_MAX
        &&& 0 <= self.feedrate <= COORD_MAX
        &&& 0 <= self.min_arc_radius <= COORD_MAX
        &&& 3 <= self.polygon_arc_config.min_points <= 100000
        &&& 0 < self.polygon_arc_config.tolerance <= COORD_MAX
        &&& forall|i: int|
            0 <= i < self.line_buffer@.len() ==> (#[trigger] self.line_buffer@[i]).wf()
    }

    /// Lower one circular arc to instructions.
    ///
    /// An arc whose radius, chord, or sweep falls below the configured
    /// floors degrades to one straight move; a large or near-semicircular
    /// arc is bisected recursively (such geometry is ill-conditioned for
    /// center-offset emission); anything else becomes a single circular
    /// move with center offsets measured from the start point. Every
    /// emitted instruction is a draw move at the configured feedrate and
    /// the last one always targets the arc's endpoint.
    pub fn circular_interpolation(&self, arc: &SvgArc) -> (r: Vec<Instr>)
        requires
            self.wf(),
            arc.wf(),
            arc.rx == arc.ry,
        ensures
            r@ == spec_circular_interpolation(self.feedrate, self.min_arc_radius, *arc, 24),
            r@.len() >= 1,
            forall|k: int| 0 <= k < r@.len() ==> is_draw_move(#[trigger] r@[k], self.feedrate as int),
            move_target(r@[r@.len() - 1]) == (arc.to.x as int, arc.to.y as int),
    {
        self.circular_interpolation_rec(arc, 24)
    }

    fn circular_interpolation_rec(&self, arc: &SvgArc, depth: u32) -> (r: Vec<Instr>)
        requires
            self.wf(),
            arc.wf(),
            arc.rx == arc.ry,
        ensures
            r@ == spec_circular_interpolation(self.feedrate, self.min_arc_radius, *arc, depth as int),
            r@.len() >= 1,
            forall|k: int| 0 <= k < r@.len() ==> is_draw_move(#[trigger] r@[k], self.feedrate as int),
            move_target(r@[r@.len() - 1]) == (arc.to.x as int, arc.to.y as int),
        decreases depth,
    {
        let from = arc.from;
        let to = arc.to;
        let chord = dist(to, from);
        let radius = arc.rx;
        let tiny_sweep = mul_i128(chord, SCALE) < radius as i128;
        if radius < self.min_arc_radius || chord < self.min_arc_radius || tiny_sweep || depth
            == 0 {
            let mut out: Vec<Instr> = Vec::new();
            out.push(Instr::LinearMove { x: to.x, y: to.y, f: self.feedrate });
            proof {
                assert(out@ =~= spec_circular_interpolation(
                    self.feedrate,
                    self.min_arc_radius,
                    *arc,
                    depth as int,
                ));
            }
            return out;
        }
        let near_semi = {
            let gap = abs_i64(sub_i64(chord, crate::fixed::add_i64(radius, radius)));
            mul_i128(gap, 100_000) < (radius as i128) + (radius as i128)
        };
        if arc.flags.large_arc || near_semi {
            match arc_split(arc) {
                Option::Some((a1, a2)) => {
                    let mut out = self.circular_interpolation_rec(&a1, depth - 1);
                    let mut tail = self.circular_interpolation_rec(&a2, depth - 1);
                    let ghost head = out@;
                    let ghost tseq = tail@;
                    out.append(&mut tail);
                    proof {
                        assert(out@ == head + tseq);
                        assert(out@[out@.len() - 1] == tseq[tseq.len() - 1]);
                        assert(out@ == spec_circular_interpolation(
                            self.feedrate,
                            self.min_arc_radius,
                            *arc,
                            depth as int,
                        ));
                    }
                    return out;
                },
                Option::None => {
                    let mut out: Vec<Instr> = Vec::new();
                    out.push(Instr::LinearMove { x: to.x, y: to.y, f: self.feedrate });
                    proof {
                        assert(out@ =~= spec_circular_interpolation(
                            self.feedrate,
                            self.min_arc_radius,
                            *arc,
                            depth as int,
                        ));
                    }
                    return out;
                },
            }
        }
        match arc_center(arc) {
            Option::Some(center) => {
                let i = sub_i64(center.x, from.x);
                let j = sub_i64(center.y, from.y);
                let mut out: Vec<Instr> = Vec::new();
                if arc.flags.sweep {
                    out.push(
                        Instr::CounterclockwiseArc { x: to.x, y: to.y, i, j, f: self.feedrate },
                    );
                } else {
                    out.push(Instr::ClockwiseArc { x: to.x, y: to.y, i, j, f: self.feedrate });
                }
                proof {
                    assert(out@ =~= spec_circular_interpolation(
                        self.feedrate,
                        self.min_arc_radius,
                        *arc,
                        depth as int,
                    ));
                }
                out
            },
            Option::None => {
                let mut out: Vec<Instr> = Vec::new();
                out.push(Instr::LinearMove { x: to.x, y: to.y, f: self.feedrate });
                proof {
                    assert(out@ =~= spec_circular_interpolation(
                        self.feedrate,
                        self.min_arc_radius,
                        *arc,
                        depth as int,
                    ));
                }
                out
            },
        }
    }

    /// Create an emission engine with an empty program, the tool off, no
    /// pending boundary, and an empty line buffer.
    pub fn new(
        machine: Machine,
        tolerance: i64,
        feedrate: i64,
        min_arc_radius: i64,
        polygon_arc_config: PolygonArcConfig,
    ) -> (r: GCodeTurtle)
        requires
            0 < tolerance <= COORD_MAX,
            0 <= feedrate <= COORD_MAX,
            0 <= min_arc_radius <= COORD_MAX,
            3 <= polygon_arc_config.min_points <= 100000,
            0 < polygon_arc_config.tolerance <= COORD_MAX,
        ensures
            r.machine == machine,
            r.tolerance == tolerance,
            r.feedrate == feedrate,
            r.min_arc_radius == min_arc_radius,
            r.polygon_arc_config == polygon_arc_config,
            r.program@.len() == 0,
            !r.tool_state,
            !r.pending_between_layers,
            r.line_buffer@.len() == 0,
            r.wf(),
    {
        GCodeTurtle {
            machine,
            tolerance,
            feedrate,
            min_arc_radius,
            polygon_arc_config,
            program: Vec::new(),
            tool_state: false,
            pending_between_layers: false,
            line_buffer: Vec::new(),
        }
    }

    /// The configuration fields never change across drawing calls.
    pub open spec fn same_config(self, other: GCodeTurtle) -> bool {
        &&& self.machine == other.machine
        &&& self.tolerance == other.tolerance
        &&& self.feedrate == other.feedrate
        &&& self.min_arc_radius == other.min_arc_radius
        &&& self.polygon_arc_config == other.polygon_arc_config
    }

    /// Turn the tool on if it is off. The transition realizes a pending
    /// between-layers boundary first — blank separator, between-layers
    /// sequence — immediately followed by the tool-on sequence, and clears
    /// the pending flag; with the tool already on, nothing happens.
    fn tool_on(&mut self)
        requires
            old(self).wf(),
        ensures
            final(self).wf(),
            old(self).same_config(*final(self)),
            final(self).line_buffer == old(self).line_buffer,
            final(self).tool_state,
            !old(self).tool_state ==> final(self).program@ == old(self).program@
                + activation_emission(old(self).machine, old(self).pending_between_layers)
                && !final(self).pending_between_layers,
            old(self).tool_state ==> final(self).program@ == old(self).program@
                && final(self).pending_between_layers == old(self).pending_between_layers,
    {
        if self.tool_state {
            return ;
        }
        let ghost pre = self.program@;
        if self.pending_between_layers {
            self.program.push(Instr::Blank);
            push_snippet(&self.machine.between_layers_sequence, &mut self.program);
            self.pending_between_layers = false;
        }
        push_snippet(&self.machine.tool_on_sequence, &mut self.program);
        self.tool_state = true;
        proof {
            assert(self.program@ =~= pre + activation_emission(
                self.machine,
                old(self).pending_between_layers,
            ));
        }
    }

    /// Turn the tool off if it is on, emitting the tool-off sequence. The
    /// pending between-layers flag is untouched: a travel move never
    /// consumes a boundary.
    fn tool_off(&mut self)
        requires
            old(self).wf(),
        ensures
            final(self).wf(),
            old(self).same_config(*final(self)),
            final(self).line_buffer == old(self).line_buffer,
            !final(self).tool_state,
            final(self).pending_between_layers == old(self).pending_between_layers,
            old(self).tool_state ==> final(self).program@ == old(self).program@ + snippet_seq(
                old(self).machine.tool_off_sequence,
            ),
            !old(self).tool_state ==> final(self).program@ == old(self).program@,
    {
        if !self.tool_state {
            return ;
        }
        push_snippet(&self.machine.tool_off_sequence, &mut self.program);
        self.tool_state = false;
    }

    /// Flush the buffered line run.
    ///
    /// With arc re-detection off (or too few points, or no circular
    /// support) every buffered point after the first becomes one straight
    /// move. With re-detection on, the run is scanned for circular arcs
    /// and each detected primitive is emitted — arcs below the radius
    /// floor degrade to straight moves. Either way the buffer is left
    /// empty and only draw moves are appended.
    pub fn flush_line_buffer(&mut self)
        requires
            old(self).wf(),
        ensures
            final(self).wf(),
            old(self).same_config(*final(self)),
            final(self).line_buffer@.len() == 0,
            final(self).tool_state == old(self).tool_state,
            final(self).pending_between_layers == old(self).pending_between_layers,
            final(self).program@.len() >= old(self).program@.len(),
            final(self).program@.subrange(0, old(self).program@.len() as int)
                == old(self).program@,
            forall|k: int|
                old(self).program@.len() <= k < final(self).program@.len() ==> is_draw_move(
                    #[trigger] final(self).program@[k],
                    old(self).feedrate as int,
                ),
            old(self).line_buffer@.len() == 0 ==> final(self).program@ == old(self).program@,
            old(self).line_buffer@.len() > 0 && !(old(self).polygon_arc_config.enabled
                && old(self).line_buffer@.len() >= old(self).polygon_arc_config.min_points
                && old(self).line_buffer@.len() < 0x10000000
                && old(self).machine.supported_functionality.circular_interpolation)
                ==> final(self).program@ == old(self).program@ + lines_of(
                old(self).line_buffer@,
                old(self).feedrate,
            ),
            crate::arcs::all_collinear(old(self).line_buffer@) ==> forall|k: int|
                old(self).program@.len() <= k < final(self).program@.len() ==> is_linear_move(
                    #[trigger] final(self).program@[k],
                ),
            old(self).polygon_arc_config.enabled && old(self).line_buffer@.len() >= old(self).polygon_arc_config.min_points && old(self).line_buffer@.len() < 0x10000000 && old(self).machine.supported_functionality.circular_interpolation ==> final(self).program@.len() > old(self).program@.len() && move_target(
                final(self).program@[final(self).program@.len() - 1],
            ) == (
                old(self).line_buffer@[old(self).line_buffer@.len() - 1].x as int,
                old(self).line_buffer@[old(self).line_buffer@.len() - 1].y as int,
            ),
    {
        let ghost pre = self.program@;
        if self.line_buffer.len() == 0 {
            proof {
                assert(self.program@.subrange(0, pre.len() as int) =~= pre);
            }
            return ;
        }
        if self.polygon_arc_config.enabled && self.line_buffer.len()
            >= self.polygon_arc_config.min_points && self.line_buffer.len() < 0x10000000
            && self.machine.supported_functionality.circular_interpolation {
            let segments = crate::arcs::detect_polygon_arcs(
                &self.line_buffer,
                self.polygon_arc_config.tolerance,
                self.polygon_arc_config.min_points,
            );
            let mut si: usize = 0;
            while si < segments.len()
                invariant
                    self.wf(),
                    old(self).same_config(*self),
                    self.tool_state == old(self).tool_state,
                    self.pending_between_layers == old(self).pending_between_layers,
                    self.line_buffer == old(self).line_buffer,
                    self.program@.len() >= pre.len(),
                    self.program@.subrange(0, pre.len() as int) == pre,
                    forall|k: int|
                        pre.len() <= k < self.program@.len() ==> is_draw_move(
                            #[trigger] self.program@[k],
                            old(self).feedrate as int,
                        ),
                    forall|j: int|
                        0 <= j < segments@.len() ==> crate::arcs::detect_elem_ok(
                            old(self).line_buffer@,
                            #[trigger] segments@[j],
                            old(self).polygon_arc_config.tolerance as int,
                        ),
                    crate::arcs::all_collinear(old(self).line_buffer@) ==> forall|j: int|
                        0 <= j < segments@.len() ==> (#[trigger] segments@[j]) is Line,
                    crate::arcs::all_collinear(old(self).line_buffer@) ==> forall|k: int|
                        pre.len() <= k < self.program@.len() ==> is_linear_move(
                            #[trigger] self.program@[k],
                        ),
                    si <= segments@.len(),
                    si == 0 ==> self.program@ == pre,
                    si > 0 ==> self.program@.len() > pre.len() && move_target(
                        self.program@[self.program@.len() - 1],
                    ) == (elem_to(segments@[si - 1]).x as int, elem_to(
                        segments@[si - 1],
                    ).y as int),
                    segments@.len() >= 1,
                    chain_ok(
                        segments@,
                        old(self).line_buffer@[0],
                        old(self).line_buffer@[old(self).line_buffer@.len() - 1],
                    ),
                decreases segments@.len() - si,
            {
                let ghost mid = self.program@;
                match &segments[si] {
                    ArcOrLineSegment::Arc(a) => {
                        proof {
                            if crate::arcs::all_collinear(old(self).line_buffer@) {
                                assert(segments@[si as int] is Line);
                                assert(false);
                            }
                        }
                        if a.rx >= self.min_arc_radius && a.ry >= self.min_arc_radius {
                            proof {
                                let tol = old(self).polygon_arc_config.tolerance as int;
                                assert(crate::arcs::detect_elem_ok(
                                    old(self).line_buffer@,
                                    segments@[si as int],
                                    tol,
                                ));
                            }
                            let instrs = self.circular_interpolation(a);
                            append_program(&mut self.program, instrs);
                            proof {
                                assert(self.program@.subrange(0, pre.len() as int) =~= pre);
                            }
                        } else {
                            self.program.push(
                                Instr::LinearMove { x: a.to.x, y: a.to.y, f: self.feedrate },
                            );
                            proof {
                                assert(self.program@.subrange(0, pre.len() as int) =~= pre);
                            }
                        }
                    },
                    ArcOrLineSegment::Line(l) => {
                        self.program.push(
                            Instr::LinearMove { x: l.to.x, y: l.to.y, f: self.feedrate },
                        );
                        proof {
                            assert(self.program@.subrange(0, pre.len() as int) =~= pre);
                        }
                    },
                }
                si += 1;
            }
            self.line_buffer.clear();
        } else {
            let mut pi: usize = 1;
            while pi < self.line_buffer.len()
                invariant
                    self.wf(),
                    old(self).same_config(*self),
                    self.tool_state == old(self).tool_state,
                    self.pending_between_layers == old(self).pending_between_layers,
                    self.line_buffer == old(self).line_buffer,
                    self.line_buffer@.len() > 0,
                    1 <= pi <= self.line_buffer@.len(),
                    self.program@ == pre + lines_of(
                        old(self).line_buffer@.take(pi as int),
                        old(self).feedrate,
                    ),
                decreases self.line_buffer@.len() - pi,
            {
                let p = self.line_buffer[pi];
                self.program.push(Instr::LinearMove { x: p.x, y: p.y, f: self.feedrate });
                proof {
                    assert(self.program@ =~= pre + lines_of(
                        old(self).line_buffer@.take(pi as int + 1),
                        old(self).feedrate,
                    ));
                }
                pi += 1;
            }
            proof {
                assert(old(self).line_buffer@.take(self.line_buffer@.len() as int)
                    =~= old(self).line_buffer@);
            }
            self.line_buffer.clear();
            proof {
                assert(self.program@.subrange(0, pre.len() as int) =~= pre);
                assert(forall|k: int|
                    pre.len() <= k < self.program@.len() ==> is_draw_move(
                        #[trigger] self.program@[k],
                        old(self).feedrate as int,
                    ));
            }
        }
    }
}

/// A quadratic Bézier segment.
#[derive(Clone, Copy, Debug, PartialEq, Eq, Structural)]
pub struct QuadraticBezierSegment {
    pub from: Point,
    pub ctrl: Point,
    pub to: Point,
}

impl QuadraticBezierSegment {
    pub open spec fn wf(self) -> bool {
        &&& self.from.wf()
        &&& self.ctrl.wf()
        &&& self.to.wf()
    }

    /// Exact degree elevation: the equivalent cubic has control points one
    /// third and two thirds of the way towards the quadratic's control
    /// point (truncating).
    pub fn to_cubic(&self) -> (r: crate::flatten::CubicBezierSegment)
        requires
            self.wf(),
        ensures
            r.from == self.from,
            r.to == self.to,
            r.ctrl1.x as int == crate::fixed::div_t(self.from.x + 2 * self.ctrl.x, 3),
            r.ctrl1.y as int == crate::fixed::div_t(self.from.y + 2 * self.ctrl.y, 3),
            r.ctrl2.x as int == crate::fixed::div_t(self.to.x + 2 * self.ctrl.x, 3),
            r.ctrl2.y as int == crate::fixed::div_t(self.to.y + 2 * self.ctrl.y, 3),
            r.wf(),
    {
        let c1x = third_mix(self.from.x, self.ctrl.x);
        let c1y = third_mix(self.from.y, self.ctrl.y);
        let c2x = third_mix(self.to.x, self.ctrl.x);
        let c2y = third_mix(self.to.y, self.ctrl.y);
        crate::flatten::CubicBezierSegment {
            from: self.from,
            ctrl1: Point { x: c1x, y: c1y },
            ctrl2: Point { x: c2x, y: c2y },
            to: self.to,
        }
    }
}

/// `(a + 2b) / 3`, truncating, staying in the coordinate range.
fn third_mix(a: i64, b: i64) -> (r: i64)
    requires
        sabs(a as int) <= COORD_MAX as int,
        sabs(b as int) <= COORD_MAX as int,
    ensures
        r as int == crate::fixed::div_t(a + 2 * b, 3),
        sabs(r as int) <= COORD_MAX as int,
{
    let s: i128 = (a as i128) + 2 * (b as i128);
    let q = div_i128(s, 3);
    proof {
        crate::fixed::lemma_div_t_mag(s as int, 3);
        vstd::arithmetic::div_mod::lemma_div_is_ordered(
            sabs(s as int),
            3 * COORD_MAX as int,
            3,
        );
    }
    q as i64
}

impl GCodeTurtle {
    /// Start a program: a millimeter-units directive, an absolute
    /// positioning directive, and the configured begin sequence.
    pub fn begin(&mut self)
        requires
            old(self).wf(),
        ensures
            final(self).wf(),
            old(self).same_config(*final(self)),
            final(self).line_buffer == old(self).line_buffer,
            final(self).tool_state == old(self).tool_state,
            final(self).pending_between_layers == old(self).pending_between_layers,
            final(self).program@ == old(self).program@ + seq![
                Instr::UnitsMillimeters,
                Instr::AbsoluteMode,
            ] + snippet_seq(old(self).machine.begin_sequence),
    {
        let ghost pre = self.program@;
        self.program.push(Instr::UnitsMillimeters);
        self.program.push(Instr::AbsoluteMode);
        push_snippet(&self.machine.begin_sequence, &mut self.program);
        proof {
            assert(self.program@ =~= pre + seq![Instr::UnitsMillimeters, Instr::AbsoluteMode]
                + snippet_seq(old(self).machine.begin_sequence));
        }
    }

    /// Finish a program: flush the line run, force the tool off, and emit
    /// the configured end sequence.
    pub fn end(&mut self)
        requires
            old(self).wf(),
        ensures
            final(self).wf(),
            old(self).same_config(*final(self)),
            final(self).line_buffer@.len() == 0,
            !final(self).tool_state,
            final(self).program@.len() >= old(self).program@.len(),
            final(self).program@.subrange(0, old(self).program@.len() as int)
                == old(self).program@,
            old(self).line_buffer@.len() == 0 ==> final(self).program@ == old(self).program@ + (
            if old(self).tool_state {
                snippet_seq(old(self).machine.tool_off_sequence)
            } else {
                Seq::<Instr>::empty()
            }) + snippet_seq(old(self).machine.end_sequence),
    {
        let ghost pre = self.program@;
        self.flush_line_buffer();
        self.tool_off();
        push_snippet(&self.machine.end_sequence, &mut self.program);
        proof {
            assert(self.program@.subrange(0, pre.len() as int) =~= pre);
            if old(self).line_buffer@.len() == 0 {
                assert(self.program@ =~= pre + (if old(self).tool_state {
                    snippet_seq(old(self).machine.tool_off_sequence)
                } else {
                    Seq::<Instr>::empty()
                }) + snippet_seq(old(self).machine.end_sequence));
            }
        }
    }

    /// Record a comment.
    pub fn comment(&mut self, text: String)
        requires
            old(self).wf(),
        ensures
            final(self).wf(),
            old(self).same_config(*final(self)),
            final(self).line_buffer == old(self).line_buffer,
            final(self).tool_state == old(self).tool_state,
            final(self).pending_between_layers == old(self).pending_between_layers,
            final(self).program@ == old(self).program@.push(Instr::Comment(text)),
    {
        self.program.push(Instr::Comment(text));
    }

    /// Mark a layer boundary. Nothing is emitted here: the boundary is
    /// realized lazily, immediately before the next tool activation.
    pub fn between_layers(&mut self)
        requires
            old(self).wf(),
        ensures
            final(self).wf(),
            old(self).same_config(*final(self)),
            final(self).line_buffer == old(self).line_buffer,
            final(self).tool_state == old(self).tool_state,
            final(self).program@ == old(self).program@,
            final(self).pending_between_layers,
    {
        self.pending_between_layers = true;
    }

    /// Travel to a point: flush any buffered run, force the tool off, and
    /// emit one rapid positioning move. The destination seeds a fresh line
    /// buffer; a pending layer boundary survives a travel move untouched.
    pub fn move_to(&mut self, to: Point)
        requires
            old(self).wf(),
            to.wf(),
        ensures
            final(self).wf(),
            old(self).same_config(*final(self)),
            !final(self).tool_state,
            final(self).pending_between_layers == old(self).pending_between_layers,
            final(self).line_buffer@ =~= seq![to],
            final(self).program@.len() >= old(self).program@.len(),
            final(self).program@.subrange(0, old(self).program@.len() as int)
                == old(self).program@,
            final(self).program@[final(self).program@.len() - 1] == (Instr::RapidMove {
                x: to.x,
                y: to.y,
            }),
            old(self).line_buffer@.len() == 0 ==> final(self).program@ == old(self).program@ + (
            if old(self).tool_state {
                snippet_seq(old(self).machine.tool_off_sequence)
            } else {
                Seq::<Instr>::empty()
            }) + seq![Instr::RapidMove { x: to.x, y: to.y }],
            !old(self).polygon_arc_config.enabled ==> final(self).program@ == old(self).program@
                + lines_of(old(self).line_buffer@, old(self).feedrate) + (if old(
                self,
            ).tool_state {
                snippet_seq(old(self).machine.tool_off_sequence)
            } else {
                Seq::<Instr>::empty()
            }) + seq![Instr::RapidMove { x: to.x, y: to.y }],
    {
        let ghost pre = self.program@;
        self.flush_line_buffer();
        self.tool_off();
        self.program.push(Instr::RapidMove { x: to.x, y: to.y });
        self.line_buffer.clear();
        self.line_buffer.push(to);
        proof {
            assert(self.program@.subrange(0, pre.len() as int) =~= pre);
            if old(self).line_buffer@.len() == 0 {
                assert(self.program@ =~= pre + (if old(self).tool_state {
                    snippet_seq(old(self).machine.tool_off_sequence)
                } else {
                    Seq::<Instr>::empty()
                }) + seq![Instr::RapidMove { x: to.x, y: to.y }]);
            }
            if !old(self).polygon_arc_config.enabled {
                assert(self.program@ =~= pre + lines_of(
                    old(self).line_buffer@,
                    old(self).feedrate,
                ) + (if old(self).tool_state {
                    snippet_seq(old(self).machine.tool_off_sequence)
                } else {
                    Seq::<Instr>::empty()
                }) + seq![Instr::RapidMove { x: to.x, y: to.y }]);
            }
        }
    }

    /// Draw a straight segment: force the tool on (realizing any pending
    /// layer boundary), and either emit the move directly or buffer the
    /// point for arc re-detection, force-flushing past the buffer cap.
    pub fn line_to(&mut self, to: Point)
        requires
            old(self).wf(),
            to.wf(),
        ensures
            final(self).wf(),
            old(self).same_config(*final(self)),
            final(self).tool_state,
            final(self).pending_between_layers == (if old(self).tool_state {
                old(self).pending_between_layers
            } else {
                false
            }),
            final(self).program@.len() >= old(self).program@.len(),
            final(self).program@.subrange(0, old(self).program@.len() as int)
                == old(self).program@,
            !old(self).polygon_arc_config.enabled ==> final(self).program@ == old(self).program@
                + (if old(self).tool_state {
                Seq::<Instr>::empty()
            } else {
                activation_emission(old(self).machine, old(self).pending_between_layers)
            }) + seq![Instr::LinearMove { x: to.x, y: to.y, f: old(self).feedrate }]
                && final(self).line_buffer == old(self).line_buffer,
            old(self).polygon_arc_config.enabled ==> final(self).line_buffer@.len() > 0
                && final(self).line_buffer@[final(self).line_buffer@.len() - 1] == to,
            old(self).polygon_arc_config.enabled && old(self).line_buffer@.len() == 0 ==> final(self).line_buffer@ == seq![to, to] && final(self).program@ == old(self).program@ + (
            if old(self).tool_state {
                Seq::<Instr>::empty()
            } else {
                activation_emission(old(self).machine, old(self).pending_between_layers)
            }),
            old(self).polygon_arc_config.enabled && 1 <= old(self).line_buffer@.len()
                && old(self).line_buffer@.len() + 1 <= MAX_LINE_BUFFER ==> final(self).line_buffer@ == old(self).line_buffer@.push(to) && final(self).program@ == old(self).program@ + (if old(self).tool_state {
                Seq::<Instr>::empty()
            } else {
                activation_emission(old(self).machine, old(self).pending_between_layers)
            }),
            old(self).polygon_arc_config.enabled && old(self).line_buffer@.len() + 1
                > MAX_LINE_BUFFER ==> final(self).line_buffer@ == seq![to],
    {
        let ghost pre = self.program@;
        self.tool_on();
        if self.polygon_arc_config.enabled {
            if self.line_buffer.len() == 0 {
                self.line_buffer.push(to);
            }
            self.line_buffer.push(to);
            proof {
                if old(self).line_buffer@.len() == 0 {
                    assert(self.line_buffer@ =~= seq![to, to]);
                }
            }
            if self.line_buffer.len() > MAX_LINE_BUFFER {
                self.flush_line_buffer();
                self.line_buffer.push(to);
                proof {
                    assert(self.line_buffer@ =~= seq![to]);
                }
            }
            proof {
                assert(self.program@.subrange(0, pre.len() as int) =~= pre);
            }
        } else {
            self.program.push(Instr::LinearMove { x: to.x, y: to.y, f: self.feedrate });
            proof {
                assert(self.program@.subrange(0, pre.len() as int) =~= pre);
                if !old(self).tool_state {
                    assert(self.program@ =~= pre + activation_emission(
                        old(self).machine,
                        old(self).pending_between_layers,
                    ) + seq![
                        Instr::LinearMove { x: to.x, y: to.y, f: old(self).feedrate },
                    ]);
                } else {
                    assert(self.program@ =~= pre + Seq::<Instr>::empty() + seq![
                        Instr::LinearMove { x: to.x, y: to.y, f: old(self).feedrate },
                    ]);
                }
            }
        }
    }

    /// Approximate a circular arc by buffered chords within tolerance,
    /// bisecting until each chord's sagitta is small enough.
    fn arc_chords(&mut self, arc: &SvgArc, depth: u32)
        requires
            old(self).wf(),
            old(self).tool_state,
            arc.wf(),
            arc.rx == arc.ry,
        ensures
            final(self).wf(),
            old(self).same_config(*final(self)),
            final(self).tool_state,
            final(self).pending_between_layers == old(self).pending_between_layers,
            final(self).program@.len() >= old(self).program@.len(),
            final(self).program@.subrange(0, old(self).program@.len() as int)
                == old(self).program@,
            !old(self).polygon_arc_config.enabled ==> {
                &&& final(self).program@.len() > old(self).program@.len()
                &&& final(self).line_buffer == old(self).line_buffer
                &&& forall|k: int|
                    old(self).program@.len() <= k < final(self).program@.len() ==> is_draw_move(
                        #[trigger] final(self).program@[k],
                        old(self).feedrate as int,
                    )
                &&& move_target(final(self).program@[final(self).program@.len() - 1]) == (
                arc.to.x as int, arc.to.y as int)
            },
        decreases depth,
    {
        let from = arc.from;
        let to = arc.to;
        let chord = dist(to, from);
        let flat_enough = {
            // sagitta bound: r - sqrt(r^2 - (chord/2)^2) <= tolerance
            let half2: i128 = (mul_i128(chord, chord)) / 4;
            let r2: i128 = mul_i128(arc.rx, arc.rx);
            if r2 > half2 {
                proof {
                    crate::geom::lemma_sq_bound(arc.rx as int, 3 * COORD_MAX as int);
                    assert((3 * COORD_MAX as int) * (3 * COORD_MAX as int)
                        == 0x771d2fa45345aa9000000) by (nonlinear_arith);
                }
                let h = crate::fixed::isqrt_u128((r2 - half2) as u128);
                (arc.rx as i128) - (h as i128) <= self.tolerance as i128
            } else {
                false
            }
        };
        if depth == 0 || chord == 0 || chord <= self.tolerance || (!arc.flags.large_arc
            && flat_enough) {
            let ghost pre = self.program@;
            self.line_to(to);
            proof {
                assert(self.program@.subrange(0, pre.len() as int) =~= pre);
            }
            return ;
        }
        match arc_split(arc) {
            Option::Some((a1, a2)) => {
                let ghost pre = self.program@;
                self.arc_chords(&a1, depth - 1);
                let ghost mid = self.program@;
                self.arc_chords(&a2, depth - 1);
                proof {
                    assert forall|j: int| 0 <= j < mid.len() implies self.program@[j] == mid[j]
                        by {
                        assert(self.program@.subrange(0, mid.len() as int)[j]
                            == self.program@[j]);
                    }
                    assert(self.program@.subrange(0, pre.len() as int) =~= pre);
                    if !old(self).polygon_arc_config.enabled {
                        assert forall|kk: int|
                            pre.len() <= kk < self.program@.len() implies is_draw_move(
                            #[trigger] self.program@[kk],
                            old(self).feedrate as int,
                        ) by {
                            if kk < mid.len() {
                                assert(self.program@[kk] == mid[kk]);
                            }
                        }
                    }
                }
            },
            Option::None => {
                let ghost pre = self.program@;
                self.line_to(to);
                proof {
                    assert(self.program@.subrange(0, pre.len() as int) =~= pre);
                }
            },
        }
    }

    /// Draw an elliptical arc. A straight-line arc degrades to a line;
    /// otherwise the arc is flattened, and each resulting primitive is
    /// emitted as a circular move (when the machine supports circular
    /// interpolation) or as chords within tolerance.
    pub fn arc(&mut self, svg_arc: &SvgArc)
        requires
            old(self).wf(),
            svg_arc.wf(),
        ensures
            final(self).wf(),
            old(self).same_config(*final(self)),
            final(self).tool_state,
            final(self).program@.len() >= old(self).program@.len(),
            final(self).program@.subrange(0, old(self).program@.len() as int)
                == old(self).program@,
            svg_arc.from != svg_arc.to && !old(self).polygon_arc_config.enabled ==> final(self).program@.len() > old(self).program@.len(),
            !old(self).polygon_arc_config.enabled && (svg_arc.rx == 0 || svg_arc.ry == 0)
                ==> draw_call_layout(*old(self), *final(self), svg_arc.to, true),
            !old(self).polygon_arc_config.enabled && svg_arc.rx != 0 && svg_arc.ry != 0
                ==> draw_call_layout(
                *old(self),
                *final(self),
                svg_arc.to,
                svg_arc.from != svg_arc.to,
            ),
    {
        let ghost pre = self.program@;
        self.flush_line_buffer();
        let ghost pf = self.program@;
        if svg_arc.rx == 0 || svg_arc.ry == 0 {
            self.tool_on();
            let ghost p2 = self.program@;
            self.line_to(svg_arc.to);
            proof {
                assert(p2.subrange(0, pf.len() as int) =~= pf);
                lemma_prefix_chain(pre, pf, p2);
                lemma_prefix_chain(pre, p2, self.program@);
                if !old(self).polygon_arc_config.enabled {
                    let fl = lines_of(old(self).line_buffer@, old(self).feedrate);
                    let act = if old(self).tool_state {
                        Seq::<Instr>::empty()
                    } else {
                        activation_emission(old(self).machine, old(self).pending_between_layers)
                    };
                    assert(pf =~= pre + fl);
                    assert(p2 =~= pre + fl + act);
                    assert(self.program@ =~= p2 + seq![
                        Instr::LinearMove {
                            x: svg_arc.to.x,
                            y: svg_arc.to.y,
                            f: old(self).feedrate,
                        },
                    ]);
                    assert(self.program@.subrange(0, p2.len() as int) =~= p2);
                    lemma_extension_layout(pre, fl, act, p2, self.program@);
                }
            }
            return ;
        }
        self.tool_on();
        let ghost p2 = self.program@;
        proof {
            assert(self.program@.subrange(0, pf.len() as int) =~= pf);
            lemma_prefix_chain(pre, pf, self.program@);
            if !old(self).polygon_arc_config.enabled {
                let fl = lines_of(old(self).line_buffer@, old(self).feedrate);
                let act = if old(self).tool_state {
                    Seq::<Instr>::empty()
                } else {
                    activation_emission(old(self).machine, old(self).pending_between_layers)
                };
                assert(pf =~= pre + fl);
                assert(p2 =~= pre + fl + act);
            }
        }
        let pieces = svg_arc.flattened(self.tolerance);
        proof {
            assert forall|j: int| 0 <= j < pieces@.len() implies piece_emittable(
                #[trigger] pieces@[j],
            ) by {
                if svg_arc.rx != svg_arc.ry {
                    crate::flatten::lemma_ell_elem_emittable(
                        pieces@[j],
                        old(self).tolerance as int,
                    );
                }
            }
        }
        self.emit_pieces(&pieces, Ghost(pre));
        proof {
            if !old(self).polygon_arc_config.enabled {
                let fl = lines_of(old(self).line_buffer@, old(self).feedrate);
                let act = if old(self).tool_state {
                    Seq::<Instr>::empty()
                } else {
                    activation_emission(old(self).machine, old(self).pending_between_layers)
                };
                lemma_extension_layout(pre, fl, act, p2, self.program@);
                if svg_arc.from != svg_arc.to {
                    assert(pieces@.len() > 0);
                    assert(elem_to(pieces@[pieces@.len() - 1]) == svg_arc.to);
                }
            }
        }
    }

    /// Draw a cubic Bézier curve by flattening it into arcs and lines.
    pub fn cubic_bezier(&mut self, cbs: &crate::flatten::CubicBezierSegment)
        requires
            old(self).wf(),
            cbs.wf(),
        ensures
            final(self).wf(),
            old(self).same_config(*final(self)),
            final(self).tool_state,
            final(self).program@.len() >= old(self).program@.len(),
            final(self).program@.subrange(0, old(self).program@.len() as int)
                == old(self).program@,
            cbs.from != cbs.to && !old(self).polygon_arc_config.enabled ==> final(self).program@.len() > old(self).program@.len(),
            !old(self).polygon_arc_config.enabled ==> draw_call_layout(
                *old(self),
                *final(self),
                cbs.to,
                cbs.from != cbs.to,
            ),
    {
        let ghost pre = self.program@;
        self.flush_line_buffer();
        let ghost pf = self.program@;
        self.tool_on();
        let ghost p2 = self.program@;
        proof {
            assert(self.program@.subrange(0, pf.len() as int) =~= pf);
            lemma_prefix_chain(pre, pf, self.program@);
            if !old(self).polygon_arc_config.enabled {
                let fl = lines_of(old(self).line_buffer@, old(self).feedrate);
                let act = if old(self).tool_state {
                    Seq::<Instr>::empty()
                } else {
                    activation_emission(old(self).machine, old(self).pending_between_layers)
                };
                assert(pf =~= pre + fl);
                assert(p2 =~= pre + fl + act);
            }
        }
        let pieces = cbs.flattened(self.tolerance);
        proof {
            assert forall|j: int| 0 <= j < pieces@.len() implies piece_emittable(
                #[trigger] pieces@[j],
            ) by {
                crate::flatten::lemma_flat_elem_emittable(pieces@[j], old(self).tolerance as int);
            }
        }
        self.emit_pieces(&pieces, Ghost(pre));
        proof {
            if !old(self).polygon_arc_config.enabled {
                let fl = lines_of(old(self).line_buffer@, old(self).feedrate);
                let act = if old(self).tool_state {
                    Seq::<Instr>::empty()
                } else {
                    activation_emission(old(self).machine, old(self).pending_between_layers)
                };
                lemma_extension_layout(pre, fl, act, p2, self.program@);
                if cbs.from != cbs.to {
                    assert(pieces@.len() > 0);
                    assert(elem_to(pieces@[pieces@.len() - 1]) == cbs.to);
                }
            }
        }
    }

    /// Draw a quadratic Bézier curve through its exact cubic form.
    pub fn quadratic_bezier(&mut self, qbs: &QuadraticBezierSegment)
        requires
            old(self).wf(),
            qbs.wf(),
        ensures
            final(self).wf(),
            old(self).same_config(*final(self)),
            final(self).tool_state,
            final(self).program@.len() >= old(self).program@.len(),
            final(self).program@.subrange(0, old(self).program@.len() as int)
                == old(self).program@,
            qbs.from != qbs.to && !old(self).polygon_arc_config.enabled ==> final(self).program@.len() > old(self).program@.len(),
            !old(self).polygon_arc_config.enabled ==> draw_call_layout(
                *old(self),
                *final(self),
                qbs.to,
                qbs.from != qbs.to,
            ),
    {
        let cubic = qbs.to_cubic();
        self.cubic_bezier(&cubic);
    }

    /// Emit a flattening result: circular moves or chords per primitive.
    fn emit_pieces(&mut self, pieces: &Vec<ArcOrLineSegment>, base: Ghost<Seq<Instr>>)
        requires
            old(self).wf(),
            old(self).tool_state,
            forall|j: int|
                0 <= j < pieces@.len() ==> piece_emittable(#[trigger] pieces@[j]),
            base@.len() <= old(self).program@.len(),
            old(self).program@.subrange(0, base@.len() as int) == base@,
        ensures
            final(self).wf(),
            old(self).same_config(*final(self)),
            final(self).tool_state,
            final(self).program@.len() >= base@.len(),
            final(self).program@.subrange(0, base@.len() as int) == base@,
            final(self).program@.len() >= old(self).program@.len(),
            final(self).program@.subrange(0, old(self).program@.len() as int)
                == old(self).program@,
            pieces@.len() > 0 && !old(self).polygon_arc_config.enabled ==> final(self).program@.len() > old(self).program@.len(),
            !old(self).polygon_arc_config.enabled ==> forall|j: int|
                old(self).program@.len() <= j < final(self).program@.len() ==> is_draw_move(
                    #[trigger] final(self).program@[j],
                    old(self).feedrate as int,
                ),
            pieces@.len() > 0 && !old(self).polygon_arc_config.enabled ==> move_target(
                final(self).program@[final(self).program@.len() - 1],
            ) == (elem_to(pieces@[pieces@.len() - 1]).x as int, elem_to(
                pieces@[pieces@.len() - 1],
            ).y as int),
    {
        let mut k: usize = 0;
        while k < pieces.len()
            invariant
                self.wf(),
                old(self).same_config(*self),
                self.tool_state,
                forall|j: int|
                    0 <= j < pieces@.len() ==> piece_emittable(#[trigger] pieces@[j]),
                base@.len() <= self.program@.len(),
                self.program@.subrange(0, base@.len() as int) == base@,
                k <= pieces@.len(),
                self.program@.len() >= old(self).program@.len(),
                self.program@.subrange(0, old(self).program@.len() as int)
                    == old(self).program@,
                k > 0 && !old(self).polygon_arc_config.enabled ==> self.program@.len() > old(self).program@.len(),
                !old(self).polygon_arc_config.enabled ==> forall|j: int|
                    old(self).program@.len() <= j < self.program@.len() ==> is_draw_move(
                        #[trigger] self.program@[j],
                        old(self).feedrate as int,
                    ),
                k > 0 && !old(self).polygon_arc_config.enabled ==> move_target(
                    self.program@[self.program@.len() - 1],
                ) == (elem_to(pieces@[k - 1]).x as int, elem_to(pieces@[k - 1]).y as int),
            decreases pieces@.len() - k,
        {
            let ghost mid = self.program@;
            match &pieces[k] {
                ArcOrLineSegment::Arc(a) => {
                    if self.machine.supported_functionality.circular_interpolation {
                        let instrs = self.circular_interpolation(a);
                        append_program(&mut self.program, instrs);
                        proof {
                            assert(self.program@.subrange(0, mid.len() as int) =~= mid);
                        }
                    } else {
                        self.arc_chords(a, 24);
                    }
                },
                ArcOrLineSegment::Line(l) => {
                    self.line_to(l.to);
                },
            }
            proof {
                lemma_prefix_chain(base@, mid, self.program@);
                lemma_prefix_chain(old(self).program@, mid, self.program@);
                assert forall|j: int|
                    old(self).program@.len() <= j < mid.len() implies self.program@[j] == mid[j]
                    by {
                    assert(self.program@.subrange(0, mid.len() as int)[j] == self.program@[j]);
                }
                if !old(self).polygon_arc_config.enabled {
                    assert forall|j: int|
                        old(self).program@.len() <= j < self.program@.len() implies is_draw_move(
                        #[trigger] self.program@[j],
                        old(self).feedrate as int,
                    ) by {
                        if j < mid.len() {
                            assert(self.program@[j] == mid[j]);
                        }
                    }
                }
            }
            k += 1;
        }
    }
}

/// The emission layout of one drawing call when buffering is off: first
/// the flush of the buffered run, then the activation block (empty when
/// the tool was already on), then only draw moves at the configured
/// feedrate — the last of which, when the source geometry is nonempty,
/// reaches the geometry's endpoint.
pub open spec fn draw_call_layout(
    pre: GCodeTurtle,
    fin: GCodeTurtle,
    to: Point,
    nonempty_src: bool,
) -> bool {
    let base = pre.program@;
    let fl = lines_of(pre.line_buffer@, pre.feedrate);
    let act = if pre.tool_state {
        Seq::<Instr>::empty()
    } else {
        activation_emission(pre.machine, pre.pending_between_layers)
    };
    &&& fin.program@.subrange(base.len() as int, (base.len() + fl.len()) as int) == fl
    &&& fin.program@.subrange(
        (base.len() + fl.len()) as int,
        (base.len() + fl.len() + act.len()) as int,
    ) == act
    &&& forall|j: int|
        base.len() + fl.len() + act.len() <= j < fin.program@.len() ==> is_draw_move(
            #[trigger] fin.program@[j],
            pre.feedrate as int,
        )
    &&& nonempty_src ==> fin.program@.len() > base.len() + fl.len() + act.len() && move_target(
        fin.program@[fin.program@.len() - 1],
    ) == (to.x as int, to.y as int)
}

/// Slicing a three-part extension out of a preserved prefix.
proof fn lemma_extension_layout(
    base: Seq<Instr>,
    fl: Seq<Instr>,
    act: Seq<Instr>,
    p2: Seq<Instr>,
    fin: Seq<Instr>,
)
    requires
        p2 == base + fl + act,
        fin.len() >= p2.len(),
        fin.subrange(0, p2.len() as int) == p2,
    ensures
        fin.subrange(base.len() as int, (base.len() + fl.len()) as int) == fl,
        fin.subrange((base.len() + fl.len()) as int, (base.len() + fl.len() + act.len()) as int) == act,
{
    assert forall|j: int| 0 <= j < p2.len() implies fin[j] == p2[j] by {
        assert(fin.subrange(0, p2.len() as int)[j] == fin[j]);
    }
    assert(fin.subrange(base.len() as int, (base.len() + fl.len()) as int) =~= fl);
    assert(fin.subrange((base.len() + fl.len()) as int, (base.len() + fl.len() + act.len()) as int) =~= act);
}

/// A flattening primitive the emitter can take: endpoints in range, and
/// arcs circular.
pub open spec fn piece_emittable(e: ArcOrLineSegment) -> bool {
    &&& e matches ArcOrLineSegment::Line(l) ==> l.from.wf() && l.to.wf()
    &&& e matches ArcOrLineSegment::Arc(a) ==> a.wf() && a.rx == a.ry
}

/// Prefix preservation is transitive.
pub proof fn lemma_prefix_chain_pub(base: Seq<Instr>, mid: Seq<Instr>, fin: Seq<Instr>)
    requires
        base.len() <= mid.len() <= fin.len(),
        mid.subrange(0, base.len() as int) == base,
        fin.subrange(0, mid.len() as int) == mid,
    ensures
        fin.subrange(0, base.len() as int) == base,
{
    lemma_prefix_chain(base, mid, fin);
}

/// Prefix preservation is transitive.
proof fn lemma_prefix_chain(base: Seq<Instr>, mid: Seq<Instr>, fin: Seq<Instr>)
    requires
        base.len() <= mid.len() <= fin.len(),
        mid.subrange(0, base.len() as int) == base,
        fin.subrange(0, mid.len() as int) == mid,
    ensures
        fin.subrange(0, base.len() as int) == base,
{
    assert forall|j: int| 0 <= j < base.len() implies fin[j] == base[j] by {
        assert(fin.subrange(0, mid.len() as int)[j] == fin[j]);
        assert(mid.subrange(0, base.len() as int)[j] == mid[j]);
    }
    assert(fin.subrange(0, base.len() as int) =~= base);
}

/// The straight moves a buffered run flushes into: one per point after the
/// first, nothing for an empty run.
pub open spec fn lines_of(buf: Seq<Point>, feed: i64) -> Seq<Instr> {
    if buf.len() == 0 {
        Seq::<Instr>::empty()
    } else {
        buf.skip(1).map(|i: int, p: Point| Instr::LinearMove { x: p.x, y: p.y, f: feed })
    }
}

/// Append helper with an exact contract.
fn append_program(program: &mut Vec<Instr>, mut tail: Vec<Instr>)
    ensures
        final(program)@ == old(program)@ + tail@,
{
    program.append(&mut tail);
}

} // verus!
