//! Document-traversal logic: lowering each recognized shape kind onto the
//! drawing engine, walking path data with exact current-point tracking,
//! planning layer boundaries, and resolving viewports. The outer walk over
//! the parsed element tree hands this module plain fixed-point values.
use vstd::prelude::*;
use crate::arcs::{ArcFlags, Rotation, SvgArc};
use crate::emit::GCodeTurtle;
use crate::fixed::{add_i64, clamp_i64, sabs, sub_i64, SCALE};
use crate::flatten::CubicBezierSegment;
use crate::geom::{clampc, clamp_coord, AffineTransform, Point, COORD_MAX};
use crate::units::{length_to_user_units, DimensionHint, Length};

verus! {

/// One command of a path's data, in fixed-point micro-units. An arc's axis
/// rotation is carried as its cosine and sine.
#[derive(Clone, Copy, Debug, PartialEq, Eq, Structural)]
pub enum PathCommand {
    MoveTo { abs: bool, x: i64, y: i64 },
    LineTo { abs: bool, x: i64, y: i64 },
    HorizontalTo { abs: bool, x: i64 },
    VerticalTo { abs: bool, y: i64 },
    CurveTo { abs: bool, x1: i64, y1: i64, x2: i64, y2: i64, x: i64, y: i64 },
    SmoothCurveTo { abs: bool, x2: i64, y2: i64, x: i64, y: i64 },
    Quadratic { abs: bool, x1: i64, y1: i64, x: i64, y: i64 },
    SmoothQuadratic { abs: bool, x: i64, y: i64 },
    EllipticalArc {
        abs: bool,
        rx: i64,
        ry: i64,
        rot_cos: i64,
        rot_sin: i64,
        large_arc: bool,
        sweep: bool,
        x: i64,
        y: i64,
    },
    Close,
}

/// The walking state of a path: the current point, the start of the open
/// subpath, and the previous control points the smooth commands reflect.
#[derive(Clone, Copy, Debug, PartialEq, Eq, Structural)]
pub struct PathState {
    pub cur: Point,
    pub start: Point,
    pub prev_cubic_ctrl: Option<Point>,
    pub prev_quad_ctrl: Option<Point>,
}

impl PathState {
    pub open spec fn wf(self) -> bool {
        &&& self.cur.wf()
        &&& self.start.wf()
        &&& self.prev_cubic_ctrl matches Some(p) ==> p.wf()
        &&& self.prev_quad_ctrl matches Some(p) ==> p.wf()
    }

    /// The state before any command: everything at the origin.
    pub open spec fn spec_initial() -> PathState {
        PathState {
            cur: Point { x: 0, y: 0 },
            start: Point { x: 0, y: 0 },
            prev_cubic_ctrl: Option::None,
            prev_quad_ctrl: Option::None,
        }
    }
}

/// A coordinate saturated into the drawing range.
pub open spec fn cc(v: int) -> i64 {
    clampc(clamp_i64(v)) as i64
}

/// The resolved target of one coordinate pair: absolute coordinates are
/// taken as they stand, relative ones offset the current point; both
/// saturate into the drawing range.
pub open spec fn spec_resolve(abs: bool, x: int, y: int, cur: Point) -> Point {
    if abs {
        Point { x: cc(x), y: cc(y) }
    } else {
        Point { x: cc(cur.x + x), y: cc(cur.y + y) }
    }
}

/// The reflection of a control point through the current point, as the
/// smooth commands use it.
pub open spec fn spec_reflect(cur: Point, prev: Option<Point>) -> Point {
    match prev {
        Option::Some(p) => Point { x: cc(2 * cur.x - p.x), y: cc(2 * cur.y - p.y) },
        Option::None => cur,
    }
}

/// The walking state after one command: how each command moves the current
/// point, opens or closes a subpath, and records or clears the control
/// point the next smooth command would reflect.
pub open spec fn spec_path_step(st: PathState, cmd: PathCommand) -> PathState {
    match cmd {
        PathCommand::MoveTo { abs, x, y } => {
            let p = spec_resolve(abs, x as int, y as int, st.cur);
            PathState { cur: p, start: p, prev_cubic_ctrl: Option::None, prev_quad_ctrl: Option::None }
        },
        PathCommand::LineTo { abs, x, y } => {
            let p = spec_resolve(abs, x as int, y as int, st.cur);
            PathState { cur: p, start: st.start, prev_cubic_ctrl: Option::None, prev_quad_ctrl: Option::None }
        },
        PathCommand::HorizontalTo { abs, x } => {
            let nx = if abs { cc(x as int) } else { cc(st.cur.x + x) };
            PathState {
                cur: Point { x: nx, y: st.cur.y },
                start: st.start,
                prev_cubic_ctrl: Option::None,
                prev_quad_ctrl: Option::None,
            }
        },
        PathCommand::VerticalTo { abs, y } => {
            let ny = if abs { cc(y as int) } else { cc(st.cur.y + y) };
            PathState {
                cur: Point { x: st.cur.x, y: ny },
                start: st.start,
                prev_cubic_ctrl: Option::None,
                prev_quad_ctrl: Option::None,
            }
        },
        PathCommand::CurveTo { abs, x1, y1, x2, y2, x, y } => {
            let c2 = spec_resolve(abs, x2 as int, y2 as int, st.cur);
            let p = spec_resolve(abs, x as int, y as int, st.cur);
            PathState { cur: p, start: st.start, prev_cubic_ctrl: Option::Some(c2), prev_quad_ctrl: Option::None }
        },
        PathCommand::SmoothCurveTo { abs, x2, y2, x, y } => {
            let c2 = spec_resolve(abs, x2 as int, y2 as int, st.cur);
            let p = spec_resolve(abs, x as int, y as int, st.cur);
            PathState { cur: p, start: st.start, prev_cubic_ctrl: Option::Some(c2), prev_quad_ctrl: Option::None }
        },
        PathCommand::Quadratic { abs, x1, y1, x, y } => {
            let c = spec_resolve(abs, x1 as int, y1 as int, st.cur);
            let p = spec_resolve(abs, x as int, y as int, st.cur);
            PathState { cur: p, start: st.start, prev_cubic_ctrl: Option::None, prev_quad_ctrl: Option::Some(c) }
        },
        PathCommand::SmoothQuadratic { abs, x, y } => {
            let c = spec_reflect(st.cur, st.prev_quad_ctrl);
            let p = spec_resolve(abs, x as int, y as int, st.cur);
            PathState { cur: p, start: st.start, prev_cubic_ctrl: Option::None, prev_quad_ctrl: Option::Some(c) }
        },
        PathCommand::EllipticalArc { abs, rx, ry, rot_cos, rot_sin, large_arc, sweep, x, y } => {
            let p = spec_resolve(abs, x as int, y as int, st.cur);
            PathState { cur: p, start: st.start, prev_cubic_ctrl: Option::None, prev_quad_ctrl: Option::None }
        },
        PathCommand::Close => {
            PathState {
                cur: st.start,
                start: st.start,
                prev_cubic_ctrl: Option::None,
                prev_quad_ctrl: Option::None,
            }
        },
    }
}

/// The walking state after the first `i` commands.
pub open spec fn spec_path_state(cmds: Seq<PathCommand>, i: int) -> PathState
    decreases i,
{
    if i <= 0 {
        PathState::spec_initial()
    } else {
        spec_path_step(spec_path_state(cmds, i - 1), cmds[i - 1])
    }
}

/// Resolve one coordinate pair, executable.
fn resolve(abs: bool, x: i64, y: i64, cur: Point) -> (r: Point)
    ensures
        r == spec_resolve(abs, x as int, y as int, cur),
        r.wf(),
{
    if abs {
        Point { x: clamp_coord(x), y: clamp_coord(y) }
    } else {
        Point { x: clamp_coord(add_i64(cur.x, x)), y: clamp_coord(add_i64(cur.y, y)) }
    }
}

/// Walk one path's commands against the drawing engine: a move opens a
/// subpath with a travel, lines and curves draw from the tracked current
/// point, smooth commands reflect the previous control point, a close
/// draws back to the subpath's start. Every drawn point is first taken
/// through the scope's composed transform. The returned state is exactly
/// the specification fold of the commands.
pub fn walk_path(
    cmds: &Vec<PathCommand>,
    t: &AffineTransform,
    turtle: &mut GCodeTurtle,
) -> (r: PathState)
    requires
        old(turtle).wf(),
        t.wf(),
    ensures
        final(turtle).wf(),
        old(turtle).same_config(*final(turtle)),
        final(turtle).program@.len() >= old(turtle).program@.len(),
        final(turtle).program@.subrange(0, old(turtle).program@.len() as int)
            == old(turtle).program@,
        r == spec_path_state(cmds@, cmds@.len() as int),
        r.wf(),
{
    let mut st = PathState {
        cur: Point { x: 0, y: 0 },
        start: Point { x: 0, y: 0 },
        prev_cubic_ctrl: None,
        prev_quad_ctrl: None,
    };
    let mut i: usize = 0;
    while i < cmds.len()
        invariant
            turtle.wf(),
            old(turtle).same_config(*turtle),
            t.wf(),
            i <= cmds@.len(),
            turtle.program@.len() >= old(turtle).program@.len(),
            turtle.program@.subrange(0, old(turtle).program@.len() as int)
                == old(turtle).program@,
            st == spec_path_state(cmds@, i as int),
            st.wf(),
        decreases cmds@.len() - i,
    {
        let ghost mid = turtle.program@;
        let cmd = cmds[i];
        match cmd {
            PathCommand::MoveTo { abs, x, y } => {
                let p = resolve(abs, x, y, st.cur);
                turtle.move_to(t.transform_point(p));
                st = PathState { cur: p, start: p, prev_cubic_ctrl: None, prev_quad_ctrl: None };
            },
            PathCommand::LineTo { abs, x, y } => {
                let p = resolve(abs, x, y, st.cur);
                turtle.line_to(t.transform_point(p));
                st = PathState {
                    cur: p,
                    start: st.start,
                    prev_cubic_ctrl: None,
                    prev_quad_ctrl: None,
                };
            },
            PathCommand::HorizontalTo { abs, x } => {
                let nx = if abs {
                    clamp_coord(x)
                } else {
                    clamp_coord(add_i64(st.cur.x, x))
                };
                let p = Point { x: nx, y: st.cur.y };
                turtle.line_to(t.transform_point(p));
                st = PathState {
                    cur: p,
                    start: st.start,
                    prev_cubic_ctrl: None,
                    prev_quad_ctrl: None,
                };
            },
            PathCommand::VerticalTo { abs, y } => {
                let ny = if abs {
                    clamp_coord(y)
                } else {
                    clamp_coord(add_i64(st.cur.y, y))
                };
                let p = Point { x: st.cur.x, y: ny };
                turtle.line_to(t.transform_point(p));
                st = PathState {
                    cur: p,
                    start: st.start,
                    prev_cubic_ctrl: None,
                    prev_quad_ctrl: None,
                };
            },
            PathCommand::CurveTo { abs, x1, y1, x2, y2, x, y } => {
                let c1 = resolve(abs, x1, y1, st.cur);
                let c2 = resolve(abs, x2, y2, st.cur);
                let p = resolve(abs, x, y, st.cur);
                let seg = CubicBezierSegment {
                    from: t.transform_point(st.cur),
                    ctrl1: t.transform_point(c1),
                    ctrl2: t.transform_point(c2),
                    to: t.transform_point(p),
                };
                turtle.cubic_bezier(&seg);
                st = PathState {
                    cur: p,
                    start: st.start,
                    prev_cubic_ctrl: Some(c2),
                    prev_quad_ctrl: None,
                };
            },
            PathCommand::SmoothCurveTo { abs, x2, y2, x, y } => {
                let c1 = reflect(st.cur, &st.prev_cubic_ctrl);
                let c2 = resolve(abs, x2, y2, st.cur);
                let p = resolve(abs, x, y, st.cur);
                let seg = CubicBezierSegment {
                    from: t.transform_point(st.cur),
                    ctrl1: t.transform_point(c1),
                    ctrl2: t.transform_point(c2),
                    to: t.transform_point(p),
                };
                turtle.cubic_bezier(&seg);
                st = PathState {
                    cur: p,
                    start: st.start,
                    prev_cubic_ctrl: Some(c2),
                    prev_quad_ctrl: None,
                };
            },
            PathCommand::Quadratic { abs, x1, y1, x, y } => {
                let c = resolve(abs, x1, y1, st.cur);
                let p = resolve(abs, x, y, st.cur);
                let seg = crate::emit::QuadraticBezierSegment {
                    from: t.transform_point(st.cur),
                    ctrl: t.transform_point(c),
                    to: t.transform_point(p),
                };
                turtle.quadratic_bezier(&seg);
                st = PathState {
                    cur: p,
                    start: st.start,
                    prev_cubic_ctrl: None,
                    prev_quad_ctrl: Some(c),
                };
            },
            PathCommand::SmoothQuadratic { abs, x, y } => {
                let c = reflect(st.cur, &st.prev_quad_ctrl);
                let p = resolve(abs, x, y, st.cur);
                let seg = crate::emit::QuadraticBezierSegment {
                    from: t.transform_point(st.cur),
                    ctrl: t.transform_point(c),
                    to: t.transform_point(p),
                };
                turtle.quadratic_bezier(&seg);
                st = PathState {
                    cur: p,
                    start: st.start,
                    prev_cubic_ctrl: None,
                    prev_quad_ctrl: Some(c),
                };
            },
            PathCommand::EllipticalArc { abs, rx, ry, rot_cos, rot_sin, large_arc, sweep, x, y } => {
                let p = resolve(abs, x, y, st.cur);
                let arc = SvgArc {
                    from: st.cur,
                    to: p,
                    rx: crate::flatten::clamp_radius(rx),
                    ry: crate::flatten::clamp_radius(ry),
                    x_rotation: Rotation {
                        cos: clamp_unit(rot_cos),
                        sin: clamp_unit(rot_sin),
                    },
                    flags: ArcFlags { large_arc, sweep },
                };
                let placed = arc.transformed(t);
                turtle.arc(&placed);
                st = PathState {
                    cur: p,
                    start: st.start,
                    prev_cubic_ctrl: None,
                    prev_quad_ctrl: None,
                };
            },
            PathCommand::Close => {
                turtle.line_to(t.transform_point(st.start));
                st = PathState {
                    cur: st.start,
                    start: st.start,
                    prev_cubic_ctrl: None,
                    prev_quad_ctrl: None,
                };
            },
        }
        proof {
            crate::emit::lemma_prefix_chain_pub(old(turtle).program@, mid, turtle.program@);
            assert(st == spec_path_state(cmds@, i as int + 1));
        }
        i += 1;
    }
    st
}

/// Reflect the previous control point through the current one, executable.
fn reflect(cur: Point, prev: &Option<Point>) -> (r: Point)
    requires
        cur.wf(),
    ensures
        r == spec_reflect(cur, *prev),
        r.wf(),
{
    match prev {
        Option::Some(p) => Point {
            x: clamp_coord(sub_i64(add_i64(cur.x, cur.x), p.x)),
            y: clamp_coord(sub_i64(add_i64(cur.y, cur.y), p.y)),
        },
        Option::None => cur,
    }
}

/// Saturate a rotation component into the unit range.
fn clamp_unit(v: i64) -> (r: i64)
    ensures
        sabs(r as int) <= SCALE as int,
{
    if v > SCALE {
        SCALE
    } else if v < -SCALE {
        -SCALE
    } else {
        v
    }
}

/// The program extension a travel to `p` makes when buffering is off.
pub open spec fn spec_travel_emission(pre: GCodeTurtle, p: Point) -> Seq<crate::emit::Instr> {
    crate::emit::lines_of(pre.line_buffer@, pre.feedrate) + (if pre.tool_state {
        crate::emit::snippet_seq(pre.machine.tool_off_sequence)
    } else {
        Seq::<crate::emit::Instr>::empty()
    }) + seq![crate::emit::Instr::RapidMove { x: p.x, y: p.y }]
}

/// One straight draw to `p` after a fresh travel: the activation block for
/// the pending state carried into the travel, followed by the move.
pub open spec fn spec_first_draw(pre: GCodeTurtle, p: Point) -> Seq<crate::emit::Instr> {
    crate::emit::activation_emission(pre.machine, pre.pending_between_layers) + seq![
        crate::emit::Instr::LinearMove { x: p.x, y: p.y, f: pre.feedrate },
    ]
}

/// Lower a rectangle: a travel to its corner and four straight edges back
/// around to it. With buffering off the emission is exactly the travel,
/// the activation block, and the four edge moves.
#[verifier::rlimit(100)]
pub fn lower_rect(x: i64, y: i64, w: i64, h: i64, t: &AffineTransform, turtle: &mut GCodeTurtle)
    requires
        old(turtle).wf(),
        t.wf(),
    ensures
        final(turtle).wf(),
        old(turtle).same_config(*final(turtle)),
        final(turtle).program@.subrange(0, old(turtle).program@.len() as int)
            == old(turtle).program@,
        final(turtle).tool_state,
        !old(turtle).polygon_arc_config.enabled ==> ({
            let p0 = crate::geom::spec_apply(*t, Point { x: cc(x as int), y: cc(y as int) });
            let p1 = crate::geom::spec_apply(*t, Point { x: cc(x + w), y: cc(y as int) });
            let p2 = crate::geom::spec_apply(*t, Point { x: cc(x + w), y: cc(y + h) });
            let p3 = crate::geom::spec_apply(*t, Point { x: cc(x as int), y: cc(y + h) });
            let feed = old(turtle).feedrate;
            final(turtle).program@ == old(turtle).program@ + spec_travel_emission(
                *old(turtle),
                p0,
            ) + spec_first_draw(*old(turtle), p1) + seq![
                crate::emit::Instr::LinearMove { x: p2.x, y: p2.y, f: feed },
                crate::emit::Instr::LinearMove { x: p3.x, y: p3.y, f: feed },
                crate::emit::Instr::LinearMove { x: p0.x, y: p0.y, f: feed },
            ]
        }),
{
    let p0 = Point { x: clamp_coord(x), y: clamp_coord(y) };
    let p1 = Point { x: clamp_coord(add_i64(x, w)), y: clamp_coord(y) };
    let p2 = Point { x: clamp_coord(add_i64(x, w)), y: clamp_coord(add_i64(y, h)) };
    let p3 = Point { x: clamp_coord(x), y: clamp_coord(add_i64(y, h)) };
    let q0 = t.transform_point(p0);
    let q1 = t.transform_point(p1);
    let q2 = t.transform_point(p2);
    let q3 = t.transform_point(p3);
    turtle.move_to(q0);
    let ghost g1 = turtle.program@;
    turtle.line_to(q1);
    let ghost g2 = turtle.program@;
    turtle.line_to(q2);
    let ghost g3 = turtle.program@;
    turtle.line_to(q3);
    let ghost g4 = turtle.program@;
    turtle.line_to(q0);
    proof {
        if !old(turtle).polygon_arc_config.enabled {
            let feed = old(turtle).feedrate;
            assert(turtle.program@ =~= old(turtle).program@ + spec_travel_emission(
                *old(turtle),
                q0,
            ) + spec_first_draw(*old(turtle), q1) + seq![
                crate::emit::Instr::LinearMove { x: q2.x, y: q2.y, f: feed },
                crate::emit::Instr::LinearMove { x: q3.x, y: q3.y, f: feed },
                crate::emit::Instr::LinearMove { x: q0.x, y: q0.y, f: feed },
            ]);
        }
        assert(turtle.program@.subrange(0, old(turtle).program@.len() as int)
            =~= old(turtle).program@);
    }
}

/// Lower a line element: a travel to its first endpoint and one straight
/// edge to the second. With buffering off the emission is exactly the
/// travel, the activation block, and the move.
pub fn lower_line(
    x1: i64,
    y1: i64,
    x2: i64,
    y2: i64,
    t: &AffineTransform,
    turtle: &mut GCodeTurtle,
)
    requires
        old(turtle).wf(),
        t.wf(),
    ensures
        final(turtle).wf(),
        old(turtle).same_config(*final(turtle)),
        final(turtle).program@.subrange(0, old(turtle).program@.len() as int)
            == old(turtle).program@,
        final(turtle).tool_state,
        !old(turtle).polygon_arc_config.enabled ==> ({
            let p1 = crate::geom::spec_apply(*t, Point { x: cc(x1 as int), y: cc(y1 as int) });
            let p2 = crate::geom::spec_apply(*t, Point { x: cc(x2 as int), y: cc(y2 as int) });
            final(turtle).program@ == old(turtle).program@ + spec_travel_emission(
                *old(turtle),
                p1,
            ) + spec_first_draw(*old(turtle), p2)
        }),
{
    let p1 = Point { x: clamp_coord(x1), y: clamp_coord(y1) };
    let p2 = Point { x: clamp_coord(x2), y: clamp_coord(y2) };
    let q1 = t.transform_point(p1);
    let q2 = t.transform_point(p2);
    turtle.move_to(q1);
    turtle.line_to(q2);
    proof {
        if !old(turtle).polygon_arc_config.enabled {
            assert(turtle.program@ =~= old(turtle).program@ + spec_travel_emission(
                *old(turtle),
                q1,
            ) + spec_first_draw(*old(turtle), q2));
        }
        assert(turtle.program@.subrange(0, old(turtle).program@.len() as int)
            =~= old(turtle).program@);
    }
}

/// Lower a polyline or polygon: a travel to the first point and straight
/// edges through the rest, closing back to the first for a polygon.
pub fn lower_polyline(
    points: &Vec<(i64, i64)>,
    close: bool,
    t: &AffineTransform,
    turtle: &mut GCodeTurtle,
)
    requires
        old(turtle).wf(),
        t.wf(),
    ensures
        final(turtle).wf(),
        old(turtle).same_config(*final(turtle)),
        final(turtle).program@.subrange(0, old(turtle).program@.len() as int)
            == old(turtle).program@,
        points@.len() == 0 ==> *final(turtle) == *old(turtle),
        points@.len() > 0 ==> final(turtle).tool_state || points@.len() == 1 && !close,
{
    if points.len() == 0 {
        return ;
    }
    let first = Point { x: clamp_coord(points[0].0), y: clamp_coord(points[0].1) };
    let q_first = t.transform_point(first);
    turtle.move_to(q_first);
    let mut i: usize = 1;
    while i < points.len()
        invariant
            turtle.wf(),
            old(turtle).same_config(*turtle),
            t.wf(),
            1 <= i <= points@.len(),
            turtle.program@.len() >= old(turtle).program@.len(),
            turtle.program@.subrange(0, old(turtle).program@.len() as int)
                == old(turtle).program@,
            i > 1 ==> turtle.tool_state,
            !turtle.tool_state ==> turtle.pending_between_layers == old(
                turtle,
            ).pending_between_layers,
        decreases points@.len() - i,
    {
        let ghost mid = turtle.program@;
        let p = Point { x: clamp_coord(points[i].0), y: clamp_coord(points[i].1) };
        turtle.line_to(t.transform_point(p));
        proof {
            crate::emit::lemma_prefix_chain_pub(old(turtle).program@, mid, turtle.program@);
        }
        i += 1;
    }
    if close {
        let ghost mid = turtle.program@;
        turtle.line_to(q_first);
        proof {
            crate::emit::lemma_prefix_chain_pub(old(turtle).program@, mid, turtle.program@);
        }
    } else if points.len() == 1 {
        proof {
            assert(turtle.program@.subrange(0, old(turtle).program@.len() as int)
                =~= old(turtle).program@);
        }
    }
}

/// Lower a circle or ellipse: a travel to its rightmost point and four
/// counterclockwise quarter arcs around it, each taken through the scope's
/// composed transform.
pub fn lower_ellipse(
    cx: i64,
    cy: i64,
    rx: i64,
    ry: i64,
    t: &AffineTransform,
    turtle: &mut GCodeTurtle,
)
    requires
        old(turtle).wf(),
        t.wf(),
        0 < rx <= COORD_MAX,
        0 < ry <= COORD_MAX,
    ensures
        final(turtle).wf(),
        old(turtle).same_config(*final(turtle)),
        final(turtle).program@.subrange(0, old(turtle).program@.len() as int)
            == old(turtle).program@,
        final(turtle).tool_state,
        final(turtle).program@.len() >= old(turtle).program@.len(),
{
    let e = Point { x: clamp_coord(add_i64(cx, rx)), y: clamp_coord(cy) };
    let n = Point { x: clamp_coord(cx), y: clamp_coord(add_i64(cy, ry)) };
    let w = Point { x: clamp_coord(sub_i64(cx, rx)), y: clamp_coord(cy) };
    let s = Point { x: clamp_coord(cx), y: clamp_coord(sub_i64(cy, ry)) };
    turtle.move_to(t.transform_point(e));
    let quarters: [(Point, Point); 4] = [(e, n), (n, w), (w, s), (s, e)];
    let mut k: usize = 0;
    while k < 4
        invariant
            turtle.wf(),
            old(turtle).same_config(*turtle),
            t.wf(),
            k <= 4,
            e.wf() && n.wf() && w.wf() && s.wf(),
            quarters[0] == (e, n) && quarters[1] == (n, w) && quarters[2] == (w, s)
                && quarters[3] == (s, e),
            0 < rx <= COORD_MAX,
            0 < ry <= COORD_MAX,
            turtle.program@.len() >= old(turtle).program@.len(),
            turtle.program@.subrange(0, old(turtle).program@.len() as int)
                == old(turtle).program@,
            k > 0 ==> turtle.tool_state,
        decreases 4 - k,
    {
        let ghost mid = turtle.program@;
        let (from, to) = quarters[k];
        let arc = SvgArc {
            from,
            to,
            rx,
            ry,
            x_rotation: Rotation { cos: SCALE, sin: 0 },
            flags: ArcFlags { large_arc: false, sweep: true },
        };
        let placed = arc.transformed(t);
        turtle.arc(&placed);
        proof {
            crate::emit::lemma_prefix_chain_pub(old(turtle).program@, mid, turtle.program@);
        }
        k += 1;
    }
}

/// A resolved viewport: its dimensions in user units and, when a viewBox
/// maps onto it, the local transform that realizes the map.
#[derive(Clone, Copy, Debug, PartialEq, Eq, Structural)]
pub struct ViewportResolution {
    pub width: i64,
    pub height: i64,
    pub map: Option<AffineTransform>,
}

/// The effective dimension attribute: an override dimension, resolved to
/// user units with no surrounding viewport, takes precedence over the
/// document's own attribute.
pub open spec fn spec_effective_dim(
    over: Option<Length>,
    attr: Option<i64>,
    hint: DimensionHint,
    dpi: int,
) -> Option<i64> {
    match over {
        Option::Some(l) => Option::Some(
            crate::units::spec_length_to_uu(l, hint, dpi, Option::None) as i64,
        ),
        Option::None => attr,
    }
}

/// The resolved viewport of a root element, with the truncations the
/// executable code performs: explicit dimensions win; a missing one is
/// derived from the viewBox's aspect ratio; with neither, the viewBox's
/// own size stands; with nothing at all there is no viewport. A viewBox
/// over a non-degenerate area also yields the local map: the translation
/// to its corner followed by the scale onto the viewport.
pub open spec fn spec_resolve_viewport(
    ew: Option<i64>,
    eh: Option<i64>,
    view_box: Option<(i64, i64, i64, i64)>,
    dpi: int,
) -> Option<ViewportResolution> {
    let dims: Option<(int, int)> = match (ew, eh, view_box) {
        (Option::Some(w), Option::Some(h), _) => Option::Some((w as int, h as int)),
        (Option::Some(w), Option::None, Option::Some((minx, miny, bw, bh))) => if bw > 0 {
            Option::Some((w as int, crate::fixed::div_tz(bh * w, bw as int)))
        } else {
            Option::None
        },
        (Option::None, Option::Some(h), Option::Some((minx, miny, bw, bh))) => if bh > 0 {
            Option::Some((crate::fixed::div_tz(bw * h, bh as int), h as int))
        } else {
            Option::None
        },
        (Option::None, Option::None, Option::Some((minx, miny, bw, bh))) => Option::Some(
            (bw as int, bh as int),
        ),
        _ => Option::None,
    };
    match dims {
        Option::Some((vw0, vh0)) => {
            let vw = if vw0 < 0 {
                0
            } else {
                clampc(clamp_i64(vw0))
            };
            let vh = if vh0 < 0 {
                0
            } else {
                clampc(clamp_i64(vh0))
            };
            let map = match view_box {
                Option::Some((minx, miny, bw, bh)) => if bw > 0 && bh > 0 {
                    let sx = crate::geom::clampl(
                        crate::fixed::clamp_i64(crate::fixed::div_tz(vw * (SCALE as int), bw as int)),
                    ) as i64;
                    let sy = crate::geom::clampl(
                        crate::fixed::clamp_i64(crate::fixed::div_tz(vh * (SCALE as int), bh as int)),
                    ) as i64;
                    Option::Some(
                        crate::geom::spec_compose(
                            AffineTransform {
                                a: SCALE,
                                b: 0,
                                c: 0,
                                d: SCALE,
                                tx: clampc(-minx) as i64,
                                ty: clampc(-miny) as i64,
                            },
                            AffineTransform { a: sx, b: 0, c: 0, d: sy, tx: 0, ty: 0 },
                        ),
                    )
                } else {
                    Option::None
                },
                Option::None => Option::None,
            };
            Option::Some(
                ViewportResolution { width: vw as i64, height: vh as i64, map },
            )
        },
        Option::None => Option::None,
    }
}

/// Resolve a root element's viewport from its dimension attributes, its
/// viewBox, and the caller's optional dimension overrides.
#[verifier::rlimit(100)]
pub fn resolve_viewport(
    width_attr: Option<i64>,
    height_attr: Option<i64>,
    view_box: Option<(i64, i64, i64, i64)>,
    overrides: &[Option<Length>; 2],
    dpi: i64,
) -> (r: Option<ViewportResolution>)
    requires
        0 < dpi <= 1_000_000_000_000,
        width_attr matches Some(w) ==> sabs(w as int) <= COORD_MAX as int,
        height_attr matches Some(h) ==> sabs(h as int) <= COORD_MAX as int,
        view_box matches Some(vb) ==> sabs(vb.0 as int) <= COORD_MAX as int && sabs(vb.1 as int)
            <= COORD_MAX as int && sabs(vb.2 as int) <= COORD_MAX as int && sabs(vb.3 as int)
            <= COORD_MAX as int,
        overrides[0] matches Some(l) ==> sabs(l.number as int) <= COORD_MAX as int,
        overrides[1] matches Some(l) ==> sabs(l.number as int) <= COORD_MAX as int,
    ensures
        r == spec_resolve_viewport(
            spec_effective_dim(overrides[0], width_attr, DimensionHint::Horizontal, dpi as int),
            spec_effective_dim(overrides[1], height_attr, DimensionHint::Vertical, dpi as int),
            view_box,
            dpi as int,
        ),
        r matches Some(v) ==> 0 <= v.width <= COORD_MAX && 0 <= v.height <= COORD_MAX && (
        v.map matches Some(m) ==> m.wf()),
{
    let ew: Option<i64> = match &overrides[0] {
        Option::Some(l) => Some(
            length_to_user_units(*l, DimensionHint::Horizontal, dpi, None),
        ),
        Option::None => width_attr,
    };
    let eh: Option<i64> = match &overrides[1] {
        Option::Some(l) => Some(length_to_user_units(*l, DimensionHint::Vertical, dpi, None)),
        Option::None => height_attr,
    };
    let dims: Option<(i64, i64)> = match (ew, eh, view_box) {
        (Option::Some(w), Option::Some(h), _) => Some((w, h)),
        (Option::Some(w), Option::None, Option::Some((_minx, _miny, bw, bh))) => {
            if bw > 0 {
                proof {
                    crate::fixed::lemma_mul_bound(
                        bh as int,
                        w as int,
                        0x7fffffffffffffff,
                        0x7fffffffffffffff,
                    );
                }
                Some((w, clamp_i128_to_coord(crate::fixed::div_i128(
                    crate::fixed::mul_i128(bh, w),
                    bw as i128,
                ))))
            } else {
                None
            }
        },
        (Option::None, Option::Some(h), Option::Some((_minx, _miny, bw, bh))) => {
            if bh > 0 {
                proof {
                    crate::fixed::lemma_mul_bound(
                        bw as int,
                        h as int,
                        0x7fffffffffffffff,
                        0x7fffffffffffffff,
                    );
                }
                Some((clamp_i128_to_coord(crate::fixed::div_i128(
                    crate::fixed::mul_i128(bw, h),
                    bh as i128,
                )), h))
            } else {
                None
            }
        },
        (Option::None, Option::None, Option::Some((_minx, _miny, bw, bh))) => Some((bw, bh)),
        _ => None,
    };
    match dims {
        Option::Some((vw0, vh0)) => {
            let vw = if vw0 < 0 {
                0
            } else {
                clamp_coord(vw0)
            };
            let vh = if vh0 < 0 {
                0
            } else {
                clamp_coord(vh0)
            };
            let map: Option<AffineTransform> = match view_box {
                Option::Some((minx, miny, bw, bh)) => {
                    if bw > 0 && bh > 0 {
                        let sx = crate::geom::clamp_linear(
                            crate::fixed::mul_div_i64(vw, SCALE, bw),
                        );
                        let sy = crate::geom::clamp_linear(
                            crate::fixed::mul_div_i64(vh, SCALE, bh),
                        );
                        let shift = AffineTransform::translation(-minx, -miny);
                        let scale = AffineTransform::scale(sx, sy);
                        Some(shift.compose(&scale))
                    } else {
                        None
                    }
                },
                Option::None => None,
            };
            Some(ViewportResolution { width: vw, height: vh, map })
        },
        Option::None => None,
    }
}

/// Saturate a derived dimension into the coordinate range, keeping sign.
fn clamp_i128_to_coord(v: i128) -> (r: i64)
    ensures
        r as int == clampc(clamp_i64(v as int)),
{
    if v > COORD_MAX as i128 {
        COORD_MAX
    } else if v < -(COORD_MAX as i128) {
        -COORD_MAX
    } else {
        v as i64
    }
}

/// Where layer boundaries fall: given which top-level children are layer
/// groups, a boundary is marked on exactly the groups that follow another
/// group — once per adjacent pair of layers, and never before the first.
pub fn plan_layer_boundaries(kinds: &Vec<bool>) -> (r: Vec<bool>)
    ensures
        r@.len() == kinds@.len(),
        forall|i: int|
            0 <= i < r@.len() ==> (#[trigger] r@[i] <==> kinds@[i] && exists|j: int|
                0 <= j < i && #[trigger] kinds@[j]),
{
    let mut r: Vec<bool> = Vec::new();
    let mut seen = false;
    let mut i: usize = 0;
    while i < kinds.len()
        invariant
            i <= kinds@.len(),
            r@.len() == i,
            seen <==> exists|j: int| 0 <= j < i && #[trigger] kinds@[j],
            forall|k: int|
                0 <= k < i ==> (#[trigger] r@[k] <==> kinds@[k] && exists|j: int|
                    0 <= j < k && #[trigger] kinds@[j]),
        decreases kinds@.len() - i,
    {
        let is_group = kinds[i];
        r.push(is_group && seen);
        if is_group {
            seen = true;
        }
        i += 1;
    }
    r
}

} // verus!
