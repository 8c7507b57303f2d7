//! Circular-arc primitives and detection of circular arcs in polylines.
use vstd::prelude::*;
use crate::fixed::{div_i128, div_tz, mul_i128, sabs, sqrtf, SCALE};
use crate::geom::{dist, Point, COORD_MAX};

verus! {

/// A straight segment between two points.
#[derive(Clone, Copy, Debug, PartialEq, Eq, Structural)]
pub struct LineSegment {
    pub from: Point,
    pub to: Point,
}

/// Endpoint-parameterization flags of an arc.
#[derive(Clone, Copy, Debug, PartialEq, Eq, Structural)]
pub struct ArcFlags {
    /// Whether the longer of the two candidate sweeps is taken.
    pub large_arc: bool,
    /// Whether the arc runs counterclockwise from start to end.
    pub sweep: bool,
}

/// An axis rotation carried as its cosine and sine, in micro-units.
#[derive(Clone, Copy, Debug, PartialEq, Eq, Structural)]
pub struct Rotation {
    pub cos: i64,
    pub sin: i64,
}

/// An elliptical arc in endpoint parameterization.
#[derive(Clone, Copy, Debug, PartialEq, Eq, Structural)]
pub struct SvgArc {
    pub from: Point,
    pub to: Point,
    /// Semi-axes, in micro-units.
    pub rx: i64,
    pub ry: i64,
    pub x_rotation: Rotation,
    pub flags: ArcFlags,
}

impl SvgArc {
    /// Endpoints in range, radii nonnegative and bounded, rotation
    /// components no larger than one.
    pub open spec fn wf(self) -> bool {
        &&& self.from.wf()
        &&& self.to.wf()
        &&& 0 <= self.rx <= 3 * COORD_MAX
        &&& 0 <= self.ry <= 3 * COORD_MAX
        &&& sabs(self.x_rotation.cos as int) <= SCALE as int
        &&& sabs(self.x_rotation.sin as int) <= SCALE as int
    }

    /// A circular arc: equal semi-axes and no axis rotation.
    pub open spec fn circular(self) -> bool {
        self.rx == self.ry && self.x_rotation.cos == SCALE && self.x_rotation.sin == 0
    }
}

/// The sole output type of the flattening engine: a circular arc or a
/// straight segment.
#[derive(Clone, Copy, Debug, PartialEq, Eq, Structural)]
pub enum ArcOrLineSegment {
    Arc(SvgArc),
    Line(LineSegment),
}

/// A circle by center and radius.
#[derive(Clone, Copy, Debug, PartialEq, Eq, Structural)]
pub struct Circle {
    pub center: Point,
    pub radius: i64,
}

/// Distance between two points as the contracts speak of it.
pub open spec fn spec_dist(p: Point, q: Point) -> int {
    sqrtf((p.x - q.x) * (p.x - q.x) + (p.y - q.y) * (p.y - q.y))
}

/// Whether three points lie on one straight line (exact cross product).
pub open spec fn collinear(p1: Point, p2: Point, p3: Point) -> bool {
    spec_cross3(p1, p2, p3) == 0
}

/// Cross product of the edge vectors out of `p1`.
pub open spec fn spec_cross3(p1: Point, p2: Point, p3: Point) -> int {
    (p2.x - p1.x) * (p3.y - p1.y) - (p2.y - p1.y) * (p3.x - p1.x)
}

/// Squared length of the edge from `p1` to `p2`.
pub open spec fn spec_edge2(p1: Point, p2: Point) -> int {
    (p2.x - p1.x) * (p2.x - p1.x) + (p2.y - p1.y) * (p2.y - p1.y)
}

/// The circumcenter abscissa of three non-collinear points, truncating.
pub open spec fn spec_circum_x(p1: Point, p2: Point, p3: Point) -> int {
    p1.x + div_tz(
        (p3.y - p1.y) * spec_edge2(p1, p2) - (p2.y - p1.y) * spec_edge2(p1, p3),
        2 * spec_cross3(p1, p2, p3),
    )
}

/// The circumcenter ordinate of three non-collinear points, truncating.
pub open spec fn spec_circum_y(p1: Point, p2: Point, p3: Point) -> int {
    p1.y + div_tz(
        (p2.x - p1.x) * spec_edge2(p1, p3) - (p3.x - p1.x) * spec_edge2(p1, p2),
        2 * spec_cross3(p1, p2, p3),
    )
}

/// Whether `p` lies within `tol` of the circle `c`, measured radially.
pub open spec fn radial_dev_ok(p: Point, c: Circle, tol: int) -> bool {
    sabs(spec_dist(p, c.center) - c.radius) <= tol
}

/// Circle through three points by the circumcenter formula.
///
/// Collinear points have no circumcircle and yield `None`; so does a
/// circumcenter outside the coordinate range.
pub fn circle_from_three_points(p1: Point, p2: Point, p3: Point) -> (r: Option<Circle>)
    requires
        p1.wf(),
        p2.wf(),
        p3.wf(),
    ensures
        r is Some <==> !collinear(p1, p2, p3) && sabs(spec_circum_x(p1, p2, p3)) <= COORD_MAX as int
            && sabs(spec_circum_y(p1, p2, p3)) <= COORD_MAX as int,
        r matches Some(c) ==> {
            &&& c.center.x as int == spec_circum_x(p1, p2, p3)
            &&& c.center.y as int == spec_circum_y(p1, p2, p3)
            &&& c.center.wf()
            &&& c.radius as int == spec_dist(c.center, p1)
            &&& 0 <= c.radius <= 3 * COORD_MAX
        },
{
    let ax = crate::fixed::sub_i64(p2.x, p1.x);
    let ay = crate::fixed::sub_i64(p2.y, p1.y);
    let bx = crate::fixed::sub_i64(p3.x, p1.x);
    let by = crate::fixed::sub_i64(p3.y, p1.y);
    proof {
        lemma_pair_products(ax as int, ay as int, bx as int, by as int);
    }
    let cross: i128 = mul_i128(ax, by) - mul_i128(ay, bx);
    if cross == 0 {
        return None;
    }
    let a2: i128 = mul_i128(ax, ax) + mul_i128(ay, ay);
    let b2: i128 = mul_i128(bx, bx) + mul_i128(by, by);
    proof {
        lemma_circum_bounds(ax as int, ay as int, bx as int, by as int, a2 as int, b2 as int);
    }
    let num_x: i128 = (by as i128) * a2 - (ay as i128) * b2;
    let num_y: i128 = (ax as i128) * b2 - (bx as i128) * a2;
    let den: i128 = 2 * cross;
    let qx = div_i128(num_x, den);
    let qy = div_i128(num_y, den);
    let cx: i128 = (p1.x as i128) + qx;
    let cy: i128 = (p1.y as i128) + qy;
    if cx > COORD_MAX as i128 || cx < -(COORD_MAX as i128) || cy > COORD_MAX as i128 || cy < -(
    COORD_MAX as i128) {
        return None;
    }
    let center = Point { x: cx as i64, y: cy as i64 };
    let radius = dist(center, p1);
    Some(Circle { center, radius })
}

/// The products feeding the circumcenter numerators stay inside 128 bits.
proof fn lemma_circum_bounds(ax: int, ay: int, bx: int, by: int, a2: int, b2: int)
    requires
        sabs(ax) <= 2 * COORD_MAX as int,
        sabs(ay) <= 2 * COORD_MAX as int,
        sabs(bx) <= 2 * COORD_MAX as int,
        sabs(by) <= 2 * COORD_MAX as int,
        a2 == ax * ax + ay * ay,
        b2 == bx * bx + by * by,
    ensures
        0 <= a2 <= 0x69e10de76676d08000000,
        0 <= b2 <= 0x69e10de76676d08000000,
        sabs(by * a2) <= 0xc097ce7bc90715b34b9f10000000000,
        sabs(ay * b2) <= 0xc097ce7bc90715b34b9f10000000000,
        sabs(ax * b2) <= 0xc097ce7bc90715b34b9f10000000000,
        sabs(bx * a2) <= 0xc097ce7bc90715b34b9f10000000000,
        sabs(by * a2 - ay * b2) < 0x40000000000000000000000000000000,
        sabs(ax * b2 - bx * a2) < 0x40000000000000000000000000000000,
{
    let m = 2 * COORD_MAX as int;
    assert(0 <= a2 <= 2 * (m * m) && 0 <= b2 <= 2 * (m * m)) by (nonlinear_arith)
        requires
            sabs(ax) <= m,
            sabs(ay) <= m,
            sabs(bx) <= m,
            sabs(by) <= m,
            a2 == ax * ax + ay * ay,
            b2 == bx * bx + by * by,
            m >= 0,
    ;
    crate::fixed::lemma_mul_bound(by, a2, m, 2 * (m * m));
    crate::fixed::lemma_mul_bound(ay, b2, m, 2 * (m * m));
    crate::fixed::lemma_mul_bound(ax, b2, m, 2 * (m * m));
    crate::fixed::lemma_mul_bound(bx, a2, m, 2 * (m * m));
    assert(2 * (m * m) == 0x69e10de76676d08000000 && m * (2 * (m * m))
        == 0xc097ce7bc90715b34b9f10000000000) by (nonlinear_arith)
        requires
            m == 2 * COORD_MAX as int,
    ;
}

/// The circle fit over the window `[lo, hi)` succeeds: at least three
/// points, a non-collinear leading triple whose circumcenter is
/// representable, a circumradius of at least ten tolerances, and every
/// window point radially within tolerance of the circumcircle.
pub open spec fn fit_window_ok(s: Seq<Point>, lo: int, hi: int, tol: int) -> bool {
    let c = window_circle(s, lo);
    &&& lo + 3 <= hi
    &&& !collinear(s[lo], s[lo + 1], s[lo + 2])
    &&& sabs(spec_circum_x(s[lo], s[lo + 1], s[lo + 2])) <= COORD_MAX as int
    &&& sabs(spec_circum_y(s[lo], s[lo + 1], s[lo + 2])) <= COORD_MAX as int
    &&& 0 <= spec_dist(c.center, s[lo]) <= 3 * COORD_MAX as int
    &&& c.radius as int >= 10 * tol
    &&& forall|i: int| lo <= i < hi ==> radial_dev_ok(#[trigger] s[i], c, tol)
}

/// Fit one circle to a window of a polyline: the circumcircle of the first
/// three points, kept only when it is no smaller than ten tolerances and
/// every window point lies within tolerance of it radially. The fit
/// succeeds exactly when `fit_window_ok` holds of the window.
pub fn fit_circle_to_points(points: &Vec<Point>, lo: usize, hi: usize, tolerance: i64) -> (r:
    Option<Circle>)
    requires
        lo <= hi <= points@.len(),
        forall|i: int| 0 <= i < points@.len() ==> (#[trigger] points@[i]).wf(),
        0 <= tolerance <= COORD_MAX,
    ensures
        r is Some <==> fit_window_ok(points@, lo as int, hi as int, tolerance as int),
        r matches Some(c) ==> {
            &&& hi - lo >= 3
            &&& !collinear(points@[lo as int], points@[lo + 1], points@[lo + 2])
            &&& c.center.x as int == spec_circum_x(points@[lo as int], points@[lo + 1], points@[lo + 2])
            &&& c.center.y as int == spec_circum_y(points@[lo as int], points@[lo + 1], points@[lo + 2])
            &&& c.center.wf()
            &&& c.radius as int == spec_dist(c.center, points@[lo as int])
            &&& c.radius as int >= 10 * tolerance as int
            &&& 0 <= c.radius <= 3 * COORD_MAX
            &&& forall|i: int| lo <= i < hi ==> radial_dev_ok(#[trigger] points@[i], c, tolerance as int)
        },
{
    if hi - lo < 3 {
        return None;
    }
    let initial = circle_from_three_points(points[lo], points[lo + 1], points[lo + 2]);
    let circle = match initial {
        Option::Some(c) => c,
        Option::None => {
            return None;
        },
    };
    proof {
        assert(circle == window_circle(points@, lo as int));
    }
    let min_radius = crate::fixed::mul_div_i64(tolerance, 10, 1);
    if circle.radius < min_radius {
        return None;
    }
    let mut i: usize = lo;
    while i < hi
        invariant
            lo <= i <= hi <= points@.len(),
            forall|k: int| 0 <= k < points@.len() ==> (#[trigger] points@[k]).wf(),
            circle == window_circle(points@, lo as int),
            hi - lo >= 3,
            circle.center.x as int == spec_circum_x(points@[lo as int], points@[lo + 1], points@[lo + 2]),
            circle.center.y as int == spec_circum_y(points@[lo as int], points@[lo + 1], points@[lo + 2]),
            !collinear(points@[lo as int], points@[lo + 1], points@[lo + 2]),
            circle.radius >= 10 * tolerance,
            circle.radius as int == spec_dist(circle.center, points@[lo as int]),
            circle.center.wf(),
            0 <= circle.radius <= 3 * COORD_MAX,
            0 <= tolerance <= COORD_MAX,
            forall|k: int| lo <= k < i ==> radial_dev_ok(#[trigger] points@[k], circle, tolerance as int),
        decreases hi - i,
    {
        let d = dist(points[i], circle.center);
        let dev = crate::fixed::abs_i64(crate::fixed::sub_i64(d, circle.radius));
        if dev > tolerance {
            proof {
                assert(!radial_dev_ok(points@[i as int], circle, tolerance as int));
            }
            return None;
        }
        i += 1;
    }
    proof {
        assert(fit_window_ok(points@, lo as int, hi as int, tolerance as int));
    }
    Some(circle)
}

/// Build a circular arc from two endpoints on a fitted circle.
///
/// Each numerically fragile configuration is rejected: an empty chord or
/// radius, endpoints off the circle by more than a tenth of the radius, a
/// sweep angle whose tangent is below one hundredth, and a chord longer
/// than 1.9 radii (near-diameter arcs). The sweep flag takes the sign of
/// the cross product of the center-to-endpoint vectors; the large-arc flag
/// is set only for exactly opposite endpoints.
pub fn create_svg_arc_from_circle(from: Point, to: Point, circle: Circle) -> (r: Option<SvgArc>)
    requires
        from.wf(),
        to.wf(),
        circle.center.wf(),
        0 <= circle.radius <= 3 * COORD_MAX,
    ensures
        r is Some <==> !arc_gate_degenerate(from, to, circle) && !arc_gate_off_circle(from, to, circle)
            && !arc_gate_small_sweep(from, to, circle) && !arc_gate_near_diameter(from, to, circle),
        r matches Some(a) ==> {
            &&& a.from == from
            &&& a.to == to
            &&& a.rx == circle.radius
            &&& a.ry == circle.radius
            &&& a.x_rotation.cos == SCALE && a.x_rotation.sin == 0
            &&& a.flags.sweep <==> spec_center_cross(from, to, circle) >= 0
            &&& a.flags.large_arc <==> spec_center_cross(from, to, circle) == 0
                && spec_center_dot(from, to, circle) < 0
            &&& a.wf()
            &&& a.circular()
        },
{
    let chord = dist(to, from);
    if chord == 0 || circle.radius == 0 {
        proof {
            lemma_dist_symm(from, to);
        }
        return None;
    }
    let d_from = dist(from, circle.center);
    let d_to = dist(to, circle.center);
    let dev_from = crate::fixed::abs_i64(crate::fixed::sub_i64(d_from, circle.radius));
    let dev_to = crate::fixed::abs_i64(crate::fixed::sub_i64(d_to, circle.radius));
    if crate::fixed::mul_i128(dev_from, 10) > circle.radius as i128 || crate::fixed::mul_i128(
        dev_to,
        10,
    ) > circle.radius as i128 {
        proof {
            lemma_dist_symm(from, to);
        }
        return None;
    }
    let ux = crate::fixed::sub_i64(from.x, circle.center.x);
    let uy = crate::fixed::sub_i64(from.y, circle.center.y);
    let vx = crate::fixed::sub_i64(to.x, circle.center.x);
    let vy = crate::fixed::sub_i64(to.y, circle.center.y);
    proof {
        lemma_pair_products(ux as int, uy as int, vx as int, vy as int);
    }
    let cross: i128 = mul_i128(ux, vy) - mul_i128(uy, vx);
    let dot: i128 = mul_i128(ux, vx) + mul_i128(uy, vy);
    let cross_abs: i128 = if cross >= 0 {
        cross
    } else {
        -cross
    };
    if dot > 0 && 100 * cross_abs < dot {
        proof {
            lemma_dist_symm(from, to);
        }
        return None;
    }
    if 10 * (chord as i128) > 19 * (circle.radius as i128) {
        proof {
            lemma_dist_symm(from, to);
        }
        return None;
    }
    proof {
        lemma_dist_symm(from, to);
    }
    Some(
        SvgArc {
            from,
            to,
            rx: circle.radius,
            ry: circle.radius,
            x_rotation: Rotation { cos: SCALE, sin: 0 },
            flags: ArcFlags { large_arc: cross == 0 && dot < 0, sweep: cross >= 0 },
        },
    )
}

/// Empty chord or empty radius.
pub open spec fn arc_gate_degenerate(from: Point, to: Point, c: Circle) -> bool {
    spec_dist(from, to) == 0 || c.radius == 0
}

/// An endpoint sits off the circle by more than a tenth of the radius.
pub open spec fn arc_gate_off_circle(from: Point, to: Point, c: Circle) -> bool {
    ||| 10 * sabs(spec_dist(from, c.center) - c.radius) > c.radius as int
    ||| 10 * sabs(spec_dist(to, c.center) - c.radius) > c.radius as int
}

/// Cross product of the center-to-endpoint vectors.
pub open spec fn spec_center_cross(from: Point, to: Point, c: Circle) -> int {
    (from.x - c.center.x) * (to.y - c.center.y) - (from.y - c.center.y) * (to.x - c.center.x)
}

/// Dot product of the center-to-endpoint vectors.
pub open spec fn spec_center_dot(from: Point, to: Point, c: Circle) -> int {
    (from.x - c.center.x) * (to.x - c.center.x) + (from.y - c.center.y) * (to.y - c.center.y)
}

/// The sweep angle's tangent is below one hundredth: a nearly straight run.
pub open spec fn arc_gate_small_sweep(from: Point, to: Point, c: Circle) -> bool {
    spec_center_dot(from, to, c) > 0 && 100 * sabs(spec_center_cross(from, to, c))
        < spec_center_dot(from, to, c)
}

/// The chord exceeds 1.9 radii: a near-diameter configuration.
pub open spec fn arc_gate_near_diameter(from: Point, to: Point, c: Circle) -> bool {
    10 * spec_dist(from, to) > 19 * c.radius as int
}

/// All pairwise products of four bounded differences stay far inside the
/// 128-bit range.
pub proof fn lemma_pair_products(ax: int, ay: int, bx: int, by: int)
    requires
        sabs(ax) <= 2 * COORD_MAX as int,
        sabs(ay) <= 2 * COORD_MAX as int,
        sabs(bx) <= 2 * COORD_MAX as int,
        sabs(by) <= 2 * COORD_MAX as int,
    ensures
        sabs(ax * by) <= 0x34f086f3b33b684000000,
        sabs(ay * bx) <= 0x34f086f3b33b684000000,
        sabs(ax * bx) <= 0x34f086f3b33b684000000,
        sabs(ay * by) <= 0x34f086f3b33b684000000,
        sabs(ax * ax) <= 0x34f086f3b33b684000000,
        sabs(ay * ay) <= 0x34f086f3b33b684000000,
        sabs(bx * bx) <= 0x34f086f3b33b684000000,
        sabs(by * by) <= 0x34f086f3b33b684000000,
{
    let m = 2 * COORD_MAX as int;
    assert(m * m == 0x34f086f3b33b684000000) by (nonlinear_arith)
        requires
            m == 2 * COORD_MAX as int,
    ;
    crate::fixed::lemma_mul_bound(ax, by, m, m);
    crate::fixed::lemma_mul_bound(ay, bx, m, m);
    crate::fixed::lemma_mul_bound(ax, bx, m, m);
    crate::fixed::lemma_mul_bound(ay, by, m, m);
    crate::fixed::lemma_mul_bound(ax, ax, m, m);
    crate::fixed::lemma_mul_bound(ay, ay, m, m);
    crate::fixed::lemma_mul_bound(bx, bx, m, m);
    crate::fixed::lemma_mul_bound(by, by, m, m);
}

/// The start point of a flattening element.
pub open spec fn elem_from(e: ArcOrLineSegment) -> Point {
    match e {
        ArcOrLineSegment::Arc(a) => a.from,
        ArcOrLineSegment::Line(l) => l.from,
    }
}

/// The end point of a flattening element.
pub open spec fn elem_to(e: ArcOrLineSegment) -> Point {
    match e {
        ArcOrLineSegment::Arc(a) => a.to,
        ArcOrLineSegment::Line(l) => l.to,
    }
}

/// The elements run from `from` to `to` without gaps: each element starts
/// where the previous one ended.
pub open spec fn chain_ok(s: Seq<ArcOrLineSegment>, from: Point, to: Point) -> bool {
    &&& s.len() == 0 ==> from == to
    &&& s.len() > 0 ==> elem_from(s[0]) == from && elem_to(s[s.len() - 1]) == to
    &&& forall|j: int| 0 <= j < s.len() - 1 ==> elem_to(#[trigger] s[j]) == elem_from(s[j + 1])
}

/// Chains concatenate: a chain from `a` to `m` followed by one from `m` to
/// `b` is a chain from `a` to `b`.
pub proof fn lemma_chain_concat(
    s1: Seq<ArcOrLineSegment>,
    s2: Seq<ArcOrLineSegment>,
    a: Point,
    m: Point,
    b: Point,
)
    requires
        chain_ok(s1, a, m),
        chain_ok(s2, m, b),
    ensures
        chain_ok(s1 + s2, a, b),
{
    let s = s1 + s2;
    assert forall|j: int| 0 <= j < s.len() - 1 implies elem_to(#[trigger] s[j]) == elem_from(
        s[j + 1],
    ) by {
        if j < s1.len() - 1 {
            assert(s[j] == s1[j] && s[j + 1] == s1[j + 1]);
        } else if j == s1.len() - 1 {
            assert(s[j] == s1[j] && s[j + 1] == s2[0]);
        } else {
            assert(s[j] == s2[j - s1.len()] && s[j + 1] == s2[j - s1.len() + 1]);
        }
    }
    if s.len() > 0 {
        if s1.len() > 0 {
            assert(s[0] == s1[0]);
        } else {
            assert(s[0] == s2[0]);
        }
        if s2.len() > 0 {
            assert(s[s.len() - 1] == s2[s2.len() - 1]);
        } else {
            assert(s[s.len() - 1] == s1[s1.len() - 1]);
        }
    }
}

/// Appending an element that starts where the chain ends extends it.
pub proof fn lemma_chain_push(s: Seq<ArcOrLineSegment>, a: Point, m: Point, e: ArcOrLineSegment)
    requires
        chain_ok(s, a, m),
        elem_from(e) == m,
    ensures
        chain_ok(s.push(e), a, elem_to(e)),
{
    let s2 = s.push(e);
    assert(s2[s2.len() - 1] == e);
    if s.len() > 0 {
        assert(s2[0] == s[0]);
    }
    assert forall|j: int| 0 <= j < s2.len() - 1 implies elem_to(#[trigger] s2[j]) == elem_from(
        s2[j + 1],
    ) by {
        if j < s.len() - 1 {
            assert(s2[j] == s[j] && s2[j + 1] == s[j + 1]);
        } else {
            assert(s2[j] == s[s.len() - 1] && s2[j + 1] == e);
        }
    }
}

/// Every run of three consecutive points lies on one straight line.
pub open spec fn all_collinear(s: Seq<Point>) -> bool {
    forall|i: int|
        0 <= i && i + 2 < s.len() ==> #[trigger] collinear(s[i], s[i + 1], s[i + 2])
}

/// The circumcircle of three points, written with the same truncations the
/// executable code performs.
pub open spec fn tri_circle(p1: Point, p2: Point, p3: Point) -> Circle {
    let cx = spec_circum_x(p1, p2, p3);
    let cy = spec_circum_y(p1, p2, p3);
    let center = Point { x: cx as i64, y: cy as i64 };
    Circle { center, radius: spec_dist(center, p1) as i64 }
}

/// The circumcircle of the first three points of the window at `lo`.
pub open spec fn window_circle(s: Seq<Point>, lo: int) -> Circle {
    tri_circle(s[lo], s[lo + 1], s[lo + 2])
}

/// A successfully detected arc over the window `[lo, hi)` of `s`: the
/// circumcircle of the window's first three points is defined and no smaller
/// than ten tolerances, every window point lies on it radially within
/// tolerance, every construction gate passes, and the arc spans the window's
/// endpoints on that circle.
pub open spec fn window_arc_ok(s: Seq<Point>, lo: int, hi: int, tol: int, a: SvgArc) -> bool {
    let c = window_circle(s, lo);
    &&& 0 <= lo && lo + 3 <= hi <= s.len()
    &&& !collinear(s[lo], s[lo + 1], s[lo + 2])
    &&& sabs(spec_circum_x(s[lo], s[lo + 1], s[lo + 2])) <= COORD_MAX as int
    &&& sabs(spec_circum_y(s[lo], s[lo + 1], s[lo + 2])) <= COORD_MAX as int
    &&& 0 <= spec_dist(c.center, s[lo]) <= 3 * COORD_MAX as int
    &&& c.radius as int >= 10 * tol
    &&& forall|i: int| lo <= i < hi ==> radial_dev_ok(#[trigger] s[i], c, tol)
    &&& !arc_gate_degenerate(s[lo], s[hi - 1], c)
    &&& !arc_gate_off_circle(s[lo], s[hi - 1], c)
    &&& !arc_gate_small_sweep(s[lo], s[hi - 1], c)
    &&& !arc_gate_near_diameter(s[lo], s[hi - 1], c)
    &&& a.from == s[lo]
    &&& a.to == s[hi - 1]
    &&& a.rx == c.radius && a.ry == c.radius
    &&& a.circular()
    &&& a.wf()
}

/// The minimal candidate window at `start` detects an arc: the circle fit
/// succeeds over it and every construction gate passes for its endpoints on
/// the circumcircle.
pub open spec fn min_window_detects(s: Seq<Point>, start: int, mp: int, tol: int) -> bool {
    let hi = start + mp;
    let c = window_circle(s, start);
    &&& 0 <= start
    &&& start + mp <= s.len()
    &&& fit_window_ok(s, start, hi, tol)
    &&& !arc_gate_degenerate(s[start], s[hi - 1], c)
    &&& !arc_gate_off_circle(s[start], s[hi - 1], c)
    &&& !arc_gate_small_sweep(s[start], s[hi - 1], c)
    &&& !arc_gate_near_diameter(s[start], s[hi - 1], c)
}

/// Attempt to detect a circular arc starting at `start`: grow the candidate
/// window from `min_points` while the circle fit holds, and return how many
/// segments the detected arc replaces, together with the arc.
///
/// Exactly collinear leading points never yield an arc: the circle fit is
/// undefined for a collinear triple; a minimal window that fits and passes
/// every gate always yields one.
#[verifier::rlimit(50)]
pub fn detect_arc_starting_at(
    points: &Vec<Point>,
    start: usize,
    tolerance: i64,
    min_points: usize,
) -> (r: Option<(usize, SvgArc)>)
    requires
        start <= points@.len() < 0x10000000,
        forall|i: int| 0 <= i < points@.len() ==> (#[trigger] points@[i]).wf(),
        0 <= tolerance <= COORD_MAX,
        3 <= min_points <= 100000,
    ensures
        points@.len() - start < min_points ==> r is None,
        start + 2 < points@.len() && collinear(
            points@[start as int],
            points@[start + 1],
            points@[start + 2],
        ) ==> r is None,
        r matches Some((adv, arc)) ==> {
            &&& min_points - 1 <= adv
            &&& start + adv < points@.len()
            &&& window_arc_ok(points@, start as int, start + adv + 1, tolerance as int, arc)
        },
        min_window_detects(points@, start as int, min_points as int, tolerance as int) ==> r
            is Some,
{
    if points.len() - start < min_points {
        return None;
    }
    let mut end: usize = start + min_points;
    while end <= points.len()
        invariant
            start + min_points <= end <= points@.len() + 1,
            start + min_points <= points@.len(),
            points@.len() < 0x10000000,
            forall|i: int| 0 <= i < points@.len() ==> (#[trigger] points@[i]).wf(),
            0 <= tolerance <= COORD_MAX,
            3 <= min_points <= 100000,
            end > start + min_points ==> !min_window_detects(
                points@,
                start as int,
                min_points as int,
                tolerance as int,
            ),
        decreases points@.len() + 1 - end,
    {
        match fit_circle_to_points(points, start, end, tolerance) {
            Option::Some(circle) => {
                match create_svg_arc_from_circle(points[start], points[end - 1], circle) {
                    Option::Some(arc) => {
                        let adv = end - start - 1;
                        proof {
                            assert(circle == window_circle(points@, start as int));
                            assert(window_arc_ok(
                                points@,
                                start as int,
                                start + adv + 1,
                                tolerance as int,
                                arc,
                            ));
                        }
                        return Some((adv, arc));
                    },
                    Option::None => {
                        proof {
                            if end == start + min_points {
                                assert(circle == window_circle(points@, start as int));
                                assert(!min_window_detects(
                                    points@,
                                    start as int,
                                    min_points as int,
                                    tolerance as int,
                                ));
                            }
                        }
                    },
                }
            },
            Option::None => {
                if end > start + min_points {
                    match fit_circle_to_points(points, start, end - 1, tolerance) {
                        Option::Some(circle) => {
                            match create_svg_arc_from_circle(
                                points[start],
                                points[end - 2],
                                circle,
                            ) {
                                Option::Some(arc) => {
                                    let adv = end - start - 2;
                                    proof {
                                        assert(circle == window_circle(points@, start as int));
                                        assert(window_arc_ok(
                                            points@,
                                            start as int,
                                            start + adv + 1,
                                            tolerance as int,
                                            arc,
                                        ));
                                    }
                                    return Some((adv, arc));
                                },
                                Option::None => {},
                            }
                        },
                        Option::None => {},
                    }
                }
                return None;
            },
        }
        end += 1;
    }
    None
}

/// One element of a detection result is accounted for: a line is one input
/// segment, an arc is a successful window detection.
pub open spec fn detect_elem_ok(s: Seq<Point>, e: ArcOrLineSegment, tol: int) -> bool {
    &&& e matches ArcOrLineSegment::Line(l) ==> exists|i: int|
        0 <= i && i + 1 < s.len() && l.from == #[trigger] s[i] && l.to == s[i + 1]
    &&& e matches ArcOrLineSegment::Arc(a) ==> exists|lo: int, hi: int|
        #[trigger] window_arc_ok(s, lo, hi, tol, a)
}

proof fn lemma_elem_arc(s: Seq<Point>, lo: int, hi: int, tol: int, a: SvgArc)
    requires
        window_arc_ok(s, lo, hi, tol, a),
    ensures
        detect_elem_ok(s, ArcOrLineSegment::Arc(a), tol),
{
    let e = ArcOrLineSegment::Arc(a);
    match e {
        ArcOrLineSegment::Arc(a2) => {
            assert(a2 == a);
            assert(window_arc_ok(s, lo, hi, tol, a2));
            assert(exists|lo2: int, hi2: int| #[trigger] window_arc_ok(s, lo2, hi2, tol, a2));
        },
        ArcOrLineSegment::Line(_) => {},
    }
}

/// Detect circular arcs in a polyline: greedily replace runs of at least
/// `min_points` cocircular points by one arc, and emit every other segment
/// as a line.
///
/// Exactly collinear input never yields an arc.
#[verifier::rlimit(50)]
pub fn detect_polygon_arcs(points: &Vec<Point>, tolerance: i64, min_points: usize) -> (r: Vec<
    ArcOrLineSegment>)
    requires
        points@.len() < 0x10000000,
        forall|i: int| 0 <= i < points@.len() ==> (#[trigger] points@[i]).wf(),
        0 <= tolerance <= COORD_MAX,
        3 <= min_points <= 100000,
    ensures
        points@.len() < 2 ==> r@.len() == 0,
        points@.len() >= 2 ==> r@.len() >= 1,
        points@.len() >= 2 ==> chain_ok(r@, points@[0], points@[points@.len() - 1]),
        forall|j: int|
            0 <= j < r@.len() ==> detect_elem_ok(points@, #[trigger] r@[j], tolerance as int),
        all_collinear(points@) ==> forall|j: int| 0 <= j < r@.len() ==> (#[trigger] r@[j]) is Line,
{
    let mut result: Vec<ArcOrLineSegment> = Vec::new();
    if points.len() < 2 {
        return result;
    }
    let mut i: usize = 0;
    while i < points.len() - 1
        invariant
            points@.len() >= 2,
            points@.len() < 0x10000000,
            i <= points@.len() - 1,
            result@.len() == 0 <==> i == 0,
            chain_ok(result@, points@[0], points@[i as int]),
            forall|k: int| 0 <= k < points@.len() ==> (#[trigger] points@[k]).wf(),
            0 <= tolerance <= COORD_MAX,
            3 <= min_points <= 100000,
            forall|j: int|
                0 <= j < result@.len() ==> detect_elem_ok(
                    points@,
                    #[trigger] result@[j],
                    tolerance as int,
                ),
            all_collinear(points@) ==> forall|j: int|
                0 <= j < result@.len() ==> (#[trigger] result@[j]) is Line,
        decreases points@.len() - i,
    {
        match detect_arc_starting_at(points, i, tolerance, min_points) {
            Option::Some((adv, arc)) => {
                proof {
                    if all_collinear(points@) {
                        assert(collinear(points@[i as int], points@[i + 1], points@[i + 2]));
                        assert(false);
                    }
                    assert(window_arc_ok(points@, i as int, i + adv + 1, tolerance as int, arc));
                    lemma_elem_arc(points@, i as int, i + adv + 1, tolerance as int, arc);
                    lemma_chain_push(
                        result@,
                        points@[0],
                        points@[i as int],
                        ArcOrLineSegment::Arc(arc),
                    );
                }
                result.push(ArcOrLineSegment::Arc(arc));
                i += adv;
            },
            Option::None => {
                let seg = LineSegment { from: points[i], to: points[i + 1] };
                proof {
                    assert(0 <= i as int && i as int + 1 < points@.len() && seg.from == points@[
                    i as int] && seg.to == points@[i as int + 1]);
                    lemma_chain_push(
                        result@,
                        points@[0],
                        points@[i as int],
                        ArcOrLineSegment::Line(seg),
                    );
                }
                result.push(ArcOrLineSegment::Line(seg));
                i += 1;
            },
        }
    }
    result
}

/// Distance is symmetric.
pub proof fn lemma_dist_symm(p: Point, q: Point)
    ensures
        spec_dist(p, q) == spec_dist(q, p),
{
    assert((p.x - q.x) * (p.x - q.x) + (p.y - q.y) * (p.y - q.y) == (q.x - p.x) * (q.x - p.x) + (
    q.y - p.y) * (q.y - p.y)) by (nonlinear_arith);
}

} // verus!
