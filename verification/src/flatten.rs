//! Tolerance-bounded approximation of cubic Béziers and elliptical arcs
//! into circular arcs or line segments.
use vstd::prelude::*;
use crate::arcs::{
    chain_ok, elem_from, elem_to, lemma_chain_concat, spec_dist, ArcFlags, ArcOrLineSegment,
    LineSegment, Rotation, SvgArc,
};
use crate::fixed::{div_i128, div_t, div_tz, mul_i128, sabs, smul, sqrtf, SCALE};
use crate::geom::{dist, dist2, Point, COORD_MAX};

verus! {

/// A cubic Bézier segment.
#[derive(Clone, Copy, Debug, PartialEq, Eq, Structural)]
pub struct CubicBezierSegment {
    pub from: Point,
    pub ctrl1: Point,
    pub ctrl2: Point,
    pub to: Point,
}

impl CubicBezierSegment {
    pub open spec fn wf(self) -> bool {
        &&& self.from.wf()
        &&& self.ctrl1.wf()
        &&& self.ctrl2.wf()
        &&& self.to.wf()
    }
}

/// The abscissa of the curve point at parameter `i / 20`, truncating.
pub open spec fn spec_cubic_x20(c: CubicBezierSegment, i: int) -> int {
    div_t(
        (20 - i) * ((20 - i) * (20 - i)) * c.from.x + 3 * (i * ((20 - i) * (20 - i))) * c.ctrl1.x
            + 3 * ((20 - i) * (i * i)) * c.ctrl2.x + i * (i * i) * c.to.x,
        8000,
    )
}

/// The ordinate of the curve point at parameter `i / 20`, truncating.
pub open spec fn spec_cubic_y20(c: CubicBezierSegment, i: int) -> int {
    div_t(
        (20 - i) * ((20 - i) * (20 - i)) * c.from.y + 3 * (i * ((20 - i) * (20 - i))) * c.ctrl1.y
            + 3 * ((20 - i) * (i * i)) * c.ctrl2.y + i * (i * i) * c.to.y,
        8000,
    )
}

/// The curve point at parameter `i / 20`.
pub open spec fn spec_cubic_sample20(c: CubicBezierSegment, i: int) -> Point {
    Point { x: spec_cubic_x20(c, i) as i64, y: spec_cubic_y20(c, i) as i64 }
}

/// Evaluate one coordinate of the Bernstein form at `i / 20` exactly.
fn cubic_coord20(p0: i64, p1: i64, p2: i64, p3: i64, i: i64) -> (r: i64)
    requires
        0 <= i <= 20,
        sabs(p0 as int) <= COORD_MAX as int,
        sabs(p1 as int) <= COORD_MAX as int,
        sabs(p2 as int) <= COORD_MAX as int,
        sabs(p3 as int) <= COORD_MAX as int,
    ensures
        r as int == div_t(
            (20 - i) * ((20 - i) * (20 - i)) * p0 + 3 * (i * ((20 - i) * (20 - i))) * p1 + 3 * ((20
                - i) * (i * i)) * p2 + i * (i * i) * p3,
            8000,
        ),
        sabs(r as int) <= COORD_MAX as int,
{
    let u: i128 = (20 - i) as i128;
    let v: i128 = i as i128;
    proof {
        assert(0 <= u * u && u * u <= 400 && 0 <= v * v && v * v <= 400 && 0 <= u * (v * v) && u
            * (v * v) <= 8000 && 0 <= v * (u * u) && v * (u * u) <= 8000 && 0 <= u * (u * u) && u
            * (u * u) <= 8000 && 0 <= v * (v * v) && v * (v * v) <= 8000) by (nonlinear_arith)
            requires
                0 <= u <= 20,
                0 <= v <= 20,
        ;
    }
    let w0: i128 = u * (u * u);
    let w1: i128 = 3 * (v * (u * u));
    let w2: i128 = 3 * (u * (v * v));
    let w3: i128 = v * (v * v);
    proof {
        lemma_w_bounds(
            w0 as int,
            p0 as int,
            w1 as int,
            p1 as int,
            w2 as int,
            p2 as int,
            w3 as int,
            p3 as int,
        );
    }
    let num: i128 = w0 * (p0 as i128) + w1 * (p1 as i128) + w2 * (p2 as i128) + w3 * (p3 as i128);
    proof {
        lemma_bernstein20(
            u as int,
            v as int,
            p0 as int,
            p1 as int,
            p2 as int,
            p3 as int,
            num as int,
        );
    }
    let q = div_i128(num, 8000);
    proof {
        crate::fixed::lemma_div_t_mag(num as int, 8000);
        vstd::arithmetic::div_mod::lemma_div_is_ordered(
            sabs(num as int),
            8000 * COORD_MAX as int,
            8000,
        );
        assert(8000 * COORD_MAX as int / 8000 == COORD_MAX as int)
            by (nonlinear_arith);
    }
    q as i64
}

/// Weighted term bounds for the Bernstein combination.
proof fn lemma_w_bounds(
    w0: int,
    p0: int,
    w1: int,
    p1: int,
    w2: int,
    p2: int,
    w3: int,
    p3: int,
)
    requires
        0 <= w0 <= 8000,
        0 <= w1 <= 24000,
        0 <= w2 <= 24000,
        0 <= w3 <= 8000,
        sabs(p0) <= COORD_MAX as int,
        sabs(p1) <= COORD_MAX as int,
        sabs(p2) <= COORD_MAX as int,
        sabs(p3) <= COORD_MAX as int,
    ensures
        sabs(w0 * p0) <= w0 * COORD_MAX as int,
        sabs(w1 * p1) <= w1 * COORD_MAX as int,
        sabs(w2 * p2) <= w2 * COORD_MAX as int,
        sabs(w3 * p3) <= w3 * COORD_MAX as int,
        w0 * COORD_MAX as int <= 8000 * COORD_MAX as int,
        w1 * COORD_MAX as int <= 24000 * COORD_MAX as int,
        w2 * COORD_MAX as int <= 24000 * COORD_MAX as int,
        w3 * COORD_MAX as int <= 8000 * COORD_MAX as int,
{
    crate::fixed::lemma_mul_bound(w0, p0, w0, COORD_MAX as int);
    crate::fixed::lemma_mul_bound(w1, p1, w1, COORD_MAX as int);
    crate::fixed::lemma_mul_bound(w2, p2, w2, COORD_MAX as int);
    crate::fixed::lemma_mul_bound(w3, p3, w3, COORD_MAX as int);
    assert(w0 * COORD_MAX as int <= 8000 * COORD_MAX as int && w1 * COORD_MAX as int <= 24000
        * COORD_MAX as int && w2 * COORD_MAX as int <= 24000 * COORD_MAX as int && w3
        * COORD_MAX as int <= 8000 * COORD_MAX as int) by (nonlinear_arith)
        requires
            0 <= w0 <= 8000,
            0 <= w1 <= 24000,
            0 <= w2 <= 24000,
            0 <= w3 <= 8000,
            COORD_MAX as int >= 0,
    ;
}

/// Bernstein weights at a twentieth sum to 8000, so the affine combination
/// of bounded coordinates is bounded by 8000 times the coordinate bound.
proof fn lemma_bernstein20(u: int, v: int, p0: int, p1: int, p2: int, p3: int, num: int)
    requires
        0 <= u <= 20,
        0 <= v <= 20,
        u + v == 20,
        sabs(p0) <= COORD_MAX as int,
        sabs(p1) <= COORD_MAX as int,
        sabs(p2) <= COORD_MAX as int,
        sabs(p3) <= COORD_MAX as int,
        num == u * (u * u) * p0 + 3 * (v * (u * u)) * p1 + 3 * (u * (v * v)) * p2 + v * (v * v)
            * p3,
    ensures
        sabs(num) <= 8000 * COORD_MAX as int,
{
    let cc = COORD_MAX as int;
    let w0 = u * (u * u);
    let w1 = 3 * (v * (u * u));
    let w2 = 3 * (u * (v * v));
    let w3 = v * (v * v);
    assert(0 <= w0 && 0 <= w1 && 0 <= w2 && 0 <= w3 && w0 + w1 + w2 + w3 == 8000)
        by (nonlinear_arith)
        requires
            0 <= u <= 20,
            0 <= v <= 20,
            u + v == 20,
            w0 == u * (u * u),
            w1 == 3 * (v * (u * u)),
            w2 == 3 * (u * (v * v)),
            w3 == v * (v * v),
    ;
    crate::fixed::lemma_mul_bound(w0, p0, w0, cc);
    crate::fixed::lemma_mul_bound(w1, p1, w1, cc);
    crate::fixed::lemma_mul_bound(w2, p2, w2, cc);
    crate::fixed::lemma_mul_bound(w3, p3, w3, cc);
    assert(w0 * cc + w1 * cc + w2 * cc + w3 * cc == 8000 * cc) by (nonlinear_arith)
        requires
            w0 + w1 + w2 + w3 == 8000,
    ;
}

/// The curve point at parameter `i / 20`, executable.
pub fn cubic_sample20(c: &CubicBezierSegment, i: i64) -> (r: Point)
    requires
        c.wf(),
        0 <= i <= 20,
    ensures
        r == spec_cubic_sample20(*c, i as int),
        r.wf(),
{
    let x = cubic_coord20(c.from.x, c.ctrl1.x, c.ctrl2.x, c.to.x, i);
    let y = cubic_coord20(c.from.y, c.ctrl1.y, c.ctrl2.y, c.to.y, i);
    Point { x, y }
}

/// Truncating midpoint of two bounded coordinates.
fn mid_i64(a: i64, b: i64) -> (r: i64)
    requires
        sabs(a as int) <= COORD_MAX as int,
        sabs(b as int) <= COORD_MAX as int,
    ensures
        r as int == div_t(a + b, 2),
        sabs(r as int) <= COORD_MAX as int,
{
    let s: i128 = (a as i128) + (b as i128);
    let q = div_i128(s, 2);
    proof {
        crate::fixed::lemma_div_t_mag(s as int, 2);
        vstd::arithmetic::div_mod::lemma_div_is_ordered(
            sabs(s as int),
            2 * COORD_MAX as int,
            2,
        );
    }
    q as i64
}

/// The midpoint of two points, each coordinate truncating.
pub open spec fn spec_midpoint(p: Point, q: Point) -> Point {
    Point { x: div_t(p.x + q.x, 2) as i64, y: div_t(p.y + q.y, 2) as i64 }
}

fn midpoint(p: Point, q: Point) -> (r: Point)
    requires
        p.wf(),
        q.wf(),
    ensures
        r == spec_midpoint(p, q),
        r.wf(),
{
    Point { x: mid_i64(p.x, q.x), y: mid_i64(p.y, q.y) }
}

/// The two truncating de-Casteljau halves of a cubic.
pub open spec fn spec_split_half(c: CubicBezierSegment) -> (
    CubicBezierSegment,
    CubicBezierSegment,
) {
    let m01 = spec_midpoint(c.from, c.ctrl1);
    let m12 = spec_midpoint(c.ctrl1, c.ctrl2);
    let m23 = spec_midpoint(c.ctrl2, c.to);
    let m012 = spec_midpoint(m01, m12);
    let m123 = spec_midpoint(m12, m23);
    let m = spec_midpoint(m012, m123);
    (
        CubicBezierSegment { from: c.from, ctrl1: m01, ctrl2: m012, to: m },
        CubicBezierSegment { from: m, ctrl1: m123, ctrl2: m23, to: c.to },
    )
}

/// Whether `c` arises from `root` by at most `n` truncating de-Casteljau
/// halvings.
pub open spec fn desc_within(root: CubicBezierSegment, c: CubicBezierSegment, n: int) -> bool
    decreases n,
{
    if c == root {
        true
    } else if n <= 0 {
        false
    } else {
        desc_within(spec_split_half(root).0, c, n - 1) || desc_within(
            spec_split_half(root).1,
            c,
            n - 1,
        )
    }
}

/// Descent composes: a descendant of a descendant is a descendant, within
/// the summed budgets.
pub proof fn lemma_desc_trans(
    root: CubicBezierSegment,
    mid: CubicBezierSegment,
    c: CubicBezierSegment,
    a: int,
    b: int,
)
    requires
        a >= 0,
        b >= 0,
        desc_within(root, mid, a),
        desc_within(mid, c, b),
    ensures
        desc_within(root, c, a + b),
    decreases a,
{
    if mid == root {
        lemma_desc_mono(root, c, b, a + b);
    } else {
        if desc_within(spec_split_half(root).0, mid, a - 1) {
            lemma_desc_trans(spec_split_half(root).0, mid, c, a - 1, b);
        } else {
            lemma_desc_trans(spec_split_half(root).1, mid, c, a - 1, b);
        }
    }
}

/// Descent is monotone in its budget.
pub proof fn lemma_desc_mono(root: CubicBezierSegment, c: CubicBezierSegment, a: int, b: int)
    requires
        desc_within(root, c, a),
        a <= b,
    ensures
        desc_within(root, c, b),
    decreases a,
{
    if c != root && a > 0 {
        if desc_within(spec_split_half(root).0, c, a - 1) {
            lemma_desc_mono(spec_split_half(root).0, c, a - 1, b - 1);
        } else {
            lemma_desc_mono(spec_split_half(root).1, c, a - 1, b - 1);
        }
    }
}

/// De Casteljau split of a cubic at its parametric midpoint.
pub fn split_half(c: &CubicBezierSegment) -> (r: (CubicBezierSegment, CubicBezierSegment))
    requires
        c.wf(),
    ensures
        r == spec_split_half(*c),
        r.0.wf(),
        r.1.wf(),
        r.0.from == c.from,
        r.1.to == c.to,
        r.0.to == r.1.from,
{
    let m01 = midpoint(c.from, c.ctrl1);
    let m12 = midpoint(c.ctrl1, c.ctrl2);
    let m23 = midpoint(c.ctrl2, c.to);
    let m012 = midpoint(m01, m12);
    let m123 = midpoint(m12, m23);
    let m = midpoint(m012, m123);
    (
        CubicBezierSegment { from: c.from, ctrl1: m01, ctrl2: m012, to: m },
        CubicBezierSegment { from: m, ctrl1: m123, ctrl2: m23, to: c.to },
    )
}

/// Whether the whole curve lies within `tol` of its baseline: each control
/// point's cross product against the chord is at most `tol` times the chord
/// length.
pub open spec fn spec_linear_ok(c: CubicBezierSegment, tol: int) -> bool {
    let chord = spec_dist(c.from, c.to);
    &&& sabs(
        (c.to.x - c.from.x) * (c.ctrl1.y - c.from.y) - (c.to.y - c.from.y) * (c.ctrl1.x
            - c.from.x),
    ) <= tol * chord
    &&& sabs(
        (c.to.x - c.from.x) * (c.ctrl2.y - c.from.y) - (c.to.y - c.from.y) * (c.ctrl2.x
            - c.from.x),
    ) <= tol * chord
}

/// A circular arc `a` validated against the cubic `piece` through the
/// witness center `ct`: the arc's radius is the distance from the center to
/// the piece's start, the piece's end lies on the circle within tolerance,
/// and each of the nineteen interior samples of the piece lies on the
/// circle within tolerance radially.
pub open spec fn cubic_arc_witness(
    piece: CubicBezierSegment,
    a: SvgArc,
    ct: Point,
    tol: int,
) -> bool {
    &&& piece.from == a.from
    &&& piece.to == a.to
    &&& a.circular()
    &&& a.wf()
    &&& ct.wf()
    &&& a.rx as int == spec_dist(piece.from, ct)
    &&& sabs(spec_dist(piece.to, ct) - a.rx) < tol
    &&& forall|i: int|
        1 <= i < 20 ==> sabs(spec_dist(#[trigger] spec_cubic_sample20(piece, i), ct) - a.rx) < tol
}

/// An arc in a flattening result is accounted for: some cubic piece with the
/// arc's endpoints validates against it through some center.
pub open spec fn flat_arc_ok(a: SvgArc, tol: int) -> bool {
    exists|piece: CubicBezierSegment, ct: Point| #[trigger] cubic_arc_witness(piece, a, ct, tol)
}

/// One element of a flattening result: a line between in-range points, or a
/// validated circular arc.
pub open spec fn flat_elem_ok(e: ArcOrLineSegment, tol: int) -> bool {
    &&& e matches ArcOrLineSegment::Line(l) ==> l.from.wf() && l.to.wf()
    &&& e matches ArcOrLineSegment::Arc(a) ==> flat_arc_ok(a, tol)
}

/// An element of a flattening result, accounted against the source curve:
/// a line is the baseline of a descendant piece that either passed the
/// linearity gate or sat at the depth floor; an arc carries its
/// nineteen-sample validation witness against a descendant piece.
pub open spec fn flat_elem_of(
    root: CubicBezierSegment,
    e: ArcOrLineSegment,
    tol: int,
    d: int,
) -> bool {
    &&& e matches ArcOrLineSegment::Line(l) ==> exists|piece: CubicBezierSegment, n: int|
        0 <= n && #[trigger] desc_within(root, piece, n) && piece.from == l.from && piece.to
            == l.to && (spec_linear_ok(piece, tol) || n >= d)
    &&& e matches ArcOrLineSegment::Arc(a) ==> exists|piece: CubicBezierSegment, ct: Point, n: int|
        0 <= n && #[trigger] desc_within(root, piece, n) && #[trigger] cubic_arc_witness(
            piece,
            a,
            ct,
            tol,
        )
}

/// Lift an element's account from a half to the whole piece.
proof fn lemma_lift_elem(
    root: CubicBezierSegment,
    half: CubicBezierSegment,
    e: ArcOrLineSegment,
    tol: int,
    d: int,
)
    requires
        d >= 1,
        desc_within(root, half, 1),
        flat_elem_of(half, e, tol, d - 1),
    ensures
        flat_elem_of(root, e, tol, d),
{
    match e {
        ArcOrLineSegment::Line(l) => {
            let (piece, n): (CubicBezierSegment, int) = choose|
                piece: CubicBezierSegment,
                n: int,
            |
                0 <= n && #[trigger] desc_within(half, piece, n) && piece.from == l.from
                    && piece.to == l.to && (spec_linear_ok(piece, tol) || n >= d - 1);
            lemma_desc_trans(root, half, piece, 1, n);
            assert(0 <= n + 1 && desc_within(root, piece, n + 1) && piece.from == l.from
                && piece.to == l.to && (spec_linear_ok(piece, tol) || n + 1 >= d));
        },
        ArcOrLineSegment::Arc(a) => {
            let (piece, ct, n): (CubicBezierSegment, Point, int) = choose|
                piece: CubicBezierSegment,
                ct: Point,
                n: int,
            |
                0 <= n && #[trigger] desc_within(half, piece, n) && #[trigger] cubic_arc_witness(
                    piece,
                    a,
                    ct,
                    tol,
                );
            lemma_desc_trans(root, half, piece, 1, n);
            assert(0 <= n + 1 && desc_within(root, piece, n + 1) && cubic_arc_witness(
                piece,
                a,
                ct,
                tol,
            ));
        },
    }
}

/// A validated arc makes a valid flattening element.
proof fn lemma_flat_elem_arc(a: SvgArc, tol: int)
    requires
        flat_arc_ok(a, tol),
    ensures
        flat_elem_ok(ArcOrLineSegment::Arc(a), tol),
{
    let e = ArcOrLineSegment::Arc(a);
    match e {
        ArcOrLineSegment::Arc(a2) => {
            assert(a2 == a);
            let (piece, ct): (CubicBezierSegment, Point) = choose|piece: CubicBezierSegment, ct: Point|
                #[trigger] cubic_arc_witness(piece, a, ct, tol);
            assert(cubic_arc_witness(piece, a2, ct, tol));
            assert(flat_arc_ok(a2, tol));
        },
        ArcOrLineSegment::Line(_) => {},
    }
}

/// A line between in-range points makes a valid flattening element.
proof fn lemma_flat_elem_line(l: LineSegment, tol: int)
    requires
        l.from.wf(),
        l.to.wf(),
    ensures
        flat_elem_ok(ArcOrLineSegment::Line(l), tol),
{
    let e = ArcOrLineSegment::Line(l);
    match e {
        ArcOrLineSegment::Line(l2) => {
            assert(l2 == l);
        },
        ArcOrLineSegment::Arc(_) => {},
    }
}

/// The center of the circle matching two endpoint tangents: the incenter
/// of the endpoints and the tangents' intersection is taken, and the
/// perpendicular bisectors of each endpoint-to-incenter segment are
/// intersected. Parallel tangents — the collinear configuration, whose
/// tangent lines never meet — a degenerate triangle, or a center out of
/// range yield `None`.
fn arc_center_from_endpoints_and_tangents(
    from: Point,
    t1x: i64,
    t1y: i64,
    to: Point,
    t2x: i64,
    t2y: i64,
) -> (r: Option<Point>)
    requires
        from.wf(),
        to.wf(),
        sabs(t1x as int) <= 2 * COORD_MAX as int,
        sabs(t1y as int) <= 2 * COORD_MAX as int,
        sabs(t2x as int) <= 2 * COORD_MAX as int,
        sabs(t2y as int) <= 2 * COORD_MAX as int,
    ensures
        r matches Some(p) ==> p.wf(),
        (t1x as int) * (t2y as int) - (t1y as int) * (t2x as int) == 0 ==> r is None,
{
    proof {
        crate::arcs::lemma_pair_products(t1x as int, t1y as int, t2x as int, t2y as int);
    }
    let den: i128 = mul_i128(t1x, t2y) - mul_i128(t1y, t2x);
    if den == 0 {
        return None;
    }
    let wx = crate::fixed::sub_i64(to.x, from.x);
    let wy = crate::fixed::sub_i64(to.y, from.y);
    proof {
        crate::arcs::lemma_pair_products(wx as int, wy as int, t2x as int, t2y as int);
    }
    let sn: i128 = mul_i128(wx, t2y) - mul_i128(wy, t2x);
    let inter = match line_point_at(from, t1x, t1y, sn, den) {
        Option::Some(p) => p,
        Option::None => {
            return None;
        },
    };
    let ft = dist(from, to);
    let fi = dist(from, inter);
    let ti = dist(to, inter);
    let per: i64 = ft + fi + ti;
    if per == 0 {
        return None;
    }
    let incx = weighted3(from.x, ti, to.x, fi, inter.x, ft, per);
    let incy = weighted3(from.y, ti, to.y, fi, inter.y, ft, per);
    let (incx, incy) = match (incx, incy) {
        (Option::Some(x), Option::Some(y)) => (x, y),
        _ => {
            return None;
        },
    };
    let inc = Point { x: incx, y: incy };
    let m1 = midpoint(from, inc);
    let m2 = midpoint(to, inc);
    let d1x = crate::fixed::sub_i64(inc.y, from.y);
    let d1y = crate::fixed::sub_i64(from.x, inc.x);
    let d2x = crate::fixed::sub_i64(inc.y, to.y);
    let d2y = crate::fixed::sub_i64(to.x, inc.x);
    proof {
        crate::arcs::lemma_pair_products(d1x as int, d1y as int, d2x as int, d2y as int);
    }
    let den2: i128 = mul_i128(d1x, d2y) - mul_i128(d1y, d2x);
    if den2 == 0 {
        return None;
    }
    let mx = crate::fixed::sub_i64(m2.x, m1.x);
    let my = crate::fixed::sub_i64(m2.y, m1.y);
    proof {
        crate::arcs::lemma_pair_products(mx as int, my as int, d2x as int, d2y as int);
    }
    let sn2: i128 = mul_i128(mx, d2y) - mul_i128(my, d2x);
    line_point_at(m1, d1x, d1y, sn2, den2)
}

/// Fit one circular arc to a whole cubic piece, matching both endpoint
/// tangents, and validate it by sampling: the circle's center is found via
/// the incenter construction from the two tangent lines and the
/// perpendicular bisectors, and the fit is accepted only when all nineteen
/// interior samples of the piece lie on the circle within tolerance.
#[verifier::rlimit(100)]
fn fit_arc_cubic(c: &CubicBezierSegment, tolerance: i64) -> (r: Option<(SvgArc, Point)>)
    requires
        c.wf(),
        0 < tolerance <= COORD_MAX,
    ensures
        r matches Some((a, ct)) ==> {
            &&& cubic_arc_witness(*c, a, ct, tolerance as int)
            &&& a.from == c.from
            &&& a.to == c.to
            &&& a.circular()
            &&& a.wf()
        },
{
    let t1x = crate::fixed::sub_i64(c.ctrl1.x, c.from.x);
    let t1y = crate::fixed::sub_i64(c.ctrl1.y, c.from.y);
    let t2x = crate::fixed::sub_i64(c.to.x, c.ctrl2.x);
    let t2y = crate::fixed::sub_i64(c.to.y, c.ctrl2.y);
    let center = match arc_center_from_endpoints_and_tangents(
        c.from,
        t1x,
        t1y,
        c.to,
        t2x,
        t2y,
    ) {
        Option::Some(p) => p,
        Option::None => {
            return None;
        },
    };
    let radius = dist(c.from, center);
    if radius == 0 {
        return None;
    }
    let dev_to = crate::fixed::abs_i64(crate::fixed::sub_i64(dist(c.to, center), radius));
    if dev_to >= tolerance {
        return None;
    }
    let mut i: i64 = 1;
    while i < 20
        invariant
            1 <= i <= 20,
            c.wf(),
            center.wf(),
            0 <= radius <= 3 * COORD_MAX,
            0 < tolerance <= COORD_MAX,
            forall|k: int|
                1 <= k < i ==> sabs(
                    spec_dist(#[trigger] spec_cubic_sample20(*c, k), center) - radius,
                ) < tolerance,
        decreases 20 - i,
    {
        let p = cubic_sample20(c, i);
        let dev = crate::fixed::abs_i64(crate::fixed::sub_i64(dist(p, center), radius));
        if dev >= tolerance {
            return None;
        }
        i += 1;
    }
    let ux = crate::fixed::sub_i64(c.from.x, center.x);
    let uy = crate::fixed::sub_i64(c.from.y, center.y);
    let vx = crate::fixed::sub_i64(c.to.x, center.x);
    let vy = crate::fixed::sub_i64(c.to.y, center.y);
    proof {
        crate::arcs::lemma_pair_products(ux as int, uy as int, vx as int, vy as int);
    }
    let cross: i128 = mul_i128(ux, vy) - mul_i128(uy, vx);
    let dot: i128 = mul_i128(ux, vx) + mul_i128(uy, vy);
    let a = SvgArc {
        from: c.from,
        to: c.to,
        rx: radius,
        ry: radius,
        x_rotation: Rotation { cos: SCALE, sin: 0 },
        flags: ArcFlags { large_arc: cross == 0 && dot < 0, sweep: cross >= 0 },
    };
    proof {
        assert(cubic_arc_witness(*c, a, center, tolerance as int));
    }
    Some((a, center))
}

/// The point `origin + (num / den) * dir`, rejected when it leaves the
/// coordinate range.
fn line_point_at(origin: Point, dirx: i64, diry: i64, num: i128, den: i128) -> (r: Option<Point>)
    requires
        origin.wf(),
        den != 0,
        sabs(num as int) <= 0x69e10de76676d08000000,
        sabs(dirx as int) <= 2 * COORD_MAX as int,
        sabs(diry as int) <= 2 * COORD_MAX as int,
    ensures
        r matches Some(p) ==> p.wf(),
{
    proof {
        crate::fixed::lemma_mul_bound(
            num as int,
            dirx as int,
            0x69e10de76676d08000000,
            2 * COORD_MAX as int,
        );
        crate::fixed::lemma_mul_bound(
            num as int,
            diry as int,
            0x69e10de76676d08000000,
            2 * COORD_MAX as int,
        );
        assert(0x69e10de76676d08000000 * (2 * COORD_MAX as int)
            < 0x40000000000000000000000000000000) by (nonlinear_arith);
    }
    let qx = div_i128(num * (dirx as i128), den);
    let qy = div_i128(num * (diry as i128), den);
    let px: i128 = (origin.x as i128) + qx;
    let py: i128 = (origin.y as i128) + qy;
    if px > COORD_MAX as i128 || px < -(COORD_MAX as i128) || py > COORD_MAX as i128 || py < -(
    COORD_MAX as i128) {
        return None;
    }
    Some(Point { x: px as i64, y: py as i64 })
}

/// The weighted average `(a*wa + b*wb + c*wc) / wsum`, rejected when it
/// leaves the coordinate range.
fn weighted3(a: i64, wa: i64, b: i64, wb: i64, cv: i64, wc: i64, wsum: i64) -> (r: Option<i64>)
    requires
        wsum > 0,
        sabs(a as int) <= COORD_MAX as int,
        sabs(b as int) <= COORD_MAX as int,
        sabs(cv as int) <= COORD_MAX as int,
        0 <= wa <= 9 * COORD_MAX as int,
        0 <= wb <= 9 * COORD_MAX as int,
        0 <= wc <= 9 * COORD_MAX as int,
    ensures
        r matches Some(v) ==> sabs(v as int) <= COORD_MAX as int,
{
    proof {
        crate::fixed::lemma_mul_bound(a as int, wa as int, COORD_MAX as int, 9 * COORD_MAX as int);
        crate::fixed::lemma_mul_bound(b as int, wb as int, COORD_MAX as int, 9 * COORD_MAX as int);
        crate::fixed::lemma_mul_bound(cv as int, wc as int, COORD_MAX as int, 9 * COORD_MAX as int);
        assert(COORD_MAX as int * (9 * COORD_MAX as int) == 0x771d2fa45345aa9000000)
            by (nonlinear_arith);
    }
    let num: i128 = mul_i128(a, wa) + mul_i128(b, wb) + mul_i128(cv, wc);
    let q = div_i128(num, wsum as i128);
    if q > COORD_MAX as i128 || q < -(COORD_MAX as i128) {
        return None;
    }
    Some(q as i64)
}

/// Glue the results of flattening two halves: prefixes are preserved and
/// the two appended chains concatenate into one.
proof fn lemma_flatten_glue(
    pre: Seq<ArcOrLineSegment>,
    s_mid: Seq<ArcOrLineSegment>,
    s_fin: Seq<ArcOrLineSegment>,
    a: Point,
    m: Point,
    b: Point,
    tol: int,
)
    requires
        pre.len() <= s_mid.len() <= s_fin.len(),
        s_mid.subrange(0, pre.len() as int) == pre,
        s_fin.subrange(0, s_mid.len() as int) == s_mid,
        chain_ok(s_mid.subrange(pre.len() as int, s_mid.len() as int), a, m),
        chain_ok(s_fin.subrange(s_mid.len() as int, s_fin.len() as int), m, b),
        forall|j: int|
            pre.len() <= j < s_mid.len() ==> flat_elem_ok(#[trigger] s_mid[j], tol),
        forall|j: int|
            s_mid.len() <= j < s_fin.len() ==> flat_elem_ok(#[trigger] s_fin[j], tol),
    ensures
        s_fin.subrange(0, pre.len() as int) == pre,
        chain_ok(s_fin.subrange(pre.len() as int, s_fin.len() as int), a, b),
        forall|j: int|
            pre.len() <= j < s_fin.len() ==> flat_elem_ok(#[trigger] s_fin[j], tol),
{
    let n0 = pre.len() as int;
    let n1 = s_mid.len() as int;
    let n2 = s_fin.len() as int;
    assert forall|j: int| 0 <= j < n1 implies s_fin[j] == s_mid[j] by {
        assert(s_fin.subrange(0, n1)[j] == s_fin[j]);
    }
    assert(s_fin.subrange(0, n0) =~= pre);
    let s1 = s_mid.subrange(n0, n1);
    let s2 = s_fin.subrange(n1, n2);
    lemma_chain_concat(s1, s2, a, m, b);
    assert(s_fin.subrange(n0, n2) =~= s1 + s2);
    assert forall|j: int| n0 <= j < n2 implies flat_elem_ok(#[trigger] s_fin[j], tol) by {
        if j < n1 {
            assert(flat_elem_ok(s_mid[j], tol));
        }
    }
}

/// Recursive flattening of one cubic piece: a degenerate piece vanishes, a
/// linear piece becomes its baseline, a piece with a validated arc fit
/// becomes that arc, and any other piece is bisected at its parametric
/// midpoint. The depth bound is a defensive floor: a piece that still fits
/// nothing at depth zero becomes its baseline.
#[verifier::rlimit(100)]
fn flatten_cubic_rec(c: &CubicBezierSegment, tolerance: i64, depth: u32, acc: &mut Vec<
    ArcOrLineSegment>)
    requires
        c.wf(),
        0 < tolerance <= COORD_MAX,
    ensures
        final(acc)@.len() >= old(acc)@.len(),
        final(acc)@.subrange(0, old(acc)@.len() as int) == old(acc)@,
        c.from == c.to ==> final(acc)@ == old(acc)@,
        c.from != c.to && spec_linear_ok(*c, tolerance as int) ==> final(acc)@ == old(acc)@.push(
            ArcOrLineSegment::Line(LineSegment { from: c.from, to: c.to }),
        ),
        chain_ok(
            final(acc)@.subrange(old(acc)@.len() as int, final(acc)@.len() as int),
            c.from,
            c.to,
        ),
        forall|j: int|
            old(acc)@.len() <= j < final(acc)@.len() ==> flat_elem_ok(
                #[trigger] final(acc)@[j],
                tolerance as int,
            ),
        forall|j: int|
            old(acc)@.len() <= j < final(acc)@.len() ==> flat_elem_of(
                *c,
                #[trigger] final(acc)@[j],
                tolerance as int,
                depth as int,
            ),
    decreases depth,
{
    if c.from.x == c.to.x && c.from.y == c.to.y {
        proof {
            assert(final(acc)@.subrange(0, old(acc)@.len() as int) =~= old(acc)@);
        }
        return ;
    }
    if is_linear(c, tolerance) || depth == 0 {
        let ghost pre = acc@;
        acc.push(ArcOrLineSegment::Line(LineSegment { from: c.from, to: c.to }));
        proof {
            lemma_flat_elem_line(LineSegment { from: c.from, to: c.to }, tolerance as int);
            assert(desc_within(*c, *c, 0));
            assert(flat_elem_of(
                *c,
                ArcOrLineSegment::Line(LineSegment { from: c.from, to: c.to }),
                tolerance as int,
                depth as int,
            ));
            assert(acc@.subrange(0, pre.len() as int) =~= pre);
            assert(acc@.subrange(pre.len() as int, acc@.len() as int) =~= seq![
                ArcOrLineSegment::Line(LineSegment { from: c.from, to: c.to }),
            ]);
        }
        return ;
    }
    match fit_arc_cubic(c, tolerance) {
        Option::Some((arc, ct)) => {
            let ghost pre = acc@;
            proof {
                assert(cubic_arc_witness(*c, arc, ct, tolerance as int));
                assert(flat_arc_ok(arc, tolerance as int));
                lemma_flat_elem_arc(arc, tolerance as int);
                assert(desc_within(*c, *c, 0));
                assert(flat_elem_of(
                    *c,
                    ArcOrLineSegment::Arc(arc),
                    tolerance as int,
                    depth as int,
                ));
            }
            acc.push(ArcOrLineSegment::Arc(arc));
            proof {
                assert(acc@.subrange(0, pre.len() as int) =~= pre);
                assert(acc@.subrange(pre.len() as int, acc@.len() as int) =~= seq![
                    ArcOrLineSegment::Arc(arc),
                ]);
            }
        },
        Option::None => {
            let ghost pre = acc@;
            let halves = split_half(c);
            let m = halves.0.to;
            flatten_cubic_rec(&halves.0, tolerance, depth - 1, acc);
            let ghost mid1 = acc@;
            flatten_cubic_rec(&halves.1, tolerance, depth - 1, acc);
            proof {
                lemma_flatten_glue(pre, mid1, acc@, c.from, m, c.to, tolerance as int);
                assert(halves.0 == spec_split_half(*c).0);
                assert(halves.1 == spec_split_half(*c).1);
                assert(desc_within(spec_split_half(*c).0, halves.0, 0));
                assert(desc_within(spec_split_half(*c).1, halves.1, 0));
                assert(desc_within(*c, halves.0, 1));
                assert(desc_within(*c, halves.1, 1));
                assert forall|j: int| pre.len() <= j < acc@.len() implies flat_elem_of(
                    *c,
                    #[trigger] acc@[j],
                    tolerance as int,
                    depth as int,
                ) by {
                    if j < mid1.len() {
                        assert(acc@.subrange(0, mid1.len() as int)[j] == acc@[j]);
                        assert(acc@[j] == mid1[j]);
                        assert(flat_elem_of(halves.0, mid1[j], tolerance as int, depth - 1));
                        lemma_lift_elem(*c, halves.0, acc@[j], tolerance as int, depth as int);
                    } else {
                        assert(flat_elem_of(halves.1, acc@[j], tolerance as int, depth - 1));
                        lemma_lift_elem(*c, halves.1, acc@[j], tolerance as int, depth as int);
                    }
                }
            }
        },
    }
}

/// Defensive recursion ceiling for the flattening bisection.
pub const FLATTEN_MAX_DEPTH: u32 = 24;

impl CubicBezierSegment {
    /// Flatten this curve into circular arcs and line segments.
    ///
    /// A degenerate curve (coincident endpoints) flattens to nothing; a
    /// curve within tolerance of its baseline flattens to exactly that one
    /// line; anything else is covered by a gapless chain of validated arcs
    /// and lines from `from` to `to`.
    pub fn flattened(&self, tolerance: i64) -> (r: Vec<ArcOrLineSegment>)
        requires
            self.wf(),
            0 < tolerance <= COORD_MAX,
        ensures
            self.from == self.to ==> r@.len() == 0,
            self.from != self.to && spec_linear_ok(*self, tolerance as int) ==> r@ =~= seq![
                ArcOrLineSegment::Line(LineSegment { from: self.from, to: self.to }),
            ],
            chain_ok(r@, self.from, self.to),
            forall|j: int| 0 <= j < r@.len() ==> flat_elem_ok(#[trigger] r@[j], tolerance as int),
            forall|j: int|
                0 <= j < r@.len() ==> flat_elem_of(
                    *self,
                    #[trigger] r@[j],
                    tolerance as int,
                    FLATTEN_MAX_DEPTH as int,
                ),
    {
        let mut acc: Vec<ArcOrLineSegment> = Vec::new();
        flatten_cubic_rec(self, tolerance, FLATTEN_MAX_DEPTH, &mut acc);
        proof {
            assert(acc@.subrange(0, acc@.len() as int) =~= acc@);
        }
        acc
    }
}

/// Saturate a radius into the well-formed range.
pub fn clamp_radius(v: i64) -> (r: i64)
    ensures
        r as int == spec_clamp_radius(v as int),
        0 <= r <= 3 * COORD_MAX,
{
    if v < 0 {
        0
    } else if v > 3 * COORD_MAX {
        3 * COORD_MAX
    } else {
        v
    }
}

/// Clamp into the radius range `[0, 3 * COORD_MAX]`.
pub open spec fn spec_clamp_radius(v: int) -> int {
    if v < 0 {
        0
    } else if v > 3 * COORD_MAX as int {
        3 * COORD_MAX as int
    } else {
        v
    }
}

/// The first row pair of the radii-scaled linear map image of the arc's
/// axes: `rx * (a * cos + c * sin)`.
pub open spec fn spec_ma0(arc: SvgArc, t: crate::geom::AffineTransform) -> int {
    smul(
        arc.rx as int,
        crate::fixed::clamp_i64(
            smul(t.a as int, arc.x_rotation.cos as int) + smul(t.c as int, arc.x_rotation.sin as int),
        ),
    )
}

pub open spec fn spec_ma1(arc: SvgArc, t: crate::geom::AffineTransform) -> int {
    smul(
        arc.rx as int,
        crate::fixed::clamp_i64(
            smul(t.b as int, arc.x_rotation.cos as int) + smul(t.d as int, arc.x_rotation.sin as int),
        ),
    )
}

pub open spec fn spec_ma2(arc: SvgArc, t: crate::geom::AffineTransform) -> int {
    smul(
        arc.ry as int,
        crate::fixed::clamp_i64(
            smul(t.c as int, arc.x_rotation.cos as int) - smul(t.a as int, arc.x_rotation.sin as int),
        ),
    )
}

pub open spec fn spec_ma3(arc: SvgArc, t: crate::geom::AffineTransform) -> int {
    smul(
        arc.ry as int,
        crate::fixed::clamp_i64(
            smul(t.d as int, arc.x_rotation.cos as int) - smul(t.b as int, arc.x_rotation.sin as int),
        ),
    )
}

/// The first discriminant factor of the eigen-decomposition:
/// `(ma0 - ma3)^2 + (ma2 + ma1)^2`, zero exactly when the image circles one
/// way.
pub open spec fn spec_disc_f1(arc: SvgArc, t: crate::geom::AffineTransform) -> int {
    let d = spec_ma0(arc, t) - spec_ma3(arc, t);
    let e = spec_ma2(arc, t) + spec_ma1(arc, t);
    d * d + e * e
}

/// The second discriminant factor: `(ma0 + ma3)^2 + (ma2 - ma1)^2`.
pub open spec fn spec_disc_f2(arc: SvgArc, t: crate::geom::AffineTransform) -> int {
    let d = spec_ma0(arc, t) + spec_ma3(arc, t);
    let e = spec_ma2(arc, t) - spec_ma1(arc, t);
    d * d + e * e
}

/// The mean eigenvalue `(J + K) / 2` of the radii-scaled map times its
/// transpose.
pub open spec fn spec_mean_eigen(arc: SvgArc, t: crate::geom::AffineTransform) -> int {
    (spec_ma0(arc, t) * spec_ma0(arc, t) + spec_ma2(arc, t) * spec_ma2(arc, t) + spec_ma1(arc, t)
        * spec_ma1(arc, t) + spec_ma3(arc, t) * spec_ma3(arc, t)) / 2
}

impl SvgArc {
    /// The image of this arc under an affine map.
    ///
    /// Endpoints map directly. The new radii and axis rotation come from the
    /// eigen-decomposition of the radii-scaled linear part times its
    /// transpose: an exactly-zero discriminant factor means the image is a
    /// circle (no rotation); otherwise the eigenvalue square roots give the
    /// radii and the normalized eigenvector direction gives the rotation.
    /// The sweep flag flips exactly when the map mirrors the plane; the
    /// large-arc flag is untouched.
    #[verifier::rlimit(100)]
    pub fn transformed(&self, t: &crate::geom::AffineTransform) -> (r: SvgArc)
        requires
            self.wf(),
            t.wf(),
        ensures
            r.from.x as int == crate::geom::clampc(t.spec_apply_x(self.from.x as int, self.from.y as int)),
            r.from.y as int == crate::geom::clampc(t.spec_apply_y(self.from.x as int, self.from.y as int)),
            r.to.x as int == crate::geom::clampc(t.spec_apply_x(self.to.x as int, self.to.y as int)),
            r.to.y as int == crate::geom::clampc(t.spec_apply_y(self.to.x as int, self.to.y as int)),
            r.flags.large_arc == self.flags.large_arc,
            r.flags.sweep == (if (t.a as int) * (t.d as int) - (t.b as int) * (t.c as int) < 0 {
                !self.flags.sweep
            } else {
                self.flags.sweep
            }),
            r.wf(),
            t.b == 0 && t.c == 0 && t.a == t.d && t.a >= 0 && self.circular() ==> {
                &&& r.rx as int == spec_clamp_radius(smul(t.a as int, self.rx as int))
                &&& r.ry == r.rx
                &&& r.circular()
            },
            spec_disc_f1(*self, *t) == 0 || spec_disc_f2(*self, *t) == 0 ==> {
                &&& r.rx == r.ry
                &&& r.rx as int == spec_clamp_radius(
                    crate::fixed::sqrtf(spec_mean_eigen(*self, *t)),
                )
                &&& r.x_rotation.cos == SCALE && r.x_rotation.sin == 0
            },
    {
        let from = t.transform_point(self.from);
        let to = t.transform_point(self.to);
        let cosr = self.x_rotation.cos;
        let sinr = self.x_rotation.sin;
        proof {
            crate::fixed::lemma_mul_div_bound(t.a as int, cosr as int, SCALE as int, crate::geom::LINEAR_MAX as int, SCALE as int);
            crate::fixed::lemma_mul_div_bound(t.b as int, cosr as int, SCALE as int, crate::geom::LINEAR_MAX as int, SCALE as int);
            crate::fixed::lemma_mul_div_bound(t.c as int, cosr as int, SCALE as int, crate::geom::LINEAR_MAX as int, SCALE as int);
            crate::fixed::lemma_mul_div_bound(t.d as int, cosr as int, SCALE as int, crate::geom::LINEAR_MAX as int, SCALE as int);
            crate::fixed::lemma_mul_div_bound(t.a as int, sinr as int, SCALE as int, crate::geom::LINEAR_MAX as int, SCALE as int);
            crate::fixed::lemma_mul_div_bound(t.b as int, sinr as int, SCALE as int, crate::geom::LINEAR_MAX as int, SCALE as int);
            crate::fixed::lemma_mul_div_bound(t.c as int, sinr as int, SCALE as int, crate::geom::LINEAR_MAX as int, SCALE as int);
            crate::fixed::lemma_mul_div_bound(t.d as int, sinr as int, SCALE as int, crate::geom::LINEAR_MAX as int, SCALE as int);
        }
        let ac = crate::fixed::mul_div_i64(t.a, cosr, SCALE);
        let bc = crate::fixed::mul_div_i64(t.b, cosr, SCALE);
        let cc = crate::fixed::mul_div_i64(t.c, cosr, SCALE);
        let dc = crate::fixed::mul_div_i64(t.d, cosr, SCALE);
        let as_ = crate::fixed::mul_div_i64(t.a, sinr, SCALE);
        let bs = crate::fixed::mul_div_i64(t.b, sinr, SCALE);
        let cs = crate::fixed::mul_div_i64(t.c, sinr, SCALE);
        let ds = crate::fixed::mul_div_i64(t.d, sinr, SCALE);
        let e0 = crate::fixed::add_i64(ac, cs);
        let e1 = crate::fixed::add_i64(bc, ds);
        let e2 = crate::fixed::sub_i64(cc, as_);
        let e3 = crate::fixed::sub_i64(dc, bs);
        proof {
            crate::fixed::lemma_mul_div_bound(self.rx as int, e0 as int, SCALE as int, 3 * COORD_MAX as int, 2 * crate::geom::LINEAR_MAX as int);
            crate::fixed::lemma_mul_div_bound(self.rx as int, e1 as int, SCALE as int, 3 * COORD_MAX as int, 2 * crate::geom::LINEAR_MAX as int);
            crate::fixed::lemma_mul_div_bound(self.ry as int, e2 as int, SCALE as int, 3 * COORD_MAX as int, 2 * crate::geom::LINEAR_MAX as int);
            crate::fixed::lemma_mul_div_bound(self.ry as int, e3 as int, SCALE as int, 3 * COORD_MAX as int, 2 * crate::geom::LINEAR_MAX as int);
        }
        let ma0 = crate::fixed::mul_div_i64(self.rx, e0, SCALE);
        let ma1 = crate::fixed::mul_div_i64(self.rx, e1, SCALE);
        let ma2 = crate::fixed::mul_div_i64(self.ry, e2, SCALE);
        let ma3 = crate::fixed::mul_div_i64(self.ry, e3, SCALE);
        proof {
            let mm = 60_000_000_000_000_000int;
            crate::geom::lemma_sq_bound(ma0 as int, mm);
            crate::geom::lemma_sq_bound(ma1 as int, mm);
            crate::geom::lemma_sq_bound(ma2 as int, mm);
            crate::geom::lemma_sq_bound(ma3 as int, mm);
            crate::fixed::lemma_mul_bound(ma0 as int, ma1 as int, mm, mm);
            crate::fixed::lemma_mul_bound(ma2 as int, ma3 as int, mm, mm);
            assert(mm * mm == 0xb17e635d30decc51ae2400000000) by (nonlinear_arith)
                requires
                    mm == 60_000_000_000_000_000int,
            ;
        }
        let jj: i128 = mul_i128(ma0, ma0) + mul_i128(ma2, ma2);
        let kk: i128 = mul_i128(ma1, ma1) + mul_i128(ma3, ma3);
        let f1a = crate::fixed::sub_i64(ma0, ma3);
        let f1b = crate::fixed::add_i64(ma2, ma1);
        let f2a = crate::fixed::add_i64(ma0, ma3);
        let f2b = crate::fixed::sub_i64(ma2, ma1);
        proof {
            let mm2 = 120_000_000_000_000_000int;
            crate::geom::lemma_sq_bound(f1a as int, mm2);
            crate::geom::lemma_sq_bound(f1b as int, mm2);
            crate::geom::lemma_sq_bound(f2a as int, mm2);
            crate::geom::lemma_sq_bound(f2b as int, mm2);
            assert(mm2 * mm2 == 0x2c5f98d74c37b3146b89000000000) by (nonlinear_arith)
                requires
                    mm2 == 120_000_000_000_000_000int,
            ;
        }
        let ff1: i128 = mul_i128(f1a, f1a) + mul_i128(f1b, f1b);
        let ff2: i128 = mul_i128(f2a, f2a) + mul_i128(f2b, f2b);
        let jk: i128 = (jj + kk) / 2;
        proof {
            assert(ma0 as int == spec_ma0(*self, *t));
            assert(ma1 as int == spec_ma1(*self, *t));
            assert(ma2 as int == spec_ma2(*self, *t));
            assert(ma3 as int == spec_ma3(*self, *t));
            assert(ff1 as int == spec_disc_f1(*self, *t));
            assert(ff2 as int == spec_disc_f2(*self, *t));
            assert(jk as int == spec_mean_eigen(*self, *t));
        }
        let (new_radii_x, new_radii_y, new_rot) = if ff1 == 0 || ff2 == 0 {
            // the image is exactly a circle
            let rad = crate::fixed::isqrt_u128(jk as u128);
            proof {
                crate::fixed::lemma_sqrtf(jk as int, rad as int);
            }
            (clamp_radius(rad as i64), clamp_radius(rad as i64), Rotation { cos: SCALE, sin: 0 })
        } else {
            let s1 = crate::fixed::isqrt_u128(ff1 as u128);
            let s2 = crate::fixed::isqrt_u128(ff2 as u128);
            proof {
                let bnd = 170_000_000_000_000_000int;
                assert(bnd * bnd == 0x590e14856c851e83a60a100000000) by (nonlinear_arith)
                    requires
                        bnd == 170_000_000_000_000_000int,
                ;
                assert(s1 as int <= bnd) by (nonlinear_arith)
                    requires
                        (s1 as int) * (s1 as int) <= ff1 as int,
                        ff1 as int <= bnd * bnd,
                        s1 as int >= 0,
                        bnd >= 0,
                ;
                assert(s2 as int <= bnd) by (nonlinear_arith)
                    requires
                        (s2 as int) * (s2 as int) <= ff2 as int,
                        ff2 as int <= bnd * bnd,
                        s2 as int >= 0,
                        bnd >= 0,
                ;
                crate::fixed::lemma_mul_bound(s1 as int, s2 as int, bnd, bnd);
            }
            let dsq: i128 = (s1 as i128) * (s2 as i128);
            let l1: i128 = jk + dsq / 2;
            let l2: i128 = if jk >= dsq / 2 {
                jk - dsq / 2
            } else {
                0
            };
            let rx2 = crate::fixed::isqrt_u128(l1 as u128);
            let ry2 = crate::fixed::isqrt_u128(l2 as u128);
            let ll: i128 = mul_i128(ma0, ma1) + mul_i128(ma2, ma3);
            let lk_gap: i128 = l1 - kk;
            let rot = if ll == 0 && lk_gap == 0 {
                Rotation { cos: 0, sin: SCALE }
            } else {
                let labs: i128 = if ll >= 0 {
                    ll
                } else {
                    -ll
                };
                let gabs: i128 = if lk_gap >= 0 {
                    lk_gap
                } else {
                    -lk_gap
                };
                let (dx, dy) = if labs > gabs {
                    (ll, l1 - jj)
                } else {
                    (lk_gap, ll)
                };
                normalize_direction(dx, dy)
            };
            (clamp_radius(rx2 as i64), clamp_radius(ry2 as i64), rot)
        };
        proof {
            if t.b == 0 && t.c == 0 && t.a == t.d && t.a >= 0 && self.circular() {
                crate::fixed::lemma_smul_one(t.a as int);
                crate::fixed::lemma_smul_one(t.b as int);
                crate::fixed::lemma_smul_one(t.c as int);
                crate::fixed::lemma_smul_one(t.d as int);
                crate::fixed::lemma_smul_zero(t.a as int);
                crate::fixed::lemma_smul_zero(t.b as int);
                crate::fixed::lemma_smul_zero(t.c as int);
                crate::fixed::lemma_smul_zero(t.d as int);
                crate::fixed::lemma_smul_zero(self.rx as int);
                crate::fixed::lemma_smul_zero(self.ry as int);
                assert(e0 == t.a && e1 == 0 && e2 == 0 && e3 == t.a);
                assert(ma0 as int == smul(self.rx as int, t.a as int));
                assert(ma1 == 0 && ma2 == 0 && ma3 == ma0);
                assert(ff1 as int == 0) by (nonlinear_arith)
                    requires
                        f1a == 0,
                        f1b == 0,
                        ff1 == (f1a as int) * (f1a as int) + (f1b as int) * (f1b as int),
                ;
                assert(jk as int == (ma0 as int) * (ma0 as int)) by (nonlinear_arith)
                    requires
                        jj == (ma0 as int) * (ma0 as int) + (ma2 as int) * (ma2 as int),
                        kk == (ma1 as int) * (ma1 as int) + (ma3 as int) * (ma3 as int),
                        ma1 == 0,
                        ma2 == 0,
                        ma3 == ma0,
                        jk == (jj + kk) / 2,
                ;
                assert(ma0 >= 0) by {
                    crate::fixed::lemma_mul_div_bound(self.rx as int, t.a as int, SCALE as int, 3 * COORD_MAX as int, crate::geom::LINEAR_MAX as int);
                    assert((self.rx as int) * (t.a as int) >= 0) by (nonlinear_arith)
                        requires
                            self.rx >= 0,
                            t.a >= 0,
                    ;
                    crate::fixed::lemma_div_t_mag((self.rx as int) * (t.a as int), SCALE as int);
                };
                assert(crate::fixed::is_isqrt((ma0 as int) * (ma0 as int), ma0 as int)) by {
                    assert((ma0 as int + 1) * (ma0 as int + 1) > (ma0 as int) * (ma0 as int))
                        by (nonlinear_arith)
                        requires
                            ma0 >= 0,
                    ;
                };
                crate::fixed::lemma_sqrtf((ma0 as int) * (ma0 as int), ma0 as int);
                assert(smul(t.a as int, self.rx as int) == smul(self.rx as int, t.a as int)) by {
                    assert((t.a as int) * (self.rx as int) == (self.rx as int) * (t.a as int))
                        by (nonlinear_arith);
                };
                assert(crate::fixed::sqrtf(jk as int) == ma0 as int);
                assert(new_radii_x as int == spec_clamp_radius(smul(t.a as int, self.rx as int)));
                assert(new_radii_y == new_radii_x);
                assert(new_rot.cos == SCALE && new_rot.sin == 0);
            }
        }
        SvgArc {
            from,
            to,
            rx: new_radii_x,
            ry: new_radii_y,
            x_rotation: new_rot,
            flags: ArcFlags {
                large_arc: self.flags.large_arc,
                sweep: if t.flips_orientation() {
                    !self.flags.sweep
                } else {
                    self.flags.sweep
                },
            },
        }
    }
}

/// Normalize a (possibly huge) direction vector into rotation components:
/// first coarsely by the scale-quotient of its larger coordinate, then
/// exactly by the integer square root of the reduced squared length.
fn normalize_direction(dx: i128, dy: i128) -> (r: Rotation)
    requires
        sabs(dx as int) < 0x40000000000000000000000000000000,
        sabs(dy as int) < 0x40000000000000000000000000000000,
    ensures
        sabs(r.cos as int) <= SCALE as int,
        sabs(r.sin as int) <= SCALE as int,
{
    let madx: i128 = if dx >= 0 {
        dx
    } else {
        -dx
    };
    let mady: i128 = if dy >= 0 {
        dy
    } else {
        -dy
    };
    let m: i128 = if madx > mady {
        madx
    } else {
        mady
    };
    if m == 0 {
        return Rotation { cos: SCALE, sin: 0 };
    }
    let mut k: i128 = m / (SCALE as i128);
    if k < 1 {
        k = 1;
    }
    let x1w = div_i128(dx, k);
    let y1w = div_i128(dy, k);
    let x1: i64 = clamp_pm_2s(x1w);
    let y1: i64 = clamp_pm_2s(y1w);
    proof {
        crate::geom::lemma_sq_bound(x1 as int, 2 * SCALE as int);
        crate::geom::lemma_sq_bound(y1 as int, 2 * SCALE as int);
        assert((2 * SCALE as int) * (2 * SCALE as int) == 4000000000000) by (nonlinear_arith);
    }
    let n2: i128 = mul_i128(x1, x1) + mul_i128(y1, y1);
    if n2 == 0 {
        return Rotation { cos: SCALE, sin: 0 };
    }
    let n = crate::fixed::isqrt_u128(n2 as u128);
    proof {
        assert(n as int >= 1) by (nonlinear_arith)
            requires
                (n as int + 1) * (n as int + 1) > n2 as int,
                n2 >= 1,
                n >= 0,
        ;
    }
    let cosv = crate::fixed::mul_div_i64(x1, SCALE, n as i64);
    let sinv = crate::fixed::mul_div_i64(y1, SCALE, n as i64);
    Rotation { cos: clamp_pm_s(cosv), sin: clamp_pm_s(sinv) }
}

/// Saturate into twice the unit scale.
fn clamp_pm_2s(v: i128) -> (r: i64)
    ensures
        sabs(r as int) <= 2 * SCALE as int,
{
    if v > 2 * SCALE as i128 {
        2 * SCALE
    } else if v < -(2 * SCALE as i128) {
        -(2 * SCALE)
    } else {
        v as i64
    }
}

/// Saturate into the unit scale.
fn clamp_pm_s(v: i64) -> (r: i64)
    ensures
        sabs(r as int) <= SCALE as int,
        sabs(v as int) <= SCALE as int ==> r == v,
{
    if v > SCALE {
        SCALE
    } else if v < -SCALE {
        -SCALE
    } else {
        v
    }
}

/// A validated flattening element has in-range endpoints, and its arcs are
/// circular.
pub proof fn lemma_flat_elem_emittable(e: ArcOrLineSegment, tol: int)
    requires
        flat_elem_ok(e, tol),
    ensures
        crate::emit::piece_emittable(e),
{
    match e {
        ArcOrLineSegment::Arc(a) => {
            assert(flat_arc_ok(a, tol));
            let (piece, ct): (CubicBezierSegment, Point) = choose|
                piece: CubicBezierSegment,
                ct: Point,
            | #[trigger] cubic_arc_witness(piece, a, ct, tol);
            assert(cubic_arc_witness(piece, a, ct, tol));
        },
        ArcOrLineSegment::Line(_) => {},
    }
}

/// Likewise for elements of an elliptical flattening.
pub proof fn lemma_ell_elem_emittable(e: ArcOrLineSegment, tol: int)
    requires
        ell_elem_ok(e, tol),
    ensures
        crate::emit::piece_emittable(e),
{
    match e {
        ArcOrLineSegment::Arc(a) => {
            assert(ell_arc_ok(a, tol));
            let (m, samples): (Point, Seq<Point>) = choose|m: Point, samples: Seq<Point>|
                #[trigger] ell_arc_witness(a, m, samples, tol);
            assert(ell_arc_witness(a, m, samples, tol));
        },
        ArcOrLineSegment::Line(_) => {},
    }
}

/// An ellipse in center parameterization: center, semi-axes, axis rotation.
struct EllipseFrame {
    cx: i64,
    cy: i64,
    rx: i64,
    ry: i64,
    cosr: i64,
    sinr: i64,
}

impl EllipseFrame {
    spec fn wf(self) -> bool {
        &&& sabs(self.cx as int) <= COORD_MAX as int
        &&& sabs(self.cy as int) <= COORD_MAX as int
        &&& 0 < self.rx <= 3 * COORD_MAX
        &&& 0 < self.ry <= 3 * COORD_MAX
        &&& sabs(self.cosr as int) <= SCALE as int
        &&& sabs(self.sinr as int) <= SCALE as int
    }
}

/// The ellipse point whose rotated-frame unit direction is `(ux, uy)`.
fn ell_point(f: &EllipseFrame, ux: i64, uy: i64) -> (r: Point)
    requires
        f.wf(),
        sabs(ux as int) <= SCALE as int,
        sabs(uy as int) <= SCALE as int,
    ensures
        r.wf(),
{
    let ax = crate::fixed::mul_div_i64(f.rx, ux, SCALE);
    let ay = crate::fixed::mul_div_i64(f.ry, uy, SCALE);
    let xr = crate::fixed::sub_i64(
        crate::fixed::mul_div_i64(f.cosr, ax, SCALE),
        crate::fixed::mul_div_i64(f.sinr, ay, SCALE),
    );
    let yr = crate::fixed::add_i64(
        crate::fixed::mul_div_i64(f.sinr, ax, SCALE),
        crate::fixed::mul_div_i64(f.cosr, ay, SCALE),
    );
    Point {
        x: crate::geom::clamp_coord(crate::fixed::add_i64(f.cx, xr)),
        y: crate::geom::clamp_coord(crate::fixed::add_i64(f.cy, yr)),
    }
}

/// The normalized bisector of two unit directions; `None` for opposite
/// directions.
fn unit_bisector(u1x: i64, u1y: i64, u2x: i64, u2y: i64, negate: bool) -> (r: Option<(i64, i64)>)
    requires
        sabs(u1x as int) <= SCALE as int,
        sabs(u1y as int) <= SCALE as int,
        sabs(u2x as int) <= SCALE as int,
        sabs(u2y as int) <= SCALE as int,
    ensures
        r matches Some((bx, by)) ==> sabs(bx as int) <= SCALE as int && sabs(by as int)
            <= SCALE as int,
{
    let sx = u1x + u2x;
    let sy = u1y + u2y;
    if sx == 0 && sy == 0 {
        return None;
    }
    proof {
        crate::geom::lemma_sq_bound(sx as int, 2 * SCALE as int);
        crate::geom::lemma_sq_bound(sy as int, 2 * SCALE as int);
        assert((2 * SCALE as int) * (2 * SCALE as int) == 4000000000000) by (nonlinear_arith);
    }
    let n2: i128 = mul_i128(sx, sx) + mul_i128(sy, sy);
    proof {
        assert(n2 >= 1) by (nonlinear_arith)
            requires
                sx != 0 || sy != 0,
                n2 == (sx as int) * (sx as int) + (sy as int) * (sy as int),
        ;
    }
    let n = crate::fixed::isqrt_u128(n2 as u128);
    proof {
        assert(n as int >= 1) by (nonlinear_arith)
            requires
                (n as int + 1) * (n as int + 1) > n2 as int,
                n2 >= 1,
                n >= 0,
        ;
    }
    let bx = clamp_pm_s(crate::fixed::mul_div_i64(sx, SCALE, n as i64));
    let by = clamp_pm_s(crate::fixed::mul_div_i64(sy, SCALE, n as i64));
    if negate {
        Some((-bx, -by))
    } else {
        Some((bx, by))
    }
}

/// An arc emitted by the elliptical flattening, validated through a
/// sampled midpoint and a dyadic interior sample set: the circle through
/// the endpoints and the midpoint exists, every one of the fifteen interior
/// samples lies on it radially within tolerance, and every construction
/// gate passes.
pub open spec fn ell_arc_witness(a: SvgArc, m: Point, samples: Seq<Point>, tol: int) -> bool {
    let c = crate::arcs::tri_circle(a.from, m, a.to);
    &&& !crate::arcs::collinear(a.from, m, a.to)
    &&& sabs(crate::arcs::spec_circum_x(a.from, m, a.to)) <= COORD_MAX as int
    &&& sabs(crate::arcs::spec_circum_y(a.from, m, a.to)) <= COORD_MAX as int
    &&& 0 <= spec_dist(c.center, a.from) <= 3 * COORD_MAX as int
    &&& samples.len() == 15
    &&& forall|i: int| 0 <= i < samples.len() ==> crate::arcs::radial_dev_ok(#[trigger] samples[i], c, tol)
    &&& !crate::arcs::arc_gate_degenerate(a.from, a.to, c)
    &&& !crate::arcs::arc_gate_off_circle(a.from, a.to, c)
    &&& !crate::arcs::arc_gate_small_sweep(a.from, a.to, c)
    &&& !crate::arcs::arc_gate_near_diameter(a.from, a.to, c)
    &&& a.rx == c.radius
    &&& a.ry == c.radius
    &&& a.circular()
    &&& a.wf()
}

/// An arc of an elliptical flattening is accounted for through some sampled
/// witness points.
pub open spec fn ell_arc_ok(a: SvgArc, tol: int) -> bool {
    exists|m: Point, samples: Seq<Point>| #[trigger] ell_arc_witness(a, m, samples, tol)
}

/// One element of an elliptical flattening result.
pub open spec fn ell_elem_ok(e: ArcOrLineSegment, tol: int) -> bool {
    &&& e matches ArcOrLineSegment::Line(l) ==> l.from.wf() && l.to.wf()
    &&& e matches ArcOrLineSegment::Arc(a) ==> ell_arc_ok(a, tol)
}

proof fn lemma_ell_elem_arc(a: SvgArc, m: Point, samples: Seq<Point>, tol: int)
    requires
        ell_arc_witness(a, m, samples, tol),
    ensures
        ell_elem_ok(ArcOrLineSegment::Arc(a), tol),
{
    let e = ArcOrLineSegment::Arc(a);
    match e {
        ArcOrLineSegment::Arc(a2) => {
            assert(a2 == a);
            assert(ell_arc_witness(a2, m, samples, tol));
            assert(ell_arc_ok(a2, tol));
        },
        ArcOrLineSegment::Line(_) => {},
    }
}

proof fn lemma_ell_elem_line(l: LineSegment, tol: int)
    requires
        l.from.wf(),
        l.to.wf(),
    ensures
        ell_elem_ok(ArcOrLineSegment::Line(l), tol),
{
    let e = ArcOrLineSegment::Line(l);
    match e {
        ArcOrLineSegment::Line(l2) => {
            assert(l2 == l);
        },
        ArcOrLineSegment::Arc(_) => {},
    }
}

/// The number of interior dyadic samples a bisection depth yields.
pub open spec fn spec_dyadic_len(depth: int) -> nat
    decreases depth,
{
    if depth <= 0 {
        0
    } else {
        2 * spec_dyadic_len(depth - 1) + 1
    }
}

/// Sample the elliptical arc between two unit directions at every interior
/// dyadic fraction of the given depth, by repeated bisection of the unit
/// vectors; `None` as soon as a bisection degenerates.
fn dyadic_points(
    f: &EllipseFrame,
    u1x: i64,
    u1y: i64,
    u2x: i64,
    u2y: i64,
    depth: u32,
) -> (r: Option<Vec<Point>>)
    requires
        f.wf(),
        sabs(u1x as int) <= SCALE as int,
        sabs(u1y as int) <= SCALE as int,
        sabs(u2x as int) <= SCALE as int,
        sabs(u2y as int) <= SCALE as int,
    ensures
        r matches Some(v) ==> v@.len() == spec_dyadic_len(depth as int) && forall|i: int|
            0 <= i < v@.len() ==> (#[trigger] v@[i]).wf(),
    decreases depth,
{
    if depth == 0 {
        return Some(Vec::new());
    }
    let um = match unit_bisector(u1x, u1y, u2x, u2y, false) {
        Option::Some(u) => u,
        Option::None => {
            return None;
        },
    };
    let pm = ell_point(f, um.0, um.1);
    let left = match dyadic_points(f, u1x, u1y, um.0, um.1, depth - 1) {
        Option::Some(v) => v,
        Option::None => {
            return None;
        },
    };
    let right = match dyadic_points(f, um.0, um.1, u2x, u2y, depth - 1) {
        Option::Some(v) => v,
        Option::None => {
            return None;
        },
    };
    let mut out = left;
    out.push(pm);
    let ghost before = out@;
    let mut rightv = right;
    out.append(&mut rightv);
    proof {
        assert(out@ =~= before + right@);
    }
    Some(out)
}

/// Glue for the elliptical recursion, as for the cubic one.
proof fn lemma_ell_glue(
    pre: Seq<ArcOrLineSegment>,
    s_mid: Seq<ArcOrLineSegment>,
    s_fin: Seq<ArcOrLineSegment>,
    a: Point,
    m: Point,
    b: Point,
    tol: int,
)
    requires
        pre.len() <= s_mid.len() <= s_fin.len(),
        s_mid.subrange(0, pre.len() as int) == pre,
        s_fin.subrange(0, s_mid.len() as int) == s_mid,
        chain_ok(s_mid.subrange(pre.len() as int, s_mid.len() as int), a, m),
        chain_ok(s_fin.subrange(s_mid.len() as int, s_fin.len() as int), m, b),
        forall|j: int| pre.len() <= j < s_mid.len() ==> ell_elem_ok(#[trigger] s_mid[j], tol),
        forall|j: int| s_mid.len() <= j < s_fin.len() ==> ell_elem_ok(#[trigger] s_fin[j], tol),
    ensures
        s_fin.subrange(0, pre.len() as int) == pre,
        chain_ok(s_fin.subrange(pre.len() as int, s_fin.len() as int), a, b),
        forall|j: int| pre.len() <= j < s_fin.len() ==> ell_elem_ok(#[trigger] s_fin[j], tol),
{
    let n0 = pre.len() as int;
    let n1 = s_mid.len() as int;
    let n2 = s_fin.len() as int;
    assert forall|j: int| 0 <= j < n1 implies s_fin[j] == s_mid[j] by {
        assert(s_fin.subrange(0, n1)[j] == s_fin[j]);
    }
    assert(s_fin.subrange(0, n0) =~= pre);
    let s1 = s_mid.subrange(n0, n1);
    let s2 = s_fin.subrange(n1, n2);
    lemma_chain_concat(s1, s2, a, m, b);
    assert(s_fin.subrange(n0, n2) =~= s1 + s2);
    assert forall|j: int| n0 <= j < n2 implies ell_elem_ok(#[trigger] s_fin[j], tol) by {
        if j < n1 {
            assert(ell_elem_ok(s_mid[j], tol));
        }
    }
}

/// Recursive subdivision of an elliptical arc below half a turn: try one
/// circle through the endpoints and the arc midpoint, validated at the two
/// quarter points; on failure bisect at the midpoint. A piece that still
/// fits nothing at depth zero becomes its chord.
#[verifier::rlimit(100)]
fn ell_rec(
    f: &EllipseFrame,
    p1: Point,
    u1x: i64,
    u1y: i64,
    p2: Point,
    u2x: i64,
    u2y: i64,
    tolerance: i64,
    depth: u32,
    acc: &mut Vec<ArcOrLineSegment>,
)
    requires
        f.wf(),
        p1.wf(),
        p2.wf(),
        sabs(u1x as int) <= SCALE as int,
        sabs(u1y as int) <= SCALE as int,
        sabs(u2x as int) <= SCALE as int,
        sabs(u2y as int) <= SCALE as int,
        0 < tolerance <= COORD_MAX,
    ensures
        final(acc)@.len() >= old(acc)@.len(),
        final(acc)@.subrange(0, old(acc)@.len() as int) == old(acc)@,
        chain_ok(
            final(acc)@.subrange(old(acc)@.len() as int, final(acc)@.len() as int),
            p1,
            p2,
        ),
        forall|j: int|
            old(acc)@.len() <= j < final(acc)@.len() ==> ell_elem_ok(
                #[trigger] final(acc)@[j],
                tolerance as int,
            ),
    decreases depth,
{
    if p1.x == p2.x && p1.y == p2.y {
        proof {
            assert(final(acc)@.subrange(0, old(acc)@.len() as int) =~= old(acc)@);
        }
        return ;
    }
    let ghost pre = acc@;
    if depth == 0 {
        acc.push(ArcOrLineSegment::Line(LineSegment { from: p1, to: p2 }));
        proof {
            lemma_ell_elem_line(LineSegment { from: p1, to: p2 }, tolerance as int);
            assert(acc@.subrange(0, pre.len() as int) =~= pre);
            assert(acc@.subrange(pre.len() as int, acc@.len() as int) =~= seq![
                ArcOrLineSegment::Line(LineSegment { from: p1, to: p2 }),
            ]);
        }
        return ;
    }
    let bis = unit_bisector(u1x, u1y, u2x, u2y, false);
    let (umx, umy) = match bis {
        Option::Some(u) => u,
        Option::None => {
            acc.push(ArcOrLineSegment::Line(LineSegment { from: p1, to: p2 }));
            proof {
                lemma_ell_elem_line(LineSegment { from: p1, to: p2 }, tolerance as int);
                assert(acc@.subrange(0, pre.len() as int) =~= pre);
                assert(acc@.subrange(pre.len() as int, acc@.len() as int) =~= seq![
                    ArcOrLineSegment::Line(LineSegment { from: p1, to: p2 }),
                ]);
            }
            return ;
        },
    };
    let pm = ell_point(f, umx, umy);
    let mut fitted: Option<SvgArc> = None;
    let ghost mut witness_samples: Seq<Point> = Seq::<Point>::empty();
    match dyadic_points(f, u1x, u1y, u2x, u2y, 4) {
        Option::Some(samples) => {
            proof {
                assert(spec_dyadic_len(0) == 0);
                assert(spec_dyadic_len(1) == 1);
                assert(spec_dyadic_len(2) == 3);
                assert(spec_dyadic_len(3) == 7);
                assert(spec_dyadic_len(4) == 15);
            }
            match crate::arcs::circle_from_three_points(p1, pm, p2) {
                Option::Some(circle) => {
                    let mut si: usize = 0;
                    let mut all_ok = true;
                    while si < samples.len()
                        invariant
                            samples@.len() == 15,
                            si <= samples@.len(),
                            forall|i: int| 0 <= i < samples@.len() ==> (#[trigger] samples@[i]).wf(),
                            circle.center.wf(),
                            0 <= circle.radius <= 3 * COORD_MAX,
                            0 < tolerance <= COORD_MAX,
                            all_ok ==> forall|i: int|
                                0 <= i < si ==> crate::arcs::radial_dev_ok(
                                    #[trigger] samples@[i],
                                    circle,
                                    tolerance as int,
                                ),
                        decreases samples@.len() - si,
                    {
                        let d = crate::fixed::abs_i64(
                            crate::fixed::sub_i64(
                                dist(samples[si], circle.center),
                                circle.radius,
                            ),
                        );
                        if d > tolerance {
                            all_ok = false;
                        }
                        si += 1;
                    }
                    if all_ok {
                        match crate::arcs::create_svg_arc_from_circle(p1, p2, circle) {
                            Option::Some(arc) => {
                                proof {
                                    assert(circle == crate::arcs::tri_circle(p1, pm, p2));
                                    assert(ell_arc_witness(
                                        arc,
                                        pm,
                                        samples@,
                                        tolerance as int,
                                    ));
                                    witness_samples = samples@;
                                }
                                fitted = Some(arc);
                            },
                            Option::None => {},
                        }
                    }
                },
                Option::None => {},
            }
        },
        Option::None => {},
    }
    match fitted {
        Option::Some(arc) => {
            proof {
                lemma_ell_elem_arc(arc, pm, witness_samples, tolerance as int);
            }
            acc.push(ArcOrLineSegment::Arc(arc));
            proof {
                assert(acc@.subrange(0, pre.len() as int) =~= pre);
                assert(acc@.subrange(pre.len() as int, acc@.len() as int) =~= seq![
                    ArcOrLineSegment::Arc(arc),
                ]);
            }
        },
        Option::None => {
            ell_rec(f, p1, u1x, u1y, pm, umx, umy, tolerance, depth - 1, acc);
            let ghost mid1 = acc@;
            ell_rec(f, pm, umx, umy, p2, u2x, u2y, tolerance, depth - 1, acc);
            proof {
                lemma_ell_glue(pre, mid1, acc@, p1, pm, p2, tolerance as int);
            }
        },
    }
}

/// Recover the center parameterization of an elliptical arc from its
/// endpoint parameterization: the standard endpoint-to-center conversion,
/// carried out in fixed point with one integer square root and saturating
/// guards. Returns the frame and the rotated-frame unit directions of the
/// two endpoints.
fn ell_setup(arc: &SvgArc) -> (r: Option<(EllipseFrame, i64, i64, i64, i64)>)
    requires
        arc.wf(),
        0 < arc.rx,
        0 < arc.ry,
    ensures
        r matches Some(f) ==> {
            &&& f.0.wf()
            &&& sabs(f.1 as int) <= SCALE as int
            &&& sabs(f.2 as int) <= SCALE as int
            &&& sabs(f.3 as int) <= SCALE as int
            &&& sabs(f.4 as int) <= SCALE as int
        },
{
    let cosr = arc.x_rotation.cos;
    let sinr = arc.x_rotation.sin;
    let hx = mid_i64(arc.from.x, -arc.to.x);
    let hy = mid_i64(arc.from.y, -arc.to.y);
    let x1 = crate::fixed::add_i64(
        crate::fixed::mul_div_i64(cosr, hx, SCALE),
        crate::fixed::mul_div_i64(sinr, hy, SCALE),
    );
    let y1 = crate::fixed::sub_i64(
        crate::fixed::mul_div_i64(cosr, hy, SCALE),
        crate::fixed::mul_div_i64(sinr, hx, SCALE),
    );
    let rx2 = crate::fixed::mul_div_i64(arc.rx, arc.rx, SCALE);
    let ry2 = crate::fixed::mul_div_i64(arc.ry, arc.ry, SCALE);
    let x12 = crate::fixed::mul_div_i64(x1, x1, SCALE);
    let y12 = crate::fixed::mul_div_i64(y1, y1, SCALE);
    proof {
        crate::fixed::lemma_mul_div_bound(cosr as int, hx as int, SCALE as int, SCALE as int, COORD_MAX as int);
        crate::fixed::lemma_mul_div_bound(sinr as int, hy as int, SCALE as int, SCALE as int, COORD_MAX as int);
        crate::fixed::lemma_mul_div_bound(cosr as int, hy as int, SCALE as int, SCALE as int, COORD_MAX as int);
        crate::fixed::lemma_mul_div_bound(sinr as int, hx as int, SCALE as int, SCALE as int, COORD_MAX as int);
        crate::fixed::lemma_mul_div_bound(arc.rx as int, arc.rx as int, SCALE as int, 3 * COORD_MAX as int, 3 * COORD_MAX as int);
        crate::fixed::lemma_mul_div_bound(arc.ry as int, arc.ry as int, SCALE as int, 3 * COORD_MAX as int, 3 * COORD_MAX as int);
        crate::fixed::lemma_mul_div_bound(x1 as int, x1 as int, SCALE as int, 2 * COORD_MAX as int, 2 * COORD_MAX as int);
        crate::fixed::lemma_mul_div_bound(y1 as int, y1 as int, SCALE as int, 2 * COORD_MAX as int, 2 * COORD_MAX as int);
        assert((3 * COORD_MAX as int) * (3 * COORD_MAX as int) / (SCALE as int)
            == 0x7ce66c50e2840000 && (2 * COORD_MAX as int) * (2 * COORD_MAX as int) / (
        SCALE as int) == 0x3782dace9d900000) by (nonlinear_arith);
        crate::fixed::lemma_mul_bound(rx2 as int, y12 as int, 0x7ce66c50e2840000, 0x3782dace9d900000);
        crate::fixed::lemma_mul_bound(ry2 as int, x12 as int, 0x7ce66c50e2840000, 0x3782dace9d900000);
        crate::fixed::lemma_mul_bound(rx2 as int, ry2 as int, 0x7ce66c50e2840000, 0x7ce66c50e2840000);
        assert(0x7ce66c50e2840000int * 0x3782dace9d900000int
            == 0x1b1559096844ff0d36a25e4000000000int && 0x7ce66c50e2840000int
            * 0x7ce66c50e2840000int == 0x3cf008552a9b3dddbaed541000000000int)
            by (nonlinear_arith);
    }
    let den: i128 = mul_i128(rx2, y12) + mul_i128(ry2, x12);
    if den <= 0 {
        return None;
    }
    let mut num: i128 = mul_i128(rx2, ry2) - den;
    if num < 0 {
        num = 0;
    }
    let nums: i128 = num / 1_000_000_000_000;
    let dens: i128 = den / 1_000_000_000_000;
    let sq_num = crate::fixed::isqrt_u128(nums as u128);
    let sq_den_raw = crate::fixed::isqrt_u128(dens as u128);
    let sq_den: i64 = if sq_den_raw < 1 {
        1
    } else {
        sq_den_raw as i64
    };
    let mut cr: i64 = crate::fixed::mul_div_i64(sq_num as i64, SCALE, sq_den);
    if cr > 1_000_000_000_000 {
        cr = 1_000_000_000_000;
    }
    if arc.flags.large_arc == arc.flags.sweep {
        cr = -cr;
    }
    proof {
        crate::fixed::lemma_mul_bound(
            arc.rx as int,
            y1 as int,
            3 * COORD_MAX as int,
            2 * COORD_MAX as int,
        );
        crate::fixed::lemma_mul_bound(
            arc.ry as int,
            x1 as int,
            3 * COORD_MAX as int,
            2 * COORD_MAX as int,
        );
        assert((3 * COORD_MAX as int) * (2 * COORD_MAX as int) == 0x4f68ca6d8cd91c6000000)
            by (nonlinear_arith);
    }
    let t1 = clamp_t(div_i128(mul_i128(arc.rx, y1), arc.ry as i128));
    let t2 = clamp_t(div_i128(mul_i128(arc.ry, x1), arc.rx as i128));
    let cxp = crate::geom::clamp_coord(crate::fixed::mul_div_i64(cr, t1, SCALE));
    let cyp = crate::geom::clamp_coord(-crate::fixed::mul_div_i64(cr, t2, SCALE));
    let mx = mid_i64(arc.from.x, arc.to.x);
    let my = mid_i64(arc.from.y, arc.to.y);
    let cx = crate::geom::clamp_coord(
        crate::fixed::add_i64(
            mx,
            crate::fixed::sub_i64(
                crate::fixed::mul_div_i64(cosr, cxp, SCALE),
                crate::fixed::mul_div_i64(sinr, cyp, SCALE),
            ),
        ),
    );
    let cy = crate::geom::clamp_coord(
        crate::fixed::add_i64(
            my,
            crate::fixed::add_i64(
                crate::fixed::mul_div_i64(sinr, cxp, SCALE),
                crate::fixed::mul_div_i64(cosr, cyp, SCALE),
            ),
        ),
    );
    let u1x = clamp_pm_s(
        crate::fixed::mul_div_i64(crate::fixed::sub_i64(x1, cxp), SCALE, arc.rx),
    );
    let u1y = clamp_pm_s(
        crate::fixed::mul_div_i64(crate::fixed::sub_i64(y1, cyp), SCALE, arc.ry),
    );
    let u2x = clamp_pm_s(
        crate::fixed::mul_div_i64(crate::fixed::sub_i64(-x1, cxp), SCALE, arc.rx),
    );
    let u2y = clamp_pm_s(
        crate::fixed::mul_div_i64(crate::fixed::sub_i64(-y1, cyp), SCALE, arc.ry),
    );
    Some(
        (
            EllipseFrame { cx, cy, rx: arc.rx, ry: arc.ry, cosr, sinr },
            u1x,
            u1y,
            u2x,
            u2y,
        ),
    )
}

/// Saturate an intermediate axis ratio into a safe range.
fn clamp_t(v: i128) -> (r: i64)
    ensures
        sabs(r as int) <= 1_000_000_000_000_000,
{
    if v > 1_000_000_000_000_000 {
        1_000_000_000_000_000
    } else if v < -1_000_000_000_000_000 {
        -1_000_000_000_000_000
    } else {
        v as i64
    }
}

/// The image of a point under a pure translation (in-range by hypothesis).
pub open spec fn spec_translate_point(p: Point, dx: i64, dy: i64) -> Point {
    Point { x: (p.x + dx) as i64, y: (p.y + dy) as i64 }
}

/// The image of an arc under a pure translation: endpoints move, radii,
/// rotation and flags stay.
pub open spec fn spec_translate_arc(a: SvgArc, dx: i64, dy: i64) -> SvgArc {
    SvgArc {
        from: spec_translate_point(a.from, dx, dy),
        to: spec_translate_point(a.to, dx, dy),
        rx: a.rx,
        ry: a.ry,
        x_rotation: a.x_rotation,
        flags: a.flags,
    }
}

/// The image of a flattening element under a pure translation.
pub open spec fn spec_translate_elem(e: ArcOrLineSegment, dx: i64, dy: i64) -> ArcOrLineSegment {
    match e {
        ArcOrLineSegment::Arc(a) => ArcOrLineSegment::Arc(spec_translate_arc(a, dx, dy)),
        ArcOrLineSegment::Line(l) => ArcOrLineSegment::Line(
            LineSegment {
                from: spec_translate_point(l.from, dx, dy),
                to: spec_translate_point(l.to, dx, dy),
            },
        ),
    }
}

/// Elementwise translation of a flattening result.
pub open spec fn spec_translate_seq(s: Seq<ArcOrLineSegment>, dx: i64, dy: i64) -> Seq<
    ArcOrLineSegment,
> {
    s.map(|i: int, e: ArcOrLineSegment| spec_translate_elem(e, dx, dy))
}

/// What flattening does to an arc that is already circular: a degenerate
/// arc vanishes, an arc with an empty semi-axis becomes its chord, and any
/// other circular arc passes through unchanged.
pub open spec fn spec_circular_flatten(a: SvgArc) -> Seq<ArcOrLineSegment> {
    if a.from == a.to {
        Seq::<ArcOrLineSegment>::empty()
    } else if a.rx == 0 || a.ry == 0 {
        seq![ArcOrLineSegment::Line(LineSegment { from: a.from, to: a.to })]
    } else {
        seq![ArcOrLineSegment::Arc(a)]
    }
}

/// Law: for a circular arc, transforming by a pure translation and
/// flattening gives the same primitives as flattening first and
/// translating each resulting primitive — exactly, with no tolerance
/// needed, as long as the translated endpoints stay in range.
pub proof fn translation_commutes_with_flattening(a: SvgArc, dx: i64, dy: i64)
    requires
        a.wf(),
        a.rx == a.ry,
        sabs(a.from.x + dx) <= COORD_MAX as int,
        sabs(a.from.y + dy) <= COORD_MAX as int,
        sabs(a.to.x + dx) <= COORD_MAX as int,
        sabs(a.to.y + dy) <= COORD_MAX as int,
    ensures
        spec_circular_flatten(spec_translate_arc(a, dx, dy)) == spec_translate_seq(
            spec_circular_flatten(a),
            dx,
            dy,
        ),
{
    let ta = spec_translate_arc(a, dx, dy);
    assert((ta.from == ta.to) == (a.from == a.to));
    if a.from == a.to {
        assert(spec_circular_flatten(ta) =~= spec_translate_seq(spec_circular_flatten(a), dx, dy));
    } else if a.rx == 0 || a.ry == 0 {
        assert(spec_circular_flatten(ta) =~= spec_translate_seq(spec_circular_flatten(a), dx, dy));
    } else {
        assert(spec_circular_flatten(ta) =~= spec_translate_seq(spec_circular_flatten(a), dx, dy));
    }
}

impl SvgArc {
    /// Flatten an elliptical arc into circular arcs and line segments.
    ///
    /// A degenerate arc (coincident endpoints) vanishes; an arc with an
    /// empty semi-axis is a straight line; an arc that is already circular
    /// passes through unchanged. A true ellipse is subdivided into
    /// validated circular arcs: this is the step that makes non-circular
    /// ellipses ready for circular-interpolation hardware.
    pub fn flattened(&self, tolerance: i64) -> (r: Vec<ArcOrLineSegment>)
        requires
            self.wf(),
            0 < tolerance <= COORD_MAX,
        ensures
            self.from == self.to ==> r@.len() == 0,
            self.from != self.to && (self.rx == 0 || self.ry == 0) ==> r@ =~= seq![
                ArcOrLineSegment::Line(LineSegment { from: self.from, to: self.to }),
            ],
            self.from != self.to && self.rx != 0 && self.ry != 0 && self.rx == self.ry ==> r@
                =~= seq![ArcOrLineSegment::Arc(*self)],
            self.rx == self.ry ==> r@ == spec_circular_flatten(*self),
            chain_ok(r@, self.from, self.to),
            self.rx != self.ry ==> forall|j: int|
                0 <= j < r@.len() ==> ell_elem_ok(#[trigger] r@[j], tolerance as int),
    {
        let mut acc: Vec<ArcOrLineSegment> = Vec::new();
        if self.from.x == self.to.x && self.from.y == self.to.y {
            proof {
                if self.rx == self.ry {
                    assert(acc@ =~= spec_circular_flatten(*self));
                }
            }
            return acc;
        }
        if self.rx == 0 || self.ry == 0 {
            acc.push(ArcOrLineSegment::Line(LineSegment { from: self.from, to: self.to }));
            proof {
                if self.rx == self.ry {
                    assert(acc@ =~= spec_circular_flatten(*self));
                }
            }
            return acc;
        }
        if self.rx == self.ry {
            acc.push(ArcOrLineSegment::Arc(*self));
            proof {
                assert(acc@ =~= spec_circular_flatten(*self));
            }
            return acc;
        }
        let setup = ell_setup(self);
        match setup {
            Option::Some((frame, u1x, u1y, u2x, u2y)) => {
                if self.flags.large_arc {
                    let bis = unit_bisector(u1x, u1y, u2x, u2y, true);
                    match bis {
                        Option::Some((umx, umy)) => {
                            let pm = ell_point(&frame, umx, umy);
                            ell_rec(
                                &frame,
                                self.from,
                                u1x,
                                u1y,
                                pm,
                                umx,
                                umy,
                                tolerance,
                                FLATTEN_MAX_DEPTH,
                                &mut acc,
                            );
                            let ghost mid1 = acc@;
                            ell_rec(
                                &frame,
                                pm,
                                umx,
                                umy,
                                self.to,
                                u2x,
                                u2y,
                                tolerance,
                                FLATTEN_MAX_DEPTH,
                                &mut acc,
                            );
                            proof {
                                lemma_ell_glue(
                                    Seq::<ArcOrLineSegment>::empty(),
                                    mid1,
                                    acc@,
                                    self.from,
                                    pm,
                                    self.to,
                                    tolerance as int,
                                );
                                assert(acc@.subrange(0, acc@.len() as int) =~= acc@);
                            }
                        },
                        Option::None => {
                            acc.push(
                                ArcOrLineSegment::Line(
                                    LineSegment { from: self.from, to: self.to },
                                ),
                            );
                            proof {
                                lemma_ell_elem_line(
                                    LineSegment { from: self.from, to: self.to },
                                    tolerance as int,
                                );
                            }
                        },
                    }
                } else {
                    ell_rec(
                        &frame,
                        self.from,
                        u1x,
                        u1y,
                        self.to,
                        u2x,
                        u2y,
                        tolerance,
                        FLATTEN_MAX_DEPTH,
                        &mut acc,
                    );
                    proof {
                        assert(acc@.subrange(0, acc@.len() as int) =~= acc@);
                    }
                }
            },
            Option::None => {
                acc.push(ArcOrLineSegment::Line(LineSegment { from: self.from, to: self.to }));
                proof {
                    lemma_ell_elem_line(
                        LineSegment { from: self.from, to: self.to },
                        tolerance as int,
                    );
                }
            },
        }
        acc
    }
}

/// Executable linearity test.
pub fn is_linear(c: &CubicBezierSegment, tolerance: i64) -> (r: bool)
    requires
        c.wf(),
        0 <= tolerance <= COORD_MAX,
    ensures
        r == spec_linear_ok(*c, tolerance as int),
{
    let chord = dist(c.from, c.to);
    let dx = crate::fixed::sub_i64(c.to.x, c.from.x);
    let dy = crate::fixed::sub_i64(c.to.y, c.from.y);
    let e1x = crate::fixed::sub_i64(c.ctrl1.x, c.from.x);
    let e1y = crate::fixed::sub_i64(c.ctrl1.y, c.from.y);
    let e2x = crate::fixed::sub_i64(c.ctrl2.x, c.from.x);
    let e2y = crate::fixed::sub_i64(c.ctrl2.y, c.from.y);
    proof {
        crate::fixed::lemma_mul_bound(dx as int, e1y as int, 2 * COORD_MAX as int, 2 * COORD_MAX as int);
        crate::fixed::lemma_mul_bound(dy as int, e1x as int, 2 * COORD_MAX as int, 2 * COORD_MAX as int);
        crate::fixed::lemma_mul_bound(dx as int, e2y as int, 2 * COORD_MAX as int, 2 * COORD_MAX as int);
        crate::fixed::lemma_mul_bound(dy as int, e2x as int, 2 * COORD_MAX as int, 2 * COORD_MAX as int);
        crate::fixed::lemma_mul_bound(
            tolerance as int,
            chord as int,
            COORD_MAX as int,
            3 * COORD_MAX as int,
        );
        assert((2 * COORD_MAX as int) * (2 * COORD_MAX as int) == 0x34f086f3b33b684000000)
            by (nonlinear_arith);
    }
    let c1: i128 = mul_i128(dx, e1y) - mul_i128(dy, e1x);
    let c2: i128 = mul_i128(dx, e2y) - mul_i128(dy, e2x);
    let bound: i128 = mul_i128(tolerance, chord);
    let a1: i128 = if c1 >= 0 {
        c1
    } else {
        -c1
    };
    let a2: i128 = if c2 >= 0 {
        c2
    } else {
        -c2
    };
    a1 <= bound && a2 <= bound
}

} // verus!
