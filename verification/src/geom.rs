//! Plane geometry over fixed-point coordinates: points, bounding boxes and
//! affine transforms.
use vstd::prelude::*;
use crate::fixed::{add_i64, clamp_i64, mul_div_i64, mul_i128, sabs, smul, sub_i64, SCALE};

verus! {

/// Magnitude bound on well-formed coordinates (micro-units, so one million
/// drawing units). Keeping coordinates under this bound keeps every squared
/// distance inside the range of the integer square root and every
/// circumcenter numerator inside 128 bits.
pub const COORD_MAX: i64 = 1_000_000_000_000;

/// Magnitude bound on the linear entries of a well-formed transform
/// (micro-units, so a scale factor of at most ten thousand).
pub const LINEAR_MAX: i64 = 10_000_000_000;

/// Clamp into the well-formed coordinate range.
pub open spec fn clampc(v: int) -> int {
    if v > COORD_MAX as int {
        COORD_MAX as int
    } else if v < -(COORD_MAX as int) {
        -(COORD_MAX as int)
    } else {
        v
    }
}

/// Clamp into the well-formed linear-entry range.
pub open spec fn clampl(v: int) -> int {
    if v > LINEAR_MAX as int {
        LINEAR_MAX as int
    } else if v < -(LINEAR_MAX as int) {
        -(LINEAR_MAX as int)
    } else {
        v
    }
}

/// Saturate an `i64` into the coordinate range.
pub fn clamp_coord(v: i64) -> (r: i64)
    ensures
        r as int == clampc(v as int),
{
    if v > COORD_MAX {
        COORD_MAX
    } else if v < -COORD_MAX {
        -COORD_MAX
    } else {
        v
    }
}

/// Saturate an `i64` into the linear-entry range.
pub fn clamp_linear(v: i64) -> (r: i64)
    ensures
        r as int == clampl(v as int),
{
    if v > LINEAR_MAX {
        LINEAR_MAX
    } else if v < -LINEAR_MAX {
        -LINEAR_MAX
    } else {
        v
    }
}

/// A point of the drawing plane, in micro-units.
#[derive(Clone, Copy, Debug, PartialEq, Eq, Structural)]
pub struct Point {
    pub x: i64,
    pub y: i64,
}

impl Point {
    /// Both coordinates within the documented magnitude bound.
    pub open spec fn wf(self) -> bool {
        &&& sabs(self.x as int) <= COORD_MAX as int
        &&& sabs(self.y as int) <= COORD_MAX as int
    }

    pub fn new(x: i64, y: i64) -> (r: Point)
        ensures
            r.x == x && r.y == y,
    {
        Point { x, y }
    }
}

/// Squared distance between two well-formed points, exactly.
pub fn dist2(p: Point, q: Point) -> (r: u128)
    requires
        p.wf(),
        q.wf(),
    ensures
        r as int == (p.x - q.x) * (p.x - q.x) + (p.y - q.y) * (p.y - q.y),
        r < 0x1000000000000000000000000000000,
{
    let dx = sub_i64(p.x, q.x);
    let dy = sub_i64(p.y, q.y);
    let dx2 = mul_i128(dx, dx);
    let dy2 = mul_i128(dy, dy);
    proof {
        lemma_sq_bound(dx as int, 2 * COORD_MAX as int);
        lemma_sq_bound(dy as int, 2 * COORD_MAX as int);
        assert((2 * COORD_MAX as int) * (2 * COORD_MAX as int) == 0x34f086f3b33b684000000)
            by (nonlinear_arith);
    }
    (dx2 as u128) + (dy2 as u128)
}

/// Distance between two points: the integer square root of `dist2`.
pub fn dist(p: Point, q: Point) -> (r: i64)
    requires
        p.wf(),
        q.wf(),
    ensures
        crate::fixed::is_isqrt(
            (p.x - q.x) * (p.x - q.x) + (p.y - q.y) * (p.y - q.y),
            r as int,
        ),
        r as int == crate::fixed::sqrtf(
            (p.x - q.x) * (p.x - q.x) + (p.y - q.y) * (p.y - q.y),
        ),
        0 <= r,
        r as int <= 3 * COORD_MAX as int,
{
    let d2 = dist2(p, q);
    let r = crate::fixed::isqrt_u128(d2);
    proof {
        crate::fixed::lemma_sqrtf(d2 as int, r as int);
        let d = (p.x - q.x) * (p.x - q.x) + (p.y - q.y) * (p.y - q.y);
        let m = 3 * COORD_MAX as int;
        assert(d <= 2 * ((2 * COORD_MAX as int) * (2 * COORD_MAX as int)) && (m + 1) * (m + 1)
            > 2 * ((2 * COORD_MAX as int) * (2 * COORD_MAX as int))) by (nonlinear_arith)
            requires
                sabs(p.x - q.x) <= 2 * COORD_MAX as int,
                sabs(p.y - q.y) <= 2 * COORD_MAX as int,
                d == (p.x - q.x) * (p.x - q.x) + (p.y - q.y) * (p.y - q.y),
                m == 3 * COORD_MAX as int,
        ;
        assert((r as int) * (r as int) <= d);
        assert(r as int <= m) by (nonlinear_arith)
            requires
                (r as int) * (r as int) <= (m + 1) * (m + 1) - 1,
                r >= 0,
                m >= 0,
        ;
    }
    r as i64
}

pub proof fn lemma_sq_bound(v: int, m: int)
    requires
        sabs(v) <= m,
    ensures
        0 <= v * v <= m * m,
{
    assert(0 <= v * v <= m * m) by (nonlinear_arith)
        requires
            sabs(v) <= m,
    ;
}

/// An axis-aligned rectangle; grows monotonically while geometry is sampled.
#[derive(Clone, Copy, Debug, PartialEq, Eq, Structural)]
pub struct BoundingBox {
    pub min_x: i64,
    pub min_y: i64,
    pub max_x: i64,
    pub max_y: i64,
}

impl BoundingBox {
    pub open spec fn wf(self) -> bool {
        &&& self.min_x <= self.max_x
        &&& self.min_y <= self.max_y
    }

    pub open spec fn spec_contains(self, p: Point) -> bool {
        &&& self.min_x <= p.x <= self.max_x
        &&& self.min_y <= p.y <= self.max_y
    }

    /// The degenerate box holding exactly one point.
    pub fn from_point(p: Point) -> (r: BoundingBox)
        ensures
            r.min_x == p.x && r.max_x == p.x && r.min_y == p.y && r.max_y == p.y,
            r.wf(),
    {
        BoundingBox { min_x: p.x, min_y: p.y, max_x: p.x, max_y: p.y }
    }

    /// Grow the box to cover `p`: the result is the least box covering both.
    pub fn extend(&mut self, p: Point)
        ensures
            final(self).min_x == if p.x < old(self).min_x { p.x as int } else { old(self).min_x as int },
            final(self).max_x == if p.x > old(self).max_x { p.x as int } else { old(self).max_x as int },
            final(self).min_y == if p.y < old(self).min_y { p.y as int } else { old(self).min_y as int },
            final(self).max_y == if p.y > old(self).max_y { p.y as int } else { old(self).max_y as int },
            old(self).wf() ==> final(self).wf(),
            final(self).spec_contains(p),
            forall|q: Point| old(self).spec_contains(q) ==> final(self).spec_contains(q),
    {
        if p.x < self.min_x {
            self.min_x = p.x;
        }
        if p.x > self.max_x {
            self.max_x = p.x;
        }
        if p.y < self.min_y {
            self.min_y = p.y;
        }
        if p.y > self.max_y {
            self.max_y = p.y;
        }
    }

    pub fn width(&self) -> (r: i64)
        ensures
            r as int == clamp_i64(self.max_x - self.min_x),
    {
        sub_i64(self.max_x, self.min_x)
    }

    pub fn height(&self) -> (r: i64)
        ensures
            r as int == clamp_i64(self.max_y - self.min_y),
    {
        sub_i64(self.max_y, self.min_y)
    }
}

/// The saturated image of a point under an affine map.
pub open spec fn spec_apply(t: AffineTransform, p: Point) -> Point {
    Point {
        x: clampc(t.spec_apply_x(p.x as int, p.y as int)) as i64,
        y: clampc(t.spec_apply_y(p.x as int, p.y as int)) as i64,
    }
}

/// The composition of two affine maps, with the same saturations the
/// executable composition performs.
pub open spec fn spec_compose(s: AffineTransform, o: AffineTransform) -> AffineTransform {
    AffineTransform {
        a: clampl(smul(s.a as int, o.a as int) + smul(s.b as int, o.c as int)) as i64,
        b: clampl(smul(s.a as int, o.b as int) + smul(s.b as int, o.d as int)) as i64,
        c: clampl(smul(s.c as int, o.a as int) + smul(s.d as int, o.c as int)) as i64,
        d: clampl(smul(s.c as int, o.b as int) + smul(s.d as int, o.d as int)) as i64,
        tx: clampc(smul(s.tx as int, o.a as int) + smul(s.ty as int, o.c as int) + o.tx as int) as i64,
        ty: clampc(smul(s.tx as int, o.b as int) + smul(s.ty as int, o.d as int) + o.ty as int) as i64,
    }
}

/// A 2D affine map in row-vector convention:
/// `(x, y) -> (a*x + c*y + tx, b*x + d*y + ty)`, entries in micro-units.
#[derive(Clone, Copy, Debug, PartialEq, Eq, Structural)]
pub struct AffineTransform {
    pub a: i64,
    pub b: i64,
    pub c: i64,
    pub d: i64,
    pub tx: i64,
    pub ty: i64,
}

impl AffineTransform {
    /// Linear entries within the scale bound, translation within the
    /// coordinate bound.
    pub open spec fn wf(self) -> bool {
        &&& sabs(self.a as int) <= LINEAR_MAX as int
        &&& sabs(self.b as int) <= LINEAR_MAX as int
        &&& sabs(self.c as int) <= LINEAR_MAX as int
        &&& sabs(self.d as int) <= LINEAR_MAX as int
        &&& sabs(self.tx as int) <= COORD_MAX as int
        &&& sabs(self.ty as int) <= COORD_MAX as int
    }

    /// The exact image of `(x, y)` under this map, before clamping.
    pub open spec fn spec_apply_x(self, x: int, y: int) -> int {
        smul(self.a as int, x) + smul(self.c as int, y) + self.tx as int
    }

    pub open spec fn spec_apply_y(self, x: int, y: int) -> int {
        smul(self.b as int, x) + smul(self.d as int, y) + self.ty as int
    }

    pub fn identity() -> (r: AffineTransform)
        ensures
            r.a == SCALE && r.b == 0 && r.c == 0 && r.d == SCALE && r.tx == 0 && r.ty == 0,
            r.wf(),
    {
        AffineTransform { a: SCALE, b: 0, c: 0, d: SCALE, tx: 0, ty: 0 }
    }

    /// Pure translation; the offsets are clamped into the coordinate range.
    pub fn translation(tx: i64, ty: i64) -> (r: AffineTransform)
        ensures
            r.a == SCALE && r.b == 0 && r.c == 0 && r.d == SCALE,
            r.tx as int == clampc(tx as int),
            r.ty as int == clampc(ty as int),
            r.wf(),
    {
        AffineTransform { a: SCALE, b: 0, c: 0, d: SCALE, tx: clamp_coord(tx), ty: clamp_coord(ty) }
    }

    /// Axis-aligned scale; the factors are clamped into the linear range.
    pub fn scale(sx: i64, sy: i64) -> (r: AffineTransform)
        ensures
            r.a as int == clampl(sx as int),
            r.d as int == clampl(sy as int),
            r.b == 0 && r.c == 0 && r.tx == 0 && r.ty == 0,
            r.wf(),
    {
        AffineTransform { a: clamp_linear(sx), b: 0, c: 0, d: clamp_linear(sy), tx: 0, ty: 0 }
    }

    /// The image of `p`, saturated into the coordinate range; exact whenever
    /// the true image lies within it.
    pub fn transform_point(&self, p: Point) -> (r: Point)
        requires
            self.wf(),
            p.wf(),
        ensures
            r == spec_apply(*self, p),
            r.x as int == clampc(self.spec_apply_x(p.x as int, p.y as int)),
            r.y as int == clampc(self.spec_apply_y(p.x as int, p.y as int)),
            r.wf(),
    {
        proof {
            crate::fixed::lemma_mul_div_bound(self.a as int, p.x as int, SCALE as int, LINEAR_MAX as int, COORD_MAX as int);
            crate::fixed::lemma_mul_div_bound(self.c as int, p.y as int, SCALE as int, LINEAR_MAX as int, COORD_MAX as int);
            crate::fixed::lemma_mul_div_bound(self.b as int, p.x as int, SCALE as int, LINEAR_MAX as int, COORD_MAX as int);
            crate::fixed::lemma_mul_div_bound(self.d as int, p.y as int, SCALE as int, LINEAR_MAX as int, COORD_MAX as int);
        }
        let xa = mul_div_i64(self.a, p.x, SCALE);
        let xc = mul_div_i64(self.c, p.y, SCALE);
        let yb = mul_div_i64(self.b, p.x, SCALE);
        let yd = mul_div_i64(self.d, p.y, SCALE);
        Point {
            x: clamp_coord(add_i64(add_i64(xa, xc), self.tx)),
            y: clamp_coord(add_i64(add_i64(yb, yd), self.ty)),
        }
    }

    /// Matrix composition `self` followed by `other` (row-vector order). Linear
    /// entries saturate into the linear range, translations into the
    /// coordinate range; exact whenever the true entries lie within them.
    pub fn compose(&self, other: &AffineTransform) -> (r: AffineTransform)
        requires
            self.wf(),
            other.wf(),
        ensures
            r == spec_compose(*self, *other),
            r.a as int == clampl(smul(self.a as int, other.a as int) + smul(self.b as int, other.c as int)),
            r.b as int == clampl(smul(self.a as int, other.b as int) + smul(self.b as int, other.d as int)),
            r.c as int == clampl(smul(self.c as int, other.a as int) + smul(self.d as int, other.c as int)),
            r.d as int == clampl(smul(self.c as int, other.b as int) + smul(self.d as int, other.d as int)),
            r.tx as int == clampc(smul(self.tx as int, other.a as int) + smul(self.ty as int, other.c as int) + other.tx as int),
            r.ty as int == clampc(smul(self.tx as int, other.b as int) + smul(self.ty as int, other.d as int) + other.ty as int),
            r.wf(),
    {
        proof {
            crate::fixed::lemma_mul_div_bound(self.a as int, other.a as int, SCALE as int, LINEAR_MAX as int, LINEAR_MAX as int);
            crate::fixed::lemma_mul_div_bound(self.b as int, other.c as int, SCALE as int, LINEAR_MAX as int, LINEAR_MAX as int);
            crate::fixed::lemma_mul_div_bound(self.a as int, other.b as int, SCALE as int, LINEAR_MAX as int, LINEAR_MAX as int);
            crate::fixed::lemma_mul_div_bound(self.b as int, other.d as int, SCALE as int, LINEAR_MAX as int, LINEAR_MAX as int);
            crate::fixed::lemma_mul_div_bound(self.c as int, other.a as int, SCALE as int, LINEAR_MAX as int, LINEAR_MAX as int);
            crate::fixed::lemma_mul_div_bound(self.d as int, other.c as int, SCALE as int, LINEAR_MAX as int, LINEAR_MAX as int);
            crate::fixed::lemma_mul_div_bound(self.c as int, other.b as int, SCALE as int, LINEAR_MAX as int, LINEAR_MAX as int);
            crate::fixed::lemma_mul_div_bound(self.d as int, other.d as int, SCALE as int, LINEAR_MAX as int, LINEAR_MAX as int);
            crate::fixed::lemma_mul_div_bound(self.tx as int, other.a as int, SCALE as int, COORD_MAX as int, LINEAR_MAX as int);
            crate::fixed::lemma_mul_div_bound(self.ty as int, other.c as int, SCALE as int, COORD_MAX as int, LINEAR_MAX as int);
            crate::fixed::lemma_mul_div_bound(self.tx as int, other.b as int, SCALE as int, COORD_MAX as int, LINEAR_MAX as int);
            crate::fixed::lemma_mul_div_bound(self.ty as int, other.d as int, SCALE as int, COORD_MAX as int, LINEAR_MAX as int);
        }
        AffineTransform {
            a: clamp_linear(add_i64(mul_div_i64(self.a, other.a, SCALE), mul_div_i64(self.b, other.c, SCALE))),
            b: clamp_linear(add_i64(mul_div_i64(self.a, other.b, SCALE), mul_div_i64(self.b, other.d, SCALE))),
            c: clamp_linear(add_i64(mul_div_i64(self.c, other.a, SCALE), mul_div_i64(self.d, other.c, SCALE))),
            d: clamp_linear(add_i64(mul_div_i64(self.c, other.b, SCALE), mul_div_i64(self.d, other.d, SCALE))),
            tx: clamp_coord(
                add_i64(
                    add_i64(mul_div_i64(self.tx, other.a, SCALE), mul_div_i64(self.ty, other.c, SCALE)),
                    other.tx,
                ),
            ),
            ty: clamp_coord(
                add_i64(
                    add_i64(mul_div_i64(self.tx, other.b, SCALE), mul_div_i64(self.ty, other.d, SCALE)),
                    other.ty,
                ),
            ),
        }
    }

    /// Whether this transform mirrors the plane: the determinant of the
    /// linear part is negative.
    pub fn flips_orientation(&self) -> (r: bool)
        ensures
            r <==> (self.a as int) * (self.d as int) - (self.b as int) * (self.c as int) < 0,
    {
        let ad = mul_i128(self.a, self.d);
        let bc = mul_i128(self.b, self.c);
        ad < bc
    }
}

} // verus!
