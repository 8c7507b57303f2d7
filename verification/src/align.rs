//! The two-pass placement math: combining the configured origin, optional
//! target-dimension override, trim request, and alignment into one composed
//! transform, from the pre-pass bounding box and viewport.
use vstd::prelude::*;
use crate::config::{ConversionConfig, ConversionOptions, HorizontalAlign, VerticalAlign};
use crate::fixed::{clamp_i64, div_t, mul_div_i64, sabs, smul, SCALE};
use crate::geom::{clampc, clampl, AffineTransform, BoundingBox, Point, COORD_MAX, LINEAR_MAX};
use crate::units::{Length, LengthUnit};

verus! {

/// A length in millimeters: absolute units through their fixed inch-based
/// factors, pixel-like units through the configured DPI.
pub open spec fn spec_length_to_mm(l: Length, dpi: int) -> int {
    match l.unit {
        LengthUnit::Mm => l.number as int,
        LengthUnit::Cm => clamp_i64(div_t(l.number as int * 10, 1)),
        LengthUnit::In => clamp_i64(div_t(l.number as int * 25_400_000, 1_000_000)),
        LengthUnit::Pt => clamp_i64(div_t(l.number as int * 25_400_000, 72_000_000)),
        LengthUnit::Pc => clamp_i64(div_t(l.number as int * 25_400_000, 6_000_000)),
        _ => clamp_i64(div_t(l.number as int * 25_400_000, dpi)),
    }
}

/// Convert one override dimension to millimeters.
pub fn length_to_mm(l: Length, dpi: i64) -> (r: i64)
    requires
        0 < dpi,
    ensures
        r as int == spec_length_to_mm(l, dpi as int),
{
    match l.unit {
        LengthUnit::Mm => l.number,
        LengthUnit::Cm => mul_div_i64(l.number, 10, 1),
        LengthUnit::In => mul_div_i64(l.number, 25_400_000, 1_000_000),
        LengthUnit::Pt => mul_div_i64(l.number, 25_400_000, 72_000_000),
        LengthUnit::Pc => mul_div_i64(l.number, 25_400_000, 6_000_000),
        LengthUnit::Px | LengthUnit::Unitless | LengthUnit::Em | LengthUnit::Ex
        | LengthUnit::Percent => mul_div_i64(l.number, 25_400_000, dpi),
    }
}

/// User units to millimeters through the DPI.
pub open spec fn spec_uu_to_mm(v: int, dpi: int) -> int {
    clamp_i64(div_t(v * 25_400_000, dpi))
}

/// Millimeters to user units through the DPI.
pub open spec fn spec_mm_to_uu(v: int, dpi: int) -> int {
    clamp_i64(div_t(v * dpi, 25_400_000))
}

pub fn uu_to_mm(v: i64, dpi: i64) -> (r: i64)
    requires
        0 < dpi,
    ensures
        r as int == spec_uu_to_mm(v as int, dpi as int),
{
    mul_div_i64(v, 25_400_000, dpi)
}

/// The scale entry that converts user units to millimeters: one user unit
/// in millimeters, as a fixed-point factor.
pub fn mm_per_user_unit(dpi: i64) -> (r: i64)
    requires
        0 < dpi,
    ensures
        r as int == spec_uu_to_mm(SCALE as int, dpi as int),
{
    uu_to_mm(SCALE, dpi)
}

pub fn mm_to_uu(v: i64, dpi: i64) -> (r: i64)
    requires
        0 < dpi,
    ensures
        r as int == spec_mm_to_uu(v as int, dpi as int),
{
    mul_div_i64(v, dpi, 25_400_000)
}

/// The uniform trim scale: with both targets given and a non-degenerate
/// box, the smaller of the two per-axis ratios; with one target, that
/// axis's ratio; a degenerate axis skips scaling.
pub open spec fn spec_trim_scale(tw: Option<i64>, th: Option<i64>, bw: int, bh: int) -> int {
    if tw is Some && th is Some {
        if bw > 0 && bh > 0 {
            let sx = clampl(div_t(tw->0 as int * 1_000_000, bw));
            let sy = clampl(div_t(th->0 as int * 1_000_000, bh));
            if sx <= sy {
                sx
            } else {
                sy
            }
        } else {
            SCALE as int
        }
    } else if tw is Some {
        if bw > 0 {
            clampl(div_t(tw->0 as int * 1_000_000, bw))
        } else {
            SCALE as int
        }
    } else if th is Some {
        if bh > 0 {
            clampl(div_t(th->0 as int * 1_000_000, bh))
        } else {
            SCALE as int
        }
    } else {
        SCALE as int
    }
}

fn trim_scale(tw: Option<i64>, th: Option<i64>, bw: i64, bh: i64) -> (r: i64)
    ensures
        r as int == spec_trim_scale(tw, th, bw as int, bh as int),
        sabs(r as int) <= LINEAR_MAX as int,
{
    let r = match (tw, th) {
        (Option::Some(w), Option::Some(h)) => {
            if bw > 0 && bh > 0 {
                let sx = crate::geom::clamp_linear(mul_div_i64(w, 1_000_000, bw));
                let sy = crate::geom::clamp_linear(mul_div_i64(h, 1_000_000, bh));
                if sx <= sy {
                    sx
                } else {
                    sy
                }
            } else {
                SCALE
            }
        },
        (Option::Some(w), Option::None) => {
            if bw > 0 {
                crate::geom::clamp_linear(mul_div_i64(w, 1_000_000, bw))
            } else {
                SCALE
            }
        },
        (Option::None, Option::Some(h)) => {
            if bh > 0 {
                crate::geom::clamp_linear(mul_div_i64(h, 1_000_000, bh))
            } else {
                SCALE
            }
        },
        (Option::None, Option::None) => SCALE,
    };
    r
}

/// The horizontal alignment offset (millimeters): how far the scaled box
/// moves so it sits at the left, center, or right of the container.
pub open spec fn spec_align_dx(
    h: HorizontalAlign,
    container_w: int,
    box_w: int,
    box_min_x: int,
) -> int {
    match h {
        HorizontalAlign::Left => -box_min_x,
        HorizontalAlign::Center => div_t(container_w - box_w, 2) - box_min_x,
        HorizontalAlign::Right => (container_w - box_w) - box_min_x,
    }
}

/// The vertical alignment offset (millimeters), mirroring the horizontal
/// one with bottom/center/top.
pub open spec fn spec_align_dy(v: VerticalAlign, container_h: int, box_h: int, box_min_y: int) -> int {
    match v {
        VerticalAlign::Bottom => -box_min_y,
        VerticalAlign::Center => div_t(container_h - box_h, 2) - box_min_y,
        VerticalAlign::Top => (container_h - box_h) - box_min_y,
    }
}

fn align_dx(h: HorizontalAlign, container_w: i64, box_w: i64, box_min_x: i64) -> (r: i64)
    requires
        sabs(container_w as int) <= COORD_MAX as int,
        sabs(box_w as int) <= 2 * COORD_MAX as int,
        sabs(box_min_x as int) <= COORD_MAX as int,
    ensures
        r as int == clamp_i64(spec_align_dx(h, container_w as int, box_w as int, box_min_x as int)),
{
    match h {
        HorizontalAlign::Left => -box_min_x,
        HorizontalAlign::Center => crate::fixed::sub_i64(
            half_i64(crate::fixed::sub_i64(container_w, box_w)),
            box_min_x,
        ),
        HorizontalAlign::Right => crate::fixed::sub_i64(
            crate::fixed::sub_i64(container_w, box_w),
            box_min_x,
        ),
    }
}

fn align_dy(v: VerticalAlign, container_h: i64, box_h: i64, box_min_y: i64) -> (r: i64)
    requires
        sabs(container_h as int) <= COORD_MAX as int,
        sabs(box_h as int) <= 2 * COORD_MAX as int,
        sabs(box_min_y as int) <= COORD_MAX as int,
    ensures
        r as int == clamp_i64(spec_align_dy(v, container_h as int, box_h as int, box_min_y as int)),
{
    match v {
        VerticalAlign::Bottom => -box_min_y,
        VerticalAlign::Center => crate::fixed::sub_i64(
            half_i64(crate::fixed::sub_i64(container_h, box_h)),
            box_min_y,
        ),
        VerticalAlign::Top => crate::fixed::sub_i64(
            crate::fixed::sub_i64(container_h, box_h),
            box_min_y,
        ),
    }
}

/// Truncating halving.
fn half_i64(v: i64) -> (r: i64)
    requires
        v != i64::MIN,
    ensures
        r as int == div_t(v as int, 2),
{
    let q = crate::fixed::div_i128(v as i128, 2);
    proof {
        crate::fixed::lemma_div_t_mag(v as int, 2);
    }
    q as i64
}

/// Whether alignment or trim processing is requested at all.
pub open spec fn spec_alignment_requested(options: ConversionOptions) -> bool {
    options.trim || options.dimensions[0] is Some || options.dimensions[1] is Some
}

/// Whether the origin transform applies: always when no alignment or trim
/// is requested, and otherwise only for a non-default origin (the default
/// origin would double-normalize an aligned placement).
pub open spec fn spec_apply_origin(config: ConversionConfig, options: ConversionOptions) -> bool {
    let default_origin = config.origin[0] == Some(0i64) && config.origin[1] == Some(0i64);
    (!default_origin && spec_alignment_requested(options)) || !spec_alignment_requested(options)
}

/// The per-axis origin delta in millimeters: the translation that lands the
/// bounding-box minimum exactly on the configured offset; an axis with no
/// configured origin is left alone.
pub open spec fn spec_origin_delta(o: Option<i64>, box_min: int) -> int {
    match o {
        Option::Some(v) => v - box_min,
        Option::None => 0,
    }
}

/// The scaled bounding-box corner used by the alignment math.
pub open spec fn spec_scaled(v: int, scale: int) -> int {
    clamp_i64(smul(scale, v))
}

/// The effective trim scale of a run: the uniform factor when trim is
/// requested, and one otherwise.
pub open spec fn spec_run_scale(options: ConversionOptions, dpi: int, bw: int, bh: int) -> int {
    if spec_alignment_requested(options) && options.trim {
        spec_trim_scale(
            spec_target_mm(options.dimensions[0], dpi),
            spec_target_mm(options.dimensions[1], dpi),
            bw,
            bh,
        )
    } else {
        SCALE as int
    }
}

/// One optional override dimension in millimeters.
pub open spec fn spec_target_mm(d: Option<Length>, dpi: int) -> Option<i64> {
    match d {
        Option::Some(l) => Option::Some(spec_length_to_mm(l, dpi) as i64),
        Option::None => Option::None,
    }
}

fn target_mm(d: &Option<Length>, dpi: i64) -> (r: Option<i64>)
    requires
        0 < dpi,
    ensures
        r == spec_target_mm(*d, dpi as int),
{
    match d {
        Option::Some(l) => Some(length_to_mm(*l, dpi)),
        Option::None => None,
    }
}

/// Compute the one composed transform (user units) that pass two pushes
/// before re-running the traversal.
///
/// The steps follow the documented placement algorithm: an optional
/// per-axis origin translation that pins the bounding-box minimum to the
/// configured offset; a uniform trim scale fitting the tight box into the
/// requested dimensions; an alignment translation within the container
/// (the target dimensions under trim, the viewport otherwise); millimeter
/// deltas convert to user units through the DPI. The composition order is
/// scale, alignment translation, origin translation — and the origin step
/// is skipped when alignment is active with the origin at its default.
pub fn svg2program_transform(
    config: &ConversionConfig,
    options: &ConversionOptions,
    bbox: &BoundingBox,
    viewport_uu: (i64, i64),
) -> (r: AffineTransform)
    requires
        config.wf(),
        bbox.wf(),
        sabs(bbox.min_x as int) <= COORD_MAX as int,
        sabs(bbox.min_y as int) <= COORD_MAX as int,
        sabs(bbox.max_x as int) <= COORD_MAX as int,
        sabs(bbox.max_y as int) <= COORD_MAX as int,
        0 <= viewport_uu.0 <= COORD_MAX,
        0 <= viewport_uu.1 <= COORD_MAX,
        options.dimensions[0] matches Some(l) ==> sabs(l.number as int) <= COORD_MAX as int,
        options.dimensions[1] matches Some(l) ==> sabs(l.number as int) <= COORD_MAX as int,
    ensures
        r.b == 0 && r.c == 0,
        r.a == r.d,
        r.wf(),
        ({
            let dpi = config.dpi as int;
            let scale = spec_run_scale(
                *options,
                dpi,
                clamp_i64(bbox.max_x - bbox.min_x),
                clamp_i64(bbox.max_y - bbox.min_y),
            );
            let tw = spec_target_mm(options.dimensions[0], dpi);
            let th = spec_target_mm(options.dimensions[1], dpi);
            let sminx = spec_scaled(bbox.min_x as int, scale);
            let sminy = spec_scaled(bbox.min_y as int, scale);
            let sw = clampc(clamp_i64(spec_scaled(bbox.max_x as int, scale) - sminx));
            let sh = clampc(clamp_i64(spec_scaled(bbox.max_y as int, scale) - sminy));
            let container_w = if options.trim {
                if tw is Some {
                    tw->0 as int
                } else {
                    sw
                }
            } else {
                spec_uu_to_mm(viewport_uu.0 as int, dpi)
            };
            let container_h = if options.trim {
                if th is Some {
                    th->0 as int
                } else {
                    sh
                }
            } else {
                spec_uu_to_mm(viewport_uu.1 as int, dpi)
            };
            let adx = if spec_alignment_requested(*options) {
                spec_mm_to_uu(
                    clamp_i64(spec_align_dx(options.h_align, clampc(container_w), sw, clampc(sminx))),
                    dpi,
                )
            } else {
                0
            };
            let ady = if spec_alignment_requested(*options) {
                spec_mm_to_uu(
                    clamp_i64(spec_align_dy(options.v_align, clampc(container_h), sh, clampc(sminy))),
                    dpi,
                )
            } else {
                0
            };
            let odx = if spec_apply_origin(*config, *options) {
                spec_mm_to_uu(clamp_i64(spec_origin_delta(config.origin[0], bbox.min_x as int)), dpi)
            } else {
                0
            };
            let ody = if spec_apply_origin(*config, *options) {
                spec_mm_to_uu(clamp_i64(spec_origin_delta(config.origin[1], bbox.min_y as int)), dpi)
            } else {
                0
            };
            &&& r.a as int == scale
            &&& r.tx as int == clampc(clamp_i64(adx + odx))
            &&& r.ty as int == clampc(clamp_i64(ady + ody))
        }),
{
    let dpi = config.dpi;
    let bw = bbox.width();
    let bh = bbox.height();
    let tw = target_mm(&options.dimensions[0], dpi);
    let th = target_mm(&options.dimensions[1], dpi);
    let alignment_requested = options.trim || tw.is_some() || th.is_some();
    proof {
        assert(alignment_requested == spec_alignment_requested(*options));
    }
    let scale: i64 = if alignment_requested && options.trim {
        trim_scale(tw, th, bw, bh)
    } else {
        SCALE
    };
    // scaled bounding box (millimeters)
    let sminx = crate::fixed::mul_div_i64(scale, bbox.min_x, SCALE);
    let sminy = crate::fixed::mul_div_i64(scale, bbox.min_y, SCALE);
    let smaxx = crate::fixed::mul_div_i64(scale, bbox.max_x, SCALE);
    let smaxy = crate::fixed::mul_div_i64(scale, bbox.max_y, SCALE);
    let sw = crate::geom::clamp_coord(crate::fixed::sub_i64(smaxx, sminx));
    let sh = crate::geom::clamp_coord(crate::fixed::sub_i64(smaxy, sminy));
    let (adx, ady): (i64, i64) = if alignment_requested {
        let container_w: i64 = if options.trim {
            match tw {
                Option::Some(w) => w,
                Option::None => sw,
            }
        } else {
            uu_to_mm(viewport_uu.0, dpi)
        };
        let container_h: i64 = if options.trim {
            match th {
                Option::Some(h) => h,
                Option::None => sh,
            }
        } else {
            uu_to_mm(viewport_uu.1, dpi)
        };
        let dx_mm = align_dx(
            options.h_align,
            crate::geom::clamp_coord(container_w),
            sw,
            crate::geom::clamp_coord(sminx),
        );
        let dy_mm = align_dy(
            options.v_align,
            crate::geom::clamp_coord(container_h),
            sh,
            crate::geom::clamp_coord(sminy),
        );
        (mm_to_uu(dx_mm, dpi), mm_to_uu(dy_mm, dpi))
    } else {
        (0, 0)
    };
    let default_origin = match (config.origin[0], config.origin[1]) {
        (Option::Some(x), Option::Some(y)) => x == 0 && y == 0,
        _ => false,
    };
    let apply_origin = (!default_origin && alignment_requested) || !alignment_requested;
    proof {
        assert(apply_origin == spec_apply_origin(*config, *options));
    }
    let (odx, ody): (i64, i64) = if apply_origin {
        let ox = match config.origin[0] {
            Option::Some(v) => crate::fixed::sub_i64(v, bbox.min_x),
            Option::None => 0,
        };
        let oy = match config.origin[1] {
            Option::Some(v) => crate::fixed::sub_i64(v, bbox.min_y),
            Option::None => 0,
        };
        (mm_to_uu(ox, dpi), mm_to_uu(oy, dpi))
    } else {
        (0, 0)
    };
    AffineTransform {
        a: scale,
        b: 0,
        c: 0,
        d: scale,
        tx: crate::geom::clamp_coord(crate::fixed::add_i64(adx, odx)),
        ty: crate::geom::clamp_coord(crate::fixed::add_i64(ady, ody)),
    }
}

/// The scope stack of composed transforms a traversal carries: one entry
/// per open scope, each the composition of a local transform with its
/// parent's entry. Pushes and pops must balance per node, so the stack is
/// never empty and popping returns to the exact parent state.
pub struct TransformStack {
    pub items: Vec<AffineTransform>,
}

impl TransformStack {
    /// The stack always holds at least the base entry, and every entry is
    /// well-formed.
    pub open spec fn wf(self) -> bool {
        &&& self.items@.len() >= 1
        &&& forall|i: int| 0 <= i < self.items@.len() ==> (#[trigger] self.items@[i]).wf()
    }

    pub open spec fn depth(self) -> nat {
        self.items@.len()
    }

    /// The composed transform of the innermost open scope.
    pub open spec fn spec_top(self) -> AffineTransform
        recommends
            self.wf(),
    {
        self.items@[self.items@.len() - 1]
    }

    /// A stack holding only the identity.
    pub fn new() -> (r: TransformStack)
        ensures
            r.wf(),
            r.depth() == 1,
            r.spec_top().a == SCALE && r.spec_top().b == 0 && r.spec_top().c == 0
                && r.spec_top().d == SCALE && r.spec_top().tx == 0 && r.spec_top().ty == 0,
    {
        let mut items = Vec::new();
        items.push(AffineTransform::identity());
        TransformStack { items }
    }

    /// The current composed transform.
    pub fn top(&self) -> (r: AffineTransform)
        requires
            self.wf(),
        ensures
            r == self.spec_top(),
            r.wf(),
    {
        self.items[self.items.len() - 1]
    }

    /// Enter a scope: the new top is the local transform followed by the
    /// parent's composition; everything beneath is untouched.
    pub fn push_transform(&mut self, local: &AffineTransform)
        requires
            old(self).wf(),
            local.wf(),
        ensures
            final(self).wf(),
            final(self).depth() == old(self).depth() + 1,
            final(self).items@.subrange(0, old(self).items@.len() as int) == old(self).items@,
            final(self).spec_top() == crate::geom::spec_compose(*local, old(self).spec_top()),
    {
        let composed = local.compose(&self.top());
        let ghost pre = self.items@;
        self.items.push(composed);
        proof {
            assert(self.items@.subrange(0, pre.len() as int) =~= pre);
        }
    }

    /// Leave a scope: the state returns exactly to the parent's.
    pub fn pop_transform(&mut self)
        requires
            old(self).wf(),
            old(self).depth() > 1,
        ensures
            final(self).wf(),
            final(self).depth() == old(self).depth() - 1,
            final(self).items@ == old(self).items@.subrange(0, old(self).items@.len() - 1),
    {
        let _ = self.items.pop();
        proof {
            assert(self.items@ =~= old(self).items@.subrange(
                0,
                old(self).items@.len() - 1,
            ));
        }
    }
}

/// Balanced pushes and pops restore the stack exactly: entering a scope
/// and leaving it again is the identity on the whole stack.
pub proof fn push_pop_balance(s0: TransformStack, s1: TransformStack, s2: TransformStack)
    requires
        s0.wf(),
        s1.depth() == s0.depth() + 1,
        s1.items@.subrange(0, s0.items@.len() as int) == s0.items@,
        s2.items@ == s1.items@.subrange(0, s1.items@.len() - 1),
    ensures
        s2.items@ == s0.items@,
{
    assert(s2.items@ =~= s0.items@);
}

/// The bounding-box pre-pass sink: a drawing target with no machine
/// knowledge that only accumulates the extent of the geometry it is handed.
#[derive(Clone, Copy, Debug, PartialEq, Eq, Structural)]
pub struct PreprocessTurtle {
    /// The accumulated box, absent until the first point arrives.
    pub bounding_box: Option<BoundingBox>,
}

impl PreprocessTurtle {
    pub open spec fn wf(self) -> bool {
        self.bounding_box matches Some(b) ==> b.wf()
    }

    pub fn new() -> (r: PreprocessTurtle)
        ensures
            r.bounding_box is None,
            r.wf(),
    {
        PreprocessTurtle { bounding_box: None }
    }

    /// Take one sampled point into the box: the box only ever grows.
    pub fn absorb(&mut self, p: Point)
        requires
            old(self).wf(),
        ensures
            final(self).wf(),
            final(self).bounding_box matches Some(b2) && b2.spec_contains(p),
            old(self).bounding_box matches Some(b) ==> forall|q: Point|
                b.spec_contains(q) ==> final(self).bounding_box->0.spec_contains(q),
    {
        match &mut self.bounding_box {
            Option::Some(b) => {
                b.extend(p);
            },
            Option::None => {
                self.bounding_box = Some(BoundingBox::from_point(p));
            },
        }
    }

    /// Absorb every move target of an emitted program: the extent of a
    /// pre-pass run against a line-only scratch engine is the extent of
    /// its rapid and straight moves.
    pub fn absorb_program(&mut self, program: &Vec<crate::emit::Instr>)
        requires
            old(self).wf(),
        ensures
            final(self).wf(),
            old(self).bounding_box matches Some(b) ==> final(self).bounding_box matches Some(b2)
                && (forall|q: Point| b.spec_contains(q) ==> b2.spec_contains(q)),
    {
        let mut k: usize = 0;
        while k < program.len()
            invariant
                self.wf(),
                k <= program@.len(),
                old(self).bounding_box matches Some(b) ==> self.bounding_box matches Some(b2)
                    && (forall|q: Point| b.spec_contains(q) ==> b2.spec_contains(q)),
            decreases program@.len() - k,
        {
            match &program[k] {
                crate::emit::Instr::RapidMove { x, y } => {
                    self.absorb(Point { x: *x, y: *y });
                },
                crate::emit::Instr::LinearMove { x, y, f } => {
                    self.absorb(Point { x: *x, y: *y });
                },
                crate::emit::Instr::ClockwiseArc { x, y, i, j, f } => {
                    self.absorb(Point { x: *x, y: *y });
                },
                crate::emit::Instr::CounterclockwiseArc { x, y, i, j, f } => {
                    self.absorb(Point { x: *x, y: *y });
                },
                _ => {},
            }
            k += 1;
        }
    }

    /// Absorb a circular arc: its endpoints and, recursively, the sampled
    /// midpoints of its halves, so the bulge of an arc is covered and not
    /// just its chord.
    pub fn absorb_arc(&mut self, arc: &crate::arcs::SvgArc, depth: u32)
        requires
            old(self).wf(),
            arc.wf(),
            arc.rx == arc.ry,
        ensures
            final(self).wf(),
            old(self).bounding_box matches Some(b) ==> final(self).bounding_box matches Some(b2)
                && (forall|q: Point| b.spec_contains(q) ==> b2.spec_contains(q)),
        decreases depth,
    {
        self.absorb(arc.from);
        self.absorb(arc.to);
        if depth > 0 {
            match crate::emit::arc_split_points(arc) {
                Option::Some((a1, a2)) => {
                    self.absorb_arc(&a1, depth - 1);
                    self.absorb_arc(&a2, depth - 1);
                },
                Option::None => {},
            }
        }
    }

    /// Absorb every point of a flattening result: line endpoints, and arcs
    /// sampled through three levels of bisection.
    pub fn absorb_pieces(&mut self, pieces: &Vec<crate::arcs::ArcOrLineSegment>)
        requires
            old(self).wf(),
            forall|k: int|
                0 <= k < pieces@.len() ==> crate::emit::piece_emittable(#[trigger] pieces@[k]),
        ensures
            final(self).wf(),
            old(self).bounding_box matches Some(b) ==> final(self).bounding_box matches Some(b2)
                && (forall|q: Point| b.spec_contains(q) ==> b2.spec_contains(q)),
    {
        let mut k: usize = 0;
        while k < pieces.len()
            invariant
                self.wf(),
                k <= pieces@.len(),
                forall|j: int|
                    0 <= j < pieces@.len() ==> crate::emit::piece_emittable(
                        #[trigger] pieces@[j],
                    ),
                old(self).bounding_box matches Some(b) ==> self.bounding_box matches Some(b2)
                    && (forall|q: Point| b.spec_contains(q) ==> b2.spec_contains(q)),
            decreases pieces@.len() - k,
        {
            proof {
                assert(crate::emit::piece_emittable(pieces@[k as int]));
            }
            match &pieces[k] {
                crate::arcs::ArcOrLineSegment::Arc(a) => {
                    if a.rx == a.ry {
                        self.absorb_arc(a, 3);
                    } else {
                        self.absorb(a.from);
                        self.absorb(a.to);
                    }
                },
                crate::arcs::ArcOrLineSegment::Line(l) => {
                    self.absorb(l.from);
                    self.absorb(l.to);
                },
            }
            k += 1;
        }
    }
}

} // verus!
