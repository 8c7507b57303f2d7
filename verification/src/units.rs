//! Resolution of lengths (number + unit, including percentages) to numeric
//! user units, given a configured DPI and the current viewport.
use vstd::prelude::*;
use crate::fixed::{clamp_i64, div_t, is_isqrt, isqrt_u128, mul_div_i64, mul_i128, sabs};
use crate::geom::COORD_MAX;

verus! {

/// A length unit as written in the source document.
#[derive(Clone, Copy, Debug, PartialEq, Eq, Structural)]
pub enum LengthUnit {
    Mm,
    Cm,
    In,
    Px,
    Pt,
    Pc,
    Percent,
    Em,
    Ex,
    /// A bare number with no unit suffix.
    Unitless,
}

/// A number paired with its unit, in fixed-point micro-units.
#[derive(Clone, Copy, Debug, PartialEq, Eq, Structural)]
pub struct Length {
    pub number: i64,
    pub unit: LengthUnit,
}

/// Which viewport dimension a percentage resolves against.
#[derive(Clone, Copy, Debug, PartialEq, Eq, Structural)]
pub enum DimensionHint {
    Horizontal,
    Vertical,
    Other,
}

/// The exact user-unit value of an absolute length: the fixed inch-based
/// factor scaled by the configured DPI, truncating.
pub open spec fn spec_absolute_to_user(number: int, dpi: int, micro_per_inch: int) -> int {
    clamp_i64(div_t(number * dpi, micro_per_inch))
}

/// The normalized viewport diagonal a percentage with no axis resolves
/// against: the integer square root of `(w^2 + h^2) / 2`.
pub open spec fn spec_diagonal_ok(w: int, h: int, r: int) -> bool {
    is_isqrt((w * w + h * h) / 2, r)
}

/// The resolved user-unit value of a length, as a single function: the
/// per-unit clauses of `length_to_user_units` collected, with the
/// normalized diagonal written through the integer square root.
pub open spec fn spec_length_to_uu(
    l: Length,
    hint: DimensionHint,
    dpi: int,
    viewport: Option<(i64, i64)>,
) -> int {
    match l.unit {
        LengthUnit::Mm => spec_absolute_to_user(l.number as int, dpi, 25_400_000),
        LengthUnit::Cm => spec_absolute_to_user(l.number as int, dpi, 2_540_000),
        LengthUnit::In => spec_absolute_to_user(l.number as int, dpi, 1_000_000),
        LengthUnit::Pt => spec_absolute_to_user(l.number as int, dpi, 72_000_000),
        LengthUnit::Pc => spec_absolute_to_user(l.number as int, dpi, 6_000_000),
        LengthUnit::Px | LengthUnit::Unitless => l.number as int,
        LengthUnit::Em | LengthUnit::Ex => clamp_i64(16 * l.number),
        LengthUnit::Percent => match viewport {
            Option::None => l.number as int,
            Option::Some((w, h)) => {
                let scale = match hint {
                    DimensionHint::Horizontal => w as int,
                    DimensionHint::Vertical => h as int,
                    DimensionHint::Other => crate::fixed::sqrtf((w * w + h * h) / 2),
                };
                clamp_i64(div_t(l.number * scale, 100_000_000))
            },
        },
    }
}

/// Resolve a length to user units.
///
/// Absolute units convert through the DPI so physical sizes are
/// DPI-invariant; `Px` and bare numbers pass through; `Em`/`Ex` use the
/// fixed sixteen-units-per-em heuristic; percentages resolve against the
/// current viewport, and degrade to the raw number when no viewport is
/// established.
pub fn length_to_user_units(
    l: Length,
    hint: DimensionHint,
    dpi: i64,
    viewport: Option<(i64, i64)>,
) -> (r: i64)
    requires
        0 < dpi <= 1_000_000_000_000,
        sabs(l.number as int) <= COORD_MAX as int,
        viewport is Some ==> 0 <= (viewport->0).0 <= COORD_MAX && 0 <= (viewport->0).1 <= COORD_MAX,
    ensures
        r as int == spec_length_to_uu(l, hint, dpi as int, viewport),
        l.unit == LengthUnit::Mm ==> r as int == spec_absolute_to_user(l.number as int, dpi as int, 25_400_000),
        l.unit == LengthUnit::Cm ==> r as int == spec_absolute_to_user(l.number as int, dpi as int, 2_540_000),
        l.unit == LengthUnit::In ==> r as int == spec_absolute_to_user(l.number as int, dpi as int, 1_000_000),
        l.unit == LengthUnit::Pt ==> r as int == spec_absolute_to_user(l.number as int, dpi as int, 72_000_000),
        l.unit == LengthUnit::Pc ==> r as int == spec_absolute_to_user(l.number as int, dpi as int, 6_000_000),
        l.unit == LengthUnit::Px || l.unit == LengthUnit::Unitless ==> r == l.number,
        l.unit == LengthUnit::Em || l.unit == LengthUnit::Ex ==> r as int == clamp_i64(16 * l.number as int),
        l.unit == LengthUnit::Percent && viewport is None ==> r == l.number,
        l.unit == LengthUnit::Percent && viewport is Some && hint == DimensionHint::Horizontal
            ==> r as int == clamp_i64(div_t(l.number as int * (viewport->0).0 as int, 100_000_000)),
        l.unit == LengthUnit::Percent && viewport is Some && hint == DimensionHint::Vertical
            ==> r as int == clamp_i64(div_t(l.number as int * (viewport->0).1 as int, 100_000_000)),
        l.unit == LengthUnit::Percent && viewport is Some && hint == DimensionHint::Other
            ==> exists|s: int|
                spec_diagonal_ok((viewport->0).0 as int, (viewport->0).1 as int, s)
                && r as int == clamp_i64(div_t(l.number as int * s, 100_000_000)),
{
    match l.unit {
        LengthUnit::Mm => mul_div_i64(l.number, dpi, 25_400_000),
        LengthUnit::Cm => mul_div_i64(l.number, dpi, 2_540_000),
        LengthUnit::In => mul_div_i64(l.number, dpi, 1_000_000),
        LengthUnit::Pt => mul_div_i64(l.number, dpi, 72_000_000),
        LengthUnit::Pc => mul_div_i64(l.number, dpi, 6_000_000),
        LengthUnit::Px | LengthUnit::Unitless => l.number,
        LengthUnit::Em | LengthUnit::Ex => mul_div_i64(l.number, 16, 1),
        LengthUnit::Percent => {
            match viewport {
                Option::None => l.number,
                Option::Some((w, h)) => {
                    let scale: i64 = match hint {
                        DimensionHint::Horizontal => w,
                        DimensionHint::Vertical => h,
                        DimensionHint::Other => {
                            let w2 = mul_i128(w, w);
                            let h2 = mul_i128(h, h);
                            proof {
                                crate::geom::lemma_sq_bound(w as int, COORD_MAX as int);
                                crate::geom::lemma_sq_bound(h as int, COORD_MAX as int);
                                assert((COORD_MAX as int) * (COORD_MAX as int)
                                    == 0xd3c21bcecceda1000000) by (nonlinear_arith);
                            }
                            let d2: u128 = ((w2 + h2) as u128) / 2;
                            let s = isqrt_u128(d2);
                            proof {
                                crate::fixed::lemma_sqrtf(d2 as int, s as int);
                                let dd = (w * w + h * h) / 2;
                                assert(s as int * s as int <= dd);
                                assert(s as int <= 2 * COORD_MAX as int) by (nonlinear_arith)
                                    requires
                                        s as int * s as int <= dd,
                                        dd <= (COORD_MAX as int) * (COORD_MAX as int),
                                        s as int >= 0,
                                        COORD_MAX as int > 0,
                                ;
                            }
                            s as i64
                        },
                    };
                    let res = mul_div_i64(l.number, scale, 100_000_000);
                    proof {
                        if hint == DimensionHint::Other {
                            assert(spec_diagonal_ok(w as int, h as int, scale as int) && res as int
                                == clamp_i64(div_t(l.number as int * scale as int, 100_000_000)));
                        }
                    }
                    res
                },
            }
        },
    }
}

} // verus!
