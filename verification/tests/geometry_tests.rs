//! Flattening, arc detection, and transform behavior.
use svg2gcode::arcs::{ArcFlags, Rotation};
use svg2gcode::{
    detect_polygon_arcs, AffineTransform, ArcOrLineSegment, CubicBezierSegment, Point, SvgArc,
    SCALE,
};

const U: i64 = 1_000_000;

fn pt(x: i64, y: i64) -> Point {
    Point { x, y }
}

/// Walk a flattening result and check it chains from `from` to `to`.
fn assert_chain(pieces: &[ArcOrLineSegment], from: Point, to: Point) {
    assert!(!pieces.is_empty());
    let start = |e: &ArcOrLineSegment| match e {
        ArcOrLineSegment::Arc(a) => a.from,
        ArcOrLineSegment::Line(l) => l.from,
    };
    let end = |e: &ArcOrLineSegment| match e {
        ArcOrLineSegment::Arc(a) => a.to,
        ArcOrLineSegment::Line(l) => l.to,
    };
    assert_eq!(start(&pieces[0]), from);
    assert_eq!(end(&pieces[pieces.len() - 1]), to);
    for w in pieces.windows(2) {
        assert_eq!(end(&w[0]), start(&w[1]));
    }
}

#[test]
fn degenerate_cubic_flattens_to_nothing() {
    let c = CubicBezierSegment {
        from: pt(5 * U, 5 * U),
        ctrl1: pt(9 * U, -3 * U),
        ctrl2: pt(-2 * U, 7 * U),
        to: pt(5 * U, 5 * U),
    };
    assert_eq!(c.flattened(2000).len(), 0);
}

#[test]
fn collinear_cubic_flattens_to_one_line() {
    let c = CubicBezierSegment {
        from: pt(0, 0),
        ctrl1: pt(U, U),
        ctrl2: pt(2 * U, 2 * U),
        to: pt(3 * U, 3 * U),
    };
    let r = c.flattened(2000);
    assert_eq!(r.len(), 1);
    match &r[0] {
        ArcOrLineSegment::Line(l) => {
            assert_eq!(l.from, pt(0, 0));
            assert_eq!(l.to, pt(3 * U, 3 * U));
        },
        ArcOrLineSegment::Arc(_) => panic!("expected a line"),
    }
}

#[test]
fn quarter_circle_cubic_flattens_to_one_arc() {
    // the standard cubic approximation of a quarter circle of radius one
    let k = 552_285;
    let c = CubicBezierSegment {
        from: pt(U, 0),
        ctrl1: pt(U, k),
        ctrl2: pt(k, U),
        to: pt(0, U),
    };
    let r = c.flattened(2000);
    assert_chain(&r, c.from, c.to);
    assert_eq!(r.len(), 1);
    match &r[0] {
        ArcOrLineSegment::Arc(a) => {
            assert_eq!(a.rx, a.ry);
            assert!((a.rx - U).abs() < 3000, "radius {}", a.rx);
            assert!(a.flags.sweep);
        },
        ArcOrLineSegment::Line(_) => panic!("expected an arc"),
    }
}

#[test]
fn inflected_cubic_flattens_to_a_chain() {
    let c = CubicBezierSegment {
        from: pt(0, 0),
        ctrl1: pt(U, U),
        ctrl2: pt(2 * U, -U),
        to: pt(3 * U, 0),
    };
    let r = c.flattened(2000);
    assert_chain(&r, c.from, c.to);
    assert!(r.len() >= 2);
}

#[test]
fn detect_arcs_on_collinear_points_never_emits_an_arc() {
    let points: Vec<Point> = (0..8).map(|i| pt(i * U, i * U)).collect();
    let r = detect_polygon_arcs(&points, 2000, 4);
    assert_eq!(r.len(), 7);
    for e in &r {
        assert!(matches!(e, ArcOrLineSegment::Line(_)));
    }
}

#[test]
fn detect_arcs_finds_a_circular_run() {
    // five exact lattice points of the circle of radius five units
    let points = vec![
        pt(5 * U, 0),
        pt(4 * U, 3 * U),
        pt(3 * U, 4 * U),
        pt(0, 5 * U),
        pt(-3 * U, 4 * U),
    ];
    let r = detect_polygon_arcs(&points, 10_000, 4);
    assert!(matches!(&r[0], ArcOrLineSegment::Arc(_)));
    match &r[0] {
        ArcOrLineSegment::Arc(a) => {
            assert_eq!(a.from, pt(5 * U, 0));
            assert_eq!(a.rx, 5 * U);
            assert_eq!(a.ry, 5 * U);
            assert!(a.flags.sweep);
        },
        _ => unreachable!(),
    }
}

#[test]
fn circular_arc_passes_through_flattening() {
    let a = SvgArc {
        from: pt(5 * U, 0),
        to: pt(3 * U, 4 * U),
        rx: 5 * U,
        ry: 5 * U,
        x_rotation: Rotation { cos: SCALE, sin: 0 },
        flags: ArcFlags { large_arc: false, sweep: true },
    };
    let r = a.flattened(2000);
    assert_eq!(r.len(), 1);
    assert!(matches!(&r[0], ArcOrLineSegment::Arc(b) if *b == a));
}

#[test]
fn ellipse_flattens_to_circular_chain() {
    // a quarter of the axis-aligned ellipse with semi-axes two and one
    let a = SvgArc {
        from: pt(2 * U, 0),
        to: pt(0, U),
        rx: 2 * U,
        ry: U,
        x_rotation: Rotation { cos: SCALE, sin: 0 },
        flags: ArcFlags { large_arc: false, sweep: true },
    };
    let r = a.flattened(5000);
    assert_chain(&r, a.from, a.to);
    for e in &r {
        if let ArcOrLineSegment::Arc(b) = e {
            assert_eq!(b.rx, b.ry);
        }
    }
}

#[test]
fn translation_then_flattening_matches_flattening_then_translation() {
    let a = SvgArc {
        from: pt(5 * U, 0),
        to: pt(3 * U, 4 * U),
        rx: 5 * U,
        ry: 5 * U,
        x_rotation: Rotation { cos: SCALE, sin: 0 },
        flags: ArcFlags { large_arc: false, sweep: true },
    };
    let t = AffineTransform::translation(7 * U, -2 * U);
    let left = t.transform_point(a.from);
    // transform the arc, then flatten
    let moved = a.transformed(&t);
    assert_eq!(moved.from, left);
    assert_eq!(moved.rx, a.rx);
    assert_eq!(moved.ry, a.ry);
    let path_a = moved.flattened(2000);
    // flatten, then transform each primitive
    let path_b: Vec<ArcOrLineSegment> = a
        .flattened(2000)
        .into_iter()
        .map(|e| match e {
            ArcOrLineSegment::Arc(b) => ArcOrLineSegment::Arc(SvgArc {
                from: t.transform_point(b.from),
                to: t.transform_point(b.to),
                ..b
            }),
            ArcOrLineSegment::Line(l) => ArcOrLineSegment::Line(svg2gcode::LineSegment {
                from: t.transform_point(l.from),
                to: t.transform_point(l.to),
            }),
        })
        .collect();
    assert_eq!(path_a, path_b);
}

#[test]
fn uniform_scale_preserves_circularity() {
    let a = SvgArc {
        from: pt(5 * U, 0),
        to: pt(3 * U, 4 * U),
        rx: 5 * U,
        ry: 5 * U,
        x_rotation: Rotation { cos: SCALE, sin: 0 },
        flags: ArcFlags { large_arc: false, sweep: true },
    };
    let t = AffineTransform::scale(2 * SCALE, 2 * SCALE);
    let moved = a.transformed(&t);
    assert_eq!(moved.rx, 10 * U);
    assert_eq!(moved.ry, 10 * U);
    assert_eq!(moved.from, pt(10 * U, 0));
    assert_eq!(moved.to, pt(6 * U, 8 * U));
    assert!(moved.flags.sweep);
}

#[test]
fn mirroring_flips_the_sweep_flag() {
    let a = SvgArc {
        from: pt(5 * U, 0),
        to: pt(3 * U, 4 * U),
        rx: 5 * U,
        ry: 5 * U,
        x_rotation: Rotation { cos: SCALE, sin: 0 },
        flags: ArcFlags { large_arc: false, sweep: true },
    };
    let mirror = AffineTransform { a: -SCALE, b: 0, c: 0, d: SCALE, tx: 0, ty: 0 };
    let moved = a.transformed(&mirror);
    assert!(!moved.flags.sweep);
    assert!(!moved.flags.large_arc);
}

#[test]
fn flattened_primitives_stay_near_the_source_curve() {
    // densely sample two curves and check every sample lies close to one of
    // the emitted primitives
    let tolerance: i64 = 2000;
    let k = 552_285;
    let curves = [
        CubicBezierSegment {
            from: pt(U, 0),
            ctrl1: pt(U, k),
            ctrl2: pt(k, U),
            to: pt(0, U),
        },
        CubicBezierSegment {
            from: pt(0, 0),
            ctrl1: pt(U, U),
            ctrl2: pt(2 * U, -U),
            to: pt(3 * U, 0),
        },
    ];
    for c in curves {
        let pieces = c.flattened(tolerance);
        assert!(!pieces.is_empty());
        for i in 0..=100u32 {
            let t = i as f64 / 100.0;
            let sample = cubic_at(&c, t);
            let d = pieces
                .iter()
                .map(|e| distance_to_piece(e, sample))
                .fold(f64::INFINITY, f64::min);
            // interior validation happens at twentieths of each piece, so
            // points between validation samples get a modest extra margin
            assert!(
                d <= 2.0 * tolerance as f64,
                "sample at {t} is {d} micro-units away"
            );
        }
    }
}

fn cubic_at(c: &CubicBezierSegment, t: f64) -> (f64, f64) {
    let u = 1.0 - t;
    let b0 = u * u * u;
    let b1 = 3.0 * u * u * t;
    let b2 = 3.0 * u * t * t;
    let b3 = t * t * t;
    (
        b0 * c.from.x as f64 + b1 * c.ctrl1.x as f64 + b2 * c.ctrl2.x as f64 + b3 * c.to.x as f64,
        b0 * c.from.y as f64 + b1 * c.ctrl1.y as f64 + b2 * c.ctrl2.y as f64 + b3 * c.to.y as f64,
    )
}

fn distance_to_piece(e: &ArcOrLineSegment, p: (f64, f64)) -> f64 {
    match e {
        ArcOrLineSegment::Line(l) => {
            let (ax, ay) = (l.from.x as f64, l.from.y as f64);
            let (bx, by) = (l.to.x as f64, l.to.y as f64);
            let (dx, dy) = (bx - ax, by - ay);
            let len2 = dx * dx + dy * dy;
            let t = if len2 == 0.0 {
                0.0
            } else {
                (((p.0 - ax) * dx + (p.1 - ay) * dy) / len2).clamp(0.0, 1.0)
            };
            let (qx, qy) = (ax + t * dx, ay + t * dy);
            ((p.0 - qx).powi(2) + (p.1 - qy).powi(2)).sqrt()
        }
        ArcOrLineSegment::Arc(a) => {
            // recover the circle center from the endpoint parameterization
            let (fx, fy) = (a.from.x as f64, a.from.y as f64);
            let (tx, ty) = (a.to.x as f64, a.to.y as f64);
            let r = a.rx as f64;
            let (mx, my) = ((fx + tx) / 2.0, (fy + ty) / 2.0);
            let (dx, dy) = (tx - fx, ty - fy);
            let chord = (dx * dx + dy * dy).sqrt();
            let h2 = (r * r - chord * chord / 4.0).max(0.0);
            let h = h2.sqrt();
            let side = if a.flags.sweep != a.flags.large_arc { 1.0 } else { -1.0 };
            let (cx, cy) = (mx - side * dy * h / chord, my + side * dx * h / chord);
            (((p.0 - cx).powi(2) + (p.1 - cy).powi(2)).sqrt() - r).abs()
        }
    }
}

#[test]
fn rotated_ellipse_flattens_to_circular_chain() {
    // a quarter of the ellipse with semi-axes two and one, rotated a
    // quarter turn: its axes line up with y and negative x
    let a = SvgArc {
        from: pt(0, 2 * U),
        to: pt(-U, 0),
        rx: 2 * U,
        ry: U,
        x_rotation: Rotation { cos: 0, sin: SCALE },
        flags: ArcFlags { large_arc: false, sweep: true },
    };
    let r = a.flattened(5000);
    assert_chain(&r, a.from, a.to);
    for e in &r {
        if let ArcOrLineSegment::Arc(b) = e {
            assert_eq!(b.rx, b.ry);
        }
    }
}

#[test]
fn bounding_pre_pass_covers_an_arc_bulge() {
    // an arc through the circle's topmost point: its bulge rises above the
    // chord between the endpoints, and the sampled absorption must see it
    let a = SvgArc {
        from: pt(4 * U, 3 * U),
        to: pt(-4 * U, 3 * U),
        rx: 5 * U,
        ry: 5 * U,
        x_rotation: Rotation { cos: SCALE, sin: 0 },
        flags: ArcFlags { large_arc: false, sweep: true },
    };
    let mut pre = svg2gcode::PreprocessTurtle::new();
    let pieces = vec![ArcOrLineSegment::Arc(a)];
    pre.absorb_pieces(&pieces);
    let b = pre.bounding_box.unwrap();
    assert_eq!(b.max_y, 5 * U, "the arc's topmost point must be covered");
    assert_eq!(b.min_y, 3 * U);
    assert_eq!(b.max_x, 4 * U);
    assert_eq!(b.min_x, -4 * U);
}
