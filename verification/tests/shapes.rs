use shape_layout::elems::{CircleElem, EllipseElem, PolygonElem, RectElem, SquareElem};
use shape_layout::frame::{Frame, FrameItem, Geometry, PathItem};
use shape_layout::geom::{Axes, Point, Rel, Smart};
use shape_layout::layout::{Content, LayoutError, Pod};
use shape_layout::normalize::polygonal_shape;
use shape_layout::num::SCALE;
use shape_layout::poly::{Polygon, Vertex, Vertices};
use shape_layout::sides::{
    fold_corners, fold_side, fold_side_pair, fold_sides, CornerScope, Corners, Side, SideScope,
    Sides,
};
use shape_layout::stroke::{resolve_stroke, Paint, PartialStroke, Stroke};
use shape_layout::ShapeKind;

fn units(u: i64) -> i64 {
    u * SCALE
}

/// Content with a fixed natural size that fills any axis allowed to expand.
struct Fixed {
    w: i64,
    h: i64,
}

impl Content for Fixed {
    fn layout(&self, pod: &Pod) -> Result<Frame, LayoutError> {
        let w = if pod.expand.x { pod.size.x } else { self.w };
        let h = if pod.expand.y { pod.size.y } else { self.h };
        Ok(Frame { size: Axes { x: w, y: h }, items: Vec::new() })
    }
}

/// Content whose layout always fails.
struct Failing;

impl Content for Failing {
    fn layout(&self, _pod: &Pod) -> Result<Frame, LayoutError> {
        Err(LayoutError { code: 7 })
    }
}

fn no_content() -> Option<&'static Fixed> {
    None
}

#[test]
fn shape_kind_predicates() {
    assert!(ShapeKind::Circle.is_round() && ShapeKind::Ellipse.is_round());
    assert!(!ShapeKind::Rect.is_round());
    assert!(ShapeKind::Polygon.is_polygonal());
    assert!(ShapeKind::Square.is_quadratic() && ShapeKind::Circle.is_quadratic());
    assert!(!ShapeKind::Ellipse.is_quadratic());
}

#[test]
fn rect_without_content_defaults_to_45_by_30_with_default_stroke() {
    let rect = RectElem::default();
    let frag = rect
        .layout(no_content(), Axes { x: units(100), y: units(50) })
        .unwrap();
    assert_eq!(frag.frame.size, Axes { x: units(45), y: units(30) });
    assert_eq!(frag.frame.items.len(), 1);
    let placed = &frag.frame.items[0];
    assert_eq!(placed.pos, Point { x: 0, y: 0 });
    match &placed.item {
        FrameItem::Rounded(r) => {
            assert_eq!(r.size, Axes { x: units(45), y: units(30) });
            assert_eq!(r.fill, None);
            let default = Stroke { paint: Paint { rgba: 0x0000_00FF }, thickness: units(1) };
            assert_eq!(r.strokes, Sides::splat(Some(default)));
            assert_eq!(r.radius, Corners::splat(0));
        }
        _ => panic!("expected a rounded-rectangle primitive"),
    }
}

#[test]
fn rect_default_size_is_capped_by_the_region() {
    let rect = RectElem::default();
    let frag = rect
        .layout(no_content(), Axes { x: units(20), y: units(100) })
        .unwrap();
    assert_eq!(frag.frame.size, Axes { x: units(20), y: units(30) });
}

#[test]
fn rect_with_fill_and_auto_stroke_has_no_stroke() {
    let mut rect = RectElem::default();
    rect.fill = Some(Paint { rgba: 0x1234_56FF });
    let frag = rect
        .layout(no_content(), Axes { x: units(100), y: units(100) })
        .unwrap();
    match &frag.frame.items[0].item {
        FrameItem::Rounded(r) => {
            assert_eq!(r.fill, Some(Paint { rgba: 0x1234_56FF }));
            assert_eq!(r.strokes, Sides::splat(None));
        }
        _ => panic!("expected a rounded-rectangle primitive"),
    }
}

#[test]
fn circle_with_radius_resolves_to_twice_the_radius_square() {
    let mut circle = CircleElem {
        width: Smart::Auto,
        height: Smart::Auto,
        fill: None,
        stroke: Smart::Auto,
        inset: Sides::splat(Rel { abs: units(5), ratio: 0 }),
        outset: Sides::splat(Rel { abs: 0, ratio: 0 }),
    };
    circle.set_radius(units(10));
    let frag = circle
        .layout(no_content(), Axes { x: units(100), y: units(100) })
        .unwrap();
    assert_eq!(frag.frame.size, Axes { x: units(20), y: units(20) });
    match &frag.frame.items[0].item {
        FrameItem::Shape(sh) => {
            assert_eq!(sh.geometry, Geometry::Ellipse(Axes { x: units(20), y: units(20) }));
        }
        _ => panic!("expected an ellipse primitive"),
    }
}

#[test]
fn square_with_content_comes_out_square() {
    let square = SquareElem {
        width: Smart::Auto,
        height: Smart::Auto,
        fill: None,
        stroke: Smart::Auto,
        radius: Corners::splat(Rel { abs: 0, ratio: 0 }),
        inset: Sides::splat(Rel { abs: units(5), ratio: 0 }),
        outset: Sides::splat(Rel { abs: 0, ratio: 0 }),
    };
    let body = Fixed { w: units(20), h: units(10) };
    let frag = square
        .layout(Some(&body), Axes { x: units(200), y: units(200) })
        .unwrap();
    // Natural padded size 30 by 20; the second pass forces a 30-unit square.
    assert_eq!(frag.frame.size, Axes { x: units(30), y: units(30) });
}

#[test]
fn circle_with_content_comes_out_square() {
    let circle = CircleElem {
        width: Smart::Auto,
        height: Smart::Auto,
        fill: None,
        stroke: Smart::Auto,
        inset: Sides::splat(Rel { abs: units(5), ratio: 0 }),
        outset: Sides::splat(Rel { abs: 0, ratio: 0 }),
    };
    let body = Fixed { w: units(35), h: units(13) };
    let frag = circle
        .layout(Some(&body), Axes { x: units(300), y: units(300) })
        .unwrap();
    assert_eq!(frag.frame.size.x, frag.frame.size.y);
}

#[test]
fn content_layout_error_propagates_unchanged() {
    let rect = RectElem::default();
    match rect.layout(Some(&Failing), Axes { x: units(100), y: units(100) }) {
        Err(err) => assert_eq!(err, LayoutError { code: 7 }),
        Ok(_) => panic!("expected the content's error to propagate"),
    }
}

#[test]
fn ellipse_stroke_collapses_to_one_value() {
    // Resolve four different per-side strokes; the painted ellipse carries
    // the left side's value.
    let sides = Sides {
        top: Some(PartialStroke { paint: None, thickness: Some(units(2)) }),
        right: Some(PartialStroke { paint: None, thickness: Some(units(3)) }),
        bottom: None,
        left: Some(PartialStroke {
            paint: Some(Paint { rgba: 0x00FF_00FF }),
            thickness: Some(units(4)),
        }),
    };
    let resolved = resolve_stroke(Smart::Custom(sides), None);
    let shape = shape_layout::frame::ellipse(
        Axes { x: units(10), y: units(10) },
        None,
        resolved.left,
    );
    assert_eq!(
        shape.stroke,
        Some(Stroke { paint: Paint { rgba: 0x00FF_00FF }, thickness: units(4) })
    );
}

#[test]
fn round_layout_paints_with_the_left_stroke() {
    // Four independent per-side stroke inputs collapse to the left side's
    // value on a round shape, whichever sides are set.
    let sides = Sides {
        top: Some(PartialStroke { paint: None, thickness: Some(units(2)) }),
        right: None,
        bottom: Some(PartialStroke { paint: Some(Paint { rgba: 0x0F0F_0FFF }), thickness: None }),
        left: Some(PartialStroke {
            paint: Some(Paint { rgba: 0x00FF_00FF }),
            thickness: Some(units(4)),
        }),
    };
    let frag = shape_layout::layout::layout(
        Axes { x: units(100), y: units(100) },
        ShapeKind::Ellipse,
        no_content(),
        Axes { x: Smart::Auto, y: Smart::Auto },
        None,
        Smart::Custom(sides),
        Sides::splat(Rel { abs: units(5), ratio: 0 }),
        Sides::splat(Rel { abs: 0, ratio: 0 }),
        Corners::splat(Rel { abs: 0, ratio: 0 }),
        &Polygon::new(),
    )
    .unwrap();
    match &frag.frame.items[0].item {
        FrameItem::Shape(sh) => {
            assert_eq!(
                sh.stroke,
                Some(Stroke { paint: Paint { rgba: 0x00FF_00FF }, thickness: units(4) })
            );
        }
        _ => panic!("expected an ellipse primitive"),
    }
}

#[test]
fn auto_stroke_depends_on_fill() {
    let with_fill = resolve_stroke(Smart::Auto, Some(Paint { rgba: 1 }));
    assert_eq!(with_fill, Sides::splat(None));
    let without_fill = resolve_stroke(Smart::Auto, None);
    let default = Stroke { paint: Paint { rgba: 0x0000_00FF }, thickness: units(1) };
    assert_eq!(without_fill, Sides::splat(Some(default)));
}

#[test]
fn partial_stroke_fills_in_defaults() {
    let bare_thickness = PartialStroke { paint: None, thickness: Some(units(2)) };
    assert_eq!(
        bare_thickness.unwrap_or_default(),
        Stroke { paint: Paint { rgba: 0x0000_00FF }, thickness: units(2) }
    );
    let bare_paint = PartialStroke { paint: Some(Paint { rgba: 5 }), thickness: None };
    assert_eq!(
        bare_paint.unwrap_or_default(),
        Stroke { paint: Paint { rgba: 5 }, thickness: units(1) }
    );
}

#[test]
fn polygon_normalizes_into_the_target_box() {
    let vertices = vec![
        Vertex { x: 0, y: 0 },
        Vertex { x: units(10), y: 0 },
        Vertex { x: units(10), y: units(10) },
        Vertex { x: 0, y: units(10) },
    ];
    let polygon = Polygon::from_vertices(Vertices::new(vertices));
    let shape = polygonal_shape(
        Axes { x: units(20), y: units(20) },
        polygon,
        Some(Paint { rgba: 9 }),
        None,
    );
    assert_eq!(shape.fill, Some(Paint { rgba: 9 }));
    match shape.geometry {
        Geometry::Path(p) => {
            assert_eq!(
                p.items,
                vec![
                    PathItem::MoveTo(Point { x: 0, y: 0 }),
                    PathItem::LineTo(Point { x: units(20), y: 0 }),
                    PathItem::LineTo(Point { x: units(20), y: units(20) }),
                    PathItem::LineTo(Point { x: 0, y: units(20) }),
                    PathItem::Close,
                ]
            );
        }
        _ => panic!("expected a path"),
    }
}

#[test]
fn degenerate_axis_flattens_instead_of_failing() {
    // All vertices share one x coordinate: that axis maps to zero.
    let polygon = Polygon::from_vertices(Vertices::new(vec![
        Vertex { x: units(3), y: 0 },
        Vertex { x: units(3), y: units(5) },
    ]));
    let shape = polygonal_shape(Axes { x: units(20), y: units(10) }, polygon, None, None);
    match shape.geometry {
        Geometry::Path(p) => {
            assert_eq!(
                p.items,
                vec![
                    PathItem::MoveTo(Point { x: 0, y: 0 }),
                    PathItem::LineTo(Point { x: 0, y: units(10) }),
                    PathItem::Close,
                ]
            );
        }
        _ => panic!("expected a path"),
    }
}

#[test]
fn empty_polygon_paints_an_empty_path() {
    let shape = polygonal_shape(
        Axes { x: units(20), y: units(10) },
        Polygon::new(),
        None,
        None,
    );
    match shape.geometry {
        Geometry::Path(p) => assert!(p.items.is_empty()),
        _ => panic!("expected a path"),
    }
}

#[test]
fn polygon_element_validates_its_path() {
    let elem = PolygonElem::new(
        Smart::Auto,
        Smart::Auto,
        ecow::EcoString::from("0,0;10,0;5,8"),
        Some(Paint { rgba: 3 }),
        Smart::Auto,
        Sides::splat(Rel { abs: units(5), ratio: 0 }),
        Sides::splat(Rel { abs: 0, ratio: 0 }),
    )
    .unwrap();
    let frag = elem
        .layout(no_content(), Axes { x: units(100), y: units(100) })
        .unwrap();
    assert_eq!(frag.frame.size, Axes { x: units(45), y: units(30) });
    match &frag.frame.items[0].item {
        FrameItem::Shape(sh) => match &sh.geometry {
            Geometry::Path(p) => assert_eq!(p.items.len(), 4),
            _ => panic!("expected a path"),
        },
        _ => panic!("expected a shape primitive"),
    }

    let bad = PolygonElem::new(
        Smart::Auto,
        Smart::Auto,
        ecow::EcoString::from("0,0;nope,0"),
        None,
        Smart::Auto,
        Sides::splat(Rel { abs: units(5), ratio: 0 }),
        Sides::splat(Rel { abs: 0, ratio: 0 }),
    );
    assert!(bad.is_err());
}

#[test]
fn outset_enlarges_the_painted_box_and_offsets_it() {
    let ellipse = EllipseElem {
        width: Smart::Custom(Rel { abs: units(10), ratio: 0 }),
        height: Smart::Custom(Rel { abs: units(8), ratio: 0 }),
        fill: Some(Paint { rgba: 2 }),
        stroke: Smart::Auto,
        inset: Sides::splat(Rel { abs: units(5), ratio: 0 }),
        outset: Sides::splat(Rel { abs: units(1), ratio: 0 }),
    };
    let frag = ellipse
        .layout(no_content(), Axes { x: units(100), y: units(100) })
        .unwrap();
    assert_eq!(frag.frame.size, Axes { x: units(10), y: units(8) });
    let placed = &frag.frame.items[0];
    assert_eq!(placed.pos, Point { x: -units(1), y: -units(1) });
    match &placed.item {
        FrameItem::Shape(sh) => {
            assert_eq!(sh.geometry, Geometry::Ellipse(Axes { x: units(12), y: units(10) }));
        }
        _ => panic!("expected an ellipse primitive"),
    }
}

#[test]
fn relative_sizes_resolve_against_the_region() {
    // A ratio of 350000 parts per million is 35 percent.
    let rect = RectElem {
        width: Smart::Custom(Rel { abs: 0, ratio: 350_000 }),
        height: Smart::Custom(Rel { abs: units(30), ratio: 0 }),
        ..RectElem::default()
    };
    let frag = rect
        .layout(no_content(), Axes { x: units(200), y: units(100) })
        .unwrap();
    assert_eq!(frag.frame.size, Axes { x: units(70), y: units(30) });
}

#[test]
fn cascade_fold_picks_innermost_then_catch_all_then_default() {
    let inner = SideScope {
        top: Some(1),
        right: None,
        bottom: None,
        left: None,
        rest: Some(2),
    };
    let outer = SideScope {
        top: Some(8),
        right: Some(9),
        bottom: None,
        left: None,
        rest: None,
    };
    let folded = fold_sides(&vec![inner, outer], 0);
    assert_eq!(folded, Sides { top: 1, right: 2, bottom: 2, left: 2 });

    let no_rest = SideScope {
        top: None,
        right: Some(4),
        bottom: None,
        left: None,
        rest: None,
    };
    let folded = fold_sides(&vec![no_rest, outer], 7);
    assert_eq!(folded, Sides { top: 8, right: 4, bottom: 7, left: 7 });
}

#[test]
fn round_insets_widen_by_the_curvature_margin() {
    // An ellipse with an explicit 20-by-20 size and a 5-unit inset places
    // its content at 5 + (0.5 - sqrt(2)/4) * 20 units from each edge.
    let ellipse = EllipseElem {
        width: Smart::Custom(Rel { abs: units(20), ratio: 0 }),
        height: Smart::Custom(Rel { abs: units(20), ratio: 0 }),
        fill: None,
        stroke: Smart::Custom(None),
        inset: Sides::splat(Rel { abs: units(5), ratio: 0 }),
        outset: Sides::splat(Rel { abs: 0, ratio: 0 }),
    };
    let body = Fixed { w: units(1), h: units(1) };
    let frag = ellipse
        .layout(Some(&body), Axes { x: units(100), y: units(100) })
        .unwrap();
    assert_eq!(frag.frame.size, Axes { x: units(20), y: units(20) });
    // 146447 parts per million of 20 units is 2928940 micro-units.
    let pad = units(5) + 2_928_940;
    let placed = &frag.frame.items[0];
    assert_eq!(placed.pos, Point { x: pad, y: pad });
    match &placed.item {
        FrameItem::Group(inner) => {
            assert_eq!(inner.size, Axes { x: units(20) - 2 * pad, y: units(20) - 2 * pad });
        }
        _ => panic!("expected the padded content group"),
    }
}

#[test]
fn corner_cascade_picks_innermost_then_catch_all_then_default() {
    let inner = CornerScope {
        top_left: Some(1),
        top_right: None,
        bottom_right: None,
        bottom_left: None,
        rest: None,
    };
    let outer = CornerScope {
        top_left: Some(8),
        top_right: Some(9),
        bottom_right: None,
        bottom_left: None,
        rest: Some(3),
    };
    let folded = fold_corners(&vec![inner, outer], 0);
    assert_eq!(
        folded,
        Corners { top_left: 1, top_right: 9, bottom_right: 3, bottom_left: 3 }
    );
    let empty: Vec<CornerScope<i64>> = Vec::new();
    assert_eq!(folded.top_left, 1);
    assert_eq!(fold_corners(&empty, 7), Corners::splat(7));
}

#[test]
fn cascade_fold_is_associative_in_scope_order() {
    let a = SideScope {
        top: Some(1),
        right: None,
        bottom: None,
        left: None,
        rest: None,
    };
    let b = SideScope {
        top: Some(2),
        right: Some(3),
        bottom: None,
        left: None,
        rest: Some(4),
    };
    let c = SideScope {
        top: None,
        right: None,
        bottom: Some(5),
        left: None,
        rest: Some(6),
    };
    let merged = fold_side_pair(&fold_side_pair(&a, &b), &c);
    for side in [Side::Top, Side::Right, Side::Bottom, Side::Left] {
        let flat = fold_side(&vec![a, b, c], side, 0);
        let pairwise = fold_side(&vec![merged], side, 0);
        assert_eq!(flat, pairwise);
    }
}
