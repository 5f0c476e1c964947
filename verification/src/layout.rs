//! The shape sizing and layout engine: resolves the intended size against
//! the region, runs one or two content-layout passes (a second pass forces
//! square and circle frames exactly square), decides the final frame size,
//! resolves the stroke, and paints the shape beneath the content.

use vstd::prelude::*;

verus! {

use crate::ShapeKind;
use crate::frame::Frame;
use crate::frame::FrameItem;
use crate::frame::Geometry;
use crate::frame::Placed;
use crate::frame::RoundedRect;
use crate::frame::Shape;
use crate::geom::Axes;
use crate::geom::CURVE_MARGIN_PPM;
use crate::geom::Point;
use crate::geom::Rel;
use crate::geom::Size;
use crate::geom::Smart;
use crate::normalize::polygonal_shape;
use crate::normalize::spec_poly_path;
use crate::num::ABS_MAX;
use crate::num::BASE_MAX;
use crate::num::CONTENT_MAX;
use crate::num::POD_MAX;
use crate::num::min_len;
use crate::num::max_len;
use crate::num::tdiv;
use crate::poly::Polygon;
use crate::poly::Vertex;
use crate::sides::Corners;
use crate::sides::Sides;
use crate::stroke::Paint;
use crate::stroke::PartialStroke;
use crate::stroke::Stroke;
use crate::stroke::any_stroke;
use crate::stroke::resolve_stroke;
use crate::stroke::spec_any_stroke;
use crate::stroke::spec_resolve_stroke;

/// The default width a shape without content takes, region permitting.
pub const DEFAULT_WIDTH: i64 = 45_000_000;

/// The default height a shape without content takes, region permitting.
pub const DEFAULT_HEIGHT: i64 = 30_000_000;

/// A layout failure of nested content, propagated unchanged.
#[derive(Debug, Clone, Copy, PartialEq, Eq, Structural)]
pub struct LayoutError {
    /// A host-defined discriminator for the failure.
    pub code: u64,
}

/// A region to lay content out into: a size, and per axis whether the
/// content may expand to fill it.
#[derive(Debug, Clone, Copy, PartialEq, Eq, Structural)]
pub struct Pod {
    /// The region's size.
    pub size: Size,
    /// Whether content may expand to the region's full extent, per axis.
    pub expand: Axes<bool>,
}

impl Pod {
    /// Whether the region's sides lie within the geometric domain.
    pub open spec fn wf(self) -> bool {
        &&& -POD_MAX <= self.size.x <= POD_MAX
        &&& -POD_MAX <= self.size.y <= POD_MAX
    }
}

/// Nested content with its own layout capability. The engine treats the
/// call as a blocking computation returning a sized frame: on an axis that
/// may expand, the returned frame fills the region exactly, and on an axis
/// that may not, the content sizes itself within the natural domain.
pub trait Content {
    /// Lays the content out into the pod.
    fn layout(&self, pod: &Pod) -> (r: Result<Frame, LayoutError>)
        requires
            pod.wf(),
        ensures
            r matches Result::Ok(f) ==> {
                &&& (pod.expand.x ==> f.size.x == pod.size.x)
                &&& (pod.expand.y ==> f.size.y == pod.size.y)
                &&& (!pod.expand.x ==> -CONTENT_MAX <= f.size.x <= CONTENT_MAX)
                &&& (!pod.expand.y ==> -CONTENT_MAX <= f.size.y <= CONTENT_MAX)
            },
    ;
}

/// The single-region output of a shape layout: exactly one frame.
pub struct Fragment {
    /// The one frame.
    pub frame: Frame,
}

/// A well-formed size intent: an explicit value keeps its parts in the raw
/// input domain.
pub open spec fn intent_wf(s: Smart<Rel>) -> bool {
    match s {
        Smart::Auto => true,
        Smart::Custom(rel) => rel.wf(),
    }
}

/// A per-side map of well-formed relative lengths.
pub open spec fn sides_wf(s: Sides<Rel>) -> bool {
    s.top.wf() && s.right.wf() && s.bottom.wf() && s.left.wf()
}

/// A per-corner map of well-formed relative lengths.
pub open spec fn corners_wf(c: Corners<Rel>) -> bool {
    c.top_left.wf() && c.top_right.wf() && c.bottom_right.wf() && c.bottom_left.wf()
}

/// The size an intent resolves to against a base, when explicit.
pub open spec fn spec_resolved_axis(s: Smart<Rel>, base: int) -> Option<int> {
    match s {
        Smart::Auto => Option::None,
        Smart::Custom(rel) => Option::Some(rel.spec_resolve(base)),
    }
}

/// The frame size of a shape without content: the explicit size where
/// given, else a default capped to the region; quadratic kinds collapse
/// both axes to the smaller one.
pub open spec fn spec_empty_size(kind: ShapeKind, sizing: Axes<Smart<Rel>>, region: Size) -> (
    int,
    int,
) {
    let dw = if DEFAULT_WIDTH <= region.x {
        DEFAULT_WIDTH as int
    } else {
        region.x as int
    };
    let dh = if DEFAULT_HEIGHT <= region.y {
        DEFAULT_HEIGHT as int
    } else {
        region.y as int
    };
    let w = match spec_resolved_axis(sizing.x, region.x as int) {
        Option::Some(v) => v,
        Option::None => dw,
    };
    let h = match spec_resolved_axis(sizing.y, region.y as int) {
        Option::Some(v) => v,
        Option::None => dh,
    };
    if kind is Square || kind is Circle {
        let s = if w <= h {
            w
        } else {
            h
        };
        (s, s)
    } else {
        (w, h)
    }
}

/// The region the content passes use: the resolved size when both axes are
/// explicit, else the region's base size.
pub open spec fn spec_chosen_region(sizing: Axes<Smart<Rel>>, region: Size) -> (int, int) {
    match (sizing.x, sizing.y) {
        (Smart::Custom(w), Smart::Custom(h)) => (
            w.spec_resolve(region.x as int),
            h.spec_resolve(region.y as int),
        ),
        _ => (region.x as int, region.y as int),
    }
}

/// The padding around nested content: the insets, widened by the curvature
/// margin for round kinds.
pub open spec fn spec_pad_rel(kind: ShapeKind, inset: Sides<Rel>) -> Sides<Rel> {
    if kind is Circle || kind is Ellipse {
        Sides {
            top: Rel { abs: inset.top.abs, ratio: (inset.top.ratio + CURVE_MARGIN_PPM) as i64 },
            right: Rel {
                abs: inset.right.abs,
                ratio: (inset.right.ratio + CURVE_MARGIN_PPM) as i64,
            },
            bottom: Rel {
                abs: inset.bottom.abs,
                ratio: (inset.bottom.ratio + CURVE_MARGIN_PPM) as i64,
            },
            left: Rel { abs: inset.left.abs, ratio: (inset.left.ratio + CURVE_MARGIN_PPM) as i64 },
        }
    } else {
        inset
    }
}

/// What every result of a shape layout satisfies. Without content the
/// layout always succeeds and the pre-paint frame is empty with exactly the
/// computed default-or-explicit size; with content, an error is only the
/// content's own. On success the frame of a square or circle has equal
/// sides, and the frame is a base frame with the paint primitive applied
/// per [`spec_paint_applied`]. With content, the base frame holds exactly
/// the laid-out content, placed at the resolved padding offset, and its size
/// is the content's plus the padding.
pub open spec fn spec_layout_post(
    region: Size,
    kind: ShapeKind,
    body_present: bool,
    sizing: Axes<Smart<Rel>>,
    fill: Option<Paint>,
    stroke: Smart<Sides<Option<PartialStroke>>>,
    inset: Sides<Rel>,
    outset: Sides<Rel>,
    radius: Corners<Rel>,
    verts: Seq<Vertex>,
    r: Result<Fragment, LayoutError>,
) -> bool {
    &&& (!body_present ==> r is Ok)
    &&& (r matches Result::Ok(frag) ==> ((kind is Square || kind is Circle)
        ==> frag.frame.size.x == frag.frame.size.y))
    &&& (r matches Result::Ok(frag) ==> (exists|base: Frame|
        {
            &&& #[trigger] spec_paint_applied(
                kind,
                base,
                fill,
                spec_resolve_stroke(stroke, fill),
                outset,
                radius,
                verts,
                frag.frame,
            )
            &&& -BASE_MAX <= base.size.x <= BASE_MAX
            &&& -BASE_MAX <= base.size.y <= BASE_MAX
            &&& ((kind is Square || kind is Circle) ==> base.size.x == base.size.y)
            &&& (!body_present ==> base.items@ =~= Seq::<Placed>::empty() && (
            base.size.x as int,
            base.size.y as int,
            ) == spec_empty_size(kind, sizing, region))
            &&& (body_present ==> {
                let cr = spec_chosen_region(sizing, region);
                let p = spec_pad_rel(kind, inset);
                let pl = p.left.spec_resolve(cr.0);
                let pg = p.right.spec_resolve(cr.0);
                let pt = p.top.spec_resolve(cr.1);
                let pb = p.bottom.spec_resolve(cr.1);
                &&& base.items@.len() == 1
                &&& base.items@[0].pos == (Point { x: pl as i64, y: pt as i64 })
                &&& (base.items@[0].item matches FrameItem::Group(inner) && base.size.x as int
                    == inner.size.x + pl + pg && base.size.y as int == inner.size.y + pt + pb)
                &&& ((kind is Square || kind is Circle) ==> base.size.x as int <= (if cr.0 <= cr.1 {
                    cr.0
                } else {
                    cr.1
                }))
            })
        }))
}

/// Whether `out` is `base` with the shape's paint primitive applied: when a
/// fill or any stroke side is present, exactly one primitive is prepended —
/// an ellipse or normalized polygon path in the outset-enlarged box with the
/// left stroke, or a rounded rectangle with per-edge strokes and resolved
/// per-corner radii — and otherwise `out` is `base` untouched.
pub open spec fn spec_paint_applied(
    kind: ShapeKind,
    base: Frame,
    fill: Option<Paint>,
    strokes: Sides<Option<Stroke>>,
    outset: Sides<Rel>,
    radius: Corners<Rel>,
    verts: Seq<Vertex>,
    out: Frame,
) -> bool {
    let w = base.size.x as int;
    let h = base.size.y as int;
    let ol = outset.left.spec_resolve(w);
    let og = outset.right.spec_resolve(w);
    let ot = outset.top.spec_resolve(h);
    let ob = outset.bottom.spec_resolve(h);
    let w2 = w + ol + og;
    let h2 = h + ot + ob;
    let pos = Point { x: (-ol) as i64, y: (-ot) as i64 };
    if !(fill is Some || spec_any_stroke(strokes)) {
        out == base
    } else if kind is Circle || kind is Ellipse {
        &&& out.size == base.size
        &&& out.items@ == seq![
            Placed {
                pos,
                item: FrameItem::Shape(
                    Shape {
                        geometry: Geometry::Ellipse(Axes { x: w2 as i64, y: h2 as i64 }),
                        fill,
                        stroke: strokes.left,
                    },
                ),
            },
        ] + base.items@
    } else if kind is Polygon {
        &&& out.size == base.size
        &&& out.items@.len() == base.items@.len() + 1
        &&& out.items@.skip(1) == base.items@
        &&& out.items@[0].pos == pos
        &&& (out.items@[0].item matches FrameItem::Shape(sh) && sh.fill == fill && sh.stroke
            == strokes.left && (sh.geometry matches Geometry::Path(p) && p.items@
            == spec_poly_path(verts, w2, h2)))
    } else {
        let rbase = tdiv(if w <= h { w } else { h }, 2);
        &&& out.size == base.size
        &&& out.items@ == seq![
            Placed {
                pos,
                item: FrameItem::Rounded(
                    RoundedRect {
                        size: Axes { x: w2 as i64, y: h2 as i64 },
                        radius: Corners {
                            top_left: radius.top_left.spec_resolve(rbase) as i64,
                            top_right: radius.top_right.spec_resolve(rbase) as i64,
                            bottom_right: radius.bottom_right.spec_resolve(rbase) as i64,
                            bottom_left: radius.bottom_left.spec_resolve(rbase) as i64,
                        },
                        fill,
                        strokes,
                    },
                ),
            },
        ] + base.items@
    }
}

/// Truncating halving of a length.
fn half_len(m: i64) -> (r: i64)
    requires
        -BASE_MAX <= m <= BASE_MAX,
    ensures
        r == tdiv(m as int, 2),
        -BASE_MAX <= r <= BASE_MAX,
{
    if m >= 0 {
        m / 2
    } else {
        -((-m) / 2)
    }
}

/// Paints the shape into the frame per [`spec_paint_applied`], prepending
/// the primitive so that it renders beneath the frame's content. For round
/// kinds the single stroke is the resolved left side.
#[verifier::rlimit(60)]
fn paint_shape(
    frame: &mut Frame,
    kind: ShapeKind,
    fill: Option<Paint>,
    strokes: Sides<Option<Stroke>>,
    outset: Sides<Rel>,
    radius: Corners<Rel>,
    vertices: &Polygon,
)
    requires
        -BASE_MAX <= old(frame).size.x <= BASE_MAX,
        -BASE_MAX <= old(frame).size.y <= BASE_MAX,
        sides_wf(outset),
        corners_wf(radius),
        vertices.wf(),
    ensures
        spec_paint_applied(
            kind,
            *old(frame),
            fill,
            strokes,
            outset,
            radius,
            vertices.vertices@,
            *final(frame),
        ),
        final(frame).size == old(frame).size,
{
    if fill.is_none() && !any_stroke(&strokes) {
        return ;
    }
    let w = frame.size.x;
    let h = frame.size.y;
    let ol = outset.left.resolve(w);
    let og = outset.right.resolve(w);
    let ot = outset.top.resolve(h);
    let ob = outset.bottom.resolve(h);
    let w2 = w + ol + og;
    let h2 = h + ot + ob;
    let pos = Point { x: -ol, y: -ot };
    if kind.is_round() {
        let shape = crate::frame::ellipse(Axes { x: w2, y: h2 }, fill, strokes.left);
        frame.prepend(pos, FrameItem::Shape(shape));
    } else if kind.is_polygonal() {
        let shape = polygonal_shape(Axes { x: w2, y: h2 }, vertices.duplicate(), fill, strokes.left);
        frame.prepend(pos, FrameItem::Shape(shape));
        proof {
            assert(frame.items@.skip(1) =~= old(frame).items@);
        }
    } else {
        let m = min_len(w, h);
        let rbase = half_len(m);
        let rect = RoundedRect {
            size: Axes { x: w2, y: h2 },
            radius: Corners {
                top_left: radius.top_left.resolve(rbase),
                top_right: radius.top_right.resolve(rbase),
                bottom_right: radius.bottom_right.resolve(rbase),
                bottom_left: radius.bottom_left.resolve(rbase),
            },
            fill,
            strokes,
        };
        frame.prepend(pos, FrameItem::Rounded(rect));
    }
}

/// Lays out a shape: resolves the size intents against the region, lays
/// nested content out in one pass — two for square and circle kinds, whose
/// frames always come out with equal sides — or takes the default size when
/// there is no content, resolves the stroke (automatic gives a uniform
/// one-unit stroke exactly when no fill is set), and paints the shape
/// beneath the content. Without content the layout cannot fail, and the
/// resulting frame is exactly the painted empty frame of the computed size;
/// an error is only ever the content's own, propagated unchanged.
#[verifier::rlimit(100)]
pub fn layout<C: Content>(
    region: Size,
    kind: ShapeKind,
    body: Option<&C>,
    sizing: Axes<Smart<Rel>>,
    fill: Option<Paint>,
    stroke: Smart<Sides<Option<PartialStroke>>>,
    inset: Sides<Rel>,
    outset: Sides<Rel>,
    radius: Corners<Rel>,
    vertices: &Polygon,
) -> (r: Result<Fragment, LayoutError>)
    requires
        -ABS_MAX <= region.x <= ABS_MAX,
        -ABS_MAX <= region.y <= ABS_MAX,
        intent_wf(sizing.x),
        intent_wf(sizing.y),
        sides_wf(inset),
        sides_wf(outset),
        corners_wf(radius),
        vertices.wf(),
    ensures
        spec_layout_post(
            region,
            kind,
            body is Some,
            sizing,
            fill,
            stroke,
            inset,
            outset,
            radius,
            vertices.vertices@,
            r,
        ),
{
    let rx: Option<i64> = match sizing.x {
        Smart::Auto => Option::None,
        Smart::Custom(rel) => Option::Some(rel.resolve(region.x)),
    };
    let ry: Option<i64> = match sizing.y {
        Smart::Auto => Option::None,
        Smart::Custom(rel) => Option::Some(rel.resolve(region.y)),
    };
    let mut frame: Frame;
    match body {
        Option::Some(child) => {
            // The region for the content passes: the resolved size when
            // both axes are explicit, else the region's own base size.
            let (cw, ch): (i64, i64) = match (rx, ry) {
                (Option::Some(w), Option::Some(h)) => (w, h),
                _ => (region.x, region.y),
            };
            // Round shapes widen the insets by the curvature margin so the
            // inscribed content box stays inside the curved boundary.
            let pad_rel: Sides<Rel> = if kind.is_round() {
                Sides {
                    top: inset.top.inflate_round(),
                    right: inset.right.inflate_round(),
                    bottom: inset.bottom.inflate_round(),
                    left: inset.left.inflate_round(),
                }
            } else {
                inset
            };
            let pl = pad_rel.left.resolve(cw);
            let pr = pad_rel.right.resolve(cw);
            let pt = pad_rel.top.resolve(ch);
            let pb = pad_rel.bottom.resolve(ch);
            let expand = Axes { x: sizing.x.is_custom(), y: sizing.y.is_custom() };
            let pod = Pod { size: Axes { x: cw - pl - pr, y: ch - pt - pb }, expand };
            let inner = match child.layout(&pod) {
                Result::Ok(f) => f,
                Result::Err(e) => {
                    return Result::Err(e);
                },
            };
            frame = Frame {
                size: Axes { x: inner.size.x + pl + pr, y: inner.size.y + pt + pb },
                items: Vec::new(),
            };
            frame.items.push(
                Placed { pos: Point { x: pl, y: pt }, item: FrameItem::Group(Box::new(inner)) },
            );
            // A second pass into a square region, both axes expanding, makes
            // the result exactly square without exceeding the region.
            if kind.is_quadratic() {
                let side = min_len(max_len(frame.size.x, frame.size.y), min_len(cw, ch));
                let pod2 = Pod {
                    size: Axes { x: side - pl - pr, y: side - pt - pb },
                    expand: Axes { x: true, y: true },
                };
                let inner2 = match child.layout(&pod2) {
                    Result::Ok(f) => f,
                    Result::Err(e) => {
                        return Result::Err(e);
                    },
                };
                frame = Frame {
                    size: Axes { x: inner2.size.x + pl + pr, y: inner2.size.y + pt + pb },
                    items: Vec::new(),
                };
                frame.items.push(
                    Placed {
                        pos: Point { x: pl, y: pt },
                        item: FrameItem::Group(Box::new(inner2)),
                    },
                );
            }
        },
        Option::None => {
            // The default size a shape takes with no content and enough
            // space.
            let dw = min_len(DEFAULT_WIDTH, region.x);
            let dh = min_len(DEFAULT_HEIGHT, region.y);
            let mut w = match rx {
                Option::Some(v) => v,
                Option::None => dw,
            };
            let mut h = match ry {
                Option::Some(v) => v,
                Option::None => dh,
            };
            if kind.is_quadratic() {
                let s = min_len(w, h);
                w = s;
                h = s;
            }
            frame = Frame::new(Axes { x: w, y: h });
        },
    }
    let ghost base = frame;
    let strokes = resolve_stroke(stroke, fill);
    if fill.is_some() || any_stroke(&strokes) {
        paint_shape(&mut frame, kind, fill, strokes, outset, radius, vertices);
    } else {
        proof {
            assert(spec_paint_applied(
                kind,
                base,
                fill,
                strokes,
                outset,
                radius,
                vertices.vertices@,
                frame,
            ));
        }
    }
    proof {
        assert(spec_paint_applied(
            kind,
            base,
            fill,
            spec_resolve_stroke(stroke, fill),
            outset,
            radius,
            vertices.vertices@,
            frame,
        ));
        assert(-BASE_MAX <= base.size.x <= BASE_MAX);
        assert(-BASE_MAX <= base.size.y <= BASE_MAX);
        if kind is Square || kind is Circle {
            assert(base.size.x == base.size.y);
        }
        if body is None {
            assert(base.items@ =~= Seq::<Placed>::empty());
            assert((base.size.x as int, base.size.y as int) == spec_empty_size(
                kind,
                sizing,
                region,
            ));
        }
    }
    let ghost gframe = frame;
    let res: Result<Fragment, LayoutError> = Result::Ok(Fragment { frame });
    proof {
        assert(res matches Result::Ok(frag) && frag.frame == gframe);
    }
    res
}

} // verus!
