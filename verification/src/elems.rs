//! The shape elements: a rectangle, square, ellipse, polygon and circle,
//! each with optional nested content. Every element carries its size
//! intents, fill, stroke intent, inset, outset and — for rectangular kinds —
//! per-corner radii, and lays itself out through the shared engine.

use vstd::prelude::*;

verus! {

use crate::ShapeKind;
use crate::eco::eco_as_str;
use crate::eco::eco_chars;
use crate::geom::Axes;
use crate::geom::Rel;
use crate::geom::Size;
use crate::geom::Smart;
use crate::layout::Content;
use crate::layout::Fragment;
use crate::layout::LayoutError;
use crate::layout::corners_wf;
use crate::layout::intent_wf;
use crate::layout::layout;
use crate::layout::sides_wf;
use crate::layout::spec_layout_post;
use crate::num::ABS_MAX;
use crate::poly::Polygon;
use crate::poly::Vertex;
use crate::sides::Corners;
use crate::sides::Sides;
use crate::stroke::Paint;
use crate::stroke::PartialStroke;
use crate::text::TextParse;
use crate::text::parse_vertices;
use crate::text::spec_parse_vertices;

/// The default inset around a shape's content: five units.
pub const DEFAULT_INSET: i64 = 5_000_000;

/// A rectangle with optional content.
pub struct RectElem {
    /// The rectangle's width, relative to its parent region.
    pub width: Smart<Rel>,
    /// The rectangle's height, relative to its parent region.
    pub height: Smart<Rel>,
    /// How to fill the rectangle.
    pub fill: Option<Paint>,
    /// How to stroke the rectangle, per side.
    pub stroke: Smart<Sides<Option<PartialStroke>>>,
    /// How much to round the rectangle's corners.
    pub radius: Corners<Rel>,
    /// How much to pad the rectangle's content.
    pub inset: Sides<Rel>,
    /// How much to expand the rectangle's size without affecting the layout.
    pub outset: Sides<Rel>,
}

impl RectElem {
    /// Whether every attribute lies within the raw input domain.
    pub open spec fn wf(self) -> bool {
        &&& intent_wf(self.width)
        &&& intent_wf(self.height)
        &&& sides_wf(self.inset)
        &&& sides_wf(self.outset)
        &&& corners_wf(self.radius)
    }

    /// Lays the rectangle out into the region.
    pub fn layout<C: Content>(&self, body: Option<&C>, region: Size) -> (r: Result<
        Fragment,
        LayoutError,
    >)
        requires
            self.wf(),
            -ABS_MAX <= region.x <= ABS_MAX,
            -ABS_MAX <= region.y <= ABS_MAX,
        ensures
            spec_layout_post(
                region,
                ShapeKind::Rect,
                body is Some,
                Axes { x: self.width, y: self.height },
                self.fill,
                self.stroke,
                self.inset,
                self.outset,
                self.radius,
                Seq::<Vertex>::empty(),
                r,
            ),
    {
        let empty = Polygon::new();
        layout(
            region,
            ShapeKind::Rect,
            body,
            Axes { x: self.width, y: self.height },
            self.fill,
            self.stroke,
            self.inset,
            self.outset,
            self.radius,
            &empty,
        )
    }
}

impl Default for RectElem {
    /// A rectangle with automatic size, no fill, automatic stroke, sharp
    /// corners and the default inset.
    fn default() -> (r: RectElem)
        ensures
            r.width is Auto,
            r.height is Auto,
            r.fill is None,
            r.stroke is Auto,
            r.radius == (Corners::<Rel> {
                top_left: Rel { abs: 0, ratio: 0 },
                top_right: Rel { abs: 0, ratio: 0 },
                bottom_right: Rel { abs: 0, ratio: 0 },
                bottom_left: Rel { abs: 0, ratio: 0 },
            }),
            r.inset == (Sides::<Rel> {
                top: Rel { abs: DEFAULT_INSET, ratio: 0 },
                right: Rel { abs: DEFAULT_INSET, ratio: 0 },
                bottom: Rel { abs: DEFAULT_INSET, ratio: 0 },
                left: Rel { abs: DEFAULT_INSET, ratio: 0 },
            }),
            r.outset == (Sides::<Rel> {
                top: Rel { abs: 0, ratio: 0 },
                right: Rel { abs: 0, ratio: 0 },
                bottom: Rel { abs: 0, ratio: 0 },
                left: Rel { abs: 0, ratio: 0 },
            }),
            r.wf(),
    {
        RectElem {
            width: Smart::Auto,
            height: Smart::Auto,
            fill: Option::None,
            stroke: Smart::Auto,
            radius: Corners::splat(Rel { abs: 0, ratio: 0 }),
            inset: Sides::splat(Rel { abs: DEFAULT_INSET, ratio: 0 }),
            outset: Sides::splat(Rel { abs: 0, ratio: 0 }),
        }
    }
}

/// A square with optional content: its frame always has equal sides.
pub struct SquareElem {
    /// The square's width; a single size sets both axes.
    pub width: Smart<Rel>,
    /// The square's height; a single size sets both axes.
    pub height: Smart<Rel>,
    /// How to fill the square.
    pub fill: Option<Paint>,
    /// How to stroke the square, per side.
    pub stroke: Smart<Sides<Option<PartialStroke>>>,
    /// How much to round the square's corners.
    pub radius: Corners<Rel>,
    /// How much to pad the square's content.
    pub inset: Sides<Rel>,
    /// How much to expand the square's size without affecting the layout.
    pub outset: Sides<Rel>,
}

impl SquareElem {
    /// Whether every attribute lies within the raw input domain.
    pub open spec fn wf(self) -> bool {
        &&& intent_wf(self.width)
        &&& intent_wf(self.height)
        &&& sides_wf(self.inset)
        &&& sides_wf(self.outset)
        &&& corners_wf(self.radius)
    }

    /// Sets the side length convenience value: it expands into both axes.
    pub fn set_size(&mut self, size: Rel)
        ensures
            final(self).width == Smart::Custom(size),
            final(self).height == Smart::Custom(size),
            final(self).fill == old(self).fill,
            final(self).stroke == old(self).stroke,
            final(self).radius == old(self).radius,
            final(self).inset == old(self).inset,
            final(self).outset == old(self).outset,
    {
        self.width = Smart::Custom(size);
        self.height = Smart::Custom(size);
    }

    /// Lays the square out into the region; the frame comes out with equal
    /// sides.
    pub fn layout<C: Content>(&self, body: Option<&C>, region: Size) -> (r: Result<
        Fragment,
        LayoutError,
    >)
        requires
            self.wf(),
            -ABS_MAX <= region.x <= ABS_MAX,
            -ABS_MAX <= region.y <= ABS_MAX,
        ensures
            spec_layout_post(
                region,
                ShapeKind::Square,
                body is Some,
                Axes { x: self.width, y: self.height },
                self.fill,
                self.stroke,
                self.inset,
                self.outset,
                self.radius,
                Seq::<Vertex>::empty(),
                r,
            ),
    {
        let empty = Polygon::new();
        layout(
            region,
            ShapeKind::Square,
            body,
            Axes { x: self.width, y: self.height },
            self.fill,
            self.stroke,
            self.inset,
            self.outset,
            self.radius,
            &empty,
        )
    }
}

/// An ellipse with optional content.
pub struct EllipseElem {
    /// The ellipse's width, relative to its parent region.
    pub width: Smart<Rel>,
    /// The ellipse's height, relative to its parent region.
    pub height: Smart<Rel>,
    /// How to fill the ellipse.
    pub fill: Option<Paint>,
    /// How to stroke the ellipse; one stroke serves the whole outline.
    pub stroke: Smart<Option<PartialStroke>>,
    /// How much to pad the ellipse's content.
    pub inset: Sides<Rel>,
    /// How much to expand the ellipse's size without affecting the layout.
    pub outset: Sides<Rel>,
}

impl EllipseElem {
    /// Whether every attribute lies within the raw input domain.
    pub open spec fn wf(self) -> bool {
        &&& intent_wf(self.width)
        &&& intent_wf(self.height)
        &&& sides_wf(self.inset)
        &&& sides_wf(self.outset)
    }

    /// Lays the ellipse out into the region.
    pub fn layout<C: Content>(&self, body: Option<&C>, region: Size) -> (r: Result<
        Fragment,
        LayoutError,
    >)
        requires
            self.wf(),
            -ABS_MAX <= region.x <= ABS_MAX,
            -ABS_MAX <= region.y <= ABS_MAX,
        ensures
            spec_layout_post(
                region,
                ShapeKind::Ellipse,
                body is Some,
                Axes { x: self.width, y: self.height },
                self.fill,
                spec_splat_stroke(self.stroke),
                self.inset,
                self.outset,
                spec_zero_corners(),
                Seq::<Vertex>::empty(),
                r,
            ),
    {
        let empty = Polygon::new();
        layout(
            region,
            ShapeKind::Ellipse,
            body,
            Axes { x: self.width, y: self.height },
            self.fill,
            splat_stroke(self.stroke),
            self.inset,
            self.outset,
            Corners::splat(Rel::zero()),
            &empty,
        )
    }
}

/// A polygon with optional content, drawn from a textual vertex list.
pub struct PolygonElem {
    /// The polygon's width, relative to its parent region.
    pub width: Smart<Rel>,
    /// The polygon's height, relative to its parent region.
    pub height: Smart<Rel>,
    /// The vertex-list text; validated at construction.
    pub path: ecow::EcoString,
    /// How to fill the polygon.
    pub fill: Option<Paint>,
    /// How to stroke the polygon; one stroke serves the whole outline.
    pub stroke: Smart<Option<PartialStroke>>,
    /// How much to pad the polygon's content.
    pub inset: Sides<Rel>,
    /// How much to expand the polygon's size without affecting the layout.
    pub outset: Sides<Rel>,
}

/// The vertices a well-formed vertex-list text denotes.
pub open spec fn spec_path_verts(s: Seq<char>) -> Seq<Vertex> {
    match spec_parse_vertices(s) {
        TextParse::Parsed(vs) => vs,
        TextParse::NumberFormat(_) => Seq::<Vertex>::empty(),
        TextParse::Arity(_) => Seq::<Vertex>::empty(),
    }
}

impl PolygonElem {
    /// Whether every attribute lies within the raw input domain and the
    /// vertex-list text is well-formed.
    pub open spec fn wf(self) -> bool {
        &&& intent_wf(self.width)
        &&& intent_wf(self.height)
        &&& sides_wf(self.inset)
        &&& sides_wf(self.outset)
        &&& spec_parse_vertices(eco_chars(self.path)) is Parsed
    }

    /// Validates the vertex-list text and builds the element; a text that
    /// does not parse is rejected with its parse error.
    pub fn new(
        width: Smart<Rel>,
        height: Smart<Rel>,
        path: ecow::EcoString,
        fill: Option<Paint>,
        stroke: Smart<Option<PartialStroke>>,
        inset: Sides<Rel>,
        outset: Sides<Rel>,
    ) -> (r: Result<PolygonElem, crate::text::ParseError>)
        ensures
            r matches Result::Ok(e) ==> e == (PolygonElem {
                width,
                height,
                path,
                fill,
                stroke,
                inset,
                outset,
            }) && spec_parse_vertices(eco_chars(path)) is Parsed,
            r is Err <==> !(spec_parse_vertices(eco_chars(path)) is Parsed),
    {
        let text = eco_as_str(&path);
        match parse_vertices(text) {
            Result::Ok(_) => Result::Ok(
                PolygonElem { width, height, path, fill, stroke, inset, outset },
            ),
            Result::Err(e) => Result::Err(e),
        }
    }

    /// Lays the polygon out into the region, normalizing the parsed
    /// vertices into the painted box.
    pub fn layout<C: Content>(&self, body: Option<&C>, region: Size) -> (r: Result<
        Fragment,
        LayoutError,
    >)
        requires
            self.wf(),
            -ABS_MAX <= region.x <= ABS_MAX,
            -ABS_MAX <= region.y <= ABS_MAX,
        ensures
            spec_layout_post(
                region,
                ShapeKind::Polygon,
                body is Some,
                Axes { x: self.width, y: self.height },
                self.fill,
                spec_splat_stroke(self.stroke),
                self.inset,
                self.outset,
                spec_zero_corners(),
                spec_path_verts(eco_chars(self.path)),
                r,
            ),
    {
        let text = eco_as_str(&self.path);
        let vertices = match parse_vertices(text) {
            Result::Ok(vs) => Polygon::from_vertices(vs),
            Result::Err(_) => {
                proof {
                    assert(false);
                }
                vstd::pervasive::unreached()
            },
        };
        layout(
            region,
            ShapeKind::Polygon,
            body,
            Axes { x: self.width, y: self.height },
            self.fill,
            splat_stroke(self.stroke),
            self.inset,
            self.outset,
            Corners::splat(Rel::zero()),
            &vertices,
        )
    }
}

/// A circle with optional content: its frame always has equal sides.
pub struct CircleElem {
    /// The circle's width; the radius convenience value sets both axes.
    pub width: Smart<Rel>,
    /// The circle's height; the radius convenience value sets both axes.
    pub height: Smart<Rel>,
    /// How to fill the circle.
    pub fill: Option<Paint>,
    /// How to stroke the circle; one stroke serves the whole outline.
    pub stroke: Smart<Option<PartialStroke>>,
    /// How much to pad the circle's content.
    pub inset: Sides<Rel>,
    /// How much to expand the circle's size without affecting the layout.
    pub outset: Sides<Rel>,
}

impl CircleElem {
    /// Whether every attribute lies within the raw input domain.
    pub open spec fn wf(self) -> bool {
        &&& intent_wf(self.width)
        &&& intent_wf(self.height)
        &&& sides_wf(self.inset)
        &&& sides_wf(self.outset)
    }

    /// Sets the radius convenience value: both axes become twice the
    /// radius.
    pub fn set_radius(&mut self, radius: i64)
        requires
            -ABS_MAX <= 2 * radius <= ABS_MAX,
        ensures
            final(self).width == Smart::Custom(Rel { abs: (2 * radius) as i64, ratio: 0 }),
            final(self).height == Smart::Custom(Rel { abs: (2 * radius) as i64, ratio: 0 }),
            final(self).fill == old(self).fill,
            final(self).stroke == old(self).stroke,
            final(self).inset == old(self).inset,
            final(self).outset == old(self).outset,
    {
        let d = Rel { abs: 2 * radius, ratio: 0 };
        self.width = Smart::Custom(d);
        self.height = Smart::Custom(d);
    }

    /// Lays the circle out into the region; the frame comes out with equal
    /// sides.
    pub fn layout<C: Content>(&self, body: Option<&C>, region: Size) -> (r: Result<
        Fragment,
        LayoutError,
    >)
        requires
            self.wf(),
            -ABS_MAX <= region.x <= ABS_MAX,
            -ABS_MAX <= region.y <= ABS_MAX,
        ensures
            spec_layout_post(
                region,
                ShapeKind::Circle,
                body is Some,
                Axes { x: self.width, y: self.height },
                self.fill,
                spec_splat_stroke(self.stroke),
                self.inset,
                self.outset,
                spec_zero_corners(),
                Seq::<Vertex>::empty(),
                r,
            ),
    {
        let empty = Polygon::new();
        layout(
            region,
            ShapeKind::Circle,
            body,
            Axes { x: self.width, y: self.height },
            self.fill,
            splat_stroke(self.stroke),
            self.inset,
            self.outset,
            Corners::splat(Rel::zero()),
            &empty,
        )
    }
}

/// A single stroke intent spread to all four sides.
pub open spec fn spec_splat_stroke(stroke: Smart<Option<PartialStroke>>) -> Smart<
    Sides<Option<PartialStroke>>,
> {
    match stroke {
        Smart::Auto => Smart::Auto,
        Smart::Custom(s) => Smart::Custom(Sides { top: s, right: s, bottom: s, left: s }),
    }
}

/// Computes [`spec_splat_stroke`].
pub fn splat_stroke(stroke: Smart<Option<PartialStroke>>) -> (r: Smart<
    Sides<Option<PartialStroke>>,
>)
    ensures
        r == spec_splat_stroke(stroke),
{
    match stroke {
        Smart::Auto => Smart::Auto,
        Smart::Custom(s) => Smart::Custom(Sides::splat(s)),
    }
}

/// Per-corner radii of zero.
pub open spec fn spec_zero_corners() -> Corners<Rel> {
    Corners {
        top_left: Rel { abs: 0, ratio: 0 },
        top_right: Rel { abs: 0, ratio: 0 },
        bottom_right: Rel { abs: 0, ratio: 0 },
        bottom_left: Rel { abs: 0, ratio: 0 },
    }
}

} // verus!
