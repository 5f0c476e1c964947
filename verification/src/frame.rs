//! Frames and paint primitives. A frame is a sized box holding placed items:
//! paint primitives and nested content frames. Primitives are prepended so
//! that they render beneath the content already in the frame.

use vstd::prelude::*;

verus! {

use crate::geom::Point;
use crate::geom::Size;
use crate::num::POD_MAX;
use crate::sides::Corners;
use crate::sides::Sides;
use crate::stroke::Paint;
use crate::stroke::Stroke;

/// One step of a path.
#[derive(Debug, Clone, Copy, PartialEq, Eq, Structural)]
pub enum PathItem {
    /// Start a new subpath at the point.
    MoveTo(Point),
    /// A straight edge to the point.
    LineTo(Point),
    /// Close the subpath back to its start.
    Close,
}

/// A path: a sequence of path steps.
#[derive(Debug, Clone, PartialEq, Eq)]
pub struct Path {
    /// The steps, in paint order.
    pub items: Vec<PathItem>,
}

/// A geometric primitive with a single stroke.
#[derive(Debug, Clone, PartialEq, Eq)]
pub enum Geometry {
    /// An ellipse inscribed in a box of the given size.
    Ellipse(Size),
    /// An arbitrary path.
    Path(Path),
}

/// A painted shape: a geometry plus fill and a single stroke.
#[derive(Debug, Clone, PartialEq, Eq)]
pub struct Shape {
    /// The geometry to paint.
    pub geometry: Geometry,
    /// The fill, if any.
    pub fill: Option<Paint>,
    /// The stroke, if any; ellipses and paths take one stroke for the whole
    /// outline.
    pub stroke: Option<Stroke>,
}

/// Creates an ellipse shape inscribed in a box of the given size.
pub fn ellipse(size: Size, fill: Option<Paint>, stroke: Option<Stroke>) -> (r: Shape)
    ensures
        r == (Shape { geometry: Geometry::Ellipse(size), fill, stroke }),
{
    Shape { geometry: Geometry::Ellipse(size), fill, stroke }
}

/// A rectangle primitive with independent per-edge strokes and per-corner
/// radii.
#[derive(Debug, Clone, PartialEq, Eq)]
pub struct RoundedRect {
    /// The size of the painted box.
    pub size: Size,
    /// The resolved radius of each corner, in micro-units.
    pub radius: Corners<i64>,
    /// The fill, if any.
    pub fill: Option<Paint>,
    /// The stroke of each edge, if any.
    pub strokes: Sides<Option<Stroke>>,
}

/// An item placed in a frame.
pub enum FrameItem {
    /// A painted shape.
    Shape(Shape),
    /// A rectangle with per-edge strokes and per-corner radii.
    Rounded(RoundedRect),
    /// A nested frame of already laid-out content.
    Group(Box<Frame>),
}

/// An item together with its position in the frame.
pub struct Placed {
    /// Where the item sits, relative to the frame's top-left corner.
    pub pos: Point,
    /// The item itself.
    pub item: FrameItem,
}

/// A sized box of placed items, earlier items painted beneath later ones.
pub struct Frame {
    /// The frame's size.
    pub size: Size,
    /// The placed items, in paint order.
    pub items: Vec<Placed>,
}

impl Frame {
    /// Whether the frame's sides lie within the geometric domain.
    pub open spec fn wf(self) -> bool {
        &&& -POD_MAX <= self.size.x <= POD_MAX
        &&& -POD_MAX <= self.size.y <= POD_MAX
    }

    /// Creates an empty frame of the given size.
    pub fn new(size: Size) -> (r: Frame)
        ensures
            r.size == size,
            r.items@ =~= Seq::<Placed>::empty(),
    {
        Frame { size, items: Vec::new() }
    }

    /// The frame's size.
    pub fn size(&self) -> (r: Size)
        ensures
            r == self.size,
    {
        self.size
    }

    /// Inserts an item at the given position behind every item already in the
    /// frame.
    pub fn prepend(&mut self, pos: Point, item: FrameItem)
        ensures
            final(self).size == old(self).size,
            final(self).items@ =~= seq![Placed { pos, item }] + old(self).items@,
    {
        self.items.insert(0, Placed { pos, item });
    }
}

} // verus!
