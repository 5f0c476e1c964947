//! Paint and stroke values, and the top-level stroke resolution: an automatic
//! stroke defaults to a uniform one-unit stroke exactly when no fill is set,
//! and an explicit per-side choice fills in the default thickness or color
//! where only one of the pair was given.

use vstd::prelude::*;

verus! {

use crate::geom::Smart;
use crate::num::SCALE;
use crate::sides::Sides;

/// The default paint: opaque black.
pub const DEFAULT_PAINT_RGBA: u32 = 0x0000_00FF;

/// The default stroke thickness: one unit.
pub const DEFAULT_THICKNESS: i64 = SCALE;

/// A solid paint, as a packed red-green-blue-alpha value.
#[derive(Debug, Clone, Copy, PartialEq, Eq, Structural)]
pub struct Paint {
    /// The packed color channels.
    pub rgba: u32,
}

impl Paint {
    /// Makes a paint from its packed channels.
    pub fn new(rgba: u32) -> (r: Paint)
        ensures
            r.rgba == rgba,
    {
        Paint { rgba }
    }
}

/// The default paint value.
pub open spec fn spec_default_paint() -> Paint {
    Paint { rgba: DEFAULT_PAINT_RGBA }
}

/// A fully-specified stroke: a thickness in micro-units and a paint.
#[derive(Debug, Clone, Copy, PartialEq, Eq, Structural)]
pub struct Stroke {
    /// The paint the stroke is drawn with.
    pub paint: Paint,
    /// The stroke thickness, in micro-units.
    pub thickness: i64,
}

/// The default stroke: one unit thick, default paint.
pub open spec fn spec_default_stroke() -> Stroke {
    Stroke { paint: spec_default_paint(), thickness: DEFAULT_THICKNESS }
}

impl Default for Stroke {
    /// The default stroke value.
    fn default() -> (r: Stroke)
        ensures
            r == spec_default_stroke(),
    {
        Stroke { paint: Paint { rgba: DEFAULT_PAINT_RGBA }, thickness: DEFAULT_THICKNESS }
    }
}

/// A stroke with thickness and color independently specifiable: a bare
/// thickness takes the default color, a bare color the default thickness.
#[derive(Debug, Clone, Copy, PartialEq, Eq, Structural)]
pub struct PartialStroke {
    /// The paint, if given.
    pub paint: Option<Paint>,
    /// The thickness in micro-units, if given.
    pub thickness: Option<i64>,
}

impl PartialStroke {
    /// The stroke this partial value denotes, defaults filled in.
    pub open spec fn spec_unwrap_or_default(self) -> Stroke {
        Stroke {
            paint: match self.paint {
                Some(p) => p,
                None => spec_default_paint(),
            },
            thickness: match self.thickness {
                Some(t) => t,
                None => DEFAULT_THICKNESS,
            },
        }
    }

    /// Fills in the default color and thickness where none was given.
    pub fn unwrap_or_default(self) -> (r: Stroke)
        ensures
            r == self.spec_unwrap_or_default(),
    {
        Stroke {
            paint: match self.paint {
                Some(p) => p,
                None => Paint { rgba: DEFAULT_PAINT_RGBA },
            },
            thickness: match self.thickness {
                Some(t) => t,
                None => DEFAULT_THICKNESS,
            },
        }
    }
}

/// The resolved per-side strokes for a stroke intent and fill: automatic
/// gives a uniform default stroke exactly when no fill is set; an explicit
/// choice is taken per side, unset sides staying bare.
pub open spec fn spec_resolve_stroke(
    stroke: Smart<Sides<Option<PartialStroke>>>,
    fill: Option<Paint>,
) -> Sides<Option<Stroke>> {
    match stroke {
        Smart::Auto => if fill is None {
            Sides {
                top: Some(spec_default_stroke()),
                right: Some(spec_default_stroke()),
                bottom: Some(spec_default_stroke()),
                left: Some(spec_default_stroke()),
            }
        } else {
            Sides { top: None, right: None, bottom: None, left: None }
        },
        Smart::Custom(sides) => Sides {
            top: spec_resolve_stroke_side(sides.top),
            right: spec_resolve_stroke_side(sides.right),
            bottom: spec_resolve_stroke_side(sides.bottom),
            left: spec_resolve_stroke_side(sides.left),
        },
    }
}

/// One side of an explicit stroke choice, defaults filled in.
pub open spec fn spec_resolve_stroke_side(side: Option<PartialStroke>) -> Option<Stroke> {
    match side {
        Some(ps) => Some(ps.spec_unwrap_or_default()),
        None => None,
    }
}

/// Computes [`spec_resolve_stroke`].
pub fn resolve_stroke(stroke: Smart<Sides<Option<PartialStroke>>>, fill: Option<Paint>) -> (r:
    Sides<Option<Stroke>>)
    ensures
        r == spec_resolve_stroke(stroke, fill),
{
    match stroke {
        Smart::Auto => {
            if fill.is_none() {
                Sides::splat(Some(Stroke::default()))
            } else {
                Sides::splat(None)
            }
        },
        Smart::Custom(sides) => Sides {
            top: resolve_stroke_side(sides.top),
            right: resolve_stroke_side(sides.right),
            bottom: resolve_stroke_side(sides.bottom),
            left: resolve_stroke_side(sides.left),
        },
    }
}

/// Computes [`spec_resolve_stroke_side`].
fn resolve_stroke_side(side: Option<PartialStroke>) -> (r: Option<Stroke>)
    ensures
        r == spec_resolve_stroke_side(side),
{
    match side {
        Some(ps) => Some(ps.unwrap_or_default()),
        None => None,
    }
}

/// Whether any side carries a stroke.
pub open spec fn spec_any_stroke(strokes: Sides<Option<Stroke>>) -> bool {
    ||| strokes.top is Some
    ||| strokes.right is Some
    ||| strokes.bottom is Some
    ||| strokes.left is Some
}

/// Computes [`spec_any_stroke`].
pub fn any_stroke(strokes: &Sides<Option<Stroke>>) -> (r: bool)
    ensures
        r == spec_any_stroke(*strokes),
{
    strokes.top.is_some() || strokes.right.is_some() || strokes.bottom.is_some()
        || strokes.left.is_some()
}

} // verus!
