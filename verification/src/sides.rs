//! Per-side and per-corner attribute containers and the style-cascade fold.
//!
//! A scope holds a partially-specified map: an optional value per position
//! plus an optional catch-all. Folding a sequence of scopes ordered from
//! innermost to outermost picks, per position, the first scope that has an
//! explicit value at that position or a catch-all, and falls back to a
//! default when no scope has either.

use vstd::prelude::*;

verus! {

/// The first of two options that is present, if any.
pub open spec fn opt_or<T>(a: Option<T>, b: Option<T>) -> Option<T> {
    if a is Some {
        a
    } else {
        b
    }
}

/// One value per side of a rectangle.
#[derive(Debug, Clone, Copy, PartialEq, Eq, Structural)]
pub struct Sides<T> {
    /// The value for the top edge.
    pub top: T,
    /// The value for the right edge.
    pub right: T,
    /// The value for the bottom edge.
    pub bottom: T,
    /// The value for the left edge.
    pub left: T,
}

impl<T: Copy> Sides<T> {
    /// The same value on all four sides.
    pub fn splat(v: T) -> (r: Sides<T>)
        ensures
            r == (Sides { top: v, right: v, bottom: v, left: v }),
    {
        Sides { top: v, right: v, bottom: v, left: v }
    }
}

/// One value per corner of a rectangle.
#[derive(Debug, Clone, Copy, PartialEq, Eq, Structural)]
pub struct Corners<T> {
    /// The value for the top-left corner.
    pub top_left: T,
    /// The value for the top-right corner.
    pub top_right: T,
    /// The value for the bottom-right corner.
    pub bottom_right: T,
    /// The value for the bottom-left corner.
    pub bottom_left: T,
}

impl<T: Copy> Corners<T> {
    /// The same value on all four corners.
    pub fn splat(v: T) -> (r: Corners<T>)
        ensures
            r == (Corners {
                top_left: v,
                top_right: v,
                bottom_right: v,
                bottom_left: v,
            }),
    {
        Corners { top_left: v, top_right: v, bottom_right: v, bottom_left: v }
    }
}

/// Names one side of a rectangle.
#[derive(Debug, Clone, Copy, PartialEq, Eq, Structural)]
pub enum Side {
    /// The top edge.
    Top,
    /// The right edge.
    Right,
    /// The bottom edge.
    Bottom,
    /// The left edge.
    Left,
}

/// Names one corner of a rectangle.
#[derive(Debug, Clone, Copy, PartialEq, Eq, Structural)]
pub enum Corner {
    /// The top-left corner.
    TopLeft,
    /// The top-right corner.
    TopRight,
    /// The bottom-right corner.
    BottomRight,
    /// The bottom-left corner.
    BottomLeft,
}

/// A partially-specified per-side map at one style scope.
#[derive(Debug, Clone, Copy, PartialEq, Eq, Structural)]
pub struct SideScope<T> {
    /// An explicit value for the top edge, if the scope sets one.
    pub top: Option<T>,
    /// An explicit value for the right edge, if the scope sets one.
    pub right: Option<T>,
    /// An explicit value for the bottom edge, if the scope sets one.
    pub bottom: Option<T>,
    /// An explicit value for the left edge, if the scope sets one.
    pub left: Option<T>,
    /// A catch-all for the sides the scope does not set explicitly.
    pub rest: Option<T>,
}

impl<T> SideScope<T> {
    /// The explicit value this scope holds at `side`.
    pub open spec fn spec_at(self, side: Side) -> Option<T> {
        match side {
            Side::Top => self.top,
            Side::Right => self.right,
            Side::Bottom => self.bottom,
            Side::Left => self.left,
        }
    }

    /// What this scope contributes at `side`: its explicit value there, or
    /// else its catch-all.
    pub open spec fn spec_eff(self, side: Side) -> Option<T> {
        opt_or(self.spec_at(side), self.rest)
    }
}

impl<T: Copy> SideScope<T> {
    /// The scope that sets nothing.
    pub fn unset() -> (r: SideScope<T>)
        ensures
            r == (SideScope::<T> {
                top: None,
                right: None,
                bottom: None,
                left: None,
                rest: None,
            }),
    {
        SideScope { top: None, right: None, bottom: None, left: None, rest: None }
    }

    /// Computes [`SideScope::spec_eff`].
    pub fn eff(&self, side: Side) -> (r: Option<T>)
        ensures
            r == self.spec_eff(side),
    {
        let explicit = match side {
            Side::Top => self.top,
            Side::Right => self.right,
            Side::Bottom => self.bottom,
            Side::Left => self.left,
        };
        match explicit {
            Some(v) => Some(v),
            None => self.rest,
        }
    }
}

/// The value `side` resolves to under the scopes, ordered innermost first:
/// the first scope that contributes at `side` wins, else the default.
pub open spec fn spec_fold_side<T>(scopes: Seq<SideScope<T>>, side: Side, default: T) -> T
    decreases scopes.len(),
{
    if scopes.len() == 0 {
        default
    } else {
        match scopes[0].spec_eff(side) {
            Some(v) => v,
            None => spec_fold_side(scopes.skip(1), side, default),
        }
    }
}

/// Merges an inner scope with an outer one into a single scope that resolves
/// like the two in sequence.
pub open spec fn spec_fold_side_pair<T>(inner: SideScope<T>, outer: SideScope<T>) -> SideScope<
    T,
> {
    SideScope {
        top: opt_or(inner.spec_eff(Side::Top), outer.top),
        right: opt_or(inner.spec_eff(Side::Right), outer.right),
        bottom: opt_or(inner.spec_eff(Side::Bottom), outer.bottom),
        left: opt_or(inner.spec_eff(Side::Left), outer.left),
        rest: opt_or(inner.rest, outer.rest),
    }
}

/// The pairwise merge contributes, at every side, what the two scopes in
/// sequence contribute.
pub proof fn lemma_fold_side_pair_eff<T>(inner: SideScope<T>, outer: SideScope<T>, side: Side)
    ensures
        spec_fold_side_pair(inner, outer).spec_eff(side) == opt_or(
            inner.spec_eff(side),
            outer.spec_eff(side),
        ),
{
}

/// The cascade fold is associative in scope order: merging `[a, b, c]`
/// pairwise from the inside out resolves every side to the same value as
/// folding the flat ordered list.
pub proof fn lemma_fold_side_associative<T>(
    a: SideScope<T>,
    b: SideScope<T>,
    c: SideScope<T>,
    side: Side,
    default: T,
)
    ensures
        spec_fold_side(seq![spec_fold_side_pair(spec_fold_side_pair(a, b), c)], side, default)
            == spec_fold_side(seq![a, b, c], side, default),
{
    reveal_with_fuel(spec_fold_side, 4);
    let flat = seq![a, b, c];
    assert(flat[0] == a);
    assert(flat.skip(1) =~= seq![b, c]);
    assert(seq![b, c][0] == b);
    assert(seq![b, c].skip(1) =~= seq![c]);
    assert(seq![c][0] == c);
    assert(seq![c].skip(1) =~= Seq::<SideScope<T>>::empty());
    let m = spec_fold_side_pair(spec_fold_side_pair(a, b), c);
    let merged = seq![m];
    assert(merged[0] == m);
    assert(merged.skip(1) =~= Seq::<SideScope<T>>::empty());
    lemma_fold_side_pair_eff(spec_fold_side_pair(a, b), c, side);
    lemma_fold_side_pair_eff(a, b, side);
    assert(m.spec_eff(side) == opt_or(
        opt_or(a.spec_eff(side), b.spec_eff(side)),
        c.spec_eff(side),
    ));
}

/// Computes [`spec_fold_side_pair`].
pub fn fold_side_pair<T: Copy>(inner: &SideScope<T>, outer: &SideScope<T>) -> (r: SideScope<T>)
    ensures
        r == spec_fold_side_pair(*inner, *outer),
{
    let top = match inner.eff(Side::Top) {
        Some(v) => Some(v),
        None => outer.top,
    };
    let right = match inner.eff(Side::Right) {
        Some(v) => Some(v),
        None => outer.right,
    };
    let bottom = match inner.eff(Side::Bottom) {
        Some(v) => Some(v),
        None => outer.bottom,
    };
    let left = match inner.eff(Side::Left) {
        Some(v) => Some(v),
        None => outer.left,
    };
    let rest = match inner.rest {
        Some(v) => Some(v),
        None => outer.rest,
    };
    SideScope { top, right, bottom, left, rest }
}

/// Folding is unchanged when scopes that contribute nothing at `side` are
/// dropped from the front.
proof fn lemma_fold_side_skip<T>(scopes: Seq<SideScope<T>>, side: Side, default: T, i: int)
    requires
        0 <= i <= scopes.len(),
        forall|j: int| 0 <= j < i ==> scopes[j].spec_eff(side) is None,
    ensures
        spec_fold_side(scopes, side, default) == spec_fold_side(scopes.skip(i), side, default),
    decreases i,
{
    if i > 0 {
        lemma_fold_side_skip(scopes.skip(1), side, default, i - 1);
        assert(scopes.skip(1).skip(i - 1) =~= scopes.skip(i));
    } else {
        assert(scopes.skip(0) =~= scopes);
    }
}

/// Resolves one side across the scopes, innermost first: computes
/// [`spec_fold_side`].
pub fn fold_side<T: Copy>(scopes: &Vec<SideScope<T>>, side: Side, default: T) -> (r: T)
    ensures
        r == spec_fold_side(scopes@, side, default),
{
    let n = scopes.len();
    let mut i: usize = 0;
    while i < n
        invariant
            n == scopes@.len(),
            0 <= i <= n,
            forall|j: int| 0 <= j < i ==> scopes@[j].spec_eff(side) is None,
        decreases n - i,
    {
        match scopes[i].eff(side) {
            Some(v) => {
                proof {
                    lemma_fold_side_skip(scopes@, side, default, i as int);
                }
                return v;
            },
            None => {
                i = i + 1;
            },
        }
    }
    proof {
        lemma_fold_side_skip(scopes@, side, default, n as int);
        assert(scopes@.skip(n as int) =~= Seq::<SideScope<T>>::empty());
    }
    default
}

/// Resolves all four sides across the scopes, innermost first, to a fully
/// populated map; positions no scope sets take the default.
pub fn fold_sides<T: Copy>(scopes: &Vec<SideScope<T>>, default: T) -> (r: Sides<T>)
    ensures
        r.top == spec_fold_side(scopes@, Side::Top, default),
        r.right == spec_fold_side(scopes@, Side::Right, default),
        r.bottom == spec_fold_side(scopes@, Side::Bottom, default),
        r.left == spec_fold_side(scopes@, Side::Left, default),
{
    Sides {
        top: fold_side(scopes, Side::Top, default),
        right: fold_side(scopes, Side::Right, default),
        bottom: fold_side(scopes, Side::Bottom, default),
        left: fold_side(scopes, Side::Left, default),
    }
}

/// Merges an inner corner scope with an outer one into a single scope that
/// resolves like the two in sequence.
pub open spec fn spec_fold_corner_pair<T>(inner: CornerScope<T>, outer: CornerScope<T>) -> CornerScope<
    T,
> {
    CornerScope {
        top_left: opt_or(inner.spec_eff(Corner::TopLeft), outer.top_left),
        top_right: opt_or(inner.spec_eff(Corner::TopRight), outer.top_right),
        bottom_right: opt_or(inner.spec_eff(Corner::BottomRight), outer.bottom_right),
        bottom_left: opt_or(inner.spec_eff(Corner::BottomLeft), outer.bottom_left),
        rest: opt_or(inner.rest, outer.rest),
    }
}

/// The pairwise merge contributes, at every corner, what the two scopes in
/// sequence contribute.
pub proof fn lemma_fold_corner_pair_eff<T>(
    inner: CornerScope<T>,
    outer: CornerScope<T>,
    corner: Corner,
)
    ensures
        spec_fold_corner_pair(inner, outer).spec_eff(corner) == opt_or(
            inner.spec_eff(corner),
            outer.spec_eff(corner),
        ),
{
}

/// The corner cascade fold is associative in scope order: merging `[a, b, c]`
/// pairwise from the inside out resolves every corner to the same value as
/// folding the flat ordered list.
pub proof fn lemma_fold_corner_associative<T>(
    a: CornerScope<T>,
    b: CornerScope<T>,
    c: CornerScope<T>,
    corner: Corner,
    default: T,
)
    ensures
        spec_fold_corner(
            seq![spec_fold_corner_pair(spec_fold_corner_pair(a, b), c)],
            corner,
            default,
        ) == spec_fold_corner(seq![a, b, c], corner, default),
{
    reveal_with_fuel(spec_fold_corner, 4);
    let flat = seq![a, b, c];
    assert(flat[0] == a);
    assert(flat.skip(1) =~= seq![b, c]);
    assert(seq![b, c][0] == b);
    assert(seq![b, c].skip(1) =~= seq![c]);
    assert(seq![c][0] == c);
    assert(seq![c].skip(1) =~= Seq::<CornerScope<T>>::empty());
    let m = spec_fold_corner_pair(spec_fold_corner_pair(a, b), c);
    let merged = seq![m];
    assert(merged[0] == m);
    assert(merged.skip(1) =~= Seq::<CornerScope<T>>::empty());
    lemma_fold_corner_pair_eff(spec_fold_corner_pair(a, b), c, corner);
    lemma_fold_corner_pair_eff(a, b, corner);
    assert(m.spec_eff(corner) == opt_or(
        opt_or(a.spec_eff(corner), b.spec_eff(corner)),
        c.spec_eff(corner),
    ));
}

/// Computes [`spec_fold_corner_pair`].
pub fn fold_corner_pair<T: Copy>(inner: &CornerScope<T>, outer: &CornerScope<T>) -> (r: CornerScope<
    T,
>)
    ensures
        r == spec_fold_corner_pair(*inner, *outer),
{
    let top_left = match inner.eff(Corner::TopLeft) {
        Some(v) => Some(v),
        None => outer.top_left,
    };
    let top_right = match inner.eff(Corner::TopRight) {
        Some(v) => Some(v),
        None => outer.top_right,
    };
    let bottom_right = match inner.eff(Corner::BottomRight) {
        Some(v) => Some(v),
        None => outer.bottom_right,
    };
    let bottom_left = match inner.eff(Corner::BottomLeft) {
        Some(v) => Some(v),
        None => outer.bottom_left,
    };
    let rest = match inner.rest {
        Some(v) => Some(v),
        None => outer.rest,
    };
    CornerScope { top_left, top_right, bottom_right, bottom_left, rest }
}

/// A partially-specified per-corner map at one style scope.
#[derive(Debug, Clone, Copy, PartialEq, Eq, Structural)]
pub struct CornerScope<T> {
    /// An explicit value for the top-left corner, if the scope sets one.
    pub top_left: Option<T>,
    /// An explicit value for the top-right corner, if the scope sets one.
    pub top_right: Option<T>,
    /// An explicit value for the bottom-right corner, if the scope sets one.
    pub bottom_right: Option<T>,
    /// An explicit value for the bottom-left corner, if the scope sets one.
    pub bottom_left: Option<T>,
    /// A catch-all for the corners the scope does not set explicitly.
    pub rest: Option<T>,
}

impl<T> CornerScope<T> {
    /// The explicit value this scope holds at `corner`.
    pub open spec fn spec_at(self, corner: Corner) -> Option<T> {
        match corner {
            Corner::TopLeft => self.top_left,
            Corner::TopRight => self.top_right,
            Corner::BottomRight => self.bottom_right,
            Corner::BottomLeft => self.bottom_left,
        }
    }

    /// What this scope contributes at `corner`: its explicit value there, or
    /// else its catch-all.
    pub open spec fn spec_eff(self, corner: Corner) -> Option<T> {
        opt_or(self.spec_at(corner), self.rest)
    }
}

impl<T: Copy> CornerScope<T> {
    /// The scope that sets nothing.
    pub fn unset() -> (r: CornerScope<T>)
        ensures
            r == (CornerScope::<T> {
                top_left: None,
                top_right: None,
                bottom_right: None,
                bottom_left: None,
                rest: None,
            }),
    {
        CornerScope {
            top_left: None,
            top_right: None,
            bottom_right: None,
            bottom_left: None,
            rest: None,
        }
    }

    /// Computes [`CornerScope::spec_eff`].
    pub fn eff(&self, corner: Corner) -> (r: Option<T>)
        ensures
            r == self.spec_eff(corner),
    {
        let explicit = match corner {
            Corner::TopLeft => self.top_left,
            Corner::TopRight => self.top_right,
            Corner::BottomRight => self.bottom_right,
            Corner::BottomLeft => self.bottom_left,
        };
        match explicit {
            Some(v) => Some(v),
            None => self.rest,
        }
    }
}

/// The value `corner` resolves to under the scopes, ordered innermost first:
/// the first scope that contributes at `corner` wins, else the default.
pub open spec fn spec_fold_corner<T>(scopes: Seq<CornerScope<T>>, corner: Corner, default: T) -> T
    decreases scopes.len(),
{
    if scopes.len() == 0 {
        default
    } else {
        match scopes[0].spec_eff(corner) {
            Some(v) => v,
            None => spec_fold_corner(scopes.skip(1), corner, default),
        }
    }
}

/// Folding is unchanged when scopes that contribute nothing at `corner` are
/// dropped from the front.
proof fn lemma_fold_corner_skip<T>(scopes: Seq<CornerScope<T>>, corner: Corner, default: T, i: int)
    requires
        0 <= i <= scopes.len(),
        forall|j: int| 0 <= j < i ==> scopes[j].spec_eff(corner) is None,
    ensures
        spec_fold_corner(scopes, corner, default) == spec_fold_corner(
            scopes.skip(i),
            corner,
            default,
        ),
    decreases i,
{
    if i > 0 {
        lemma_fold_corner_skip(scopes.skip(1), corner, default, i - 1);
        assert(scopes.skip(1).skip(i - 1) =~= scopes.skip(i));
    } else {
        assert(scopes.skip(0) =~= scopes);
    }
}

/// Resolves one corner across the scopes, innermost first: computes
/// [`spec_fold_corner`].
pub fn fold_corner<T: Copy>(scopes: &Vec<CornerScope<T>>, corner: Corner, default: T) -> (r: T)
    ensures
        r == spec_fold_corner(scopes@, corner, default),
{
    let n = scopes.len();
    let mut i: usize = 0;
    while i < n
        invariant
            n == scopes@.len(),
            0 <= i <= n,
            forall|j: int| 0 <= j < i ==> scopes@[j].spec_eff(corner) is None,
        decreases n - i,
    {
        match scopes[i].eff(corner) {
            Some(v) => {
                proof {
                    lemma_fold_corner_skip(scopes@, corner, default, i as int);
                }
                return v;
            },
            None => {
                i = i + 1;
            },
        }
    }
    proof {
        lemma_fold_corner_skip(scopes@, corner, default, n as int);
        assert(scopes@.skip(n as int) =~= Seq::<CornerScope<T>>::empty());
    }
    default
}

/// Resolves all four corners across the scopes, innermost first, to a fully
/// populated map; positions no scope sets take the default.
pub fn fold_corners<T: Copy>(scopes: &Vec<CornerScope<T>>, default: T) -> (r: Corners<T>)
    ensures
        r.top_left == spec_fold_corner(scopes@, Corner::TopLeft, default),
        r.top_right == spec_fold_corner(scopes@, Corner::TopRight, default),
        r.bottom_right == spec_fold_corner(scopes@, Corner::BottomRight, default),
        r.bottom_left == spec_fold_corner(scopes@, Corner::BottomLeft, default),
{
    Corners {
        top_left: fold_corner(scopes, Corner::TopLeft, default),
        top_right: fold_corner(scopes, Corner::TopRight, default),
        bottom_right: fold_corner(scopes, Corner::BottomRight, default),
        bottom_left: fold_corner(scopes, Corner::BottomLeft, default),
    }
}

} // verus!
