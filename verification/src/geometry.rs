//! Points and rectangles in a window's client coordinate space.

use vstd::prelude::*;

verus! {

/// A position, in pixels, relative to the top-left corner of a client area.
#[derive(Clone, Copy, Debug, PartialEq, Eq, Structural)]
pub struct Point {
    pub x: i32,
    pub y: i32,
}

/// An axis-aligned rectangle. The left and top edges belong to it, the right
/// and bottom edges do not.
#[derive(Clone, Copy, Debug, PartialEq, Eq, Structural)]
pub struct Rect {
    pub left: i32,
    pub top: i32,
    pub right: i32,
    pub bottom: i32,
}

impl Rect {
    /// The point lies on the left or top edge, or strictly inside all four.
    pub open spec fn spec_contains(&self, p: Point) -> bool {
        self.left <= p.x < self.right && self.top <= p.y < self.bottom
    }

    /// The rectangle encloses no pixel at all.
    pub open spec fn spec_is_empty(&self) -> bool {
        self.right <= self.left || self.bottom <= self.top
    }

    /// The rectangle with all four edges at the origin. It stands for the
    /// client area of a window whose rectangle could not be obtained.
    pub fn zero() -> (rect: Rect)
        ensures
            rect == (Rect { left: 0, top: 0, right: 0, bottom: 0 }),
            rect.spec_is_empty(),
    {
        Rect { left: 0, top: 0, right: 0, bottom: 0 }
    }

    /// Hit test: whether `p` falls within this rectangle.
    #[verifier::when_used_as_spec(spec_contains)]
    pub fn contains(&self, p: Point) -> (inside: bool)
        ensures
            inside == self.spec_contains(p),
    {
        self.left <= p.x && p.x < self.right && self.top <= p.y && p.y < self.bottom
    }

    /// Whether no point can ever hit this rectangle.
    #[verifier::when_used_as_spec(spec_is_empty)]
    pub fn is_empty(&self) -> (empty: bool)
        ensures
            empty == self.spec_is_empty(),
    {
        self.right <= self.left || self.bottom <= self.top
    }
}

/// A rectangle is empty exactly when it contains no point, so a probe
/// against an empty client area never produces a hit.
pub proof fn lemma_empty_rect_contains_nothing(rect: Rect)
    ensures
        rect.is_empty() <==> forall|p: Point| !rect.contains(p),
{
    if !rect.is_empty() {
        let corner = Point { x: rect.left, y: rect.top };
        assert(rect.contains(corner));
    }
}

} // verus!
