//! Screen rectangles, layout regions and the hit-test predicate.

use vstd::prelude::*;

verus! {

/// A screen rectangle in terminal cells.
#[derive(Clone, Copy, Debug, PartialEq, Eq, Structural)]
pub struct Rect {
    pub left: u16,
    pub top: u16,
    pub width: u16,
    pub height: u16,
}

/// A focus-movement direction.
#[derive(Clone, Copy, Debug, PartialEq, Eq, Structural)]
pub enum Direction {
    Left,
    Right,
    Up,
    Down,
}

impl Rect {
    /// The empty rectangle at the origin; the placeholder for a widget
    /// that has never been drawn.
    pub fn empty() -> (r: Rect)
        ensures
            r == (Rect { left: 0, top: 0, width: 0, height: 0 }),
    {
        Rect { left: 0, top: 0, width: 0, height: 0 }
    }

    /// One column past the right edge.
    pub open spec fn spec_right(self) -> int {
        self.left + self.width
    }

    /// One row past the bottom edge.
    pub open spec fn spec_bottom(self) -> int {
        self.top + self.height
    }

    /// Whether `(x, y)` lies strictly inside the rectangle: a point on
    /// the border does not count.
    pub open spec fn spec_contains_strict(self, x: u16, y: u16) -> bool {
        self.left < x && (x as int) + 1 < self.spec_right() && self.top < y && (y as int) + 1
            < self.spec_bottom()
    }

    /// Strict interior test, so that a click exactly on a border frame
    /// matches no widget.
    pub fn contains_strict(&self, x: u16, y: u16) -> (b: bool)
        ensures
            b == self.spec_contains_strict(x, y),
    {
        self.left < x && (x as u32) + 1 < (self.left as u32) + (self.width as u32) && self.top < y
            && (y as u32) + 1 < (self.top as u32) + (self.height as u32)
    }
}

/// A widget's place in the frame, as percentages of the frame size.
/// Layout is data, not code: new arrangements need no new logic.
#[derive(Clone, Copy, Debug, PartialEq, Eq, Structural)]
pub struct Region {
    pub left_pct: u16,
    pub top_pct: u16,
    pub right_pct: u16,
    pub bottom_pct: u16,
}

/// `pct` percent of `span`, with the percentage clamped to 100.
pub open spec fn spec_pct_of(span: u16, pct: u16) -> int {
    (span * (if pct > 100 {
        100int
    } else {
        pct as int
    })) / 100
}

/// The pixel edge a percentage denotes inside a span of terminal cells.
pub fn pct_of(span: u16, pct: u16) -> (r: u16)
    ensures
        r == spec_pct_of(span, pct),
{
    let p: u32 = if pct > 100 {
        100
    } else {
        pct as u32
    };
    assert(span as u32 * p <= 6553500) by (nonlinear_arith)
        requires
            span <= 65535 && p <= 100,
    ;
    let scaled: u32 = (span as u32 * p) / 100;
    assert(scaled <= 65535);
    scaled as u16
}

impl Region {
    /// The rectangle this region occupies in a `frame_w` by `frame_h`
    /// frame.  A region whose right edge lies left of its left edge
    /// collapses to zero width (likewise for height): malformed regions
    /// yield empty rectangles, never wrap-around ones.
    pub open spec fn spec_to_rect(self, frame_w: u16, frame_h: u16) -> Rect {
        let l = spec_pct_of(frame_w, self.left_pct);
        let r = spec_pct_of(frame_w, self.right_pct);
        let t = spec_pct_of(frame_h, self.top_pct);
        let b = spec_pct_of(frame_h, self.bottom_pct);
        Rect {
            left: l as u16,
            top: t as u16,
            width: (if r > l {
                r - l
            } else {
                0int
            }) as u16,
            height: (if b > t {
                b - t
            } else {
                0int
            }) as u16,
        }
    }

    /// Computes the rectangle for this region inside the given frame.
    pub fn to_rect(&self, frame_w: u16, frame_h: u16) -> (rect: Rect)
        ensures
            rect == self.spec_to_rect(frame_w, frame_h),
    {
        let l = pct_of(frame_w, self.left_pct);
        let r = pct_of(frame_w, self.right_pct);
        let t = pct_of(frame_h, self.top_pct);
        let b = pct_of(frame_h, self.bottom_pct);
        Rect {
            left: l,
            top: t,
            width: if r > l {
                r - l
            } else {
                0
            },
            height: if b > t {
                b - t
            } else {
                0
            },
        }
    }
}

/// The number of content columns inside a rectangle after a border of
/// `margin` cells on each relevant side; zero when the rectangle is too
/// small to hold any content.
pub open spec fn spec_inner_width(r: Rect, margin: u16) -> nat {
    if r.width > margin {
        (r.width - margin) as nat
    } else {
        0
    }
}

/// The number of content rows inside a rectangle, by the same rule.
pub open spec fn spec_inner_height(r: Rect, margin: u16) -> nat {
    if r.height > margin {
        (r.height - margin) as nat
    } else {
        0
    }
}

/// Usable content width of `r` once `margin` columns are spent on chrome.
pub fn inner_width(r: &Rect, margin: u16) -> (w: usize)
    ensures
        w == spec_inner_width(*r, margin),
{
    if r.width > margin {
        (r.width - margin) as usize
    } else {
        0
    }
}

/// Usable content height of `r` once `margin` rows are spent on chrome.
pub fn inner_height(r: &Rect, margin: u16) -> (h: usize)
    ensures
        h == spec_inner_height(*r, margin),
{
    if r.height > margin {
        (r.height - margin) as usize
    } else {
        0
    }
}

} // verus!
