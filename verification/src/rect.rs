//! Integer rectangles on an atlas page, and the texture coordinates derived
//! from them.

use vstd::prelude::*;

verus! {

/// A rectangle of texels on an atlas page: the texel `(x, y)` belongs to it
/// when `min_x <= x < max_x` and `min_y <= y < max_y`.
#[derive(Clone, Copy, Debug, PartialEq, Eq, Structural)]
pub struct PixelRect {
    pub min_x: u32,
    pub min_y: u32,
    pub max_x: u32,
    pub max_y: u32,
}

impl PixelRect {
    /// The corners are in order on both axes.
    pub open spec fn wf(&self) -> bool {
        self.min_x <= self.max_x && self.min_y <= self.max_y
    }

    pub open spec fn spec_width(&self) -> int {
        self.max_x - self.min_x
    }

    pub open spec fn spec_height(&self) -> int {
        self.max_y - self.min_y
    }

    /// The texel `(x, y)` lies in the rectangle.
    pub open spec fn contains(&self, x: int, y: int) -> bool {
        self.min_x <= x < self.max_x && self.min_y <= y < self.max_y
    }

    /// The rectangle lies on a square page with `size` texels a side.
    pub open spec fn within(&self, size: int) -> bool {
        self.wf() && self.max_x <= size && self.max_y <= size
    }

    /// The two rectangles have a texel in common.
    pub open spec fn overlaps(&self, other: PixelRect) -> bool {
        &&& self.min_x < self.max_x
        &&& self.min_y < self.max_y
        &&& other.min_x < other.max_x
        &&& other.min_y < other.max_y
        &&& self.min_x < other.max_x
        &&& other.min_x < self.max_x
        &&& self.min_y < other.max_y
        &&& other.min_y < self.max_y
    }

    /// The rectangle with the gap of one texel that separates a packed
    /// bitmap from its neighbours to the right and below.
    pub open spec fn padded(&self) -> PixelRect {
        PixelRect {
            min_x: self.min_x,
            min_y: self.min_y,
            max_x: (self.max_x + 1) as u32,
            max_y: (self.max_y + 1) as u32,
        }
    }

    /// The rectangle and the gap to its right and below lie on a square
    /// page with `size` texels a side.
    pub open spec fn fits_padded(&self, size: int) -> bool {
        self.wf() && self.max_x + 1 <= size && self.max_y + 1 <= size
    }

    /// The two rectangles, each with the gap to its right and below, have a
    /// texel in common.
    pub open spec fn crowds(&self, other: PixelRect) -> bool {
        &&& self.min_x < other.max_x + 1
        &&& other.min_x < self.max_x + 1
        &&& self.min_y < other.max_y + 1
        &&& other.min_y < self.max_y + 1
    }

    /// The rectangle with every edge moved inwards by `margin` texels. An
    /// edge never passes the opposite one: where the rectangle is narrower
    /// than twice the margin the lower corner stops at the upper one, and the
    /// upper corner stops at zero.
    pub open spec fn shrink_spec(&self, margin: int) -> PixelRect {
        let max_x = if self.max_x >= margin { self.max_x - margin } else { 0 };
        let max_y = if self.max_y >= margin { self.max_y - margin } else { 0 };
        let min_x = if self.min_x + margin <= max_x { self.min_x + margin } else { max_x };
        let min_y = if self.min_y + margin <= max_y { self.min_y + margin } else { max_y };
        PixelRect {
            min_x: min_x as u32,
            min_y: min_y as u32,
            max_x: max_x as u32,
            max_y: max_y as u32,
        }
    }

    pub fn width(&self) -> (w: u32)
        requires
            self.wf(),
        ensures
            w == self.spec_width(),
    {
        self.max_x - self.min_x
    }

    pub fn height(&self) -> (h: u32)
        requires
            self.wf(),
        ensures
            h == self.spec_height(),
    {
        self.max_y - self.min_y
    }

    /// Moves every edge inwards by `margin` texels.
    pub fn shrink(&self, margin: u8) -> (r: PixelRect)
        ensures
            r == self.shrink_spec(margin as int),
            r.wf(),
            r.max_x <= self.max_x,
            r.max_y <= self.max_y,
    {
        let m: u32 = margin as u32;
        let max_x: u32 = if self.max_x >= m { self.max_x - m } else { 0 };
        let max_y: u32 = if self.max_y >= m { self.max_y - m } else { 0 };
        let min_x: u32 = if self.min_x <= max_x && max_x - self.min_x >= m {
            self.min_x + m
        } else {
            max_x
        };
        let min_y: u32 = if self.min_y <= max_y && max_y - self.min_y >= m {
            self.min_y + m
        } else {
            max_y
        };
        PixelRect { min_x, min_y, max_x, max_y }
    }
}

/// Texture coordinates of a rectangle on a square page, kept exact: each
/// coordinate is the stored texel count divided by `size`.
#[derive(Clone, Copy, Debug, PartialEq, Eq, Structural)]
pub struct UvRect {
    pub min_x: u32,
    pub min_y: u32,
    pub max_x: u32,
    pub max_y: u32,
    /// The side of the page in texels: the common denominator.
    pub size: u32,
}

impl UvRect {
    /// Every coordinate lies between zero and one, and the corners are in
    /// order.
    pub open spec fn wf(&self) -> bool {
        &&& self.size > 0
        &&& self.min_x <= self.max_x <= self.size
        &&& self.min_y <= self.max_y <= self.size
    }

    /// The coordinates of `rect` on a page of side `size`, with `margin`
    /// texels taken off every edge.
    pub open spec fn of(rect: PixelRect, margin: int, size: u32) -> UvRect {
        let inner = rect.shrink_spec(margin);
        UvRect {
            min_x: inner.min_x,
            min_y: inner.min_y,
            max_x: inner.max_x,
            max_y: inner.max_y,
            size,
        }
    }
}

/// Texture coordinates of one point: `x / size` and `y / size`.
#[derive(Clone, Copy, Debug, PartialEq, Eq, Structural)]
pub struct UvPoint {
    pub x: u32,
    pub y: u32,
    pub size: u32,
}

impl UvRect {
    /// The corner `corner` of the rectangle, counted from the lower corner
    /// along the x axis first: `(min, min)`, `(max, min)`, `(max, max)`,
    /// `(min, max)`.
    pub open spec fn corner(&self, corner: int) -> UvPoint {
        UvPoint {
            x: if corner == 1 || corner == 2 {
                self.max_x
            } else {
                self.min_x
            },
            y: if corner == 2 || corner == 3 {
                self.max_y
            } else {
                self.min_y
            },
            size: self.size,
        }
    }
}

/// Where a rectangle is at least twice the margin wide and high, shrinking
/// adds the margin to its lower corner and takes it off its upper corner, so
/// that its texture coordinates are `(min + margin) / size` and
/// `(max - margin) / size` exactly.
pub proof fn lemma_uv_exact(rect: PixelRect, margin: int, size: u32)
    requires
        0 <= margin,
        size > 0,
        rect.within(size as int),
        rect.spec_width() >= 2 * margin,
        rect.spec_height() >= 2 * margin,
    ensures
        UvRect::of(rect, margin, size).min_x == rect.min_x + margin,
        UvRect::of(rect, margin, size).min_y == rect.min_y + margin,
        UvRect::of(rect, margin, size).max_x == rect.max_x - margin,
        UvRect::of(rect, margin, size).max_y == rect.max_y - margin,
        UvRect::of(rect, margin, size).size == size,
        UvRect::of(rect, margin, size).wf(),
{
}

} // verus!
