//! Axis-aligned integer rectangles.

use vstd::prelude::*;

verus! {

/// A rectangle given by its left, top, right and bottom edges.
#[derive(PartialEq, Eq, Structural, Clone, Copy, Debug)]
pub struct Rect {
    pub left: i32,
    pub top: i32,
    pub right: i32,
    pub bottom: i32,
}

impl Rect {
    /// Create a rectangle with the given edges. No range checking is done:
    /// the caller decides whether `left <= right` and `top <= bottom`.
    pub fn new(left: i32, top: i32, right: i32, bottom: i32) -> (r: Rect)
        ensures
            r == (Rect { left, top, right, bottom }),
    {
        Rect { left, top, right, bottom }
    }

    /// Whether the rectangle is empty: `left >= right` or `top >= bottom`.
    pub fn is_empty(&self) -> (r: bool)
        ensures
            r == (self.left >= self.right || self.top >= self.bottom),
    {
        self.left >= self.right || self.top >= self.bottom
    }

    /// Whether the rectangle is valid: `left <= right` and `top <= bottom`.
    pub fn is_valid(&self) -> (r: bool)
        ensures
            r == (self.left <= self.right && self.top <= self.bottom),
    {
        self.left <= self.right && self.top <= self.bottom
    }

    /// The rectangle's width `right - left`; negative when the rectangle is
    /// not valid.
    pub fn width(&self) -> (r: i32)
        requires
            i32::MIN <= self.right - self.left <= i32::MAX,
        ensures
            r == self.right - self.left,
    {
        self.right - self.left
    }

    /// The rectangle's height `bottom - top`; negative when the rectangle is
    /// not valid.
    pub fn height(&self) -> (r: i32)
        requires
            i32::MIN <= self.bottom - self.top <= i32::MAX,
        ensures
            r == self.bottom - self.top,
    {
        self.bottom - self.top
    }

    /// The horizontal center, rounded toward negative infinity.
    pub fn center_x(&self) -> (r: i32)
        requires
            i32::MIN <= self.left + self.right <= i32::MAX,
        ensures
            2 * r <= self.left + self.right,
            self.left + self.right <= 2 * r + 1,
    {
        let s = self.left + self.right;
        proof {
            assert(2 * (s >> 1) <= s <= 2 * (s >> 1) + 1) by (bit_vector);
        }
        s >> 1
    }

    /// The vertical center, rounded toward negative infinity.
    pub fn center_y(&self) -> (r: i32)
        requires
            i32::MIN <= self.top + self.bottom <= i32::MAX,
        ensures
            2 * r <= self.top + self.bottom,
            self.top + self.bottom <= 2 * r + 1,
    {
        let s = self.top + self.bottom;
        proof {
            assert(2 * (s >> 1) <= s <= 2 * (s >> 1) + 1) by (bit_vector);
        }
        s >> 1
    }

    /// Set all four edges.
    pub fn set(&mut self, left: i32, top: i32, right: i32, bottom: i32)
        ensures
            *final(self) == (Rect { left, top, right, bottom }),
    {
        self.left = left;
        self.top = top;
        self.right = right;
        self.bottom = bottom;
    }

    /// Move the rectangle by `dx` horizontally and `dy` vertically.
    pub fn offset(&mut self, dx: i32, dy: i32)
        requires
            i32::MIN <= old(self).left + dx <= i32::MAX,
            i32::MIN <= old(self).right + dx <= i32::MAX,
            i32::MIN <= old(self).top + dy <= i32::MAX,
            i32::MIN <= old(self).bottom + dy <= i32::MAX,
        ensures
            final(self).left == old(self).left + dx,
            final(self).top == old(self).top + dy,
            final(self).right == old(self).right + dx,
            final(self).bottom == old(self).bottom + dy,
    {
        self.left = self.left + dx;
        self.top = self.top + dy;
        self.right = self.right + dx;
        self.bottom = self.bottom + dy;
    }

    /// Move the rectangle so that its left-top corner is `(new_left, new_top)`,
    /// keeping its width and height.
    pub fn offset_to(&mut self, new_left: i32, new_top: i32)
        requires
            i32::MIN <= new_left - old(self).left <= i32::MAX,
            i32::MIN <= new_top - old(self).top <= i32::MAX,
            i32::MIN <= old(self).right + (new_left - old(self).left) <= i32::MAX,
            i32::MIN <= old(self).bottom + (new_top - old(self).top) <= i32::MAX,
        ensures
            final(self).left == new_left,
            final(self).top == new_top,
            final(self).right == old(self).right + (new_left - old(self).left),
            final(self).bottom == old(self).bottom + (new_top - old(self).top),
    {
        self.right = self.right + (new_left - self.left);
        self.bottom = self.bottom + (new_top - self.top);
        self.left = new_left;
        self.top = new_top;
    }

    /// Intersect this rectangle with the one given by the four edges: when
    /// they overlap, shrink this rectangle to the intersection and return
    /// true; otherwise leave it unchanged and return false.
    pub fn intersect(&mut self, left: i32, top: i32, right: i32, bottom: i32) -> (r: bool)
        ensures
            r == (old(self).left < right && left < old(self).right && old(self).top < bottom
                && top < old(self).bottom),
            r ==> final(self).left == if old(self).left < left {
                left
            } else {
                old(self).left
            },
            r ==> final(self).top == if old(self).top < top {
                top
            } else {
                old(self).top
            },
            r ==> final(self).right == if old(self).right > right {
                right
            } else {
                old(self).right
            },
            r ==> final(self).bottom == if old(self).bottom > bottom {
                bottom
            } else {
                old(self).bottom
            },
            !r ==> *final(self) == *old(self),
    {
        if self.left < right && left < self.right && self.top < bottom && top < self.bottom {
            if self.left < left {
                self.left = left;
            }
            if self.top < top {
                self.top = top;
            }
            if self.right > right {
                self.right = right;
            }
            if self.bottom > bottom {
                self.bottom = bottom;
            }
            return true;
        }
        false
    }

    /// Shrink this rectangle to its intersection with `other`, without
    /// checking that the two overlap.
    pub fn intersect_unchecked(&mut self, other: Rect)
        ensures
            final(self).left == if old(self).left >= other.left {
                old(self).left
            } else {
                other.left
            },
            final(self).top == if old(self).top >= other.top {
                old(self).top
            } else {
                other.top
            },
            final(self).right == if old(self).right <= other.right {
                old(self).right
            } else {
                other.right
            },
            final(self).bottom == if old(self).bottom <= other.bottom {
                old(self).bottom
            } else {
                other.bottom
            },
    {
        self.left = if self.left >= other.left {
            self.left
        } else {
            other.left
        };
        self.top = if self.top >= other.top {
            self.top
        } else {
            other.top
        };
        self.right = if self.right <= other.right {
            self.right
        } else {
            other.right
        };
        self.bottom = if self.bottom <= other.bottom {
            self.bottom
        } else {
            other.bottom
        };
    }

    /// Whether this rectangle overlaps the one given by the four edges.
    pub fn intersects(&self, left: i32, top: i32, right: i32, bottom: i32) -> (r: bool)
        ensures
            r == (self.left < right && left < self.right && self.top < bottom && top
                < self.bottom),
    {
        self.left < right && left < self.right && self.top < bottom && top < self.bottom
    }
}

impl Default for Rect {
    /// The empty rectangle with all edges at 0.
    fn default() -> (r: Rect)
        ensures
            r == (Rect { left: 0, top: 0, right: 0, bottom: 0 }),
    {
        Rect { left: 0, top: 0, right: 0, bottom: 0 }
    }
}

} // verus!
