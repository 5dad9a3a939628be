//! Splitting a screen rectangle into panels.
use vstd::prelude::*;

verus! {

/// A rectangle in pixels: top-left corner, width and height.
#[derive(Clone, Copy, Debug, PartialEq, Eq, Structural)]
pub struct LayoutRect {
    pub x: u32,
    pub y: u32,
    pub w: u32,
    pub h: u32,
}

impl LayoutRect {
    /// A `w` by `h` rectangle at the origin.
    pub fn new(w: u32, h: u32) -> (r: LayoutRect)
        ensures
            r == (LayoutRect { x: 0, y: 0, w, h }),
    {
        LayoutRect { x: 0, y: 0, w, h }
    }

    /// Splits off a left part `w` wide; the right part keeps the rest.
    pub fn vertical_split_left_abs(&self, w: u32) -> (r: (LayoutRect, LayoutRect))
        requires
            w <= self.w,
            self.x + w <= u32::MAX,
        ensures
            r.0 == (LayoutRect { w, ..*self }),
            r.1 == (LayoutRect { x: (self.x + w) as u32, w: (self.w - w) as u32, ..*self }),
    {
        (LayoutRect { w, ..*self }, LayoutRect { w: self.w - w, x: self.x + w, ..*self })
    }

    /// Splits off a right part `w` wide; the left part keeps the rest.
    pub fn vertical_split_right_abs(&self, w: u32) -> (r: (LayoutRect, LayoutRect))
        requires
            w <= self.w,
            self.x + self.w <= u32::MAX,
        ensures
            r.0 == (LayoutRect { w: (self.w - w) as u32, ..*self }),
            r.1 == (LayoutRect { x: (self.x + self.w - w) as u32, w, ..*self }),
    {
        (LayoutRect { w: self.w - w, ..*self }, LayoutRect { w, x: self.x + (self.w - w), ..*self })
    }

    /// Splits off a top part `h` high; the bottom part keeps the rest.
    pub fn horizontal_split_top_abs(&self, h: u32) -> (r: (LayoutRect, LayoutRect))
        requires
            h <= self.h,
            self.y + h <= u32::MAX,
        ensures
            r.0 == (LayoutRect { h, ..*self }),
            r.1 == (LayoutRect { y: (self.y + h) as u32, h: (self.h - h) as u32, ..*self }),
    {
        (LayoutRect { h, ..*self }, LayoutRect { h: self.h - h, y: self.y + h, ..*self })
    }

    /// Splits off a bottom part `h` high; the top part keeps the rest.
    pub fn horizontal_split_bottom_abs(&self, h: u32) -> (r: (LayoutRect, LayoutRect))
        requires
            h <= self.h,
            self.y + self.h <= u32::MAX,
        ensures
            r.0 == (LayoutRect { h: (self.h - h) as u32, ..*self }),
            r.1 == (LayoutRect { y: (self.y + self.h - h) as u32, h, ..*self }),
    {
        (LayoutRect { h: self.h - h, ..*self }, LayoutRect { h, y: self.y + (self.h - h), ..*self })
    }
}

} // verus!
