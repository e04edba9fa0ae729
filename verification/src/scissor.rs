//! Scissor rectangles.
//!
//! The toolkit clips each draw command to a rectangle in its own coordinates,
//! whose origin is the top-left corner of the window. The GPU restricts
//! rasterisation to a rectangle in viewport pixels, whose origin is the
//! bottom-left corner. This module maps the first to the second.

use vstd::prelude::*;

verus! {

/// A clip rectangle in toolkit coordinates: whole pixels, origin at the
/// top-left corner, `y` growing downwards.
///
/// The toolkit stores clip rectangles as floats, but every rectangle that its
/// converter emits is built from 16-bit integers, so whole pixels lose nothing.
#[derive(Clone, Copy, Debug, PartialEq, Eq)]
pub struct ClipRect {
    pub x: i32,
    pub y: i32,
    pub w: i32,
    pub h: i32,
}

/// Pixel dimensions of the render target.
#[derive(Clone, Copy, Debug, PartialEq, Eq)]
pub struct Viewport {
    pub width: u32,
    pub height: u32,
}

/// A scissor rectangle in viewport pixels, origin at the bottom-left corner.
#[derive(Clone, Copy, Debug, PartialEq, Eq)]
pub struct Scissor {
    pub left: u32,
    pub bottom: u32,
    pub width: u32,
    pub height: u32,
}

/// The value nearest to `v` that a `u32` holds.
pub open spec fn saturate(v: int) -> int {
    if v < 0 {
        0
    } else if v > u32::MAX {
        u32::MAX as int
    } else {
        v
    }
}

impl ClipRect {
    /// Left edge of the scissor: the rectangle's own, or the viewport's where
    /// the rectangle starts left of it.
    pub open spec fn scissor_left(self) -> int {
        if self.x < 0 {
            0
        } else {
            self.x as int
        }
    }

    /// Bottom edge of the scissor on a target `target_height` pixels high.
    ///
    /// The vertical axis is flipped: a rectangle that starts `y` pixels below
    /// the top and is `h` high ends `target_height - y - h` pixels above the
    /// bottom. A rectangle that starts above the top is anchored at the bottom.
    pub open spec fn scissor_bottom(self, target_height: int) -> int {
        if self.y < 0 {
            0
        } else {
            saturate(target_height - self.y - self.h)
        }
    }

    /// Width of the scissor: the rectangle's own, less what lies left of the
    /// viewport.
    pub open spec fn scissor_width(self) -> int {
        if self.x < 0 {
            saturate(self.w + self.x)
        } else {
            saturate(self.w as int)
        }
    }

    /// Height of the scissor: the rectangle's own, less what lies above the
    /// viewport.
    pub open spec fn scissor_height(self) -> int {
        if self.y < 0 {
            saturate(self.h + self.y)
        } else {
            saturate(self.h as int)
        }
    }

    /// The rectangle has a non-negative extent and lies wholly on the target.
    pub open spec fn inside(self, viewport: Viewport) -> bool {
        &&& 0 <= self.x
        &&& 0 <= self.y
        &&& 0 <= self.w
        &&& 0 <= self.h
        &&& self.x + self.w <= viewport.width
        &&& self.y + self.h <= viewport.height
    }
}

/// The scissor rectangle for `clip` on a target of the given dimensions.
pub open spec fn scissor_spec(clip: ClipRect, viewport: Viewport) -> Scissor {
    Scissor {
        left: clip.scissor_left() as u32,
        bottom: clip.scissor_bottom(viewport.height as int) as u32,
        width: clip.scissor_width() as u32,
        height: clip.scissor_height() as u32,
    }
}

/// Clamps `v` into the range of `u32`.
fn saturate_u32(v: i64) -> (r: u32)
    ensures
        r == saturate(v as int),
{
    if v < 0 {
        0
    } else if v > 0xffff_ffff {
        0xffff_ffff
    } else {
        v as u32
    }
}

/// Computes the scissor rectangle for `clip` on a target of the given
/// dimensions.
pub fn scissor(clip: &ClipRect, viewport: &Viewport) -> (s: Scissor)
    ensures
        s == scissor_spec(*clip, *viewport),
        s.left == clip.scissor_left(),
        s.bottom == clip.scissor_bottom(viewport.height as int),
        s.width == clip.scissor_width(),
        s.height == clip.scissor_height(),
{
    let x: i64 = clip.x as i64;
    let y: i64 = clip.y as i64;
    let w: i64 = clip.w as i64;
    let h: i64 = clip.h as i64;
    let target_height: i64 = viewport.height as i64;
    let left: u32 = if x < 0 {
        0
    } else {
        saturate_u32(x)
    };
    let bottom: u32 = if y < 0 {
        0
    } else {
        saturate_u32(target_height - y - h)
    };
    let width: u32 = if x < 0 {
        saturate_u32(w + x)
    } else {
        saturate_u32(w)
    };
    let height: u32 = if y < 0 {
        saturate_u32(h + y)
    } else {
        saturate_u32(h)
    };
    Scissor { left, bottom, width, height }
}

/// Clamping has no effect on a rectangle that lies wholly on the target: the
/// scissor keeps its left edge and its extent, and only the vertical axis is
/// flipped.
pub proof fn lemma_scissor_inside(clip: ClipRect, viewport: Viewport)
    requires
        clip.inside(viewport),
    ensures
        scissor_spec(clip, viewport) == (Scissor {
            left: clip.x as u32,
            bottom: (viewport.height - clip.y - clip.h) as u32,
            width: clip.w as u32,
            height: clip.h as u32,
        }),
        clip.scissor_left() == clip.x,
        clip.scissor_bottom(viewport.height as int) == viewport.height - clip.y - clip.h,
        clip.scissor_width() == clip.w,
        clip.scissor_height() == clip.h,
        clip.scissor_left() + clip.scissor_width() <= viewport.width,
        clip.scissor_bottom(viewport.height as int) + clip.scissor_height() <= viewport.height,
{
}

/// Every edge and extent of a scissor fits a `u32`, whatever the rectangle.
pub proof fn lemma_scissor_in_range(clip: ClipRect, target_height: int)
    ensures
        0 <= clip.scissor_left() <= u32::MAX,
        0 <= clip.scissor_bottom(target_height) <= u32::MAX,
        0 <= clip.scissor_width() <= u32::MAX,
        0 <= clip.scissor_height() <= u32::MAX,
{
}

} // verus!
