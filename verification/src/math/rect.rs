//! Axis-aligned rectangles, used for the camera's world-visible bounds.

use vstd::prelude::*;
use crate::math::scalar::{fits, Vec2};

verus! {

/// An axis-aligned box given by two corners.
#[derive(Clone, Copy, Debug, PartialEq, Eq)]
pub struct Rect {
    pub top_left: Vec2,
    pub bottom_right: Vec2,
}

impl Rect {
    /// A box from its two corners.
    pub fn new(top_left: Vec2, bottom_right: Vec2) -> (r: Rect)
        ensures
            r.top_left == top_left,
            r.bottom_right == bottom_right,
    {
        Rect { top_left, bottom_right }
    }

    /// The box centered at center reaching radius out along each axis:
    /// `top_left = center - radius`, `bottom_right = center + radius`.
    pub fn from_center_and_radius(center: Vec2, radius: Vec2) -> (r: Rect)
        requires
            center.wf(),
            radius.wf(),
            fits(center.rx() - radius.rx()),
            fits(center.ry() - radius.ry()),
            fits(center.rx() + radius.rx()),
            fits(center.ry() + radius.ry()),
        ensures
            r.top_left.rx() == center.rx() - radius.rx(),
            r.top_left.ry() == center.ry() - radius.ry(),
            r.bottom_right.rx() == center.rx() + radius.rx(),
            r.bottom_right.ry() == center.ry() + radius.ry(),
            r.top_left.wf(),
            r.bottom_right.wf(),
    {
        Rect { top_left: center.sub(radius), bottom_right: center.add(radius) }
    }
}

} // verus!
