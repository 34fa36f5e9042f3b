//! A circle as a center and a radius.

use vstd::prelude::*;
use crate::math::scalar::{Fixed, Vec2};

verus! {

/// A circle in world space.
#[derive(Clone, Copy, Debug, PartialEq, Eq)]
pub struct Circle {
    pub center: Vec2,
    pub radius: Fixed,
}

} // verus!
