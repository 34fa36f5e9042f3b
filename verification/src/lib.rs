//! A small 2D geometry and viewport-transform engine for drawing a
//! hierarchical, time-evolving orbital system onto a resizable screen.
//!
//! All coordinates are exact fixed-point numbers (micro-units on `i128`),
//! so every transform and every emitted primitive is fully specified.

pub mod math;
pub mod widgets;
