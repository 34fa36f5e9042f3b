//! The numeric and geometric core: fixed-point scalars, vectors,
//! rectangles, the camera transform and ellipse geometry.

pub mod camera;
pub mod ellipsis;
pub mod circle;
pub mod rect;
pub mod scalar;
