//! Rasterization of geometric primitives onto an abstract pixel surface.
//!
//! Shapes — points, line segments, triangles, rectangles, circles, regular
//! polygons and a pseudo-3D cube skeleton — are converted into exact
//! sequences of integer pixel coordinates, which are handed, together with a
//! color, to a pixel sink.  The pixel sequences are specified over
//! mathematical integers: rounded rational division and rounded integer
//! square roots stand in for the usual floating-point formulas, so every
//! emitted pixel is pinned down exactly by the contracts.

pub mod cubes;
pub mod geometrical_shapes;
pub mod polygons;
pub mod rounding;
