//! Software rasterization of a single vertex-coloured triangle, with three
//! independent fill strategies (bounding-box barycentric scan, scanline edge
//! walking and per-pixel ray casting) over exact integer geometry.
pub mod barycentric;
pub mod buffer;
pub mod color;
pub mod interpolator;
pub mod raytraced;
pub mod scanline;
pub mod screen;
pub mod triangle;
