//! Mirage describes vector graphics: points, lines, rectangles and text,
//! gathered on a surface, read from SVG markup and drawn into a pixel buffer.
pub mod object;
pub mod raster;
pub mod surface;
pub mod svg;
