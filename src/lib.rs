//! Ray-tracer support library: the parts of the renderer whose behaviour does
//! not depend on floating-point arithmetic. The pixel
//! buffer and the render loop over it, square matrices as grids (transpose,
//! submatrix, the terms of the cofactor expansion and their signs), the colour
//! choices of the repeating patterns, gathering the intersections of all
//! shapes, shape identifiers, the PPM text encoding, and writing the encoded
//! image to a sink.
pub mod canvas;
pub mod gather;
pub mod ids;
pub mod matrix;
pub mod output;
pub mod pattern;
pub mod ppm;
pub mod text;
pub mod util;
