//! Alpha-compositing of a sparse list of coloured points onto a dense RGBA
//! image buffer.
//!
//! The compositor receives a mutable three-axis image of binary64 channel
//! values with shape `(width, height, 4)`, a two-axis list of unsigned
//! 16-bit pixel coordinates with shape `(n, 2)`, a two-axis list of binary64
//! colour rows with shape `(n, 4)`, and a scalar opacity in `(0, 1]`.  It
//! validates the shapes and the opacity, then blends each colour into the
//! image at its coordinate, in list order, in place.

pub mod arrays;
pub mod bits;
pub mod compositor;
