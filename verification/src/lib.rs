//! Line rasterization on the integer lattice, with a software compositor.

pub mod agreement;
pub mod bresenham;
pub mod closeness;
pub mod common;
pub mod dda;
pub mod gpu;
pub mod laws;
pub mod line;
pub mod lines_renderer;
pub mod nearest;
pub mod pixel;
pub mod slope_intercept;
