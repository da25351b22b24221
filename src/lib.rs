//! A growable square grid of colored, attributable pixels, and the zoom
//! state of the canvas that shows it.
pub mod color;
pub mod grid;
pub mod viewport;
