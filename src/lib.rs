//! Frame buffer for the 2.7 inch three-color e-paper panel: two bit planes
//! (black/white and chromatic), addressed under four display rotations.

pub mod color;
pub mod display;
pub mod graphics;

pub use color::TriColor;
pub use display::{
    Display2in7b, DisplayModel, Pixel, BUFFER_LEN, DEFAULT_BACKGROUND_COLOR, HEIGHT, PLANE_LEN,
    WIDTH,
};
pub use graphics::{find_position, find_rotation, outside_display, DisplayRotation};
