//! Pixel sorting: within each row of an image (or each column, by rotating
//! the image first) runs of neighbouring pixels whose value crosses a
//! threshold are sorted by that value.

pub mod text;
pub mod config;
pub mod pixel;
pub mod buffer;
pub mod engine;
pub mod control;
