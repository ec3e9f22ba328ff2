//! Render raster images as colored text in a terminal character grid.
//!
//! The library models a decoded image as a plain pixel grid, averages
//! rectangular pixel blocks into colors, composes two stacked colors into one
//! half-block glyph per character cell, and keeps a pannable, zoomable
//! viewport over the source image clamped to its bounds.

pub mod average;
pub mod glyph;
pub mod half_block;
pub mod image_data;
pub mod metadata;
pub mod render;
pub mod state;
pub mod viewport;
