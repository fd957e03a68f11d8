//! Rasterization core for a fixed-resolution framebuffer: a flat byte
//! pixel buffer, palette-based color resolution, and the primitive drawing
//! operations (pixel, line, rectangle, circle, sprite blit) with strict
//! bounds safety.

pub mod color;
pub mod draw_context;
pub mod input;
pub mod params;
pub mod pixel_buffer;
pub mod resolution;
pub mod rom;
pub mod sprite_sheet;
