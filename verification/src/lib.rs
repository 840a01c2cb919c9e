//! Decoder and rasteriser for AGI picture resources.
//!
//! The crate locates a picture inside a game's volume files, decodes its
//! drawing bytecode into instructions and replays those onto a picture and
//! a priority buffer of 160 by 168 pixels.

pub mod common;
pub mod fill;
pub mod fill_region;
pub mod game;
pub mod inside;
pub mod line;
pub mod resource;
pub mod tags;
pub mod vector;
pub mod palette;
pub mod pic;
pub mod pic_render;
pub mod render_laws;
pub mod pixel_buffer;
