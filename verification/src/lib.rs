//! Renders text carrying ANSI SGR escape sequences into a raster
//! image, as a terminal would show it.
//!
//! The pipeline is three stages composed by [`render::draw_image`]:
//! the [`tokenizer`] splits raw input into text runs and escape
//! sequences; the [`sgr`] interpreter resolves each "Select Graphics
//! Rendition" parameter list into at most one rendering command over
//! the [`color`] tables; and the [`layout`] engine walks the command
//! stream once, painting every character cell's background into a
//! [`canvas`] sized by the [`text`] measurement pre-pass and
//! collecting the exact position, color and style of every glyph.
//! Glyph rasterization itself is a caller's concern: a font engine
//! takes the returned placements and stamps them onto the finished
//! canvas.

pub mod canvas;
pub mod color;
pub mod command;
pub mod layout;
pub mod render;
pub mod sgr;
pub mod text;
pub mod tokenizer;
